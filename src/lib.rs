pub mod address;
pub mod ledger;
pub mod state;
pub mod store;
pub mod training;
