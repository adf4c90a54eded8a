use vstd::prelude::*;
use crate::store::Key;

verus! {

/// Lifecycle of a challenge: it only moves away from `Active`.
#[derive(Clone, Copy, Debug, PartialEq, Eq, Structural)]
pub enum ChallengeStatus {
    Active,
    Closed,
    Expired,
}

/// Lifecycle of a submission: it moves away from `Pending` exactly once.
#[derive(Clone, Copy, Debug, PartialEq, Eq, Structural)]
pub enum SubmissionStatus {
    Pending,
    Approved,
    Rejected,
}

/// Every way an operation can fail. A failed operation leaves the ledger as it was.
#[derive(Clone, Copy, Debug, PartialEq, Eq, Structural)]
pub enum ErrorCode {
    Unauthorized,
    ChallengeNotActive,
    ChallengeExpired,
    SubmissionAlreadyProcessed,
    InvalidAccuracy,
    InsufficientRewardFunds,
    /// The derived address of a new record is already taken.
    AccountAlreadyInUse,
    /// A named record or token account does not exist.
    AccountNotInitialized,
    /// No address could be derived from the seeds.
    InvalidSeeds,
    /// The submission belongs to another challenge than the one named.
    ChallengeMismatch,
    /// A counter or a balance would leave its integer range.
    ArithmeticOverflow,
    /// The reputation record at a contributor's derived address belongs to
    /// another contributor.
    ReputationMismatch,
    InvalidStatus,
    SessionNotFound,
    InvalidRound,
    /// A rejection reason longer than `MAX_REASON_LEN` characters.
    ReasonTooLong,
}

/// The longest rejection reason a submission record holds, in characters.
pub const MAX_REASON_LEN: usize = 95;

/// A reward program: contributors submit models, a moderator approves or rejects them.
#[derive(Clone, Copy, Debug)]
pub struct Challenge {
    pub creator: Key,
    pub challenge_id: Key,
    pub reward_amount: u64,
    pub deadline: i64,
    /// Scaled by 1000 (850 stands for 0.85).
    pub baseline_accuracy: u16,
    pub status: ChallengeStatus,
    pub total_submissions: u32,
    pub approved_submissions: u32,
    pub created_at: i64,
    pub closed_at: Option<i64>,
}

/// One contributor's model entered in one challenge.
#[derive(Clone, Debug)]
pub struct Submission {
    pub contributor: Key,
    /// Address of the challenge record.
    pub challenge: Key,
    pub model_hash: Key,
    /// Scaled by 1000.
    pub accuracy: u16,
    pub metadata_hash: Key,
    pub status: SubmissionStatus,
    pub submitted_at: i64,
    pub approved_at: Option<i64>,
    pub rejected_at: Option<i64>,
    pub rejection_reason: Option<String>,
}

/// Running totals of one contributor's approvals and rewards.
#[derive(Clone, Copy, Debug)]
pub struct ContributorReputation {
    pub contributor: Key,
    pub total_approved: u32,
    /// Kept for the record layout; no operation increments it.
    pub total_rejected: u32,
    pub total_rewards: u64,
    pub rank: u32,
    pub created_at: i64,
}

/// A movement of tokens for the token program to carry out. An approval's
/// transfer is signed by the derived vault address, a reward's by its caller.
#[derive(Clone, Copy, Debug)]
pub struct TokenTransfer {
    pub from: Key,
    pub to: Key,
    pub authority: Key,
    pub amount: u64,
}

/// The callers of `create_challenge`.
#[derive(Clone, Copy, Debug)]
pub struct CreateChallenge {
    pub creator: Key,
    /// Ledger time of the call.
    pub now: i64,
}

/// The callers and records named by `submit_model`.
#[derive(Clone, Copy, Debug)]
pub struct SubmitModel {
    pub contributor: Key,
    /// Address of the challenge record.
    pub challenge: Key,
    pub now: i64,
}

/// The callers and records named by `approve_model`.
#[derive(Clone, Copy, Debug)]
pub struct ApproveModel {
    pub authority: Key,
    pub challenge: Key,
    pub submission: Key,
    pub contributor_token_account: Key,
    pub now: i64,
}

/// The callers and records named by `reject_model`.
#[derive(Clone, Copy, Debug)]
pub struct RejectModel {
    pub authority: Key,
    pub challenge: Key,
    pub submission: Key,
    pub now: i64,
}

/// The caller of `initialize_reputation`.
#[derive(Clone, Copy, Debug)]
pub struct InitializeReputation {
    pub contributor: Key,
    pub now: i64,
}

/// The caller and record named by `close_challenge`.
#[derive(Clone, Copy, Debug)]
pub struct CloseChallenge {
    pub creator: Key,
    pub challenge: Key,
    pub now: i64,
}

} // verus!
