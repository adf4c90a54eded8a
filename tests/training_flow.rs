use sentinel::address::session_address;
use sentinel::state::ErrorCode;
use sentinel::store::Key;
use sentinel::training::{
    distribute_reward, log_contribution, register_training_session, update_session_status,
    DistributeReward, LogContribution, RegisterSession, SessionStatus, Sessions, UpdateSessionStatus,
};

const PROGRAM: Key = [7u8; 32];
const TRAINER: Key = [1u8; 32];
const CONTRIBUTOR: Key = [2u8; 32];
const SESSION_ID: Key = [3u8; 32];
const T: i64 = 1_700_000_000;

fn registered(rounds: u32) -> (Sessions, Key) {
    let mut reg = Sessions::new(PROGRAM);
    let at = register_training_session(
        &mut reg,
        &RegisterSession { trainer: TRAINER, now: T },
        SESSION_ID,
        [4u8; 32],
        rounds,
    )
    .unwrap();
    (reg, at)
}

fn set_status(reg: &mut Sessions, session: Key, who: Key, code: u8) -> Result<(), ErrorCode> {
    update_session_status(reg, &UpdateSessionStatus { trainer: who, session }, code)
}

#[test]
fn register_starts_pending_at_round_zero() {
    let (mut reg, at) = registered(5);
    assert_eq!(at, session_address(&PROGRAM, &SESSION_ID).unwrap());
    let s = reg.session(&at).unwrap();
    assert_eq!(s.status, SessionStatus::Pending);
    assert_eq!(s.current_round, 0);
    assert_eq!(s.total_rounds, 5);
    let again = register_training_session(&mut reg, &RegisterSession { trainer: TRAINER, now: T }, SESSION_ID, [4u8; 32], 5);
    assert_eq!(again, Err(ErrorCode::AccountAlreadyInUse));
}

#[test]
fn completing_sets_round_to_total() {
    let (mut reg, at) = registered(5);
    set_status(&mut reg, at, TRAINER, 1).unwrap();
    assert_eq!(reg.session(&at).unwrap().status, SessionStatus::Active);
    assert_eq!(reg.session(&at).unwrap().current_round, 0);
    set_status(&mut reg, at, TRAINER, 2).unwrap();
    let s = reg.session(&at).unwrap();
    assert_eq!(s.status, SessionStatus::Completed);
    assert_eq!(s.current_round, 5);
}

#[test]
fn status_update_errors() {
    let (mut reg, at) = registered(5);
    assert_eq!(set_status(&mut reg, at, CONTRIBUTOR, 1), Err(ErrorCode::Unauthorized));
    assert_eq!(set_status(&mut reg, at, TRAINER, 3), Err(ErrorCode::InvalidStatus));
    assert_eq!(set_status(&mut reg, at, TRAINER, 2), Err(ErrorCode::InvalidStatus));
    assert_eq!(set_status(&mut reg, [9u8; 32], TRAINER, 1), Err(ErrorCode::SessionNotFound));
    assert_eq!(reg.session(&at).unwrap().status, SessionStatus::Pending);
}

#[test]
fn contributions_are_stamped_with_current_round() {
    let (mut reg, at) = registered(3);
    let ctx = LogContribution { contributor: CONTRIBUTOR, session: at, now: T + 1 };
    let c = log_contribution(&mut reg, &ctx, [5u8; 32], 910, 700).unwrap();
    assert_eq!(c.round_id, 0);
    set_status(&mut reg, at, TRAINER, 1).unwrap();
    set_status(&mut reg, at, TRAINER, 2).unwrap();
    let c2 = log_contribution(&mut reg, &ctx, [6u8; 32], 920, 710).unwrap();
    assert_eq!(c2.round_id, 3);
    assert_eq!(reg.contribution_log().len(), 2);
    let missing = LogContribution { contributor: CONTRIBUTOR, session: [9u8; 32], now: T };
    assert_eq!(log_contribution(&mut reg, &missing, [5u8; 32], 1, 1).unwrap_err(), ErrorCode::SessionNotFound);
}

#[test]
fn reward_is_recorded_and_paid_by_caller() {
    let (mut reg, at) = registered(3);
    let ctx = DistributeReward {
        authority: TRAINER,
        session: at,
        funding_account: [10u8; 32],
        contributor_token_account: [11u8; 32],
        now: T + 9,
    };
    let t = distribute_reward(&mut reg, &ctx, CONTRIBUTOR, 42).unwrap();
    assert_eq!((t.from, t.to, t.authority, t.amount), ([10u8; 32], [11u8; 32], TRAINER, 42));
    let r = reg.reward_log()[0];
    assert_eq!((r.contributor, r.session, r.amount, r.timestamp), (CONTRIBUTOR, at, 42, T + 9));
    let bad = DistributeReward { session: [9u8; 32], ..ctx };
    assert_eq!(distribute_reward(&mut reg, &bad, CONTRIBUTOR, 1).unwrap_err(), ErrorCode::SessionNotFound);
    assert_eq!(reg.reward_log().len(), 1);
}
