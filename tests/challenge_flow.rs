use sentinel::address::{challenge_address, reputation_address, submission_address, vault_address};
use sentinel::ledger::{
    approve_model, close_challenge, create_challenge, deposit, initialize_reputation, reject_model,
    submit_model, Ledger,
};
use sentinel::state::{
    ApproveModel, ChallengeStatus, CloseChallenge, CreateChallenge, ErrorCode, InitializeReputation,
    RejectModel, SubmissionStatus, SubmitModel,
};
use sentinel::store::Key;

const PROGRAM: Key = [7u8; 32];
const CREATOR: Key = [1u8; 32];
const ALICE: Key = [2u8; 32];
const ALICE_TOKENS: Key = [3u8; 32];
const BOB: Key = [4u8; 32];
const BOB_TOKENS: Key = [5u8; 32];
const MODERATOR: Key = [6u8; 32];
const CHALLENGE_ID: Key = [9u8; 32];
const T: i64 = 1_700_000_000;

struct Setup {
    ledger: Ledger,
    challenge: Key,
    vault: Key,
}

fn setup(reward: u64, funds: u64) -> Setup {
    let mut ledger = Ledger::new(PROGRAM);
    let challenge = create_challenge(
        &mut ledger,
        &CreateChallenge { creator: CREATOR, now: T },
        CHALLENGE_ID,
        reward,
        T + 3600,
        850,
    )
    .unwrap();
    let vault = vault_address(&PROGRAM, &challenge).unwrap();
    deposit(&mut ledger, vault, funds).unwrap();
    deposit(&mut ledger, ALICE_TOKENS, 0).unwrap();
    deposit(&mut ledger, BOB_TOKENS, 0).unwrap();
    Setup { ledger, challenge, vault }
}

fn submit(s: &mut Setup, who: Key, now: i64) -> Result<Key, ErrorCode> {
    submit_model(
        &mut s.ledger,
        &SubmitModel { contributor: who, challenge: s.challenge, now },
        [11u8; 32],
        900,
        [12u8; 32],
    )
}

fn approve(s: &mut Setup, submission: Key, to: Key) -> Result<sentinel::state::TokenTransfer, ErrorCode> {
    approve_model(
        &mut s.ledger,
        &ApproveModel {
            authority: MODERATOR,
            challenge: s.challenge,
            submission,
            contributor_token_account: to,
            now: T + 100,
        },
    )
}

#[test]
fn create_submit_approve_pays_reward() {
    let mut s = setup(1000, 5000);
    let s1 = submit(&mut s, ALICE, T + 10).unwrap();
    let t = approve(&mut s, s1, ALICE_TOKENS).unwrap();
    assert_eq!(t.amount, 1000);
    assert_eq!(t.from, s.vault);
    assert_eq!(t.authority, s.vault);
    assert_eq!(t.to, ALICE_TOKENS);
    let sub = s.ledger.submission(&s1).unwrap();
    assert_eq!(sub.status, SubmissionStatus::Approved);
    assert_eq!(sub.approved_at, Some(T + 100));
    let c = s.ledger.challenge(&s.challenge).unwrap();
    assert_eq!(c.approved_submissions, 1);
    assert_eq!(c.total_submissions, 1);
    let rep_at = reputation_address(&PROGRAM, &ALICE).unwrap();
    let rep = s.ledger.reputation(&rep_at).unwrap();
    assert_eq!(rep.total_approved, 1);
    assert_eq!(rep.total_rewards, 1000);
    assert_eq!(s.ledger.balance(&s.vault), Some(4000));
    assert_eq!(s.ledger.balance(&ALICE_TOKENS), Some(1000));
}

#[test]
fn submit_after_deadline_is_expired() {
    let mut s = setup(1000, 5000);
    assert_eq!(submit(&mut s, BOB, T + 3600), Err(ErrorCode::ChallengeExpired));
    let at = submission_address(&PROGRAM, &s.challenge, &BOB).unwrap();
    assert!(s.ledger.submission(&at).is_none());
    assert_eq!(s.ledger.challenge(&s.challenge).unwrap().total_submissions, 0);
}

#[test]
fn second_approve_fails_and_keeps_balances() {
    let mut s = setup(1000, 5000);
    let s1 = submit(&mut s, ALICE, T + 10).unwrap();
    approve(&mut s, s1, ALICE_TOKENS).unwrap();
    assert_eq!(approve(&mut s, s1, ALICE_TOKENS).unwrap_err(), ErrorCode::SubmissionAlreadyProcessed);
    assert_eq!(s.ledger.balance(&s.vault), Some(4000));
    assert_eq!(s.ledger.balance(&ALICE_TOKENS), Some(1000));
    assert_eq!(s.ledger.challenge(&s.challenge).unwrap().approved_submissions, 1);
}

#[test]
fn close_by_other_than_creator_is_unauthorized() {
    let mut s = setup(1000, 5000);
    let r = close_challenge(&mut s.ledger, &CloseChallenge { creator: BOB, challenge: s.challenge, now: T + 5 });
    assert_eq!(r, Err(ErrorCode::Unauthorized));
    assert_eq!(s.ledger.challenge(&s.challenge).unwrap().status, ChallengeStatus::Active);
}

#[test]
fn close_by_creator_then_submit_is_not_active() {
    let mut s = setup(1000, 5000);
    close_challenge(&mut s.ledger, &CloseChallenge { creator: CREATOR, challenge: s.challenge, now: T + 5 })
        .unwrap();
    let c = s.ledger.challenge(&s.challenge).unwrap();
    assert_eq!(c.status, ChallengeStatus::Closed);
    assert_eq!(c.closed_at, Some(T + 5));
    assert_eq!(submit(&mut s, ALICE, T + 10), Err(ErrorCode::ChallengeNotActive));
    let again = close_challenge(&mut s.ledger, &CloseChallenge { creator: CREATOR, challenge: s.challenge, now: T + 6 });
    assert_eq!(again, Err(ErrorCode::ChallengeNotActive));
}

#[test]
fn second_submission_from_same_contributor_fails() {
    let mut s = setup(1000, 5000);
    submit(&mut s, ALICE, T + 10).unwrap();
    assert_eq!(submit(&mut s, ALICE, T + 11), Err(ErrorCode::AccountAlreadyInUse));
    submit(&mut s, BOB, T + 12).unwrap();
    assert_eq!(s.ledger.challenge(&s.challenge).unwrap().total_submissions, 2);
}

#[test]
fn approve_without_funds_changes_nothing() {
    let mut s = setup(1000, 999);
    let s1 = submit(&mut s, ALICE, T + 10).unwrap();
    assert_eq!(approve(&mut s, s1, ALICE_TOKENS).unwrap_err(), ErrorCode::InsufficientRewardFunds);
    assert_eq!(s.ledger.submission(&s1).unwrap().status, SubmissionStatus::Pending);
    assert_eq!(s.ledger.challenge(&s.challenge).unwrap().approved_submissions, 0);
    assert_eq!(s.ledger.balance(&s.vault), Some(999));
    let rep_at = reputation_address(&PROGRAM, &ALICE).unwrap();
    assert!(s.ledger.reputation(&rep_at).is_none());
}

#[test]
fn reject_then_approve_fails() {
    let mut s = setup(1000, 5000);
    let s1 = submit(&mut s, ALICE, T + 10).unwrap();
    let ctx = RejectModel { authority: MODERATOR, challenge: s.challenge, submission: s1, now: T + 50 };
    reject_model(&mut s.ledger, &ctx, String::from("below baseline")).unwrap();
    let sub = s.ledger.submission(&s1).unwrap();
    assert_eq!(sub.status, SubmissionStatus::Rejected);
    assert_eq!(sub.rejected_at, Some(T + 50));
    assert_eq!(sub.approved_at, None);
    assert_eq!(sub.rejection_reason, Some(String::from("below baseline")));
    assert_eq!(reject_model(&mut s.ledger, &ctx, String::from("again")), Err(ErrorCode::SubmissionAlreadyProcessed));
    assert_eq!(approve(&mut s, s1, ALICE_TOKENS).unwrap_err(), ErrorCode::SubmissionAlreadyProcessed);
    assert_eq!(s.ledger.balance(&s.vault), Some(5000));
}

#[test]
fn reject_with_long_reason_fails() {
    let mut s = setup(1000, 5000);
    let s1 = submit(&mut s, ALICE, T + 10).unwrap();
    let ctx = RejectModel { authority: MODERATOR, challenge: s.challenge, submission: s1, now: T + 50 };
    let long = "x".repeat(96);
    assert_eq!(reject_model(&mut s.ledger, &ctx, long), Err(ErrorCode::ReasonTooLong));
    reject_model(&mut s.ledger, &ctx, "y".repeat(95)).unwrap();
}

#[test]
fn rewards_accumulate_across_challenges() {
    let mut s = setup(1000, 5000);
    let other = create_challenge(
        &mut s.ledger,
        &CreateChallenge { creator: CREATOR, now: T },
        [10u8; 32],
        250,
        T + 3600,
        800,
    )
    .unwrap();
    let other_vault = vault_address(&PROGRAM, &other).unwrap();
    deposit(&mut s.ledger, other_vault, 250).unwrap();
    let s1 = submit(&mut s, ALICE, T + 10).unwrap();
    approve(&mut s, s1, ALICE_TOKENS).unwrap();
    let s2 = submit_model(
        &mut s.ledger,
        &SubmitModel { contributor: ALICE, challenge: other, now: T + 10 },
        [13u8; 32],
        810,
        [14u8; 32],
    )
    .unwrap();
    approve_model(
        &mut s.ledger,
        &ApproveModel { authority: MODERATOR, challenge: other, submission: s2, contributor_token_account: ALICE_TOKENS, now: T + 20 },
    )
    .unwrap();
    let rep = s.ledger.reputation(&reputation_address(&PROGRAM, &ALICE).unwrap()).unwrap();
    assert_eq!(rep.total_approved, 2);
    assert_eq!(rep.total_rewards, 1250);
    assert_eq!(s.ledger.balance(&ALICE_TOKENS), Some(1250));
    assert_eq!(s.ledger.balance(&other_vault), Some(0));
}

#[test]
fn approve_through_wrong_challenge_is_mismatch() {
    let mut s = setup(1000, 5000);
    let other = create_challenge(
        &mut s.ledger,
        &CreateChallenge { creator: CREATOR, now: T },
        [10u8; 32],
        5,
        T + 3600,
        800,
    )
    .unwrap();
    let s1 = submit(&mut s, ALICE, T + 10).unwrap();
    let r = approve_model(
        &mut s.ledger,
        &ApproveModel { authority: MODERATOR, challenge: other, submission: s1, contributor_token_account: ALICE_TOKENS, now: T + 20 },
    );
    assert_eq!(r.unwrap_err(), ErrorCode::ChallengeMismatch);
}

#[test]
fn approve_to_unknown_account_fails() {
    let mut s = setup(1000, 5000);
    let s1 = submit(&mut s, ALICE, T + 10).unwrap();
    assert_eq!(approve(&mut s, s1, [99u8; 32]).unwrap_err(), ErrorCode::AccountNotInitialized);
    assert_eq!(approve(&mut s, [98u8; 32], ALICE_TOKENS).unwrap_err(), ErrorCode::AccountNotInitialized);
}

#[test]
fn duplicate_challenge_id_fails() {
    let mut s = setup(1000, 5000);
    let r = create_challenge(&mut s.ledger, &CreateChallenge { creator: BOB, now: T }, CHALLENGE_ID, 1, T + 1, 1);
    assert_eq!(r, Err(ErrorCode::AccountAlreadyInUse));
    assert_eq!(s.ledger.challenge(&s.challenge).unwrap().creator, CREATOR);
}

#[test]
fn reputation_initializes_once_and_approval_reuses_it() {
    let mut s = setup(1000, 5000);
    let at = initialize_reputation(&mut s.ledger, &InitializeReputation { contributor: ALICE, now: T + 1 }).unwrap();
    assert_eq!(at, reputation_address(&PROGRAM, &ALICE).unwrap());
    let r = s.ledger.reputation(&at).unwrap();
    assert_eq!((r.total_approved, r.total_rejected, r.total_rewards, r.rank, r.created_at), (0, 0, 0, 0, T + 1));
    let again = initialize_reputation(&mut s.ledger, &InitializeReputation { contributor: ALICE, now: T + 2 });
    assert_eq!(again, Err(ErrorCode::AccountAlreadyInUse));
    let s1 = submit(&mut s, ALICE, T + 10).unwrap();
    approve(&mut s, s1, ALICE_TOKENS).unwrap();
    let r = s.ledger.reputation(&at).unwrap();
    assert_eq!((r.total_approved, r.total_rewards, r.created_at), (1, 1000, T + 1));
}

#[test]
fn deposit_overflow_fails() {
    let mut s = setup(1, u64::MAX);
    assert_eq!(deposit(&mut s.ledger, s.vault, 1), Err(ErrorCode::ArithmeticOverflow));
    assert_eq!(s.ledger.balance(&s.vault), Some(u64::MAX));
}

#[test]
fn derived_addresses_differ_by_seed() {
    let c = challenge_address(&PROGRAM, &CHALLENGE_ID).unwrap();
    assert_ne!(c, CHALLENGE_ID);
    assert_eq!(c, challenge_address(&PROGRAM, &CHALLENGE_ID).unwrap());
    assert_ne!(c, challenge_address(&PROGRAM, &[10u8; 32]).unwrap());
    assert_ne!(c, challenge_address(&[8u8; 32], &CHALLENGE_ID).unwrap());
    let v = vault_address(&PROGRAM, &c).unwrap();
    assert_ne!(v, c);
    assert_ne!(submission_address(&PROGRAM, &c, &ALICE).unwrap(), submission_address(&PROGRAM, &c, &BOB).unwrap());
    assert_ne!(reputation_address(&PROGRAM, &ALICE).unwrap(), ALICE);
}

#[test]
fn active_challenge_reads_expired_after_deadline() {
    let s = setup(1000, 0);
    let c = s.ledger.challenge(&s.challenge).unwrap();
    assert_eq!(sentinel::ledger::status_at(&c, T + 3599), ChallengeStatus::Active);
    assert_eq!(sentinel::ledger::status_at(&c, T + 3600), ChallengeStatus::Expired);
    assert_eq!(c.status, ChallengeStatus::Active);
}
