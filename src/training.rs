use vstd::prelude::*;
use crate::address::{session_address, session_address_spec};
use crate::state::{ErrorCode, TokenTransfer};
use crate::store::{Key, Store, same_key};

verus! {

/// Lifecycle of a training session: Pending, then Active, then Completed.
#[derive(Clone, Copy, Debug, PartialEq, Eq, Structural)]
pub enum SessionStatus {
    Pending,
    Active,
    Completed,
}

/// A multi-round training run that contributors log gradients against.
#[derive(Clone, Copy, Debug)]
pub struct TrainingSession {
    pub trainer: Key,
    pub session_id: Key,
    pub model_hash: Key,
    pub total_rounds: u32,
    pub current_round: u32,
    pub status: SessionStatus,
    pub created_at: i64,
}

/// One logged gradient contribution, stamped with the session's round.
#[derive(Clone, Copy, Debug)]
pub struct Contribution {
    pub contributor: Key,
    /// Address of the session record.
    pub session: Key,
    pub round_id: u32,
    pub gradient_hash: Key,
    pub accuracy: u16,
    pub privacy_score: u16,
    pub timestamp: i64,
}

/// A reward paid for contributions to a session.
#[derive(Clone, Copy, Debug)]
pub struct Reward {
    pub contributor: Key,
    pub session: Key,
    pub amount: u64,
    pub timestamp: i64,
}

/// The caller of `register_training_session`.
#[derive(Clone, Copy, Debug)]
pub struct RegisterSession {
    pub trainer: Key,
    pub now: i64,
}

/// The caller and session named by `log_contribution`.
#[derive(Clone, Copy, Debug)]
pub struct LogContribution {
    pub contributor: Key,
    pub session: Key,
    pub now: i64,
}

/// The caller and session named by `update_session_status`.
#[derive(Clone, Copy, Debug)]
pub struct UpdateSessionStatus {
    pub trainer: Key,
    pub session: Key,
}

/// The signer, session and token accounts named by `distribute_reward`.
#[derive(Clone, Copy, Debug)]
pub struct DistributeReward {
    pub authority: Key,
    pub session: Key,
    pub funding_account: Key,
    pub contributor_token_account: Key,
    pub now: i64,
}

/// The session status with the given code: 0 pending, 1 active, 2 completed.
pub open spec fn status_of_code(code: u8) -> Option<SessionStatus> {
    if code == 0 {
        Some(SessionStatus::Pending)
    } else if code == 1 {
        Some(SessionStatus::Active)
    } else if code == 2 {
        Some(SessionStatus::Completed)
    } else {
        None
    }
}

/// The status a session may move to from `s`.
pub open spec fn next_status(s: SessionStatus) -> Option<SessionStatus> {
    match s {
        SessionStatus::Pending => Some(SessionStatus::Active),
        SessionStatus::Active => Some(SessionStatus::Completed),
        SessionStatus::Completed => None,
    }
}

/// Training sessions keyed by derived address, with the contribution and
/// reward logs in the order they were written.
pub struct Sessions {
    program_id: Key,
    sessions: Store<TrainingSession>,
    contributions: Vec<Contribution>,
    rewards: Vec<Reward>,
}

impl Sessions {
    pub closed spec fn program(&self) -> Seq<u8> {
        self.program_id@
    }

    pub closed spec fn sessions(&self) -> Map<Seq<u8>, TrainingSession> {
        self.sessions.view()
    }

    pub closed spec fn contributions(&self) -> Seq<Contribution> {
        self.contributions@
    }

    pub closed spec fn rewards(&self) -> Seq<Reward> {
        self.rewards@
    }

    /// Each session sits at the address derived from its id, its round never
    /// passes its total, and a completed session stands at its last round.
    pub closed spec fn wf(&self) -> bool {
        &&& self.sessions.wf()
        &&& forall|a: Seq<u8>| #[trigger] self.sessions().contains_key(a) ==> {
            let t = self.sessions()[a];
            &&& session_address_spec(self.program(), t.session_id@) == Some(a)
            &&& t.current_round <= t.total_rounds
            &&& t.status == SessionStatus::Completed ==> t.current_round == t.total_rounds
        }
    }

    pub fn new(program_id: Key) -> (r: Sessions)
        ensures
            r.wf(),
            r.program() == program_id@,
            r.sessions() == Map::<Seq<u8>, TrainingSession>::empty(),
            r.contributions() == Seq::<Contribution>::empty(),
            r.rewards() == Seq::<Reward>::empty(),
    {
        Sessions { program_id, sessions: Store::new(), contributions: Vec::new(), rewards: Vec::new() }
    }

    /// The session record at `at`.
    pub fn session(&self, at: &Key) -> (r: Option<TrainingSession>)
        requires
            self.wf(),
        ensures
            r is Some <==> self.sessions().contains_key(at@),
            r is Some ==> r->0 == self.sessions()[at@],
    {
        match self.sessions.get(at) {
            Some(t) => Some(*t),
            None => None,
        }
    }

    /// The contributions logged so far, oldest first.
    pub fn contribution_log(&self) -> (r: &Vec<Contribution>)
        ensures
            r@ == self.contributions(),
    {
        &self.contributions
    }

    /// The rewards paid so far, oldest first.
    pub fn reward_log(&self) -> (r: &Vec<Reward>)
        ensures
            r@ == self.rewards(),
    {
        &self.rewards
    }
}

/// The sessions are as they were.
pub open spec fn same_sessions(a: Sessions, b: Sessions) -> bool {
    &&& a.program() == b.program()
    &&& a.sessions() == b.sessions()
    &&& a.contributions() == b.contributions()
    &&& a.rewards() == b.rewards()
}

/// Registers a pending session, at round zero, at the address derived from its id.
pub fn register_training_session(
    reg: &mut Sessions,
    ctx: &RegisterSession,
    session_id: Key,
    model_hash: Key,
    total_rounds: u32,
) -> (r: Result<Key, ErrorCode>)
    requires
        old(reg).wf(),
    ensures
        final(reg).wf(),
        ({
            let at = session_address_spec(old(reg).program(), session_id@);
            &&& at is None ==> r == Err::<Key, ErrorCode>(ErrorCode::InvalidSeeds)
            &&& at is Some && old(reg).sessions().contains_key(at->0)
                ==> r == Err::<Key, ErrorCode>(ErrorCode::AccountAlreadyInUse)
            &&& r is Err ==> same_sessions(*old(reg), *final(reg))
            &&& at is Some && !old(reg).sessions().contains_key(at->0) ==> r is Ok && r->Ok_0@ == at->0
                && final(reg).sessions() == old(reg).sessions().insert(at->0, TrainingSession {
                    trainer: ctx.trainer,
                    session_id,
                    model_hash,
                    total_rounds,
                    current_round: 0,
                    status: SessionStatus::Pending,
                    created_at: ctx.now,
                })
                && final(reg).program() == old(reg).program()
                && final(reg).contributions() == old(reg).contributions()
                && final(reg).rewards() == old(reg).rewards()
        }),
{
    let at = match session_address(&reg.program_id, &session_id) {
        Some(a) => a,
        None => return Err(ErrorCode::InvalidSeeds),
    };
    if reg.sessions.contains(&at) {
        return Err(ErrorCode::AccountAlreadyInUse);
    }
    reg.sessions.insert_new(at, TrainingSession {
        trainer: ctx.trainer,
        session_id,
        model_hash,
        total_rounds,
        current_round: 0,
        status: SessionStatus::Pending,
        created_at: ctx.now,
    });
    Ok(at)
}

/// Logs a contribution to a session in whatever state it is, stamped with the
/// session's current round.
pub fn log_contribution(
    reg: &mut Sessions,
    ctx: &LogContribution,
    gradient_hash: Key,
    accuracy: u16,
    privacy_score: u16,
) -> (r: Result<Contribution, ErrorCode>)
    requires
        old(reg).wf(),
    ensures
        final(reg).wf(),
        r is Err <==> !old(reg).sessions().contains_key(ctx.session@),
        r is Err ==> r->Err_0 == ErrorCode::SessionNotFound && same_sessions(*old(reg), *final(reg)),
        r is Ok ==> ({
            let c = Contribution {
                contributor: ctx.contributor,
                session: ctx.session,
                round_id: old(reg).sessions()[ctx.session@].current_round,
                gradient_hash,
                accuracy,
                privacy_score,
                timestamp: ctx.now,
            };
            &&& r->Ok_0 == c
            &&& final(reg).contributions() == old(reg).contributions().push(c)
            &&& final(reg).program() == old(reg).program()
            &&& final(reg).sessions() == old(reg).sessions()
            &&& final(reg).rewards() == old(reg).rewards()
        }),
{
    let t = match reg.sessions.get(&ctx.session) {
        Some(t) => *t,
        None => return Err(ErrorCode::SessionNotFound),
    };
    let c = Contribution {
        contributor: ctx.contributor,
        session: ctx.session,
        round_id: t.current_round,
        gradient_hash,
        accuracy,
        privacy_score,
        timestamp: ctx.now,
    };
    reg.contributions.push(c);
    Ok(c)
}

/// The error that `update_session_status` returns on `reg`, or `None` where it succeeds.
pub open spec fn update_error(reg: Sessions, ctx: UpdateSessionStatus, code: u8) -> Option<ErrorCode> {
    let t = reg.sessions()[ctx.session@];
    if !reg.sessions().contains_key(ctx.session@) {
        Some(ErrorCode::SessionNotFound)
    } else if t.trainer@ != ctx.trainer@ {
        Some(ErrorCode::Unauthorized)
    } else if status_of_code(code) is None || next_status(t.status) != status_of_code(code) {
        Some(ErrorCode::InvalidStatus)
    } else {
        None
    }
}

/// Moves a session one step along Pending, Active, Completed; only its trainer
/// may, and completing it sets its round to its total.
pub fn update_session_status(reg: &mut Sessions, ctx: &UpdateSessionStatus, code: u8) -> (r: Result<(), ErrorCode>)
    requires
        old(reg).wf(),
    ensures
        final(reg).wf(),
        r is Err <==> update_error(*old(reg), *ctx, code) is Some,
        r is Err ==> r->Err_0 == update_error(*old(reg), *ctx, code)->0 && same_sessions(*old(reg), *final(reg)),
        r is Ok ==> ({
            let t = old(reg).sessions()[ctx.session@];
            let s = status_of_code(code)->0;
            &&& final(reg).sessions() == old(reg).sessions().insert(ctx.session@, TrainingSession {
                status: s,
                current_round: if s == SessionStatus::Completed { t.total_rounds } else { t.current_round },
                ..t
            })
            &&& final(reg).program() == old(reg).program()
            &&& final(reg).contributions() == old(reg).contributions()
            &&& final(reg).rewards() == old(reg).rewards()
        }),
{
    let t = match reg.sessions.get(&ctx.session) {
        Some(t) => *t,
        None => return Err(ErrorCode::SessionNotFound),
    };
    if !same_key(&t.trainer, &ctx.trainer) {
        return Err(ErrorCode::Unauthorized);
    }
    let s = if code == 0 {
        SessionStatus::Pending
    } else if code == 1 {
        SessionStatus::Active
    } else if code == 2 {
        SessionStatus::Completed
    } else {
        return Err(ErrorCode::InvalidStatus);
    };
    let allowed = match t.status {
        SessionStatus::Pending => s == SessionStatus::Active,
        SessionStatus::Active => s == SessionStatus::Completed,
        SessionStatus::Completed => false,
    };
    if !allowed {
        return Err(ErrorCode::InvalidStatus);
    }
    let round = if s == SessionStatus::Completed { t.total_rounds } else { t.current_round };
    reg.sessions.replace(&ctx.session, TrainingSession { status: s, current_round: round, ..t });
    Ok(())
}

/// Records a reward for a contributor to a session and returns the transfer
/// that pays it from the caller's funding account, signed by the caller.
pub fn distribute_reward(
    reg: &mut Sessions,
    ctx: &DistributeReward,
    contributor: Key,
    amount: u64,
) -> (r: Result<TokenTransfer, ErrorCode>)
    requires
        old(reg).wf(),
    ensures
        final(reg).wf(),
        r is Err <==> !old(reg).sessions().contains_key(ctx.session@),
        r is Err ==> r->Err_0 == ErrorCode::SessionNotFound && same_sessions(*old(reg), *final(reg)),
        r is Ok ==> ({
            let t = r->Ok_0;
            &&& final(reg).rewards() == old(reg).rewards().push(
                Reward { contributor, session: ctx.session, amount, timestamp: ctx.now },
            )
            &&& t.from == ctx.funding_account && t.to == ctx.contributor_token_account
            &&& t.authority == ctx.authority && t.amount == amount
            &&& final(reg).program() == old(reg).program()
            &&& final(reg).sessions() == old(reg).sessions()
            &&& final(reg).contributions() == old(reg).contributions()
        }),
{
    if !reg.sessions.contains(&ctx.session) {
        return Err(ErrorCode::SessionNotFound);
    }
    reg.rewards.push(Reward { contributor, session: ctx.session, amount, timestamp: ctx.now });
    Ok(TokenTransfer {
        from: ctx.funding_account,
        to: ctx.contributor_token_account,
        authority: ctx.authority,
        amount,
    })
}

} // verus!
