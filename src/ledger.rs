use vstd::prelude::*;
use crate::address::{
    challenge_address, challenge_address_spec, reputation_address, reputation_address_spec,
    submission_address, submission_address_spec, vault_address, vault_address_spec,
};
use crate::state::{
    ApproveModel, Challenge, ChallengeStatus, CloseChallenge, ContributorReputation,
    CreateChallenge, ErrorCode, MAX_REASON_LEN, InitializeReputation, RejectModel, Submission, SubmissionStatus,
    SubmitModel, TokenTransfer,
};
use crate::store::{Key, Store, same_key};
use vstd::string::StrSliceExecFns;

verus! {

/// Addresses of the submissions entered in the challenge at address `c`.
pub open spec fn entered(subs: Map<Seq<u8>, Submission>, c: Seq<u8>) -> Set<Seq<u8>> {
    subs.dom().filter(|a: Seq<u8>| subs[a].challenge@ == c)
}

/// Addresses of the approved submissions of the challenge at address `c`.
pub open spec fn approved_in(subs: Map<Seq<u8>, Submission>, c: Seq<u8>) -> Set<Seq<u8>> {
    subs.dom().filter(
        |a: Seq<u8>| subs[a].challenge@ == c && subs[a].status == SubmissionStatus::Approved,
    )
}

/// The time stamps of a submission agree with its status.
pub open spec fn stamps_agree(s: Submission) -> bool {
    match s.status {
        SubmissionStatus::Pending => s.approved_at is None && s.rejected_at is None
            && s.rejection_reason is None,
        SubmissionStatus::Approved => s.approved_at is Some && s.rejected_at is None
            && s.rejection_reason is None,
        SubmissionStatus::Rejected => s.approved_at is None && s.rejected_at is Some
            && s.rejection_reason is Some,
    }
}


/// Addresses of the approved submissions of `contributor`.
pub open spec fn approved_by(subs: Map<Seq<u8>, Submission>, contributor: Seq<u8>) -> Set<Seq<u8>> {
    subs.dom().filter(
        |a: Seq<u8>| subs[a].contributor@ == contributor && subs[a].status == SubmissionStatus::Approved,
    )
}

/// Sum of the reward amounts of the challenges that the submissions at the
/// addresses in `s` were entered in.
pub open spec fn reward_sum(
    chs: Map<Seq<u8>, Challenge>,
    subs: Map<Seq<u8>, Submission>,
    s: Set<Seq<u8>>,
) -> int
    decreases s.len(),
    when s.finite()
{
    if s.len() == 0 {
        0
    } else {
        let a = s.choose();
        chs[subs[a].challenge@].reward_amount + reward_sum(chs, subs, s.remove(a))
    }
}

proof fn lemma_reward_sum_remove(
    chs: Map<Seq<u8>, Challenge>,
    subs: Map<Seq<u8>, Submission>,
    s: Set<Seq<u8>>,
    a: Seq<u8>,
)
    requires
        s.finite(),
        s.contains(a),
    ensures
        reward_sum(chs, subs, s) == chs[subs[a].challenge@].reward_amount + reward_sum(chs, subs, s.remove(a)),
    decreases s.len(),
{
    let b = s.choose();
    if b != a {
        lemma_reward_sum_remove(chs, subs, s.remove(b), a);
        lemma_reward_sum_remove(chs, subs, s.remove(a), b);
        assert(s.remove(b).remove(a) =~= s.remove(a).remove(b));
    }
}

proof fn lemma_reward_sum_frame(
    chs1: Map<Seq<u8>, Challenge>,
    subs1: Map<Seq<u8>, Submission>,
    chs2: Map<Seq<u8>, Challenge>,
    subs2: Map<Seq<u8>, Submission>,
    s: Set<Seq<u8>>,
)
    requires
        s.finite(),
        forall|a: Seq<u8>| #[trigger] s.contains(a)
            ==> chs1[subs1[a].challenge@].reward_amount == chs2[subs2[a].challenge@].reward_amount,
    ensures
        reward_sum(chs1, subs1, s) == reward_sum(chs2, subs2, s),
    decreases s.len(),
{
    if s.len() > 0 {
        let a = s.choose();
        lemma_reward_sum_frame(chs1, subs1, chs2, subs2, s.remove(a));
    }
}

/// Every reputation's rewards are the sum over its contributor's approved
/// submissions, and every approved submission's contributor has a reputation.
pub open spec fn rewards_agree(
    program: Seq<u8>,
    chs: Map<Seq<u8>, Challenge>,
    subs: Map<Seq<u8>, Submission>,
    reps: Map<Seq<u8>, ContributorReputation>,
) -> bool {
    &&& forall|r: Seq<u8>| #[trigger] reps.contains_key(r)
        ==> reps[r].total_rewards == reward_sum(chs, subs, approved_by(subs, reps[r].contributor@))
    &&& forall|a: Seq<u8>| #[trigger] subs.contains_key(a) && subs[a].status == SubmissionStatus::Approved
        ==> reputation_address_spec(program, subs[a].contributor@) is Some
            && reps.contains_key(reputation_address_spec(program, subs[a].contributor@)->0)
            && reps[reputation_address_spec(program, subs[a].contributor@)->0].contributor
                == subs[a].contributor
}

/// Where reward amounts and the approved sets stay as they are, so do the sums.
proof fn lemma_rewards_agree_frame(
    program: Seq<u8>,
    chs1: Map<Seq<u8>, Challenge>,
    subs1: Map<Seq<u8>, Submission>,
    chs2: Map<Seq<u8>, Challenge>,
    subs2: Map<Seq<u8>, Submission>,
    reps: Map<Seq<u8>, ContributorReputation>,
)
    requires
        subs1.dom().finite(),
        rewards_agree(program, chs1, subs1, reps),
        forall|x: Seq<u8>| #[trigger] approved_by(subs2, x) == approved_by(subs1, x),
        forall|a: Seq<u8>| #[trigger] subs1.contains_key(a) && subs1[a].status == SubmissionStatus::Approved
            ==> chs1[subs1[a].challenge@].reward_amount == chs2[subs2[a].challenge@].reward_amount
                && subs2[a].contributor == subs1[a].contributor,
        forall|a: Seq<u8>| #[trigger] subs2.contains_key(a) && subs2[a].status == SubmissionStatus::Approved
            ==> subs1.contains_key(a) && subs1[a].status == SubmissionStatus::Approved,
    ensures
        rewards_agree(program, chs2, subs2, reps),
{
    assert forall|r: Seq<u8>| #[trigger] reps.contains_key(r)
        implies reps[r].total_rewards == reward_sum(chs2, subs2, approved_by(subs2, reps[r].contributor@)) by {
        let x = reps[r].contributor@;
        subs1.dom().lemma_len_filter(
            |a: Seq<u8>| subs1[a].contributor@ == x && subs1[a].status == SubmissionStatus::Approved,
        );
        assert(approved_by(subs2, x) == approved_by(subs1, x));
        lemma_reward_sum_frame(chs1, subs1, chs2, subs2, approved_by(subs1, x));
    }
    assert forall|a: Seq<u8>| #[trigger] subs2.contains_key(a) && subs2[a].status == SubmissionStatus::Approved
        implies reputation_address_spec(program, subs2[a].contributor@) is Some
            && reps.contains_key(reputation_address_spec(program, subs2[a].contributor@)->0)
            && reps[reputation_address_spec(program, subs2[a].contributor@)->0].contributor
                == subs2[a].contributor by {
        assert(subs1.contains_key(a) && subs1[a].status == SubmissionStatus::Approved);
    }
}

/// The ledger: every record, keyed by its derived address, and the token
/// balances of the accounts it knows, escrow vaults included.
pub struct Ledger {
    program_id: Key,
    challenges: Store<Challenge>,
    submissions: Store<Submission>,
    reputations: Store<ContributorReputation>,
    balances: Store<u64>,
}

impl Ledger {
    pub closed spec fn program(&self) -> Seq<u8> {
        self.program_id@
    }

    pub closed spec fn challenges(&self) -> Map<Seq<u8>, Challenge> {
        self.challenges.view()
    }

    pub closed spec fn submissions(&self) -> Map<Seq<u8>, Submission> {
        self.submissions.view()
    }

    pub closed spec fn reputations(&self) -> Map<Seq<u8>, ContributorReputation> {
        self.reputations.view()
    }

    pub closed spec fn balances(&self) -> Map<Seq<u8>, u64> {
        self.balances.view()
    }

    /// The counters of each challenge count its submissions, each submission
    /// sits at the address derived from its challenge and contributor, and each
    /// reputation at the address derived from its contributor.
    pub closed spec fn wf(&self) -> bool {
        &&& self.challenges.wf()
        &&& self.submissions.wf()
        &&& self.reputations.wf()
        &&& self.balances.wf()
        &&& self.submissions().dom().finite()
        &&& forall|c: Seq<u8>| #[trigger] self.challenges().contains_key(c) ==> {
            &&& self.challenges()[c].total_submissions == entered(self.submissions(), c).len()
            &&& self.challenges()[c].approved_submissions == approved_in(self.submissions(), c).len()
        }
        &&& forall|a: Seq<u8>| #[trigger] self.submissions().contains_key(a) ==> {
            let s = self.submissions()[a];
            &&& self.challenges().contains_key(s.challenge@)
            &&& submission_address_spec(self.program(), s.challenge@, s.contributor@) == Some(a)
            &&& stamps_agree(s)
        }
        &&& forall|a: Seq<u8>| #[trigger] self.reputations().contains_key(a)
            ==> reputation_address_spec(self.program(), self.reputations()[a].contributor@) == Some(a)
        &&& rewards_agree(self.program(), self.challenges(), self.submissions(), self.reputations())
    }

    /// An empty ledger for the program with the given id.
    pub fn new(program_id: Key) -> (l: Ledger)
        ensures
            l.wf(),
            l.program() == program_id@,
            l.challenges() == Map::<Seq<u8>, Challenge>::empty(),
            l.submissions() == Map::<Seq<u8>, Submission>::empty(),
            l.reputations() == Map::<Seq<u8>, ContributorReputation>::empty(),
            l.balances() == Map::<Seq<u8>, u64>::empty(),
    {
        Ledger {
            program_id,
            challenges: Store::new(),
            submissions: Store::new(),
            reputations: Store::new(),
            balances: Store::new(),
        }
    }

    /// The id of the program whose addresses this ledger derives.
    pub fn program_id(&self) -> (r: Key)
        ensures
            r@ == self.program(),
    {
        self.program_id
    }

    /// The challenge record at `at`.
    pub fn challenge(&self, at: &Key) -> (r: Option<Challenge>)
        requires
            self.wf(),
        ensures
            r is Some <==> self.challenges().contains_key(at@),
            r is Some ==> r->0 == self.challenges()[at@],
    {
        match self.challenges.get(at) {
            Some(c) => Some(*c),
            None => None,
        }
    }

    /// The submission record at `at`.
    pub fn submission(&self, at: &Key) -> (r: Option<&Submission>)
        requires
            self.wf(),
        ensures
            r is Some <==> self.submissions().contains_key(at@),
            r is Some ==> *r->0 == self.submissions()[at@],
    {
        self.submissions.get(at)
    }

    /// The reputation record at `at`.
    pub fn reputation(&self, at: &Key) -> (r: Option<ContributorReputation>)
        requires
            self.wf(),
        ensures
            r is Some <==> self.reputations().contains_key(at@),
            r is Some ==> r->0 == self.reputations()[at@],
    {
        match self.reputations.get(at) {
            Some(x) => Some(*x),
            None => None,
        }
    }

    /// The token balance of the account at `at`.
    pub fn balance(&self, at: &Key) -> (r: Option<u64>)
        requires
            self.wf(),
        ensures
            r is Some <==> self.balances().contains_key(at@),
            r is Some ==> r->0 == self.balances()[at@],
    {
        match self.balances.get(at) {
            Some(b) => Some(*b),
            None => None,
        }
    }
}


/// The submission after approval at time `now`.
pub open spec fn approved_record(s: Submission, now: i64) -> Submission {
    Submission { status: SubmissionStatus::Approved, approved_at: Some(now), ..s }
}

/// A contributor's reputation before an approval: the stored one, or a fresh
/// one created at time `now` where none is stored yet.
pub open spec fn reputation_before(
    reps: Map<Seq<u8>, ContributorReputation>,
    at: Seq<u8>,
    contributor: Key,
    now: i64,
) -> ContributorReputation {
    if reps.contains_key(at) {
        reps[at]
    } else {
        ContributorReputation {
            contributor,
            total_approved: 0,
            total_rejected: 0,
            total_rewards: 0,
            rank: 0,
            created_at: now,
        }
    }
}

/// `r` with one more approval and `amount` more in rewards.
pub open spec fn credited(r: ContributorReputation, amount: u64) -> ContributorReputation {
    ContributorReputation {
        total_approved: (r.total_approved + 1) as u32,
        total_rewards: (r.total_rewards + amount) as u64,
        ..r
    }
}

/// The balances after `amount` moves from `from` to `to`.
pub open spec fn transferred(bal: Map<Seq<u8>, u64>, from: Seq<u8>, to: Seq<u8>, amount: u64) -> Map<Seq<u8>, u64> {
    let debited = bal.insert(from, (bal[from] - amount) as u64);
    debited.insert(to, (debited[to] + amount) as u64)
}

/// The error that `approve_model` returns on `l`, or `None` where it succeeds.
pub open spec fn approve_error(l: Ledger, ctx: ApproveModel) -> Option<ErrorCode> {
    let subs = l.submissions();
    let bal = l.balances();
    let s = subs[ctx.submission@];
    let c = l.challenges()[ctx.challenge@];
    let vault = vault_address_spec(l.program(), ctx.challenge@);
    let rep = reputation_address_spec(l.program(), s.contributor@);
    if !subs.contains_key(ctx.submission@) || !l.challenges().contains_key(ctx.challenge@) {
        Some(ErrorCode::AccountNotInitialized)
    } else if s.challenge@ != ctx.challenge@ {
        Some(ErrorCode::ChallengeMismatch)
    } else if s.status != SubmissionStatus::Pending {
        Some(ErrorCode::SubmissionAlreadyProcessed)
    } else if c.status != ChallengeStatus::Active {
        Some(ErrorCode::ChallengeNotActive)
    } else if vault is None || rep is None {
        Some(ErrorCode::InvalidSeeds)
    } else if l.reputations().contains_key(rep->0) && l.reputations()[rep->0].contributor@ != s.contributor@ {
        Some(ErrorCode::ReputationMismatch)
    } else if !bal.contains_key(vault->0) || !bal.contains_key(ctx.contributor_token_account@) {
        Some(ErrorCode::AccountNotInitialized)
    } else if bal[vault->0] < c.reward_amount {
        Some(ErrorCode::InsufficientRewardFunds)
    } else {
        let debited = bal.insert(vault->0, (bal[vault->0] - c.reward_amount) as u64);
        let r = reputation_before(l.reputations(), rep->0, s.contributor, ctx.now);
        if debited[ctx.contributor_token_account@] + c.reward_amount > u64::MAX
            || r.total_approved + 1 > u32::MAX || r.total_rewards + c.reward_amount > u64::MAX {
            Some(ErrorCode::ArithmeticOverflow)
        } else {
            None
        }
    }
}

/// The ledger is as it was.
pub open spec fn unchanged(a: Ledger, b: Ledger) -> bool {
    &&& a.program() == b.program()
    &&& a.challenges() == b.challenges()
    &&& a.submissions() == b.submissions()
    &&& a.reputations() == b.reputations()
    &&& a.balances() == b.balances()
}

proof fn lemma_approved_below_entered(subs: Map<Seq<u8>, Submission>, c: Seq<u8>)
    requires
        subs.dom().finite(),
    ensures
        entered(subs, c).finite(),
        approved_in(subs, c).finite(),
        approved_in(subs, c).subset_of(entered(subs, c)),
        approved_in(subs, c).len() <= entered(subs, c).len(),
        forall|a: Seq<u8>| entered(subs, c).contains(a) && subs[a].status != SubmissionStatus::Approved
            ==> approved_in(subs, c).len() < entered(subs, c).len(),
{
    subs.dom().lemma_len_filter(|a: Seq<u8>| subs[a].challenge@ == c);
    vstd::set_lib::lemma_len_subset(approved_in(subs, c), entered(subs, c));
    assert forall|a: Seq<u8>| entered(subs, c).contains(a) && subs[a].status != SubmissionStatus::Approved
        implies approved_in(subs, c).len() < entered(subs, c).len() by {
        approved_in(subs, c).lemma_subset_not_in_lt(entered(subs, c), a);
    }
}

/// Approves a pending submission: marks it approved, counts it on its
/// challenge and on the contributor's reputation (created if absent), and moves
/// the challenge's reward from its escrow vault to the contributor's token
/// account, all or nothing.
pub fn approve_model(ledger: &mut Ledger, ctx: &ApproveModel) -> (r: Result<TokenTransfer, ErrorCode>)
    requires
        old(ledger).wf(),
    ensures
        final(ledger).wf(),
        r is Err <==> approve_error(*old(ledger), *ctx) is Some,
        r is Err ==> r->Err_0 == approve_error(*old(ledger), *ctx)->0 && unchanged(*old(ledger), *final(ledger)),
        r is Ok ==> ({
            let l = *old(ledger);
            let s = l.submissions()[ctx.submission@];
            let c = l.challenges()[ctx.challenge@];
            let vault = vault_address_spec(l.program(), ctx.challenge@)->0;
            let rep = reputation_address_spec(l.program(), s.contributor@)->0;
            let t = r->Ok_0;
            &&& final(ledger).program() == l.program()
            &&& final(ledger).submissions() == l.submissions().insert(ctx.submission@, approved_record(s, ctx.now))
            &&& final(ledger).challenges() == l.challenges().insert(
                ctx.challenge@,
                Challenge { approved_submissions: (c.approved_submissions + 1) as u32, ..c },
            )
            &&& final(ledger).reputations() == l.reputations().insert(
                rep,
                credited(reputation_before(l.reputations(), rep, s.contributor, ctx.now), c.reward_amount),
            )
            &&& final(ledger).balances() == transferred(l.balances(), vault, ctx.contributor_token_account@, c.reward_amount)
            &&& t.from@ == vault && t.authority@ == vault
            &&& t.to == ctx.contributor_token_account
            &&& t.amount == c.reward_amount
        }),
{
    let s = match ledger.submissions.get(&ctx.submission) {
        Some(s) => s,
        None => return Err(ErrorCode::AccountNotInitialized),
    };
    let c = match ledger.challenges.get(&ctx.challenge) {
        Some(c) => *c,
        None => return Err(ErrorCode::AccountNotInitialized),
    };
    if !same_key(&s.challenge, &ctx.challenge) {
        return Err(ErrorCode::ChallengeMismatch);
    }
    if s.status != SubmissionStatus::Pending {
        return Err(ErrorCode::SubmissionAlreadyProcessed);
    }
    if c.status != ChallengeStatus::Active {
        return Err(ErrorCode::ChallengeNotActive);
    }
    let vault = match vault_address(&ledger.program_id, &ctx.challenge) {
        Some(v) => v,
        None => return Err(ErrorCode::InvalidSeeds),
    };
    let rep_at = match reputation_address(&ledger.program_id, &s.contributor) {
        Some(a) => a,
        None => return Err(ErrorCode::InvalidSeeds),
    };
    let rep = match ledger.reputations.get(&rep_at) {
        Some(r) => *r,
        None => ContributorReputation {
            contributor: s.contributor,
            total_approved: 0,
            total_rejected: 0,
            total_rewards: 0,
            rank: 0,
            created_at: ctx.now,
        },
    };
    if !same_key(&rep.contributor, &s.contributor) {
        return Err(ErrorCode::ReputationMismatch);
    }
    let vault_balance = match ledger.balances.get(&vault) {
        Some(b) => *b,
        None => return Err(ErrorCode::AccountNotInitialized),
    };
    let to_balance = match ledger.balances.get(&ctx.contributor_token_account) {
        Some(b) => *b,
        None => return Err(ErrorCode::AccountNotInitialized),
    };
    if vault_balance < c.reward_amount {
        return Err(ErrorCode::InsufficientRewardFunds);
    }
    let to_after_debit = if same_key(&vault, &ctx.contributor_token_account) {
        vault_balance - c.reward_amount
    } else {
        to_balance
    };
    if to_after_debit > u64::MAX - c.reward_amount || rep.total_approved == u32::MAX
        || rep.total_rewards > u64::MAX - c.reward_amount {
        return Err(ErrorCode::ArithmeticOverflow);
    }
    let ghost old_l = *ledger;
    let ghost subs = old_l.submissions();
    let ghost chs = old_l.challenges();
    let ghost reps = old_l.reputations();
    let ghost x = s.contributor@;
    proof {
        lemma_approved_below_entered(subs, ctx.challenge@);
        assert(entered(subs, ctx.challenge@).contains(ctx.submission@));
    }
    let approved = Submission {
        contributor: s.contributor,
        challenge: s.challenge,
        model_hash: s.model_hash,
        accuracy: s.accuracy,
        metadata_hash: s.metadata_hash,
        status: SubmissionStatus::Approved,
        submitted_at: s.submitted_at,
        approved_at: Some(ctx.now),
        rejected_at: None,
        rejection_reason: None,
    };
    let new_rep = ContributorReputation {
        total_approved: rep.total_approved + 1,
        total_rewards: rep.total_rewards + c.reward_amount,
        ..rep
    };
    let new_challenge = Challenge { approved_submissions: c.approved_submissions + 1, ..c };
    ledger.submissions.replace(&ctx.submission, approved);
    ledger.challenges.replace(&ctx.challenge, new_challenge);
    if ledger.reputations.contains(&rep_at) {
        ledger.reputations.replace(&rep_at, new_rep);
    } else {
        ledger.reputations.insert_new(rep_at, new_rep);
    }
    ledger.balances.replace(&vault, vault_balance - c.reward_amount);
    ledger.balances.replace(&ctx.contributor_token_account, to_after_debit + c.reward_amount);
    proof {
        let new_subs = ledger.submissions();
        assert(new_subs.dom() =~= subs.dom());
        assert forall|k: Seq<u8>| #[trigger] ledger.challenges().contains_key(k) implies {
            &&& ledger.challenges()[k].total_submissions == entered(ledger.submissions(), k).len()
            &&& ledger.challenges()[k].approved_submissions == approved_in(ledger.submissions(), k).len()
        } by {
            assert(entered(new_subs, k) =~= entered(subs, k));
            if k == ctx.challenge@ {
                assert(approved_in(new_subs, k) =~= approved_in(subs, k).insert(ctx.submission@));
            } else {
                assert(approved_in(new_subs, k) =~= approved_in(subs, k));
            }
        }
        assert forall|a: Seq<u8>| #[trigger] ledger.submissions().contains_key(a) implies {
            let s = ledger.submissions()[a];
            &&& ledger.challenges().contains_key(s.challenge@)
            &&& submission_address_spec(ledger.program(), s.challenge@, s.contributor@) == Some(a)
            &&& stamps_agree(s)
        } by {
            assert(subs.contains_key(a));
        }
        assert(approved_record(subs[ctx.submission@], ctx.now) == approved);
        let new_chs = ledger.challenges();
        let new_reps = ledger.reputations();
        let a = ctx.submission@;
        assert forall|y: Seq<u8>| y != x implies #[trigger] approved_by(new_subs, y) == approved_by(subs, y) by {
            assert(approved_by(new_subs, y) =~= approved_by(subs, y));
        }
        let old_set = approved_by(subs, x);
        subs.dom().lemma_len_filter(
            |k: Seq<u8>| subs[k].contributor@ == x && subs[k].status == SubmissionStatus::Approved,
        );
        assert(approved_by(new_subs, x) =~= old_set.insert(a));
        assert(!old_set.contains(a));
        lemma_reward_sum_frame(chs, subs, new_chs, new_subs, old_set);
        lemma_reward_sum_remove(new_chs, new_subs, old_set.insert(a), a);
        assert(old_set.insert(a).remove(a) =~= old_set);
        if !reps.contains_key(rep_at@) {
            assert(old_set =~= Set::empty()) by {
                assert forall|k: Seq<u8>| !old_set.contains(k) by {
                    if old_set.contains(k) {
                        assert(subs.contains_key(k) && subs[k].status == SubmissionStatus::Approved);
                    }
                }
            }
        }
        assert forall|r: Seq<u8>| #[trigger] new_reps.contains_key(r)
            implies new_reps[r].total_rewards == reward_sum(new_chs, new_subs, approved_by(new_subs, new_reps[r].contributor@)) by {
            if r != rep_at@ {
                let y = reps[r].contributor@;
                assert(y != x);
                subs.dom().lemma_len_filter(
                    |k: Seq<u8>| subs[k].contributor@ == y && subs[k].status == SubmissionStatus::Approved,
                );
                assert(approved_by(new_subs, y) == approved_by(subs, y));
                lemma_reward_sum_frame(chs, subs, new_chs, new_subs, approved_by(subs, y));
            }
        }
        assert forall|k: Seq<u8>| #[trigger] new_subs.contains_key(k) && new_subs[k].status == SubmissionStatus::Approved
            implies reputation_address_spec(ledger.program(), new_subs[k].contributor@) is Some
                && new_reps.contains_key(reputation_address_spec(ledger.program(), new_subs[k].contributor@)->0)
                && new_reps[reputation_address_spec(ledger.program(), new_subs[k].contributor@)->0].contributor
                    == new_subs[k].contributor by {
            if k != a {
                assert(subs.contains_key(k) && subs[k].status == SubmissionStatus::Approved);
            }
        }
    }
    Ok(TokenTransfer { from: vault, to: ctx.contributor_token_account, authority: vault, amount: c.reward_amount })
}

/// The status that readers see at time `now`: an active challenge whose
/// deadline has passed reads as expired; its record is not changed.
pub fn status_at(c: &Challenge, now: i64) -> (r: ChallengeStatus)
    ensures
        r == (if c.status == ChallengeStatus::Active && now >= c.deadline {
            ChallengeStatus::Expired
        } else {
            c.status
        }),
{
    if c.status == ChallengeStatus::Active && now >= c.deadline {
        ChallengeStatus::Expired
    } else {
        c.status
    }
}

/// The error that `submit_model` returns on `l`, or `None` where it succeeds.
pub open spec fn submit_error(l: Ledger, ctx: SubmitModel) -> Option<ErrorCode> {
    let c = l.challenges()[ctx.challenge@];
    let at = submission_address_spec(l.program(), ctx.challenge@, ctx.contributor@);
    if !l.challenges().contains_key(ctx.challenge@) {
        Some(ErrorCode::AccountNotInitialized)
    } else if c.status != ChallengeStatus::Active {
        Some(ErrorCode::ChallengeNotActive)
    } else if ctx.now >= c.deadline {
        Some(ErrorCode::ChallengeExpired)
    } else if at is None {
        Some(ErrorCode::InvalidSeeds)
    } else if l.submissions().contains_key(at->0) {
        Some(ErrorCode::AccountAlreadyInUse)
    } else if c.total_submissions == u32::MAX {
        Some(ErrorCode::ArithmeticOverflow)
    } else {
        None
    }
}

/// Enters a contributor's model in an active challenge before its deadline, at
/// the address derived from the challenge and the contributor, and counts it.
pub fn submit_model(
    ledger: &mut Ledger,
    ctx: &SubmitModel,
    model_hash: Key,
    accuracy: u16,
    metadata_hash: Key,
) -> (r: Result<Key, ErrorCode>)
    requires
        old(ledger).wf(),
    ensures
        final(ledger).wf(),
        r is Err <==> submit_error(*old(ledger), *ctx) is Some,
        r is Err ==> r->Err_0 == submit_error(*old(ledger), *ctx)->0 && unchanged(*old(ledger), *final(ledger)),
        r is Ok ==> ({
            let l = *old(ledger);
            let c = l.challenges()[ctx.challenge@];
            let at = r->Ok_0;
            &&& Some(at@) == submission_address_spec(l.program(), ctx.challenge@, ctx.contributor@)
            &&& final(ledger).program() == l.program()
            &&& final(ledger).submissions() == l.submissions().insert(at@, Submission {
                contributor: ctx.contributor,
                challenge: ctx.challenge,
                model_hash,
                accuracy,
                metadata_hash,
                status: SubmissionStatus::Pending,
                submitted_at: ctx.now,
                approved_at: None,
                rejected_at: None,
                rejection_reason: None,
            })
            &&& final(ledger).challenges() == l.challenges().insert(
                ctx.challenge@,
                Challenge { total_submissions: (c.total_submissions + 1) as u32, ..c },
            )
            &&& final(ledger).reputations() == l.reputations()
            &&& final(ledger).balances() == l.balances()
        }),
{
    let c = match ledger.challenges.get(&ctx.challenge) {
        Some(c) => *c,
        None => return Err(ErrorCode::AccountNotInitialized),
    };
    if c.status != ChallengeStatus::Active {
        return Err(ErrorCode::ChallengeNotActive);
    }
    if ctx.now >= c.deadline {
        return Err(ErrorCode::ChallengeExpired);
    }
    let at = match submission_address(&ledger.program_id, &ctx.challenge, &ctx.contributor) {
        Some(a) => a,
        None => return Err(ErrorCode::InvalidSeeds),
    };
    if ledger.submissions.contains(&at) {
        return Err(ErrorCode::AccountAlreadyInUse);
    }
    if c.total_submissions == u32::MAX {
        return Err(ErrorCode::ArithmeticOverflow);
    }
    let ghost subs = ledger.submissions();
    let ghost chs = ledger.challenges();
    let submission = Submission {
        contributor: ctx.contributor,
        challenge: ctx.challenge,
        model_hash,
        accuracy,
        metadata_hash,
        status: SubmissionStatus::Pending,
        submitted_at: ctx.now,
        approved_at: None,
        rejected_at: None,
        rejection_reason: None,
    };
    ledger.submissions.insert_new(at, submission);
    ledger.challenges.replace(&ctx.challenge, Challenge { total_submissions: c.total_submissions + 1, ..c });
    proof {
        let new_subs = ledger.submissions();
        lemma_approved_below_entered(subs, ctx.challenge@);
        assert forall|k: Seq<u8>| #[trigger] ledger.challenges().contains_key(k) implies {
            &&& ledger.challenges()[k].total_submissions == entered(ledger.submissions(), k).len()
            &&& ledger.challenges()[k].approved_submissions == approved_in(ledger.submissions(), k).len()
        } by {
            assert(approved_in(new_subs, k) =~= approved_in(subs, k));
            if k == ctx.challenge@ {
                assert(entered(new_subs, k) =~= entered(subs, k).insert(at@));
            } else {
                assert(entered(new_subs, k) =~= entered(subs, k));
            }
        }
        assert forall|x: Seq<u8>| #[trigger] approved_by(new_subs, x) == approved_by(subs, x) by {
            assert(approved_by(new_subs, x) =~= approved_by(subs, x));
        }
        lemma_rewards_agree_frame(ledger.program(), chs, subs, ledger.challenges(), new_subs, ledger.reputations());
    }
    Ok(at)
}

/// The error that `create_challenge` returns on `l`, or `None` where it succeeds.
pub open spec fn create_error(l: Ledger, challenge_id: Seq<u8>) -> Option<ErrorCode> {
    let at = challenge_address_spec(l.program(), challenge_id);
    if at is None {
        Some(ErrorCode::InvalidSeeds)
    } else if l.challenges().contains_key(at->0) {
        Some(ErrorCode::AccountAlreadyInUse)
    } else if vault_address_spec(l.program(), at->0) is None {
        Some(ErrorCode::InvalidSeeds)
    } else if l.balances().contains_key(vault_address_spec(l.program(), at->0)->0) {
        Some(ErrorCode::AccountAlreadyInUse)
    } else {
        None
    }
}

/// Opens a challenge at the address derived from its id, with an empty escrow
/// vault at the address derived from the challenge's address.
pub fn create_challenge(
    ledger: &mut Ledger,
    ctx: &CreateChallenge,
    challenge_id: Key,
    reward_amount: u64,
    deadline: i64,
    baseline_accuracy: u16,
) -> (r: Result<Key, ErrorCode>)
    requires
        old(ledger).wf(),
    ensures
        final(ledger).wf(),
        r is Err <==> create_error(*old(ledger), challenge_id@) is Some,
        r is Err ==> r->Err_0 == create_error(*old(ledger), challenge_id@)->0 && unchanged(*old(ledger), *final(ledger)),
        r is Ok ==> ({
            let l = *old(ledger);
            let at = r->Ok_0;
            &&& Some(at@) == challenge_address_spec(l.program(), challenge_id@)
            &&& final(ledger).program() == l.program()
            &&& final(ledger).challenges() == l.challenges().insert(at@, Challenge {
                creator: ctx.creator,
                challenge_id,
                reward_amount,
                deadline,
                baseline_accuracy,
                status: ChallengeStatus::Active,
                total_submissions: 0,
                approved_submissions: 0,
                created_at: ctx.now,
                closed_at: None,
            })
            &&& final(ledger).balances() == l.balances().insert(vault_address_spec(l.program(), at@)->0, 0)
            &&& final(ledger).submissions() == l.submissions()
            &&& final(ledger).reputations() == l.reputations()
        }),
{
    let at = match challenge_address(&ledger.program_id, &challenge_id) {
        Some(a) => a,
        None => return Err(ErrorCode::InvalidSeeds),
    };
    if ledger.challenges.contains(&at) {
        return Err(ErrorCode::AccountAlreadyInUse);
    }
    let vault = match vault_address(&ledger.program_id, &at) {
        Some(v) => v,
        None => return Err(ErrorCode::InvalidSeeds),
    };
    if ledger.balances.contains(&vault) {
        return Err(ErrorCode::AccountAlreadyInUse);
    }
    let ghost subs = ledger.submissions();
    let ghost chs = ledger.challenges();
    let challenge = Challenge {
        creator: ctx.creator,
        challenge_id,
        reward_amount,
        deadline,
        baseline_accuracy,
        status: ChallengeStatus::Active,
        total_submissions: 0,
        approved_submissions: 0,
        created_at: ctx.now,
        closed_at: None,
    };
    ledger.challenges.insert_new(at, challenge);
    ledger.balances.insert_new(vault, 0);
    proof {
        assert(entered(subs, at@) =~= Set::empty());
        assert(approved_in(subs, at@) =~= Set::empty());
        assert forall|x: Seq<u8>| #[trigger] approved_by(subs, x) == approved_by(subs, x) by {
            assert(approved_by(subs, x) =~= approved_by(subs, x));
        }
        lemma_rewards_agree_frame(ledger.program(), chs, subs, ledger.challenges(), subs, ledger.reputations());
    }
    Ok(at)
}

/// The error that `reject_model` returns on `l`, or `None` where it succeeds.
pub open spec fn reject_error(l: Ledger, ctx: RejectModel, reason: Seq<char>) -> Option<ErrorCode> {
    if !l.submissions().contains_key(ctx.submission@) || !l.challenges().contains_key(ctx.challenge@) {
        Some(ErrorCode::AccountNotInitialized)
    } else if l.submissions()[ctx.submission@].status != SubmissionStatus::Pending {
        Some(ErrorCode::SubmissionAlreadyProcessed)
    } else if reason.len() > MAX_REASON_LEN {
        Some(ErrorCode::ReasonTooLong)
    } else {
        None
    }
}

/// Rejects a pending submission with a reason. No funds move and no counter changes.
pub fn reject_model(ledger: &mut Ledger, ctx: &RejectModel, reason: String) -> (r: Result<(), ErrorCode>)
    requires
        old(ledger).wf(),
    ensures
        final(ledger).wf(),
        r is Err <==> reject_error(*old(ledger), *ctx, reason@) is Some,
        r is Err ==> r->Err_0 == reject_error(*old(ledger), *ctx, reason@)->0 && unchanged(*old(ledger), *final(ledger)),
        r is Ok ==> ({
            let l = *old(ledger);
            let s = l.submissions()[ctx.submission@];
            &&& final(ledger).program() == l.program()
            &&& final(ledger).submissions() == l.submissions().insert(ctx.submission@, Submission {
                status: SubmissionStatus::Rejected,
                rejected_at: Some(ctx.now),
                rejection_reason: Some(reason),
                ..s
            })
            &&& final(ledger).challenges() == l.challenges()
            &&& final(ledger).reputations() == l.reputations()
            &&& final(ledger).balances() == l.balances()
        }),
{
    let s = match ledger.submissions.get(&ctx.submission) {
        Some(s) => s,
        None => return Err(ErrorCode::AccountNotInitialized),
    };
    if !ledger.challenges.contains(&ctx.challenge) {
        return Err(ErrorCode::AccountNotInitialized);
    }
    if s.status != SubmissionStatus::Pending {
        return Err(ErrorCode::SubmissionAlreadyProcessed);
    }
    if reason.as_str().unicode_len() > MAX_REASON_LEN {
        return Err(ErrorCode::ReasonTooLong);
    }
    let ghost subs = ledger.submissions();
    let ghost chs = ledger.challenges();
    let rejected = Submission {
        contributor: s.contributor,
        challenge: s.challenge,
        model_hash: s.model_hash,
        accuracy: s.accuracy,
        metadata_hash: s.metadata_hash,
        status: SubmissionStatus::Rejected,
        submitted_at: s.submitted_at,
        approved_at: None,
        rejected_at: Some(ctx.now),
        rejection_reason: Some(reason),
    };
    ledger.submissions.replace(&ctx.submission, rejected);
    proof {
        let new_subs = ledger.submissions();
        assert(new_subs.dom() =~= subs.dom());
        assert forall|k: Seq<u8>| #[trigger] ledger.challenges().contains_key(k) implies {
            &&& ledger.challenges()[k].total_submissions == entered(ledger.submissions(), k).len()
            &&& ledger.challenges()[k].approved_submissions == approved_in(ledger.submissions(), k).len()
        } by {
            assert(entered(new_subs, k) =~= entered(subs, k));
            assert(approved_in(new_subs, k) =~= approved_in(subs, k));
        }
        assert forall|a: Seq<u8>| #[trigger] ledger.submissions().contains_key(a) implies {
            let s = ledger.submissions()[a];
            &&& ledger.challenges().contains_key(s.challenge@)
            &&& submission_address_spec(ledger.program(), s.challenge@, s.contributor@) == Some(a)
            &&& stamps_agree(s)
        } by {
            assert(subs.contains_key(a));
        }
        assert forall|x: Seq<u8>| #[trigger] approved_by(new_subs, x) == approved_by(subs, x) by {
            assert(approved_by(new_subs, x) =~= approved_by(subs, x));
        }
        lemma_rewards_agree_frame(ledger.program(), chs, subs, ledger.challenges(), new_subs, ledger.reputations());
    }
    Ok(())
}

/// The error that `initialize_reputation` returns on `l`, or `None` where it succeeds.
pub open spec fn initialize_error(l: Ledger, ctx: InitializeReputation) -> Option<ErrorCode> {
    let at = reputation_address_spec(l.program(), ctx.contributor@);
    if at is None {
        Some(ErrorCode::InvalidSeeds)
    } else if l.reputations().contains_key(at->0) {
        Some(ErrorCode::AccountAlreadyInUse)
    } else {
        None
    }
}

/// Creates a contributor's reputation record, all counters at zero, at the
/// address derived from the contributor.
pub fn initialize_reputation(ledger: &mut Ledger, ctx: &InitializeReputation) -> (r: Result<Key, ErrorCode>)
    requires
        old(ledger).wf(),
    ensures
        final(ledger).wf(),
        r is Err <==> initialize_error(*old(ledger), *ctx) is Some,
        r is Err ==> r->Err_0 == initialize_error(*old(ledger), *ctx)->0 && unchanged(*old(ledger), *final(ledger)),
        r is Ok ==> ({
            let l = *old(ledger);
            let at = r->Ok_0;
            &&& Some(at@) == reputation_address_spec(l.program(), ctx.contributor@)
            &&& final(ledger).program() == l.program()
            &&& final(ledger).reputations() == l.reputations().insert(at@, ContributorReputation {
                contributor: ctx.contributor,
                total_approved: 0,
                total_rejected: 0,
                total_rewards: 0,
                rank: 0,
                created_at: ctx.now,
            })
            &&& final(ledger).challenges() == l.challenges()
            &&& final(ledger).submissions() == l.submissions()
            &&& final(ledger).balances() == l.balances()
        }),
{
    let at = match reputation_address(&ledger.program_id, &ctx.contributor) {
        Some(a) => a,
        None => return Err(ErrorCode::InvalidSeeds),
    };
    if ledger.reputations.contains(&at) {
        return Err(ErrorCode::AccountAlreadyInUse);
    }
    ledger.reputations.insert_new(at, ContributorReputation {
        contributor: ctx.contributor,
        total_approved: 0,
        total_rejected: 0,
        total_rewards: 0,
        rank: 0,
        created_at: ctx.now,
    });
    Ok(at)
}

/// The error that `close_challenge` returns on `l`, or `None` where it succeeds.
pub open spec fn close_error(l: Ledger, ctx: CloseChallenge) -> Option<ErrorCode> {
    let c = l.challenges()[ctx.challenge@];
    if !l.challenges().contains_key(ctx.challenge@) {
        Some(ErrorCode::AccountNotInitialized)
    } else if c.creator@ != ctx.creator@ {
        Some(ErrorCode::Unauthorized)
    } else if c.status != ChallengeStatus::Active {
        Some(ErrorCode::ChallengeNotActive)
    } else {
        None
    }
}

/// Closes an active challenge; only its creator may.
pub fn close_challenge(ledger: &mut Ledger, ctx: &CloseChallenge) -> (r: Result<(), ErrorCode>)
    requires
        old(ledger).wf(),
    ensures
        final(ledger).wf(),
        r is Err <==> close_error(*old(ledger), *ctx) is Some,
        r is Err ==> r->Err_0 == close_error(*old(ledger), *ctx)->0 && unchanged(*old(ledger), *final(ledger)),
        r is Ok ==> ({
            let l = *old(ledger);
            let c = l.challenges()[ctx.challenge@];
            &&& final(ledger).program() == l.program()
            &&& final(ledger).challenges() == l.challenges().insert(
                ctx.challenge@,
                Challenge { status: ChallengeStatus::Closed, closed_at: Some(ctx.now), ..c },
            )
            &&& final(ledger).submissions() == l.submissions()
            &&& final(ledger).reputations() == l.reputations()
            &&& final(ledger).balances() == l.balances()
        }),
{
    let c = match ledger.challenges.get(&ctx.challenge) {
        Some(c) => *c,
        None => return Err(ErrorCode::AccountNotInitialized),
    };
    if !same_key(&c.creator, &ctx.creator) {
        return Err(ErrorCode::Unauthorized);
    }
    if c.status != ChallengeStatus::Active {
        return Err(ErrorCode::ChallengeNotActive);
    }
    let ghost subs = ledger.submissions();
    let ghost chs = ledger.challenges();
    ledger.challenges.replace(&ctx.challenge, Challenge {
        status: ChallengeStatus::Closed,
        closed_at: Some(ctx.now),
        ..c
    });
    proof {
        assert forall|x: Seq<u8>| #[trigger] approved_by(subs, x) == approved_by(subs, x) by {
            assert(approved_by(subs, x) =~= approved_by(subs, x));
        }
        lemma_rewards_agree_frame(ledger.program(), chs, subs, ledger.challenges(), subs, ledger.reputations());
    }
    Ok(())
}

/// Credits `amount` tokens to a token account, opening it at zero first where
/// the ledger does not hold it yet.
pub fn deposit(ledger: &mut Ledger, account: Key, amount: u64) -> (r: Result<(), ErrorCode>)
    requires
        old(ledger).wf(),
    ensures
        final(ledger).wf(),
        ({
            let bal = old(ledger).balances();
            let before: int = if bal.contains_key(account@) { bal[account@] as int } else { 0 };
            &&& r is Err <==> before + amount > u64::MAX
            &&& r is Err ==> r->Err_0 == ErrorCode::ArithmeticOverflow && unchanged(*old(ledger), *final(ledger))
            &&& r is Ok ==> final(ledger).balances() == bal.insert(account@, (before + amount) as u64)
                && final(ledger).program() == old(ledger).program()
                && final(ledger).challenges() == old(ledger).challenges()
                && final(ledger).submissions() == old(ledger).submissions()
                && final(ledger).reputations() == old(ledger).reputations()
        }),
{
    let before = match ledger.balances.get(&account) {
        Some(b) => *b,
        None => 0,
    };
    if before > u64::MAX - amount {
        return Err(ErrorCode::ArithmeticOverflow);
    }
    if ledger.balances.contains(&account) {
        ledger.balances.replace(&account, before + amount);
    } else {
        ledger.balances.insert_new(account, before + amount);
    }
    Ok(())
}

/// On every well-formed ledger, no challenge counts more approved submissions
/// than submissions; every operation keeps the ledger well formed.
pub proof fn law_approved_within_total(l: Ledger, c: Seq<u8>)
    requires
        l.wf(),
        l.challenges().contains_key(c),
    ensures
        l.challenges()[c].approved_submissions <= l.challenges()[c].total_submissions,
{
    lemma_approved_below_entered(l.submissions(), c);
}

/// A submission that has left `Pending` cannot be approved or rejected again:
/// both calls fail with `SubmissionAlreadyProcessed`, and a failed call leaves
/// the ledger as it was.
pub proof fn law_processed_once(l: Ledger, approve: ApproveModel, reject: RejectModel, reason: Seq<char>)
    requires
        l.wf(),
        l.submissions().contains_key(approve.submission@),
        l.submissions()[approve.submission@].status != SubmissionStatus::Pending,
        approve.challenge == l.submissions()[approve.submission@].challenge,
        reject.submission == approve.submission,
        reject.challenge == approve.challenge,
    ensures
        approve_error(l, approve) == Some(ErrorCode::SubmissionAlreadyProcessed),
        reject_error(l, reject, reason) == Some(ErrorCode::SubmissionAlreadyProcessed),
{
    assert(l.challenges().contains_key(approve.challenge@));
}

/// An approval's transfer takes exactly `amount` out of the vault and puts
/// exactly `amount` into the contributor's account; no other balance moves.
pub proof fn law_reward_moves_exactly(bal: Map<Seq<u8>, u64>, vault: Seq<u8>, to: Seq<u8>, amount: u64)
    requires
        bal.contains_key(vault),
        bal.contains_key(to),
        vault != to,
        bal[vault] >= amount,
        bal[to] + amount <= u64::MAX,
    ensures
        transferred(bal, vault, to, amount)[vault] == bal[vault] - amount,
        transferred(bal, vault, to, amount)[to] == bal[to] + amount,
        transferred(bal, vault, to, amount).dom() == bal.dom(),
        forall|k: Seq<u8>| k != vault && k != to && #[trigger] bal.contains_key(k)
            ==> transferred(bal, vault, to, amount)[k] == bal[k],
{
    assert(transferred(bal, vault, to, amount).dom() =~= bal.dom());
}

/// A challenge holds at most one submission from each contributor, and a
/// second submission from the same contributor fails.
pub proof fn law_one_submission_per_contributor(l: Ledger, a: Seq<u8>, b: Seq<u8>, ctx: SubmitModel)
    requires
        l.wf(),
        l.submissions().contains_key(a),
        ctx.challenge == l.submissions()[a].challenge,
        ctx.contributor == l.submissions()[a].contributor,
    ensures
        l.submissions().contains_key(b) && l.submissions()[b].challenge == l.submissions()[a].challenge
            && l.submissions()[b].contributor == l.submissions()[a].contributor ==> a == b,
        submit_error(l, ctx) is Some,
{
}

/// A contributor's total rewards are the sum of the reward amounts of the
/// challenges in which the contributor's submission was approved (one
/// submission per challenge and contributor, so each such challenge counts once).
pub proof fn law_rewards_match_approvals(l: Ledger, r: Seq<u8>)
    requires
        l.wf(),
        l.reputations().contains_key(r),
    ensures
        l.reputations()[r].total_rewards == reward_sum(
            l.challenges(),
            l.submissions(),
            approved_by(l.submissions(), l.reputations()[r].contributor@),
        ),
        forall|a: Seq<u8>, b: Seq<u8>|
            #[trigger] approved_by(l.submissions(), l.reputations()[r].contributor@).contains(a)
                && #[trigger] approved_by(l.submissions(), l.reputations()[r].contributor@).contains(b)
                && l.submissions()[a].challenge == l.submissions()[b].challenge ==> a == b,
{
}

} // verus!
