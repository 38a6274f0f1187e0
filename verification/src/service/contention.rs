//! What holds of checks that work on one bucket at the same time.

use super::{CheckModel, RateLimiterError, Stage};
use crate::limiter::laws::Request;
use crate::limiter::models::{BucketModel, DecisionModel, PolicyModel};
use crate::storage::models::StoredModel;
use crate::storage::{RepositoryError, StoreCall};
use vstd::prelude::*;

verus! {

/// A decision that was written, with the number of the check that wrote it and
/// the request it answers.
pub struct Commit {
    pub check: int,
    pub request: Request,
    pub decision: DecisionModel,
}

/// A bucket that several checks work on.
pub struct Contention {
    /// The bucket in the store.
    pub bucket: Option<StoredModel>,
    /// The calls that each check has made so far.
    pub calls: Seq<Seq<StoreCall>>,
    /// The decisions written so far, in the order of the writes.
    pub commits: Seq<Commit>,
}

/// A write of which nothing is heard but an error, carried out or not.
pub struct WriteFailure {
    pub error: RepositoryError,
    pub carried_out: bool,
}

/// What one of the checks does next.
pub enum Step {
    Load { check: int, error: Option<RepositoryError> },
    Write { check: int, failure: Option<WriteFailure> },
}

pub open spec fn request_of(check: CheckModel) -> Request {
    Request { cost: check.cost, now_ms: check.now_ms }
}

impl Contention {
    /// A bucket that `count` checks are about to work on.
    pub open spec fn start(bucket: Option<StoredModel>, count: nat) -> Contention {
        Contention {
            bucket,
            calls: Seq::new(count, |i: int| Seq::empty()),
            commits: Seq::empty(),
        }
    }

    /// How far a check has come.
    pub open spec fn stage(self, checks: Seq<CheckModel>, check: int) -> Stage {
        super::stage(checks[check], self.calls[check])
    }

    /// What a check has come to, once it is over.
    pub open spec fn answer(self, checks: Seq<CheckModel>, check: int) -> Option<
        Result<DecisionModel, RateLimiterError>,
    > {
        super::answer(checks[check], self.calls[check])
    }

    /// The same with one more call of a check.
    pub open spec fn with_call(self, check: int, call: StoreCall) -> Contention {
        Contention { calls: self.calls.update(check, self.calls[check].push(call)), ..self }
    }

    /// A check that has to load finds the bucket, or fails.
    pub open spec fn load(
        self,
        checks: Seq<CheckModel>,
        check: int,
        error: Option<RepositoryError>,
    ) -> Contention {
        match self.stage(checks, check) {
            Stage::Loading { run } => self.with_call(
                check,
                StoreCall::Load {
                    key: run.key,
                    found: match error {
                        Some(error) => Err(error),
                        None => Ok(self.bucket),
                    },
                },
            ),
            _ => self,
        }
    }

    /// A check that has decided writes the new state, on the condition that the
    /// version is still the one it has loaded.
    pub open spec fn write(
        self,
        checks: Seq<CheckModel>,
        check: int,
        failure: Option<WriteFailure>,
    ) -> Contention {
        match self.stage(checks, check) {
            Stage::Writing { run, proposed, .. } => {
                let stored = crate::storage::replacement(
                    self.bucket,
                    proposed.decision.state,
                    proposed.expected_version,
                    run.expires_at,
                );
                let written = match failure {
                    Some(failed) => Err(failed.error),
                    None => match stored {
                        Some(bucket) => Ok(bucket),
                        None => Err(RepositoryError::Conflict),
                    },
                };
                let told = self.with_call(check, super::write_call(run, proposed, written));
                if stored is Some && (failure is Some ==> failure->0.carried_out) {
                    Contention {
                        bucket: stored,
                        commits: self.commits.push(
                            Commit {
                                check,
                                request: request_of(run),
                                decision: proposed.decision,
                            },
                        ),
                        ..told
                    }
                } else {
                    told
                }
            },
            _ => self,
        }
    }

    /// One step of one check. A failure of a write is never a conflict: that is
    /// what a write comes to when another one came first.
    pub open spec fn step(self, checks: Seq<CheckModel>, step: Step) -> Contention {
        match step {
            Step::Load { check, error } => if 0 <= check < checks.len() {
                self.load(checks, check, error)
            } else {
                self
            },
            Step::Write { check, failure } => if 0 <= check < checks.len() && (failure is Some
                ==> failure->0.error !is Conflict) {
                self.write(checks, check, failure)
            } else {
                self
            },
        }
    }

    /// Any number of steps, in any order.
    pub open spec fn run(self, checks: Seq<CheckModel>, steps: Seq<Step>) -> Contention
        decreases steps.len(),
    {
        if steps.len() == 0 {
            self
        } else {
            self.run(checks, steps.drop_last()).step(checks, steps.last())
        }
    }

    /// The sum over the first `count` checks of what each counts for by its answer.
    pub open spec fn total(
        self,
        checks: Seq<CheckModel>,
        counts: spec_fn(CheckModel, Option<Result<DecisionModel, RateLimiterError>>) -> nat,
        count: nat,
    ) -> nat
        decreases count,
    {
        if count == 0 {
            0
        } else {
            self.total(checks, counts, (count - 1) as nat) + counts(
                checks[count - 1],
                self.answer(checks, count - 1),
            )
        }
    }

    /// The number of checks that were allowed.
    pub open spec fn allowed(self, checks: Seq<CheckModel>) -> nat {
        self.total(checks, if_allowed(), checks.len())
    }

    /// The number of checks that were denied.
    pub open spec fn denied(self, checks: Seq<CheckModel>) -> nat {
        self.total(checks, if_denied(), checks.len())
    }

    /// The tokens that the checks were granted in all.
    pub open spec fn granted(self, checks: Seq<CheckModel>) -> nat {
        self.total(checks, tokens(), checks.len())
    }
}

/// Whether an answer is a decision that allows or denies as said.
pub open spec fn says(
    answer: Option<Result<DecisionModel, RateLimiterError>>,
    allowed: bool,
) -> bool {
    answer matches Some(Ok(decision)) && decision.allowed == allowed
}

/// One for each check that was allowed.
pub open spec fn if_allowed() -> spec_fn(
    CheckModel,
    Option<Result<DecisionModel, RateLimiterError>>,
) -> nat {
    |check: CheckModel, answer: Option<Result<DecisionModel, RateLimiterError>>|
        if says(answer, true) {
            1nat
        } else {
            0
        }
}

/// One for each check that was denied.
pub open spec fn if_denied() -> spec_fn(
    CheckModel,
    Option<Result<DecisionModel, RateLimiterError>>,
) -> nat {
    |check: CheckModel, answer: Option<Result<DecisionModel, RateLimiterError>>|
        if says(answer, false) {
            1nat
        } else {
            0
        }
}

/// The cost of each check that was allowed.
pub open spec fn tokens() -> spec_fn(
    CheckModel,
    Option<Result<DecisionModel, RateLimiterError>>,
) -> nat {
    |check: CheckModel, answer: Option<Result<DecisionModel, RateLimiterError>>|
        if says(answer, true) {
            check.cost as nat
        } else {
            0
        }
}

/// One for each check that is over.
spec fn if_over() -> spec_fn(CheckModel, Option<Result<DecisionModel, RateLimiterError>>) -> nat {
    |check: CheckModel, answer: Option<Result<DecisionModel, RateLimiterError>>|
        if answer is Some {
            1nat
        } else {
            0
        }
}

/// Whether every check was answered with a decision.
pub open spec fn all_decided(now: Contention, checks: Seq<CheckModel>) -> bool {
    forall|i: int| 0 <= i < checks.len() ==> #[trigger] now.answer(checks, i) matches Some(Ok(_))
}

/// The state before the commit with that number, when the commits before it
/// follow each other without anything in between.
pub open spec fn state_before(
    initial: Option<BucketModel>,
    commits: Seq<Commit>,
    index: int,
) -> Option<BucketModel> {
    if index <= 0 {
        initial
    } else {
        Some(commits[index - 1].decision.state)
    }
}

/// Each decision is the one on the state that the commit before it left.
pub open spec fn one_after_the_other(
    policy: PolicyModel,
    initial: Option<BucketModel>,
    commits: Seq<Commit>,
) -> bool {
    forall|i: int|
        0 <= i < commits.len() ==> crate::limiter::algorithm::outcome(
            policy,
            state_before(initial, commits, i),
            (#[trigger] commits[i]).request.cost,
            commits[i].request.now_ms,
        ) == Ok::<DecisionModel, crate::limiter::LimiterError>(commits[i].decision)
}

/// The number of writes behind a version.
pub open spec fn writes_behind(version: Option<nat>) -> nat {
    match version {
        None => 0,
        Some(version) => version + 1,
    }
}

/// The tokens that the commits grant in all.
pub open spec fn granted_by(commits: Seq<Commit>) -> nat
    decreases commits.len(),
{
    if commits.len() == 0 {
        0
    } else {
        (if commits.first().decision.allowed {
            commits.first().request.cost as nat
        } else {
            0
        }) + granted_by(commits.drop_first())
    }
}

pub open spec fn requests_of(commits: Seq<Commit>) -> Seq<Request> {
    commits.map_values(|commit: Commit| commit.request)
}

/// Whether a check was told what a commit says, or an error of the store, which
/// leaves it open whether the write was carried out.
pub open spec fn told_of(
    commit: Commit,
    answer: Option<Result<DecisionModel, RateLimiterError>>,
) -> bool {
    ||| answer == Some(Ok::<DecisionModel, RateLimiterError>(commit.decision))
    ||| answer matches Some(Err(RateLimiterError::Repository(_)))
}

/// Whether a commit is the one behind the decision that a check was told.
pub open spec fn answers(
    commit: Commit,
    checks: Seq<CheckModel>,
    check: int,
    decision: DecisionModel,
) -> bool {
    &&& commit.check == check
    &&& commit.request == request_of(checks[check])
    &&& commit.decision == decision
}

/// If a check was told a decision, that decision was written.
pub open spec fn written_for(now: Contention, checks: Seq<CheckModel>, check: int) -> bool {
    now.answer(checks, check) matches Some(Ok(decision)) ==> exists|c: int|
        0 <= c < now.commits.len() && #[trigger] answers(now.commits[c], checks, check, decision)
}

/// However the calls of any number of checks are interleaved, and whichever of
/// them fail, the written decisions are those of serving the requests one after
/// the other, the bucket holds the state that the last of them left, and its
/// version counts them: no write is lost and none is made on a stale balance.
pub proof fn law_concurrent_checks_are_served_one_after_the_other(
    policy: PolicyModel,
    bucket: Option<StoredModel>,
    checks: Seq<CheckModel>,
    steps: Seq<Step>,
)
    requires
        forall|i: int| 0 <= i < checks.len() ==> (#[trigger] checks[i]).policy == policy,
    ensures
        ({
            let end = Contention::start(bucket, checks.len()).run(checks, steps);
            let initial = crate::storage::state_of(bucket);
            &&& one_after_the_other(policy, initial, end.commits)
            &&& crate::storage::state_of(end.bucket) == state_before(
                initial,
                end.commits,
                end.commits.len() as int,
            )
            &&& writes_behind(crate::storage::version_of(end.bucket)) == writes_behind(
                crate::storage::version_of(bucket),
            ) + end.commits.len()
        }),
{
    lemma_run(policy, bucket, checks, steps);
}

/// Every decision that a check is told was written, once, and is the decision
/// that was written; every write was made by a check that is over. When all
/// checks were told a decision, there is one write for each of them.
pub proof fn law_each_answer_is_one_written_decision(
    policy: PolicyModel,
    bucket: Option<StoredModel>,
    checks: Seq<CheckModel>,
    steps: Seq<Step>,
)
    requires
        forall|i: int| 0 <= i < checks.len() ==> (#[trigger] checks[i]).policy == policy,
    ensures
        ({
            let end = Contention::start(bucket, checks.len()).run(checks, steps);
            &&& forall|i: int| 0 <= i < checks.len() ==> #[trigger] written_for(end, checks, i)
            &&& forall|c: int|
                0 <= c < end.commits.len() ==> {
                    let commit = #[trigger] end.commits[c];
                    &&& 0 <= commit.check < checks.len()
                    &&& told_of(commit, end.answer(checks, commit.check))
                }
            &&& forall|c: int, d: int|
                0 <= c < d < end.commits.len() ==> (#[trigger] end.commits[c]).check != (
                #[trigger] end.commits[d]).check
            &&& all_decided(end, checks) ==> end.commits.len() == checks.len()
        }),
{
    let end = Contention::start(bucket, checks.len()).run(checks, steps);
    lemma_run(policy, bucket, checks, steps);
    if all_decided(end, checks) {
        lemma_all_decided(end, checks);
    }
}

/// Whatever the interleaving and the failures, the checks of a stretch of time are
/// together granted at most one full bucket plus the refill of that time, even
/// counting the writes that they were told nothing of.
pub proof fn law_concurrent_checks_share_one_quota(
    policy: PolicyModel,
    bucket: Option<StoredModel>,
    checks: Seq<CheckModel>,
    steps: Seq<Step>,
    start_ms: nat,
    end_ms: nat,
)
    requires
        policy.valid(),
        start_ms <= end_ms,
        forall|i: int| 0 <= i < checks.len() ==> (#[trigger] checks[i]).policy == policy,
        forall|i: int|
            0 <= i < checks.len() ==> start_ms <= (#[trigger] checks[i]).now_ms <= end_ms,
    ensures
        ({
            let end = Contention::start(bucket, checks.len()).run(checks, steps);
            let quota = policy.capacity_units() + (end_ms - start_ms) * policy.refill_tokens;
            &&& end.granted(checks) <= granted_by(end.commits)
            &&& policy.units(granted_by(end.commits)) <= quota
            &&& policy.units(end.granted(checks)) <= quota
        }),
{
    let end = Contention::start(bucket, checks.len()).run(checks, steps);
    let initial = crate::storage::state_of(bucket);
    let requests = requests_of(end.commits);
    lemma_run(policy, bucket, checks, steps);
    lemma_granted(policy, initial, end.commits);
    assert forall|i: int| 0 <= i < requests.len() implies start_ms <= (
    #[trigger] requests[i]).now_ms <= end_ms by {
        let commit = end.commits[i];
        assert(start_ms <= checks[commit.check].now_ms <= end_ms);
    }
    crate::limiter::laws::law_rate_is_limited(policy, initial, requests, start_ms, end_ms);
    let told = end.granted(checks);
    let written = granted_by(end.commits);
    assert(told * policy.refill_period_ms <= written * policy.refill_period_ms)
        by (nonlinear_arith)
        requires
            told <= written,
    ;
}

/// Of any number of equal checks at one instant on a new bucket, once all were told
/// a decision, exactly as many were allowed as the capacity holds and the others
/// were denied, whatever the interleaving; the version counts them all.
pub proof fn law_concurrent_burst_is_exactly_the_capacity(
    policy: PolicyModel,
    request: Request,
    checks: Seq<CheckModel>,
    steps: Seq<Step>,
)
    requires
        policy.valid(),
        0 < request.cost <= policy.capacity,
        forall|i: int| 0 <= i < checks.len() ==> (#[trigger] checks[i]).policy == policy,
        forall|i: int| 0 <= i < checks.len() ==> request_of(#[trigger] checks[i]) == request,
        all_decided(Contention::start(None, checks.len()).run(checks, steps), checks),
    ensures
        ({
            let end = Contention::start(None, checks.len()).run(checks, steps);
            let held = policy.capacity / request.cost as nat;
            &&& end.allowed(checks) == (if checks.len() <= held {
                checks.len()
            } else {
                held
            })
            &&& end.allowed(checks) + end.denied(checks) == checks.len()
            &&& writes_behind(crate::storage::version_of(end.bucket)) == checks.len()
        }),
{
    let end = Contention::start(None, checks.len()).run(checks, steps);
    let requests = requests_of(end.commits);
    let count = end.commits.len();
    let cost = request.cost as nat;
    let held = policy.capacity / cost;
    lemma_run(policy, None, checks, steps);
    lemma_all_decided(end, checks);
    lemma_granted(policy, None, end.commits);
    assert forall|i: int| 0 <= i < requests.len() implies #[trigger] requests[i] == request by {
        let commit = end.commits[i];
        assert(request_of(checks[commit.check]) == request);
    }
    assert(requests =~= Seq::new(count, |i: int| request));
    crate::limiter::laws::law_burst_is_exactly_the_capacity(policy, request, count);
    assert forall|i: int| 0 <= i < count implies (#[trigger] end.commits[i]).request.cost
        == cost by {
        assert(requests[i] == request);
    }
    lemma_equal_costs(end.commits, cost);
    lemma_allowed_and_denied(end.commits);
    let expected = if count <= held {
        count
    } else {
        held
    };
    let allowed = allowed_by(end.commits);
    assert(allowed == expected) by (nonlinear_arith)
        requires
            cost * allowed == cost * expected,
            cost > 0,
    ;
}

/// A write that comes to nothing although versions are left means that another
/// write came in between: contention is never the check's own doing.
pub proof fn law_conflict_means_another_write(
    policy: PolicyModel,
    bucket: Option<StoredModel>,
    checks: Seq<CheckModel>,
    steps: Seq<Step>,
    check: int,
)
    requires
        forall|i: int| 0 <= i < checks.len() ==> (#[trigger] checks[i]).policy == policy,
        0 <= check < checks.len(),
        ({
            let now = Contention::start(bucket, checks.len()).run(checks, steps);
            &&& now.stage(checks, check) matches Stage::Writing { run, proposed, .. }
            &&& crate::storage::following_version(proposed.expected_version) is Some
            &&& crate::storage::replacement(
                now.bucket,
                proposed.decision.state,
                proposed.expected_version,
                run.expires_at,
            ) is None
        }),
    ensures
        ({
            let now = Contention::start(bucket, checks.len()).run(checks, steps);
            now.stage(checks, check) matches Stage::Writing { proposed, .. } && writes_behind(
                proposed.expected_version,
            ) < writes_behind(crate::storage::version_of(now.bucket))
        }),
{
    let now = Contention::start(bucket, checks.len()).run(checks, steps);
    lemma_run(policy, bucket, checks, steps);
    assert(under_way(now, checks, check));
}

/// What is known of a check that is not over: above all, that the bucket it has
/// loaded is still the stored one wherever its version is.
spec fn under_way(now: Contention, checks: Seq<CheckModel>, check: int) -> bool {
    match now.stage(checks, check) {
        Stage::Loading { run } => run == (CheckModel { attempt: run.attempt, ..checks[check] }),
        Stage::Writing { run, found, proposed } => {
            let seen = crate::storage::version_of(found);
            let stored = crate::storage::version_of(now.bucket);
            &&& run == (CheckModel { attempt: run.attempt, ..checks[check] })
            &&& super::proposed_write(run, found) == Ok::<
                super::WriteModel,
                crate::limiter::LimiterError,
            >(proposed)
            &&& writes_behind(seen) <= writes_behind(stored)
            &&& seen == stored ==> found == now.bucket
        },
        Stage::Done { .. } => true,
        Stage::Stray => false,
    }
}

spec fn allowed_by(commits: Seq<Commit>) -> nat
    decreases commits.len(),
{
    if commits.len() == 0 {
        0
    } else {
        allowed_by(commits.drop_last()) + (if commits.last().decision.allowed {
            1nat
        } else {
            0
        })
    }
}

spec fn denied_by(commits: Seq<Commit>) -> nat
    decreases commits.len(),
{
    if commits.len() == 0 {
        0
    } else {
        denied_by(commits.drop_last()) + (if commits.last().decision.allowed {
            0nat
        } else {
            1
        })
    }
}

/// The commits are those of serving requests one after the other.
spec fn serial(policy: PolicyModel, bucket: Option<StoredModel>, now: Contention) -> bool {
    let initial = crate::storage::state_of(bucket);
    &&& one_after_the_other(policy, initial, now.commits)
    &&& crate::storage::state_of(now.bucket) == state_before(
        initial,
        now.commits,
        now.commits.len() as int,
    )
    &&& writes_behind(crate::storage::version_of(now.bucket)) == writes_behind(
        crate::storage::version_of(bucket),
    ) + now.commits.len()
}

/// The commits and the answers match.
spec fn matched(now: Contention, checks: Seq<CheckModel>) -> bool {
    &&& now.calls.len() == checks.len()
    &&& forall|i: int| 0 <= i < checks.len() ==> #[trigger] under_way(now, checks, i)
    &&& forall|i: int| 0 <= i < checks.len() ==> #[trigger] written_for(now, checks, i)
    &&& forall|c: int|
        0 <= c < now.commits.len() ==> {
            let commit = #[trigger] now.commits[c];
            &&& 0 <= commit.check < checks.len()
            &&& commit.request == request_of(checks[commit.check])
            &&& told_of(commit, now.answer(checks, commit.check))
        }
    &&& forall|c: int, d: int|
        0 <= c < d < now.commits.len() ==> (#[trigger] now.commits[c]).check != (
        #[trigger] now.commits[d]).check
}

/// The commits cover what the checks were told.
spec fn covered(now: Contention, checks: Seq<CheckModel>) -> bool {
    &&& now.total(checks, if_allowed(), checks.len()) <= allowed_by(now.commits)
    &&& now.total(checks, if_denied(), checks.len()) <= denied_by(now.commits)
    &&& now.total(checks, tokens(), checks.len()) <= granted_by(now.commits)
    &&& now.commits.len() <= now.total(checks, if_over(), checks.len())
}

proof fn lemma_run(
    policy: PolicyModel,
    bucket: Option<StoredModel>,
    checks: Seq<CheckModel>,
    steps: Seq<Step>,
)
    requires
        forall|i: int| 0 <= i < checks.len() ==> (#[trigger] checks[i]).policy == policy,
    ensures
        ({
            let end = Contention::start(bucket, checks.len()).run(checks, steps);
            &&& serial(policy, bucket, end)
            &&& matched(end, checks)
            &&& covered(end, checks)
        }),
    decreases steps.len(),
{
    if steps.len() == 0 {
        let start = Contention::start(bucket, checks.len());
        lemma_nothing_told(start, checks, if_allowed(), checks.len());
        lemma_nothing_told(start, checks, if_denied(), checks.len());
        lemma_nothing_told(start, checks, tokens(), checks.len());
    } else {
        let before = Contention::start(bucket, checks.len()).run(checks, steps.drop_last());
        lemma_run(policy, bucket, checks, steps.drop_last());
        lemma_step(policy, bucket, checks, before, steps.last());
    }
}

proof fn lemma_nothing_told(
    start: Contention,
    checks: Seq<CheckModel>,
    counts: spec_fn(CheckModel, Option<Result<DecisionModel, RateLimiterError>>) -> nat,
    count: nat,
)
    requires
        count <= checks.len(),
        forall|i: int| 0 <= i < checks.len() ==> #[trigger] start.calls[i] == Seq::<
            StoreCall,
        >::empty(),
        forall|check: CheckModel| #[trigger] counts(check, None) == 0,
    ensures
        start.total(checks, counts, count) == 0,
    decreases count,
{
    if count > 0 {
        lemma_nothing_told(start, checks, counts, (count - 1) as nat);
        assert(start.calls[count - 1] == Seq::<StoreCall>::empty());
    }
}

/// One more call of a check changes what that check counts for, and nothing else.
proof fn lemma_total(
    before: Contention,
    after: Contention,
    checks: Seq<CheckModel>,
    check: int,
    counts: spec_fn(CheckModel, Option<Result<DecisionModel, RateLimiterError>>) -> nat,
    count: nat,
)
    requires
        before.calls.len() == checks.len(),
        after.calls.len() == checks.len(),
        0 <= check < checks.len(),
        count <= checks.len(),
        forall|i: int|
            0 <= i < checks.len() && i != check ==> #[trigger] after.calls[i] == before.calls[i],
    ensures
        after.total(checks, counts, count) == before.total(checks, counts, count) + (if check
            < count {
            counts(checks[check], after.answer(checks, check)) - counts(
                checks[check],
                before.answer(checks, check),
            )
        } else {
            0
        }),
    decreases count,
{
    if count > 0 {
        lemma_total(before, after, checks, check, counts, (count - 1) as nat);
        if count - 1 != check {
            assert(after.calls[count - 1] == before.calls[count - 1]);
        }
    }
}

proof fn lemma_step(
    policy: PolicyModel,
    bucket: Option<StoredModel>,
    checks: Seq<CheckModel>,
    before: Contention,
    step: Step,
)
    requires
        forall|i: int| 0 <= i < checks.len() ==> (#[trigger] checks[i]).policy == policy,
        serial(policy, bucket, before),
        matched(before, checks),
        covered(before, checks),
    ensures
        serial(policy, bucket, before.step(checks, step)),
        matched(before.step(checks, step), checks),
        covered(before.step(checks, step), checks),
{
    let after = before.step(checks, step);
    let check = match step {
        Step::Load { check, .. } => check,
        Step::Write { check, .. } => check,
    };
    if after != before {
        let call = after.calls[check].last();
        let told = before.stage(checks, check);
        assert(after.calls[check].drop_last() =~= before.calls[check]);
        assert(after.stage(checks, check) == super::next_stage(told, call));
        assert(under_way(before, checks, check));
        assert(before.answer(checks, check) is None);
        assert forall|i: int| 0 <= i < checks.len() && i != check implies #[trigger] after.calls[i]
            == before.calls[i] by {}
        lemma_total(before, after, checks, check, if_allowed(), checks.len());
        lemma_total(before, after, checks, check, if_denied(), checks.len());
        lemma_total(before, after, checks, check, tokens(), checks.len());
        lemma_total(before, after, checks, check, if_over(), checks.len());
        assert(checks[check].policy == policy);
        let committed = after.commits.len() > before.commits.len();
        let last = before.commits.len() as int;
        if committed {
            assert(after.commits.drop_last() =~= before.commits);
            lemma_granted_push(before.commits, after.commits.last());
            lemma_serial(policy, bucket, checks, before, after);
        }
        assert forall|i: int| 0 <= i < checks.len() implies #[trigger] under_way(
            after,
            checks,
            i,
        ) by {
            assert(under_way(before, checks, i));
            if i != check {
                assert(after.calls[i] == before.calls[i]);
            }
        }
        assert forall|i: int| 0 <= i < checks.len() implies #[trigger] written_for(
            after,
            checks,
            i,
        ) by {
            assert(written_for(before, checks, i));
            if i != check {
                assert(after.calls[i] == before.calls[i]);
                if let Some(Ok(decision)) = before.answer(checks, i) {
                    let c = choose|c: int|
                        0 <= c < before.commits.len() && #[trigger] answers(
                            before.commits[c],
                            checks,
                            i,
                            decision,
                        );
                    assert(answers(after.commits[c], checks, i, decision));
                }
            } else if let Some(Ok(decision)) = after.answer(checks, i) {
                assert(answers(after.commits[last], checks, i, decision));
            }
        }
        assert forall|c: int| 0 <= c < after.commits.len() implies ({
            let commit = #[trigger] after.commits[c];
            &&& 0 <= commit.check < checks.len()
            &&& commit.request == request_of(checks[commit.check])
            &&& told_of(commit, after.answer(checks, commit.check))
        }) by {
            if c < last {
                assert(after.commits[c] == before.commits[c]);
                assert(before.commits[c].check != check);
                assert(after.calls[before.commits[c].check]
                    == before.calls[before.commits[c].check]);
            }
        }
        assert forall|c: int, d: int| 0 <= c < d < after.commits.len() implies (
        #[trigger] after.commits[c]).check != (#[trigger] after.commits[d]).check by {
            assert(after.commits[c] == before.commits[c]);
            if d < last {
                assert(after.commits[d] == before.commits[d]);
            } else {
                assert(before.commits[c].check != check);
            }
        }
    }
}

/// A write that is carried out continues the row of commits.
proof fn lemma_serial(
    policy: PolicyModel,
    bucket: Option<StoredModel>,
    checks: Seq<CheckModel>,
    before: Contention,
    after: Contention,
)
    requires
        serial(policy, bucket, before),
        after.commits.len() == before.commits.len() + 1,
        after.commits.drop_last() == before.commits,
        ({
            let commit = after.commits.last();
            &&& crate::limiter::algorithm::outcome(
                policy,
                crate::storage::state_of(before.bucket),
                commit.request.cost,
                commit.request.now_ms,
            ) == Ok::<DecisionModel, crate::limiter::LimiterError>(commit.decision)
            &&& after.bucket matches Some(stored)
            &&& stored.state == commit.decision.state
            &&& stored.version == writes_behind(crate::storage::version_of(before.bucket))
        }),
    ensures
        serial(policy, bucket, after),
{
    let initial = crate::storage::state_of(bucket);
    let last = before.commits.len() as int;
    assert forall|i: int| 0 <= i < after.commits.len() implies crate::limiter::algorithm::outcome(
        policy,
        state_before(initial, after.commits, i),
        (#[trigger] after.commits[i]).request.cost,
        after.commits[i].request.now_ms,
    ) == Ok::<DecisionModel, crate::limiter::LimiterError>(after.commits[i].decision) by {
        assert(state_before(initial, after.commits, i) == state_before(
            initial,
            before.commits,
            i,
        ));
        if i < last {
            assert(after.commits[i] == before.commits[i]);
        }
    }
}

/// If all checks were told a decision, each was allowed or denied, and there is one
/// commit for each.
proof fn lemma_all_decided(now: Contention, checks: Seq<CheckModel>)
    requires
        all_decided(now, checks),
        covered(now, checks),
    ensures
        now.allowed(checks) + now.denied(checks) == checks.len(),
        now.commits.len() == checks.len(),
{
    lemma_decided_totals(now, checks, checks.len());
    lemma_allowed_and_denied(now.commits);
}

proof fn lemma_decided_totals(now: Contention, checks: Seq<CheckModel>, count: nat)
    requires
        all_decided(now, checks),
        count <= checks.len(),
    ensures
        now.total(checks, if_allowed(), count) + now.total(checks, if_denied(), count) == count,
        now.total(checks, if_over(), count) == count,
    decreases count,
{
    if count > 0 {
        lemma_decided_totals(now, checks, (count - 1) as nat);
        assert(now.answer(checks, count - 1) matches Some(Ok(_)));
    }
}

proof fn lemma_allowed_and_denied(commits: Seq<Commit>)
    ensures
        allowed_by(commits) + denied_by(commits) == commits.len(),
    decreases commits.len(),
{
    if commits.len() > 0 {
        lemma_allowed_and_denied(commits.drop_last());
    }
}

proof fn lemma_equal_costs(commits: Seq<Commit>, cost: nat)
    requires
        forall|i: int| 0 <= i < commits.len() ==> (#[trigger] commits[i]).request.cost == cost,
    ensures
        granted_by(commits) == cost * allowed_by(commits),
    decreases commits.len(),
{
    if commits.len() > 0 {
        let fewer = commits.drop_last();
        assert forall|i: int| 0 <= i < fewer.len() implies (#[trigger] fewer[i]).request.cost
            == cost by {
            assert(fewer[i] == commits[i]);
        }
        lemma_equal_costs(fewer, cost);
        lemma_granted_push(fewer, commits.last());
        assert(fewer.push(commits.last()) =~= commits);
        assert(cost * (allowed_by(fewer) + 1) == cost * allowed_by(fewer) + cost)
            by (nonlinear_arith);
    } else {
        assert(cost * 0 == 0);
    }
}

proof fn lemma_granted_push(commits: Seq<Commit>, commit: Commit)
    ensures
        granted_by(commits.push(commit)) == granted_by(commits) + (if commit.decision.allowed {
            commit.request.cost as nat
        } else {
            0
        }),
    decreases commits.len(),
{
    let longer = commits.push(commit);
    if commits.len() > 0 {
        lemma_granted_push(commits.drop_first(), commit);
        assert(longer.drop_first() =~= commits.drop_first().push(commit));
        assert(longer.first() == commits.first());
    } else {
        assert(longer.drop_first() =~= Seq::<Commit>::empty());
        assert(granted_by(longer.drop_first()) == 0);
    }
}

/// The commits of serving requests one after the other grant what serving them
/// grants.
proof fn lemma_granted(policy: PolicyModel, initial: Option<BucketModel>, commits: Seq<Commit>)
    requires
        one_after_the_other(policy, initial, commits),
    ensures
        granted_by(commits) == crate::limiter::laws::total_granted(
            policy,
            initial,
            requests_of(commits),
        ),
    decreases commits.len(),
{
    if commits.len() > 0 {
        let rest = commits.drop_first();
        let next = Some(commits.first().decision.state);
        assert forall|i: int| 0 <= i < rest.len() implies crate::limiter::algorithm::outcome(
            policy,
            state_before(next, rest, i),
            (#[trigger] rest[i]).request.cost,
            rest[i].request.now_ms,
        ) == Ok::<DecisionModel, crate::limiter::LimiterError>(rest[i].decision) by {
            assert(rest[i] == commits[i + 1]);
            assert(state_before(next, rest, i) == state_before(initial, commits, i + 1));
        }
        lemma_granted(policy, next, rest);
        assert(requests_of(commits).drop_first() =~= requests_of(rest));
        assert(commits[0] == commits.first());
        assert(state_before(initial, commits, 0) == initial);
    }
}

} // verus!
