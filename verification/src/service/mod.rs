//! Distributed orchestration for the pure token-bucket transition.

pub mod contention;
pub mod laws;

use crate::limiter::models::{DecisionModel, PolicyModel};
use crate::limiter::{evaluate, BucketState, Decision, LimiterError, Policy};
use crate::storage::models::StoredModel;
use crate::storage::{
    BucketId, BucketIdError, BucketRepository, RepositoryError, StoreCall, StoredBucket,
};
use vstd::prelude::*;
use vstd::string::*;

verus! {

/// Checks quota against the buckets of a repository.
#[derive(Clone)]
pub struct RateLimiter<R> {
    repository: R,
    max_conflict_retries: u32,
    bucket_ttl_seconds: u64,
}

#[derive(Debug)]
pub enum RateLimiterError {
    InvalidBucketId(BucketIdError),
    InvalidRequest(LimiterError),
    Repository(RepositoryError),
    ExpiryOverflow,
    ContentionExhausted { attempts: u32 },
}

impl vstd::std_specs::convert::FromSpecImpl<BucketIdError> for RateLimiterError {
    open spec fn obeys_from_spec() -> bool {
        true
    }

    open spec fn from_spec(error: BucketIdError) -> RateLimiterError {
        RateLimiterError::InvalidBucketId(error)
    }
}

impl From<BucketIdError> for RateLimiterError {
    fn from(error: BucketIdError) -> (res: RateLimiterError) {
        RateLimiterError::InvalidBucketId(error)
    }
}

impl vstd::std_specs::convert::FromSpecImpl<LimiterError> for RateLimiterError {
    open spec fn obeys_from_spec() -> bool {
        true
    }

    open spec fn from_spec(error: LimiterError) -> RateLimiterError {
        RateLimiterError::InvalidRequest(error)
    }
}

impl From<LimiterError> for RateLimiterError {
    fn from(error: LimiterError) -> (res: RateLimiterError) {
        RateLimiterError::InvalidRequest(error)
    }
}

impl vstd::std_specs::convert::FromSpecImpl<RepositoryError> for RateLimiterError {
    open spec fn obeys_from_spec() -> bool {
        true
    }

    open spec fn from_spec(error: RepositoryError) -> RateLimiterError {
        RateLimiterError::Repository(error)
    }
}

impl From<RepositoryError> for RateLimiterError {
    fn from(error: RepositoryError) -> (res: RateLimiterError) {
        RateLimiterError::Repository(error)
    }
}

/// What a reader is told of an error.
pub open spec fn rate_limiter_error_text(error: RateLimiterError) -> Seq<char> {
    match error {
        RateLimiterError::InvalidBucketId(inner) =>
            crate::storage::models::bucket_id_error_text(inner),
        RateLimiterError::InvalidRequest(inner) =>
            crate::limiter::algorithm::limiter_error_text(inner),
        RateLimiterError::Repository(inner) => crate::storage::repository_error_text(inner),
        RateLimiterError::ExpiryOverflow => "bucket expiration timestamp overflowed"@,
        RateLimiterError::ContentionExhausted { attempts } =>
            "bucket remained contended after "@ + crate::text::decimal(attempts as nat)
            + " attempts"@,
    }
}

impl RateLimiterError {
    pub fn message(&self) -> (res: String)
        ensures
            res@ == rate_limiter_error_text(*self),
    {
        match self {
            RateLimiterError::InvalidBucketId(inner) => inner.message(),
            RateLimiterError::InvalidRequest(inner) => inner.message(),
            RateLimiterError::Repository(inner) => inner.message(),
            RateLimiterError::ExpiryOverflow =>
                "bucket expiration timestamp overflowed".to_owned(),
            RateLimiterError::ContentionExhausted { attempts } => {
                let mut res = "bucket remained contended after ".to_owned();
                res.append(crate::text::to_decimal(*attempts as u64).as_str());
                res.append(" attempts");
                res
            },
        }
    }
}

/// How long to wait before the next attempt on a contended bucket.
#[derive(Clone, Copy, Debug, PartialEq, Eq, Structural)]
pub enum Pause {
    /// Let other tasks run.
    Yield,
    Sleep { micros: u64 },
}

/// The pause after the attempt with that number: none to speak of after the
/// first, then a tenth of a millisecond more each time, at most five milliseconds.
pub open spec fn pause_after(attempt: nat) -> Pause {
    if attempt == 0 {
        Pause::Yield
    } else if attempt * 100 <= 5_000 {
        Pause::Sleep { micros: (attempt * 100) as u64 }
    } else {
        Pause::Sleep { micros: 5_000 }
    }
}

/// The pause after the attempt with that number, counted from zero.
pub fn backoff(attempt: u32) -> (res: Pause)
    ensures
        res == pause_after(attempt as nat),
{
    if attempt == 0 {
        return Pause::Yield;
    }
    let micros: u64 = attempt as u64 * 100;
    if micros <= 5_000 {
        Pause::Sleep { micros }
    } else {
        Pause::Sleep { micros: 5_000 }
    }
}

/// What a check is about and how far it has come.
pub struct CheckModel {
    pub key: Seq<char>,
    pub policy: PolicyModel,
    pub cost: u64,
    pub now_ms: u64,
    pub expires_at: nat,
    pub attempt: nat,
    pub max_conflict_retries: nat,
}

/// The check after another writer came first: one attempt further, or over.
pub open spec fn after_conflict(run: CheckModel) -> Option<CheckModel> {
    if run.attempt < run.max_conflict_retries {
        Some(CheckModel { attempt: run.attempt + 1, ..run })
    } else {
        None
    }
}

/// A write that a check asks for, and the decision that stands once it is made.
pub struct WriteModel {
    pub decision: DecisionModel,
    pub expected_version: Option<nat>,
}

/// The write that a check asks for once it has found the bucket.
pub open spec fn proposed_write(run: CheckModel, found: Option<StoredModel>) -> Result<
    WriteModel,
    LimiterError,
> {
    match crate::limiter::algorithm::outcome(
        run.policy,
        crate::storage::state_of(found),
        run.cost,
        run.now_ms,
    ) {
        Ok(decision) => Ok(
            WriteModel { decision, expected_version: crate::storage::version_of(found) },
        ),
        Err(error) => Err(error),
    }
}

/// One check on its way through the optimistic-concurrency protocol.
///
/// The caller loads the bucket [`CheckRun::id`] and hands it to
/// [`CheckRun::on_load`], makes the conditional write that comes back, and hands
/// its result to [`CheckRun::on_write`], which finishes the check or asks for
/// another attempt.
pub struct CheckRun {
    id: BucketId,
    policy: Policy,
    cost: u64,
    now_ms: u64,
    expires_at: u64,
    attempt: u32,
    max_conflict_retries: u32,
}

impl View for CheckRun {
    type V = CheckModel;

    closed spec fn view(&self) -> CheckModel {
        CheckModel {
            key: self.id@,
            policy: self.policy@,
            cost: self.cost,
            now_ms: self.now_ms,
            expires_at: self.expires_at as nat,
            attempt: self.attempt as nat,
            max_conflict_retries: self.max_conflict_retries as nat,
        }
    }
}

/// A conditional write that a check asks for.
#[derive(Clone, Copy, Debug)]
pub struct PendingWrite {
    decision: Decision,
    expected_version: Option<u64>,
}

impl View for PendingWrite {
    type V = WriteModel;

    closed spec fn view(&self) -> WriteModel {
        WriteModel {
            decision: self.decision@,
            expected_version: crate::storage::version_model(self.expected_version),
        }
    }
}

impl PendingWrite {
    /// The state to write.
    pub fn state(&self) -> (res: BucketState)
        ensures
            res@ == self@.decision.state,
    {
        self.decision.state()
    }

    /// The version that the bucket must still have, or `None` if it must not
    /// exist yet.
    pub fn expected_version(&self) -> (res: Option<u64>)
        ensures
            crate::storage::version_model(res) == self@.expected_version,
    {
        self.expected_version
    }
}

/// What follows from the result of a conditional write.
#[derive(Debug)]
pub enum Progress {
    /// The decision stands.
    Done(Decision),
    /// Another writer came first: pause, then load again.
    Retry(Pause),
    Failed(RateLimiterError),
}

/// The expiration of a bucket written at `now_ms`, in seconds since the epoch.
pub open spec fn expiry(now_ms: u64, bucket_ttl_seconds: u64) -> nat {
    (now_ms / 1_000 + bucket_ttl_seconds) as nat
}

/// The number of attempts made once the one with that number, counted from
/// zero, is over; a count beyond `u32` is given as the largest one.
pub open spec fn attempts_made(attempt: nat) -> nat {
    if attempt < u32::MAX {
        attempt + 1
    } else {
        u32::MAX as nat
    }
}

/// What a check comes to in a store that carries out every operation: an error,
/// or the decision and the bucket that is stored with it.
pub open spec fn check_outcome(
    buckets: Map<Seq<char>, StoredModel>,
    max_conflict_retries: u32,
    bucket_ttl_seconds: u64,
    policy_name: Seq<char>,
    client_key: Seq<char>,
    policy: PolicyModel,
    cost: u64,
    now_ms: u64,
) -> Result<(DecisionModel, StoredModel), RateLimiterError> {
    let invalid = crate::storage::models::bucket_id_error(policy_name, client_key);
    let key = crate::storage::models::bucket_key(policy_name, client_key);
    let current = crate::storage::bucket_at(buckets, key);
    let expires_at = expiry(now_ms, bucket_ttl_seconds);
    if invalid is Some {
        Err(RateLimiterError::InvalidBucketId(invalid->0))
    } else if expires_at > u64::MAX {
        Err(RateLimiterError::ExpiryOverflow)
    } else {
        match crate::limiter::algorithm::outcome(
            policy,
            crate::storage::state_of(current),
            cost,
            now_ms,
        ) {
            Err(error) => Err(RateLimiterError::InvalidRequest(error)),
            Ok(decision) => match crate::storage::following_version(
                crate::storage::version_of(current),
            ) {
                Some(version) => Ok(
                    (
                        decision,
                        StoredModel {
                            state: decision.state,
                            version,
                            expires_at_epoch_seconds: expires_at,
                        },
                    ),
                ),
                None => Err(
                    RateLimiterError::ContentionExhausted {
                        attempts: attempts_made(max_conflict_retries as nat) as u32,
                    },
                ),
            },
        }
    }
}

/// How a check starts: with the name of its bucket and the expiration to write,
/// or not at all.
pub open spec fn begun(
    max_conflict_retries: u32,
    bucket_ttl_seconds: u64,
    policy_name: Seq<char>,
    client_key: Seq<char>,
    policy: PolicyModel,
    cost: u64,
    now_ms: u64,
) -> Result<CheckModel, RateLimiterError> {
    let invalid = crate::storage::models::bucket_id_error(policy_name, client_key);
    let expires_at = expiry(now_ms, bucket_ttl_seconds);
    if invalid is Some {
        Err(RateLimiterError::InvalidBucketId(invalid->0))
    } else if expires_at > u64::MAX {
        Err(RateLimiterError::ExpiryOverflow)
    } else {
        Ok(
            CheckModel {
                key: crate::storage::models::bucket_key(policy_name, client_key),
                policy,
                cost,
                now_ms,
                expires_at,
                attempt: 0,
                max_conflict_retries: max_conflict_retries as nat,
            },
        )
    }
}

/// The write call that a check makes, with what came of it.
pub open spec fn write_call(
    run: CheckModel,
    proposed: WriteModel,
    written: Result<StoredModel, RepositoryError>,
) -> StoreCall {
    StoreCall::Write {
        key: run.key,
        state: proposed.decision.state,
        expected_version: proposed.expected_version,
        expires_at_epoch_seconds: run.expires_at,
        written,
    }
}

/// How far a check has come by its calls to the repository.
pub enum Stage {
    /// The bucket is to be loaded.
    Loading { run: CheckModel },
    /// The decision on the loaded bucket is to be written.
    Writing { run: CheckModel, found: Option<StoredModel>, proposed: WriteModel },
    Done { result: Result<DecisionModel, RateLimiterError> },
    /// A call was made that is none of the check's.
    Stray,
}

/// Where a call takes a check, whatever came of it. Each attempt loads the bucket
/// and writes the decision on it. A failed load, a request that cannot be decided
/// and a failed write end the check at once; a conflict is followed by another
/// attempt as long as the retry budget allows.
pub open spec fn next_stage(stage: Stage, call: StoreCall) -> Stage {
    match (stage, call) {
        (Stage::Loading { run }, StoreCall::Load { key, found }) => if key != run.key {
            Stage::Stray
        } else {
            match found {
                Ok(found) => match proposed_write(run, found) {
                    Ok(proposed) => Stage::Writing { run, found, proposed },
                    Err(error) => Stage::Done {
                        result: Err(RateLimiterError::InvalidRequest(error)),
                    },
                },
                Err(error) => Stage::Done { result: Err(RateLimiterError::Repository(error)) },
            }
        },
        (Stage::Writing { run, proposed, .. }, StoreCall::Write { written, .. }) => if call
            != write_call(run, proposed, written) {
            Stage::Stray
        } else {
            match written {
                Ok(_) => Stage::Done { result: Ok(proposed.decision) },
                Err(RepositoryError::Conflict) => match after_conflict(run) {
                    Some(next) => Stage::Loading { run: next },
                    None => Stage::Done {
                        result: Err(
                            RateLimiterError::ContentionExhausted {
                                attempts: attempts_made(run.attempt) as u32,
                            },
                        ),
                    },
                },
                Err(error) => Stage::Done { result: Err(RateLimiterError::Repository(error)) },
            }
        },
        _ => Stage::Stray,
    }
}

/// Where these calls take a check that starts with them.
pub open spec fn stage(run: CheckModel, calls: Seq<StoreCall>) -> Stage
    decreases calls.len(),
{
    if calls.len() == 0 {
        Stage::Loading { run }
    } else {
        next_stage(stage(run, calls.drop_last()), calls.last())
    }
}

/// What a check comes to after these calls to its repository: none if they are
/// not the calls of a check from its first load to its end.
pub open spec fn answer(run: CheckModel, calls: Seq<StoreCall>) -> Option<
    Result<DecisionModel, RateLimiterError>,
> {
    match stage(run, calls) {
        Stage::Done { result } => Some(result),
        _ => None,
    }
}

/// The result of a check, with its decision as numbers without bound.
pub open spec fn result_model(res: Result<Decision, RateLimiterError>) -> Result<
    DecisionModel,
    RateLimiterError,
> {
    match res {
        Ok(decision) => Ok(decision@),
        Err(error) => Err(error),
    }
}

/// What a check that takes a limiter from `before` to `after` comes to by its
/// calls: one that cannot start makes none.
pub open spec fn answered<R: BucketRepository>(
    before: RateLimiter<R>,
    after: RateLimiter<R>,
    policy_name: Seq<char>,
    client_key: Seq<char>,
    policy: PolicyModel,
    cost: u64,
    now_ms: u64,
) -> Option<Result<DecisionModel, RateLimiterError>> {
    match begun(
        before.spec_max_conflict_retries(),
        before.spec_bucket_ttl_seconds(),
        policy_name,
        client_key,
        policy,
        cost,
        now_ms,
    ) {
        Ok(run) => answer(run, before.new_calls(after)),
        Err(error) => if before.new_calls(after).len() == 0 {
            Some(Err(error))
        } else {
            None
        },
    }
}

/// Whether a check that takes a limiter from `before` to `after` may come to
/// `result`.
///
/// The result is the one that the calls to the repository lead to. With every call
/// carried out it is that of [`check_outcome`], and the bucket is stored with it.
/// Nothing stored changes without a decision, and nothing at all after a failed
/// load; of a failed write it is open whether it was carried out.
pub open spec fn served<R: BucketRepository>(
    before: RateLimiter<R>,
    after: RateLimiter<R>,
    policy_name: Seq<char>,
    client_key: Seq<char>,
    policy: PolicyModel,
    cost: u64,
    now_ms: u64,
    result: Result<DecisionModel, RateLimiterError>,
) -> bool {
    let calls = before.new_calls(after);
    let buckets = before.spec_repository().buckets();
    let buckets_after = after.spec_repository().buckets();
    let key = crate::storage::models::bucket_key(policy_name, client_key);
    let expected = check_outcome(
        buckets,
        before.spec_max_conflict_retries(),
        before.spec_bucket_ttl_seconds(),
        policy_name,
        client_key,
        policy,
        cost,
        now_ms,
    );
    &&& after.spec_max_conflict_retries() == before.spec_max_conflict_retries()
    &&& after.spec_bucket_ttl_seconds() == before.spec_bucket_ttl_seconds()
    &&& after.spec_repository().reliable() == before.spec_repository().reliable()
    &&& before.spec_repository().calls().is_prefix_of(after.spec_repository().calls())
    &&& answered(before, after, policy_name, client_key, policy, cost, now_ms) == Some(result)
    &&& match result {
        Ok(decision) => {
            &&& expected matches Ok((decided, stored))
            &&& decision == decided
            &&& buckets_after == buckets.insert(key, stored)
        },
        Err(RateLimiterError::Repository(_)) => {
            &&& !before.spec_repository().reliable()
            &&& !(expected matches Err(RateLimiterError::InvalidBucketId(_)))
            &&& !(expected matches Err(RateLimiterError::ExpiryOverflow))
            &&& calls.last() is Load ==> buckets_after == buckets
            &&& {
                ||| buckets_after == buckets
                ||| {
                    &&& expected matches Ok((_, stored))
                    &&& buckets_after == buckets.insert(key, stored)
                }
            }
        },
        Err(error) => {
            &&& expected == Err::<(DecisionModel, StoredModel), RateLimiterError>(error)
            &&& buckets_after == buckets
        },
    }
}

impl<R: BucketRepository> RateLimiter<R> {
    /// The calls to the repository that were made on the way to `after`.
    pub open spec fn new_calls(self, after: RateLimiter<R>) -> Seq<StoreCall> {
        after.spec_repository().calls().skip(self.spec_repository().calls().len() as int)
    }
}

impl<R> RateLimiter<R> {
    pub closed spec fn spec_repository(&self) -> R {
        self.repository
    }

    pub closed spec fn spec_max_conflict_retries(&self) -> u32 {
        self.max_conflict_retries
    }

    pub closed spec fn spec_bucket_ttl_seconds(&self) -> u64 {
        self.bucket_ttl_seconds
    }

    pub fn new(repository: R, max_conflict_retries: u32, bucket_ttl_seconds: u64) -> (res:
        RateLimiter<R>)
        ensures
            res.spec_repository() == repository,
            res.spec_max_conflict_retries() == max_conflict_retries,
            res.spec_bucket_ttl_seconds() == bucket_ttl_seconds,
    {
        RateLimiter { repository, max_conflict_retries, bucket_ttl_seconds }
    }

    /// The repository that buckets are kept in.
    pub fn repository(&self) -> (res: &R)
        ensures
            *res == self.spec_repository(),
    {
        &self.repository
    }

    /// Gives the repository back.
    pub fn into_repository(self) -> (res: R)
        ensures
            res == self.spec_repository(),
    {
        self.repository
    }

    /// Starts a check: names its bucket and settles when the bucket expires.
    pub fn begin(
        &self,
        policy_name: &str,
        client_key: &str,
        policy: &Policy,
        cost: u64,
        now_ms: u64,
    ) -> (res: Result<CheckRun, RateLimiterError>)
        ensures
            ({
                let expected = begun(
                    self.spec_max_conflict_retries(),
                    self.spec_bucket_ttl_seconds(),
                    policy_name@,
                    client_key@,
                    policy@,
                    cost,
                    now_ms,
                );
                match res {
                    Ok(run) => expected == Ok::<CheckModel, RateLimiterError>(run@),
                    Err(error) => expected == Err::<CheckModel, RateLimiterError>(error),
                }
            }),
    {
        let id = match BucketId::new(policy_name, client_key) {
            Ok(id) => id,
            Err(error) => {
                return Err(RateLimiterError::from(error));
            },
        };
        match (now_ms / 1_000).checked_add(self.bucket_ttl_seconds) {
            Some(expires_at) => Ok(
                CheckRun {
                    id,
                    policy: *policy,
                    cost,
                    now_ms,
                    expires_at,
                    attempt: 0,
                    max_conflict_retries: self.max_conflict_retries,
                },
            ),
            None => Err(RateLimiterError::ExpiryOverflow),
        }
    }
}

impl CheckRun {
    #[verifier::type_invariant]
    spec fn well_formed(self) -> bool {
        self.attempt <= self.max_conflict_retries
    }

    /// The bucket that the check is about.
    pub fn id(&self) -> (res: &BucketId)
        ensures
            res@ == self@.key,
    {
        &self.id
    }

    /// The expiration to write with the bucket.
    pub fn expires_at(&self) -> (res: u64)
        ensures
            res == self@.expires_at,
    {
        self.expires_at
    }

    /// The number of the attempt that is under way, counted from zero.
    pub fn attempt(&self) -> (res: u32)
        ensures
            res == self@.attempt,
    {
        self.attempt
    }

    /// Decides on the loaded bucket, and asks for the write that makes the
    /// decision stand.
    pub fn on_load(&self, loaded: Result<Option<StoredBucket>, RepositoryError>) -> (res: Result<
        PendingWrite,
        RateLimiterError,
    >)
        ensures
            match loaded {
                Ok(found) => match proposed_write(self@, crate::storage::found_model(found)) {
                    Ok(proposed) => res matches Ok(write) && write@ == proposed,
                    Err(error) => res == Err::<PendingWrite, RateLimiterError>(
                        RateLimiterError::InvalidRequest(error),
                    ),
                },
                Err(error) => res == Err::<PendingWrite, RateLimiterError>(
                    RateLimiterError::Repository(error),
                ),
            },
    {
        let current = match loaded {
            Ok(found) => found,
            Err(error) => {
                return Err(RateLimiterError::from(error));
            },
        };
        let state: Option<BucketState> = match current {
            Some(stored) => Some(stored.state()),
            None => None,
        };
        let expected_version: Option<u64> = match current {
            Some(stored) => Some(stored.version()),
            None => None,
        };
        match evaluate(&self.policy, state, self.cost, self.now_ms) {
            Ok(decision) => Ok(PendingWrite { decision, expected_version }),
            Err(error) => Err(RateLimiterError::from(error)),
        }
    }

    /// Settles what follows from the result of the write.
    pub fn on_write(
        &mut self,
        write: PendingWrite,
        written: Result<StoredBucket, RepositoryError>,
    ) -> (res: Progress)
        ensures
            ({
                let run = old(self)@;
                match written {
                    Ok(_) => {
                        &&& res matches Progress::Done(decision)
                        &&& decision@ == write@.decision
                        &&& final(self)@ == run
                    },
                    Err(RepositoryError::Conflict) => match after_conflict(run) {
                        Some(next) => {
                            &&& res == Progress::Retry(pause_after(run.attempt))
                            &&& final(self)@ == next
                        },
                        None => {
                            &&& res == Progress::Failed(
                                RateLimiterError::ContentionExhausted {
                                    attempts: attempts_made(run.attempt) as u32,
                                },
                            )
                            &&& run.attempt == run.max_conflict_retries
                            &&& final(self)@ == run
                        },
                    },
                    Err(error) => {
                        &&& res == Progress::Failed(RateLimiterError::Repository(error))
                        &&& final(self)@ == run
                    },
                }
            }),
    {
        proof {
            use_type_invariant(&*self);
        }
        match written {
            Ok(_) => Progress::Done(write.decision),
            Err(RepositoryError::Conflict) => {
                let attempt: u32 = self.attempt;
                if attempt < self.max_conflict_retries {
                    self.attempt = attempt + 1;
                    Progress::Retry(backoff(attempt))
                } else {
                    Progress::Failed(
                        RateLimiterError::ContentionExhausted {
                            attempts: attempt.saturating_add(1),
                        },
                    )
                }
            },
            Err(error) => Progress::Failed(RateLimiterError::from(error)),
        }
    }
}

impl<R: BucketRepository> RateLimiter<R> {
    /// Checks and consumes quota using a bounded optimistic-concurrency loop, in
    /// a repository that no one else writes. With no other writer there is
    /// nothing to wait for, so attempts follow each other without a pause.
    pub fn check(
        &mut self,
        policy_name: &str,
        client_key: &str,
        policy: &Policy,
        cost: u64,
        now_ms: u64,
    ) -> (res: Result<Decision, RateLimiterError>)
        ensures
            served(
                *old(self),
                *final(self),
                policy_name@,
                client_key@,
                policy@,
                cost,
                now_ms,
                result_model(res),
            ),
    {
        let mut run = match self.begin(policy_name, client_key, policy, cost, now_ms) {
            Ok(run) => run,
            Err(error) => {
                return Err(error);
            },
        };
        let ghost started = run@;
        let ghost earlier = self.repository.calls();
        assert(earlier.skip(earlier.len() as int) =~= Seq::<StoreCall>::empty());
        loop
            invariant
                run@ == (CheckModel { attempt: run@.attempt, ..started }),
                run@.attempt <= run@.max_conflict_retries,
                begun(
                    old(self).spec_max_conflict_retries(),
                    old(self).spec_bucket_ttl_seconds(),
                    policy_name@,
                    client_key@,
                    policy@,
                    cost,
                    now_ms,
                ) == Ok::<CheckModel, RateLimiterError>(started),
                self.spec_max_conflict_retries() == old(self).spec_max_conflict_retries(),
                self.spec_bucket_ttl_seconds() == old(self).spec_bucket_ttl_seconds(),
                self.spec_repository().reliable() == old(self).spec_repository().reliable(),
                self.spec_repository().buckets() == old(self).spec_repository().buckets(),
                earlier == old(self).spec_repository().calls(),
                earlier.is_prefix_of(self.spec_repository().calls()),
                stage(started, self.spec_repository().calls().skip(earlier.len() as int)) == (
                Stage::Loading { run: run@ }),
            decreases run@.max_conflict_retries - run@.attempt,
        {
            let ghost before = self.repository.calls().skip(earlier.len() as int);
            let loaded = self.repository.load(run.id());
            let ghost load = self.repository.calls().last();
            assert(self.repository.calls().skip(earlier.len() as int) =~= before.push(load));
            assert(before.push(load).drop_last() =~= before);
            let write = match run.on_load(loaded) {
                Ok(write) => write,
                Err(error) => {
                    return Err(error);
                },
            };
            let written = self.repository.compare_and_set(
                run.id(),
                write.state(),
                write.expected_version(),
                run.expires_at(),
            );
            let ghost both = before.push(load).push(self.repository.calls().last());
            assert(self.repository.calls().skip(earlier.len() as int) =~= both);
            assert(both.drop_last() =~= before.push(load));
            match run.on_write(write, written) {
                Progress::Done(decision) => {
                    return Ok(decision);
                },
                Progress::Retry(_) => {},
                Progress::Failed(error) => {
                    return Err(error);
                },
            }
        }
    }
}

} // verus!
