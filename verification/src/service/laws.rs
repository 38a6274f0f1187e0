//! What holds of one check, however its calls to the repository turn out.

use super::{
    backoff, CheckModel, CheckRun, Pause, PendingWrite, Progress, RateLimiter, RateLimiterError,
};
use crate::limiter::laws::Request;
use crate::limiter::models::{BucketModel, DecisionModel, PolicyModel};
use crate::limiter::{evaluate, BucketState, Decision, LimiterError, Policy};
use crate::storage::models::StoredModel;
use crate::storage::{
    BucketId, BucketIdError, BucketRepository, RepositoryError, StoreCall, StoredBucket,
};
use vstd::prelude::*;

verus! {

/// The check after that many conflicts, if it is not over by then.
pub open spec fn after_conflicts(run: CheckModel, conflicts: nat) -> Option<CheckModel>
    decreases conflicts,
{
    if conflicts == 0 {
        Some(run)
    } else {
        match after_conflicts(run, (conflicts - 1) as nat) {
            Some(before) => super::after_conflict(before),
            None => None,
        }
    }
}

/// A check survives exactly as many conflicts as its retry budget allows.
pub proof fn law_retry_budget_is_kept(run: CheckModel, conflicts: nat)
    requires
        run.attempt == 0,
    ensures
        after_conflicts(run, conflicts) is Some <==> conflicts <= run.max_conflict_retries,
        after_conflicts(run, conflicts) is Some ==> after_conflicts(run, conflicts) == Some(
            CheckModel { attempt: conflicts, ..run },
        ),
    decreases conflicts,
{
    if conflicts > 0 {
        law_retry_budget_is_kept(run, (conflicts - 1) as nat);
    }
}

/// Whether a check can go on after a call: the bucket was loaded, or another
/// writer came first.
pub open spec fn leaves_open(call: StoreCall) -> bool {
    match call {
        StoreCall::Load { found, .. } => found is Ok,
        StoreCall::Write { written, .. } => written matches Err(RepositoryError::Conflict),
    }
}

/// Whether a call is about the bucket of a check, and writes its expiration.
pub open spec fn concerns(run: CheckModel, call: StoreCall) -> bool {
    match call {
        StoreCall::Load { key, .. } => key == run.key,
        StoreCall::Write { key, expires_at_epoch_seconds, .. } => key == run.key
            && expires_at_epoch_seconds == run.expires_at,
    }
}

/// A check is about one bucket and ends at the first call that settles it: a
/// failed load or write is its last call and its error, only the last call can
/// have written anything, and there are at most two calls for each attempt.
pub proof fn law_check_ends_at_the_first_failure(run: CheckModel, calls: Seq<StoreCall>)
    requires
        super::answer(run, calls) is Some,
        run.attempt <= run.max_conflict_retries,
    ensures
        0 < calls.len() <= 2 * (run.max_conflict_retries - run.attempt + 1),
        forall|i: int| 0 <= i < calls.len() - 1 ==> leaves_open(#[trigger] calls[i]),
        forall|i: int| 0 <= i < calls.len() ==> concerns(run, #[trigger] calls[i]),
        calls.last() matches StoreCall::Load { found: Err(error), .. } ==> super::answer(run, calls)
            == Some(Err::<DecisionModel, super::RateLimiterError>(
            super::RateLimiterError::Repository(error),
        )),
        calls.last() matches StoreCall::Write { written: Err(error), .. } ==> (error is Conflict
            || super::answer(run, calls) == Some(Err::<DecisionModel, super::RateLimiterError>(
            super::RateLimiterError::Repository(error),
        ))),
        super::answer(run, calls)->0 is Ok <==> (calls.last() matches StoreCall::Write {
            written,
            ..
        } && written is Ok),
{
    let before = calls.drop_last();
    if calls.len() > 0 {
        lemma_stage(run, before);
        assert forall|i: int| 0 <= i < calls.len() - 1 implies leaves_open(#[trigger] calls[i]) by {
            assert(calls[i] == before[i]);
        }
        assert forall|i: int| 0 <= i < calls.len() implies concerns(run, #[trigger] calls[i]) by {
            if i < calls.len() - 1 {
                assert(calls[i] == before[i]);
            }
        }
    }
}

/// While a check is under way it has made two calls for each attempt before the
/// present one, and all of them left it open.
proof fn lemma_stage(run: CheckModel, calls: Seq<StoreCall>)
    requires
        run.attempt <= run.max_conflict_retries,
    ensures
        match super::stage(run, calls) {
            super::Stage::Loading { run: now } | super::Stage::Writing { run: now, .. } => {
                &&& now == (CheckModel { attempt: now.attempt, ..run })
                &&& run.attempt <= now.attempt <= run.max_conflict_retries
                &&& calls.len() == 2 * (now.attempt - run.attempt) + (if super::stage(
                    run,
                    calls,
                ) is Writing {
                    1int
                } else {
                    0
                })
                &&& forall|i: int|
                    0 <= i < calls.len() ==> leaves_open(#[trigger] calls[i]) && concerns(
                        run,
                        calls[i],
                    )
            },
            _ => true,
        },
    decreases calls.len(),
{
    let before = calls.drop_last();
    if calls.len() > 0 {
        lemma_stage(run, before);
        assert(super::stage(run, calls) == super::next_stage(
            super::stage(run, before),
            calls.last(),
        ));
        if super::stage(run, calls) is Loading || super::stage(run, calls) is Writing {
            assert forall|i: int| 0 <= i < calls.len() implies leaves_open(#[trigger] calls[i])
                && concerns(run, calls[i]) by {
                if i < calls.len() - 1 {
                    assert(calls[i] == before[i]);
                }
            }
        }
    }
}

/// Pauses never get shorter from attempt to attempt, and never exceed five
/// milliseconds.
pub proof fn law_backoff_is_capped(attempt: nat)
    ensures
        super::pause_after(attempt) matches super::Pause::Sleep { micros } ==> 0 < micros <= 5_000,
        super::pause_after(attempt) is Sleep ==> super::pause_after(attempt)->micros
            <= super::pause_after(attempt + 1)->micros && super::pause_after(attempt + 1) is Sleep,
{
}

/// In a store of its own, a check with a proper identity serves the request: the
/// decision, the tokens granted and the state stored are those of the bucket, and
/// a refused check changes nothing.
pub proof fn law_check_serves_the_request(
    buckets: Map<Seq<char>, StoredModel>,
    max_conflict_retries: u32,
    bucket_ttl_seconds: u64,
    policy_name: Seq<char>,
    client_key: Seq<char>,
    policy: PolicyModel,
    request: Request,
)
    requires
        crate::storage::models::bucket_id_error(policy_name, client_key) is None,
        super::expiry(request.now_ms, bucket_ttl_seconds) <= u64::MAX,
        ({
            let key = crate::storage::models::bucket_key(policy_name, client_key);
            let version = crate::storage::version_of(crate::storage::bucket_at(buckets, key));
            crate::storage::following_version(version) is Some
        }),
    ensures
        ({
            let key = crate::storage::models::bucket_key(policy_name, client_key);
            let state = crate::storage::state_of(crate::storage::bucket_at(buckets, key));
            let granted = crate::limiter::laws::granted(policy, state, request);
            let after = crate::limiter::laws::after(policy, state, request);
            match super::check_outcome(
                buckets,
                max_conflict_retries,
                bucket_ttl_seconds,
                policy_name,
                client_key,
                policy,
                request.cost,
                request.now_ms,
            ) {
                Ok((decision, stored)) => {
                    &&& after == Some(stored.state)
                    &&& granted == (if decision.allowed {
                        request.cost as nat
                    } else {
                        0
                    })
                },
                Err(_) => after == state && granted == 0,
            }
        }),
{
}

/// What is stored for one client under one policy has no influence on a check of
/// a client with another digest, or under another policy.
pub proof fn law_clients_and_policies_are_isolated(
    buckets: Map<Seq<char>, StoredModel>,
    stored: StoredModel,
    max_conflict_retries: u32,
    bucket_ttl_seconds: u64,
    policy_name: Seq<char>,
    client_key: Seq<char>,
    other_policy_name: Seq<char>,
    other_client_key: Seq<char>,
    other_policy: PolicyModel,
    request: Request,
)
    requires
        crate::storage::models::bucket_id_error(policy_name, client_key) is None,
        policy_name != other_policy_name || crate::storage::models::sha256_digest(
            vstd::utf8::encode_utf8(client_key),
        ) != crate::storage::models::sha256_digest(vstd::utf8::encode_utf8(other_client_key)),
    ensures
        super::check_outcome(
            buckets.insert(
                crate::storage::models::bucket_key(policy_name, client_key),
                stored,
            ),
            max_conflict_retries,
            bucket_ttl_seconds,
            other_policy_name,
            other_client_key,
            other_policy,
            request.cost,
            request.now_ms,
        ) == super::check_outcome(
            buckets,
            max_conflict_retries,
            bucket_ttl_seconds,
            other_policy_name,
            other_client_key,
            other_policy,
            request.cost,
            request.now_ms,
        ),
{
    let digest = crate::storage::models::sha256_digest(vstd::utf8::encode_utf8(client_key));
    let other_digest = crate::storage::models::sha256_digest(
        vstd::utf8::encode_utf8(other_client_key),
    );
    if crate::storage::models::bucket_id_error(other_policy_name, other_client_key) is None {
        if crate::storage::models::bucket_key(policy_name, client_key)
            == crate::storage::models::bucket_key(other_policy_name, other_client_key) {
            crate::storage::models::law_storage_key_identifies_policy_and_digest(
                policy_name,
                digest,
                other_policy_name,
                other_digest,
            );
        }
    }
}

/// When a stored bucket expires has no influence on any decision about it.
pub proof fn law_expiration_does_not_decide(
    run: CheckModel,
    stored: StoredModel,
    other_expiration: nat,
)
    ensures
        super::proposed_write(run, Some(stored)) == super::proposed_write(
            run,
            Some(StoredModel { expires_at_epoch_seconds: other_expiration, ..stored }),
        ),
{
}

/// By the time a bucket expires it is full, if its time to live covers a full
/// refill and one second more: it makes no difference whether it has been deleted.
pub proof fn law_expired_bucket_is_as_good_as_new(
    policy: PolicyModel,
    state: BucketModel,
    bucket_ttl_seconds: u64,
    request: Request,
)
    requires
        policy.valid(),
        state.last_refill_ms <= u64::MAX,
        (bucket_ttl_seconds - 1) * 1_000 * policy.refill_tokens >= policy.capacity_units(),
        request.now_ms / 1_000 >= super::expiry(state.last_refill_ms as u64, bucket_ttl_seconds),
    ensures
        crate::limiter::algorithm::outcome(policy, Some(state), request.cost, request.now_ms)
            == crate::limiter::algorithm::outcome(policy, None, request.cost, request.now_ms),
{
    let elapsed = request.now_ms - state.last_refill_ms;
    let waited = (bucket_ttl_seconds - 1) * 1_000;
    let rate = policy.refill_tokens as int;
    assert(elapsed * rate >= waited * rate) by (nonlinear_arith)
        requires
            elapsed >= waited,
            rate >= 0,
    ;
    if bucket_ttl_seconds == 0 {
        assert(waited * rate < 0) by (nonlinear_arith)
            requires
                waited < 0,
                rate > 0,
        ;
    }
    crate::limiter::laws::law_refilled_bucket_is_as_good_as_new(policy, state, request);
}

/// A check starts exactly if its bucket can be named and its expiration fits in 64
/// bits, in that order, and is then about that bucket and that request, at its
/// first attempt, with the retries of the limiter. The bucket expires the whole
/// seconds of the time to live after the present one.
pub proof fn law_check_starts_as_the_limiter_is_set<R>(
    repository: R,
    max_conflict_retries: u32,
    bucket_ttl_seconds: u64,
    limiter: RateLimiter<R>,
    policy_name: &str,
    client_key: &str,
    policy: Policy,
    cost: u64,
    now_ms: u64,
    named: Result<BucketId, BucketIdError>,
    res: Result<CheckRun, RateLimiterError>,
)
    requires
        call_ensures(
            RateLimiter::<R>::new,
            (repository, max_conflict_retries, bucket_ttl_seconds),
            limiter,
        ),
        call_ensures(BucketId::new, (policy_name, client_key), named),
        call_ensures(
            RateLimiter::<R>::begin,
            (&limiter, policy_name, client_key, &policy, cost, now_ms),
            res,
        ),
    ensures
        limiter.spec_repository() == repository,
        limiter.spec_max_conflict_retries() == max_conflict_retries,
        limiter.spec_bucket_ttl_seconds() == bucket_ttl_seconds,
        res is Ok <==> named is Ok && now_ms / 1_000 + bucket_ttl_seconds <= 0xffff_ffff_ffff_ffff,
        named matches Err(error) ==> (res matches Err(RateLimiterError::InvalidBucketId(same))
            && same == error),
        named is Ok && res is Err ==> (res matches Err(RateLimiterError::ExpiryOverflow)),
        res matches Ok(run) ==> {
            &&& run@.key == named->Ok_0@
            &&& run@.policy == policy@
            &&& run@.cost == cost
            &&& run@.now_ms == now_ms
            &&& run@.attempt == 0
            &&& run@.max_conflict_retries == max_conflict_retries
            &&& 1_000 * run@.expires_at <= now_ms + 1_000 * bucket_ttl_seconds < 1_000
                * run@.expires_at + 1_000
            &&& forall|id: &BucketId| #[trigger]
                call_ensures(CheckRun::id, (&run,), id) ==> id@ == named->Ok_0@
            &&& forall|told: u64| #[trigger]
                call_ensures(CheckRun::expires_at, (&run,), told) ==> told == run@.expires_at
            &&& forall|told: u32| #[trigger]
                call_ensures(CheckRun::attempt, (&run,), told) ==> told == 0
        },
{
}

/// A check that a limiter starts survives exactly as many conflicts as the limiter
/// was made with.
pub proof fn law_check_survives_the_retries_of_its_limiter<R>(
    repository: R,
    max_conflict_retries: u32,
    bucket_ttl_seconds: u64,
    limiter: RateLimiter<R>,
    policy_name: &str,
    client_key: &str,
    policy: Policy,
    cost: u64,
    now_ms: u64,
    run: CheckRun,
    conflicts: nat,
)
    requires
        call_ensures(
            RateLimiter::<R>::new,
            (repository, max_conflict_retries, bucket_ttl_seconds),
            limiter,
        ),
        call_ensures(
            RateLimiter::<R>::begin,
            (&limiter, policy_name, client_key, &policy, cost, now_ms),
            Ok(run),
        ),
    ensures
        after_conflicts(run@, conflicts) is Some <==> conflicts <= max_conflict_retries,
{
    law_retry_budget_is_kept(run@, conflicts);
}

/// A conflict is followed by another attempt exactly as long as the budget of the
/// check is not used up, with the same bucket and request; otherwise it is reported
/// how many attempts were made. Any other failure of the write ends the check with
/// that failure.
pub proof fn law_conflicts_are_retried_within_the_budget(
    conflicting: &mut CheckRun,
    failing: &mut CheckRun,
    write: PendingWrite,
    error: RepositoryError,
    after: Progress,
    after_failure: Progress,
)
    requires
        call_ensures(
            CheckRun::on_write,
            (conflicting, write, Err(RepositoryError::Conflict)),
            after,
        ),
        call_ensures(CheckRun::on_write, (failing, write, Err(error)), after_failure),
        error !is Conflict,
        old(conflicting)@.attempt <= old(conflicting)@.max_conflict_retries < 0xffff_ffff,
    ensures
        ({
            let before = old(conflicting)@;
            if before.attempt < before.max_conflict_retries {
                &&& after is Retry
                &&& final(conflicting)@.attempt == before.attempt + 1
                &&& final(conflicting)@ == (CheckModel {
                    attempt: final(conflicting)@.attempt,
                    ..before
                })
                &&& forall|pause: Pause| #[trigger]
                    call_ensures(backoff, (before.attempt as u32,), pause) ==> after
                        == Progress::Retry(pause)
            } else {
                after matches Progress::Failed(
                    RateLimiterError::ContentionExhausted { attempts },
                ) && attempts == before.max_conflict_retries + 1
            }
        }),
        after_failure == Progress::Failed(RateLimiterError::Repository(error)),
{
}

/// After the first attempt other tasks are let run; the pause after the next is a
/// tenth of a millisecond, and each further one that much longer, until it is five
/// milliseconds.
pub proof fn law_pauses_grow_by_a_tenth_of_a_millisecond(
    attempt: u32,
    pause: Pause,
    next: u32,
    next_pause: Pause,
)
    requires
        call_ensures(backoff, (attempt,), pause),
        next == attempt + 1,
        call_ensures(backoff, (next,), next_pause),
    ensures
        pause is Yield <==> attempt == 0,
        attempt == 0 ==> next_pause == (Pause::Sleep { micros: 100 }),
        pause matches Pause::Sleep { micros } ==> next_pause == (Pause::Sleep {
            micros: if micros < 5_000 {
                (micros + 100) as u64
            } else {
                5_000
            },
        }),
{
}

/// The write that a check asks for is that of the decision on the bucket it has
/// loaded, on the condition of the loaded version, and that decision is the answer
/// once it is written. A load that failed and a request that cannot be decided end
/// the check.
pub proof fn law_answer_is_the_decision_on_the_loaded_bucket(
    run: &mut CheckRun,
    policy: Policy,
    found: Option<StoredBucket>,
    state: Option<BucketState>,
    evaluated: Result<Decision, LimiterError>,
    error: RepositoryError,
    unloaded: Result<PendingWrite, RateLimiterError>,
    asked: Result<PendingWrite, RateLimiterError>,
    next_state: BucketState,
    expected_version: Option<u64>,
    stored: StoredBucket,
    answered: Progress,
)
    requires
        policy@ == old(run)@.policy,
        match found {
            Some(bucket) => state matches Some(held) && held@ == bucket@.state,
            None => state is None,
        },
        call_ensures(
            evaluate,
            (&policy, state, old(run)@.cost, old(run)@.now_ms),
            evaluated,
        ),
        call_ensures(CheckRun::on_load, (&*old(run), Ok(found)), asked),
        call_ensures(CheckRun::on_load, (&*old(run), Err(error)), unloaded),
        asked matches Ok(write) ==> call_ensures(PendingWrite::state, (&write,), next_state)
            && call_ensures(PendingWrite::expected_version, (&write,), expected_version)
            && call_ensures(CheckRun::on_write, (run, write, Ok(stored)), answered),
    ensures
        unloaded == Err::<PendingWrite, RateLimiterError>(RateLimiterError::Repository(error)),
        match evaluated {
            Ok(decision) => {
                &&& asked is Ok
                &&& next_state@ == decision@.state
                &&& match found {
                    Some(bucket) => expected_version matches Some(version) && version
                        == bucket@.version,
                    None => expected_version is None,
                }
                &&& answered matches Progress::Done(told) && told@ == decision@
            },
            Err(failed) => asked == Err::<PendingWrite, RateLimiterError>(
                RateLimiterError::InvalidRequest(failed),
            ),
        },
{
}

/// In a store that carries out every operation, a check comes to the decision on
/// the stored bucket, and stores what the decision leaves under the next version,
/// to expire the time to live from now. A request that cannot be decided stores
/// nothing.
pub proof fn law_check_decides_on_the_stored_bucket<R: BucketRepository>(
    limiter: &mut RateLimiter<R>,
    policy_name: &str,
    client_key: &str,
    policy: Policy,
    cost: u64,
    now_ms: u64,
    id: BucketId,
    state: Option<BucketState>,
    evaluated: Result<Decision, LimiterError>,
    res: Result<Decision, RateLimiterError>,
)
    requires
        old(limiter).spec_repository().reliable(),
        call_ensures(BucketId::new, (policy_name, client_key), Ok(id)),
        now_ms / 1_000 + old(limiter).spec_bucket_ttl_seconds() <= 0xffff_ffff_ffff_ffff,
        ({
            let buckets = old(limiter).spec_repository().buckets();
            if buckets.contains_key(id@) {
                &&& buckets[id@].version < 0xffff_ffff_ffff_ffff
                &&& state matches Some(held)
                &&& held@ == buckets[id@].state
            } else {
                state is None
            }
        }),
        call_ensures(evaluate, (&policy, state, cost, now_ms), evaluated),
        call_ensures(
            RateLimiter::<R>::check,
            (limiter, policy_name, client_key, &policy, cost, now_ms),
            res,
        ),
    ensures
        ({
            let buckets = old(limiter).spec_repository().buckets();
            let after = final(limiter).spec_repository().buckets();
            match evaluated {
                Ok(decision) => {
                    &&& res matches Ok(told)
                    &&& told@ == decision@
                    &&& after.contains_key(id@)
                    &&& after[id@].state == decision@.state
                    &&& after[id@].version == (if buckets.contains_key(id@) {
                        buckets[id@].version + 1
                    } else {
                        0
                    })
                    &&& after[id@].expires_at_epoch_seconds == now_ms / 1_000 + old(
                        limiter,
                    ).spec_bucket_ttl_seconds()
                    &&& after.remove(id@) == buckets.remove(id@)
                },
                Err(failed) => {
                    &&& res matches Err(RateLimiterError::InvalidRequest(same))
                    &&& same == failed
                    &&& after == buckets
                },
            }
        }),
{
    let buckets = old(limiter).spec_repository().buckets();
    if let Ok(decision) = evaluated {
        assert(final(limiter).spec_repository().buckets().remove(id@) =~= buckets.remove(id@));
    }
}

/// A check that cannot start does not touch the store, and says why.
pub proof fn law_check_that_cannot_start_calls_nothing<R: BucketRepository>(
    limiter: &mut RateLimiter<R>,
    policy_name: &str,
    client_key: &str,
    policy: Policy,
    cost: u64,
    now_ms: u64,
    named: Result<BucketId, BucketIdError>,
    res: Result<Decision, RateLimiterError>,
)
    requires
        call_ensures(BucketId::new, (policy_name, client_key), named),
        named is Err || now_ms / 1_000 + old(limiter).spec_bucket_ttl_seconds()
            > 0xffff_ffff_ffff_ffff,
        call_ensures(
            RateLimiter::<R>::check,
            (limiter, policy_name, client_key, &policy, cost, now_ms),
            res,
        ),
    ensures
        match named {
            Err(error) => res matches Err(RateLimiterError::InvalidBucketId(same)) && same == error,
            Ok(_) => res matches Err(RateLimiterError::ExpiryOverflow),
        },
        final(limiter).spec_repository().calls() == old(limiter).spec_repository().calls(),
        final(limiter).spec_repository().buckets() == old(limiter).spec_repository().buckets(),
{
    let before = old(limiter).spec_repository().calls();
    let after = final(limiter).spec_repository().calls();
    assert(after =~= before);
}

/// A bucket whose versions are used up is given up after all attempts, and nothing
/// is stored.
pub proof fn law_used_up_versions_exhaust_the_attempts<R: BucketRepository>(
    limiter: &mut RateLimiter<R>,
    policy_name: &str,
    client_key: &str,
    policy: Policy,
    cost: u64,
    now_ms: u64,
    id: BucketId,
    state: BucketState,
    decision: Decision,
    res: Result<Decision, RateLimiterError>,
)
    requires
        old(limiter).spec_repository().reliable(),
        old(limiter).spec_max_conflict_retries() < 0xffff_ffff,
        call_ensures(BucketId::new, (policy_name, client_key), Ok(id)),
        now_ms / 1_000 + old(limiter).spec_bucket_ttl_seconds() <= 0xffff_ffff_ffff_ffff,
        old(limiter).spec_repository().buckets().contains_key(id@),
        old(limiter).spec_repository().buckets()[id@].version >= 0xffff_ffff_ffff_ffff,
        old(limiter).spec_repository().buckets()[id@].state == state@,
        call_ensures(evaluate, (&policy, Some(state), cost, now_ms), Ok(decision)),
        call_ensures(
            RateLimiter::<R>::check,
            (limiter, policy_name, client_key, &policy, cost, now_ms),
            res,
        ),
    ensures
        res matches Err(RateLimiterError::ContentionExhausted { attempts }) && attempts == old(
            limiter,
        ).spec_max_conflict_retries() + 1,
        final(limiter).spec_repository().buckets() == old(limiter).spec_repository().buckets(),
{
}

/// In a store that fails, a check whose last call was a load has stored nothing, and
/// one that reports a failure of the store has changed its own bucket at most.
pub proof fn law_failed_load_stores_nothing<R: BucketRepository>(
    limiter: &mut RateLimiter<R>,
    policy_name: &str,
    client_key: &str,
    policy: Policy,
    cost: u64,
    now_ms: u64,
    id: BucketId,
    error: RepositoryError,
)
    requires
        call_ensures(BucketId::new, (policy_name, client_key), Ok(id)),
        call_ensures(
            RateLimiter::<R>::check,
            (limiter, policy_name, client_key, &policy, cost, now_ms),
            Err(RateLimiterError::Repository(error)),
        ),
    ensures
        !old(limiter).spec_repository().reliable(),
        ({
            let earlier = old(limiter).spec_repository().calls();
            let calls = final(limiter).spec_repository().calls();
            let buckets = old(limiter).spec_repository().buckets();
            let after = final(limiter).spec_repository().buckets();
            &&& earlier.len() < calls.len()
            &&& calls.take(earlier.len() as int) == earlier
            &&& match calls.last() {
                StoreCall::Load { key, found } => key == id@ && found == Err::<
                    Option<StoredModel>,
                    RepositoryError,
                >(error) && after == buckets,
                StoreCall::Write { key, written, .. } => key == id@ && written == Err::<
                    StoredModel,
                    RepositoryError,
                >(error) && after.remove(id@) == buckets.remove(id@),
            }
        }),
{
    let earlier = old(limiter).spec_repository().calls();
    let calls = final(limiter).spec_repository().calls();
    let buckets = old(limiter).spec_repository().buckets();
    let after = final(limiter).spec_repository().buckets();
    let new = calls.skip(earlier.len() as int);
    let run = super::begun(
        old(limiter).spec_max_conflict_retries(),
        old(limiter).spec_bucket_ttl_seconds(),
        policy_name@,
        client_key@,
        policy@,
        cost,
        now_ms,
    )->Ok_0;
    law_check_ends_at_the_first_failure(run, new);
    assert(new.last() == calls.last());
    assert(calls.take(earlier.len() as int) =~= earlier);
    assert(concerns(run, new[new.len() - 1]));
    if after != buckets {
        assert(after.remove(id@) =~= buckets.remove(id@));
    }
    lemma_stage(run, new.drop_last());
}

/// The message of a failed check is that of what made it fail.
pub proof fn law_check_messages_are_those_of_the_cause(
    named: BucketIdError,
    named_text: String,
    decided: LimiterError,
    decided_text: String,
    stored: RepositoryError,
    stored_text: String,
    attempts: u32,
    about_name: String,
    about_request: String,
    about_store: String,
    about_contention: String,
)
    requires
        call_ensures(BucketIdError::message, (&named,), named_text),
        call_ensures(LimiterError::message, (&decided,), decided_text),
        call_ensures(RepositoryError::message, (&stored,), stored_text),
        call_ensures(
            RateLimiterError::message,
            (&RateLimiterError::InvalidBucketId(named),),
            about_name,
        ),
        call_ensures(
            RateLimiterError::message,
            (&RateLimiterError::InvalidRequest(decided),),
            about_request,
        ),
        call_ensures(
            RateLimiterError::message,
            (&RateLimiterError::Repository(stored),),
            about_store,
        ),
        call_ensures(
            RateLimiterError::message,
            (&RateLimiterError::ContentionExhausted { attempts },),
            about_contention,
        ),
    ensures
        about_name@ == named_text@,
        about_request@ == decided_text@,
        about_store@ == stored_text@,
        about_contention@ == "bucket remained contended after "@ + crate::text::decimal(
            attempts as nat,
        ) + " attempts"@,
{
}

} // verus!
