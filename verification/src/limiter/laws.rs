//! What holds of the token bucket over any number of requests.

use super::models::{BucketModel, BucketState, Decision, DecisionModel, Policy, PolicyModel};
use super::{evaluate, LimiterError};
use vstd::prelude::*;

verus! {

/// A request of `cost` tokens at `now_ms`.
pub struct Request {
    pub cost: u64,
    pub now_ms: u64,
}

/// The bucket after a request: a refused request changes nothing.
pub open spec fn after(
    policy: PolicyModel,
    state: Option<BucketModel>,
    request: Request,
) -> Option<BucketModel> {
    match super::algorithm::outcome(policy, state, request.cost, request.now_ms) {
        Ok(decision) => Some(decision.state),
        Err(_) => state,
    }
}

/// The tokens that a request is granted.
pub open spec fn granted(
    policy: PolicyModel,
    state: Option<BucketModel>,
    request: Request,
) -> nat {
    match super::algorithm::outcome(policy, state, request.cost, request.now_ms) {
        Ok(decision) => if decision.allowed {
            request.cost as nat
        } else {
            0
        },
        Err(_) => 0,
    }
}

/// The tokens that `requests`, served one after the other, are granted in all.
pub open spec fn total_granted(
    policy: PolicyModel,
    state: Option<BucketModel>,
    requests: Seq<Request>,
) -> nat
    decreases requests.len(),
{
    if requests.len() == 0 {
        0
    } else {
        granted(policy, state, requests.first()) + total_granted(
            policy,
            after(policy, state, requests.first()),
            requests.drop_first(),
        )
    }
}

/// A bucket that was never stored behaves as one that is full now.
pub proof fn law_new_bucket_is_full(policy: PolicyModel, cost: u64, now_ms: u64)
    ensures
        super::algorithm::outcome(policy, None, cost, now_ms) == super::algorithm::outcome(
            policy,
            Some(BucketModel::full(policy, now_ms as nat)),
            cost,
            now_ms,
        ),
{
}

/// A bucket that has refilled to its capacity behaves as a new one: keeping it
/// or deleting it makes no difference.
pub proof fn law_refilled_bucket_is_as_good_as_new(
    policy: PolicyModel,
    state: BucketModel,
    request: Request,
)
    requires
        policy.valid(),
        state.last_refill_ms <= request.now_ms,
        state.available_at(policy, request.now_ms as nat) == policy.capacity_units(),
    ensures
        super::algorithm::outcome(policy, Some(state), request.cost, request.now_ms)
            == super::algorithm::outcome(policy, None, request.cost, request.now_ms),
{
    assert(0 * policy.refill_tokens == 0);
}

/// Whatever balance was stored, even one beyond the capacity, the balance after
/// a decision is within the capacity, and so is the reported remainder.
pub proof fn law_balance_within_capacity(
    policy: PolicyModel,
    state: BucketModel,
    cost: nat,
    now_ms: nat,
)
    requires
        policy.valid(),
        state.last_refill_ms <= now_ms,
    ensures
        ({
            let decision = super::algorithm::decide(policy, state, cost, now_ms);
            &&& decision.state.available_units <= policy.capacity_units()
            &&& decision.remaining <= policy.capacity
        }),
{
    lemma_available(policy, state, now_ms);
    let left = super::algorithm::decide(policy, state, cost, now_ms).state.available_units;
    assert(left / policy.refill_period_ms <= policy.capacity) by (nonlinear_arith)
        requires
            left <= policy.capacity * policy.refill_period_ms,
            policy.refill_period_ms > 0,
    ;
}

/// An allowed request takes exactly its cost from the refilled balance; a denied
/// one takes nothing.
pub proof fn law_consumes_exactly_the_cost(
    policy: PolicyModel,
    state: BucketModel,
    cost: nat,
    now_ms: nat,
)
    requires
        policy.valid(),
        state.last_refill_ms <= now_ms,
    ensures
        ({
            let decision = super::algorithm::decide(policy, state, cost, now_ms);
            state.available_at(policy, now_ms) == decision.state.available_units + (
            if decision.allowed {
                policy.units(cost)
            } else {
                0
            })
        }),
{
}

/// Refilling is exact: stopping on the way loses no part of a token.
pub proof fn law_refill_keeps_fractions(
    policy: PolicyModel,
    state: BucketModel,
    middle_ms: nat,
    end_ms: nat,
)
    requires
        policy.valid(),
        state.last_refill_ms <= middle_ms <= end_ms,
    ensures
        (BucketModel {
            available_units: state.available_at(policy, middle_ms),
            last_refill_ms: middle_ms,
        }).available_at(policy, end_ms) == state.available_at(policy, end_ms),
{
    let first = middle_ms - state.last_refill_ms;
    let second = end_ms - middle_ms;
    let rate = policy.refill_tokens as int;
    assert((first + second) * rate == first * rate + second * rate) by (nonlinear_arith);
    assert(first * rate >= 0 && second * rate >= 0) by (nonlinear_arith)
        requires
            first >= 0,
            second >= 0,
            rate >= 0,
    ;
}

/// A request that is granted nothing has no influence on any later one.
pub proof fn law_denied_request_leaves_no_trace(
    policy: PolicyModel,
    state: Option<BucketModel>,
    denied: Request,
    later: Request,
)
    requires
        policy.valid(),
        denied.now_ms <= later.now_ms,
        granted(policy, state, denied) == 0,
    ensures
        super::algorithm::outcome(
            policy,
            after(policy, state, denied),
            later.cost,
            later.now_ms,
        ) == super::algorithm::outcome(policy, state, later.cost, later.now_ms),
{
    match state {
        Some(bucket) => {
            if bucket.last_refill_ms <= denied.now_ms {
                law_refill_keeps_fractions(
                    policy,
                    bucket,
                    denied.now_ms as nat,
                    later.now_ms as nat,
                );
            }
        },
        None => {
            if denied.cost <= policy.capacity {
                assert(policy.units(denied.cost as nat) <= policy.capacity_units())
                    by (nonlinear_arith)
                    requires
                        denied.cost <= policy.capacity,
                ;
                assert(0 * policy.refill_tokens == 0);
            }
        },
    }
}

/// `retry_after_ms` is given exactly on denial, and is the shortest wait: the
/// same request succeeds after that long, and after no less.
pub proof fn law_retry_after_is_the_shortest_wait(
    policy: PolicyModel,
    state: BucketModel,
    cost: nat,
    now_ms: nat,
    wait_ms: nat,
)
    requires
        policy.valid(),
        state.last_refill_ms <= now_ms,
        0 < cost <= policy.capacity,
    ensures
        ({
            let decision = super::algorithm::decide(policy, state, cost, now_ms);
            &&& decision.allowed <==> decision.retry_after_ms is None
            &&& !decision.allowed ==> decision.retry_after_ms->0 > 0
            &&& !decision.allowed ==> (super::algorithm::decide(
                policy,
                decision.state,
                cost,
                now_ms + wait_ms,
            ).allowed <==> decision.retry_after_ms->0 <= wait_ms)
        }),
{
    let decision = super::algorithm::decide(policy, state, cost, now_ms);
    if !decision.allowed {
        let missing = policy.units(cost) - decision.state.available_units;
        let rate = policy.refill_tokens as int;
        lemma_ceil_is_least(missing, rate, wait_ms as int);
        lemma_ceil_is_least(missing, rate, 0);
        assert(policy.units(cost) <= policy.capacity_units()) by (nonlinear_arith)
            requires
                cost <= policy.capacity,
        ;
    }
}

/// `reset_after_ms` is the shortest wait after which the bucket is full.
pub proof fn law_reset_after_is_the_shortest_wait(
    policy: PolicyModel,
    state: BucketModel,
    cost: nat,
    now_ms: nat,
    wait_ms: nat,
)
    requires
        policy.valid(),
        state.last_refill_ms <= now_ms,
    ensures
        ({
            let decision = super::algorithm::decide(policy, state, cost, now_ms);
            decision.state.available_at(policy, now_ms + wait_ms) == policy.capacity_units()
                <==> decision.reset_after_ms <= wait_ms
        }),
{
    let decision = super::algorithm::decide(policy, state, cost, now_ms);
    lemma_available(policy, state, now_ms);
    lemma_ceil_is_least(
        policy.capacity_units() - decision.state.available_units,
        policy.refill_tokens as int,
        wait_ms as int,
    );
}

/// `remaining` counts the whole tokens that can be had at once: a further request
/// at the same instant is allowed exactly if it asks for no more.
pub proof fn law_remaining_is_what_can_be_had(
    policy: PolicyModel,
    state: BucketModel,
    cost: nat,
    now_ms: nat,
    further: nat,
)
    requires
        policy.valid(),
        state.last_refill_ms <= now_ms,
    ensures
        ({
            let decision = super::algorithm::decide(policy, state, cost, now_ms);
            super::algorithm::decide(policy, decision.state, further, now_ms).allowed <==> further
                <= decision.remaining
        }),
{
    let decision = super::algorithm::decide(policy, state, cost, now_ms);
    lemma_available(policy, state, now_ms);
    let left = decision.state.available_units;
    let period = policy.refill_period_ms;
    assert(decision.state.available_at(policy, now_ms) == left) by {
        assert(0 * policy.refill_tokens == 0);
    }
    assert(further * period <= left <==> further <= left / period) by (nonlinear_arith)
        requires
            period > 0,
    ;
}

/// No client gets more than the policy's burst and rate: whatever was stored,
/// the requests of a stretch of time are granted at most one full bucket plus
/// the refill of that time.
pub proof fn law_rate_is_limited(
    policy: PolicyModel,
    state: Option<BucketModel>,
    requests: Seq<Request>,
    start_ms: nat,
    end_ms: nat,
)
    requires
        policy.valid(),
        start_ms <= end_ms,
        forall|i: int|
            0 <= i < requests.len() ==> start_ms <= (#[trigger] requests[i]).now_ms <= end_ms,
    ensures
        policy.units(total_granted(policy, state, requests)) <= policy.capacity_units() + (end_ms
            - start_ms) * policy.refill_tokens,
    decreases requests.len(),
{
    let rate = policy.refill_tokens as int;
    assert((end_ms - start_ms) * rate >= 0) by (nonlinear_arith)
        requires
            start_ms <= end_ms,
            rate >= 0,
    ;
    if requests.len() > 0 {
        let request = requests.first();
        let rest = requests.drop_first();
        let next = after(policy, state, request);
        assert forall|i: int| 0 <= i < rest.len() implies start_ms <= (
        #[trigger] rest[i]).now_ms <= end_ms by {
            assert(rest[i] == requests[i + 1]);
        }
        match super::algorithm::outcome(policy, state, request.cost, request.now_ms) {
            Err(_) => {
                law_rate_is_limited(policy, state, rest, start_ms, end_ms);
            },
            Ok(decision) => {
                let now = request.now_ms as nat;
                let served = match state {
                    Some(bucket) => bucket,
                    None => BucketModel::full(policy, now),
                };
                lemma_available(policy, served, now);
                lemma_granted_from(policy, decision.state, rest, end_ms);
                let first = granted(policy, state, request);
                let others = total_granted(policy, next, rest);
                lemma_units_add(policy, first, others);
                assert((end_ms - now) * rate <= (end_ms - start_ms) * rate) by (nonlinear_arith)
                    requires
                        start_ms <= now,
                        rate >= 0,
                ;
            },
        }
    } else {
        assert(policy.units(0) == 0) by (nonlinear_arith);
    }
}

/// What requests until `end_ms` are granted is covered by the balance and the
/// refill until then.
proof fn lemma_granted_from(
    policy: PolicyModel,
    state: BucketModel,
    requests: Seq<Request>,
    end_ms: nat,
)
    requires
        policy.valid(),
        state.last_refill_ms <= end_ms,
        forall|i: int| 0 <= i < requests.len() ==> (#[trigger] requests[i]).now_ms <= end_ms,
    ensures
        policy.units(total_granted(policy, Some(state), requests)) <= state.available_units + (
        end_ms - state.last_refill_ms) * policy.refill_tokens,
    decreases requests.len(),
{
    let rate = policy.refill_tokens as int;
    assert((end_ms - state.last_refill_ms) * rate >= 0) by (nonlinear_arith)
        requires
            state.last_refill_ms <= end_ms,
            rate >= 0,
    ;
    if requests.len() > 0 {
        let request = requests.first();
        let rest = requests.drop_first();
        assert forall|i: int| 0 <= i < rest.len() implies (#[trigger] rest[i]).now_ms
            <= end_ms by {
            assert(rest[i] == requests[i + 1]);
        }
        match super::algorithm::outcome(policy, Some(state), request.cost, request.now_ms) {
            Err(_) => {
                lemma_granted_from(policy, state, rest, end_ms);
            },
            Ok(decision) => {
                let now = request.now_ms as nat;
                let start = state.last_refill_ms;
                lemma_granted_from(policy, decision.state, rest, end_ms);
                let first = granted(policy, Some(state), request);
                let others = total_granted(policy, Some(decision.state), rest);
                lemma_units_add(policy, first, others);
                assert((now - start) * rate + (end_ms - now) * rate == (end_ms - start) * rate)
                    by (nonlinear_arith);
            },
        }
    } else {
        assert(policy.units(0) == 0) by (nonlinear_arith);
    }
}

/// Of any number of equal requests at one instant to a new bucket, exactly as
/// many are allowed as the capacity holds.
pub proof fn law_burst_is_exactly_the_capacity(policy: PolicyModel, request: Request, count: nat)
    requires
        policy.valid(),
        0 < request.cost <= policy.capacity,
    ensures
        total_granted(policy, None, Seq::new(count, |i: int| request)) == request.cost * (
        if count <= policy.capacity / request.cost as nat {
            count
        } else {
            policy.capacity / request.cost as nat
        }),
{
    let full = BucketModel::full(policy, request.now_ms as nat);
    let all = Seq::new(count, |i: int| request);
    lemma_burst(policy, full, policy.capacity, request, count);
    if count > 0 {
        law_new_bucket_is_full(policy, request.cost, request.now_ms);
        assert(after(policy, None, request) == after(policy, Some(full), request));
        assert(all.first() == request);
    }
}

proof fn lemma_burst(
    policy: PolicyModel,
    state: BucketModel,
    tokens: nat,
    request: Request,
    count: nat,
)
    requires
        policy.valid(),
        0 < request.cost,
        request.cost <= policy.capacity,
        tokens <= policy.capacity,
        state.last_refill_ms == request.now_ms,
        state.available_units == policy.units(tokens),
    ensures
        total_granted(policy, Some(state), Seq::new(count, |i: int| request)) == request.cost * (
        if count <= tokens / request.cost as nat {
            count
        } else {
            tokens / request.cost as nat
        }),
    decreases count,
{
    let cost = request.cost as nat;
    let period = policy.refill_period_ms;
    let all = Seq::new(count, |i: int| request);
    assert(policy.units(tokens) <= policy.capacity_units()) by (nonlinear_arith)
        requires
            tokens <= policy.capacity,
    ;
    assert(state.available_at(policy, request.now_ms as nat) == state.available_units) by {
        assert(0 * policy.refill_tokens == 0);
    }
    assert(cost * period <= tokens * period <==> cost <= tokens) by (nonlinear_arith)
        requires
            period > 0,
    ;
    if count > 0 {
        let fewer = (count - 1) as nat;
        assert(all.drop_first() =~= Seq::new(fewer, |i: int| request));
        assert(all.first() == request);
        if cost <= tokens {
            let left = (tokens - cost) as nat;
            assert(policy.units(left) == policy.units(tokens) - policy.units(cost))
                by (nonlinear_arith)
                requires
                    left == tokens - cost,
            ;
            let next = BucketModel {
                available_units: policy.units(left),
                last_refill_ms: request.now_ms as nat,
            };
            lemma_burst(policy, next, left, request, fewer);
            assert(left / cost == tokens / cost - 1) by (nonlinear_arith)
                requires
                    left == tokens - cost,
                    cost > 0,
                    cost <= tokens,
            ;
            let more = if fewer <= left / cost {
                fewer
            } else {
                left / cost
            };
            assert(cost + cost * more == cost * (more + 1)) by (nonlinear_arith);
        } else {
            lemma_burst(policy, state, tokens, request, fewer);
            assert(tokens / cost == 0) by (nonlinear_arith)
                requires
                    tokens < cost,
            ;
            assert(cost * 0 == 0);
        }
    } else {
        assert(tokens / cost >= 0) by (nonlinear_arith)
            requires
                cost > 0,
        ;
        assert(cost * 0 == 0);
    }
}

proof fn lemma_units_add(policy: PolicyModel, a: nat, b: nat)
    ensures
        policy.units(a + b) == policy.units(a) + policy.units(b),
{
    assert((a + b) * policy.refill_period_ms == a * policy.refill_period_ms + b
        * policy.refill_period_ms) by (nonlinear_arith);
}

proof fn lemma_available(policy: PolicyModel, state: BucketModel, now_ms: nat)
    requires
        policy.valid(),
        state.last_refill_ms <= now_ms,
    ensures
        0 <= state.available_at(policy, now_ms) <= policy.capacity_units(),
{
    let elapsed = now_ms - state.last_refill_ms;
    let rate = policy.refill_tokens as int;
    assert(elapsed * rate >= 0) by (nonlinear_arith)
        requires
            elapsed >= 0,
            rate >= 0,
    ;
}

/// The quotient rounded up is the least factor that reaches the numerator.
proof fn lemma_ceil_is_least(n: int, d: int, k: int)
    requires
        n >= 0,
        d > 0,
        k >= 0,
    ensures
        n <= k * d <==> super::algorithm::ceil(n, d) <= k,
        super::algorithm::ceil(n, d) >= 0,
{
    let c = super::algorithm::ceil(n, d);
    assert(c == (n + d - 1) / d);
    assert(d * c <= n + d - 1 < d * c + d) by (nonlinear_arith)
        requires
            d > 0,
            c == (n + d - 1) / d,
    ;
    assert(c >= 0) by (nonlinear_arith)
        requires
            n + d - 1 < d * c + d,
            n >= 0,
            d > 0,
    ;
    if c <= k {
        assert(n <= k * d) by (nonlinear_arith)
            requires
                n + d - 1 < d * c + d,
                c <= k,
                d > 0,
        ;
    } else {
        assert(n > k * d) by (nonlinear_arith)
            requires
                d * c <= n + d - 1,
                k + 1 <= c,
                d > 0,
        ;
    }
}

/// A policy is refused exactly if one of its numbers is zero or a full bucket cannot
/// be counted in 64 bits; an accepted policy says what it was made with.
pub proof fn law_usable_policies_are_accepted(
    capacity: u64,
    refill_tokens: u64,
    refill_period_ms: u64,
    res: Result<Policy, LimiterError>,
)
    requires
        call_ensures(Policy::new, (capacity, refill_tokens, refill_period_ms), res),
    ensures
        res is Ok <==> capacity >= 1 && refill_tokens >= 1 && refill_period_ms >= 1 && capacity
            * refill_period_ms <= 0xffff_ffff_ffff_ffff,
        (res matches Err(LimiterError::ZeroCapacity)) <==> capacity == 0,
        (res matches Err(LimiterError::ZeroRefillTokens)) <==> capacity >= 1 && refill_tokens == 0,
        (res matches Err(LimiterError::ZeroRefillPeriod)) <==> capacity >= 1 && refill_tokens >= 1
            && refill_period_ms == 0,
        (res matches Err(LimiterError::PolicyTooLarge)) <==> capacity >= 1 && refill_tokens >= 1
            && refill_period_ms >= 1 && capacity * refill_period_ms > 0xffff_ffff_ffff_ffff,
        res matches Ok(policy) ==> forall|told: u64| #[trigger]
            call_ensures(Policy::capacity, (&policy,), told) ==> told == capacity,
        res matches Ok(policy) ==> forall|told: u64| #[trigger]
            call_ensures(Policy::refill_tokens, (&policy,), told) ==> told == refill_tokens,
        res matches Ok(policy) ==> forall|told: u64| #[trigger]
            call_ensures(Policy::refill_period_ms, (&policy,), told) ==> told == refill_period_ms,
{
}

/// One token is as many quota units as a refill takes milliseconds.
pub proof fn law_tokens_are_counted_in_units(
    capacity: u64,
    refill_tokens: u64,
    refill_period_ms: u64,
    policy: Policy,
    full: u64,
    cost: u64,
    units: Result<u64, LimiterError>,
)
    requires
        call_ensures(Policy::new, (capacity, refill_tokens, refill_period_ms), Ok(policy)),
        call_ensures(Policy::capacity_units, (&policy,), full),
        call_ensures(Policy::cost_units, (&policy, cost), units),
    ensures
        full == capacity * refill_period_ms,
        match units {
            Ok(number) => number == cost * refill_period_ms,
            Err(error) => error == LimiterError::CostTooLarge && cost * refill_period_ms
                > 0xffff_ffff_ffff_ffff,
        },
{
}

/// A state gives back the parts that it was made of, and a full bucket holds the
/// capacity, counted from the instant given.
pub proof fn law_state_gives_back_its_parts(
    available_units: u64,
    last_refill_ms: u64,
    state: BucketState,
    capacity: u64,
    refill_tokens: u64,
    refill_period_ms: u64,
    policy: Policy,
    now_ms: u64,
    full: BucketState,
)
    requires
        call_ensures(BucketState::from_parts, (available_units, last_refill_ms), state),
        call_ensures(Policy::new, (capacity, refill_tokens, refill_period_ms), Ok(policy)),
        call_ensures(BucketState::full, (&policy, now_ms), full),
    ensures
        state@.available_units == available_units,
        state@.last_refill_ms == last_refill_ms,
        full@.available_units == capacity * refill_period_ms,
        full@.last_refill_ms == now_ms,
        forall|told: u64| #[trigger]
            call_ensures(BucketState::available_units, (&state,), told) ==> told
                == available_units,
        forall|told: u64| #[trigger]
            call_ensures(BucketState::last_refill_ms, (&state,), told) ==> told == last_refill_ms,
{
}

/// A decision is told as it was made.
pub proof fn law_decision_is_told_as_made(
    decision: Decision,
    allowed: bool,
    limit: u64,
    remaining: u64,
    reset_after_ms: u64,
    retry_after_ms: Option<u64>,
    state: BucketState,
)
    requires
        call_ensures(Decision::allowed, (&decision,), allowed),
        call_ensures(Decision::limit, (&decision,), limit),
        call_ensures(Decision::remaining, (&decision,), remaining),
        call_ensures(Decision::reset_after_ms, (&decision,), reset_after_ms),
        call_ensures(Decision::retry_after_ms, (&decision,), retry_after_ms),
        call_ensures(Decision::state, (&decision,), state),
    ensures
        decision@ == (DecisionModel {
            allowed,
            limit: limit as nat,
            remaining: remaining as nat,
            reset_after_ms: reset_after_ms as nat,
            retry_after_ms: match retry_after_ms {
                Some(ms) => Some(ms as nat),
                None => None,
            },
            state: state@,
        }),
{
}

/// What an evaluation comes to, in quota units.
///
/// It fails exactly for no cost, for a cost beyond the capacity and for a time
/// before the stored one. Otherwise the balance is the stored one plus the refill
/// of the time since, at most a full bucket, and a full bucket where none is
/// stored. The request is allowed exactly if its cost is within the balance, and
/// takes nothing else from it. The remainder is the whole tokens left; the waits
/// are the least numbers of milliseconds whose refill covers what is missing.
pub proof fn law_evaluation_in_quota_units(
    capacity: u64,
    refill_tokens: u64,
    refill_period_ms: u64,
    policy: Policy,
    state: Option<BucketState>,
    cost: u64,
    now_ms: u64,
    res: Result<Decision, LimiterError>,
)
    requires
        call_ensures(Policy::new, (capacity, refill_tokens, refill_period_ms), Ok(policy)),
        call_ensures(evaluate, (&policy, state, cost, now_ms), res),
    ensures
        ({
            let too_early = state matches Some(bucket) && now_ms < bucket@.last_refill_ms;
            &&& res is Ok <==> 1 <= cost <= capacity && !too_early
            &&& res matches Err(error) ==> error == (if cost == 0 {
                LimiterError::ZeroCost
            } else if cost > capacity {
                LimiterError::CostExceedsCapacity { cost, capacity }
            } else {
                LimiterError::ClockMovedBackwards {
                    now_ms,
                    last_refill_ms: state->0@.last_refill_ms as u64,
                }
            })
        }),
        res matches Ok(decision) ==> ({
            let full = capacity * refill_period_ms;
            let needed = cost * refill_period_ms;
            let left = decision@.state.available_units as int;
            let balance = if decision@.allowed {
                left + needed
            } else {
                left
            };
            &&& match state {
                None => balance == full,
                Some(bucket) => {
                    let grown = bucket@.available_units + (now_ms - bucket@.last_refill_ms)
                        * refill_tokens;
                    &&& balance <= full && balance <= grown
                    &&& balance == full || balance == grown
                },
            }
            &&& decision@.allowed <==> needed <= balance
            &&& decision@.state.last_refill_ms == now_ms
            &&& decision@.limit == capacity
            &&& decision@.remaining * refill_period_ms <= left < (decision@.remaining + 1)
                * refill_period_ms
            &&& full - left <= decision@.reset_after_ms * refill_tokens
            &&& decision@.reset_after_ms > 0 ==> (decision@.reset_after_ms - 1) * refill_tokens
                < full - left
            &&& decision@.retry_after_ms is None <==> decision@.allowed
            &&& decision@.retry_after_ms matches Some(wait_ms) ==> {
                &&& needed - left <= wait_ms * refill_tokens
                &&& wait_ms > 0
                &&& (wait_ms - 1) * refill_tokens < needed - left
            }
        }),
{
    if let Ok(decision) = res {
        let p = policy@;
        let now = now_ms as nat;
        let served = match state {
            Some(bucket) => bucket@,
            None => BucketModel::full(p, now),
        };
        let left = decision@.state.available_units;
        let rate = refill_tokens as int;
        let period = refill_period_ms as nat;
        assert(0 * p.refill_tokens == 0);
        lemma_available(p, served, now);
        assert(decision@ == super::algorithm::decide(p, served, cost as nat, now));
        let remaining = decision@.remaining;
        assert(remaining * period <= left < (remaining + 1) * period) by (nonlinear_arith)
            requires
                remaining == left / period,
                period > 0,
        ;
        let missing = p.capacity_units() - left;
        let reset = decision@.reset_after_ms as int;
        lemma_ceil_is_least(missing, rate, reset);
        if reset > 0 {
            lemma_ceil_is_least(missing, rate, reset - 1);
        }
        if let Some(wait_ms) = decision@.retry_after_ms {
            let lacking = p.units(cost as nat) - left;
            lemma_ceil_is_least(lacking, rate, wait_ms as int);
            lemma_ceil_is_least(lacking, rate, 0);
            lemma_ceil_is_least(lacking, rate, wait_ms - 1);
        }
    }
}

/// The messages with numbers in them give the numbers.
pub proof fn law_limiter_messages_give_their_numbers(
    first: u64,
    second: u64,
    cost: String,
    clock: String,
)
    requires
        call_ensures(
            LimiterError::message,
            (&LimiterError::CostExceedsCapacity { cost: first, capacity: second },),
            cost,
        ),
        call_ensures(
            LimiterError::message,
            (&LimiterError::ClockMovedBackwards { now_ms: first, last_refill_ms: second },),
            clock,
        ),
    ensures
        cost@ == "request cost "@ + crate::text::decimal(first as nat)
            + " exceeds bucket capacity "@ + crate::text::decimal(second as nat),
        clock@ == "current time "@ + crate::text::decimal(first as nat)
            + " precedes bucket timestamp "@ + crate::text::decimal(second as nat),
{
}

} // verus!
