use super::models::{BucketModel, BucketState, Decision, DecisionModel, Policy, PolicyModel};
use crate::text::to_decimal;
use vstd::prelude::*;
use vstd::string::*;

verus! {

#[derive(Clone, Copy, Debug, PartialEq, Eq, Structural)]
pub enum LimiterError {
    ZeroCapacity,
    ZeroRefillTokens,
    ZeroRefillPeriod,
    PolicyTooLarge,
    ZeroCost,
    CostExceedsCapacity { cost: u64, capacity: u64 },
    CostTooLarge,
    ArithmeticOverflow,
    ClockMovedBackwards { now_ms: u64, last_refill_ms: u64 },
}

/// What a reader is told of an error.
pub open spec fn limiter_error_text(error: LimiterError) -> Seq<char> {
    match error {
        LimiterError::ZeroCapacity => "bucket capacity must be greater than zero"@,
        LimiterError::ZeroRefillTokens => "refill_tokens must be greater than zero"@,
        LimiterError::ZeroRefillPeriod => "refill_period_ms must be greater than zero"@,
        LimiterError::PolicyTooLarge => "policy values are too large to represent safely"@,
        LimiterError::ZeroCost => "request cost must be greater than zero"@,
        LimiterError::CostExceedsCapacity { cost, capacity } => "request cost "@ + crate::text::decimal(
            cost as nat,
        ) + " exceeds bucket capacity "@ + crate::text::decimal(capacity as nat),
        LimiterError::CostTooLarge => "request cost is too large to represent safely"@,
        LimiterError::ArithmeticOverflow =>
            "calculated bucket value is too large to represent safely"@,
        LimiterError::ClockMovedBackwards { now_ms, last_refill_ms } => "current time "@ + crate::text::decimal(
            now_ms as nat,
        ) + " precedes bucket timestamp "@ + crate::text::decimal(last_refill_ms as nat),
    }
}

impl LimiterError {
    pub fn message(&self) -> (res: String)
        ensures
            res@ == limiter_error_text(*self),
    {
        match self {
            LimiterError::ZeroCapacity => "bucket capacity must be greater than zero".to_owned(),
            LimiterError::ZeroRefillTokens => "refill_tokens must be greater than zero".to_owned(),
            LimiterError::ZeroRefillPeriod =>
                "refill_period_ms must be greater than zero".to_owned(),
            LimiterError::PolicyTooLarge =>
                "policy values are too large to represent safely".to_owned(),
            LimiterError::ZeroCost => "request cost must be greater than zero".to_owned(),
            LimiterError::CostExceedsCapacity { cost, capacity } => {
                let mut res = "request cost ".to_owned();
                res.append(to_decimal(*cost).as_str());
                res.append(" exceeds bucket capacity ");
                res.append(to_decimal(*capacity).as_str());
                res
            },
            LimiterError::CostTooLarge =>
                "request cost is too large to represent safely".to_owned(),
            LimiterError::ArithmeticOverflow =>
                "calculated bucket value is too large to represent safely".to_owned(),
            LimiterError::ClockMovedBackwards { now_ms, last_refill_ms } => {
                let mut res = "current time ".to_owned();
                res.append(to_decimal(*now_ms).as_str());
                res.append(" precedes bucket timestamp ");
                res.append(to_decimal(*last_refill_ms).as_str());
                res
            },
        }
    }
}

/// The quotient rounded up.
pub open spec fn ceil(numerator: int, denominator: int) -> int {
    (numerator + denominator - 1) / denominator
}

/// The decision on a request of `cost` tokens at `now_ms` to a bucket in `state`.
pub open spec fn decide(
    policy: PolicyModel,
    state: BucketModel,
    cost: nat,
    now_ms: nat,
) -> DecisionModel {
    let available = state.available_at(policy, now_ms);
    let allowed = policy.units(cost) <= available;
    let left: nat = if allowed {
        (available - policy.units(cost)) as nat
    } else {
        available
    };
    DecisionModel {
        allowed,
        limit: policy.capacity,
        remaining: left / policy.refill_period_ms,
        reset_after_ms: ceil(
            policy.capacity_units() - left,
            policy.refill_tokens as int,
        ) as nat,
        retry_after_ms: if allowed {
            None
        } else {
            Some(ceil(policy.units(cost) - left, policy.refill_tokens as int) as nat)
        },
        state: BucketModel { available_units: left, last_refill_ms: now_ms },
    }
}

/// What a request comes to: an error, or the decision on the stored bucket, a
/// missing one being full.
pub open spec fn outcome(
    policy: PolicyModel,
    state: Option<BucketModel>,
    cost: u64,
    now_ms: u64,
) -> Result<DecisionModel, LimiterError> {
    if cost == 0 {
        Err(LimiterError::ZeroCost)
    } else if cost > policy.capacity {
        Err(LimiterError::CostExceedsCapacity { cost, capacity: policy.capacity as u64 })
    } else {
        match state {
            None => Ok(
                decide(
                    policy,
                    BucketModel::full(policy, now_ms as nat),
                    cost as nat,
                    now_ms as nat,
                ),
            ),
            Some(bucket) => if now_ms < bucket.last_refill_ms {
                Err(
                    LimiterError::ClockMovedBackwards {
                        now_ms,
                        last_refill_ms: bucket.last_refill_ms as u64,
                    },
                )
            } else {
                Ok(decide(policy, bucket, cost as nat, now_ms as nat))
            },
        }
    }
}

/// Applies one token-bucket transition at an explicit timestamp.
///
/// A missing state represents a new, full bucket. Rejected requests retain
/// their refilled balance; allowed requests consume `cost` from the returned
/// state. Persistence and concurrency control are left to the caller.
pub fn evaluate(policy: &Policy, state: Option<BucketState>, cost: u64, now_ms: u64) -> (res:
    Result<Decision, LimiterError>)
    ensures
        match res {
            Ok(decision) => outcome(
                policy@,
                super::models::state_model(state),
                cost,
                now_ms,
            ) == Ok::<DecisionModel, LimiterError>(decision@),
            Err(error) => outcome(
                policy@,
                super::models::state_model(state),
                cost,
                now_ms,
            ) == Err::<DecisionModel, LimiterError>(error),
        },
{
    match validate_cost(policy, cost) {
        Ok(()) => {},
        Err(error) => {
            return Err(error);
        },
    }

    let state: BucketState = match state {
        Some(bucket) => bucket,
        None => BucketState::full(policy, now_ms),
    };
    if now_ms < state.last_refill_ms() {
        return Err(
            LimiterError::ClockMovedBackwards { now_ms, last_refill_ms: state.last_refill_ms() },
        );
    }
    let refill_tokens: u128 = policy.refill_tokens() as u128;
    let refill_period_ms: u128 = policy.refill_period_ms() as u128;
    let capacity_units: u128 = policy.capacity_units() as u128;
    let elapsed_ms: u128 = (now_ms - state.last_refill_ms()) as u128;
    assert(elapsed_ms * refill_tokens <= u64::MAX * u64::MAX) by (nonlinear_arith)
        requires
            elapsed_ms <= u64::MAX,
            refill_tokens <= u64::MAX,
    ;
    let refilled_units: u128 = elapsed_ms * refill_tokens;
    let grown_units: u128 = state.available_units() as u128 + refilled_units;
    let available_units: u128 = if grown_units <= capacity_units {
        grown_units
    } else {
        capacity_units
    };
    assert(policy@.units(cost as nat) <= policy@.capacity_units()) by (nonlinear_arith)
        requires
            cost <= policy@.capacity,
    ;
    let cost_units: u128 = match policy.cost_units(cost) {
        Ok(units) => units as u128,
        Err(error) => {
            return Err(error);
        },
    };

    let allowed: bool = available_units >= cost_units;
    let resulting_units: u128 = if allowed {
        available_units - cost_units
    } else {
        available_units
    };
    let remaining: u128 = resulting_units / refill_period_ms;
    assert(remaining <= resulting_units) by (nonlinear_arith)
        requires
            remaining == resulting_units / refill_period_ms,
            refill_period_ms > 0,
    ;
    let reset_after_ms: u128 = ceil_div(capacity_units - resulting_units, refill_tokens);
    let retry_after_ms: Option<u64> = if allowed {
        None
    } else {
        Some(ceil_div(cost_units - resulting_units, refill_tokens) as u64)
    };

    Ok(
        Decision::new(
            allowed,
            policy.capacity(),
            remaining as u64,
            reset_after_ms as u64,
            retry_after_ms,
            BucketState::from_parts(resulting_units as u64, now_ms),
        ),
    )
}

fn validate_cost(policy: &Policy, cost: u64) -> (res: Result<(), LimiterError>)
    ensures
        match res {
            Ok(()) => 0 < cost <= policy@.capacity,
            Err(LimiterError::ZeroCost) => cost == 0,
            Err(error) => cost > policy@.capacity && error == (LimiterError::CostExceedsCapacity {
                cost,
                capacity: policy@.capacity as u64,
            }),
        },
{
    if cost == 0 {
        return Err(LimiterError::ZeroCost);
    }
    if cost > policy.capacity() {
        return Err(LimiterError::CostExceedsCapacity { cost, capacity: policy.capacity() });
    }
    Ok(())
}

fn ceil_div(numerator: u128, denominator: u128) -> (res: u128)
    requires
        denominator > 0,
    ensures
        res == ceil(numerator as int, denominator as int),
        res <= numerator,
{
    let quotient: u128 = numerator / denominator;
    let remainder: u128 = numerator % denominator;
    proof {
        lemma_ceil(numerator as int, denominator as int);
    }
    if remainder == 0 {
        quotient
    } else {
        quotient + 1
    }
}

/// Rounding up adds one to the quotient unless the division is exact.
proof fn lemma_ceil(n: int, d: int)
    requires
        n >= 0,
        d > 0,
    ensures
        ceil(n, d) == n / d + (if n % d == 0 {
            0int
        } else {
            1int
        }),
        0 <= ceil(n, d) <= n,
{
    vstd::arithmetic::div_mod::lemma_fundamental_div_mod(n, d);
    let q = n / d;
    let r = n % d;
    assert(0 <= r < d) by (nonlinear_arith)
        requires
            d > 0,
            r == n % d,
    ;
    if r == 0 {
        assert((n + d - 1) / d == q) by (nonlinear_arith)
            requires
                n == d * q,
                d > 0,
        ;
        assert(0 <= q <= n) by (nonlinear_arith)
            requires
                n == d * q,
                d > 0,
                n >= 0,
        ;
    } else {
        assert((n + d - 1) / d == q + 1) by (nonlinear_arith)
            requires
                n == d * q + r,
                1 <= r < d,
        ;
        assert(0 <= q + 1 <= n) by (nonlinear_arith)
            requires
                n == d * q + r,
                1 <= r < d,
                n >= 0,
        ;
    }
}

} // verus!
