use super::algorithm::LimiterError;
use vstd::prelude::*;

verus! {

/// What a policy says, as numbers without bound.
pub struct PolicyModel {
    pub capacity: nat,
    pub refill_tokens: nat,
    pub refill_period_ms: nat,
}

impl PolicyModel {
    /// Every part is positive, and a full bucket can be counted in a `u64`.
    pub open spec fn valid(self) -> bool {
        &&& self.capacity > 0
        &&& 0 < self.refill_tokens <= u64::MAX
        &&& self.refill_period_ms > 0
        &&& self.capacity * self.refill_period_ms <= u64::MAX
    }

    /// The quota units of `tokens` whole tokens.
    pub open spec fn units(self, tokens: nat) -> nat {
        tokens * self.refill_period_ms
    }

    /// The quota units of a full bucket.
    pub open spec fn capacity_units(self) -> nat {
        self.units(self.capacity)
    }
}

/// The contents of a bucket, as numbers without bound.
pub struct BucketModel {
    pub available_units: nat,
    pub last_refill_ms: nat,
}

impl BucketModel {
    /// A full bucket at `now_ms`.
    pub open spec fn full(policy: PolicyModel, now_ms: nat) -> BucketModel {
        BucketModel { available_units: policy.capacity_units(), last_refill_ms: now_ms }
    }

    /// The quota units that the bucket holds at `now_ms`: what it held plus the
    /// refill of the time since then, never more than the capacity.
    pub open spec fn available_at(self, policy: PolicyModel, now_ms: nat) -> nat {
        let grown = self.available_units + (now_ms - self.last_refill_ms)
            * policy.refill_tokens;
        if grown <= policy.capacity_units() {
            grown as nat
        } else {
            policy.capacity_units()
        }
    }
}

/// The result of a transition, as numbers without bound.
pub struct DecisionModel {
    pub allowed: bool,
    pub limit: nat,
    pub remaining: nat,
    pub reset_after_ms: nat,
    pub retry_after_ms: Option<nat>,
    pub state: BucketModel,
}

/// Static configuration for one token-bucket policy.
#[derive(Clone, Copy, Debug, PartialEq, Eq, Structural)]
pub struct Policy {
    capacity: u64,
    refill_tokens: u64,
    refill_period_ms: u64,
}

impl View for Policy {
    type V = PolicyModel;

    closed spec fn view(&self) -> PolicyModel {
        PolicyModel {
            capacity: self.capacity as nat,
            refill_tokens: self.refill_tokens as nat,
            refill_period_ms: self.refill_period_ms as nat,
        }
    }
}

impl Policy {
    #[verifier::type_invariant]
    spec fn well_formed(self) -> bool {
        self@.valid()
    }

    /// Creates a validated policy.
    pub fn new(capacity: u64, refill_tokens: u64, refill_period_ms: u64) -> (res: Result<
        Policy,
        LimiterError,
    >)
        ensures
            match res {
                Ok(policy) => policy@.valid() && policy@ == (PolicyModel {
                    capacity: capacity as nat,
                    refill_tokens: refill_tokens as nat,
                    refill_period_ms: refill_period_ms as nat,
                }),
                Err(LimiterError::ZeroCapacity) => capacity == 0,
                Err(LimiterError::ZeroRefillTokens) => capacity != 0 && refill_tokens == 0,
                Err(LimiterError::ZeroRefillPeriod) => capacity != 0 && refill_tokens != 0
                    && refill_period_ms == 0,
                Err(LimiterError::PolicyTooLarge) => capacity != 0 && refill_tokens != 0
                    && refill_period_ms != 0 && capacity * refill_period_ms > u64::MAX,
                Err(_) => false,
            },
    {
        if capacity == 0 {
            return Err(LimiterError::ZeroCapacity);
        }
        if refill_tokens == 0 {
            return Err(LimiterError::ZeroRefillTokens);
        }
        if refill_period_ms == 0 {
            return Err(LimiterError::ZeroRefillPeriod);
        }
        if capacity.checked_mul(refill_period_ms).is_none() {
            return Err(LimiterError::PolicyTooLarge);
        }
        Ok(Policy { capacity, refill_tokens, refill_period_ms })
    }

    pub fn capacity(&self) -> (res: u64)
        ensures
            res == self@.capacity,
            self@.valid(),
    {
        proof {
            use_type_invariant(self);
        }
        self.capacity
    }

    pub fn refill_tokens(&self) -> (res: u64)
        ensures
            res == self@.refill_tokens,
            self@.valid(),
    {
        proof {
            use_type_invariant(self);
        }
        self.refill_tokens
    }

    pub fn refill_period_ms(&self) -> (res: u64)
        ensures
            res == self@.refill_period_ms,
            self@.valid(),
    {
        proof {
            use_type_invariant(self);
        }
        self.refill_period_ms
    }

    /// Quota units of a full bucket.
    pub fn capacity_units(&self) -> (res: u64)
        ensures
            res == self@.capacity_units(),
            self@.valid(),
    {
        proof {
            use_type_invariant(self);
        }
        self.capacity * self.refill_period_ms
    }

    /// Quota units of `cost` tokens.
    pub fn cost_units(&self, cost: u64) -> (res: Result<u64, LimiterError>)
        ensures
            match res {
                Ok(units) => units == self@.units(cost as nat),
                Err(error) => error == LimiterError::CostTooLarge && self@.units(cost as nat)
                    > u64::MAX,
            },
    {
        match cost.checked_mul(self.refill_period_ms) {
            Some(units) => Ok(units),
            None => Err(LimiterError::CostTooLarge),
        }
    }
}

/// Mutable token-bucket state suitable for persistence.
///
/// One whole token equals `policy.refill_period_ms()` quota units. Each elapsed
/// millisecond adds `policy.refill_tokens()` units. This rational representation
/// retains partial tokens exactly.
#[derive(Clone, Copy, Debug, PartialEq, Eq, Structural)]
pub struct BucketState {
    available_units: u64,
    last_refill_ms: u64,
}

impl View for BucketState {
    type V = BucketModel;

    closed spec fn view(&self) -> BucketModel {
        BucketModel {
            available_units: self.available_units as nat,
            last_refill_ms: self.last_refill_ms as nat,
        }
    }
}

impl BucketState {
    /// Creates a full bucket at the supplied timestamp.
    pub fn full(policy: &Policy, now_ms: u64) -> (res: BucketState)
        ensures
            res@ == BucketModel::full(policy@, now_ms as nat),
    {
        BucketState { available_units: policy.capacity_units(), last_refill_ms: now_ms }
    }

    /// Reconstructs a bucket loaded from storage.
    ///
    /// Any balance is accepted: the evaluator clamps it to the policy's
    /// capacity, so stale or oversized persisted values cannot grant excess
    /// quota.
    pub fn from_parts(available_units: u64, last_refill_ms: u64) -> (res: BucketState)
        ensures
            res@ == (BucketModel {
                available_units: available_units as nat,
                last_refill_ms: last_refill_ms as nat,
            }),
    {
        BucketState { available_units, last_refill_ms }
    }

    pub fn available_units(&self) -> (res: u64)
        ensures
            res == self@.available_units,
    {
        self.available_units
    }

    pub fn last_refill_ms(&self) -> (res: u64)
        ensures
            res == self@.last_refill_ms,
    {
        self.last_refill_ms
    }
}

/// The model of a state that may be missing.
pub open spec fn state_model(state: Option<BucketState>) -> Option<BucketModel> {
    match state {
        Some(bucket) => Some(bucket@),
        None => None,
    }
}

/// Result of one deterministic token-bucket transition.
#[derive(Clone, Copy, Debug, PartialEq, Eq, Structural)]
pub struct Decision {
    allowed: bool,
    limit: u64,
    remaining: u64,
    reset_after_ms: u64,
    retry_after_ms: Option<u64>,
    state: BucketState,
}

impl View for Decision {
    type V = DecisionModel;

    closed spec fn view(&self) -> DecisionModel {
        DecisionModel {
            allowed: self.allowed,
            limit: self.limit as nat,
            remaining: self.remaining as nat,
            reset_after_ms: self.reset_after_ms as nat,
            retry_after_ms: match self.retry_after_ms {
                Some(ms) => Some(ms as nat),
                None => None,
            },
            state: self.state@,
        }
    }
}

impl Decision {
    pub(crate) fn new(
        allowed: bool,
        limit: u64,
        remaining: u64,
        reset_after_ms: u64,
        retry_after_ms: Option<u64>,
        state: BucketState,
    ) -> (res: Decision)
        ensures
            res@ == (DecisionModel {
                allowed,
                limit: limit as nat,
                remaining: remaining as nat,
                reset_after_ms: reset_after_ms as nat,
                retry_after_ms: match retry_after_ms {
                    Some(ms) => Some(ms as nat),
                    None => None,
                },
                state: state@,
            }),
    {
        Decision { allowed, limit, remaining, reset_after_ms, retry_after_ms, state }
    }

    pub fn allowed(&self) -> (res: bool)
        ensures
            res == self@.allowed,
    {
        self.allowed
    }

    pub fn limit(&self) -> (res: u64)
        ensures
            res == self@.limit,
    {
        self.limit
    }

    /// Whole request units immediately available after this decision.
    pub fn remaining(&self) -> (res: u64)
        ensures
            res == self@.remaining,
    {
        self.remaining
    }

    /// Milliseconds until the bucket is full again.
    pub fn reset_after_ms(&self) -> (res: u64)
        ensures
            res == self@.reset_after_ms,
    {
        self.reset_after_ms
    }

    /// Milliseconds until this rejected cost can succeed.
    pub fn retry_after_ms(&self) -> (res: Option<u64>)
        ensures
            match res {
                Some(ms) => self@.retry_after_ms == Some(ms as nat),
                None => self@.retry_after_ms is None,
            },
    {
        self.retry_after_ms
    }

    pub fn state(&self) -> (res: BucketState)
        ensures
            res@ == self@.state,
    {
        self.state
    }
}

} // verus!
