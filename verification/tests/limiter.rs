use fluxgate::limiter::{evaluate, BucketState, LimiterError, Policy};

fn policy(capacity: u64, refill_tokens: u64, period_ms: u64) -> Policy {
    Policy::new(capacity, refill_tokens, period_ms).expect("valid test policy")
}

fn spend_all(policy: &Policy, now_ms: u64) -> BucketState {
    evaluate(policy, None, policy.capacity(), now_ms)
        .expect("full-capacity request should succeed")
        .state()
}

#[test]
fn first_request_starts_with_a_full_bucket() {
    let result = evaluate(&policy(100, 100, 60_000), None, 1, 10_000).unwrap();

    assert!(result.allowed());
    assert_eq!(result.limit(), 100);
    assert_eq!(result.remaining(), 99);
    assert_eq!(result.state().last_refill_ms(), 10_000);
}

#[test]
fn consecutive_requests_consume_tokens() {
    let policy = policy(10, 10, 1_000);
    let first = evaluate(&policy, None, 3, 0).unwrap();
    let second = evaluate(&policy, Some(first.state()), 2, 0).unwrap();

    assert!(second.allowed());
    assert_eq!(second.remaining(), 5);
}

#[test]
fn bucket_can_reach_exactly_zero() {
    let result = evaluate(&policy(10, 10, 1_000), None, 10, 0).unwrap();

    assert!(result.allowed());
    assert_eq!(result.remaining(), 0);
    assert_eq!(result.state().available_units(), 0);
}

#[test]
fn request_is_rejected_at_zero_tokens() {
    let policy = policy(10, 10, 1_000);
    let empty = spend_all(&policy, 0);
    let result = evaluate(&policy, Some(empty), 1, 0).unwrap();

    assert!(!result.allowed());
    assert_eq!(result.remaining(), 0);
    assert_eq!(result.retry_after_ms(), Some(100));
}

#[test]
fn partial_refill_is_retained_exactly() {
    let policy = policy(10, 10, 1_000);
    let empty = spend_all(&policy, 0);
    let result = evaluate(&policy, Some(empty), 2, 250).unwrap();

    assert!(result.allowed());
    assert_eq!(result.remaining(), 0);
    assert_eq!(result.state().available_units(), 500);
    assert_eq!(result.reset_after_ms(), 950);
}

#[test]
fn enough_elapsed_time_fully_refills_bucket() {
    let policy = policy(10, 10, 1_000);
    let empty = spend_all(&policy, 0);
    let result = evaluate(&policy, Some(empty), 1, 1_000).unwrap();

    assert!(result.allowed());
    assert_eq!(result.remaining(), 9);
}

#[test]
fn refill_never_exceeds_capacity() {
    let policy = policy(10, 10, 1_000);
    let almost_full = evaluate(&policy, None, 1, 0).unwrap().state();
    let result = evaluate(&policy, Some(almost_full), 1, 10_000).unwrap();

    assert_eq!(result.remaining(), 9);
    assert_eq!(result.state().available_units(), 9_000);
}

#[test]
fn request_cost_can_consume_multiple_tokens() {
    let result = evaluate(&policy(20, 20, 1_000), None, 7, 0).unwrap();

    assert!(result.allowed());
    assert_eq!(result.remaining(), 13);
}

#[test]
fn cost_larger_than_capacity_is_invalid() {
    let result = evaluate(&policy(5, 5, 1_000), None, 6, 0);

    assert_eq!(
        result,
        Err(LimiterError::CostExceedsCapacity {
            cost: 6,
            capacity: 5
        })
    );
}

#[test]
fn refill_on_exact_period_boundary_is_exact() {
    let policy = policy(4, 1, 1_000);
    let empty = spend_all(&policy, 100);
    let result = evaluate(&policy, Some(empty), 1, 1_100).unwrap();

    assert!(result.allowed());
    assert_eq!(result.state().available_units(), 0);
    assert_eq!(result.retry_after_ms(), None);
}

#[test]
fn long_inactivity_safely_clamps_to_capacity() {
    let policy = policy(100, 100, 60_000);
    let empty = spend_all(&policy, 0);
    let result = evaluate(&policy, Some(empty), 1, u64::MAX).unwrap();

    assert!(result.allowed());
    assert_eq!(result.remaining(), 99);
}

#[test]
fn invalid_inputs_are_rejected() {
    assert_eq!(Policy::new(0, 1, 1), Err(LimiterError::ZeroCapacity));
    assert_eq!(Policy::new(1, 0, 1), Err(LimiterError::ZeroRefillTokens));
    assert_eq!(Policy::new(1, 1, 0), Err(LimiterError::ZeroRefillPeriod));
    assert_eq!(
        Policy::new(u64::MAX, 1, 2),
        Err(LimiterError::PolicyTooLarge)
    );
    assert_eq!(
        evaluate(&policy(1, 1, 1_000), None, 0, 0),
        Err(LimiterError::ZeroCost)
    );
}

#[test]
fn time_cannot_move_backwards() {
    let policy = policy(10, 10, 1_000);
    let state = BucketState::full(&policy, 500);

    assert_eq!(
        evaluate(&policy, Some(state), 1, 499),
        Err(LimiterError::ClockMovedBackwards {
            now_ms: 499,
            last_refill_ms: 500
        })
    );
}

#[test]
fn rejected_request_preserves_refilled_balance() {
    let policy = policy(10, 10, 1_000);
    let empty = spend_all(&policy, 0);
    let result = evaluate(&policy, Some(empty), 5, 250).unwrap();

    assert!(!result.allowed());
    assert_eq!(result.state().available_units(), 2_500);
    assert_eq!(result.retry_after_ms(), Some(250));
}

#[test]
fn oversized_persisted_balance_is_defensively_clamped() {
    let policy = policy(10, 10, 1_000);
    let corrupted = BucketState::from_parts(u64::MAX, 0);
    let result = evaluate(&policy, Some(corrupted), 1, 0).unwrap();

    assert_eq!(result.remaining(), 9);
}

#[test]
fn every_error_has_its_message() {
    let cases = [
        (LimiterError::ZeroCapacity, "bucket capacity must be greater than zero"),
        (LimiterError::ZeroRefillTokens, "refill_tokens must be greater than zero"),
        (LimiterError::ZeroRefillPeriod, "refill_period_ms must be greater than zero"),
        (
            LimiterError::PolicyTooLarge,
            "policy values are too large to represent safely",
        ),
        (LimiterError::ZeroCost, "request cost must be greater than zero"),
        (
            LimiterError::CostExceedsCapacity {
                cost: 11,
                capacity: 10,
            },
            "request cost 11 exceeds bucket capacity 10",
        ),
        (
            LimiterError::CostTooLarge,
            "request cost is too large to represent safely",
        ),
        (
            LimiterError::ArithmeticOverflow,
            "calculated bucket value is too large to represent safely",
        ),
        (
            LimiterError::ClockMovedBackwards {
                now_ms: 0,
                last_refill_ms: u64::MAX,
            },
            "current time 0 precedes bucket timestamp 18446744073709551615",
        ),
    ];
    for (error, message) in cases {
        assert_eq!(error.message(), message);
    }
}

#[test]
fn units_follow_the_refill_period() {
    let policy = policy(100, 100, 60_000);
    assert_eq!(policy.capacity(), 100);
    assert_eq!(policy.refill_tokens(), 100);
    assert_eq!(policy.refill_period_ms(), 60_000);
    assert_eq!(policy.capacity_units(), 6_000_000);
    assert_eq!(policy.cost_units(7), Ok(420_000));
    assert_eq!(policy.cost_units(u64::MAX), Err(LimiterError::CostTooLarge));
}

#[test]
fn largest_policy_is_exact() {
    let policy = policy(u64::MAX, u64::MAX, 1);
    let result = evaluate(&policy, None, u64::MAX, 0).unwrap();
    assert!(result.allowed());
    assert_eq!(result.reset_after_ms(), 1);
    let slow = Policy::new(u64::MAX, 1, 1).unwrap();
    let empty = spend_all(&slow, 0);
    let denied = evaluate(&slow, Some(empty), u64::MAX, 0).unwrap();
    assert!(!denied.allowed());
    assert_eq!(denied.retry_after_ms(), Some(u64::MAX));
    assert_eq!(denied.reset_after_ms(), u64::MAX);
}

#[test]
fn new_bucket_behaves_as_a_full_one() {
    let policy = policy(10, 3, 700);
    assert_eq!(
        evaluate(&policy, None, 4, 55),
        evaluate(&policy, Some(BucketState::full(&policy, 55)), 4, 55)
    );
}

#[test]
fn stopping_on_the_way_loses_no_fraction() {
    let policy = policy(10, 3, 700);
    let mut stepped = spend_all(&policy, 0);
    for now_ms in 1..=699 {
        let denied = evaluate(&policy, Some(stepped), 10, now_ms).unwrap();
        assert!(!denied.allowed());
        stepped = denied.state();
    }
    let direct = evaluate(&policy, Some(spend_all(&policy, 0)), 10, 699).unwrap();
    assert_eq!(stepped, direct.state());
    assert_eq!(stepped.available_units(), 2_097);
}

#[test]
fn retry_and_reset_times_are_the_shortest() {
    let policy = policy(10, 3, 700);
    let denied = evaluate(&policy, Some(spend_all(&policy, 0)), 4, 100).unwrap();
    let retry = denied.retry_after_ms().unwrap();
    assert_eq!(retry, 834);
    let early = evaluate(&policy, Some(denied.state()), 4, 100 + retry - 1).unwrap();
    assert!(!early.allowed());
    let in_time = evaluate(&policy, Some(denied.state()), 4, 100 + retry).unwrap();
    assert!(in_time.allowed());
    let reset = denied.reset_after_ms();
    assert_eq!(reset, 2_234);
    let almost = evaluate(&policy, Some(denied.state()), 10, 100 + reset - 1).unwrap();
    assert!(!almost.allowed());
    let full = evaluate(&policy, Some(denied.state()), 10, 100 + reset).unwrap();
    assert!(full.allowed());
}

#[test]
fn remaining_tokens_can_be_had_at_once() {
    let policy = policy(10, 3, 700);
    let first = evaluate(&policy, None, 3, 9).unwrap();
    assert_eq!(first.remaining(), 7);
    assert!(evaluate(&policy, Some(first.state()), 7, 9).unwrap().allowed());
    assert!(!evaluate(&policy, Some(first.state()), 8, 9).unwrap().allowed());
}

#[test]
fn grants_stay_within_burst_and_rate() {
    let policy = policy(5, 2, 100);
    let mut state = None;
    let mut granted = 0;
    for now_ms in 0..=1_000 {
        let decision = evaluate(&policy, state, 1, now_ms).unwrap();
        if decision.allowed() {
            granted += 1;
        }
        state = Some(decision.state());
    }
    assert_eq!(granted, 5 + 20);
}

#[test]
fn burst_is_exactly_the_capacity() {
    let policy = policy(100, 100, 60_000);
    let mut state = None;
    let mut allowed = 0;
    for _ in 0..50 {
        let decision = evaluate(&policy, state, 3, 7).unwrap();
        if decision.allowed() {
            allowed += 1;
        }
        state = Some(decision.state());
    }
    assert_eq!(allowed, 33);
}

#[test]
fn refilled_bucket_is_as_good_as_new() {
    let policy = policy(10, 10, 1_000);
    let old = spend_all(&policy, 0);
    assert_eq!(
        evaluate(&policy, Some(old), 4, 1_000),
        evaluate(&policy, None, 4, 1_000)
    );
}
