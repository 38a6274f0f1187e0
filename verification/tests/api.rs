use fluxgate::api::{
    default_cost, epoch_millis, health, respond, ApiError, AppState, CheckReply, CheckRequest,
    DEFAULT_POLICY,
};
use fluxgate::limiter::{evaluate, BucketState, LimiterError, Policy};
use fluxgate::policies::PolicyRegistry;
use fluxgate::service::{RateLimiter, RateLimiterError};
use fluxgate::storage::{BucketIdError, MemoryRepository, RepositoryError};

const NOW: Option<u128> = Some(1_800_000_000_000);

fn test_app() -> AppState<MemoryRepository> {
    AppState {
        limiter: RateLimiter::new(MemoryRepository::default(), 8, 86_400),
        policies: PolicyRegistry::built_in().expect("valid test policies"),
    }
}

fn request(key: &str, cost: u64) -> Option<CheckRequest> {
    Some(CheckRequest {
        key: key.to_owned(),
        cost,
    })
}

fn header<'a>(reply: &'a CheckReply, name: &str) -> Option<&'a str> {
    reply
        .headers
        .iter()
        .find(|(header, _)| *header == name)
        .map(|(_, value)| value.as_str())
}

#[test]
fn health_returns_ok() {
    let reply = health();
    assert_eq!(reply.status, 200);
    assert_eq!(reply.body.status, "ok");
}

#[test]
fn check_returns_decision_and_headers() {
    let reply = test_app()
        .check_policy(DEFAULT_POLICY, request("user-1", 5), NOW)
        .unwrap();

    assert_eq!(reply.status, 200);
    assert!(reply.body.allowed);
    assert_eq!(reply.body.limit, 100);
    assert_eq!(reply.body.remaining, 95);
    assert_eq!(reply.body.reset_after_ms, 3_000);
    assert_eq!(header(&reply, "x-ratelimit-limit"), Some("100"));
    assert_eq!(header(&reply, "x-ratelimit-remaining"), Some("95"));
    assert_eq!(header(&reply, "x-ratelimit-reset-ms"), Some("3000"));
    assert_eq!(header(&reply, "retry-after"), None);
}

#[test]
fn named_policy_uses_its_own_limit() {
    let reply = test_app()
        .check_policy("login", request("user-1", default_cost()), NOW)
        .unwrap();
    assert_eq!(header(&reply, "x-ratelimit-limit"), Some("10"));
}

#[test]
fn denied_response_includes_retry_after() {
    let mut app = test_app();
    let first = app.check_policy("login", request("empty", 10), NOW).unwrap();
    assert_eq!(first.status, 200);

    let reply = app
        .check_policy("login", request("empty", default_cost()), NOW)
        .unwrap();
    assert_eq!(reply.status, 200);
    assert_eq!(header(&reply, "retry-after"), Some("6"));
    assert!(!reply.body.allowed);
}

#[test]
fn invalid_and_unknown_requests_are_clean_errors() {
    let malformed = test_app()
        .check_policy("default", None, NOW)
        .unwrap_err()
        .into_response();
    assert_eq!(malformed.status, 400);
    assert_eq!(malformed.body.code, "invalid_json");
    assert_eq!(
        malformed.body.message,
        "request body must be valid JSON with a string key and optional integer cost"
    );

    let unknown = test_app()
        .check_policy("missing", request("user", 1), NOW)
        .unwrap_err()
        .into_response();
    assert_eq!(unknown.status, 404);
    assert_eq!(unknown.body.code, "unknown_policy");
    assert_eq!(
        unknown.body.message,
        "rate-limit policy \"missing\" does not exist"
    );

    let invalid_cost = test_app()
        .check_policy("default", request("user", 0), NOW)
        .unwrap_err()
        .into_response();
    assert_eq!(invalid_cost.status, 400);
    assert_eq!(invalid_cost.body.code, "invalid_request");
    assert_eq!(
        invalid_cost.body.message,
        "request cost must be greater than zero"
    );
}

#[test]
fn unusable_clock_makes_the_service_unavailable() {
    for clock in [None, Some(u64::MAX as u128 + 1)] {
        let reply = test_app()
            .check_policy("default", request("user", 1), clock)
            .unwrap_err()
            .into_response();
        assert_eq!(reply.status, 503);
        assert_eq!(reply.body.code, "service_unavailable");
        assert_eq!(
            reply.body.message,
            "rate limiter is temporarily unavailable"
        );
    }
    assert_eq!(epoch_millis(Some(u64::MAX as u128)), Ok(u64::MAX));
    assert_eq!(epoch_millis(Some(0)), Ok(0));
    assert_eq!(epoch_millis(None), Err(()));
}

#[test]
fn unknown_policies_are_quoted() {
    let reply = ApiError::UnknownPolicy("a\"b".to_owned()).into_response();
    assert_eq!(
        reply.body.message,
        r#"rate-limit policy "a\"b" does not exist"#
    );
    let reply = ApiError::UnknownPolicy("a".to_owned()).into_response_showing("<a>");
    assert_eq!(reply.body.message, "rate-limit policy <a> does not exist");
}

#[test]
fn only_client_mistakes_are_explained() {
    let reply = |error: RateLimiterError| ApiError::from(error).into_response();
    let invalid_id = reply(RateLimiterError::InvalidBucketId(
        BucketIdError::EmptyClientKey,
    ));
    assert_eq!(
        (invalid_id.status, invalid_id.body.message.as_str()),
        (400, "client key cannot be empty")
    );
    let invalid = reply(RateLimiterError::InvalidRequest(
        LimiterError::CostExceedsCapacity {
            cost: 6,
            capacity: 5,
        },
    ));
    assert_eq!(
        (invalid.status, invalid.body.message.as_str()),
        (400, "request cost 6 exceeds bucket capacity 5")
    );
    for error in [
        RateLimiterError::Repository(RepositoryError::Conflict),
        RateLimiterError::ExpiryOverflow,
        RateLimiterError::ContentionExhausted { attempts: 1 },
    ] {
        let hidden = reply(error);
        assert_eq!(
            (hidden.status, hidden.body.message.as_str()),
            (503, "rate limiter is temporarily unavailable")
        );
    }
}

#[test]
fn retry_seconds_are_rounded_up() {
    let retry = |missing_ms: u64| {
        let policy = Policy::new(1, 1, 10_000).unwrap();
        let state = BucketState::from_parts(10_000 - missing_ms, 0);
        let decision = evaluate(&policy, Some(state), 1, 0).unwrap();
        header(&respond(&decision), "retry-after").map(str::to_owned)
    };
    assert_eq!(retry(0), None);
    assert_eq!(retry(1).as_deref(), Some("1"));
    assert_eq!(retry(999).as_deref(), Some("1"));
    assert_eq!(retry(1_000).as_deref(), Some("1"));
    assert_eq!(retry(1_001).as_deref(), Some("2"));
    assert_eq!(retry(2_000).as_deref(), Some("2"));
    assert_eq!(retry(10_000).as_deref(), Some("10"));
}
