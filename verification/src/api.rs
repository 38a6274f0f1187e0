//! What the HTTP interface answers.
//!
//! Routing, JSON and the clock belong to the program; which answer a request
//! gets is settled here.

use crate::limiter::models::{DecisionModel, PolicyModel};
use crate::limiter::{Decision, Policy};
use crate::policies::PolicyRegistry;
use crate::service::{RateLimiter, RateLimiterError};
use crate::storage::BucketRepository;
use crate::text::{quoted, to_decimal};
use vstd::prelude::*;
use vstd::string::*;

verus! {

/// The policy of requests that name none.
pub const DEFAULT_POLICY: &'static str = "default";

/// What the handlers share.
#[derive(Clone)]
pub struct AppState<R> {
    pub limiter: RateLimiter<R>,
    pub policies: PolicyRegistry,
}

#[derive(Debug)]
pub struct HealthResponse {
    pub status: &'static str,
}

#[derive(Debug)]
pub struct CheckRequest {
    pub key: String,
    pub cost: u64,
}

#[derive(Clone, Copy, Debug, PartialEq, Eq, Structural)]
pub struct CheckResponse {
    pub allowed: bool,
    pub limit: u64,
    pub remaining: u64,
    pub reset_after_ms: u64,
}

#[derive(Debug)]
pub struct ErrorBody {
    pub code: &'static str,
    pub message: String,
}

/// The answer to a health check.
#[derive(Debug)]
pub struct HealthReply {
    pub status: u16,
    pub body: HealthResponse,
}

/// The answer to a check: a status, a body and the headers set with it.
#[derive(Debug)]
pub struct CheckReply {
    pub status: u16,
    pub body: CheckResponse,
    pub headers: Vec<(&'static str, String)>,
}

/// The answer to a request that failed.
#[derive(Debug)]
pub struct ErrorReply {
    pub status: u16,
    pub body: ErrorBody,
}

#[derive(Debug)]
pub enum ApiError {
    InvalidJson,
    UnknownPolicy(String),
    InvalidRequest(String),
    Unavailable,
}

/// Why a request failed.
pub enum ApiErrorModel {
    InvalidJson,
    UnknownPolicy(Seq<char>),
    InvalidRequest(Seq<char>),
    Unavailable,
}

impl View for ApiError {
    type V = ApiErrorModel;

    open spec fn view(&self) -> ApiErrorModel {
        match self {
            ApiError::InvalidJson => ApiErrorModel::InvalidJson,
            ApiError::UnknownPolicy(policy) => ApiErrorModel::UnknownPolicy(policy@),
            ApiError::InvalidRequest(message) => ApiErrorModel::InvalidRequest(message@),
            ApiError::Unavailable => ApiErrorModel::Unavailable,
        }
    }
}

/// A request that can be checked.
#[derive(Debug)]
pub struct AcceptedCheck {
    pub policy: Policy,
    pub request: CheckRequest,
    pub now_ms: u64,
}

/// The answer to a health check.
pub fn health() -> (res: HealthReply)
    ensures
        res.status == 200,
        res.body.status@ == "ok"@,
{
    HealthReply { status: 200, body: HealthResponse { status: "ok" } }
}

/// The cost of a request that names none.
pub fn default_cost() -> (res: u64)
    ensures
        res == 1,
{
    1
}

/// The time since the epoch in milliseconds, if the clock is not before the epoch
/// and the time fits.
pub fn epoch_millis(since_epoch_ms: Option<u128>) -> (res: Result<u64, ()>)
    ensures
        match res {
            Ok(now_ms) => since_epoch_ms == Some(now_ms as u128),
            Err(()) => since_epoch_ms matches Some(ms) ==> ms > u64::MAX,
        },
{
    match since_epoch_ms {
        Some(ms) => if ms <= u64::MAX as u128 {
            Ok(ms as u64)
        } else {
            Err(())
        },
        None => Err(()),
    }
}

/// Why a request cannot be checked, if it cannot: its body is looked at first,
/// then its policy, then the clock.
pub open spec fn refusal(
    policies: Map<Seq<char>, PolicyModel>,
    policy_name: Seq<char>,
    payload: Option<CheckRequest>,
    since_epoch_ms: Option<u128>,
) -> Option<ApiErrorModel> {
    if payload is None {
        Some(ApiErrorModel::InvalidJson)
    } else if !policies.contains_key(policy_name) {
        Some(ApiErrorModel::UnknownPolicy(policy_name))
    } else if since_epoch_ms is None || since_epoch_ms->0 > u64::MAX {
        Some(ApiErrorModel::Unavailable)
    } else {
        None
    }
}

/// The seconds that a client is told to wait: milliseconds rounded up, but at
/// least one second.
pub open spec fn retry_seconds(retry_after_ms: nat) -> nat {
    let seconds = crate::limiter::algorithm::ceil(retry_after_ms as int, 1_000);
    if seconds < 1 {
        1
    } else {
        seconds as nat
    }
}

/// The headers set with a decision.
pub open spec fn headers_for(decision: DecisionModel) -> Seq<(Seq<char>, Seq<char>)> {
    let limits = seq![
        ("x-ratelimit-limit"@, crate::text::decimal(decision.limit)),
        ("x-ratelimit-remaining"@, crate::text::decimal(decision.remaining)),
        ("x-ratelimit-reset-ms"@, crate::text::decimal(decision.reset_after_ms)),
    ];
    match decision.retry_after_ms {
        Some(ms) => limits.push(("retry-after"@, crate::text::decimal(retry_seconds(ms)))),
        None => limits,
    }
}

/// Whether a reply tells the decision: a denial too is a check that succeeded.
pub open spec fn tells(reply: CheckReply, decision: DecisionModel) -> bool {
    &&& reply.status == 200
    &&& reply.body.allowed == decision.allowed
    &&& reply.body.limit == decision.limit
    &&& reply.body.remaining == decision.remaining
    &&& reply.body.reset_after_ms == decision.reset_after_ms
    &&& reply.headers@.map_values(|header: (&'static str, String)| (header.0@, header.1@))
        == headers_for(decision)
}

/// The answer that tells a decision.
pub fn respond(decision: &Decision) -> (res: CheckReply)
    ensures
        tells(res, decision@),
{
    let body = CheckResponse {
        allowed: decision.allowed(),
        limit: decision.limit(),
        remaining: decision.remaining(),
        reset_after_ms: decision.reset_after_ms(),
    };
    let mut headers: Vec<(&'static str, String)> = Vec::new();
    headers.push(("x-ratelimit-limit", to_decimal(decision.limit())));
    headers.push(("x-ratelimit-remaining", to_decimal(decision.remaining())));
    headers.push(("x-ratelimit-reset-ms", to_decimal(decision.reset_after_ms())));
    if let Some(retry_ms) = decision.retry_after_ms() {
        let seconds: u64 = if retry_ms <= 1_000 {
            1
        } else if retry_ms % 1_000 == 0 {
            retry_ms / 1_000
        } else {
            retry_ms / 1_000 + 1
        };
        headers.push(("retry-after", to_decimal(seconds)));
    }
    let res = CheckReply { status: 200, body, headers };
    assert(res.headers@.map_values(|header: (&'static str, String)| (header.0@, header.1@))
        =~= headers_for(decision@));
    res
}

/// What a failed check is answered with: a mistake of the client is explained, any
/// other failure only makes the service unavailable.
pub open spec fn failure(error: RateLimiterError) -> ApiErrorModel {
    match error {
        RateLimiterError::InvalidBucketId(inner) => ApiErrorModel::InvalidRequest(
            crate::storage::models::bucket_id_error_text(inner),
        ),
        RateLimiterError::InvalidRequest(inner) => ApiErrorModel::InvalidRequest(
            crate::limiter::algorithm::limiter_error_text(inner),
        ),
        RateLimiterError::Repository(_) => ApiErrorModel::Unavailable,
        RateLimiterError::ExpiryOverflow => ApiErrorModel::Unavailable,
        RateLimiterError::ContentionExhausted { .. } => ApiErrorModel::Unavailable,
    }
}

impl vstd::std_specs::convert::FromSpecImpl<RateLimiterError> for ApiError {
    open spec fn obeys_from_spec() -> bool {
        false
    }

    open spec fn from_spec(error: RateLimiterError) -> ApiError {
        choose|res: ApiError| #[trigger] res@ == failure(error)
    }
}

impl From<RateLimiterError> for ApiError {
    fn from(error: RateLimiterError) -> (res: ApiError)
        ensures
            res@ == failure(error),
    {
        match error {
            RateLimiterError::InvalidBucketId(inner) => ApiError::InvalidRequest(inner.message()),
            RateLimiterError::InvalidRequest(inner) => ApiError::InvalidRequest(inner.message()),
            RateLimiterError::Repository(_) => ApiError::Unavailable,
            RateLimiterError::ExpiryOverflow => ApiError::Unavailable,
            RateLimiterError::ContentionExhausted { .. } => ApiError::Unavailable,
        }
    }
}

/// The HTTP status of a failure.
pub open spec fn status_of(error: ApiErrorModel) -> u16 {
    match error {
        ApiErrorModel::InvalidJson => 400,
        ApiErrorModel::UnknownPolicy(_) => 404,
        ApiErrorModel::InvalidRequest(_) => 400,
        ApiErrorModel::Unavailable => 503,
    }
}

/// The machine-readable code of a failure.
pub open spec fn code_of(error: ApiErrorModel) -> Seq<char> {
    match error {
        ApiErrorModel::InvalidJson => "invalid_json"@,
        ApiErrorModel::UnknownPolicy(_) => "unknown_policy"@,
        ApiErrorModel::InvalidRequest(_) => "invalid_request"@,
        ApiErrorModel::Unavailable => "service_unavailable"@,
    }
}

/// What a reader is told of a failure, given how an unknown policy is shown.
pub open spec fn api_error_text(error: ApiErrorModel, shown: Seq<char>) -> Seq<char> {
    match error {
        ApiErrorModel::InvalidJson =>
            "request body must be valid JSON with a string key and optional integer cost"@,
        ApiErrorModel::UnknownPolicy(_) => "rate-limit policy "@ + shown + " does not exist"@,
        ApiErrorModel::InvalidRequest(message) => message,
        ApiErrorModel::Unavailable => "rate limiter is temporarily unavailable"@,
    }
}

/// The policy that is not known, if that is the failure.
pub open spec fn unknown_policy(error: ApiErrorModel) -> Seq<char> {
    match error {
        ApiErrorModel::UnknownPolicy(policy) => policy,
        _ => ""@,
    }
}

impl ApiError {
    /// The answer that tells a failure.
    pub fn into_response(self) -> (res: ErrorReply)
        ensures
            res.status == status_of(self@),
            res.body.code@ == code_of(self@),
            res.body.message@ == api_error_text(
                self@,
                crate::text::debug_text(unknown_policy(self@)),
            ),
    {
        let shown: String = match &self {
            ApiError::UnknownPolicy(policy) => quoted(policy.as_str()),
            _ => String::new(),
        };
        self.into_response_showing(shown.as_str())
    }

    /// The answer that tells a failure, with an unknown policy shown as `shown`.
    pub fn into_response_showing(self, shown: &str) -> (res: ErrorReply)
        ensures
            res.status == status_of(self@),
            res.body.code@ == code_of(self@),
            res.body.message@ == api_error_text(self@, shown@),
    {
        match self {
            ApiError::InvalidJson => ErrorReply {
                status: 400,
                body: ErrorBody {
                    code: "invalid_json",
                    message:
                        "request body must be valid JSON with a string key and optional integer cost".to_owned(),
                },
            },
            ApiError::UnknownPolicy(_) => {
                let mut message = "rate-limit policy ".to_owned();
                message.append(shown);
                message.append(" does not exist");
                ErrorReply { status: 404, body: ErrorBody { code: "unknown_policy", message } }
            },
            ApiError::InvalidRequest(message) => ErrorReply {
                status: 400,
                body: ErrorBody { code: "invalid_request", message },
            },
            ApiError::Unavailable => ErrorReply {
                status: 503,
                body: ErrorBody {
                    code: "service_unavailable",
                    message: "rate limiter is temporarily unavailable".to_owned(),
                },
            },
        }
    }
}

impl<R> AppState<R> {
    /// Decides whether a request can be checked. The payload is missing if the
    /// body was not valid, the time if the clock is before the epoch.
    pub fn accept(
        &self,
        policy_name: &str,
        payload: Option<CheckRequest>,
        since_epoch_ms: Option<u128>,
    ) -> (res: Result<AcceptedCheck, ApiError>)
        ensures
            match res {
                Ok(accepted) => {
                    &&& refusal(self.policies@, policy_name@, payload, since_epoch_ms) is None
                    &&& accepted.policy@ == self.policies@[policy_name@]
                    &&& payload == Some(accepted.request)
                    &&& since_epoch_ms == Some(accepted.now_ms as u128)
                },
                Err(error) => refusal(self.policies@, policy_name@, payload, since_epoch_ms)
                    == Some(error@),
            },
    {
        let request = match payload {
            Some(request) => request,
            None => {
                return Err(ApiError::InvalidJson);
            },
        };
        let policy = match self.policies.get(policy_name) {
            Some(policy) => policy,
            None => {
                return Err(ApiError::UnknownPolicy(policy_name.to_owned()));
            },
        };
        match epoch_millis(since_epoch_ms) {
            Ok(now_ms) => Ok(AcceptedCheck { policy, request, now_ms }),
            Err(()) => Err(ApiError::Unavailable),
        }
    }
}

impl<R: BucketRepository> AppState<R> {
    /// Answers a check against a named policy, in a repository that no one else
    /// writes.
    pub fn check_policy(
        &mut self,
        policy_name: &str,
        payload: Option<CheckRequest>,
        since_epoch_ms: Option<u128>,
    ) -> (res: Result<CheckReply, ApiError>)
        ensures
            final(self).policies == old(self).policies,
            match refusal(old(self).policies@, policy_name@, payload, since_epoch_ms) {
                Some(refused) => {
                    &&& res matches Err(error)
                    &&& error@ == refused
                    &&& final(self).limiter == old(self).limiter
                },
                None => {
                    &&& crate::service::answered(
                        old(self).limiter,
                        final(self).limiter,
                        policy_name@,
                        payload->0.key@,
                        old(self).policies@[policy_name@],
                        payload->0.cost,
                        since_epoch_ms->0 as u64,
                    ) matches Some(result)
                    &&& crate::service::served(
                        old(self).limiter,
                        final(self).limiter,
                        policy_name@,
                        payload->0.key@,
                        old(self).policies@[policy_name@],
                        payload->0.cost,
                        since_epoch_ms->0 as u64,
                        result,
                    )
                    &&& match result {
                        Ok(decision) => res matches Ok(reply) && tells(reply, decision),
                        Err(failed) => res matches Err(error) && error@ == failure(failed),
                    }
                },
            },
    {
        let accepted = match self.accept(policy_name, payload, since_epoch_ms) {
            Ok(accepted) => accepted,
            Err(error) => {
                return Err(error);
            },
        };
        match self.limiter.check(
            policy_name,
            accepted.request.key.as_str(),
            &accepted.policy,
            accepted.request.cost,
            accepted.now_ms,
        ) {
            Ok(decision) => Ok(respond(&decision)),
            Err(error) => Err(ApiError::from(error)),
        }
    }
}

/// A denied request, and no other, is told when to retry; after that many seconds
/// the same request is allowed.
pub proof fn law_denied_reply_says_when_to_retry(
    policy: PolicyModel,
    state: crate::limiter::models::BucketModel,
    cost: nat,
    now_ms: nat,
)
    requires
        policy.valid(),
        state.last_refill_ms <= now_ms,
        0 < cost <= policy.capacity,
    ensures
        ({
            let decision = crate::limiter::algorithm::decide(policy, state, cost, now_ms);
            let headers = headers_for(decision);
            if decision.allowed {
                headers.len() == 3
            } else {
                let seconds = retry_seconds(decision.retry_after_ms->0);
                &&& headers.len() == 4
                &&& headers[3] == ("retry-after"@, crate::text::decimal(seconds))
                &&& seconds >= 1
                &&& crate::limiter::algorithm::decide(
                    policy,
                    decision.state,
                    cost,
                    now_ms + 1_000 * seconds,
                ).allowed
            }
        }),
{
    let decision = crate::limiter::algorithm::decide(policy, state, cost, now_ms);
    if !decision.allowed {
        crate::limiter::laws::law_retry_after_is_the_shortest_wait(
            policy,
            state,
            cost,
            now_ms,
            1_000 * retry_seconds(decision.retry_after_ms->0),
        );
    }
}

/// A failed check is a bad request exactly if the client made the mistake; every
/// other failure is an unavailable service, and tells nothing about itself.
pub proof fn law_only_client_mistakes_are_explained(error: RateLimiterError, shown: Seq<char>)
    ensures
        match error {
            RateLimiterError::InvalidBucketId(_) | RateLimiterError::InvalidRequest(_) => status_of(
                failure(error),
            ) == 400 && api_error_text(failure(error), shown)
                == crate::service::rate_limiter_error_text(error),
            _ => status_of(failure(error)) == 503 && api_error_text(failure(error), shown)
                == "rate limiter is temporarily unavailable"@,
        },
{
}

/// The seconds told with a denial are the least whole number, but at least one, that
/// covers the wait; a reply otherwise tells the decision as it is, and succeeds
/// whether the request is allowed or denied.
pub proof fn law_reply_tells_the_decision(decision: Decision, reply: CheckReply)
    requires
        call_ensures(respond, (&decision,), reply),
    ensures
        reply.status == 200,
        reply.body.allowed == decision@.allowed,
        reply.body.limit == decision@.limit,
        reply.body.remaining == decision@.remaining,
        reply.body.reset_after_ms == decision@.reset_after_ms,
        reply.headers@.len() == (if decision@.retry_after_ms is Some {
            4int
        } else {
            3
        }),
        reply.headers@[0].0@ == "x-ratelimit-limit"@,
        reply.headers@[0].1@ == crate::text::decimal(decision@.limit),
        reply.headers@[1].0@ == "x-ratelimit-remaining"@,
        reply.headers@[1].1@ == crate::text::decimal(decision@.remaining),
        reply.headers@[2].0@ == "x-ratelimit-reset-ms"@,
        reply.headers@[2].1@ == crate::text::decimal(decision@.reset_after_ms),
        decision@.retry_after_ms matches Some(wait_ms) ==> reply.headers@[3].0@ == "retry-after"@
            && exists|seconds: nat|
            reply.headers@[3].1@ == #[trigger] crate::text::decimal(seconds) && seconds >= 1
                && 1_000 * seconds >= wait_ms && (seconds == 1 || 1_000 * (seconds - 1) < wait_ms),
{
    let told = reply.headers@.map_values(|header: (&'static str, String)| (header.0@, header.1@));
    assert(told == headers_for(decision@));
    assert(told.len() == reply.headers@.len());
    assert(told[0] == (reply.headers@[0].0@, reply.headers@[0].1@));
    assert(told[1] == (reply.headers@[1].0@, reply.headers@[1].1@));
    assert(told[2] == (reply.headers@[2].0@, reply.headers@[2].1@));
    if let Some(wait_ms) = decision@.retry_after_ms {
        assert(told[3] == (reply.headers@[3].0@, reply.headers@[3].1@));
        let seconds = retry_seconds(wait_ms);
        assert(reply.headers@[3].1@ == crate::text::decimal(seconds));
    }
}

/// A request is refused exactly for a body that is no request, for a policy that is
/// not there, and for a time that is before the epoch or does not fit in 64 bits, in
/// that order; otherwise it goes on with that policy, request and time.
pub proof fn law_requests_are_refused_for_body_policy_and_clock<R>(
    state: AppState<R>,
    policy_name: &str,
    payload: Option<CheckRequest>,
    since_epoch_ms: Option<u128>,
    found: Option<Policy>,
    res: Result<AcceptedCheck, ApiError>,
)
    requires
        call_ensures(PolicyRegistry::get, (&state.policies, policy_name), found),
        call_ensures(
            AppState::<R>::accept,
            (&state, policy_name, payload, since_epoch_ms),
            res,
        ),
    ensures
        ({
            let timely = since_epoch_ms is Some && since_epoch_ms->0 <= 0xffff_ffff_ffff_ffff;
            &&& res is Ok <==> payload is Some && found is Some && timely
            &&& res matches Ok(accepted) ==> {
                &&& accepted.policy@ == found->0@
                &&& accepted.request == payload->0
                &&& accepted.now_ms == since_epoch_ms->0
            }
            &&& res matches Err(error) ==> (if payload is None {
                error is InvalidJson
            } else if found is None {
                error matches ApiError::UnknownPolicy(name) && name@ == policy_name@
            } else {
                error is Unavailable
            })
        }),
{
}

/// The clock is read in milliseconds as it is, as long as they fit in 64 bits.
pub proof fn law_clock_is_read_as_it_is(since_epoch_ms: Option<u128>, res: Result<u64, ()>)
    requires
        call_ensures(epoch_millis, (since_epoch_ms,), res),
    ensures
        res is Ok <==> since_epoch_ms is Some && since_epoch_ms->0 <= 0xffff_ffff_ffff_ffff,
        res matches Ok(now_ms) ==> now_ms == since_epoch_ms->0,
{
}

/// A check that fails by a mistake of the client is answered with the message of the
/// mistake; any other failure is answered alike, without a word on what failed.
pub proof fn law_failed_checks_are_answered(
    error: RateLimiterError,
    message: String,
    failed: ApiError,
    reply: ErrorReply,
)
    requires
        call_ensures(RateLimiterError::message, (&error,), message),
        call_ensures(<ApiError as From<RateLimiterError>>::from, (error,), failed),
        call_ensures(ApiError::into_response, (failed,), reply),
    ensures
        match error {
            RateLimiterError::InvalidBucketId(_) | RateLimiterError::InvalidRequest(_) => {
                &&& reply.status == 400
                &&& reply.body.code@ == "invalid_request"@
                &&& reply.body.message@ == message@
            },
            _ => {
                &&& reply.status == 503
                &&& reply.body.code@ == "service_unavailable"@
                &&& reply.body.message@ == "rate limiter is temporarily unavailable"@
            },
        },
{
}

/// A body that is no request is a bad request, and a policy that is not there is not
/// found, with its name in the message.
pub proof fn law_refused_requests_are_answered(
    policy_name: String,
    message: String,
    no_request: ErrorReply,
    no_policy: ErrorReply,
    invalid: ErrorReply,
    unavailable: ErrorReply,
)
    requires
        call_ensures(ApiError::into_response, (ApiError::InvalidJson,), no_request),
        call_ensures(ApiError::into_response, (ApiError::UnknownPolicy(policy_name),), no_policy),
        call_ensures(ApiError::into_response, (ApiError::InvalidRequest(message),), invalid),
        call_ensures(ApiError::into_response, (ApiError::Unavailable,), unavailable),
    ensures
        no_request.status == 400,
        no_request.body.code@ == "invalid_json"@,
        no_request.body.message@
            == "request body must be valid JSON with a string key and optional integer cost"@,
        no_policy.status == 404,
        no_policy.body.code@ == "unknown_policy"@,
        no_policy.body.message@ == "rate-limit policy "@ + crate::text::debug_text(policy_name@)
            + " does not exist"@,
        invalid.status == 400,
        invalid.body.code@ == "invalid_request"@,
        invalid.body.message@ == message@,
        unavailable.status == 503,
        unavailable.body.code@ == "service_unavailable"@,
        unavailable.body.message@ == "rate limiter is temporarily unavailable"@,
{
}

/// In a store that carries out every operation, a request is answered as it is
/// accepted and as its check turns out, and leaves the store as the check does.
pub proof fn law_request_is_answered_as_its_check<R: BucketRepository>(
    state: &mut AppState<R>,
    limiter: &mut RateLimiter<R>,
    policy_name: &str,
    payload: Option<CheckRequest>,
    key: &str,
    since_epoch_ms: Option<u128>,
    accepted: Result<AcceptedCheck, ApiError>,
    checked: Result<Decision, RateLimiterError>,
    res: Result<CheckReply, ApiError>,
)
    requires
        old(state).limiter.spec_repository().reliable(),
        *old(limiter) == old(state).limiter,
        call_ensures(
            AppState::<R>::accept,
            (&*old(state), policy_name, payload, since_epoch_ms),
            accepted,
        ),
        accepted matches Ok(check) ==> key@ == check.request.key@ && call_ensures(
            RateLimiter::<R>::check,
            (limiter, policy_name, key, &check.policy, check.request.cost, check.now_ms),
            checked,
        ),
        call_ensures(
            AppState::<R>::check_policy,
            (state, policy_name, payload, since_epoch_ms),
            res,
        ),
    ensures
        final(state).policies == old(state).policies,
        match accepted {
            Err(refused) => {
                &&& res matches Err(error)
                &&& error@ == refused@
                &&& final(state).limiter == old(state).limiter
            },
            Ok(_) => {
                &&& final(limiter).spec_repository().buckets()
                    == final(state).limiter.spec_repository().buckets()
                &&& match checked {
                    Ok(decision) => res matches Ok(reply) && forall|told: CheckReply| #[trigger]
                        call_ensures(respond, (&decision,), told) ==> {
                            &&& reply.status == told.status
                            &&& reply.body == told.body
                            &&& reply.headers@.len() == told.headers@.len()
                            &&& forall|i: int|
                                0 <= i < told.headers@.len() ==> (#[trigger] reply.headers@[i]).0@
                                    == told.headers@[i].0@ && reply.headers@[i].1@
                                    == told.headers@[i].1@
                        },
                    Err(failed) => res matches Err(error) && forall|told: ApiError| #[trigger]
                        call_ensures(<ApiError as From<RateLimiterError>>::from, (failed,), told)
                            ==> error@ == told@,
                }
            },
        },
{
    if let Ok(decision) = checked {
        if let Ok(reply) = res {
            assert forall|told: CheckReply| #[trigger]
                call_ensures(respond, (&decision,), told) && accepted is Ok implies {
                &&& reply.status == told.status
                &&& reply.body == told.body
                &&& reply.headers@.len() == told.headers@.len()
                &&& forall|i: int|
                    0 <= i < told.headers@.len() ==> (#[trigger] reply.headers@[i]).0@
                        == told.headers@[i].0@ && reply.headers@[i].1@ == told.headers@[i].1@
            } by {
                let same = headers_for(decision@);
                assert(tells(reply, decision@) && tells(told, decision@));
                assert(reply.headers@.len() == same.len() && told.headers@.len() == same.len());
                assert forall|i: int| 0 <= i < told.headers@.len() implies (
                #[trigger] reply.headers@[i]).0@ == told.headers@[i].0@ && reply.headers@[i].1@
                    == told.headers@[i].1@ by {
                    lemma_header(reply, decision@, i);
                    lemma_header(told, decision@, i);
                }
            }
        }
    }
}

proof fn lemma_header(reply: CheckReply, decision: DecisionModel, i: int)
    requires
        tells(reply, decision),
        0 <= i < reply.headers@.len(),
    ensures
        headers_for(decision).len() == reply.headers@.len(),
        headers_for(decision)[i] == (reply.headers@[i].0@, reply.headers@[i].1@),
{
    let told = reply.headers@.map_values(|header: (&'static str, String)| (header.0@, header.1@));
    assert(told == headers_for(decision));
    assert(told[i] == (reply.headers@[i].0@, reply.headers@[i].1@));
}

} // verus!
