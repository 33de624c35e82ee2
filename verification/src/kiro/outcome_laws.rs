//! What each outcome of a step means for a call: when it goes on, with what, and
//! when and why it ends.

use vstd::prelude::*;

use crate::kiro::call::{
    next_step, Action, Answer, BodyFacts, CallState, Event, Outcome, Phase, Refusal, Report,
};
use crate::kiro::error::{CallError, Note};
use crate::kiro::retry::{retry_wait, status_wait, Wait};
use crate::model::config::RetryMode;

verus! {

/// Another attempt is left.
pub open spec fn attempts_left(s: CallState) -> bool {
    s.attempt + 1 < s.plan.max_retries
}

/// The call goes on with its next attempt: a credential is chosen anew.
pub open spec fn tries_again(s: CallState, t: CallState, action: Action) -> bool {
    &&& action == Action::Acquire
    &&& t.phase == Phase::Acquire
    &&& t.attempt == s.attempt + 1
    &&& t.plan == s.plan
}

/// The call goes on with its next attempt after a wait.
pub open spec fn waits_to_try_again(s: CallState, t: CallState, action: Action) -> bool {
    &&& action is Sleep
    &&& t.phase == Phase::Sleep
    &&& t.attempt == s.attempt
    &&& t.plan == s.plan
}

/// The error tells what the service answered.
pub open spec fn tells_refusal(e: CallError, s: CallState, note: Note, refusal: Refusal) -> bool {
    e == (CallError::Refused {
        kind: s.plan.kind,
        note,
        status: refusal.answer.status,
        body: refusal.body,
    })
}

/// A refusal that is held against the credential does not end the call while the
/// pool has another one and an attempt is left: the next attempt begins at once,
/// and the refusal is only remembered.
pub proof fn another_credential_takes_over(s: CallState, refusal: Refusal, suspended: bool)
    requires
        s.phase == (Phase::Report { refusal, suspended }),
        attempts_left(s),
    ensures
        next_step(s, Event::Availability(true)) matches Some(next) && tries_again(
            s,
            next.0,
            next.1.action,
        ) && next.0.sets == s.sets && next.1.row is None && next.1.report is None
            && (next.0.last_error matches Some(e) && tells_refusal(
            e,
            s,
            if suspended {
                Note::Suspended
            } else {
                Note::Plain
            },
            refusal,
        )),
{
    reveal(next_step);
}

/// A refusal that is held against the credential ends the call where the pool has
/// no other one, or no attempt is left, and it is what the client is told.
pub proof fn a_held_refusal_ends_the_call_at_last(
    s: CallState,
    refusal: Refusal,
    suspended: bool,
    available: bool,
)
    requires
        s.phase == (Phase::Report { refusal, suspended }),
        !available || !attempts_left(s),
    ensures
        next_step(s, Event::Availability(available)) matches Some(next) && next.0.phase
            == Phase::Over && (next.1.action matches Action::Done(Err(e)) && tells_refusal(
            e,
            s,
            if !available {
                Note::AllUsed
            } else if suspended {
                Note::Suspended
            } else {
                Note::Plain
            },
            refusal,
        )),
{
    reveal(next_step);
}

/// While an attempt is left, a call ends with an error only for a reason: no
/// credential can be chosen on account of a 429, the profile of the credential
/// cannot be had, the request itself is refused, the service timed out, no
/// credential is left, or a 429 is for the client.
pub proof fn a_call_ends_early_for_a_reason_only(s: CallState, e: Event)
    requires
        attempts_left(s),
        next_step(s, e) matches Some(next) && next.1.action matches Action::Done(Err(_)),
    ensures
        match (s.phase, e) {
            (Phase::Acquire, Event::AcquireFailed(err)) => err is RateLimit || (
            s.last_error matches Some(earlier) && earlier is RateLimit),
            (Phase::Profile { .. }, Event::ProfileFailed(_)) => true,
            (Phase::Body { answer, .. }, Event::BodyRead { body, facts }) => {
                let api = s.plan.kind is Api;
                let status = answer.status;
                ||| 400 <= status < 500 && status != 401 && status != 403 && status != 408
                    && status != 429 && !(status == 402 && facts.monthly_limit)
                ||| api && (facts.validation_error || facts.gateway_timeout || status == 524)
                    && status != 401 && status != 403 && !(status == 402 && facts.monthly_limit)
                ||| status == 429 && !answer.rate_limit.retries_locally()
            },
            (Phase::Report { .. }, Event::Availability(available)) => !available,
            (Phase::Refresh { .. }, Event::Refreshed(Err(err))) => err is RateLimit,
            (Phase::Fallback { refusal, .. }, Event::FallbackAnswered { status, .. }) => !(200
                <= status < 300) && refusal.answer.status == 429
                && !refusal.answer.rate_limit.retries_locally(),
            (Phase::Fallback { refusal, .. }, Event::FallbackFailed(_)) => refusal.answer.status
                == 429 && !refusal.answer.rate_limit.retries_locally(),
            (Phase::Switch { refusal }, Event::Availability(available)) => refusal.answer.status
                == 429 && !refusal.answer.rate_limit.retries_locally(),
            (Phase::Settings { refusal }, Event::ThrottleSettings { failover, .. }) => !failover
                && refusal.answer.status == 429
                && !refusal.answer.rate_limit.retries_locally(),
            (Phase::Throttle { refusal, .. }, Event::Remaining(n)) => n == 0
                || !refusal.answer.rate_limit.retries_locally(),
            _ => false,
        },
{
    reveal(next_step);
}

/// A call succeeds only with an answer of 2xx, and with the credential that the
/// answer was had with.
pub proof fn a_call_succeeds_with_an_answer_only(s: CallState, e: Event, id: u64)
    requires
        next_step(s, e) matches Some(next) && next.1.action == Action::Done(Ok(id)),
    ensures
        match (s.phase, e) {
            (Phase::Execute { id: used, .. }, Event::Answered(answer)) => id == used && 200
                <= answer.status < 300,
            (
                Phase::Fallback { refusal, .. },
                Event::FallbackAnswered { status, .. },
            ) => id == refusal.id && 200 <= status < 300,
            _ => false,
        },
{
    reveal(next_step);
}

/// An answer of 2xx ends the call at once with its credential. In the chat
/// interface the pool hears of the success, and it is traced.
pub proof fn an_answer_is_the_end(
    s: CallState,
    id: u64,
    endpoint: String,
    fallbacks: Vec<String>,
    answer: Answer,
)
    requires
        s.phase == (Phase::Execute { id, endpoint, fallbacks }),
        200 <= answer.status < 300,
    ensures
        next_step(s, Event::Answered(answer)) matches Some(next) && next.1.action == Action::Done(
            Ok(id),
        ) && next.0.phase == Phase::Over && (s.plan.kind is Api ==> next.1.report == Some(
            Report::Success { id },
        ) && (next.1.row matches Some(row) && row.outcome == Outcome::Success && row.attempt
            == s.attempt && row.credential_id == id && row.endpoint == Some(endpoint)
            && row.http_status == Some(answer.status))) && (s.plan.kind is Mcp ==> next.1.report
            is None && next.1.row is None),
{
    reveal(next_step);
}

/// Any other answer is read before anything is decided.
pub proof fn a_refusal_is_read_first(
    s: CallState,
    id: u64,
    endpoint: String,
    fallbacks: Vec<String>,
    answer: Answer,
)
    requires
        s.phase == (Phase::Execute { id, endpoint, fallbacks }),
        !(200 <= answer.status < 300),
    ensures
        next_step(s, Event::Answered(answer)) matches Some(next) && next.1.action
            == Action::ReadBody && next.0 == (CallState {
            phase: Phase::Body { id, endpoint, fallbacks, answer },
            ..s
        }),
{
    reveal(next_step);
}

/// What the body of a refusal is held against: a used-up quota, a suspended account
/// and a failed authentication are held against the credential, a 400 and what
/// the service calls invalid against the request. Nothing is held against the
/// credential where the service itself is at fault.
pub proof fn refusals_are_told_apart(
    s: CallState,
    id: u64,
    endpoint: String,
    fallbacks: Vec<String>,
    answer: Answer,
    body: String,
    facts: BodyFacts,
)
    requires
        s.phase == (Phase::Body { id, endpoint, fallbacks, answer }),
    ensures
        ({
            let status = answer.status;
            let api = s.plan.kind is Api;
            let next = next_step(s, Event::BodyRead { body, facts })->Some_0;
            let over = next.1.action matches Action::Done(Err(e)) && e == (CallError::Refused {
                kind: s.plan.kind,
                note: Note::Plain,
                status,
                body,
            });
            &&& next_step(s, Event::BodyRead { body, facts }) is Some
            &&& status == 402 && facts.monthly_limit ==> next.1.action
                == (Action::ReportQuotaExhausted { id })
            &&& status == 400 ==> over
            &&& status == 403 && facts.account_suspended && facts.suspended_detection
                ==> next.1.action == (Action::ReportSuspended { id })
            &&& (status == 401 || status == 403 && !(facts.account_suspended
                && facts.suspended_detection)) ==> next.1.action == (if facts.bearer_invalid
                && !s.sets.refreshed.contains(id) {
                Action::ForceRefresh { id }
            } else {
                Action::ReportFailure { id }
            })
            &&& 400 <= status < 500 && status != 401 && status != 403 && status != 408 && status
                != 429 && !(status == 402 && facts.monthly_limit) ==> over
            &&& api && (facts.validation_error || facts.gateway_timeout || status == 524)
                && !(400 <= status <= 403) ==> over
            &&& 500 <= status < 600 && s.plan.kind is Mcp ==> !(next.1.action is TryFallback)
            &&& next.1.row matches Some(row) && row.attempt == s.attempt && row.credential_id == id
                && row.endpoint == Some(endpoint) && row.http_status == Some(status)
                && row.detail.text() == body@
        }),
{
    reveal(next_step);
}

/// How a refusal is traced.
pub proof fn refusals_are_traced_by_their_cause(
    s: CallState,
    id: u64,
    endpoint: String,
    fallbacks: Vec<String>,
    answer: Answer,
    body: String,
    facts: BodyFacts,
)
    requires
        s.phase == (Phase::Body { id, endpoint, fallbacks, answer }),
    ensures
        next_step(s, Event::BodyRead { body, facts }) matches Some(next) && next.1.row matches Some(
            row,
        ) && ({
            let status = answer.status;
            let plain = !facts.validation_error && !facts.gateway_timeout || s.plan.kind is Mcp;
            &&& status == 402 && facts.monthly_limit ==> row.outcome == Outcome::QuotaExhausted
            &&& status == 400 ==> row.outcome == Outcome::BadRequest
            &&& status == 401 ==> row.outcome == Outcome::AuthFailed
            &&& status == 403 ==> row.outcome == (if facts.account_suspended
                && facts.suspended_detection {
                Outcome::AccountSuspended
            } else {
                Outcome::AuthFailed
            })
            &&& plain && (status == 408 || 500 <= status < 524) ==> row.outcome
                == Outcome::Transient
            &&& plain && status == 404 ==> row.outcome == Outcome::BadRequest
            &&& plain && 300 <= status < 400 ==> row.outcome == Outcome::Unknown
            &&& plain && status == 429 ==> row.outcome == (if s.plan.kind is Api
                && facts.account_throttled && facts.throttle_failover {
                Outcome::AccountThrottled
            } else {
                Outcome::Transient
            })
        }),
{
    reveal(next_step);
}

/// A service at fault in the chat interface is first tried at the other endpoints,
/// in their order, with the same credential and through the same proxy.
pub proof fn other_endpoints_come_first(
    s: CallState,
    id: u64,
    endpoint: String,
    fallbacks: Vec<String>,
    answer: Answer,
    body: String,
    facts: BodyFacts,
)
    requires
        s.phase == (Phase::Body { id, endpoint, fallbacks, answer }),
        s.plan.kind is Api,
        answer.status == 408 || answer.status == 429 || 500 <= answer.status < 600 && answer.status
            != 524,
        !facts.validation_error,
        !facts.gateway_timeout,
        fallbacks@.len() > 0,
    ensures
        next_step(s, Event::BodyRead { body, facts }) matches Some(next) && next.1.action == (
        Action::TryFallback { id, endpoint: fallbacks@[0], proxy: answer.proxy })
            && next.0.attempt == s.attempt && next.0.sets == s.sets && next.0.last_error
            == s.last_error,
{
    reveal(next_step);
}

/// An endpoint that fails as well gives way to the next one, and one that answers
/// ends the call.
pub proof fn endpoints_are_tried_in_turn(
    s: CallState,
    refusal: Refusal,
    account_throttled: bool,
    fallbacks: Vec<String>,
    next: usize,
    status: u16,
    body: String,
    e: CallError,
)
    requires
        s.phase == (Phase::Fallback { refusal, account_throttled, fallbacks, next }),
        next < fallbacks@.len(),
    ensures
        200 <= status < 300 ==> (next_step(s, Event::FallbackAnswered { status, body }) matches Some(
            n,
        ) && n.1.action == Action::Done(Ok(refusal.id)) && n.1.report == Some(
            Report::Success { id: refusal.id },
        ) && (n.1.row matches Some(row) && row.outcome == Outcome::Success && row.credential_id
            == refusal.id && row.endpoint == Some(fallbacks@[next as int]) && row.http_status
            == Some(status) && row.attempt == s.attempt)),
        !(200 <= status < 300) && next + 1 < fallbacks@.len() ==> (next_step(
            s,
            Event::FallbackAnswered { status, body },
        ) matches Some(n) && n.1.action == (Action::TryFallback {
            id: refusal.id,
            endpoint: fallbacks@[next + 1],
            proxy: refusal.answer.proxy,
        }) && n.1.report is None && n.0.attempt == s.attempt && n.0.sets == s.sets && (
        n.1.row matches Some(row) && row.outcome == Outcome::Transient && row.endpoint == Some(
            fallbacks@[next as int],
        ) && row.http_status == Some(status) && row.detail.text() == body@ && row.credential_id
            == refusal.id)),
        next + 1 < fallbacks@.len() ==> (next_step(s, Event::FallbackFailed(e)) matches Some(n)
            && n.1.action == (Action::TryFallback {
            id: refusal.id,
            endpoint: fallbacks@[next + 1],
            proxy: refusal.answer.proxy,
        }) && n.1.report is None && (n.1.row matches Some(row) && row.outcome
            == Outcome::NetworkError && row.endpoint == Some(fallbacks@[next as int]))),
{
    reveal(next_step);
    assert(fallbacks.len() == fallbacks@.len());
}

/// A service at fault is tried again after a wait, and the last of its refusals is
/// what the client is told when no attempt is left.
pub proof fn a_service_at_fault_is_tried_again(
    s: CallState,
    id: u64,
    endpoint: String,
    fallbacks: Vec<String>,
    answer: Answer,
    body: String,
    facts: BodyFacts,
)
    requires
        s.phase == (Phase::Body { id, endpoint, fallbacks, answer }),
        s.attempt < s.plan.max_retries,
        answer.status == 408 || 500 <= answer.status < 600,
        s.plan.kind is Api ==> answer.status != 524 && !facts.validation_error
            && !facts.gateway_timeout && fallbacks@.len() == 0,
    ensures
        next_step(s, Event::BodyRead { body, facts }) matches Some(next) && next.0.last_error
            == Some(
            CallError::Refused {
                kind: s.plan.kind,
                note: Note::Plain,
                status: answer.status,
                body,
            },
        ) && next.0.sets == s.sets && next.1.report is None && if attempts_left(s) {
            waits_to_try_again(s, next.0, next.1.action) && next.1.action == Action::Sleep(
                status_wait(
                    answer.status,
                    s.attempt as int,
                    s.plan.mode,
                    s.plan.policy,
                    answer.retry_after,
                ),
            )
        } else {
            next.1.action == Action::Done(Err(next.0.last_error->0))
        },
{
    reveal(next_step);
}

/// A request that could not be sent is tried again after a wait of between a fifth of
/// a second and two and a half; without an attempt left the client is told why.
pub proof fn a_lost_request_is_sent_again(s: CallState, e: CallError)
    requires
        s.phase is Execute,
        s.attempt < s.plan.max_retries,
    ensures
        next_step(s, Event::SendFailed(e)) matches Some(next) && next.0.last_error == Some(e)
            && next.0.sets == s.sets && next.1.report is None && (next.1.row matches Some(row)
            && row.outcome == Outcome::NetworkError && row.http_status is None && row.attempt
            == s.attempt && row.credential_id == s.phase->Execute_id && row.endpoint == Some(
            s.phase->Execute_endpoint,
        )) && if attempts_left(s) {
            waits_to_try_again(s, next.0, next.1.action) && (next.1.action matches Action::Sleep(
                wait,
            ) && wait == retry_wait(s.attempt as int) && forall|d: crate::clock::Delay|
                wait.allows(d) ==> 200_000_000 <= #[trigger] d@ <= 2_500_000_000)
        } else {
            next.1.action == Action::Done(Err(e))
        },
{
    reveal(next_step);
    assert forall|d: crate::clock::Delay|
        retry_wait(s.attempt as int).allows(d) implies 200_000_000
        <= #[trigger] d@ <= 2_500_000_000 by {
        crate::kiro::retry::waits_are_bounded(s.attempt as nat, d);
    }
}

/// After a wait the next attempt begins.
pub proof fn a_wait_leads_to_the_next_attempt(s: CallState)
    requires
        s.phase == Phase::Sleep,
        attempts_left(s),
    ensures
        next_step(s, Event::Slept) matches Some(next) && tries_again(s, next.0, next.1.action)
            && next.0.sets == s.sets && next.0.last_error == s.last_error,
{
    reveal(next_step);
}

/// A credential that was chosen is used, once its use is recorded and, in the chat
/// interface, its profile is known.
pub proof fn a_chosen_credential_is_used(s: CallState, id: u64, name: String, others: Vec<String>)
    ensures
        s.phase == Phase::Acquire && !s.sets.recorded.contains(id) ==> (next_step(
            s,
            Event::Acquired { id },
        ) matches Some(n) && n.1.action == (Action::RecordRequest { id }) && n.0.phase == (
        Phase::Reserve { id })),
        s.phase == Phase::Acquire && s.sets.recorded.contains(id) ==> (next_step(
            s,
            Event::Acquired { id },
        ) matches Some(n) && n.1.action == (if s.plan.kind is Mcp {
            Action::SelectEndpoint { id }
        } else {
            Action::EnsureProfile { id }
        })),
        s.phase == (Phase::Reserve { id }) ==> (next_step(
            s,
            Event::Recorded { granted: true },
        ) matches Some(n) && n.0.sets.recorded.contains(id) && n.1.action == (if s.plan.kind is Mcp {
            Action::SelectEndpoint { id }
        } else {
            Action::EnsureProfile { id }
        })),
        s.phase == (Phase::Profile { id }) ==> (next_step(s, Event::ProfileReady) matches Some(n)
            && n.1.action == (Action::SelectEndpoint { id })),
        s.phase == (Phase::Endpoint { id }) ==> (next_step(
            s,
            Event::EndpointFound { name, fallbacks: others },
        ) matches Some(n) && n.1.action == (Action::Execute { id }) && n.0.phase == (
        Phase::Execute { id, endpoint: name, fallbacks: others })),
{
    reveal(next_step);
}

/// A credential whose rate allows no further use is passed over, and another
/// attempt begins at once.
pub proof fn a_credential_at_its_rate_is_passed_over(s: CallState, id: u64)
    requires
        s.phase == (Phase::Reserve { id }),
        !s.sets.recorded.contains(id),
        attempts_left(s),
    ensures
        next_step(s, Event::Recorded { granted: false }) matches Some(n) && tries_again(
            s,
            n.0,
            n.1.action,
        ) && n.0.sets.throttled == s.sets.throttled.insert(id) && n.0.sets.recorded
            == s.sets.recorded && n.0.last_error == s.last_error,
{
    reveal(next_step);
}

/// A credential whose endpoint does not exist counts as failed, and the next
/// attempt begins.
pub proof fn an_unknown_endpoint_is_a_failure(s: CallState, id: u64, e: CallError)
    requires
        s.phase == (Phase::Endpoint { id }),
        attempts_left(s),
    ensures
        next_step(s, Event::EndpointUnknown(e)) matches Some(n) && tries_again(
            s,
            n.0,
            n.1.action,
        ) && n.1.report == Some(Report::Failure { id }) && n.0.last_error == Some(e),
{
    reveal(next_step);
}

/// A profile that cannot be had ends the call with its reason.
pub proof fn a_failed_profile_ends_the_call(s: CallState, e: CallError)
    requires
        s.phase is Profile,
    ensures
        next_step(s, Event::ProfileFailed(e)) matches Some(n) && n.1.action == Action::Done(Err(e)),
{
    reveal(next_step);
}

/// A refreshed token is used in the next attempt. A refresh that fails is held
/// against the credential, but for a 429, which goes to the client.
pub proof fn a_refreshed_token_is_used(s: CallState, refusal: Refusal, e: CallError)
    requires
        s.phase == (Phase::Refresh { refusal }),
        attempts_left(s),
    ensures
        next_step(s, Event::Refreshed(Ok(()))) matches Some(n) && tries_again(
            s,
            n.0,
            n.1.action,
        ) && n.0.sets == s.sets && n.0.last_error == s.last_error,
        e is RateLimit ==> (next_step(s, Event::Refreshed(Err(e))) matches Some(n) && n.1.action
            == Action::Done(Err(e))),
        !(e is RateLimit) ==> (next_step(s, Event::Refreshed(Err(e))) matches Some(n)
            && n.1.action == (Action::ReportFailure { id: refusal.id })),
{
    reveal(next_step);
}

/// A credential that cannot be chosen ends the attempt; a 429 ends the call.
pub proof fn a_failed_choice_ends_the_attempt(s: CallState, e: CallError)
    requires
        s.phase == Phase::Acquire,
    ensures
        e is RateLimit ==> (next_step(s, Event::AcquireFailed(e)) matches Some(n) && n.1.action
            == Action::Done(Err(e))),
        !(e is RateLimit) && !(s.last_error matches Some(earlier) && earlier is RateLimit)
            && attempts_left(s) ==> (next_step(s, Event::AcquireFailed(e)) matches Some(n)
            && tries_again(s, n.0, n.1.action) && n.0.last_error == Some(e)),
{
    reveal(next_step);
}

/// An ordinary 429 in the default mode has another credential take over at once,
/// where the pool has one, and this one is passed over for the rest of the round.
/// Without another one the call waits, and only this one is passed over.
pub proof fn a_429_changes_the_credential(s: CallState, refusal: Refusal)
    requires
        s.phase == (Phase::Switch { refusal }),
        s.plan.mode == RetryMode::Failover,
        refusal.answer.status == 429,
        refusal.answer.rate_limit.retries_locally(),
        attempts_left(s),
    ensures
        next_step(s, Event::Availability(true)) matches Some(n) && tries_again(
            s,
            n.0,
            n.1.action,
        ) && n.0.sets.throttled == s.sets.throttled.insert(refusal.id) && n.1.report is None
            && n.0.last_error == Some(
            CallError::Refused {
                kind: s.plan.kind,
                note: Note::Switched { id: refusal.id },
                status: 429,
                body: refusal.body,
            },
        ),
        !refusal.throttled ==> (next_step(s, Event::Availability(false)) matches Some(n)
            && waits_to_try_again(s, n.0, n.1.action) && n.0.sets.throttled == set![refusal.id]
            && n.1.report is None && n.0.last_error == Some(
            CallError::RateLimit(refusal.answer.rate_limit),
        )),
        refusal.throttled ==> (next_step(s, Event::Availability(false)) matches Some(n)
            && n.1.action == Action::ReadThrottleSettings),
{
    reveal(next_step);
}

/// Outside the default mode, where a 429 is to change the credential, the one at
/// hand rests for as long as the service says, else for as long as the policy
/// says, and another one takes over.
pub proof fn a_429_rests_the_credential(s: CallState, refusal: Refusal)
    requires
        s.phase == (Phase::Switch { refusal }),
        s.plan.mode != RetryMode::Failover,
        s.plan.policy.credential_switch_on_429,
        attempts_left(s),
    ensures
        next_step(s, Event::Availability(true)) matches Some(n) && tries_again(
            s,
            n.0,
            n.1.action,
        ) && n.0.sets.throttled == s.sets.throttled.insert(refusal.id) && (
        n.1.report matches Some(Report::RateLimited { id, cooldown }) && id == refusal.id
            && match refusal.answer.retry_after {
            Some(d) => cooldown == d,
            None => cooldown@ == s.plan.policy.rate_limit_cooldown_ms * 1_000_000,
        }),
        next_step(s, Event::Availability(false)) matches Some(n) && n.1.report is None,
{
    reveal(next_step);
}

/// A 429 asks the pool for another credential before anything is waited for, where
/// the mode or the policy has it change the credential, and there is no other
/// endpoint. Otherwise the call waits.
pub proof fn a_429_asks_for_another_credential(
    s: CallState,
    id: u64,
    endpoint: String,
    fallbacks: Vec<String>,
    answer: Answer,
    body: String,
    facts: BodyFacts,
)
    requires
        s.phase == (Phase::Body { id, endpoint, fallbacks, answer }),
        answer.status == 429,
        answer.rate_limit.retries_locally(),
        s.plan.kind is Api ==> !facts.validation_error && !facts.gateway_timeout
            && fallbacks@.len() == 0 && !(facts.account_throttled && facts.throttle_failover),
        attempts_left(s),
    ensures
        s.plan.mode == RetryMode::Failover || s.plan.policy.credential_switch_on_429 ==> (
        next_step(s, Event::BodyRead { body, facts }) matches Some(n) && n.1.action
            == Action::QueryAvailable && n.0.sets.throttled == s.sets.throttled.insert(id)
            && n.0.attempt == s.attempt),
        !(s.plan.mode == RetryMode::Failover || s.plan.policy.credential_switch_on_429) && !(
        s.plan.kind is Api && facts.account_throttled) ==> (next_step(
            s,
            Event::BodyRead { body, facts },
        ) matches Some(n) && waits_to_try_again(s, n.0, n.1.action) && n.0.sets == s.sets),
{
    reveal(next_step);
}

/// The wait after an answer with a 429 is the one that the service names outside the
/// default mode.
pub proof fn a_named_time_is_waited_for(s: CallState, refusal: Refusal, d: crate::clock::Delay)
    requires
        s.phase == (Phase::Settings { refusal }),
        s.plan.mode != RetryMode::Failover,
        refusal.answer.status == 429,
        refusal.answer.rate_limit.retries_locally(),
        refusal.answer.retry_after == Some(d),
        attempts_left(s),
    ensures
        next_step(
            s,
            Event::ThrottleSettings { failover: false, cooldown_secs: 0 },
        ) matches Some(n) && n.1.action == Action::Sleep(Wait::Fixed(d)),
{
    reveal(next_step);
}

/// A throttled account rests for the cooldown of the settings, and for at least a
/// second.
pub proof fn a_throttled_account_rests(s: CallState, refusal: Refusal, cooldown_secs: u64)
    requires
        s.phase == (Phase::Settings { refusal }),
    ensures
        next_step(s, Event::ThrottleSettings { failover: true, cooldown_secs }) matches Some(n)
            && n.1.action matches Action::ReportThrottled { id, cooldown_secs: secs } && id
            == refusal.id && secs >= 1 && (cooldown_secs >= 1 ==> secs == cooldown_secs) && (
        cooldown_secs == 0 ==> secs == 1),
{
    reveal(next_step);
}

/// After a throttled account another one takes over at once, where one remains and
/// the client need not hear of the 429; else the client is told, with a time to
/// wait.
pub proof fn another_account_takes_over(
    s: CallState,
    refusal: Refusal,
    cooldown_secs: u64,
    remaining: usize,
)
    requires
        s.phase == (Phase::Throttle { refusal, cooldown_secs }),
        attempts_left(s),
    ensures
        remaining > 0 && refusal.answer.rate_limit.retries_locally() ==> (next_step(
            s,
            Event::Remaining(remaining),
        ) matches Some(n) && tries_again(s, n.0, n.1.action) && n.0.sets == s.sets && (
        n.0.last_error matches Some(CallError::RateLimit(e)) && e@ is Some)),
        remaining == 0 || !refusal.answer.rate_limit.retries_locally() ==> (next_step(
            s,
            Event::Remaining(remaining),
        ) matches Some(n) && (n.1.action matches Action::Done(Err(CallError::RateLimit(e)))
            && match refusal.answer.rate_limit@ {
            Some(t) => e@ == Some(t),
            None => e@ == Some(crate::text::decimal(cooldown_secs as nat)),
        })),
{
    reveal(next_step);
    crate::kiro::error::cooldown_error_tells_seconds(cooldown_secs);
}

/// Once the last endpoint failed as well, the call waits for its next attempt, unless a
/// 429 has it look for another credential first, or at the account.
pub proof fn the_last_endpoint_leaves_the_wait(
    s: CallState,
    refusal: Refusal,
    account_throttled: bool,
    fallbacks: Vec<String>,
    next: usize,
    status: u16,
    body: String,
)
    requires
        s.phase == (Phase::Fallback { refusal, account_throttled, fallbacks, next }),
        next + 1 == fallbacks@.len(),
        !(200 <= status < 300),
        attempts_left(s),
        refusal.answer.rate_limit.retries_locally(),
    ensures
        next_step(s, Event::FallbackAnswered { status, body }) matches Some(n) && n.0.attempt
            == s.attempt && ({
            let wait = status_wait(
                refusal.answer.status,
                s.attempt as int,
                s.plan.mode,
                s.plan.policy,
                refusal.answer.retry_after,
            );
            &&& refusal.answer.status != 429 ==> n.1.action == Action::Sleep(wait)
                && n.0.last_error == Some(
                CallError::Refused {
                    kind: s.plan.kind,
                    note: Note::Plain,
                    status: refusal.answer.status,
                    body: refusal.body,
                },
            )
            &&& refusal.answer.status == 429 && account_throttled && refusal.throttled
                ==> n.1.action == Action::ReadThrottleSettings
            &&& refusal.answer.status == 429 && !account_throttled && s.plan.mode
                == RetryMode::Failover ==> n.1.action == Action::QueryAvailable
                && n.0.sets.throttled == s.sets.throttled.insert(refusal.id)
            &&& refusal.answer.status == 429 && !account_throttled && s.plan.mode
                != RetryMode::Failover && !s.plan.policy.credential_switch_on_429
                && !refusal.throttled ==> n.1.action == Action::Sleep(wait) && n.0.last_error
                == Some(CallError::RateLimit(refusal.answer.rate_limit))
        }),
{
    reveal(next_step);
    assert(fallbacks.len() == fallbacks@.len());
}

/// Where throttled accounts are not to change, the call waits as after any 429.
pub proof fn an_account_that_stays_is_waited_for(s: CallState, refusal: Refusal, secs: u64)
    requires
        s.phase == (Phase::Settings { refusal }),
        refusal.answer.status == 429,
        refusal.answer.rate_limit.retries_locally(),
        attempts_left(s),
    ensures
        next_step(
            s,
            Event::ThrottleSettings { failover: false, cooldown_secs: secs },
        ) matches Some(n) && n.1.action == Action::Sleep(
            status_wait(
                429,
                s.attempt as int,
                s.plan.mode,
                s.plan.policy,
                refusal.answer.retry_after,
            ),
        ) && n.0.last_error == Some(CallError::RateLimit(refusal.answer.rate_limit)) && n.0.sets
            == s.sets && n.0.attempt == s.attempt,
{
    reveal(next_step);
}

/// The pool hears of a success only where a call succeeds, of a failure only where an
/// endpoint does not exist, and of a rest only after a 429; and always of the
/// credential at hand.
pub proof fn the_pool_hears_what_happened(s: CallState, e: Event)
    requires
        next_step(s, e) is Some,
    ensures
        match next_step(s, e)->Some_0.1.report {
            Some(Report::Success { id }) => next_step(s, e)->Some_0.1.action == Action::Done(Ok(id)),
            Some(Report::Failure { id }) => s.phase == (Phase::Endpoint { id }) && e
                is EndpointUnknown,
            Some(Report::RateLimited { id, cooldown }) => (s.phase matches Phase::Switch { refusal }
                && refusal.id == id) && e == Event::Availability(true),
            None => true,
        },
{
    reveal(next_step);
}

/// What is asked of the pool is asked of the credential that was refused.
pub proof fn the_refused_credential_is_meant(s: CallState, e: Event)
    requires
        next_step(s, e) is Some,
    ensures
        ({
            let used = match s.phase {
                Phase::Body { id, .. } => Some(id),
                Phase::Refresh { refusal } => Some(refusal.id),
                Phase::Settings { refusal } => Some(refusal.id),
                _ => None,
            };
            match next_step(s, e)->Some_0.1.action {
                Action::ReportQuotaExhausted { id } => used == Some(id),
                Action::ReportSuspended { id } => used == Some(id),
                Action::ReportFailure { id } => used == Some(id),
                Action::ForceRefresh { id } => used == Some(id),
                Action::ReportThrottled { id, .. } => used == Some(id),
                _ => true,
            }
        }),
{
    reveal(next_step);
}

/// What goes wrong before a request is sent is traced with its reason.
pub proof fn early_failures_are_traced(s: CallState, e: CallError, id: u64)
    ensures
        s.phase == (Phase::Endpoint { id }) ==> (next_step(
            s,
            Event::EndpointUnknown(e),
        ) matches Some(n) && n.1.row matches Some(row) && row.outcome == Outcome::Unknown
            && row.credential_id == id && row.attempt == s.attempt && row.http_status is None
            && row.detail.text() == crate::kiro::error::error_message(e)),
        s.phase == Phase::Acquire && s.plan.kind is Api ==> (next_step(
            s,
            Event::AcquireFailed(e),
        ) matches Some(n) && n.1.row matches Some(row) && row.outcome == Outcome::Unknown
            && row.attempt == s.attempt && row.detail.text() == crate::kiro::error::error_message(
            e,
        )),
{
    reveal(next_step);
}

/// What the service does not explain is tried again after a wait.
pub proof fn the_unexplained_is_tried_again(
    s: CallState,
    id: u64,
    endpoint: String,
    fallbacks: Vec<String>,
    answer: Answer,
    body: String,
    facts: BodyFacts,
)
    requires
        s.phase == (Phase::Body { id, endpoint, fallbacks, answer }),
        answer.status < 200 || 300 <= answer.status < 400 || answer.status >= 600,
        s.plan.kind is Api ==> !facts.validation_error && !facts.gateway_timeout,
        attempts_left(s),
    ensures
        next_step(s, Event::BodyRead { body, facts }) matches Some(n) && waits_to_try_again(
            s,
            n.0,
            n.1.action,
        ) && n.1.action == Action::Sleep(retry_wait(s.attempt as int)) && n.0.sets == s.sets
            && n.0.last_error == Some(
            CallError::Refused {
                kind: s.plan.kind,
                note: Note::Plain,
                status: answer.status,
                body,
            },
        ),
{
    reveal(next_step);
}

/// A call for which no attempt gave a reason says how many were allowed.
pub proof fn a_spent_budget_is_told(s: CallState)
    requires
        s.phase == Phase::Sleep,
        !attempts_left(s),
    ensures
        next_step(s, Event::Slept) matches Some(n) && n.1.action == Action::Done(
            Err(
                match s.last_error {
                    Some(e) => e,
                    None => CallError::Exhausted {
                        kind: s.plan.kind,
                        max_retries: s.plan.max_retries,
                    },
                },
            ),
        ),
{
    reveal(next_step);
}

} // verus!
