//! The course of one call to the service over its attempts: which step comes
//! next, given how the last one came out.
//!
//! [`RetryLoop`] does no work of its own. It names the next [`Action`], and
//! takes the [`Event`] that performing it led to.

use vstd::prelude::*;

use crate::clock::Delay;
use crate::http_client::ProxyConfig;
use crate::kiro::error::{
    account_limit, account_rate_limit_with_fallback, error_message, handle_force_refresh_result,
    is_rate_limit_error, take_rate_limit_error, CallError, CallKind, Note, UpstreamRateLimitError,
};
use crate::kiro::retry::{
    cooldown_429, retry_delay, retry_delay_for_status, retry_wait, status_wait, switches_on_429,
    CredentialRetryState, CredentialSets, Ordinary429Outcome, Wait,
};
use crate::kiro::snippet::{snippet_of, truncate_snippet};
use crate::model::config::{RetryMode, RetryPolicy};
use crate::text::opt_view;

verus! {

broadcast use vstd::string::group_string_axioms;

/// How a step of a call came out, for its trace.
#[derive(Debug, Clone, Copy, PartialEq, Eq, Structural)]
pub enum Outcome {
    Success,
    NetworkError,
    QuotaExhausted,
    BadRequest,
    AuthFailed,
    AccountSuspended,
    AccountThrottled,
    Transient,
    Unknown,
}

/// The reason that a trace row gives.
#[derive(Debug, PartialEq, Eq)]
pub enum Detail {
    Nothing,
    /// The body of the answer.
    Body(String),
    /// The error that came up.
    Error(CallError),
}

/// The step since whose start a trace row counts its time.
#[derive(Debug, Clone, Copy, PartialEq, Eq, Structural)]
pub enum Since {
    Attempt,
    Fallback,
}

/// One row of the trace of a call.
#[derive(Debug, PartialEq, Eq)]
pub struct TraceRow {
    pub attempt: usize,
    pub credential_id: u64,
    pub endpoint: Option<String>,
    pub http_status: Option<u16>,
    pub outcome: Outcome,
    pub detail: Detail,
    pub since: Since,
}

impl Detail {
    /// The reason as a text.
    pub open spec fn text(&self) -> Seq<char> {
        match self {
            Detail::Nothing => Seq::empty(),
            Detail::Body(body) => body@,
            Detail::Error(e) => error_message(*e),
        }
    }

    /// What the trace shows of the reason, within a limit.
    pub fn snippet(&self, limit: usize) -> (r: Option<String>)
        ensures
            opt_view(r) == snippet_of(self.text(), limit),
    {
        match self {
            Detail::Nothing => None,
            Detail::Body(body) => truncate_snippet(body.as_str(), limit),
            Detail::Error(e) => truncate_snippet(e.message().as_str(), limit),
        }
    }
}

/// What the pool of credentials is told, without being asked for an answer.
#[derive(Debug, Clone, Copy, PartialEq, Eq, Structural)]
pub enum Report {
    /// The credential served the request.
    Success { id: u64 },
    /// The credential failed.
    Failure { id: u64 },
    /// The credential is to rest for a while.
    RateLimited { id: u64, cooldown: Delay },
}

/// What is to be done next, and answered with an [`Event`].
#[derive(Debug, PartialEq, Eq)]
pub enum Action {
    /// Choose a credential, other than those passed over.
    Acquire,
    /// Record a use of the credential, if its rate allows it.
    RecordRequest { id: u64 },
    /// Make sure that the profile of the credential is known.
    EnsureProfile { id: u64 },
    /// Look up the endpoint of the credential.
    SelectEndpoint { id: u64 },
    /// Send the request to the endpoint.
    Execute { id: u64 },
    /// Read the body of the answer, and put the endpoint's questions to it.
    ReadBody,
    /// Tell the pool that the quota of the credential is used up.
    ReportQuotaExhausted { id: u64 },
    /// Tell the pool that the account of the credential is suspended.
    ReportSuspended { id: u64 },
    /// Tell the pool that the credential failed.
    ReportFailure { id: u64 },
    /// Refresh the token of the credential.
    ForceRefresh { id: u64 },
    /// Send the request to another endpoint, with the same credential and through
    /// the same proxy.
    TryFallback { id: u64, endpoint: String, proxy: Option<ProxyConfig> },
    /// Ask the pool for a usable credential, other than those passed over.
    QueryAvailable,
    /// Read the settings for account-level 429s.
    ReadThrottleSettings,
    /// Tell the pool that the account is throttled, and for how long it rests.
    ReportThrottled { id: u64, cooldown_secs: u64 },
    /// Wait.
    Sleep(Wait),
    /// The call is over: the credential that served it, or the error.
    Done(Result<u64, CallError>),
}

/// What one step of a call comes to.
#[derive(Debug, PartialEq, Eq)]
pub struct Step {
    pub row: Option<TraceRow>,
    pub report: Option<Report>,
    pub action: Action,
}

/// The head of an answer.
#[derive(Debug, PartialEq, Eq)]
pub struct Answer {
    pub status: u16,
    /// The wait that the `Retry-After` header asks for.
    pub retry_after: Option<Delay>,
    /// What the answer amounts to as a 429.
    pub rate_limit: UpstreamRateLimitError,
    /// The proxy that the answer came through; none for a direct connection.
    pub proxy: Option<ProxyConfig>,
}

/// What the body of a refusal says to the endpoint, and the settings that
/// decide how much of it counts.
#[derive(Debug, Clone, Copy, PartialEq, Eq, Structural)]
pub struct BodyFacts {
    pub monthly_limit: bool,
    pub account_suspended: bool,
    pub bearer_invalid: bool,
    pub validation_error: bool,
    pub gateway_timeout: bool,
    pub account_throttled: bool,
    /// Suspensions are looked for.
    pub suspended_detection: bool,
    /// Account-level 429s change the credential.
    pub throttle_failover: bool,
}

/// How performing an [`Action`] came out.
#[derive(Debug, PartialEq, Eq)]
pub enum Event {
    Acquired { id: u64 },
    AcquireFailed(CallError),
    Recorded { granted: bool },
    ProfileReady,
    ProfileFailed(CallError),
    /// The endpoint, and those to fall back to that exist.
    EndpointFound { name: String, fallbacks: Vec<String> },
    EndpointUnknown(CallError),
    Answered(Answer),
    SendFailed(CallError),
    BodyRead { body: String, facts: BodyFacts },
    /// The pool has a usable credential, or has none.
    Availability(bool),
    Refreshed(Result<(), CallError>),
    FallbackAnswered { status: u16, body: String },
    FallbackFailed(CallError),
    ThrottleSettings { failover: bool, cooldown_secs: u64 },
    /// The usable credentials that remain.
    Remaining(usize),
    Slept,
}

/// A refused attempt.
#[derive(Debug, PartialEq, Eq)]
pub struct Refusal {
    pub id: u64,
    pub answer: Answer,
    pub body: String,
    /// The body tells of an account-level throttle.
    pub throttled: bool,
}

/// Where a call stands: the action whose outcome it waits for.
#[derive(Debug, PartialEq, Eq)]
pub enum Phase {
    Acquire,
    Reserve { id: u64 },
    Profile { id: u64 },
    Endpoint { id: u64 },
    Execute { id: u64, endpoint: String, fallbacks: Vec<String> },
    Body { id: u64, endpoint: String, fallbacks: Vec<String>, answer: Answer },
    Report { refusal: Refusal, suspended: bool },
    Refresh { refusal: Refusal },
    Fallback { refusal: Refusal, account_throttled: bool, fallbacks: Vec<String>, next: usize },
    Switch { refusal: Refusal },
    Settings { refusal: Refusal },
    Throttle { refusal: Refusal, cooldown_secs: u64 },
    Sleep,
    Over,
}

/// What does not change during a call.
#[derive(Debug, Clone, Copy, PartialEq, Eq, Structural)]
pub struct CallPlan {
    pub kind: CallKind,
    pub mode: RetryMode,
    pub policy: RetryPolicy,
    pub max_retries: usize,
}

/// The class of a refusal.
#[derive(Debug, Clone, Copy, PartialEq, Eq, Structural)]
pub enum RefusalClass {
    /// The quota of the credential is used up.
    Quota,
    /// The request itself is at fault.
    BadRequest,
    /// The account of the credential is suspended.
    Suspended,
    /// The credential was not accepted.
    Auth,
    /// The service timed out; another attempt would only add to the wait.
    GatewayTimeout,
    /// The service is at fault, for now.
    Transient,
    /// Anything else.
    Unexpected,
}

/// 2xx.
pub open spec fn is_success(status: u16) -> bool {
    200 <= status < 300
}

/// A request timeout, a 429, or 5xx.
pub open spec fn is_transient(status: u16) -> bool {
    status == 408 || status == 429 || 500 <= status < 600
}

/// The class of a refusal. What only the chat interface answers with is looked
/// for there only.
pub open spec fn refusal_class(kind: CallKind, status: u16, facts: BodyFacts) -> RefusalClass {
    let api = kind != CallKind::Mcp;
    if status == 402 && facts.monthly_limit {
        RefusalClass::Quota
    } else if status == 400 {
        RefusalClass::BadRequest
    } else if status == 403 && facts.suspended_detection && facts.account_suspended {
        RefusalClass::Suspended
    } else if status == 401 || status == 403 {
        RefusalClass::Auth
    } else if api && facts.validation_error {
        RefusalClass::BadRequest
    } else if api && (status == 524 || facts.gateway_timeout) {
        RefusalClass::GatewayTimeout
    } else if is_transient(status) {
        RefusalClass::Transient
    } else if 400 <= status < 500 {
        RefusalClass::BadRequest
    } else {
        RefusalClass::Unexpected
    }
}

/// The class of a refusal.
pub fn classify_refusal(kind: CallKind, status: u16, facts: &BodyFacts) -> (r: RefusalClass)
    ensures
        r == refusal_class(kind, status, *facts),
{
    let api = kind != CallKind::Mcp;
    if status == 402 && facts.monthly_limit {
        RefusalClass::Quota
    } else if status == 400 {
        RefusalClass::BadRequest
    } else if status == 401 || status == 403 {
        if status == 403 && facts.suspended_detection && facts.account_suspended {
            RefusalClass::Suspended
        } else {
            RefusalClass::Auth
        }
    } else if api && facts.validation_error {
        RefusalClass::BadRequest
    } else if api && (status == 524 || facts.gateway_timeout) {
        RefusalClass::GatewayTimeout
    } else if status == 408 || status == 429 || (500 <= status && status < 600) {
        RefusalClass::Transient
    } else if 400 <= status && status < 500 {
        RefusalClass::BadRequest
    } else {
        RefusalClass::Unexpected
    }
}

/// A call, as its next step depends on it.
pub struct CallState {
    pub plan: CallPlan,
    /// The number of the attempt, from zero.
    pub attempt: usize,
    pub sets: CredentialSets,
    pub last_error: Option<CallError>,
    pub phase: Phase,
}

/// A trace row of an attempt.
pub open spec fn row(
    s: CallState,
    id: u64,
    endpoint: Option<String>,
    http_status: Option<u16>,
    outcome: Outcome,
    detail: Detail,
) -> Option<TraceRow> {
    Some(
        TraceRow {
            attempt: s.attempt,
            credential_id: id,
            endpoint,
            http_status,
            outcome,
            detail,
            since: Since::Attempt,
        },
    )
}

/// The error that says what the service answered.
pub open spec fn refused(s: CallState, note: Note, refusal: Refusal) -> CallError {
    CallError::Refused {
        kind: s.plan.kind,
        note,
        status: refusal.answer.status,
        body: refusal.body,
    }
}

impl CallState {
    /// The call waits for an action.
    pub open spec fn wait_for(self, phase: Phase, action: Action) -> (CallState, Action) {
        (CallState { phase, ..self }, action)
    }

    /// The call is over.
    pub open spec fn end(self, result: Result<u64, CallError>) -> (CallState, Action) {
        self.wait_for(Phase::Over, Action::Done(result))
    }

    /// The call with an error to remember.
    pub open spec fn because(self, e: CallError) -> CallState {
        CallState { last_error: Some(e), ..self }
    }

    /// The next attempt begins; without one, the call ends with the last error.
    pub open spec fn advance(self) -> (CallState, Action) {
        if self.attempt + 1 < self.plan.max_retries {
            CallState { attempt: (self.attempt + 1) as usize, ..self }.wait_for(
                Phase::Acquire,
                Action::Acquire,
            )
        } else {
            self.end(
                Err(
                    match self.last_error {
                        Some(e) => e,
                        None => CallError::Exhausted {
                            kind: self.plan.kind,
                            max_retries: self.plan.max_retries,
                        },
                    },
                ),
            )
        }
    }

    /// The next attempt begins after a wait; without one there is no wait.
    pub open spec fn advance_after(self, wait: Wait) -> (CallState, Action) {
        if self.attempt + 1 < self.plan.max_retries {
            self.wait_for(Phase::Sleep, Action::Sleep(wait))
        } else {
            self.advance()
        }
    }

    /// The credential may be used.
    pub open spec fn reserved(self, id: u64) -> (CallState, Action) {
        if self.plan.kind == CallKind::Mcp {
            self.wait_for(Phase::Endpoint { id }, Action::SelectEndpoint { id })
        } else {
            self.wait_for(Phase::Profile { id }, Action::EnsureProfile { id })
        }
    }

    /// A transient refusal ends the attempt.
    pub open spec fn transient(self, refusal: Refusal) -> (CallState, Action) {
        let limited = refusal.answer.status == 429;
        if limited && !refusal.answer.rate_limit.retries_locally() {
            self.end(Err(CallError::RateLimit(refusal.answer.rate_limit)))
        } else {
            self.because(
                if limited {
                    CallError::RateLimit(refusal.answer.rate_limit)
                } else {
                    refused(self, Note::Plain, refusal)
                },
            ).advance_after(
                status_wait(
                    refusal.answer.status,
                    self.attempt as int,
                    self.plan.mode,
                    self.plan.policy,
                    refusal.answer.retry_after,
                ),
            )
        }
    }

    /// The credential was not changed for a 429; an account-level throttle is
    /// looked at next.
    pub open spec fn unswitched(self, refusal: Refusal) -> (CallState, Action) {
        if refusal.throttled {
            self.wait_for(Phase::Settings { refusal }, Action::ReadThrottleSettings)
        } else {
            self.transient(refusal)
        }
    }

    /// No endpoint is left to fall back to.
    pub open spec fn settle(self, refusal: Refusal, account_throttled: bool) -> (
        CallState,
        Action,
    ) {
        if refusal.answer.status != 429 {
            self.transient(refusal)
        } else if account_throttled {
            self.unswitched(refusal)
        } else if !refusal.answer.rate_limit.retries_locally() {
            self.end(Err(CallError::RateLimit(refusal.answer.rate_limit)))
        } else if switches_on_429(self.plan.mode, self.plan.policy) {
            CallState {
                sets: CredentialSets {
                    throttled: self.sets.throttled.insert(refusal.id),
                    ..self.sets
                },
                ..self
            }.wait_for(Phase::Switch { refusal }, Action::QueryAvailable)
        } else {
            self.unswitched(refusal)
        }
    }

    /// The endpoints from number `next` on are tried.
    pub open spec fn fall_back(
        self,
        refusal: Refusal,
        account_throttled: bool,
        fallbacks: Vec<String>,
        next: int,
    ) -> (CallState, Action) {
        if next < fallbacks@.len() {
            self.wait_for(
                Phase::Fallback { refusal, account_throttled, fallbacks, next: next as usize },
                Action::TryFallback {
                    id: refusal.id,
                    endpoint: fallbacks@[next],
                    proxy: refusal.answer.proxy,
                },
            )
        } else {
            self.settle(refusal, account_throttled)
        }
    }

    /// A refusal was read.
    pub open spec fn refusal_read(
        self,
        refusal: Refusal,
        fallbacks: Vec<String>,
        facts: BodyFacts,
    ) -> (CallState, Action) {
        let id = refusal.id;
        match refusal_class(self.plan.kind, refusal.answer.status, facts) {
            RefusalClass::Quota => self.wait_for(
                Phase::Report { refusal, suspended: false },
                Action::ReportQuotaExhausted { id },
            ),
            RefusalClass::BadRequest | RefusalClass::GatewayTimeout => self.end(
                Err(refused(self, Note::Plain, refusal)),
            ),
            RefusalClass::Suspended => self.wait_for(
                Phase::Report { refusal, suspended: true },
                Action::ReportSuspended { id },
            ),
            RefusalClass::Auth => if facts.bearer_invalid && !self.sets.refreshed.contains(id) {
                CallState {
                    sets: CredentialSets { refreshed: self.sets.refreshed.insert(id), ..self.sets },
                    ..self
                }.wait_for(Phase::Refresh { refusal }, Action::ForceRefresh { id })
            } else {
                self.wait_for(
                    Phase::Report { refusal, suspended: false },
                    Action::ReportFailure { id },
                )
            },
            RefusalClass::Transient => if self.plan.kind == CallKind::Mcp {
                self.settle(refusal, false)
            } else {
                self.fall_back(refusal, account_throttled(refusal, facts), fallbacks, 0)
            },
            RefusalClass::Unexpected => self.because(
                refused(self, Note::Plain, refusal),
            ).advance_after(retry_wait(self.attempt as int)),
        }
    }
}

/// A 429 is held against the account.
pub open spec fn account_throttled(refusal: Refusal, facts: BodyFacts) -> bool {
    refusal.answer.status == 429 && facts.throttle_failover && refusal.throttled
}

/// How a refusal is traced.
pub open spec fn refusal_outcome(
    kind: CallKind,
    refusal: Refusal,
    facts: BodyFacts,
) -> Outcome {
    match refusal_class(kind, refusal.answer.status, facts) {
        RefusalClass::Quota => Outcome::QuotaExhausted,
        RefusalClass::BadRequest => Outcome::BadRequest,
        RefusalClass::Suspended => Outcome::AccountSuspended,
        RefusalClass::Auth => Outcome::AuthFailed,
        RefusalClass::GatewayTimeout => Outcome::Transient,
        RefusalClass::Transient => if account_throttled(refusal, facts) {
            Outcome::AccountThrottled
        } else {
            Outcome::Transient
        },
        RefusalClass::Unexpected => Outcome::Unknown,
    }
}

/// A step that neither traces nor reports anything.
pub open spec fn quiet(next: (CallState, Action)) -> Option<(CallState, Step)> {
    Some((next.0, Step { row: None, report: None, action: next.1 }))
}

/// A step that traces a row.
pub open spec fn traced(row: Option<TraceRow>, next: (CallState, Action)) -> Option<
    (CallState, Step),
> {
    Some((next.0, Step { row, report: None, action: next.1 }))
}

/// A step that traces a row and reports to the pool.
pub open spec fn reported(
    row: Option<TraceRow>,
    report: Option<Report>,
    next: (CallState, Action),
) -> Option<(CallState, Step)> {
    Some((next.0, Step { row, report, action: next.1 }))
}

/// No credential could be chosen. A 429 goes to the client at once, and one of
/// an earlier attempt goes before any other reason.
pub open spec fn acquire_failed(s: CallState, e: CallError) -> Option<(CallState, Step)> {
    let mcp = s.plan.kind == CallKind::Mcp;
    let trace = row(
        s,
        0,
        None,
        None,
        if mcp && e is RateLimit {
            Outcome::Transient
        } else {
            Outcome::Unknown
        },
        Detail::Error(e),
    );
    if e is RateLimit {
        traced(trace, s.end(Err(e)))
    } else if s.last_error matches Some(earlier) && earlier is RateLimit {
        let ended = CallState { last_error: None, ..s }.end(Err(s.last_error->0));
        if mcp {
            quiet(ended)
        } else {
            traced(trace, ended)
        }
    } else {
        traced(trace, s.because(e).advance())
    }
}

/// The step that an event leads to. An event that the call does not wait for
/// leads to none.
#[verifier::opaque]
pub open spec fn next_step(s: CallState, e: Event) -> Option<(CallState, Step)> {
    match (s.phase, e) {
        (Phase::Acquire, Event::Acquired { id }) => quiet(
            if s.sets.recorded.contains(id) {
                s.reserved(id)
            } else {
                s.wait_for(Phase::Reserve { id }, Action::RecordRequest { id })
            },
        ),
        (Phase::Acquire, Event::AcquireFailed(e)) => acquire_failed(s, e),
        (Phase::Reserve { id }, Event::Recorded { granted }) => {
            let t = CallState { sets: s.sets.reserved(id, granted), ..s };
            quiet(
                if s.sets.recorded.contains(id) || granted {
                    t.reserved(id)
                } else {
                    t.advance()
                },
            )
        },
        (Phase::Profile { id }, Event::ProfileReady) => quiet(
            s.wait_for(Phase::Endpoint { id }, Action::SelectEndpoint { id }),
        ),
        (Phase::Profile { id }, Event::ProfileFailed(e)) => quiet(s.end(Err(e))),
        (Phase::Endpoint { id }, Event::EndpointFound { name, fallbacks }) => quiet(
            s.wait_for(
                Phase::Execute { id, endpoint: name, fallbacks },
                Action::Execute { id },
            ),
        ),
        (Phase::Endpoint { id }, Event::EndpointUnknown(e)) => reported(
            row(s, id, None, None, Outcome::Unknown, Detail::Error(e)),
            Some(Report::Failure { id }),
            s.because(e).advance(),
        ),
        (Phase::Execute { id, endpoint, fallbacks }, Event::SendFailed(e)) => traced(
            row(s, id, Some(endpoint), None, Outcome::NetworkError, Detail::Error(e)),
            s.because(e).advance_after(retry_wait(s.attempt as int)),
        ),
        (Phase::Execute { id, endpoint, fallbacks }, Event::Answered(answer)) => if !is_success(
            answer.status,
        ) {
            quiet(s.wait_for(Phase::Body { id, endpoint, fallbacks, answer }, Action::ReadBody))
        } else if s.plan.kind == CallKind::Mcp {
            quiet(s.end(Ok(id)))
        } else {
            reported(
                row(
                    s,
                    id,
                    Some(endpoint),
                    Some(answer.status),
                    Outcome::Success,
                    Detail::Nothing,
                ),
                Some(Report::Success { id }),
                s.end(Ok(id)),
            )
        },
        (Phase::Body { id, endpoint, fallbacks, answer }, Event::BodyRead { body, facts }) => {
            let refusal = Refusal {
                id,
                answer,
                body,
                throttled: facts.account_throttled && s.plan.kind != CallKind::Mcp,
            };
            traced(
                row(
                    s,
                    id,
                    Some(endpoint),
                    Some(answer.status),
                    refusal_outcome(s.plan.kind, refusal, facts),
                    Detail::Body(body),
                ),
                s.refusal_read(refusal, fallbacks, facts),
            )
        },
        (Phase::Report { refusal, suspended }, Event::Availability(available)) => quiet(
            if !available {
                s.end(Err(refused(s, Note::AllUsed, refusal)))
            } else {
                s.because(
                    refused(
                        s,
                        if suspended {
                            Note::Suspended
                        } else {
                            Note::Plain
                        },
                        refusal,
                    ),
                ).advance()
            },
        ),
        (Phase::Refresh { refusal }, Event::Refreshed(result)) => quiet(
            match result {
                Ok(()) => s.advance(),
                Err(CallError::RateLimit(e)) => s.end(Err(CallError::RateLimit(e))),
                Err(_) => s.wait_for(
                    Phase::Report { refusal, suspended: false },
                    Action::ReportFailure { id: refusal.id },
                ),
            },
        ),
        (
            Phase::Fallback { refusal, account_throttled, fallbacks, next },
            Event::FallbackAnswered { status, body },
        ) => {
            let success = is_success(status);
            let trace = TraceRow {
                attempt: s.attempt,
                credential_id: refusal.id,
                endpoint: Some(fallbacks@[next as int]),
                http_status: Some(status),
                outcome: if success {
                    Outcome::Success
                } else {
                    Outcome::Transient
                },
                detail: if success {
                    Detail::Nothing
                } else {
                    Detail::Body(body)
                },
                since: Since::Fallback,
            };
            if success {
                reported(
                    Some(trace),
                    Some(Report::Success { id: refusal.id }),
                    s.end(Ok(refusal.id)),
                )
            } else {
                traced(
                    Some(trace),
                    s.fall_back(refusal, account_throttled, fallbacks, next + 1),
                )
            }
        },
        (
            Phase::Fallback { refusal, account_throttled, fallbacks, next },
            Event::FallbackFailed(e),
        ) => traced(
            Some(
                TraceRow {
                    attempt: s.attempt,
                    credential_id: refusal.id,
                    endpoint: Some(fallbacks@[next as int]),
                    http_status: None,
                    outcome: Outcome::NetworkError,
                    detail: Detail::Error(e),
                    since: Since::Fallback,
                },
            ),
            s.fall_back(refusal, account_throttled, fallbacks, next + 1),
        ),
        (Phase::Switch { refusal }, Event::Availability(available)) => {
            let t = CallState {
                sets: s.sets.after_429(refusal.id, s.plan.mode, s.plan.policy, available),
                ..s
            };
            let cooldown = cooldown_429(
                s.plan.mode,
                s.plan.policy,
                refusal.answer.retry_after,
                available,
            );
            reported(
                None,
                match cooldown {
                    Some(d) => Some(Report::RateLimited { id: refusal.id, cooldown: d }),
                    None => None,
                },
                if CredentialSets::outcome_429(s.plan.mode, s.plan.policy, available)
                    == Ordinary429Outcome::Switched {
                    t.because(refused(s, Note::Switched { id: refusal.id }, refusal)).advance()
                } else {
                    t.unswitched(refusal)
                },
            )
        },
        (Phase::Settings { refusal }, Event::ThrottleSettings { failover, cooldown_secs }) => quiet(
            if failover {
                let secs = if cooldown_secs >= 1 {
                    cooldown_secs
                } else {
                    1
                };
                s.wait_for(
                    Phase::Throttle { refusal, cooldown_secs: secs },
                    Action::ReportThrottled { id: refusal.id, cooldown_secs: secs },
                )
            } else {
                s.transient(refusal)
            },
        ),
        (Phase::Throttle { refusal, cooldown_secs }, Event::Remaining(remaining)) => {
            let e = CallError::RateLimit(
                account_limit(Some(refusal.answer.rate_limit), cooldown_secs),
            );
            quiet(
                if !refusal.answer.rate_limit.retries_locally() || remaining == 0 {
                    s.end(Err(e))
                } else {
                    s.because(e).advance()
                },
            )
        },
        (Phase::Sleep, Event::Slept) => quiet(s.advance()),
        _ => None,
    }
}

impl CallState {
    /// What holds of every call on its way.
    pub open spec fn wf(self) -> bool {
        &&& self.phase is Over || self.attempt < self.plan.max_retries
        &&& match self.phase {
            Phase::Fallback { refusal, account_throttled, fallbacks, next } => {
                &&& next < fallbacks@.len()
                &&& is_transient(refusal.answer.status)
            },
            Phase::Switch { refusal } => refusal.answer.status == 429
                && refusal.answer.rate_limit.retries_locally(),
            Phase::Settings { refusal } => refusal.answer.status == 429,
            Phase::Throttle { refusal, cooldown_secs } => refusal.answer.status == 429,
            _ => true,
        }
    }
}

/// One call to the service, on its way.
#[derive(Debug)]
pub struct RetryLoop {
    plan: CallPlan,
    attempt: usize,
    credentials: CredentialRetryState,
    last_error: Option<CallError>,
    phase: Phase,
}

impl RetryLoop {
    pub closed spec fn view(&self) -> CallState {
        CallState {
            plan: self.plan,
            attempt: self.attempt,
            sets: self.credentials@,
            last_error: self.last_error,
            phase: self.phase,
        }
    }

    /// A call begins; without an attempt in its budget it ends at once.
    pub fn start(plan: CallPlan) -> (r: (RetryLoop, Action))
        ensures
            r.0@.wf(),
            r.0@.plan == plan,
            r.0@.attempt == 0,
            r.0@.last_error is None,
            r.0@.sets == (CredentialSets {
                throttled: Set::empty(),
                recorded: Set::empty(),
                refreshed: Set::empty(),
            }),
            plan.max_retries > 0 ==> r.0@.phase == Phase::Acquire && r.1 == Action::Acquire,
            plan.max_retries == 0 ==> r.0@.phase == Phase::Over && r.1 == Action::Done(
                Err(CallError::Exhausted { kind: plan.kind, max_retries: 0 }),
            ),
    {
        let begun = RetryLoop {
            plan,
            attempt: 0,
            credentials: CredentialRetryState::new(),
            last_error: None,
            phase: Phase::Acquire,
        };
        if plan.max_retries > 0 {
            (begun, Action::Acquire)
        } else {
            begun.end(Err(CallError::Exhausted { kind: plan.kind, max_retries: plan.max_retries }))
        }
    }

    /// The number of the attempt, from zero.
    pub fn attempt(&self) -> (r: usize)
        ensures
            r == self@.attempt,
    {
        self.attempt
    }

    /// The credentials that the call passes over.
    pub fn excluded(&self) -> (r: &std::collections::HashSet<u64>)
        ensures
            r@ == self@.sets.throttled,
    {
        self.credentials.throttled_ids()
    }

    fn wait_for(self, phase: Phase, action: Action) -> (r: (RetryLoop, Action))
        ensures
            (r.0@, r.1) == self@.wait_for(phase, action),
    {
        let mut call = self;
        call.phase = phase;
        (call, action)
    }

    fn end(self, result: Result<u64, CallError>) -> (r: (RetryLoop, Action))
        ensures
            (r.0@, r.1) == self@.end(result),
    {
        self.wait_for(Phase::Over, Action::Done(result))
    }

    fn because(self, e: CallError) -> (r: RetryLoop)
        ensures
            r@ == self@.because(e),
    {
        let mut call = self;
        call.last_error = Some(e);
        call
    }

    fn advance(self) -> (r: (RetryLoop, Action))
        requires
            self@.attempt < self@.plan.max_retries,
        ensures
            (r.0@, r.1) == self@.advance(),
            r.0@.wf(),
    {
        let mut call = self;
        if call.attempt + 1 < call.plan.max_retries {
            call.attempt = call.attempt + 1;
            call.wait_for(Phase::Acquire, Action::Acquire)
        } else {
            let e = match &call.last_error {
                Some(e) => e.clone(),
                None => CallError::Exhausted {
                    kind: call.plan.kind,
                    max_retries: call.plan.max_retries,
                },
            };
            call.end(Err(e))
        }
    }

    fn advance_after(self, wait: Wait) -> (r: (RetryLoop, Action))
        requires
            self@.attempt < self@.plan.max_retries,
        ensures
            (r.0@, r.1) == self@.advance_after(wait),
            r.0@.wf(),
    {
        if self.attempt + 1 < self.plan.max_retries {
            self.wait_for(Phase::Sleep, Action::Sleep(wait))
        } else {
            self.advance()
        }
    }

    fn reserved(self, id: u64) -> (r: (RetryLoop, Action))
        ensures
            (r.0@, r.1) == self@.reserved(id),
    {
        if self.plan.kind == CallKind::Mcp {
            self.wait_for(Phase::Endpoint { id }, Action::SelectEndpoint { id })
        } else {
            self.wait_for(Phase::Profile { id }, Action::EnsureProfile { id })
        }
    }

    fn refused(&self, note: Note, refusal: Refusal) -> (r: CallError)
        ensures
            r == refused(self@, note, refusal),
    {
        CallError::Refused {
            kind: self.plan.kind,
            note,
            status: refusal.answer.status,
            body: refusal.body,
        }
    }

    fn transient(self, refusal: Refusal) -> (r: (RetryLoop, Action))
        requires
            self@.attempt < self@.plan.max_retries,
        ensures
            (r.0@, r.1) == self@.transient(refusal),
            r.0@.wf(),
    {
        let wait = retry_delay_for_status(
            refusal.answer.status,
            self.attempt,
            self.plan.mode,
            &self.plan.policy,
            refusal.answer.retry_after,
        );
        if refusal.answer.status == 429 {
            if refusal.answer.rate_limit.should_retry_locally() {
                self.because(CallError::RateLimit(refusal.answer.rate_limit)).advance_after(wait)
            } else {
                self.end(Err(CallError::RateLimit(refusal.answer.rate_limit)))
            }
        } else {
            let e = self.refused(Note::Plain, refusal);
            self.because(e).advance_after(wait)
        }
    }

    fn unswitched(self, refusal: Refusal) -> (r: (RetryLoop, Action))
        requires
            self@.attempt < self@.plan.max_retries,
            refusal.answer.status == 429,
        ensures
            (r.0@, r.1) == self@.unswitched(refusal),
            r.0@.wf(),
    {
        if refusal.throttled {
            self.wait_for(Phase::Settings { refusal }, Action::ReadThrottleSettings)
        } else {
            self.transient(refusal)
        }
    }

    fn settle(self, refusal: Refusal, account_throttled: bool) -> (r: (RetryLoop, Action))
        requires
            self@.attempt < self@.plan.max_retries,
        ensures
            (r.0@, r.1) == self@.settle(refusal, account_throttled),
            r.0@.wf(),
    {
        if refusal.answer.status != 429 {
            self.transient(refusal)
        } else if account_throttled {
            self.unswitched(refusal)
        } else if !refusal.answer.rate_limit.should_retry_locally() {
            self.end(Err(CallError::RateLimit(refusal.answer.rate_limit)))
        } else if self.plan.mode == RetryMode::Failover
            || self.plan.policy.credential_switch_on_429 {
            let mut call = self;
            call.credentials.exclude(refusal.id);
            call.wait_for(Phase::Switch { refusal }, Action::QueryAvailable)
        } else {
            self.unswitched(refusal)
        }
    }

    fn fall_back(
        self,
        refusal: Refusal,
        account_throttled: bool,
        fallbacks: Vec<String>,
        next: usize,
    ) -> (r: (RetryLoop, Action))
        requires
            self@.attempt < self@.plan.max_retries,
            is_transient(refusal.answer.status),
        ensures
            (r.0@, r.1) == self@.fall_back(refusal, account_throttled, fallbacks, next as int),
            r.0@.wf(),
    {
        if next < fallbacks.len() {
            let id: u64 = refusal.id;
            let endpoint = fallbacks[next].clone();
            let proxy = copy_proxy(&refusal.answer.proxy);
            self.wait_for(
                Phase::Fallback { refusal, account_throttled, fallbacks, next },
                Action::TryFallback { id, endpoint, proxy },
            )
        } else {
            self.settle(refusal, account_throttled)
        }
    }

    fn refusal_read(self, refusal: Refusal, fallbacks: Vec<String>, facts: BodyFacts) -> (r: (
        RetryLoop,
        Action,
    ))
        requires
            self@.attempt < self@.plan.max_retries,
        ensures
            (r.0@, r.1) == self@.refusal_read(refusal, fallbacks, facts),
            r.0@.wf(),
    {
        let id: u64 = refusal.id;
        match classify_refusal(self.plan.kind, refusal.answer.status, &facts) {
            RefusalClass::Quota => self.wait_for(
                Phase::Report { refusal, suspended: false },
                Action::ReportQuotaExhausted { id },
            ),
            RefusalClass::BadRequest | RefusalClass::GatewayTimeout => {
                let e = self.refused(Note::Plain, refusal);
                self.end(Err(e))
            },
            RefusalClass::Suspended => self.wait_for(
                Phase::Report { refusal, suspended: true },
                Action::ReportSuspended { id },
            ),
            RefusalClass::Auth => if facts.bearer_invalid && !self.credentials.is_refreshed(id) {
                let mut call = self;
                call.credentials.mark_refreshed(id);
                call.wait_for(Phase::Refresh { refusal }, Action::ForceRefresh { id })
            } else {
                self.wait_for(
                    Phase::Report { refusal, suspended: false },
                    Action::ReportFailure { id },
                )
            },
            RefusalClass::Transient => if self.plan.kind == CallKind::Mcp {
                self.settle(refusal, false)
            } else {
                let throttled = is_account_throttled(&refusal, &facts);
                self.fall_back(refusal, throttled, fallbacks, 0)
            },
            RefusalClass::Unexpected => {
                let wait = retry_delay(self.attempt);
                let e = self.refused(Note::Plain, refusal);
                self.because(e).advance_after(wait)
            },
        }
    }

    fn row(
        &self,
        id: u64,
        endpoint: Option<String>,
        http_status: Option<u16>,
        outcome: Outcome,
        detail: Detail,
    ) -> (r: Option<TraceRow>)
        ensures
            r == row(self@, id, endpoint, http_status, outcome, detail),
    {
        Some(
            TraceRow {
                attempt: self.attempt,
                credential_id: id,
                endpoint,
                http_status,
                outcome,
                detail,
                since: Since::Attempt,
            },
        )
    }
}

fn copy_proxy(proxy: &Option<ProxyConfig>) -> (r: Option<ProxyConfig>)
    ensures
        r == *proxy,
{
    match proxy {
        Some(p) => Some(p.clone()),
        None => None,
    }
}

fn is_account_throttled(refusal: &Refusal, facts: &BodyFacts) -> (r: bool)
    ensures
        r == account_throttled(*refusal, *facts),
{
    refusal.answer.status == 429 && facts.throttle_failover && refusal.throttled
}

fn trace_outcome(kind: CallKind, refusal: &Refusal, facts: &BodyFacts) -> (r: Outcome)
    ensures
        r == refusal_outcome(kind, *refusal, *facts),
{
    match classify_refusal(kind, refusal.answer.status, facts) {
        RefusalClass::Quota => Outcome::QuotaExhausted,
        RefusalClass::BadRequest => Outcome::BadRequest,
        RefusalClass::Suspended => Outcome::AccountSuspended,
        RefusalClass::Auth => Outcome::AuthFailed,
        RefusalClass::GatewayTimeout => Outcome::Transient,
        RefusalClass::Transient => if is_account_throttled(refusal, facts) {
            Outcome::AccountThrottled
        } else {
            Outcome::Transient
        },
        RefusalClass::Unexpected => Outcome::Unknown,
    }
}

/// The outcome of a step: the call and what it waits for next.
pub open spec fn stepped(call: RetryLoop, step: Option<Step>, was: CallState, e: Event) -> bool {
    match next_step(was, e) {
        Some(next) => call@ == next.0 && step == Some(next.1) && call@.wf(),
        None => call@ == was && step is None,
    }
}

fn quiet_step(next: (RetryLoop, Action)) -> (r: (RetryLoop, Option<Step>))
    ensures
        r.0 == next.0,
        r.1 == Some(Step { row: None, report: None, action: next.1 }),
{
    (next.0, Some(Step { row: None, report: None, action: next.1 }))
}

fn full_step(row: Option<TraceRow>, report: Option<Report>, next: (RetryLoop, Action)) -> (r: (
    RetryLoop,
    Option<Step>,
))
    ensures
        r.0 == next.0,
        r.1 == Some(Step { row, report, action: next.1 }),
{
    (next.0, Some(Step { row, report, action: next.1 }))
}

impl RetryLoop {
    fn acquire_failed(self, e: CallError) -> (r: (RetryLoop, Option<Step>))
        requires
            self@.phase == Phase::Acquire,
            self@.wf(),
        ensures
            stepped(r.0, r.1, self@, Event::AcquireFailed(e)),
    {
        proof {
            reveal(next_step);
        }
        let mcp = self.plan.kind == CallKind::Mcp;
        let limited = is_rate_limit_error(&e);
        let outcome = if mcp && limited {
            Outcome::Transient
        } else {
            Outcome::Unknown
        };
        let row = self.row(0, None, None, outcome, Detail::Error(e.clone()));
        if limited {
            return full_step(row, None, self.end(Err(e)));
        }
        let mut call = self;
        match take_rate_limit_error(&mut call.last_error) {
            Some(earlier) => {
                let ended = call.end(Err(earlier));
                if mcp {
                    quiet_step(ended)
                } else {
                    full_step(row, None, ended)
                }
            },
            None => full_step(row, None, call.because(e).advance()),
        }
    }

    fn answered(self, id: u64, endpoint: String, fallbacks: Vec<String>, answer: Answer) -> (r: (
        RetryLoop,
        Option<Step>,
    ))
        requires
            self@.attempt < self@.plan.max_retries,
        ensures
            stepped(
                r.0,
                r.1,
                (CallState { phase: Phase::Execute { id, endpoint, fallbacks }, ..self@ }),
                Event::Answered(answer),
            ),
    {
        proof {
            reveal(next_step);
        }
        if !(200 <= answer.status && answer.status < 300) {
            quiet_step(
                self.wait_for(Phase::Body { id, endpoint, fallbacks, answer }, Action::ReadBody),
            )
        } else if self.plan.kind == CallKind::Mcp {
            quiet_step(self.end(Ok(id)))
        } else {
            let row = self.row(
                id,
                Some(endpoint),
                Some(answer.status),
                Outcome::Success,
                Detail::Nothing,
            );
            full_step(row, Some(Report::Success { id }), self.end(Ok(id)))
        }
    }

    fn body_read(
        self,
        id: u64,
        endpoint: String,
        fallbacks: Vec<String>,
        answer: Answer,
        body: String,
        facts: BodyFacts,
    ) -> (r: (RetryLoop, Option<Step>))
        requires
            self@.attempt < self@.plan.max_retries,
        ensures
            stepped(
                r.0,
                r.1,
                (CallState { phase: Phase::Body { id, endpoint, fallbacks, answer }, ..self@ }),
                Event::BodyRead { body, facts },
            ),
    {
        proof {
            reveal(next_step);
        }
        let detail = Detail::Body(body.clone());
        let status: u16 = answer.status;
        let refusal = Refusal {
            id,
            answer,
            body,
            throttled: facts.account_throttled && self.plan.kind != CallKind::Mcp,
        };
        let outcome = trace_outcome(self.plan.kind, &refusal, &facts);
        let row = self.row(id, Some(endpoint), Some(status), outcome, detail);
        full_step(row, None, self.refusal_read(refusal, fallbacks, facts))
    }

    fn fallback_done(
        self,
        refusal: Refusal,
        account_throttled: bool,
        fallbacks: Vec<String>,
        next: usize,
        status: u16,
        body: String,
    ) -> (r: (RetryLoop, Option<Step>))
        requires
            self@.attempt < self@.plan.max_retries,
            next < fallbacks@.len(),
            is_transient(refusal.answer.status),
        ensures
            stepped(
                r.0,
                r.1,
                (CallState {
                    phase: Phase::Fallback { refusal, account_throttled, fallbacks, next },
                    ..self@
                }),
                Event::FallbackAnswered { status, body },
            ),
    {
        proof {
            reveal(next_step);
        }
        let id: u64 = refusal.id;
        let success = 200 <= status && status < 300;
        assert(next < fallbacks.len());
        let row = TraceRow {
            attempt: self.attempt,
            credential_id: id,
            endpoint: Some(fallbacks[next].clone()),
            http_status: Some(status),
            outcome: if success {
                Outcome::Success
            } else {
                Outcome::Transient
            },
            detail: if success {
                Detail::Nothing
            } else {
                Detail::Body(body)
            },
            since: Since::Fallback,
        };
        if success {
            full_step(Some(row), Some(Report::Success { id }), self.end(Ok(id)))
        } else {
            full_step(
                Some(row),
                None,
                self.fall_back(refusal, account_throttled, fallbacks, next + 1),
            )
        }
    }

    fn switch_decided(self, refusal: Refusal, available: bool) -> (r: (RetryLoop, Option<Step>))
        requires
            self@.attempt < self@.plan.max_retries,
            refusal.answer.status == 429,
        ensures
            stepped(
                r.0,
                r.1,
                (CallState { phase: Phase::Switch { refusal }, ..self@ }),
                Event::Availability(available),
            ),
    {
        proof {
            reveal(next_step);
        }
        let id: u64 = refusal.id;
        let mut call = self;
        let (outcome, cooldown) = call.credentials.switch_credential_on_ordinary_429(
            id,
            call.plan.mode,
            &call.plan.policy,
            refusal.answer.retry_after,
            available,
        );
        let report = match cooldown {
            Some(d) => Some(Report::RateLimited { id, cooldown: d }),
            None => None,
        };
        let next = if outcome == Ordinary429Outcome::Switched {
            let e = call.refused(Note::Switched { id }, refusal);
            call.because(e).advance()
        } else {
            call.unswitched(refusal)
        };
        full_step(None, report, next)
    }

    /// Takes the outcome of the action that the call waits for. An event that it
    /// does not wait for changes nothing.
    pub fn step(self, event: Event) -> (r: (RetryLoop, Option<Step>))
        requires
            self@.wf(),
        ensures
            stepped(r.0, r.1, self@, event),
    {
        proof {
            reveal(next_step);
        }
        let RetryLoop { plan, attempt, credentials, last_error, phase } = self;
        let mut call = RetryLoop { plan, attempt, credentials, last_error, phase: Phase::Over };
        match (phase, event) {
            (Phase::Acquire, Event::Acquired { id }) => if call.credentials.is_recorded(id) {
                quiet_step(call.reserved(id))
            } else {
                quiet_step(call.wait_for(Phase::Reserve { id }, Action::RecordRequest { id }))
            },
            (Phase::Acquire, Event::AcquireFailed(e)) => {
                call.phase = Phase::Acquire;
                call.acquire_failed(e)
            },
            (Phase::Reserve { id }, Event::Recorded { granted }) => {
                if call.credentials.reserve_rpm(id, granted) {
                    quiet_step(call.reserved(id))
                } else {
                    quiet_step(call.advance())
                }
            },
            (Phase::Profile { id }, Event::ProfileReady) => quiet_step(
                call.wait_for(Phase::Endpoint { id }, Action::SelectEndpoint { id }),
            ),
            (Phase::Profile { id }, Event::ProfileFailed(e)) => quiet_step(call.end(Err(e))),
            (Phase::Endpoint { id }, Event::EndpointFound { name, fallbacks }) => quiet_step(
                call.wait_for(
                    Phase::Execute { id, endpoint: name, fallbacks },
                    Action::Execute { id },
                ),
            ),
            (Phase::Endpoint { id }, Event::EndpointUnknown(e)) => {
                let row = call.row(id, None, None, Outcome::Unknown, Detail::Error(e.clone()));
                full_step(row, Some(Report::Failure { id }), call.because(e).advance())
            },
            (Phase::Execute { id, endpoint, fallbacks }, Event::SendFailed(e)) => {
                let row = call.row(
                    id,
                    Some(endpoint),
                    None,
                    Outcome::NetworkError,
                    Detail::Error(e.clone()),
                );
                let wait = retry_delay(call.attempt);
                full_step(row, None, call.because(e).advance_after(wait))
            },
            (Phase::Execute { id, endpoint, fallbacks }, Event::Answered(answer)) => call.answered(
                id,
                endpoint,
                fallbacks,
                answer,
            ),
            (
                Phase::Body { id, endpoint, fallbacks, answer },
                Event::BodyRead { body, facts },
            ) => call.body_read(id, endpoint, fallbacks, answer, body, facts),
            (Phase::Report { refusal, suspended }, Event::Availability(available)) => {
                if available {
                    let note = if suspended {
                        Note::Suspended
                    } else {
                        Note::Plain
                    };
                    let e = call.refused(note, refusal);
                    quiet_step(call.because(e).advance())
                } else {
                    let e = call.refused(Note::AllUsed, refusal);
                    quiet_step(call.end(Err(e)))
                }
            },
            (Phase::Refresh { refusal }, Event::Refreshed(result)) => {
                match handle_force_refresh_result(result) {
                    Ok(true) => quiet_step(call.advance()),
                    Ok(false) => {
                        let id: u64 = refusal.id;
                        quiet_step(
                            call.wait_for(
                                Phase::Report { refusal, suspended: false },
                                Action::ReportFailure { id },
                            ),
                        )
                    },
                    Err(e) => quiet_step(call.end(Err(e))),
                }
            },
            (
                Phase::Fallback { refusal, account_throttled, fallbacks, next },
                Event::FallbackAnswered { status, body },
            ) => call.fallback_done(refusal, account_throttled, fallbacks, next, status, body),
            (
                Phase::Fallback { refusal, account_throttled, fallbacks, next },
                Event::FallbackFailed(e),
            ) => {
                assert(next < fallbacks.len());
                let row = TraceRow {
                    attempt: call.attempt,
                    credential_id: refusal.id,
                    endpoint: Some(fallbacks[next].clone()),
                    http_status: None,
                    outcome: Outcome::NetworkError,
                    detail: Detail::Error(e),
                    since: Since::Fallback,
                };
                full_step(
                    Some(row),
                    None,
                    call.fall_back(refusal, account_throttled, fallbacks, next + 1),
                )
            },
            (Phase::Switch { refusal }, Event::Availability(available)) => call.switch_decided(
                refusal,
                available,
            ),
            (
                Phase::Settings { refusal },
                Event::ThrottleSettings { failover, cooldown_secs },
            ) => {
                if failover {
                    let id: u64 = refusal.id;
                    let secs: u64 = if cooldown_secs >= 1 {
                        cooldown_secs
                    } else {
                        1
                    };
                    quiet_step(
                        call.wait_for(
                            Phase::Throttle { refusal, cooldown_secs: secs },
                            Action::ReportThrottled { id, cooldown_secs: secs },
                        ),
                    )
                } else {
                    quiet_step(call.transient(refusal))
                }
            },
            (Phase::Throttle { refusal, cooldown_secs }, Event::Remaining(remaining)) => {
                let (e, must_wait) = account_rate_limit_with_fallback(
                    Some(refusal.answer.rate_limit),
                    cooldown_secs,
                );
                if must_wait || remaining == 0 {
                    quiet_step(call.end(Err(CallError::RateLimit(e))))
                } else {
                    quiet_step(call.because(CallError::RateLimit(e)).advance())
                }
            },
            (Phase::Sleep, Event::Slept) => quiet_step(call.advance()),
            (phase, _) => {
                call.phase = phase;
                (call, None)
            },
        }
    }
}

} // verus!
