use kiro_gateway::clock::Delay;
use kiro_gateway::http_client::ProxyConfig;
use kiro_gateway::kiro::call::{
    classify_refusal, Action, Answer, BodyFacts, CallPlan, Detail, Event, Outcome, RefusalClass,
    Report, RetryLoop, Since, Step,
};
use kiro_gateway::kiro::error::{CallError, CallKind, Note, UpstreamRateLimitError};
use kiro_gateway::kiro::retry::{retry_delay, retry_delay_policy, retry_delay_throttle};
use kiro_gateway::model::config::{RetryMode, RetryPolicy};

const API: CallKind = CallKind::Api { stream: true };

fn plan(kind: CallKind, mode: RetryMode, max_retries: usize) -> CallPlan {
    CallPlan { kind, mode, policy: RetryPolicy::preset(mode), max_retries }
}

fn facts() -> BodyFacts {
    BodyFacts {
        monthly_limit: false,
        account_suspended: false,
        bearer_invalid: false,
        validation_error: false,
        gateway_timeout: false,
        account_throttled: false,
        suspended_detection: true,
        throttle_failover: true,
    }
}

fn answer(status: u16) -> Event {
    Event::Answered(Answer {
        status,
        retry_after: None,
        rate_limit: UpstreamRateLimitError::new(None),
        proxy: None,
    })
}

fn other(text: &str) -> CallError {
    CallError::Other(text.to_string())
}

fn refused(kind: CallKind, note: Note, status: u16) -> CallError {
    CallError::Refused { kind, note, status, body: "b".to_string() }
}

/// A call with what it asked for last.
struct Run {
    call: RetryLoop,
    action: Action,
}

impl Run {
    fn start(plan: CallPlan) -> Run {
        let (call, action) = RetryLoop::start(plan);
        Run { call, action }
    }

    fn step(self, event: Event) -> (Run, Step) {
        let (call, step) = self.call.step(event);
        let step = step.expect("the event fits the action");
        let action = match &step.action {
            Action::Acquire => Action::Acquire,
            _ => Action::ReadBody,
        };
        (Run { call, action }, step)
    }

    /// Takes the call to the point where its request is sent.
    fn to_execute(self, id: u64, api: bool, fallbacks: Vec<String>) -> Run {
        let (run, step) = self.step(Event::Acquired { id });
        let run = match step.action {
            Action::RecordRequest { id: asked } => {
                assert_eq!(asked, id);
                run.step(Event::Recorded { granted: true }).0
            }
            _ => run,
        };
        let run = if api { run.step(Event::ProfileReady).0 } else { run };
        let (run, step) =
            run.step(Event::EndpointFound { name: "ide".to_string(), fallbacks });
        assert_eq!(step.action, Action::Execute { id });
        run
    }

    fn refuse(self, status: u16, facts: BodyFacts) -> (Run, Step) {
        let (run, step) = self.step(answer(status));
        assert_eq!(step.action, Action::ReadBody);
        run.step(Event::BodyRead { body: "b".to_string(), facts })
    }
}

#[test]
fn a_call_that_is_served() {
    let run = Run::start(plan(API, RetryMode::Failover, 3));
    assert_eq!(run.action, Action::Acquire);
    let run = run.to_execute(7, true, Vec::new());
    assert_eq!(run.call.attempt(), 0);
    let (_, step) = run.step(answer(200));
    assert_eq!(step.action, Action::Done(Ok(7)));
    assert_eq!(step.report, Some(Report::Success { id: 7 }));
    let row = step.row.unwrap();
    assert_eq!(row.outcome, Outcome::Success);
    assert_eq!(row.http_status, Some(200));
    assert_eq!(row.endpoint.as_deref(), Some("ide"));
    assert_eq!(row.credential_id, 7);
    assert_eq!(row.detail, Detail::Nothing);
    assert_eq!(row.since, Since::Attempt);
}

#[test]
fn a_tool_call_that_is_served_is_traced_by_its_caller() {
    let run = Run::start(plan(CallKind::Mcp, RetryMode::Failover, 3)).to_execute(7, false, Vec::new());
    let (_, step) = run.step(answer(299));
    assert_eq!(step, Step { row: None, report: None, action: Action::Done(Ok(7)) });
}

#[test]
fn no_attempt_in_the_budget() {
    let run = Run::start(plan(API, RetryMode::Failover, 0));
    assert_eq!(
        run.action,
        Action::Done(Err(CallError::Exhausted { kind: API, max_retries: 0 }))
    );
    let (_, step) = run.call.step(Event::Slept);
    assert!(step.is_none());
}

#[test]
fn an_event_that_was_not_asked_for_leads_nowhere() {
    let (call, _) = RetryLoop::start(plan(API, RetryMode::Failover, 3));
    let (call, step) = call.step(Event::Slept);
    assert!(step.is_none());
    let (_, step) = call.step(Event::Acquired { id: 1 });
    assert_eq!(step.unwrap().action, Action::RecordRequest { id: 1 });
}

#[test]
fn a_429_of_the_pool_goes_to_the_client_at_once() {
    let limit = CallError::RateLimit(UpstreamRateLimitError::new(Some("5".to_string())));
    let run = Run::start(plan(API, RetryMode::Failover, 3));
    let (_, step) = run.step(Event::AcquireFailed(limit.clone()));
    assert_eq!(step.action, Action::Done(Err(limit)));
    assert_eq!(step.row.unwrap().outcome, Outcome::Unknown);
    let limit = CallError::RateLimit(UpstreamRateLimitError::new(None));
    let run = Run::start(plan(CallKind::Mcp, RetryMode::Failover, 3));
    let (_, step) = run.step(Event::AcquireFailed(limit));
    assert_eq!(step.row.unwrap().outcome, Outcome::Transient);
}

#[test]
fn failures_to_choose_use_up_the_budget() {
    let run = Run::start(plan(API, RetryMode::Failover, 2));
    let (run, step) = run.step(Event::AcquireFailed(other("a")));
    assert_eq!(step.action, Action::Acquire);
    assert_eq!(run.call.attempt(), 1);
    let (_, step) = run.step(Event::AcquireFailed(other("b")));
    assert_eq!(step.action, Action::Done(Err(other("b"))));
}

#[test]
fn a_credential_at_its_rate_is_passed_over() {
    let run = Run::start(plan(API, RetryMode::Failover, 2));
    let (run, _) = run.step(Event::Acquired { id: 4 });
    let (run, step) = run.step(Event::Recorded { granted: false });
    assert_eq!(step.action, Action::Acquire);
    assert!(run.call.excluded().contains(&4));
}

#[test]
fn network_errors_wait_and_go_on() {
    let run = Run::start(plan(API, RetryMode::Failover, 2)).to_execute(1, true, Vec::new());
    let (run, step) = run.step(Event::SendFailed(other("net")));
    assert_eq!(step.action, Action::Sleep(retry_delay(0)));
    assert_eq!(step.report, None);
    assert_eq!(step.row.unwrap().outcome, Outcome::NetworkError);
    let (run, step) = run.step(Event::Slept);
    assert_eq!(step.action, Action::Acquire);
    assert!(run.call.excluded().is_empty());
    let run = run.to_execute(1, true, Vec::new());
    let (_, step) = run.step(Event::SendFailed(other("net2")));
    assert_eq!(step.action, Action::Done(Err(other("net2"))));
}

#[test]
fn a_use_is_recorded_once() {
    let run = Run::start(plan(API, RetryMode::Failover, 2)).to_execute(1, true, Vec::new());
    let (run, _) = run.step(Event::SendFailed(other("net")));
    let (run, _) = run.step(Event::Slept);
    let (_, step) = run.step(Event::Acquired { id: 1 });
    assert_eq!(step.action, Action::EnsureProfile { id: 1 });
}

#[test]
fn profiles_and_endpoints_that_fail() {
    let run = Run::start(plan(API, RetryMode::Failover, 2));
    let (run, _) = run.step(Event::Acquired { id: 1 });
    let (run, _) = run.step(Event::Recorded { granted: true });
    let (_, step) = run.step(Event::ProfileFailed(other("p")));
    assert_eq!(step.action, Action::Done(Err(other("p"))));
    let run = Run::start(plan(CallKind::Mcp, RetryMode::Failover, 2));
    let (run, _) = run.step(Event::Acquired { id: 1 });
    let (run, _) = run.step(Event::Recorded { granted: true });
    let (_, step) = run.step(Event::EndpointUnknown(other("e")));
    assert_eq!(step.action, Action::Acquire);
    assert_eq!(step.report, Some(Report::Failure { id: 1 }));
}

#[test]
fn bad_requests_end_the_call() {
    for status in [400u16, 404, 422] {
        let run = Run::start(plan(API, RetryMode::Failover, 3)).to_execute(1, true, Vec::new());
        let (_, step) = run.refuse(status, facts());
        assert_eq!(step.action, Action::Done(Err(refused(API, Note::Plain, status))));
        assert_eq!(step.row.unwrap().outcome, Outcome::BadRequest);
        assert_eq!(step.report, None);
    }
}

#[test]
fn used_up_quotas_change_the_credential() {
    let mut f = facts();
    f.monthly_limit = true;
    let run = Run::start(plan(API, RetryMode::Failover, 3)).to_execute(1, true, Vec::new());
    let (run, step) = run.refuse(402, f);
    assert_eq!(step.action, Action::ReportQuotaExhausted { id: 1 });
    assert_eq!(step.row.unwrap().outcome, Outcome::QuotaExhausted);
    let (_, step) = run.step(Event::Availability(false));
    assert_eq!(step.action, Action::Done(Err(refused(API, Note::AllUsed, 402))));
    let run = Run::start(plan(API, RetryMode::Failover, 1)).to_execute(1, true, Vec::new());
    let (run, _) = run.refuse(402, f);
    let (_, step) = run.step(Event::Availability(true));
    assert_eq!(step.action, Action::Done(Err(refused(API, Note::Plain, 402))));
}

#[test]
fn suspended_accounts() {
    let mut f = facts();
    f.account_suspended = true;
    let run = Run::start(plan(API, RetryMode::Failover, 1)).to_execute(1, true, Vec::new());
    let (run, step) = run.refuse(403, f);
    assert_eq!(step.action, Action::ReportSuspended { id: 1 });
    assert_eq!(step.row.unwrap().outcome, Outcome::AccountSuspended);
    let (_, step) = run.step(Event::Availability(true));
    assert_eq!(step.action, Action::Done(Err(refused(API, Note::Suspended, 403))));
    f.suspended_detection = false;
    assert_eq!(classify_refusal(API, 403, &f), RefusalClass::Auth);
}

#[test]
fn a_token_is_refreshed_once_by_force() {
    let mut f = facts();
    f.bearer_invalid = true;
    let run = Run::start(plan(API, RetryMode::Failover, 3)).to_execute(1, true, Vec::new());
    let (run, step) = run.refuse(401, f);
    assert_eq!(step.action, Action::ForceRefresh { id: 1 });
    let (run, step) = run.step(Event::Refreshed(Ok(())));
    assert_eq!(step.action, Action::Acquire);
    let run = run.to_execute(1, true, Vec::new());
    let (_, step) = run.refuse(401, f);
    assert_eq!(step.action, Action::ReportFailure { id: 1 });
    assert_eq!(step.row.unwrap().outcome, Outcome::AuthFailed);
}

#[test]
fn a_forced_refresh_that_fails() {
    let mut f = facts();
    f.bearer_invalid = true;
    let limit = CallError::RateLimit(UpstreamRateLimitError::new(None));
    let run = Run::start(plan(API, RetryMode::Failover, 3)).to_execute(1, true, Vec::new());
    let (run, _) = run.refuse(401, f);
    let (_, step) = run.step(Event::Refreshed(Err(limit.clone())));
    assert_eq!(step.action, Action::Done(Err(limit)));
    let run = Run::start(plan(API, RetryMode::Failover, 3)).to_execute(1, true, Vec::new());
    let (run, _) = run.refuse(401, f);
    let (_, step) = run.step(Event::Refreshed(Err(other("x"))));
    assert_eq!(step.action, Action::ReportFailure { id: 1 });
}

#[test]
fn gateway_timeouts_end_chat_calls_only() {
    let run = Run::start(plan(API, RetryMode::Failover, 3)).to_execute(1, true, Vec::new());
    let (_, step) = run.refuse(524, facts());
    assert_eq!(step.action, Action::Done(Err(refused(API, Note::Plain, 524))));
    assert_eq!(classify_refusal(CallKind::Mcp, 524, &facts()), RefusalClass::Transient);
    let mut f = facts();
    f.gateway_timeout = true;
    assert_eq!(classify_refusal(API, 504, &f), RefusalClass::GatewayTimeout);
    f.validation_error = true;
    assert_eq!(classify_refusal(API, 500, &f), RefusalClass::BadRequest);
    assert_eq!(classify_refusal(CallKind::Mcp, 500, &f), RefusalClass::Transient);
}

#[test]
fn transient_answers_wait_by_the_policy() {
    let p = plan(API, RetryMode::Balanced, 3);
    let run = Run::start(p).to_execute(1, true, Vec::new());
    let (run, step) = run.refuse(503, facts());
    assert_eq!(step.action, Action::Sleep(retry_delay_policy(0, &p.policy)));
    let (run, _) = run.step(Event::Slept);
    assert_eq!(run.call.attempt(), 1);
}

#[test]
fn other_endpoints_are_tried_with_the_same_credential() {
    let chain = vec!["cli".to_string(), "x".to_string()];
    let run = Run::start(plan(API, RetryMode::Failover, 3)).to_execute(1, true, chain);
    let (run, step) = run.refuse(503, facts());
    assert_eq!(
        step.action,
        Action::TryFallback { id: 1, endpoint: "cli".to_string(), proxy: None }
    );
    let (run, step) = run.step(Event::FallbackFailed(other("net")));
    assert_eq!(
        step.action,
        Action::TryFallback { id: 1, endpoint: "x".to_string(), proxy: None }
    );
    let row = step.row.unwrap();
    assert_eq!(row.outcome, Outcome::NetworkError);
    assert_eq!(row.since, Since::Fallback);
    assert_eq!(row.endpoint.as_deref(), Some("cli"));
    let (_, step) = run.step(Event::FallbackAnswered { status: 200, body: String::new() });
    assert_eq!(step.action, Action::Done(Ok(1)));
    assert_eq!(step.report, Some(Report::Success { id: 1 }));
}

#[test]
fn a_429_changes_the_credential() {
    let run = Run::start(plan(API, RetryMode::Failover, 3)).to_execute(1, true, Vec::new());
    let (run, step) = run.refuse(429, facts());
    assert_eq!(step.action, Action::QueryAvailable);
    let (run, step) = run.step(Event::Availability(true));
    assert_eq!(step.action, Action::Acquire);
    assert_eq!(step.report, None);
    assert!(run.call.excluded().contains(&1));
    let run = run.to_execute(2, true, Vec::new());
    let (run, _) = run.refuse(429, facts());
    let (run, step) = run.step(Event::Availability(false));
    assert_eq!(step.action, Action::Sleep(retry_delay_throttle(1)));
    assert_eq!(run.call.excluded().len(), 1);
    assert!(run.call.excluded().contains(&2));
    let (run, _) = run.step(Event::Slept);
    let (_, step) = run.step(Event::AcquireFailed(other("none")));
    assert_eq!(
        step.action,
        Action::Done(Err(CallError::RateLimit(UpstreamRateLimitError::new(None))))
    );
}

#[test]
fn a_429_rests_the_credential_outside_the_default_mode() {
    let p = plan(CallKind::Mcp, RetryMode::Balanced, 3);
    let run = Run::start(p).to_execute(1, false, Vec::new());
    let (run, _) = run.refuse(429, facts());
    let (_, step) = run.step(Event::Availability(true));
    assert_eq!(
        step.report,
        Some(Report::RateLimited {
            id: 1,
            cooldown: Delay::from_millis(p.policy.rate_limit_cooldown_ms),
        })
    );
}

#[test]
fn a_wait_that_the_service_names_is_kept() {
    let limit = UpstreamRateLimitError::new(Some("90".to_string()));
    let run = Run::start(plan(API, RetryMode::Failover, 3)).to_execute(1, true, Vec::new());
    let (run, _) = run.step(Event::Answered(Answer {
        status: 429,
        retry_after: Some(Delay::from_secs(90)),
        rate_limit: limit.clone(),
        proxy: None,
    }));
    let (_, step) = run.step(Event::BodyRead { body: "b".to_string(), facts: facts() });
    assert_eq!(step.action, Action::Done(Err(CallError::RateLimit(limit))));
}

#[test]
fn throttled_accounts_rest() {
    let mut f = facts();
    f.account_throttled = true;
    let run = Run::start(plan(API, RetryMode::Failover, 3)).to_execute(1, true, Vec::new());
    let (run, step) = run.refuse(429, f);
    assert_eq!(step.action, Action::ReadThrottleSettings);
    assert_eq!(step.row.unwrap().outcome, Outcome::AccountThrottled);
    let (run, step) = run.step(Event::ThrottleSettings { failover: true, cooldown_secs: 0 });
    assert_eq!(step.action, Action::ReportThrottled { id: 1, cooldown_secs: 1 });
    let (_, step) = run.step(Event::Remaining(0));
    assert_eq!(
        step.action,
        Action::Done(Err(CallError::RateLimit(UpstreamRateLimitError::from_cooldown(1))))
    );
    let run = Run::start(plan(API, RetryMode::Failover, 3)).to_execute(1, true, Vec::new());
    let (run, _) = run.refuse(429, f);
    let (run, _) = run.step(Event::ThrottleSettings { failover: true, cooldown_secs: 1800 });
    let (_, step) = run.step(Event::Remaining(2));
    assert_eq!(step.action, Action::Acquire);
    let run = Run::start(plan(API, RetryMode::Failover, 3)).to_execute(1, true, Vec::new());
    let (run, _) = run.refuse(429, f);
    let (_, step) = run.step(Event::ThrottleSettings { failover: false, cooldown_secs: 1800 });
    assert_eq!(step.action, Action::Sleep(retry_delay_throttle(0)));
}

#[test]
fn anything_else_is_tried_again() {
    let run = Run::start(plan(API, RetryMode::Balanced, 3)).to_execute(1, true, Vec::new());
    let (_, step) = run.refuse(302, facts());
    assert_eq!(step.action, Action::Sleep(retry_delay(0)));
    assert_eq!(step.row.unwrap().outcome, Outcome::Unknown);
}

#[test]
fn other_endpoints_are_tried_through_the_same_proxy() {
    let proxy = Some(ProxyConfig::new("http://a:1"));
    let chain = vec!["cli".to_string(), "x".to_string()];
    let run = Run::start(plan(API, RetryMode::Failover, 3)).to_execute(1, true, chain);
    let (run, _) = run.step(Event::Answered(Answer {
        status: 503,
        retry_after: None,
        rate_limit: UpstreamRateLimitError::new(None),
        proxy: proxy.clone(),
    }));
    let (run, step) = run.step(Event::BodyRead { body: "b".to_string(), facts: facts() });
    assert_eq!(
        step.action,
        Action::TryFallback { id: 1, endpoint: "cli".to_string(), proxy: proxy.clone() }
    );
    let (_, step) = run.step(Event::FallbackFailed(other("net")));
    assert_eq!(step.action, Action::TryFallback { id: 1, endpoint: "x".to_string(), proxy });
}

#[test]
fn a_named_wait_may_still_be_retried_locally() {
    let limit = UpstreamRateLimitError::with_decision(Some("90".to_string()), true);
    let run = Run::start(plan(API, RetryMode::Failover, 3)).to_execute(1, true, Vec::new());
    let (run, _) = run.step(Event::Answered(Answer {
        status: 429,
        retry_after: None,
        rate_limit: limit,
        proxy: None,
    }));
    let (_, step) = run.step(Event::BodyRead { body: "b".to_string(), facts: facts() });
    assert_eq!(step.action, Action::QueryAvailable);
}

#[test]
fn traced_reasons_are_cut_to_a_limit() {
    assert_eq!(Detail::Nothing.snippet(4), None);
    assert_eq!(Detail::Body(String::new()).snippet(4), None);
    assert_eq!(Detail::Body("reason".to_string()).snippet(4).as_deref(), Some("reas"));
    assert_eq!(Detail::Error(other("network")).snippet(4).as_deref(), Some("netw"));
    assert_eq!(Detail::Error(other("net")).snippet(4).as_deref(), Some("net"));
}
