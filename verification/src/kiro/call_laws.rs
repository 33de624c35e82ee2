//! What holds of every call, however its attempts come out.

use vstd::prelude::*;

use crate::kiro::call::{
    account_throttled, is_success, is_transient, next_step, refusal_class, Action, Answer,
    BodyFacts, CallState, Event, Phase, Refusal, RefusalClass, Report, Step,
};
use crate::kiro::error::{CallError, CallKind, UpstreamRateLimitError};
use crate::model::config::RetryMode;

verus! {

/// How far a call is within its attempt: the more, the further from its end.
pub open spec fn phase_rank(phase: Phase) -> nat {
    match phase {
        Phase::Acquire => 12,
        Phase::Reserve { .. } => 11,
        Phase::Profile { .. } => 10,
        Phase::Endpoint { .. } => 9,
        Phase::Execute { .. } => 8,
        Phase::Body { .. } => 7,
        Phase::Fallback { .. } => 6,
        Phase::Switch { .. } => 5,
        Phase::Settings { .. } => 4,
        Phase::Throttle { .. } => 3,
        Phase::Refresh { .. } => 3,
        Phase::Report { .. } => 2,
        Phase::Sleep => 1,
        Phase::Over => 0,
    }
}

/// The endpoints that are still to be fallen back to.
pub open spec fn fallbacks_left(phase: Phase) -> nat {
    match phase {
        Phase::Fallback { refusal, account_throttled, fallbacks, next } => (fallbacks@.len()
            - next) as nat,
        _ => 0,
    }
}

/// `t` is nearer to its end than `s`: it has fewer attempts left, or is further
/// on in the same attempt.
pub open spec fn nearer(t: CallState, s: CallState) -> bool {
    ||| t.phase is Over && !(s.phase is Over)
    ||| t.attempt > s.attempt
    ||| t.attempt == s.attempt && phase_rank(t.phase) < phase_rank(s.phase)
    ||| t.attempt == s.attempt && t.phase is Fallback && s.phase is Fallback && fallbacks_left(
        t.phase,
    ) < fallbacks_left(s.phase)
}

/// What every part of a step keeps: `n` continues `s`, and ends in a phase of
/// at most a given rank unless the attempt is over.
spec fn kept(s: CallState, n: (CallState, Action), rank: nat) -> bool {
    &&& n.0.wf()
    &&& n.0.plan == s.plan
    &&& n.1 is Done <==> n.0.phase is Over
    &&& s.attempt <= n.0.attempt <= s.attempt + 1
    &&& n.1 is Acquire <==> n.0.attempt == s.attempt + 1
    &&& n.1 is Acquire <==> n.0.phase is Acquire
    &&& n.0.phase is Over || n.0.attempt > s.attempt || phase_rank(n.0.phase) <= rank
    &&& s.sets.recorded.subset_of(n.0.sets.recorded)
    &&& s.sets.refreshed.subset_of(n.0.sets.refreshed)
    &&& n.1 matches Action::ForceRefresh { id } ==> !s.sets.refreshed.contains(id)
        && n.0.sets.refreshed.contains(id)
    &&& n.1 matches Action::RecordRequest { id } ==> !s.sets.recorded.contains(id)
}

proof fn lemma_settle(s: CallState, refusal: Refusal, throttled: bool)
    requires
        s.attempt < s.plan.max_retries,
    ensures
        kept(s, s.transient(refusal), 1),
        refusal.answer.status == 429 ==> kept(s, s.unswitched(refusal), 4),
        kept(s, s.settle(refusal, throttled), 5),
{
}

proof fn lemma_fall_back(
    s: CallState,
    refusal: Refusal,
    throttled: bool,
    fallbacks: Vec<String>,
    next: int,
)
    requires
        s.attempt < s.plan.max_retries,
        is_transient(refusal.answer.status),
        0 <= next,
    ensures
        kept(s, s.fall_back(refusal, throttled, fallbacks, next), 6),
        s.fall_back(refusal, throttled, fallbacks, next).0.phase is Fallback ==> fallbacks_left(
            s.fall_back(refusal, throttled, fallbacks, next).0.phase,
        ) == fallbacks@.len() - next,
{
    lemma_settle(s, refusal, throttled);
    assert(fallbacks.len() == fallbacks@.len());
}

proof fn lemma_refusal_read(
    s: CallState,
    refusal: Refusal,
    fallbacks: Vec<String>,
    facts: BodyFacts,
)
    requires
        s.attempt < s.plan.max_retries,
    ensures
        kept(s, s.refusal_read(refusal, fallbacks, facts), 6),
{
    let status = refusal.answer.status;
    if refusal_class(s.plan.kind, status, facts) == RefusalClass::Transient {
        lemma_settle(s, refusal, false);
        lemma_fall_back(s, refusal, account_throttled(refusal, facts), fallbacks, 0);
    }
}

proof fn lemma_step(s: CallState, e: Event)
    requires
        s.wf(),
        next_step(s, e) is Some,
    ensures
        !(s.phase is Over),
        ({
            let next = next_step(s, e)->Some_0;
            &&& kept(s, (next.0, next.1.action), phase_rank(s.phase))
            &&& nearer(next.0, s)
        }),
{
    reveal(next_step);
    match (s.phase, e) {
        (Phase::Body { id, endpoint, fallbacks, answer }, Event::BodyRead { body, facts }) => {
            let refusal = Refusal {
                id,
                answer,
                body,
                throttled: facts.account_throttled && s.plan.kind != CallKind::Mcp,
            };
            lemma_refusal_read(s, refusal, fallbacks, facts);
        },
        (Phase::Fallback { refusal, account_throttled, fallbacks, next }, _) => {
            lemma_fall_back(s, refusal, account_throttled, fallbacks, next + 1);
        },
        (Phase::Switch { refusal }, Event::Availability(available)) => {
            let t = CallState {
                sets: s.sets.after_429(refusal.id, s.plan.mode, s.plan.policy, available),
                ..s
            };
            lemma_settle(t, refusal, false);
        },
        (Phase::Settings { refusal }, _) => {
            lemma_settle(s, refusal, false);
        },
        _ => {},
    }
}

/// Every step brings a call nearer to its end, and keeps its plan and what
/// holds of it. A call is over exactly when its step says so, and then takes no
/// event any more.
pub proof fn every_step_makes_progress(s: CallState, e: Event)
    requires
        s.wf(),
    ensures
        s.phase is Over ==> next_step(s, e) is None,
        next_step(s, e) matches Some(next) ==> {
            &&& next.0.wf()
            &&& next.0.plan == s.plan
            &&& nearer(next.0, s)
            &&& next.1.action is Done <==> next.0.phase is Over
            &&& s.attempt <= next.0.attempt <= s.attempt + 1
            &&& next.1.action is Acquire <==> next.0.attempt == s.attempt + 1
            &&& next.1.action is Acquire <==> next.0.phase is Acquire
        },
{
    if next_step(s, e) is Some {
        lemma_step(s, e);
    }
}

/// The steps of a call over a sequence of events, each of which it waits for.
pub open spec fn run(s: CallState, events: Seq<Event>) -> Option<(CallState, Seq<Step>)>
    decreases events.len(),
{
    if events.len() == 0 {
        Some((s, Seq::empty()))
    } else {
        match next_step(s, events[0]) {
            Some(next) => match run(next.0, events.drop_first()) {
                Some(rest) => Some((rest.0, seq![next.1] + rest.1)),
                None => None,
            },
            None => None,
        }
    }
}

/// How often a credential is chosen over a sequence of steps.
pub open spec fn acquires(steps: Seq<Step>) -> nat
    decreases steps.len(),
{
    if steps.len() == 0 {
        0
    } else {
        acquires(steps.drop_first()) + (if steps[0].action is Acquire {
            1nat
        } else {
            0
        })
    }
}

/// How often the token of a credential is refreshed by force over a sequence of
/// steps.
pub open spec fn refreshes(steps: Seq<Step>, id: u64) -> nat
    decreases steps.len(),
{
    if steps.len() == 0 {
        0
    } else {
        refreshes(steps.drop_first(), id) + (if steps[0].action == (Action::ForceRefresh { id }) {
            1nat
        } else {
            0
        })
    }
}

/// However a call goes on, it chooses a credential at most as often as its
/// budget has attempts left.
pub proof fn attempts_stay_within_budget(s: CallState, events: Seq<Event>)
    requires
        s.wf(),
        run(s, events) is Some,
    ensures
        acquires(run(s, events)->Some_0.1) == run(s, events)->Some_0.0.attempt - s.attempt,
        run(s, events)->Some_0.0.wf(),
        s.attempt < s.plan.max_retries ==> s.attempt + acquires(run(s, events)->Some_0.1)
            < s.plan.max_retries,
    decreases events.len(),
{
    if events.len() > 0 {
        every_step_makes_progress(s, events[0]);
        let next = next_step(s, events[0])->0;
        attempts_stay_within_budget(next.0, events.drop_first());
        let rest = run(next.0, events.drop_first())->0;
        assert((seq![next.1] + rest.1).drop_first() =~= rest.1);
        if next.0.attempt >= next.0.plan.max_retries {
            assert(next.0.phase is Over);
            if events.drop_first().len() > 0 {
                every_step_makes_progress(next.0, events.drop_first()[0]);
            }
        }
    }
}

/// However a call goes on, it refreshes the token of a credential by force at
/// most once.
pub proof fn one_forced_refresh_per_credential(s: CallState, events: Seq<Event>, id: u64)
    requires
        s.wf(),
        run(s, events) is Some,
    ensures
        refreshes(run(s, events)->Some_0.1, id) <= 1,
        s.sets.refreshed.contains(id) ==> refreshes(run(s, events)->Some_0.1, id) == 0,
    decreases events.len(),
{
    if events.len() > 0 {
        lemma_step(s, events[0]);
        let next = next_step(s, events[0])->0;
        one_forced_refresh_per_credential(next.0, events.drop_first(), id);
        let rest = run(next.0, events.drop_first())->0;
        assert((seq![next.1] + rest.1).drop_first() =~= rest.1);
    }
}

/// Once a use of a credential is recorded for a call, it stays so, and the pool
/// is not asked again.
pub proof fn uses_are_recorded_once(s: CallState, e: Event, id: u64)
    requires
        s.wf(),
        s.sets.recorded.contains(id),
        next_step(s, e) is Some,
    ensures
        next_step(s, e)->Some_0.0.sets.recorded.contains(id),
        next_step(s, e)->Some_0.1.action != (Action::RecordRequest { id }),
{
    lemma_step(s, e);
}

/// A 429 that the client is to hear of is not tried again: no attempt follows
/// it, and the time to wait that it names is the one that the client is told.
pub proof fn a_named_wait_is_kept(s: CallState, e: Event, refusal: Refusal)
    requires
        s.wf(),
        refusal.answer.status == 429,
        !refusal.answer.rate_limit.retries_locally(),
        match s.phase {
            Phase::Fallback { refusal: r, .. } => r == refusal,
            Phase::Switch { refusal: r } => r == refusal,
            Phase::Settings { refusal: r } => r == refusal,
            Phase::Throttle { refusal: r, .. } => r == refusal,
            _ => false,
        },
        next_step(s, e) is Some,
    ensures
        !(next_step(s, e)->Some_0.0.phase is Acquire),
        !(next_step(s, e)->Some_0.0.phase is Sleep),
        next_step(s, e)->Some_0.1.action matches Action::Done(Err(error)) ==> error is RateLimit
            && (refusal.answer.rate_limit@ is Some ==> error == CallError::RateLimit(
            refusal.answer.rate_limit,
        )),
{
    reveal(next_step);
}

/// A 429 of an earlier attempt goes to the client when no credential can be
/// chosen any more for another reason.
pub proof fn an_earlier_429_wins(s: CallState, earlier: UpstreamRateLimitError, e: CallError)
    requires
        s.phase == Phase::Acquire,
        s.last_error == Some(CallError::RateLimit(earlier)),
        !(e is RateLimit),
    ensures
        next_step(s, Event::AcquireFailed(e)) matches Some(next) && next.1.action == Action::Done(
            Err(CallError::RateLimit(earlier)),
        ),
{
    reveal(next_step);
}

/// A refusal for which the request itself is at fault ends the call, and is not
/// held against the credential.
pub proof fn bad_requests_are_not_retried(s: CallState, body: String, facts: BodyFacts)
    requires
        s.phase is Body,
        refusal_class(s.plan.kind, s.phase->Body_answer.status, facts) == RefusalClass::BadRequest,
    ensures
        next_step(s, Event::BodyRead { body, facts }) matches Some(next) && next.1.report is None
            && next.1.action is Done && next.0.sets == s.sets,
{
    reveal(next_step);
}

/// A request that could not be sent is not held against the credential.
pub proof fn network_errors_leave_credentials_alone(s: CallState, e: CallError)
    requires
        s.wf(),
        s.phase is Execute,
    ensures
        next_step(s, Event::SendFailed(e)) matches Some(next) && next.1.report is None
            && next.0.sets == s.sets && next.0.last_error == Some(e) && !(
        next.1.action is ReportFailure),
{
    reveal(next_step);
}

/// Another endpoint is tried with the credential at hand and through the proxy
/// that the answer came through, within the attempt.
pub proof fn fallbacks_keep_the_credential(s: CallState, e: Event)
    requires
        s.wf(),
        next_step(s, e) is Some,
    ensures
        next_step(s, e)->Some_0.1.action matches Action::TryFallback { id, endpoint, proxy } ==> {
            &&& next_step(s, e)->Some_0.0.attempt == s.attempt
            &&& next_step(s, e)->Some_0.0.sets == s.sets
            &&& match s.phase {
                Phase::Body { id: used, answer, .. } => id == used && proxy == answer.proxy,
                Phase::Fallback { refusal, .. } => id == refusal.id && proxy
                    == refusal.answer.proxy,
                _ => false,
            }
        },
{
    reveal(next_step);
}

/// A transient refusal is not held against the credential: neither that it
/// failed, nor that its quota is used up, nor that its account is suspended.
pub proof fn transient_refusals_leave_credentials_alone(
    s: CallState,
    body: String,
    facts: BodyFacts,
)
    requires
        s.wf(),
        s.phase is Body,
        refusal_class(s.plan.kind, s.phase->Body_answer.status, facts) == RefusalClass::Transient,
    ensures
        next_step(s, Event::BodyRead { body, facts }) matches Some(next) && next.1.report is None
            && !(next.1.action is ReportFailure) && !(next.1.action is ReportQuotaExhausted) && !(
        next.1.action is ReportSuspended),
{
    reveal(next_step);
}

/// In the default mode no credential is sent to rest for an ordinary 429.
pub proof fn the_default_mode_rests_no_credential(s: CallState, e: Event)
    requires
        s.plan.mode == RetryMode::Failover,
        next_step(s, e) is Some,
    ensures
        !(next_step(s, e)->Some_0.1.report matches Some(Report::RateLimited { .. })),
{
    reveal(next_step);
}

/// The refusal of an endpoint is traced before another endpoint is tried, and
/// each endpoint that is tried is traced before the next.
pub proof fn endpoints_are_traced_in_order(s: CallState, e: Event)
    requires
        s.wf(),
        next_step(s, e) is Some,
        next_step(s, e)->Some_0.1.action is TryFallback,
    ensures
        next_step(s, e)->Some_0.1.row matches Some(row) && row.attempt == s.attempt
            && match s.phase {
            Phase::Body { endpoint, answer, .. } => row.endpoint == Some(endpoint)
                && row.http_status == Some(answer.status),
            Phase::Fallback { fallbacks, next, .. } => row.endpoint == Some(
                fallbacks@[next as int],
            ),
            _ => false,
        },
{
    reveal(next_step);
}

/// An answer of 2xx ends a call, and the credential that it was made with is
/// handed out.
pub proof fn a_served_call_is_over(s: CallState, answer: Answer)
    requires
        s.phase is Execute,
        is_success(answer.status),
    ensures
        next_step(s, Event::Answered(answer)) matches Some(next) && next.1.action == Action::Done(
            Ok(s.phase->Execute_id),
        ),
{
    reveal(next_step);
}

} // verus!
