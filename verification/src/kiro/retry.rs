//! The retry rules of a request: how often it is tried, how long to wait in
//! between, and which credentials it passes over.

use std::collections::HashSet;

use vstd::arithmetic::power2::{lemma2_to64, pow2};
use vstd::prelude::*;

use crate::clock::{millis, now, span_until, until, Delay, Moment};
use crate::kiro::error::UpstreamRateLimitError;
use crate::model::config::{RetryMode, RetryPolicy};
use crate::text::{parse_u64, parse_u64_spec, trim, trim_str};

verus! {

broadcast use {vstd::string::group_string_axioms, vstd::std_specs::hash::group_hash_axioms};

/// The attempts that each credential adds to the budget of the default mode.
pub const MAX_RETRIES_PER_CREDENTIAL: usize = 3;

/// The most attempts of a request in the default mode.
///
/// A 429 mostly means that the quota of an account is used up. When several
/// accounts are at their limit, more attempts would only run into it again.
pub const MAX_TOTAL_RETRIES: usize = 4;

/// The most attempts of a request in the other modes.
pub const MAX_POLICY_TOTAL_RETRIES: usize = 30;

pub open spec fn min_int(a: int, b: int) -> int {
    if a <= b {
        a
    } else {
        b
    }
}

pub open spec fn max_int(a: int, b: int) -> int {
    if a >= b {
        a
    } else {
        b
    }
}

/// The attempts of a request: so many for each usable credential, at least for
/// one, up to a limit.
pub open spec fn max_retries_spec(total: int, mode: RetryMode, policy: RetryPolicy) -> int {
    if mode == RetryMode::Failover {
        min_int(max_int(total, 1) * MAX_RETRIES_PER_CREDENTIAL, MAX_TOTAL_RETRIES as int)
    } else {
        min_int(max_int(total, 1) * policy.max_request_retries, MAX_POLICY_TOTAL_RETRIES as int)
    }
}

/// The attempts of a request.
pub fn max_retries(total_credentials: usize, mode: RetryMode, policy: &RetryPolicy) -> (r: usize)
    ensures
        r == max_retries_spec(total_credentials as int, mode, *policy),
        r <= MAX_POLICY_TOTAL_RETRIES,
{
    let total: usize = if total_credentials > 1 {
        total_credentials
    } else {
        1
    };
    let (each, cap): (usize, usize) = if mode == RetryMode::Failover {
        (MAX_RETRIES_PER_CREDENTIAL, MAX_TOTAL_RETRIES)
    } else {
        (policy.max_request_retries, MAX_POLICY_TOTAL_RETRIES)
    };
    match total.checked_mul(each) {
        Some(n) => if n < cap {
            n
        } else {
            cap
        },
        None => cap,
    }
}

/// How long to wait before the next attempt: a fixed time, or a time to which
/// a random part is added.
#[derive(Debug, Clone, Copy, PartialEq, Eq, Structural)]
pub enum Wait {
    Fixed(Delay),
    Jittered { base_ms: u64, jitter_ms: u64 },
}

impl Wait {
    /// The wait can come to `d`.
    pub open spec fn allows(self, d: Delay) -> bool {
        match self {
            Wait::Fixed(delay) => d == delay,
            Wait::Jittered { base_ms, jitter_ms } => exists|ms: u64|
                base_ms <= ms <= base_ms + jitter_ms && d == #[trigger] millis(ms),
        }
    }

    /// Draws the random part.
    pub fn draw(&self) -> (r: Delay)
        ensures
            self.allows(r),
    {
        match self {
            Wait::Fixed(delay) => *delay,
            Wait::Jittered { base_ms, jitter_ms } => {
                let jitter: u64 = random_up_to(*jitter_ms);
                let ms: u64 = base_ms.saturating_add(jitter);
                assert(*base_ms <= ms <= *base_ms + *jitter_ms);
                Delay::from_millis(ms)
            },
        }
    }
}

/// Draws a number with `fastrand::u64`, from zero up to and including `max`.
#[verifier::external_body]
fn random_up_to(max: u64) -> (r: u64)
    ensures
        r <= max,
{
    fastrand::u64(0..=max)
}

/// The delay before the attempt after number `attempt`: it doubles with each
/// attempt up to the sixth, and is at most `max_ms`.
pub open spec fn backoff_spec(base_ms: u64, max_ms: u64, attempt: int) -> int {
    min_int(base_ms * pow2(min_int(attempt, 6) as nat), max_ms as int)
}

/// A delay with up to a quarter of it, and at least a millisecond, on top.
pub open spec fn jittered_spec(backoff: int) -> Wait {
    Wait::Jittered { base_ms: backoff as u64, jitter_ms: max_int(backoff / 4, 1) as u64 }
}

fn backoff_ms(base_ms: u64, max_ms: u64, attempt: usize) -> (r: u64)
    ensures
        r == backoff_spec(base_ms, max_ms, attempt as int),
{
    proof {
        lemma2_to64();
    }
    let factor: u64 = if attempt == 0 {
        1
    } else if attempt == 1 {
        2
    } else if attempt == 2 {
        4
    } else if attempt == 3 {
        8
    } else if attempt == 4 {
        16
    } else if attempt == 5 {
        32
    } else {
        64
    };
    match base_ms.checked_mul(factor) {
        Some(ms) => if ms < max_ms {
            ms
        } else {
            max_ms
        },
        None => max_ms,
    }
}

fn jittered(backoff: u64) -> (r: Wait)
    ensures
        r == jittered_spec(backoff as int),
{
    let quarter: u64 = backoff / 4;
    Wait::Jittered {
        base_ms: backoff,
        jitter_ms: if quarter >= 1 {
            quarter
        } else {
            1
        },
    }
}

/// The wait after a network error or an unexpected answer.
pub open spec fn retry_wait(attempt: int) -> Wait {
    jittered_spec(backoff_spec(200, 2_000, attempt))
}

/// The wait after a transient error, by a policy.
pub open spec fn policy_wait(attempt: int, policy: RetryPolicy) -> Wait {
    jittered_spec(backoff_spec(policy.base_backoff_ms, policy.max_backoff_ms, attempt))
}

/// The wait after a 429 in the default mode: longer than the usual one, so
/// that the quota of the account can recover.
pub open spec fn throttle_wait(attempt: int) -> Wait {
    jittered_spec(backoff_spec(1_000, 8_000, attempt))
}

/// The wait after a transient answer.
pub open spec fn status_wait(
    status: u16,
    attempt: int,
    mode: RetryMode,
    policy: RetryPolicy,
    retry_after: Option<Delay>,
) -> Wait {
    if mode == RetryMode::Failover {
        if status == 429 {
            throttle_wait(attempt)
        } else {
            retry_wait(attempt)
        }
    } else if status == 429 && retry_after is Some {
        Wait::Fixed(retry_after->0)
    } else {
        policy_wait(attempt, policy)
    }
}

/// The wait after a network error or an unexpected answer.
pub fn retry_delay(attempt: usize) -> (r: Wait)
    ensures
        r == retry_wait(attempt as int),
{
    jittered(backoff_ms(200, 2_000, attempt))
}

/// The wait after a transient error, by a policy.
pub fn retry_delay_policy(attempt: usize, policy: &RetryPolicy) -> (r: Wait)
    ensures
        r == policy_wait(attempt as int, *policy),
{
    jittered(backoff_ms(policy.base_backoff_ms, policy.max_backoff_ms, attempt))
}

/// The wait after a 429 in the default mode.
pub fn retry_delay_throttle(attempt: usize) -> (r: Wait)
    ensures
        r == throttle_wait(attempt as int),
{
    jittered(backoff_ms(1_000, 8_000, attempt))
}

/// The wait after a transient answer.
pub fn retry_delay_for_status(
    status: u16,
    attempt: usize,
    mode: RetryMode,
    policy: &RetryPolicy,
    retry_after: Option<Delay>,
) -> (r: Wait)
    ensures
        r == status_wait(status, attempt as int, mode, *policy, retry_after),
{
    if mode == RetryMode::Failover {
        if status == 429 {
            retry_delay_throttle(attempt)
        } else {
            retry_delay(attempt)
        }
    } else {
        match retry_after {
            Some(d) => if status == 429 {
                Wait::Fixed(d)
            } else {
                retry_delay_policy(attempt, policy)
            },
            None => retry_delay_policy(attempt, policy),
        }
    }
}

/// The second since the Unix epoch that `httpdate::parse_http_date` reads a
/// text as.
pub uninterp spec fn http_date_secs(text: Seq<char>) -> Option<u64>;

/// Calls `httpdate::parse_http_date`, and hands out the date as the seconds
/// since the Unix epoch: the dates it accepts lie in the years 1970 to 9999,
/// and are full seconds. The result is named `http_date_secs`.
#[verifier::external_body]
fn parse_http_date(text: &str) -> (r: Option<u64>)
    ensures
        r == http_date_secs(text@),
{
    let date = httpdate::parse_http_date(text).ok()?;
    Some(date.duration_since(std::time::UNIX_EPOCH).ok()?.as_secs())
}

/// The wait that the value of a `Retry-After` header asks for at a given
/// moment: seconds, or the time up to a date that is not past.
pub open spec fn retry_after_spec(value: Seq<char>, date: Option<u64>, at: Moment) -> Option<
    Delay,
> {
    match parse_u64_spec(trim(value)) {
        Some(secs) => Some(Delay { secs, nanos: 0 }),
        None => match date {
            Some(secs) => span_until(secs, at),
            None => None,
        },
    }
}

/// The wait that the value of a `Retry-After` header asks for at a given
/// moment, where the value, trimmed, reads as `date`.
pub fn retry_after_at(value: &str, date: Option<u64>, at: Moment) -> (r: Option<Delay>)
    requires
        at.wf(),
    ensures
        r == retry_after_spec(value@, date, at),
{
    match parse_u64(trim_str(value)) {
        Some(secs) => Some(Delay::from_secs(secs)),
        None => match date {
            Some(secs) => until(secs, at),
            None => None,
        },
    }
}

/// The wait that the `Retry-After` header of an answer asks for now, where the
/// policy respects it.
pub fn retry_after_delay(header: Option<&str>, policy: &RetryPolicy) -> (r: Option<Delay>)
    ensures
        !policy.respect_retry_after || header is None ==> r is None,
        policy.respect_retry_after && header is Some ==> exists|at: Moment|
            at.wf() && r == #[trigger] retry_after_spec(
                header->0@,
                http_date_secs(trim(header->0@)),
                at,
            ),
{
    if !policy.respect_retry_after {
        return None;
    }
    match header {
        Some(value) => {
            let date = parse_http_date(trim_str(value));
            let at = now();
            retry_after_at(value, date, at)
        },
        None => None,
    }
}

/// The value of a `Retry-After` header, trimmed, that reads as `date`, names a
/// time to wait: a number of seconds, or a date.
pub open spec fn names_wait(value: Seq<char>, date: Option<u64>) -> bool {
    parse_u64_spec(trim(value)) is Some || date is Some
}

/// What an answer amounts to as a 429, where the value of its `Retry-After`
/// header, trimmed, reads as `date`. A value that names no time to wait counts as
/// none.
pub fn rate_limit_from(header: Option<&str>, date: Option<u64>) -> (r: UpstreamRateLimitError)
    ensures
        r@ == (match header {
            Some(value) => if names_wait(value@, date) {
                Some(trim(value@))
            } else {
                None
            },
            None => None,
        }),
        r.retries_locally() == (r@ is None),
{
    match header {
        Some(value) => {
            let value = trim_str(value);
            proof {
                crate::text::trim_idempotent(header->0@);
            }
            if parse_u64(value).is_some() || date.is_some() {
                UpstreamRateLimitError::new(Some(value.to_owned()))
            } else {
                UpstreamRateLimitError::new(None)
            }
        },
        None => UpstreamRateLimitError::new(None),
    }
}

/// What an answer with a given `Retry-After` header amounts to as a 429.
pub fn rate_limit_of(header: Option<&str>) -> (r: UpstreamRateLimitError)
    ensures
        r@ == (match header {
            Some(value) => if names_wait(value@, http_date_secs(trim(value@))) {
                Some(trim(value@))
            } else {
                None
            },
            None => None,
        }),
        r.retries_locally() == (r@ is None),
{
    let date = match header {
        Some(value) => parse_http_date(trim_str(value)),
        None => None,
    };
    rate_limit_from(header, date)
}

/// What becomes of the credential after an ordinary 429.
#[derive(Debug, Clone, Copy, PartialEq, Eq, Structural)]
pub enum Ordinary429Outcome {
    /// Another credential is usable; this one is passed over.
    Switched,
    /// None is left in the default mode: a new round begins, in which only this
    /// one is passed over.
    FailoverKeepCurrent,
    /// The credential stays.
    NotSwitched,
}

/// What a request remembers of the credentials across its attempts.
#[derive(Debug)]
pub struct CredentialRetryState {
    throttled_ids: HashSet<u64>,
    rpm_recorded: HashSet<u64>,
    force_refreshed: HashSet<u64>,
}

/// The sets of a [`CredentialRetryState`].
#[verifier::ext_equal]
pub struct CredentialSets {
    /// The credentials that the request passes over.
    pub throttled: Set<u64>,
    /// The credentials whose use was recorded for this request.
    pub recorded: Set<u64>,
    /// The credentials whose token was refreshed by force.
    pub refreshed: Set<u64>,
}

/// A 429 may change the credential.
pub open spec fn switches_on_429(mode: RetryMode, policy: RetryPolicy) -> bool {
    mode == RetryMode::Failover || policy.credential_switch_on_429
}

impl CredentialSets {
    /// After asking to record a use of `id`: a refused use is not recorded, and
    /// the credential is passed over.
    pub open spec fn reserved(self, id: u64, granted: bool) -> CredentialSets {
        if self.recorded.contains(id) {
            self
        } else if granted {
            CredentialSets { recorded: self.recorded.insert(id), ..self }
        } else {
            CredentialSets { throttled: self.throttled.insert(id), ..self }
        }
    }

    /// What an ordinary 429 of `id` comes to; `available` says whether another
    /// credential is usable beside it and those passed over.
    pub open spec fn outcome_429(
        mode: RetryMode,
        policy: RetryPolicy,
        available: bool,
    ) -> Ordinary429Outcome {
        if !switches_on_429(mode, policy) {
            Ordinary429Outcome::NotSwitched
        } else if available {
            Ordinary429Outcome::Switched
        } else if mode == RetryMode::Failover {
            Ordinary429Outcome::FailoverKeepCurrent
        } else {
            Ordinary429Outcome::NotSwitched
        }
    }

    /// The sets after an ordinary 429 of `id`.
    pub open spec fn after_429(
        self,
        id: u64,
        mode: RetryMode,
        policy: RetryPolicy,
        available: bool,
    ) -> CredentialSets {
        if !switches_on_429(mode, policy) {
            self
        } else if available {
            CredentialSets { throttled: self.throttled.insert(id), ..self }
        } else if mode == RetryMode::Failover {
            CredentialSets { throttled: set![id], ..self }
        } else {
            CredentialSets { throttled: Set::empty(), ..self }
        }
    }
}

/// The cooldown that an ordinary 429 puts on a credential beyond the request:
/// only outside the default mode, and where another credential takes over.
pub open spec fn cooldown_429(
    mode: RetryMode,
    policy: RetryPolicy,
    retry_after: Option<Delay>,
    available: bool,
) -> Option<Delay> {
    if mode != RetryMode::Failover && policy.credential_switch_on_429 && available {
        match retry_after {
            Some(d) => Some(d),
            None => Some(millis(policy.rate_limit_cooldown_ms)),
        }
    } else {
        None
    }
}

impl CredentialRetryState {
    pub closed spec fn view(&self) -> CredentialSets {
        CredentialSets {
            throttled: self.throttled_ids@,
            recorded: self.rpm_recorded@,
            refreshed: self.force_refreshed@,
        }
    }

    /// The state at the start of a request.
    pub fn new() -> (r: Self)
        ensures
            r@ == (CredentialSets {
                throttled: Set::empty(),
                recorded: Set::empty(),
                refreshed: Set::empty(),
            }),
    {
        CredentialRetryState {
            throttled_ids: HashSet::new(),
            rpm_recorded: HashSet::new(),
            force_refreshed: HashSet::new(),
        }
    }

    /// The credentials that the request passes over.
    pub fn throttled_ids(&self) -> (r: &HashSet<u64>)
        ensures
            r@ == self@.throttled,
    {
        &self.throttled_ids
    }

    /// Tests whether a use of the credential was recorded for this request.
    pub fn is_recorded(&self, id: u64) -> (r: bool)
        ensures
            r == self@.recorded.contains(id),
    {
        self.rpm_recorded.contains(&id)
    }

    /// Tests whether the token of the credential was refreshed by force.
    pub fn is_refreshed(&self, id: u64) -> (r: bool)
        ensures
            r == self@.refreshed.contains(id),
    {
        self.force_refreshed.contains(&id)
    }

    /// Notes that the token of the credential is refreshed by force.
    pub fn mark_refreshed(&mut self, id: u64)
        ensures
            final(self)@ == (CredentialSets {
                refreshed: old(self)@.refreshed.insert(id),
                ..old(self)@
            }),
    {
        self.force_refreshed.insert(id);
    }

    /// Passes over a credential from now on.
    pub fn exclude(&mut self, id: u64)
        ensures
            final(self)@ == (CredentialSets {
                throttled: old(self)@.throttled.insert(id),
                ..old(self)@
            }),
    {
        self.throttled_ids.insert(id);
    }

    /// Takes the credential into use. Its use is recorded once for a request;
    /// `granted` says whether the pool recorded it, and counts only the first
    /// time. A credential that was refused is passed over.
    pub fn reserve_rpm(&mut self, id: u64, granted: bool) -> (r: bool)
        ensures
            r == (old(self)@.recorded.contains(id) || granted),
            final(self)@ == old(self)@.reserved(id, granted),
    {
        if self.rpm_recorded.contains(&id) {
            return true;
        }
        if granted {
            self.rpm_recorded.insert(id);
            true
        } else {
            self.throttled_ids.insert(id);
            false
        }
    }

    /// Decides on the credential after an ordinary 429. `available` says whether
    /// the pool has a usable credential other than this one and those passed
    /// over. The cooldown, if any, is for the pool to apply.
    pub fn switch_credential_on_ordinary_429(
        &mut self,
        credential_id: u64,
        retry_mode: RetryMode,
        retry_policy: &RetryPolicy,
        retry_after: Option<Delay>,
        available: bool,
    ) -> (r: (Ordinary429Outcome, Option<Delay>))
        ensures
            r.0 == CredentialSets::outcome_429(retry_mode, *retry_policy, available),
            r.1 == cooldown_429(retry_mode, *retry_policy, retry_after, available),
            final(self)@ == old(self)@.after_429(
                credential_id,
                retry_mode,
                *retry_policy,
                available,
            ),
    {
        if !(retry_mode == RetryMode::Failover || retry_policy.credential_switch_on_429) {
            return (Ordinary429Outcome::NotSwitched, None);
        }
        if available {
            self.throttled_ids.insert(credential_id);
            let cooldown = if retry_mode == RetryMode::Failover {
                None
            } else {
                match retry_after {
                    Some(d) => Some(d),
                    None => Some(Delay::from_millis(retry_policy.rate_limit_cooldown_ms)),
                }
            };
            return (Ordinary429Outcome::Switched, cooldown);
        }
        self.throttled_ids.clear();
        if retry_mode == RetryMode::Failover {
            self.throttled_ids.insert(credential_id);
            (Ordinary429Outcome::FailoverKeepCurrent, None)
        } else {
            (Ordinary429Outcome::NotSwitched, None)
        }
    }
}

/// The budget of a request has an attempt, if its policy is a valid one, and
/// never more than the limits.
pub proof fn budget_is_bounded(total: nat, mode: RetryMode, policy: RetryPolicy)
    requires
        crate::model::config::policy_fault(policy) is None,
    ensures
        1 <= max_retries_spec(total as int, mode, policy) <= MAX_POLICY_TOTAL_RETRIES,
        mode == RetryMode::Failover ==> max_retries_spec(total as int, mode, policy)
            <= MAX_TOTAL_RETRIES,
{
    let n = max_int(total as int, 1);
    let k = policy.max_request_retries as int;
    assert(n * k >= 1) by (nonlinear_arith)
        requires
            n >= 1,
            k >= 1,
    ;
}

proof fn lemma_pow2_grows(a: nat, b: nat)
    requires
        a <= b,
    ensures
        pow2(a) <= pow2(b),
{
    if a < b {
        vstd::arithmetic::power2::lemma_pow2_strictly_increases(a, b);
    }
}

/// The delay before an attempt is never shorter than the one before it, nor longer
/// than its limit.
pub proof fn backoff_does_not_shrink(base_ms: u64, max_ms: u64, a: nat, b: nat)
    requires
        a <= b,
    ensures
        backoff_spec(base_ms, max_ms, a as int) <= backoff_spec(base_ms, max_ms, b as int)
            <= max_ms,
{
    let x = min_int(a as int, 6) as nat;
    let y = min_int(b as int, 6) as nat;
    lemma_pow2_grows(x, y);
    let p = pow2(x);
    let q = pow2(y);
    assert(base_ms * p <= base_ms * q) by (nonlinear_arith)
        requires
            p <= q,
    ;
}

proof fn lemma_first_backoff(base_ms: u64, max_ms: u64, attempt: nat)
    requires
        base_ms <= max_ms,
    ensures
        base_ms <= backoff_spec(base_ms, max_ms, attempt as int) <= max_ms,
{
    lemma2_to64();
    let one = pow2(0);
    assert(base_ms * one == base_ms) by (nonlinear_arith)
        requires
            one == 1,
    ;
    backoff_does_not_shrink(base_ms, max_ms, 0, attempt);
}

/// The wait before another attempt is between a fifth of a second and two and a
/// half, and after a 429 in the default mode between one second and ten.
pub proof fn waits_are_bounded(attempt: nat, d: Delay)
    ensures
        retry_wait(attempt as int).allows(d) ==> 200_000_000 <= d@ <= 2_500_000_000,
        throttle_wait(attempt as int).allows(d) ==> 1_000_000_000 <= d@ <= 10_000_000_000,
{
    lemma_first_backoff(200, 2_000, attempt);
    lemma_first_backoff(1_000, 8_000, attempt);
}

/// The wait after a 429 in the default mode is longer than the usual wait after
/// the same attempt, whatever the random parts of both come to.
pub proof fn throttled_waits_are_longer(attempt: nat, usual: Delay, throttled: Delay)
    requires
        retry_wait(attempt as int).allows(usual),
        throttle_wait(attempt as int).allows(throttled),
    ensures
        usual@ < throttled@,
{
    lemma2_to64();
    waits_are_bounded(attempt, usual);
    if attempt >= 3 {
        backoff_does_not_shrink(1_000, 8_000, 3, attempt);
        assert(backoff_spec(1_000, 8_000, 3) == 8_000);
    } else if attempt == 2 {
        assert(backoff_spec(200, 2_000, 2) == 800);
        assert(backoff_spec(1_000, 8_000, 2) == 4_000);
    } else if attempt == 1 {
        assert(backoff_spec(200, 2_000, 1) == 400);
        assert(backoff_spec(1_000, 8_000, 1) == 2_000);
    } else {
        assert(backoff_spec(200, 2_000, 0) == 200);
        assert(backoff_spec(1_000, 8_000, 0) == 1_000);
    }
}

} // verus!
