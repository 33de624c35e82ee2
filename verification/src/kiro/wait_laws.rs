//! How often and how long: the budget of a request, the waits between its attempts,
//! and what a `Retry-After` header asks for.

use vstd::arithmetic::power2::{lemma2_to64, lemma_pow2_unfold, pow2};
use vstd::prelude::*;

use crate::clock::{millis, span_until, Delay, Moment};
use crate::kiro::error::{account_limit, UpstreamRateLimitError};
use crate::kiro::retry::{
    backoff_does_not_shrink, backoff_spec, cooldown_429, jittered_spec, max_retries_spec,
    names_wait, policy_wait, retry_after_spec, retry_wait, status_wait, throttle_wait,
    CredentialSets, Ordinary429Outcome, Wait,
};
use crate::model::config::{RetryMode, RetryPolicy};
use crate::text::{decimal, digit_char, digits_value, is_digit, is_white, parse_u64_spec, trim};

verus! {

/// In the default mode a request has three attempts with one credential, and four with
/// more. In the others each credential adds the attempts of the policy, up to thirty.
pub proof fn the_budget_of_a_request(n: int, policy: RetryPolicy, mode: RetryMode)
    requires
        n >= 0,
    ensures
        max_retries_spec(0, RetryMode::Failover, policy) == 3,
        max_retries_spec(1, RetryMode::Failover, policy) == 3,
        n >= 2 ==> max_retries_spec(n, RetryMode::Failover, policy) == 4,
        mode != RetryMode::Failover ==> ({
            let k = (if n >= 1 {
                n
            } else {
                1
            }) * policy.max_request_retries;
            max_retries_spec(n, mode, policy) == (if k <= 30 {
                k
            } else {
                30
            })
        }),
{
}

/// The delay starts with its base, doubles with each of the first attempts, and is
/// bounded.
pub proof fn delays_double(base_ms: u64, max_ms: u64, attempt: nat)
    ensures
        base_ms <= max_ms ==> backoff_spec(base_ms, max_ms, 0) == base_ms,
        attempt < 6 && 2 * backoff_spec(base_ms, max_ms, attempt as int) <= max_ms ==> backoff_spec(
            base_ms,
            max_ms,
            attempt as int + 1,
        ) == 2 * backoff_spec(base_ms, max_ms, attempt as int),
        attempt < 6 && 2 * backoff_spec(base_ms, max_ms, attempt as int) > max_ms ==> backoff_spec(
            base_ms,
            max_ms,
            attempt as int + 1,
        ) == max_ms,
        attempt >= 6 ==> backoff_spec(base_ms, max_ms, attempt as int) == backoff_spec(
            base_ms,
            max_ms,
            6,
        ),
{
    lemma2_to64();
    assert(base_ms * pow2(0) == base_ms) by (nonlinear_arith)
        requires
            pow2(0) == 1,
    ;
    if attempt < 6 {
        lemma_pow2_unfold(attempt + 1);
        let p = pow2(attempt);
        let q = pow2(attempt + 1);
        assert(base_ms * q == 2 * (base_ms * p)) by (nonlinear_arith)
            requires
                q == 2 * p,
        ;
    }
}

/// The random part of a wait only adds to it: at most a quarter, or a millisecond.
pub proof fn jitter_adds_a_quarter(backoff: int, d: Delay)
    requires
        0 <= backoff <= 0xffff_ffff,
        jittered_spec(backoff).allows(d),
    ensures
        backoff * 1_000_000 <= d@,
        4 * d@ <= 5 * backoff * 1_000_000 + 4_000_000,
{
    match jittered_spec(backoff) {
        Wait::Jittered { base_ms, jitter_ms } => {
            let ms = choose|ms: u64|
                base_ms <= ms <= base_ms + jitter_ms && d == #[trigger] millis(ms);
            assert((ms / 1000) * 1000 + ms % 1000 == ms);
            assert(d@ == ms * 1_000_000);
        },
        Wait::Fixed(_) => {},
    }
}

/// A wait that is fixed is what it says.
pub proof fn a_fixed_wait_is_kept(d: Delay, other: Delay)
    ensures
        Wait::Fixed(d).allows(other) <==> other == d,
{
}

/// Which wait follows which answer: in the default mode a longer one after a 429;
/// otherwise what the service asks for after a 429, and what the policy says.
pub proof fn the_wait_fits_the_answer(
    status: u16,
    attempt: int,
    mode: RetryMode,
    policy: RetryPolicy,
    asked: Option<Delay>,
)
    ensures
        ({
            let w = status_wait(status, attempt, mode, policy, asked);
            &&& mode == RetryMode::Failover && status == 429 ==> w == throttle_wait(attempt)
            &&& mode == RetryMode::Failover && status != 429 ==> w == retry_wait(attempt)
            &&& mode != RetryMode::Failover && status == 429 && asked is Some ==> w == Wait::Fixed(
                asked->0,
            )
            &&& mode != RetryMode::Failover && (status != 429 || asked is None) ==> w
                == policy_wait(attempt, policy)
        }),
        retry_wait(attempt) == jittered_spec(backoff_spec(200, 2_000, attempt)),
        throttle_wait(attempt) == jittered_spec(backoff_spec(1_000, 8_000, attempt)),
        policy_wait(attempt, policy) == jittered_spec(
            backoff_spec(policy.base_backoff_ms, policy.max_backoff_ms, attempt),
        ),
{
}

/// The wait of a policy is never longer than its limit and a quarter of it.
pub proof fn policies_bound_their_waits(attempt: nat, policy: RetryPolicy, d: Delay)
    requires
        policy.base_backoff_ms <= policy.max_backoff_ms <= 120_000,
        policy_wait(attempt as int, policy).allows(d),
    ensures
        d@ >= policy.base_backoff_ms * 1_000_000,
        4 * d@ <= 5 * policy.max_backoff_ms * 1_000_000 + 4_000_000,
{
    backoff_does_not_shrink(policy.base_backoff_ms, policy.max_backoff_ms, 0, attempt);
    delays_double(policy.base_backoff_ms, policy.max_backoff_ms, 0);
    jitter_adds_a_quarter(
        backoff_spec(policy.base_backoff_ms, policy.max_backoff_ms, attempt as int),
        d,
    );
}

proof fn lemma_decimal_reads_back(n: nat)
    ensures
        decimal(n).len() > 0,
        digits_value(decimal(n)) == n,
        forall|i: int| 0 <= i < decimal(n).len() ==> is_digit(#[trigger] decimal(n)[i]),
        !is_white(decimal(n)[0]) && !is_white(decimal(n).last()),
    decreases n,
{
    reveal_with_fuel(digits_value, 2);
    if n < 10 {
        assert(decimal(n).drop_last() =~= Seq::<char>::empty());
    } else {
        lemma_decimal_reads_back(n / 10);
        let d = decimal(n);
        assert(d.drop_last() =~= decimal(n / 10));
        assert(d.last() == digit_char(n % 10));
        assert forall|i: int| 0 <= i < d.len() implies is_digit(#[trigger] d[i]) by {
            if i < d.len() - 1 {
                assert(d[i] == decimal(n / 10)[i]);
            }
        }
    }
}

/// A number of seconds in a header is waited for, whatever the clock shows and
/// whatever white space is around it.
pub proof fn seconds_are_waited_for(secs: u64, date: Option<u64>, at: Moment, value: Seq<char>)
    requires
        trim(value) == decimal(secs as nat),
    ensures
        retry_after_spec(value, date, at) == Some(Delay { secs, nanos: 0 }),
        parse_u64_spec(decimal(secs as nat)) == Some(secs),
        names_wait(value, date),
{
    lemma_decimal_reads_back(secs as nat);
    assert(is_digit(decimal(secs as nat)[0]));
}

/// A date in a header is waited for as long as it lies ahead.
pub proof fn a_date_is_waited_for(value: Seq<char>, secs: u64, at: Moment)
    requires
        parse_u64_spec(trim(value)) is None,
        at.wf(),
        !at.before_epoch,
    ensures
        retry_after_spec(value, None, at) is None,
        !names_wait(value, None),
        names_wait(value, Some(secs)),
        match retry_after_spec(value, Some(secs), at) {
            Some(d) => at@ <= secs * 1_000_000_000 && d@ == secs * 1_000_000_000 - at@,
            None => at@ > secs * 1_000_000_000,
        },
{
}

/// A wait and the clock at its start come to the moment that is waited for, before the
/// epoch as well.
pub proof fn a_span_reaches_its_end(secs: u64, from: Moment)
    requires
        from.wf(),
    ensures
        match span_until(secs, from) {
            Some(d) => d.nanos < 1_000_000_000 && (from@ + d@ == secs * 1_000_000_000 || d@
                == u64::MAX * 1_000_000_000 + 999_999_999),
            None => from@ > secs * 1_000_000_000,
        },
{
}

/// A 429 changes the credential in the default mode, or where the policy says so; and
/// where another is usable this one is passed over from then on.
pub proof fn a_429_passes_over_the_credential(
    sets: CredentialSets,
    id: u64,
    mode: RetryMode,
    policy: RetryPolicy,
    available: bool,
)
    ensures
        ({
            let changes = mode == RetryMode::Failover || policy.credential_switch_on_429;
            let after = sets.after_429(id, mode, policy, available);
            let outcome = CredentialSets::outcome_429(mode, policy, available);
            &&& outcome == Ordinary429Outcome::Switched <==> changes && available
            &&& outcome == Ordinary429Outcome::FailoverKeepCurrent <==> mode
                == RetryMode::Failover && !available
            &&& !changes ==> after == sets
            &&& changes && available ==> after.throttled == sets.throttled.insert(id)
            &&& changes && !available && mode == RetryMode::Failover ==> after.throttled
                == set![id]
            &&& changes && !available && mode != RetryMode::Failover ==> after.throttled
                == Set::<u64>::empty()
            &&& after.recorded == sets.recorded
            &&& after.refreshed == sets.refreshed
        }),
{
}

/// A credential rests beyond a request only outside the default mode, where a 429
/// changes it and another takes over: as long as the service asks, else as long as
/// the policy says.
pub proof fn a_credential_rests_where_another_takes_over(
    mode: RetryMode,
    policy: RetryPolicy,
    asked: Option<Delay>,
    available: bool,
)
    ensures
        ({
            let rest = cooldown_429(mode, policy, asked, available);
            &&& rest is Some <==> mode != RetryMode::Failover && policy.credential_switch_on_429
                && available
            &&& rest is Some && asked is Some ==> rest == asked
            &&& rest is Some && asked is None ==> rest->0@ == policy.rate_limit_cooldown_ms
                * 1_000_000
        }),
{
    let ms = policy.rate_limit_cooldown_ms;
    assert((ms / 1000) * 1000 + ms % 1000 == ms);
}

/// A use is recorded once for a request; a credential that is refused one is passed
/// over, and its use is not recorded.
pub proof fn a_use_is_recorded_once(sets: CredentialSets, id: u64)
    ensures
        sets.reserved(id, true).recorded == sets.recorded.insert(id),
        sets.reserved(id, true).throttled == sets.throttled,
        sets.recorded.contains(id) ==> sets.reserved(id, false) == sets,
        !sets.recorded.contains(id) ==> sets.reserved(id, false).recorded == sets.recorded
            && sets.reserved(id, false).throttled == sets.throttled.insert(id),
{
    assert(sets.recorded.contains(id) ==> sets.recorded =~= sets.recorded.insert(id));
}

/// The client is told the time that the service names, else the cooldown of the
/// account.
pub proof fn the_client_is_told_how_long(e: UpstreamRateLimitError, secs: u64)
    ensures
        e@ is Some ==> account_limit(Some(e), secs) == e,
        e@ is None ==> account_limit(Some(e), secs)@ == Some(decimal(secs as nat)),
        account_limit(None, secs)@ == Some(decimal(secs as nat)),
{
    crate::kiro::error::cooldown_error_tells_seconds(secs);
}

} // verus!
