//! What holds of the settings for retries.

use vstd::prelude::*;

use crate::model::config::{
    mode_name, named_mode, policy_fault, preset_policy, selected_policy, RetryMode, RetryPolicy,
};

verus! {

broadcast use vstd::string::group_string_axioms;

/// A mode goes by its name, and the default mode by two others as well. No other text
/// names a mode.
pub proof fn modes_go_by_their_names(text: Seq<char>)
    ensures
        mode_name(RetryMode::Failover) == "failover"@,
        mode_name(RetryMode::Turbo) == "turbo"@,
        mode_name(RetryMode::Fast) == "fast"@,
        mode_name(RetryMode::Balanced) == "balanced"@,
        mode_name(RetryMode::Steady) == "steady"@,
        mode_name(RetryMode::Polite) == "polite"@,
        mode_name(RetryMode::Custom) == "custom"@,
        named_mode("current"@) == Some(RetryMode::Failover),
        named_mode("default"@) == Some(RetryMode::Failover),
        named_mode(text) matches Some(mode) ==> text == mode_name(mode) || (mode
            == RetryMode::Failover && (text == "current"@ || text == "default"@)),
{
}

/// A policy is refused exactly where it breaks a bound: a cooldown of up to two
/// minutes, between one and thirty retries, a first delay between fifty milliseconds and
/// half a minute, and a longest one between that and two minutes.
pub proof fn policies_are_bounded(p: RetryPolicy)
    ensures
        policy_fault(p) is None <==> {
            &&& p.rate_limit_cooldown_ms <= 120_000
            &&& 1 <= p.max_request_retries <= 30
            &&& 50 <= p.base_backoff_ms <= 30_000
            &&& p.base_backoff_ms <= p.max_backoff_ms
            &&& p.max_backoff_ms <= 120_000
        },
        p.rate_limit_cooldown_ms > 120_000 ==> policy_fault(p) == Some(
            "rateLimitCooldownMs 必须在 0..=120000 之间"@,
        ),
        p.rate_limit_cooldown_ms <= 120_000 && (p.max_request_retries < 1 || p.max_request_retries
            > 30) ==> policy_fault(p) == Some("maxRequestRetries 必须在 1..=30 之间"@),
        p.rate_limit_cooldown_ms <= 120_000 && 1 <= p.max_request_retries <= 30 && (
        p.base_backoff_ms < 50 || p.base_backoff_ms > 30_000) ==> policy_fault(p) == Some(
            "baseBackoffMs 必须在 50..=30000 之间"@,
        ),
        p.rate_limit_cooldown_ms <= 120_000 && 1 <= p.max_request_retries <= 30 && 50
            <= p.base_backoff_ms <= 30_000 && (p.max_backoff_ms < p.base_backoff_ms
            || p.max_backoff_ms > 120_000) ==> policy_fault(p) == Some(
            "maxBackoffMs 必须在 baseBackoffMs..=120000 之间"@,
        ),
{
}

/// A policy of one's own counts in the mode for it, and in no other.
pub proof fn a_policy_of_ones_own_has_its_mode(mode: RetryMode, custom: RetryPolicy)
    ensures
        selected_policy(RetryMode::Custom, Some(custom)) == custom,
        selected_policy(RetryMode::Custom, None) == preset_policy(RetryMode::Fast),
        mode != RetryMode::Custom ==> selected_policy(mode, Some(custom)) == preset_policy(mode),
        selected_policy(mode, None) == preset_policy(mode),
{
}

/// The modes are ordered from the most eager to the most patient: each waits at least
/// as long as the one before it, and tries at most as often.
pub proof fn modes_grow_patient()
    ensures
        ({
            let turbo = preset_policy(RetryMode::Turbo);
            let fast = preset_policy(RetryMode::Fast);
            let balanced = preset_policy(RetryMode::Balanced);
            let steady = preset_policy(RetryMode::Steady);
            let polite = preset_policy(RetryMode::Polite);
            &&& 0 < turbo.base_backoff_ms < fast.base_backoff_ms < balanced.base_backoff_ms
                < steady.base_backoff_ms < polite.base_backoff_ms
            &&& turbo.max_backoff_ms < fast.max_backoff_ms < balanced.max_backoff_ms
                < steady.max_backoff_ms < polite.max_backoff_ms
            &&& turbo.rate_limit_cooldown_ms < fast.rate_limit_cooldown_ms
                < balanced.rate_limit_cooldown_ms < steady.rate_limit_cooldown_ms
                < polite.rate_limit_cooldown_ms
            &&& turbo.max_request_retries > fast.max_request_retries >= balanced.max_request_retries
                > steady.max_request_retries > polite.max_request_retries
            &&& !turbo.respect_retry_after && !fast.respect_retry_after
                && !balanced.respect_retry_after
            &&& steady.respect_retry_after && polite.respect_retry_after
            &&& !polite.credential_switch_on_429
        }),
        preset_policy(RetryMode::Failover).rate_limit_cooldown_ms == 0,
        forall|mode: RetryMode|
            mode != RetryMode::Polite ==> (#[trigger] preset_policy(mode)).credential_switch_on_429,
        preset_policy(RetryMode::Custom) == preset_policy(RetryMode::Fast),
{
}

} // verus!
