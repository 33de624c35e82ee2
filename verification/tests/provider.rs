use std::collections::HashSet;

use kiro_gateway::clock::Delay;
use kiro_gateway::kiro::error::{
    account_rate_limit_with_fallback, handle_force_refresh_result, is_rate_limit_error,
    take_rate_limit_error, CallError, UpstreamRateLimitError,
};
use kiro_gateway::kiro::retry::{CredentialRetryState, Ordinary429Outcome};
use kiro_gateway::model::config::{RetryMode, RetryPolicy};

#[test]
fn preserves_typed_rate_limit_when_later_credential_selection_fails() {
    let mut last_error =
        Some(CallError::RateLimit(UpstreamRateLimitError::new(Some("45".to_string()))));

    let returned = take_rate_limit_error(&mut last_error)
        .unwrap_or_else(|| CallError::Other("所有凭据均已禁用".to_string()));

    match returned {
        CallError::RateLimit(rate_limit) => {
            assert_eq!(rate_limit.retry_after().as_deref(), Some("45"));
        }
        _ => panic!("应保留最初的类型化 429"),
    }
    assert!(last_error.is_none());
}

#[test]
fn does_not_relabel_generic_error_as_rate_limit() {
    let mut last_error = Some(CallError::Other("所有凭据均已禁用".to_string()));
    assert!(take_rate_limit_error(&mut last_error).is_none());
    assert!(last_error.is_some());
}

#[test]
fn account_rate_limit_uses_cooldown_when_retry_after_is_missing() {
    let (error, must_wait) =
        account_rate_limit_with_fallback(Some(UpstreamRateLimitError::new(None)), 300);

    assert_eq!(error.retry_after().as_deref(), Some("300"));
    assert!(!must_wait, "无上游等待值时仍可按账号冷却策略故障转移");
}

#[test]
fn account_rate_limit_honors_explicit_upstream_retry_after() {
    let (error, must_wait) = account_rate_limit_with_fallback(
        Some(UpstreamRateLimitError::new(Some("90".to_string()))),
        300,
    );

    assert_eq!(error.retry_after().as_deref(), Some("90"));
    assert!(must_wait, "上游明确要求等待时不得在内部提前重试");
}

#[test]
fn force_refresh_rate_limit_is_propagated_instead_of_counted_as_auth_failure() {
    let error = CallError::RateLimit(UpstreamRateLimitError::new(Some("60".to_string())));
    let returned = handle_force_refresh_result(Err(error)).expect_err("强制刷新 429 应立即传播");

    match returned {
        CallError::RateLimit(rate_limit) => {
            assert_eq!(rate_limit.retry_after().as_deref(), Some("60"));
        }
        _ => panic!("应保留类型化 429"),
    }
}

#[test]
fn generic_force_refresh_failure_remains_an_auth_failure() {
    let outcome =
        handle_force_refresh_result(Err(CallError::Other("invalid refresh token".to_string())))
            .unwrap();
    assert!(!outcome);
}

#[test]
fn current_acquire_rate_limit_is_detected_before_outer_retry() {
    let error = CallError::RateLimit(UpstreamRateLimitError::new(Some("30".to_string())));
    assert!(is_rate_limit_error(&error));
}

/// A pool of credentials, numbered from 1, that counts uses against a limit and
/// leaves out those that rest.
struct Pool {
    used: Vec<u32>,
    limit: u32,
    resting: HashSet<u64>,
}

impl Pool {
    fn with(credentials: usize, limit: u32) -> Pool {
        Pool { used: vec![0; credentials], limit, resting: HashSet::new() }
    }

    fn record_request(&mut self, id: u64) -> bool {
        let used = &mut self.used[(id - 1) as usize];
        if self.limit > 0 && *used >= self.limit {
            return false;
        }
        *used += 1;
        true
    }

    fn has_available_excluding(&self, excluded: &HashSet<u64>) -> bool {
        (1..=self.used.len() as u64).any(|id| !excluded.contains(&id) && !self.resting.contains(&id))
    }

    fn reserve(&mut self, state: &mut CredentialRetryState, id: u64) -> bool {
        let granted = !state.is_recorded(id) && self.record_request(id);
        state.reserve_rpm(id, granted)
    }

    fn switch(
        &mut self,
        state: &mut CredentialRetryState,
        id: u64,
        mode: RetryMode,
        retry_after: Option<Delay>,
    ) -> Ordinary429Outcome {
        let mut excluded = state.throttled_ids().clone();
        excluded.insert(id);
        let available = self.has_available_excluding(&excluded);
        let (outcome, cooldown) = state.switch_credential_on_ordinary_429(
            id,
            mode,
            &RetryPolicy::preset(mode),
            retry_after,
            available,
        );
        if cooldown.is_some() {
            self.resting.insert(id);
        }
        outcome
    }
}

#[test]
fn reserve_rpm_preempted_excludes_credential() {
    let mut pool = Pool::with(1, 1);
    assert!(pool.record_request(1));

    let mut state = CredentialRetryState::new();
    assert!(!pool.reserve(&mut state, 1), "额度被抢占时应返回 false");
    assert!(state.throttled_ids().contains(&1), "应抢占排除该凭据");
    assert!(!state.is_recorded(1), "预留失败应回滚记账去重");
}

#[test]
fn reserve_rpm_records_once_per_credential() {
    let mut pool = Pool::with(1, 1);
    let mut state = CredentialRetryState::new();
    assert!(pool.reserve(&mut state, 1));
    assert!(pool.reserve(&mut state, 1), "同凭据重试不再重复记账");
    assert!(!pool.record_request(1), "只记了 1 次 tick：窗口 1/1 已满");
}

#[test]
fn switch_on_429_switched_writes_cooldown_outside_failover() {
    let mut pool = Pool::with(2, 0);
    let mut state = CredentialRetryState::new();
    let outcome = pool.switch(&mut state, 1, RetryMode::Balanced, None);
    assert_eq!(outcome, Ordinary429Outcome::Switched);
    assert!(state.throttled_ids().contains(&1));
    let mut excluded = HashSet::new();
    excluded.insert(2u64);
    assert!(
        !pool.has_available_excluding(&excluded),
        "凭据 #1 应已被写入 rate_limited 冷却"
    );
}

#[test]
fn switch_on_429_failover_switched_without_cooldown() {
    let mut pool = Pool::with(2, 0);
    let mut state = CredentialRetryState::new();
    let outcome = pool.switch(&mut state, 1, RetryMode::Failover, None);
    assert_eq!(outcome, Ordinary429Outcome::Switched);
    assert!(state.throttled_ids().contains(&1));
    let mut excluded = HashSet::new();
    excluded.insert(2u64);
    assert!(pool.has_available_excluding(&excluded));
}

#[test]
fn switch_on_429_failover_keep_current_when_none_available() {
    let mut pool = Pool::with(1, 0);
    let mut state = CredentialRetryState::new();
    let outcome = pool.switch(&mut state, 1, RetryMode::Failover, None);
    assert_eq!(outcome, Ordinary429Outcome::FailoverKeepCurrent);
    assert!(
        state.throttled_ids().contains(&1) && state.throttled_ids().len() == 1,
        "排除集清空后仅保留当前号"
    );
}

#[test]
fn switch_on_429_non_failover_clears_when_none_available() {
    let mut pool = Pool::with(1, 0);
    let mut state = CredentialRetryState::new();
    let outcome = pool.switch(&mut state, 1, RetryMode::Balanced, None);
    assert_eq!(outcome, Ordinary429Outcome::NotSwitched);
    assert!(state.throttled_ids().is_empty(), "非 Failover 无可用时清空排除集");
}

#[test]
fn switch_on_429_disabled_switch_leaves_state_untouched() {
    let mut pool = Pool::with(2, 0);
    let mut state = CredentialRetryState::new();
    let outcome = pool.switch(&mut state, 1, RetryMode::Polite, None);
    assert_eq!(outcome, Ordinary429Outcome::NotSwitched);
    assert!(state.throttled_ids().is_empty(), "未开换号开关时不排除任何凭据");
}

#[test]
fn the_cooldown_is_the_wait_that_was_asked_for() {
    let policy = RetryPolicy::preset(RetryMode::Balanced);
    let mut state = CredentialRetryState::new();
    let asked = Delay::from_secs(7);
    let (_, cooldown) =
        state.switch_credential_on_ordinary_429(1, RetryMode::Balanced, &policy, Some(asked), true);
    assert_eq!(cooldown, Some(Delay::from_secs(7)));
    let (_, cooldown) =
        state.switch_credential_on_ordinary_429(2, RetryMode::Balanced, &policy, None, true);
    assert_eq!(cooldown, Some(Delay::from_millis(policy.rate_limit_cooldown_ms)));
    assert_eq!(state.throttled_ids().len(), 2);
    state.exclude(9);
    assert_eq!(state.throttled_ids().len(), 3);
    assert!(!state.is_refreshed(1));
    state.mark_refreshed(1);
    assert!(state.is_refreshed(1));
}

#[test]
fn a_named_wait_and_a_local_retry_are_told_apart() {
    let limit = UpstreamRateLimitError::with_decision(Some("90".to_string()), true);
    let (error, must_wait) = account_rate_limit_with_fallback(Some(limit), 300);
    assert_eq!(error.retry_after().as_deref(), Some("90"));
    assert!(!must_wait);
    let limit = UpstreamRateLimitError::with_decision(None, false);
    let (error, must_wait) = account_rate_limit_with_fallback(Some(limit), 300);
    assert_eq!(error.retry_after().as_deref(), Some("300"));
    assert!(must_wait);
    let (error, must_wait) = account_rate_limit_with_fallback(None, 300);
    assert_eq!(error.retry_after().as_deref(), Some("300"));
    assert!(!must_wait);
}
