use kiro_gateway::model::config::{
    Config, RetryMode, RetryPolicy, TlsBackend, ToolCompatibilityMode,
};

#[test]
fn a_first_start_has_these_settings() {
    let config = Config::default();
    assert!(config.suspended_detection_enabled);
    assert!(config.self_heal_enabled);
    assert_eq!(config.self_heal_min_interval_secs, 300);
    assert_eq!(config.self_heal_max_consecutive_rounds, 5);
    assert_eq!(config.host, "127.0.0.1");
    assert_eq!(config.port, 8080);
    assert_eq!(config.region, "us-east-1");
    assert_eq!(config.kiro_version, "2.3.0");
    assert_eq!(config.load_balancing_mode, "least_conn");
    assert_eq!(config.account_throttle_cooldown_secs, 1800);
    assert_eq!(config.default_endpoint, "ide");
    assert_eq!(config.model_cache_ttl_secs, 3600);
    assert_eq!(config.tls_backend, TlsBackend::default());
    assert_eq!(config.retry_mode, RetryMode::default());
    assert_eq!(config.tool_compatibility_mode, ToolCompatibilityMode::default());
    assert_eq!(config.config_path(), None);
    assert_eq!(Config::default_config_path(), "config.json");
}

#[test]
fn regions_fall_back() {
    let mut config = Config::default();
    config.region = "r".to_string();
    assert_eq!(config.effective_auth_region(), "r");
    assert_eq!(config.effective_api_region(), "r");
    config.auth_region = Some("a".to_string());
    config.api_region = Some("b".to_string());
    assert_eq!(config.effective_auth_region(), "a");
    assert_eq!(config.effective_api_region(), "b");
}

#[test]
fn modes_have_names() {
    for mode in [
        RetryMode::Failover,
        RetryMode::Turbo,
        RetryMode::Fast,
        RetryMode::Balanced,
        RetryMode::Steady,
        RetryMode::Polite,
        RetryMode::Custom,
    ] {
        assert_eq!(RetryMode::from_str(mode.as_str()), Ok(mode));
    }
    assert_eq!(RetryMode::from_str("current"), Ok(RetryMode::Failover));
    assert_eq!(RetryMode::from_str("default"), Ok(RetryMode::Failover));
    assert_eq!(RetryMode::from_str("Fast"), Err("无效的重试模式: Fast".to_string()));
}

#[test]
fn presets() {
    assert_eq!(RetryPolicy::preset(RetryMode::Custom), RetryPolicy::preset(RetryMode::Fast));
    let polite = RetryPolicy::preset(RetryMode::Polite);
    assert_eq!(polite.rate_limit_cooldown_ms, 60_000);
    assert_eq!(polite.max_request_retries, 4);
    assert!(!polite.credential_switch_on_429);
    assert!(polite.respect_retry_after);
    assert_eq!(RetryPolicy::preset(RetryMode::Turbo).max_request_retries, 12);
    assert_eq!(RetryPolicy::preset(RetryMode::Steady).max_backoff_ms, 10_000);
    assert_eq!(RetryPolicy::preset(RetryMode::Balanced).base_backoff_ms, 500);
}

#[test]
fn policies_are_held_to_their_bounds() {
    let good = RetryPolicy::preset(RetryMode::Fast);
    assert_eq!(good.validate(), Ok(()));
    let mut p = good;
    p.rate_limit_cooldown_ms = 120_001;
    assert_eq!(p.validate(), Err("rateLimitCooldownMs 必须在 0..=120000 之间".to_string()));
    p = good;
    p.max_request_retries = 0;
    assert_eq!(p.validate(), Err("maxRequestRetries 必须在 1..=30 之间".to_string()));
    p.max_request_retries = 31;
    assert!(p.validate().is_err());
    p = good;
    p.base_backoff_ms = 49;
    assert_eq!(p.validate(), Err("baseBackoffMs 必须在 50..=30000 之间".to_string()));
    p = good;
    p.max_backoff_ms = p.base_backoff_ms - 1;
    assert_eq!(
        p.validate(),
        Err("maxBackoffMs 必须在 baseBackoffMs..=120000 之间".to_string())
    );
}

#[test]
fn the_custom_policy_counts_in_its_mode_only() {
    let mut custom = RetryPolicy::preset(RetryMode::Fast);
    custom.max_request_retries = 7;
    assert_eq!(RetryPolicy::effective(RetryMode::Custom, Some(&custom)), Ok(custom));
    assert_eq!(
        RetryPolicy::effective(RetryMode::Steady, Some(&custom)),
        Ok(RetryPolicy::preset(RetryMode::Steady))
    );
    assert_eq!(
        RetryPolicy::effective(RetryMode::Custom, None),
        Ok(RetryPolicy::preset(RetryMode::Fast))
    );
    custom.base_backoff_ms = 1;
    assert!(RetryPolicy::effective(RetryMode::Custom, Some(&custom)).is_err());
}
