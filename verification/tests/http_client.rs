use kiro_gateway::http_client::{plan_client, ProxyConfig};
use kiro_gateway::model::config::TlsBackend;

#[test]
fn test_proxy_config_new() {
    let config = ProxyConfig::new("http://127.0.0.1:7890");
    assert_eq!(config.url, "http://127.0.0.1:7890");
    assert!(config.username.is_none());
    assert!(config.password.is_none());
}

#[test]
fn test_proxy_config_with_auth() {
    let config = ProxyConfig::new("socks5://127.0.0.1:1080").with_auth("user", "pass");
    assert_eq!(config.url, "socks5://127.0.0.1:1080");
    assert_eq!(config.username, Some("user".to_string()));
    assert_eq!(config.password, Some("pass".to_string()));
}

#[test]
fn test_should_try_next_proxy_status() {
    assert!(ProxyConfig::should_try_next_proxy_status(407));
    assert!(ProxyConfig::should_try_next_proxy_status(502));
    assert!(ProxyConfig::should_try_next_proxy_status(503));
    assert!(ProxyConfig::should_try_next_proxy_status(504));
    assert!(!ProxyConfig::should_try_next_proxy_status(401));
    assert!(!ProxyConfig::should_try_next_proxy_status(403));
    assert!(!ProxyConfig::should_try_next_proxy_status(429));
    assert!(!ProxyConfig::should_try_next_proxy_status(400));
}

#[test]
fn test_split_proxy_candidates() {
    let candidates = ProxyConfig::split_candidates(
        "socks5://a:1080, http://b:8080\ndirect  socks5://a:1080",
    );
    assert_eq!(
        candidates,
        vec![
            "socks5://a:1080".to_string(),
            "http://b:8080".to_string(),
            "direct".to_string(),
        ]
    );
}

#[test]
fn candidates_ignore_case_and_empty_pieces() {
    let candidates = ProxyConfig::split_candidates(" ;,HTTP://A:1;http://a:1,\u{3000}Direct\tDIRECT");
    assert_eq!(candidates, vec!["HTTP://A:1".to_string(), "Direct".to_string()]);
    assert!(ProxyConfig::split_candidates("").is_empty());
}

#[test]
fn direct_is_recognised_in_any_case() {
    assert!(ProxyConfig::is_direct("  DiRect "));
    assert!(!ProxyConfig::is_direct("directly"));
}

#[test]
fn supported_entries() {
    assert!(ProxyConfig::is_supported_entry("direct"));
    assert!(ProxyConfig::is_supported_entry(" http://a"));
    assert!(ProxyConfig::is_supported_entry("https://a"));
    assert!(ProxyConfig::is_supported_entry("socks5://a"));
    assert!(ProxyConfig::is_supported_entry("socks4://a"));
    assert!(!ProxyConfig::is_supported_entry("ftp://a"));
    assert!(!ProxyConfig::is_supported_entry("HTTP://a"));
    assert!(!ProxyConfig::is_supported_entry(""));
}

#[test]
fn auth_needs_both_parts_and_one_that_is_not_empty() {
    assert_eq!(ProxyConfig::from_url_with_auth("direct", Some("u"), Some("p")), None);
    let both = ProxyConfig::from_url_with_auth("http://a", Some("u"), Some("")).unwrap();
    assert_eq!(both.username.as_deref(), Some("u"));
    assert_eq!(both.password.as_deref(), Some(""));
    let half = ProxyConfig::from_url_with_auth("http://a", Some("u"), None).unwrap();
    assert_eq!(half, ProxyConfig::new("http://a"));
    let empty = ProxyConfig::from_url_with_auth("http://a", Some(""), Some("")).unwrap();
    assert_eq!(empty, ProxyConfig::new("http://a"));
}

#[test]
fn a_client_uses_the_first_candidate() {
    let setting = ProxyConfig::new("http://127.0.0.1:7890, direct").with_auth("u", "p");
    let plan = plan_client(Some(&setting), 30, TlsBackend::Rustls, false, false).unwrap();
    assert_eq!(plan.timeout_secs, 30);
    assert!(!plan.no_redirect);
    assert_eq!(plan.proxy, Some(ProxyConfig::new("http://127.0.0.1:7890").with_auth("u", "p")));
}

#[test]
fn a_client_without_proxy() {
    let plan = plan_client(None, 720, TlsBackend::Rustls, true, false).unwrap();
    assert!(plan.no_redirect);
    assert_eq!(plan.proxy, None);
    let direct_first = ProxyConfig::new("direct http://b");
    let plan = plan_client(Some(&direct_first), 1, TlsBackend::NativeTls, false, true).unwrap();
    assert_eq!(plan.proxy, None);
    let empty = ProxyConfig::new(" ");
    assert_eq!(plan_client(Some(&empty), 1, TlsBackend::Rustls, false, false).unwrap().proxy, None);
}

#[test]
fn native_tls_must_be_built_in() {
    assert_eq!(
        plan_client(None, 30, TlsBackend::NativeTls, false, false),
        Err("此构建版本未包含 native-tls 后端，请在配置中改用 rustls".to_string())
    );
}

#[test]
fn the_default_proxy_has_no_address() {
    let proxy = ProxyConfig::default();
    assert_eq!(proxy.url, "");
    assert_eq!(proxy.username, None);
    assert_eq!(proxy.password, None);
}
