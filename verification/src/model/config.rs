//! Settings of the gateway: retry modes and policies, and the application
//! configuration with its defaults.

use vstd::prelude::*;

use crate::json::Json;
use crate::kiro::endpoint::context::IDE_ENDPOINT_NAME;
use crate::text::{concat, opt_str_view, opt_view, str_eq};

verus! {

broadcast use vstd::string::group_string_axioms;

/// The TLS implementation that HTTP clients are built with.
#[derive(Debug, Clone, Copy, PartialEq, Eq, Structural)]
pub enum TlsBackend {
    Rustls,
    NativeTls,
}

impl Default for TlsBackend {
    fn default() -> (r: Self)
        ensures
            r == TlsBackend::Rustls,
    {
        TlsBackend::Rustls
    }
}

/// How client tools are handed on.
///
/// `ClaudeCode`, the default, adapts the names and inputs of the client's built-in
/// tools to those of Kiro in both directions; `Raw` passes the client's tools
/// through as they are.
#[derive(Debug, Clone, Copy, PartialEq, Eq, Structural)]
pub enum ToolCompatibilityMode {
    ClaudeCode,
    Raw,
}

impl Default for ToolCompatibilityMode {
    fn default() -> (r: Self)
        ensures
            r == ToolCompatibilityMode::ClaudeCode,
    {
        ToolCompatibilityMode::ClaudeCode
    }
}

/// The retry strategy for an ordinary 429.
///
/// `Failover`, the default, first changes the rate limit bucket with the same
/// credential, and then the credential within the request, without a cooldown
/// that outlasts the request. The other modes use a [`RetryPolicy`].
#[derive(Debug, Clone, Copy, PartialEq, Eq, Structural)]
pub enum RetryMode {
    Failover,
    Turbo,
    Fast,
    Balanced,
    Steady,
    Polite,
    Custom,
}

impl Default for RetryMode {
    fn default() -> (r: Self)
        ensures
            r == RetryMode::Failover,
    {
        RetryMode::Failover
    }
}

/// The name of a retry mode.
pub open spec fn mode_name(mode: RetryMode) -> Seq<char> {
    match mode {
        RetryMode::Failover => "failover"@,
        RetryMode::Turbo => "turbo"@,
        RetryMode::Fast => "fast"@,
        RetryMode::Balanced => "balanced"@,
        RetryMode::Steady => "steady"@,
        RetryMode::Polite => "polite"@,
        RetryMode::Custom => "custom"@,
    }
}

/// The retry mode that a text names; `current` and `default` are other names
/// of the default mode.
pub open spec fn named_mode(text: Seq<char>) -> Option<RetryMode> {
    if text == "failover"@ || text == "current"@ || text == "default"@ {
        Some(RetryMode::Failover)
    } else if text == "turbo"@ {
        Some(RetryMode::Turbo)
    } else if text == "fast"@ {
        Some(RetryMode::Fast)
    } else if text == "balanced"@ {
        Some(RetryMode::Balanced)
    } else if text == "steady"@ {
        Some(RetryMode::Steady)
    } else if text == "polite"@ {
        Some(RetryMode::Polite)
    } else if text == "custom"@ {
        Some(RetryMode::Custom)
    } else {
        None
    }
}

impl RetryMode {
    /// The name of the mode.
    pub fn as_str(&self) -> (r: &'static str)
        ensures
            r@ == mode_name(*self),
    {
        match self {
            RetryMode::Failover => "failover",
            RetryMode::Turbo => "turbo",
            RetryMode::Fast => "fast",
            RetryMode::Balanced => "balanced",
            RetryMode::Steady => "steady",
            RetryMode::Polite => "polite",
            RetryMode::Custom => "custom",
        }
    }

    /// The mode with a given name.
    pub fn from_str(value: &str) -> (r: Result<RetryMode, String>)
        ensures
            match r {
                Ok(mode) => named_mode(value@) == Some(mode),
                Err(e) => named_mode(value@) is None && e@ == "无效的重试模式: "@ + value@,
            },
    {
        if str_eq(value, "failover") || str_eq(value, "current") || str_eq(value, "default") {
            Ok(RetryMode::Failover)
        } else if str_eq(value, "turbo") {
            Ok(RetryMode::Turbo)
        } else if str_eq(value, "fast") {
            Ok(RetryMode::Fast)
        } else if str_eq(value, "balanced") {
            Ok(RetryMode::Balanced)
        } else if str_eq(value, "steady") {
            Ok(RetryMode::Steady)
        } else if str_eq(value, "polite") {
            Ok(RetryMode::Polite)
        } else if str_eq(value, "custom") {
            Ok(RetryMode::Custom)
        } else {
            Err(concat("无效的重试模式: ", value))
        }
    }
}

/// A mode is the one that its own name names.
pub proof fn mode_name_round_trip(mode: RetryMode)
    ensures
        named_mode(mode_name(mode)) == Some(mode),
{
    reveal_strlit("failover");
    reveal_strlit("current");
    reveal_strlit("default");
    reveal_strlit("turbo");
    reveal_strlit("fast");
    reveal_strlit("balanced");
    reveal_strlit("steady");
    reveal_strlit("polite");
    reveal_strlit("custom");
    assert("failover"@[0] == 'f' && "failover"@.len() == 8 && "fast"@.len() == 4);
    assert("current"@.len() == 7 && "default"@.len() == 7);
    assert("turbo"@[0] == 't' && "balanced"@[0] == 'b' && "steady"@[0] == 's');
    assert("polite"@[0] == 'p' && "custom"@[0] == 'c' && "custom"@.len() == 6);
    assert("turbo"@.len() == 5 && "balanced"@.len() == 8 && "steady"@.len() == 6
        && "polite"@.len() == 6);
    assert("fast"@[0] == 'f');
}

/// The retry policy for an ordinary 429.
#[derive(Debug, Clone, Copy, PartialEq, Eq, Structural)]
pub struct RetryPolicy {
    /// The cooldown after an ordinary 429, across requests; 0 for none.
    pub rate_limit_cooldown_ms: u64,
    /// The retries that each credential adds to the budget of a request.
    pub max_request_retries: usize,
    /// The first delay of the exponential backoff.
    pub base_backoff_ms: u64,
    /// The longest delay of the exponential backoff.
    pub max_backoff_ms: u64,
    /// Whether an ordinary 429 changes the credential first.
    pub credential_switch_on_429: bool,
    /// Whether the `Retry-After` header counts.
    pub respect_retry_after: bool,
}

/// The policy of a mode. `Custom` has that of `Fast` until one is set.
pub open spec fn preset_policy(mode: RetryMode) -> RetryPolicy {
    match mode {
        RetryMode::Failover => RetryPolicy {
            rate_limit_cooldown_ms: 0,
            max_request_retries: 3,
            base_backoff_ms: 1_000,
            max_backoff_ms: 8_000,
            credential_switch_on_429: true,
            respect_retry_after: false,
        },
        RetryMode::Turbo => RetryPolicy {
            rate_limit_cooldown_ms: 1_000,
            max_request_retries: 12,
            base_backoff_ms: 100,
            max_backoff_ms: 1_000,
            credential_switch_on_429: true,
            respect_retry_after: false,
        },
        RetryMode::Fast | RetryMode::Custom => RetryPolicy {
            rate_limit_cooldown_ms: 3_000,
            max_request_retries: 9,
            base_backoff_ms: 200,
            max_backoff_ms: 2_000,
            credential_switch_on_429: true,
            respect_retry_after: false,
        },
        RetryMode::Balanced => RetryPolicy {
            rate_limit_cooldown_ms: 10_000,
            max_request_retries: 9,
            base_backoff_ms: 500,
            max_backoff_ms: 5_000,
            credential_switch_on_429: true,
            respect_retry_after: false,
        },
        RetryMode::Steady => RetryPolicy {
            rate_limit_cooldown_ms: 30_000,
            max_request_retries: 6,
            base_backoff_ms: 1_000,
            max_backoff_ms: 10_000,
            credential_switch_on_429: true,
            respect_retry_after: true,
        },
        RetryMode::Polite => RetryPolicy {
            rate_limit_cooldown_ms: 60_000,
            max_request_retries: 4,
            base_backoff_ms: 2_000,
            max_backoff_ms: 30_000,
            credential_switch_on_429: false,
            respect_retry_after: true,
        },
    }
}

/// What is wrong with a policy: the first of its bounds that it breaks.
pub open spec fn policy_fault(p: RetryPolicy) -> Option<Seq<char>> {
    if p.rate_limit_cooldown_ms > 120_000 {
        Some("rateLimitCooldownMs 必须在 0..=120000 之间"@)
    } else if !(1 <= p.max_request_retries <= 30) {
        Some("maxRequestRetries 必须在 1..=30 之间"@)
    } else if !(50 <= p.base_backoff_ms <= 30_000) {
        Some("baseBackoffMs 必须在 50..=30000 之间"@)
    } else if !(p.base_backoff_ms <= p.max_backoff_ms <= 120_000) {
        Some("maxBackoffMs 必须在 baseBackoffMs..=120000 之间"@)
    } else {
        None
    }
}

/// The policy that a mode and an optional custom policy select.
pub open spec fn selected_policy(mode: RetryMode, custom: Option<RetryPolicy>) -> RetryPolicy {
    if mode == RetryMode::Custom && custom is Some {
        custom->0
    } else {
        preset_policy(mode)
    }
}

impl RetryPolicy {
    /// The policy of a mode.
    pub fn preset(mode: RetryMode) -> (r: RetryPolicy)
        ensures
            r == preset_policy(mode),
    {
        match mode {
            RetryMode::Failover => RetryPolicy {
                rate_limit_cooldown_ms: 0,
                max_request_retries: 3,
                base_backoff_ms: 1_000,
                max_backoff_ms: 8_000,
                credential_switch_on_429: true,
                respect_retry_after: false,
            },
            RetryMode::Turbo => RetryPolicy {
                rate_limit_cooldown_ms: 1_000,
                max_request_retries: 12,
                base_backoff_ms: 100,
                max_backoff_ms: 1_000,
                credential_switch_on_429: true,
                respect_retry_after: false,
            },
            RetryMode::Fast | RetryMode::Custom => RetryPolicy {
                rate_limit_cooldown_ms: 3_000,
                max_request_retries: 9,
                base_backoff_ms: 200,
                max_backoff_ms: 2_000,
                credential_switch_on_429: true,
                respect_retry_after: false,
            },
            RetryMode::Balanced => RetryPolicy {
                rate_limit_cooldown_ms: 10_000,
                max_request_retries: 9,
                base_backoff_ms: 500,
                max_backoff_ms: 5_000,
                credential_switch_on_429: true,
                respect_retry_after: false,
            },
            RetryMode::Steady => RetryPolicy {
                rate_limit_cooldown_ms: 30_000,
                max_request_retries: 6,
                base_backoff_ms: 1_000,
                max_backoff_ms: 10_000,
                credential_switch_on_429: true,
                respect_retry_after: true,
            },
            RetryMode::Polite => RetryPolicy {
                rate_limit_cooldown_ms: 60_000,
                max_request_retries: 4,
                base_backoff_ms: 2_000,
                max_backoff_ms: 30_000,
                credential_switch_on_429: false,
                respect_retry_after: true,
            },
        }
    }

    /// The policy in force: the custom one in the mode `Custom`, else the
    /// preset of the mode; an error where it breaks a bound.
    pub fn effective(mode: RetryMode, custom: Option<&RetryPolicy>) -> (r: Result<
        RetryPolicy,
        String,
    >)
        ensures
            ({
                let policy = selected_policy(
                    mode,
                    match custom {
                        Some(c) => Some(*c),
                        None => None,
                    },
                );
                match r {
                    Ok(p) => p == policy && policy_fault(policy) is None,
                    Err(e) => policy_fault(policy) == Some(e@),
                }
            }),
    {
        let policy = if mode == RetryMode::Custom {
            match custom {
                Some(c) => *c,
                None => RetryPolicy::preset(RetryMode::Fast),
            }
        } else {
            RetryPolicy::preset(mode)
        };
        match policy.validate() {
            Ok(()) => Ok(policy),
            Err(e) => Err(e),
        }
    }

    /// Tests the bounds of the policy.
    pub fn validate(&self) -> (r: Result<(), String>)
        ensures
            match r {
                Ok(()) => policy_fault(*self) is None,
                Err(e) => policy_fault(*self) == Some(e@),
            },
    {
        if self.rate_limit_cooldown_ms > 120_000 {
            return Err("rateLimitCooldownMs 必须在 0..=120000 之间".to_owned());
        }
        if self.max_request_retries < 1 || self.max_request_retries > 30 {
            return Err("maxRequestRetries 必须在 1..=30 之间".to_owned());
        }
        if self.base_backoff_ms < 50 || self.base_backoff_ms > 30_000 {
            return Err("baseBackoffMs 必须在 50..=30000 之间".to_owned());
        }
        if self.max_backoff_ms < self.base_backoff_ms || self.max_backoff_ms > 120_000 {
            return Err("maxBackoffMs 必须在 baseBackoffMs..=120000 之间".to_owned());
        }
        Ok(())
    }
}

/// Every preset keeps the bounds, so a mode without a custom policy always has
/// a policy in force.
pub proof fn presets_are_valid(mode: RetryMode)
    ensures
        policy_fault(preset_policy(mode)) is None,
        selected_policy(mode, None) == preset_policy(mode),
{
}

/// The configuration of the application.
#[derive(Debug, PartialEq, Eq)]
pub struct Config {
    /// The address to listen on.
    pub host: String,
    /// The port to listen on.
    pub port: u16,
    /// The region of both kinds of request.
    pub region: String,
    /// The region of token refreshes, if not `region`.
    pub auth_region: Option<String>,
    /// The region of API requests, if not `region`.
    pub api_region: Option<String>,
    /// The client version to report.
    pub kiro_version: String,
    /// The machine id to report.
    pub machine_id: Option<String>,
    /// The key that clients authenticate with.
    pub api_key: Option<String>,
    /// The operating system to report.
    pub system_version: String,
    /// The Node version to report.
    pub node_version: String,
    /// The TLS implementation.
    pub tls_backend: TlsBackend,
    /// The address of an outside token counter.
    pub count_tokens_api_url: Option<String>,
    /// The key of the outside token counter.
    pub count_tokens_api_key: Option<String>,
    /// How the token counter is authenticated with: `x-api-key` or `bearer`.
    pub count_tokens_auth_type: String,
    /// The global proxy, or a list of candidates.
    pub proxy_url: Option<String>,
    /// The user name at the proxy.
    pub proxy_username: Option<String>,
    /// The password at the proxy.
    pub proxy_password: Option<String>,
    /// The key of the admin interface, which is off without one.
    pub admin_api_key: Option<String>,
    /// How credentials are chosen: `priority`, `balanced` or `least_conn`.
    pub load_balancing_mode: String,
    /// How proxies are chosen: `sticky`, `round_robin` or `least_load`.
    pub proxy_balancing_mode: String,
    /// Whether an account-level 429 cools the credential down and changes it.
    pub account_throttle_failover: bool,
    /// The cooldown after an account-level 429.
    pub account_throttle_cooldown_secs: u64,
    /// Whether a 403 with the wording of a suspension disables the credential for good.
    pub suspended_detection_enabled: bool,
    /// Whether credentials disabled after failures may come back by themselves.
    pub self_heal_enabled: bool,
    /// The least time between two such comebacks of a credential.
    pub self_heal_min_interval_secs: u64,
    /// The most comebacks in a row; 0 for no limit.
    pub self_heal_max_consecutive_rounds: u32,
    /// The retry mode for an ordinary 429.
    pub retry_mode: RetryMode,
    /// The policy of the mode `Custom`.
    pub retry_policy: Option<RetryPolicy>,
    /// Whether thinking tags in complete responses become blocks of their own.
    pub extract_thinking: bool,
    /// How client tools are handed on.
    pub tool_compatibility_mode: ToolCompatibilityMode,
    /// The endpoint of credentials that name none.
    pub default_endpoint: String,
    /// Whether requests are traced.
    pub trace_enabled: bool,
    /// How long traces are kept.
    pub trace_retention_days: u32,
    /// How long usage logs are kept.
    pub usage_log_retention_days: u32,
    /// How long the model list of a credential is kept.
    pub model_cache_ttl_secs: u64,
    /// Settings of single endpoints, by the endpoint's name.
    pub endpoints: Vec<(String, Json)>,
    /// The file that the configuration came from.
    pub config_path: Option<String>,
}

impl Default for Config {
    /// The configuration of a first start.
    fn default() -> (r: Self)
        ensures
            r.host@ == "127.0.0.1"@,
            r.port == 8080,
            r.region@ == "us-east-1"@,
            r.auth_region is None,
            r.api_region is None,
            r.kiro_version@ == "2.3.0"@,
            r.machine_id is None,
            r.api_key is None,
            r.system_version@ == "macos"@,
            r.node_version@ == "22.22.0"@,
            r.tls_backend == TlsBackend::Rustls,
            r.count_tokens_api_url is None,
            r.count_tokens_api_key is None,
            r.count_tokens_auth_type@ == "x-api-key"@,
            r.proxy_url is None,
            r.proxy_username is None,
            r.proxy_password is None,
            r.admin_api_key is None,
            r.load_balancing_mode@ == "least_conn"@,
            r.proxy_balancing_mode@ == "sticky"@,
            r.account_throttle_failover,
            r.account_throttle_cooldown_secs == 1800,
            r.suspended_detection_enabled,
            r.self_heal_enabled,
            r.self_heal_min_interval_secs == 300,
            r.self_heal_max_consecutive_rounds == 5,
            r.retry_mode == RetryMode::Failover,
            r.retry_policy is None,
            r.extract_thinking,
            r.tool_compatibility_mode == ToolCompatibilityMode::ClaudeCode,
            r.default_endpoint@ == "ide"@,
            r.trace_enabled,
            r.trace_retention_days == 7,
            r.usage_log_retention_days == 31,
            r.model_cache_ttl_secs == 3600,
            r.endpoints@.len() == 0,
            r.config_path is None,
    {
        Config {
            host: "127.0.0.1".to_owned(),
            port: 8080,
            region: "us-east-1".to_owned(),
            auth_region: None,
            api_region: None,
            kiro_version: "2.3.0".to_owned(),
            machine_id: None,
            api_key: None,
            system_version: "macos".to_owned(),
            node_version: "22.22.0".to_owned(),
            tls_backend: TlsBackend::Rustls,
            count_tokens_api_url: None,
            count_tokens_api_key: None,
            count_tokens_auth_type: "x-api-key".to_owned(),
            proxy_url: None,
            proxy_username: None,
            proxy_password: None,
            admin_api_key: None,
            load_balancing_mode: "least_conn".to_owned(),
            proxy_balancing_mode: "sticky".to_owned(),
            account_throttle_failover: true,
            account_throttle_cooldown_secs: 1800,
            suspended_detection_enabled: true,
            self_heal_enabled: true,
            self_heal_min_interval_secs: 300,
            self_heal_max_consecutive_rounds: 5,
            retry_mode: RetryMode::Failover,
            retry_policy: None,
            extract_thinking: true,
            tool_compatibility_mode: ToolCompatibilityMode::ClaudeCode,
            default_endpoint: IDE_ENDPOINT_NAME.to_owned(),
            trace_enabled: true,
            trace_retention_days: 7,
            usage_log_retention_days: 31,
            model_cache_ttl_secs: 3600,
            endpoints: Vec::new(),
            config_path: None,
        }
    }
}

impl Config {
    /// The file that the configuration is read from by default.
    pub fn default_config_path() -> (r: &'static str)
        ensures
            r@ == "config.json"@,
    {
        "config.json"
    }

    /// The region of token refreshes.
    pub fn effective_auth_region(&self) -> (r: &str)
        ensures
            r@ == (match self.auth_region {
                Some(region) => region@,
                None => self.region@,
            }),
    {
        match &self.auth_region {
            Some(region) => region.as_str(),
            None => self.region.as_str(),
        }
    }

    /// The region of API requests.
    pub fn effective_api_region(&self) -> (r: &str)
        ensures
            r@ == (match self.api_region {
                Some(region) => region@,
                None => self.region@,
            }),
    {
        match &self.api_region {
            Some(region) => region.as_str(),
            None => self.region.as_str(),
        }
    }

    /// The file that the configuration came from, if there is one.
    pub fn config_path(&self) -> (r: Option<&str>)
        ensures
            opt_str_view(r) == opt_view(self.config_path),
    {
        match &self.config_path {
            Some(path) => Some(path.as_str()),
            None => None,
        }
    }
}

} // verus!
