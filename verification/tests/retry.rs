use kiro_gateway::clock::{unix_seconds, until, Delay, Moment};
use kiro_gateway::kiro::error::{CallError, CallKind, Note, UpstreamRateLimitError};
use kiro_gateway::kiro::retry::{
    max_retries, rate_limit_from, rate_limit_of, retry_after_at, retry_after_delay, retry_delay, retry_delay_for_status,
    retry_delay_policy, retry_delay_throttle, Wait,
};
use kiro_gateway::model::config::{RetryMode, RetryPolicy};

#[test]
fn the_budget_grows_with_the_credentials_up_to_a_limit() {
    let fast = RetryPolicy::preset(RetryMode::Fast);
    assert_eq!(max_retries(0, RetryMode::Failover, &fast), 3);
    assert_eq!(max_retries(1, RetryMode::Failover, &fast), 3);
    assert_eq!(max_retries(2, RetryMode::Failover, &fast), 4);
    assert_eq!(max_retries(usize::MAX, RetryMode::Failover, &fast), 4);
    let steady = RetryPolicy::preset(RetryMode::Steady);
    assert_eq!(max_retries(1, RetryMode::Steady, &steady), steady.max_request_retries);
    assert_eq!(max_retries(usize::MAX, RetryMode::Steady, &steady), 30);
}

fn base_and_jitter(wait: Wait) -> (u64, u64) {
    match wait {
        Wait::Jittered { base_ms, jitter_ms } => (base_ms, jitter_ms),
        Wait::Fixed(_) => panic!("a wait with a random part is due"),
    }
}

#[test]
fn waits_double_up_to_a_limit() {
    assert_eq!(base_and_jitter(retry_delay(0)), (200, 50));
    assert_eq!(base_and_jitter(retry_delay(1)), (400, 100));
    assert_eq!(base_and_jitter(retry_delay(3)), (1600, 400));
    assert_eq!(base_and_jitter(retry_delay(4)), (2000, 500));
    assert_eq!(base_and_jitter(retry_delay(usize::MAX)), (2000, 500));
    assert_eq!(base_and_jitter(retry_delay_throttle(0)), (1000, 250));
    assert_eq!(base_and_jitter(retry_delay_throttle(9)), (8000, 2000));
    let mut policy = RetryPolicy::preset(RetryMode::Fast);
    policy.base_backoff_ms = 1;
    policy.max_backoff_ms = 120_000;
    assert_eq!(base_and_jitter(retry_delay_policy(0, &policy)), (1, 1));
    assert_eq!(base_and_jitter(retry_delay_policy(6, &policy)), (64, 16));
    assert_eq!(base_and_jitter(retry_delay_policy(7, &policy)), (64, 16));
    policy.base_backoff_ms = u64::MAX;
    assert_eq!(base_and_jitter(retry_delay_policy(1, &policy)), (120_000, 30_000));
}

#[test]
fn the_wait_depends_on_the_answer_and_the_mode() {
    let policy = RetryPolicy::preset(RetryMode::Balanced);
    let asked = Some(Delay::from_secs(9));
    assert_eq!(
        retry_delay_for_status(429, 1, RetryMode::Failover, &policy, asked),
        retry_delay_throttle(1)
    );
    assert_eq!(
        retry_delay_for_status(503, 1, RetryMode::Failover, &policy, asked),
        retry_delay(1)
    );
    assert_eq!(
        retry_delay_for_status(429, 1, RetryMode::Balanced, &policy, asked),
        Wait::Fixed(Delay::from_secs(9))
    );
    assert_eq!(
        retry_delay_for_status(503, 1, RetryMode::Balanced, &policy, asked),
        retry_delay_policy(1, &policy)
    );
    assert_eq!(
        retry_delay_for_status(429, 1, RetryMode::Balanced, &policy, None),
        retry_delay_policy(1, &policy)
    );
}

#[test]
fn random_parts_stay_within_their_limits() {
    let wait = Wait::Jittered { base_ms: 1000, jitter_ms: 40 };
    let mut seen: Vec<Delay> = Vec::new();
    for _ in 0..200 {
        let d = wait.draw();
        assert_eq!(d.secs, 1);
        assert!(d.nanos <= 40_000_000 && d.nanos % 1_000_000 == 0);
        if !seen.contains(&d) {
            seen.push(d);
        }
    }
    assert!(seen.len() > 1);
    let fixed = Wait::Fixed(Delay::from_millis(1234));
    assert_eq!(fixed.draw(), Delay { secs: 1, nanos: 234_000_000 });
}

#[test]
fn retry_after_in_seconds_or_as_a_date() {
    let at = Moment { before_epoch: false, secs: 100, nanos: 0 };
    assert_eq!(retry_after_at(" 30 ", None, at), Some(Delay::from_secs(30)));
    assert_eq!(retry_after_at("30", Some(500), at), Some(Delay::from_secs(30)));
    assert_eq!(retry_after_at("x", Some(160), at), Some(Delay::from_secs(60)));
    assert_eq!(retry_after_at("x", Some(99), at), None);
    assert_eq!(retry_after_at("x", None, at), None);
    let mid = Moment { before_epoch: false, secs: 100, nanos: 250_000_000 };
    assert_eq!(until(101, mid), Some(Delay { secs: 0, nanos: 750_000_000 }));
    assert_eq!(until(100, mid), None);
}

#[test]
fn a_clock_before_the_epoch_counts_in_full() {
    let early = Moment { before_epoch: true, secs: 40, nanos: 250_000_000 };
    assert_eq!(until(60, early), Some(Delay { secs: 100, nanos: 250_000_000 }));
    let wait = Some(Delay { secs: 40, nanos: 250_000_000 });
    assert_eq!(retry_after_at("x", Some(0), early), wait);
    let longest = Some(Delay { secs: u64::MAX, nanos: 999_999_999 });
    assert_eq!(until(u64::MAX, early), longest);
    assert_eq!(unix_seconds(early), 0);
}

#[test]
fn moments_have_full_seconds() {
    let at = Moment { before_epoch: false, secs: 1_700_000_000, nanos: 999_999_999 };
    assert_eq!(unix_seconds(at), 1_700_000_000);
}

#[test]
fn retry_after_counts_from_now() {
    let mut policy = RetryPolicy::preset(RetryMode::Balanced);
    policy.respect_retry_after = true;
    assert_eq!(retry_after_delay(Some(" 15"), &policy), Some(Delay::from_secs(15)));
    assert_eq!(retry_after_delay(None, &policy), None);
    assert_eq!(retry_after_delay(Some("soon"), &policy), None);
    assert_eq!(retry_after_delay(Some("Sun, 06 Nov 1994 08:49:37 GMT"), &policy), None);
    let far = retry_after_delay(Some("Fri, 31 Dec 9999 23:59:59 GMT"), &policy).unwrap();
    let now = std::time::SystemTime::now()
        .duration_since(std::time::UNIX_EPOCH)
        .unwrap()
        .as_secs();
    let end = far.secs + now;
    assert!(end >= 253_402_300_797 && end <= 253_402_300_800);
    policy.respect_retry_after = false;
    assert_eq!(retry_after_delay(Some("15"), &policy), None);
}

#[test]
fn cooldowns_are_told_in_seconds() {
    assert_eq!(UpstreamRateLimitError::from_cooldown(1800).retry_after().as_deref(), Some("1800"));
    assert!(UpstreamRateLimitError::new(None).should_retry_locally());
    assert!(!UpstreamRateLimitError::new(Some("1".to_string())).should_retry_locally());
}

#[test]
fn errors_have_messages() {
    let refused = |kind: CallKind, note: Note, status: u16| {
        CallError::Refused { kind, note, status, body: "b".to_string() }.message()
    };
    assert_eq!(
        refused(CallKind::Api { stream: true }, Note::Plain, 404),
        "流式 API 请求失败: 404 Not Found b"
    );
    assert_eq!(
        refused(CallKind::Api { stream: false }, Note::AllUsed, 402),
        "非流式 API 请求失败（所有凭据已用尽）: 402 Payment Required b"
    );
    assert_eq!(
        refused(CallKind::Mcp, Note::Suspended, 403),
        "MCP 请求失败（账号封禁）: 403 Forbidden b"
    );
    assert_eq!(
        refused(CallKind::Mcp, Note::Switched { id: 7 }, 429),
        "MCP 请求失败（凭据 #7 普通 429，已切换其它凭据重试）: 429 Too Many Requests b"
    );
    assert_eq!(
        refused(CallKind::Api { stream: true }, Note::Switched { id: 7 }, 524),
        "流式 API 请求失败（凭据 #7 429，备用端点也失败，已切换其它凭据重试）: 524 <unknown status code> b"
    );
    assert_eq!(refused(CallKind::Mcp, Note::Plain, 7), "MCP 请求失败: 7 b");
    assert_eq!(
        CallError::Exhausted { kind: CallKind::Mcp, max_retries: 4 }.message(),
        "MCP 请求失败：已达到最大重试次数（4次）"
    );
    assert_eq!(CallError::Other("x".to_string()).message(), "x");
}

#[test]
fn only_a_readable_wait_counts() {
    let far = "Fri, 31 Dec 9999 23:59:59 GMT";
    for value in [" 45 ", far] {
        let limit = rate_limit_of(Some(value));
        assert_eq!(limit.retry_after().as_deref(), Some(value.trim()));
        assert!(!limit.should_retry_locally());
    }
    for value in [None, Some("soon"), Some("")] {
        let limit = rate_limit_of(value);
        assert_eq!(limit.retry_after(), None);
        assert!(limit.should_retry_locally());
    }
    assert_eq!(rate_limit_from(Some("d"), Some(7)).retry_after().as_deref(), Some("d"));
    assert_eq!(rate_limit_from(Some("d"), None).retry_after(), None);
}

#[test]
fn waits_after_a_429_are_longer() {
    for attempt in 0..6 {
        let usual = retry_delay(attempt).draw();
        let throttled = retry_delay_throttle(attempt).draw();
        assert!((usual.secs, usual.nanos) < (throttled.secs, throttled.nanos));
    }
}
