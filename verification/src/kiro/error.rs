//! The errors of a call to the service.

use vstd::prelude::*;

use crate::text::{decimal, opt_view, u64_text};

verus! {

broadcast use vstd::string::group_string_axioms;

/// How long a 429 asks the client to wait.
#[derive(Debug, PartialEq, Eq)]
enum RetryAfter {
    /// As the service put it.
    Upstream(String),
    /// For the cooldown of the account, in seconds.
    Cooldown(u64),
}

/// A 429 of the service: the time that the client is to wait, if there is one,
/// and whether the request may be tried again before the client hears of it.
#[derive(Debug, PartialEq, Eq)]
pub struct UpstreamRateLimitError {
    retry_after: Option<RetryAfter>,
    retry_locally: bool,
}

impl UpstreamRateLimitError {
    /// The time to wait, as it is told to the client.
    pub closed spec fn view(&self) -> Option<Seq<char>> {
        match self.retry_after {
            Some(RetryAfter::Upstream(t)) => Some(t@),
            Some(RetryAfter::Cooldown(secs)) => Some(decimal(secs as nat)),
            None => None,
        }
    }

    /// The request may be tried again before the client hears of the error.
    pub closed spec fn retries_locally(&self) -> bool {
        self.retry_locally
    }

    /// The error that asks to wait for the cooldown of an account.
    pub closed spec fn cooldown(secs: u64) -> UpstreamRateLimitError {
        UpstreamRateLimitError {
            retry_after: Some(RetryAfter::Cooldown(secs)),
            retry_locally: false,
        }
    }

    /// The error of an answer; `retry_after` is what the service asked for. The
    /// request may be tried again where that is nothing.
    pub fn new(retry_after: Option<String>) -> (r: Self)
        ensures
            r@ == opt_view(retry_after),
            r.retries_locally() == (retry_after is None),
    {
        let retry_locally = retry_after.is_none();
        UpstreamRateLimitError::with_decision(retry_after, retry_locally)
    }

    /// The error of an answer, with the decision on whether the request may be
    /// tried again.
    pub fn with_decision(retry_after: Option<String>, retry_locally: bool) -> (r: Self)
        ensures
            r@ == opt_view(retry_after),
            r.retries_locally() == retry_locally,
    {
        UpstreamRateLimitError {
            retry_after: match retry_after {
                Some(t) => Some(RetryAfter::Upstream(t)),
                None => None,
            },
            retry_locally,
        }
    }

    /// The error that asks to wait for the cooldown of an account.
    pub fn from_cooldown(secs: u64) -> (r: Self)
        ensures
            r == UpstreamRateLimitError::cooldown(secs),
            r@ == Some(decimal(secs as nat)),
            !r.retries_locally(),
    {
        UpstreamRateLimitError {
            retry_after: Some(RetryAfter::Cooldown(secs)),
            retry_locally: false,
        }
    }

    /// The time to wait, as it is told to the client.
    pub fn retry_after(&self) -> (r: Option<String>)
        ensures
            opt_view(r) == self@,
    {
        match &self.retry_after {
            Some(RetryAfter::Upstream(t)) => Some(t.clone()),
            Some(RetryAfter::Cooldown(secs)) => Some(u64_text(*secs)),
            None => None,
        }
    }

    /// Whether the request may be tried again before the client hears of the
    /// error.
    pub fn should_retry_locally(&self) -> (r: bool)
        ensures
            r == self.retries_locally(),
    {
        self.retry_locally
    }

    /// Whether there is a time to wait.
    fn names_wait(&self) -> (r: bool)
        ensures
            r == (self@ is Some),
    {
        self.retry_after.is_some()
    }
}

impl Clone for UpstreamRateLimitError {
    fn clone(&self) -> (r: Self)
        ensures
            r == *self,
    {
        UpstreamRateLimitError {
            retry_after: match &self.retry_after {
                Some(RetryAfter::Upstream(t)) => Some(RetryAfter::Upstream(t.clone())),
                Some(RetryAfter::Cooldown(secs)) => Some(RetryAfter::Cooldown(*secs)),
                None => None,
            },
            retry_locally: self.retry_locally,
        }
    }
}

/// The error of an account-level 429, when the account cools down for so many
/// seconds, says so, and is for the client.
pub proof fn cooldown_error_tells_seconds(secs: u64)
    ensures
        UpstreamRateLimitError::cooldown(secs)@ == Some(decimal(secs as nat)),
        !UpstreamRateLimitError::cooldown(secs).retries_locally(),
{
}

/// What is called: the chat interface, for a streamed or a complete answer, or
/// a tool of the service.
#[derive(Debug, Clone, Copy, PartialEq, Eq, Structural)]
pub enum CallKind {
    Api { stream: bool },
    Mcp,
}

/// What the message of a refused call says beside the answer.
#[derive(Debug, Clone, Copy, PartialEq, Eq, Structural)]
pub enum Note {
    Plain,
    /// No credential is left.
    AllUsed,
    /// The account of the credential is suspended.
    Suspended,
    /// Another credential takes over from this one.
    Switched { id: u64 },
}

/// Why a call failed.
#[derive(Debug, PartialEq, Eq)]
pub enum CallError {
    /// A 429 of the service, to be handed to the client as it is.
    RateLimit(UpstreamRateLimitError),
    /// The service refused the call.
    Refused { kind: CallKind, note: Note, status: u16, body: String },
    /// No attempt is left, and none gave a reason.
    Exhausted { kind: CallKind, max_retries: usize },
    /// Any other reason, by its message.
    Other(String),
}

impl Clone for CallError {
    fn clone(&self) -> (r: Self)
        ensures
            r == *self,
    {
        match self {
            CallError::RateLimit(e) => CallError::RateLimit(e.clone()),
            CallError::Refused { kind, note, status, body } => CallError::Refused {
                kind: *kind,
                note: *note,
                status: *status,
                body: body.clone(),
            },
            CallError::Exhausted { kind, max_retries } => CallError::Exhausted {
                kind: *kind,
                max_retries: *max_retries,
            },
            CallError::Other(t) => CallError::Other(t.clone()),
        }
    }
}

/// Tests whether an error is a 429 of the service.
pub fn is_rate_limit_error(error: &CallError) -> (r: bool)
    ensures
        r == (error is RateLimit),
{
    match error {
        CallError::RateLimit(_) => true,
        _ => false,
    }
}

/// Takes the last error out where it is a 429 of the service; any other error
/// stays where it is.
pub fn take_rate_limit_error(last_error: &mut Option<CallError>) -> (r: Option<CallError>)
    ensures
        (match *old(last_error) {
            Some(CallError::RateLimit(_)) => r == *old(last_error) && *final(last_error) is None,
            _ => r is None && *final(last_error) == *old(last_error),
        }),
{
    let limited = match last_error {
        Some(e) => is_rate_limit_error(e),
        None => false,
    };
    if limited {
        last_error.take()
    } else {
        None
    }
}

/// The error of an account-level 429: the one that the service sent where it
/// names a time to wait, else one that asks to wait for the cooldown of the account.
pub open spec fn account_limit(
    rate_limit: Option<UpstreamRateLimitError>,
    cooldown_secs: u64,
) -> UpstreamRateLimitError {
    match rate_limit {
        Some(e) => if e@ is Some {
            e
        } else {
            UpstreamRateLimitError::cooldown(cooldown_secs)
        },
        None => UpstreamRateLimitError::cooldown(cooldown_secs),
    }
}

/// The error of an account-level 429, and whether the client is to hear of it
/// before anything is tried again.
pub fn account_rate_limit_with_fallback(
    rate_limit: Option<UpstreamRateLimitError>,
    cooldown_secs: u64,
) -> (r: (UpstreamRateLimitError, bool))
    ensures
        r.0 == account_limit(rate_limit, cooldown_secs),
        r.0@ is Some,
        r.1 == (rate_limit matches Some(e) && !e.retries_locally()),
{
    match rate_limit {
        Some(e) => {
            let must_wait = !e.should_retry_locally();
            if e.names_wait() {
                (e, must_wait)
            } else {
                (UpstreamRateLimitError::from_cooldown(cooldown_secs), must_wait)
            }
        },
        None => (UpstreamRateLimitError::from_cooldown(cooldown_secs), false),
    }
}

/// Whether a forced token refresh succeeded. A 429 is handed on as it is; any
/// other failure counts as a failed authentication.
pub fn handle_force_refresh_result(result: Result<(), CallError>) -> (r: Result<bool, CallError>)
    ensures
        r == (match result {
            Ok(()) => Ok(true),
            Err(CallError::RateLimit(e)) => Err(CallError::RateLimit(e)),
            Err(_) => Ok::<bool, CallError>(false),
        }),
{
    match result {
        Ok(()) => Ok(true),
        Err(CallError::RateLimit(e)) => Err(CallError::RateLimit(e)),
        Err(_) => Ok(false),
    }
}

/// The text of an HTTP status code, as `reqwest::StatusCode` displays it: the
/// number and its reason.
pub uninterp spec fn status_display(code: u16) -> Seq<char>;

/// Displays a `reqwest::StatusCode`, which exists for the numbers from 100 to
/// 999. The result is named `status_display`.
#[verifier::external_body]
fn status_text(code: u16) -> (r: Option<String>)
    ensures
        r is Some <==> 100 <= code <= 999,
        r matches Some(t) ==> t@ == status_display(code),
{
    reqwest::StatusCode::from_u16(code).ok().map(|status| status.to_string())
}

/// The text of an HTTP status code; a number that is none stands for itself.
pub open spec fn status_line(code: u16) -> Seq<char> {
    if 100 <= code <= 999 {
        status_display(code)
    } else {
        decimal(code as nat)
    }
}

/// What a call of a kind is named in messages.
pub open spec fn kind_label(kind: CallKind) -> Seq<char> {
    match kind {
        CallKind::Api { stream: true } => "流式 API 请求失败"@,
        CallKind::Api { stream: false } => "非流式 API 请求失败"@,
        CallKind::Mcp => "MCP 请求失败"@,
    }
}

/// A note, as messages about a kind of call word it.
pub open spec fn note_text(kind: CallKind, note: Note) -> Seq<char> {
    match note {
        Note::Plain => Seq::empty(),
        Note::AllUsed => "（所有凭据已用尽）"@,
        Note::Suspended => "（账号封禁）"@,
        Note::Switched { id } => "（凭据 #"@ + decimal(id as nat) + (if kind == CallKind::Mcp {
            " 普通 429，已切换其它凭据重试）"@
        } else {
            " 429，备用端点也失败，已切换其它凭据重试）"@
        }),
    }
}

/// The message of an error.
pub open spec fn error_message(e: CallError) -> Seq<char> {
    match e {
        CallError::RateLimit(_) => "上游限流: 429"@,
        CallError::Refused { kind, note, status, body } => kind_label(kind) + note_text(kind, note)
            + ": "@ + status_line(status) + " "@ + body@,
        CallError::Exhausted { kind, max_retries } => kind_label(kind) + "：已达到最大重试次数（"@
            + decimal(max_retries as nat) + "次）"@,
        CallError::Other(t) => t@,
    }
}

impl CallError {
    /// The message of the error.
    pub fn message(&self) -> (r: String)
        ensures
            r@ == error_message(*self),
    {
        match self {
            CallError::RateLimit(_) => "上游限流: 429".to_owned(),
            CallError::Refused { kind, note, status, body } => {
                let mut out = label(*kind);
                push_note(&mut out, *kind, *note);
                out.push_str(": ");
                match status_text(*status) {
                    Some(t) => {
                        out.push_str(t.as_str());
                    },
                    None => {
                        out.push_str(u64_text(*status as u64).as_str());
                    },
                }
                out.push_str(" ");
                out.push_str(body.as_str());
                out
            },
            CallError::Exhausted { kind, max_retries } => {
                let mut out = label(*kind);
                out.push_str("：已达到最大重试次数（");
                out.push_str(u64_text(*max_retries as u64).as_str());
                out.push_str("次）");
                out
            },
            CallError::Other(t) => t.clone(),
        }
    }
}

fn label(kind: CallKind) -> (r: String)
    ensures
        r@ == kind_label(kind),
{
    match kind {
        CallKind::Api { stream: true } => "流式 API 请求失败".to_owned(),
        CallKind::Api { stream: false } => "非流式 API 请求失败".to_owned(),
        CallKind::Mcp => "MCP 请求失败".to_owned(),
    }
}

fn push_note(out: &mut String, kind: CallKind, note: Note)
    ensures
        final(out)@ == old(out)@ + note_text(kind, note),
{
    match note {
        Note::Plain => {
            assert(out@ + Seq::<char>::empty() =~= out@);
        },
        Note::AllUsed => {
            out.push_str("（所有凭据已用尽）");
        },
        Note::Suspended => {
            out.push_str("（账号封禁）");
        },
        Note::Switched { id } => {
            let ghost before = out@;
            out.push_str("（凭据 #");
            out.push_str(u64_text(id).as_str());
            if kind == CallKind::Mcp {
                out.push_str(" 普通 429，已切换其它凭据重试）");
            } else {
                out.push_str(" 429，备用端点也失败，已切换其它凭据重试）");
            }
            assert(out@ =~= before + note_text(kind, note));
        },
    }
}

} // verus!
