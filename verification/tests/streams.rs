use kiro_gateway::kiro::parser::crc::crc32;
use kiro_gateway::kiro::parser::decoder::{read_frame, read_frames};
use kiro_gateway::kiro::provider::{
    credential_test_request, fresh_test_request, CredentialTestResult,
};
use kiro_gateway::kiro::snippet::{readable_response_snippet_from_bytes, truncate_snippet};

fn string_header(name: &str, value: &str) -> Vec<u8> {
    let mut out = Vec::new();
    out.push(name.len() as u8);
    out.extend_from_slice(name.as_bytes());
    out.push(7);
    out.extend_from_slice(&(value.len() as u16).to_be_bytes());
    out.extend_from_slice(value.as_bytes());
    out
}

fn frame_with(headers: Vec<u8>, payload: &str) -> Vec<u8> {
    let total_len = 12 + headers.len() + payload.len() + 4;
    let mut frame = Vec::new();
    frame.extend_from_slice(&(total_len as u32).to_be_bytes());
    frame.extend_from_slice(&(headers.len() as u32).to_be_bytes());
    frame.extend_from_slice(&crc32(&frame).to_be_bytes());
    frame.extend(headers);
    frame.extend_from_slice(payload.as_bytes());
    let checksum = crc32(&frame);
    frame.extend_from_slice(&checksum.to_be_bytes());
    frame
}

fn event_stream_frame(event_type: &str, payload: &str) -> Vec<u8> {
    let mut headers = Vec::new();
    headers.extend(string_header(":event-type", event_type));
    headers.extend(string_header(":content-type", "application/json"));
    headers.extend(string_header(":message-type", "event"));
    frame_with(headers, payload)
}

#[test]
fn readable_response_snippet_decodes_event_stream_assistant_text() {
    let mut body = Vec::new();
    body.extend(event_stream_frame(
        "assistantResponseEvent",
        r#"{"content":"Hello ","modelId":"glm-5"}"#,
    ));
    body.extend(event_stream_frame(
        "assistantResponseEvent",
        r#"{"content":"world","modelId":"glm-5"}"#,
    ));
    body.extend(event_stream_frame("meteringEvent", r#"{"unit":"credit","usage":0.1}"#));

    assert_eq!(
        readable_response_snippet_from_bytes(&body, 4096).as_deref(),
        Some("Hello world")
    );
}

#[test]
fn readable_response_snippet_falls_back_to_plain_text() {
    assert_eq!(
        readable_response_snippet_from_bytes(b"{\"message\":\"bad request\"}", 4096).as_deref(),
        Some("{\"message\":\"bad request\"}")
    );
}

#[test]
fn errors_in_a_stream_are_told() {
    let mut headers = string_header(":message-type", "error");
    headers.extend(string_header(":error-code", "Throttled"));
    let mut body = frame_with(headers, "slow");
    body.extend(frame_with(string_header(":message-type", "exception"), "oops"));
    assert_eq!(
        readable_response_snippet_from_bytes(&body, 4096).as_deref(),
        Some("Throttled: slow\nUnknownException: oops")
    );
    body.extend(event_stream_frame("assistantResponseEvent", r#"{"content":"ok"}"#));
    assert_eq!(readable_response_snippet_from_bytes(&body, 4096).as_deref(), Some("ok"));
}

#[test]
fn bytes_that_are_no_text_are_replaced() {
    assert_eq!(readable_response_snippet_from_bytes(b"", 4096).as_deref(), None);
    assert_eq!(
        readable_response_snippet_from_bytes(b"a\xffb", 4096).as_deref(),
        Some("a\u{fffd}b")
    );
}

#[test]
fn check_sums() {
    assert_eq!(crc32(b"123456789"), 0xcbf4_3926);
    assert_eq!(crc32(b""), 0);
}

#[test]
fn a_frame_reads_back() {
    let mut bytes = event_stream_frame("x", "payload");
    let whole = bytes.len();
    bytes.extend_from_slice(b"rest");
    let (frame, used) = read_frame(&bytes).unwrap();
    assert_eq!(used, whole);
    assert_eq!(frame.payload, b"payload".to_vec());
    assert_eq!(frame.header(b":event-type"), Some(&b"x".to_vec()));
    assert_eq!(frame.header(b":message-type"), Some(&b"event".to_vec()));
    assert_eq!(frame.header(b"absent"), None);
    assert!(read_frame(&bytes[..whole - 1]).is_none());
}

#[test]
fn damaged_frames_are_passed_over() {
    let mut bytes = event_stream_frame("a", "1");
    let first = bytes.len();
    bytes.extend(event_stream_frame("b", "2"));
    assert_eq!(read_frames(&bytes).len(), 2);
    bytes[first - 1] ^= 1;
    let frames = read_frames(&bytes);
    assert_eq!(frames.len(), 1);
    assert_eq!(frames[0].payload, b"2".to_vec());
    let last = bytes.len() - 1;
    bytes[last] ^= 1;
    assert!(read_frames(&bytes).is_empty());
}

#[test]
fn damaged_lengths_end_the_stream() {
    let mut bytes = event_stream_frame("a", "1");
    bytes.extend(event_stream_frame("b", "2"));
    bytes[8] ^= 1;
    assert!(read_frames(&bytes).is_empty());
}

#[test]
fn excerpts_go_on_after_a_damaged_frame() {
    let mut body = event_stream_frame("assistantResponseEvent", r#"{"content":"lost"}"#);
    let last = body.len() - 1;
    body[last] ^= 1;
    body.extend(event_stream_frame("assistantResponseEvent", r#"{"content":"kept"}"#));
    assert_eq!(readable_response_snippet_from_bytes(&body, 100).as_deref(), Some("kept"));
}

#[test]
fn results_of_credential_tests() {
    let good = CredentialTestResult::answered(3, "m".to_string(), 12, 204, b"", 4096);
    assert!(good.success);
    assert_eq!(good.http_status, Some(204));
    assert_eq!(good.response_snippet, None);
    assert_eq!(good.error, None);
    let bad = CredentialTestResult::answered(3, "m".to_string(), 12, 300, b"not", 2);
    assert!(!bad.success);
    assert_eq!(bad.response_snippet.as_deref(), Some("no"));
    assert_eq!(bad.error.as_deref(), Some("HTTP 300"));
    let unsent = CredentialTestResult::unsent(3, "m".to_string(), 12, "e".to_string());
    assert_eq!(unsent.http_status, None);
    assert_eq!(unsent.error.as_deref(), Some("e"));
}

#[test]
fn headers_of_other_types_are_passed_over() {
    let mut headers = vec![1u8, b'n', 4, 0, 0, 0, 9];
    headers.extend(vec![1u8, b'b', 0]);
    headers.extend(vec![1u8, b's', 9]);
    headers.extend(vec![0u8; 16]);
    headers.extend(string_header("t", "text"));
    let bytes = frame_with(headers, "p");
    let frames = read_frames(&bytes);
    assert_eq!(frames.len(), 1);
    assert_eq!(frames[0].headers.len(), 1);
    assert_eq!(frames[0].header(b"t"), Some(&b"text".to_vec()));
    let unknown = frame_with(vec![1u8, b'u', 10], "p");
    assert!(read_frames(&unknown).is_empty());
}

#[test]
fn texts_are_cut_to_a_limit() {
    assert_eq!(truncate_snippet("", 4), None);
    assert_eq!(truncate_snippet("four", 4).as_deref(), Some("four"));
    assert_eq!(truncate_snippet("fours", 4).as_deref(), Some("four"));
    assert_eq!(truncate_snippet("\u{9519}\u{8bef}s", 2).as_deref(), Some("\u{9519}\u{8bef}"));
}

#[test]
fn excerpts_are_cut_to_a_limit() {
    let stream = event_stream_frame("assistantResponseEvent", r#"{"content":"Hello"}"#);
    assert_eq!(readable_response_snippet_from_bytes(&stream, 4).as_deref(), Some("Hell"));
    let error = frame_with(string_header(":message-type", "exception"), "oops");
    assert_eq!(readable_response_snippet_from_bytes(&error, 7).as_deref(), Some("Unknown"));
    assert_eq!(readable_response_snippet_from_bytes(b"plain", 2).as_deref(), Some("pl"));
}

#[test]
fn credentials_are_tested_with_a_greeting() {
    let request = credential_test_request("c".to_string(), "m".to_string());
    assert_eq!(request.conversation_id, "c");
    assert_eq!(request.agent_continuation_id, "c");
    assert_eq!(request.agent_task_type, "vibe");
    assert_eq!(request.chat_trigger_type, "MANUAL");
    assert_eq!(request.content, "hello");
    assert_eq!(request.model_id, "m");
    assert_eq!(request.profile_arn, None);
    let fresh = fresh_test_request("m".to_string());
    assert_eq!(fresh.conversation_id.len(), 36);
    assert_eq!(fresh.conversation_id, fresh.agent_continuation_id);
    assert_ne!(fresh.conversation_id, fresh_test_request("m".to_string()).conversation_id);
}
