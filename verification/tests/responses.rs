use kiro_gateway::json::{parse_json, Json};
use kiro_gateway::openai::handlers::{completion_from, convert_chat_response_body, unread_body_error, Completion};
use kiro_gateway::openai::parse::{
    chat_message_from_parsed, chat_usage_json, collect_text_strings, convert_error_body,
    parse_anthropic_message, parse_data_url, parse_sse_frame, push_merged,
    resolve_session_metadata,
};
use kiro_gateway::openai::sse::take_sse_frames;
use kiro_gateway::openai::types::{
    assistant_message_for_history, assistant_parts_from_anthropic, chat_message_from_parts,
    finish_reason_from_anthropic, is_countable, openai_error, usage_json,
};

fn json(text: &str) -> Json {
    parse_json(text).unwrap()
}

fn first<'a>(j: &'a Json, key: &str) -> &'a Json {
    &j.get(key).unwrap().as_array().unwrap()[0]
}

#[test]
fn parse_anthropic_message_extracts_credit_fields() {
    let anthropic = json(
        r#"{
            "content": [{"type": "text", "text": "hi"}],
            "stop_reason": "end_turn",
            "usage": {
                "input_tokens": 10,
                "output_tokens": 5,
                "credit_usage": 1.5,
                "credit_unit": "credit",
                "credit_unit_plural": "credits"
            }
        }"#,
    );
    let p = parse_anthropic_message(&anthropic, "m");
    assert_eq!(p.credit_usage.map(f64::from_bits), Some(1.5));
    assert_eq!(p.credit_unit.as_deref(), Some("credit"));
    assert_eq!(p.credit_unit_plural.as_deref(), Some("credits"));
}

#[test]
fn parse_anthropic_message_combines_all_input_categories() {
    let anthropic = json(
        r#"{
            "content": [],
            "stop_reason": "end_turn",
            "usage": {
                "input_tokens": 3,
                "cache_creation_input_tokens": 4,
                "cache_read_input_tokens": 5,
                "output_tokens": 6
            }
        }"#,
    );
    let p = parse_anthropic_message(&anthropic, "m");
    assert_eq!(p.prompt_tokens, 12);
    assert_eq!(p.cached_tokens, 5);
    assert_eq!(p.completion_tokens, 6);
}

#[test]
fn parse_anthropic_message_sanitizes_negative_and_missing_usage() {
    let anthropic = json(
        r#"{
            "content": [{"type": "text", "text": "x"}],
            "stop_reason": "end_turn",
            "usage": { "input_tokens": -7, "output_tokens": -3 }
        }"#,
    );
    let p = parse_anthropic_message(&anthropic, "m");
    assert_eq!(p.prompt_tokens, 0);
    assert_eq!(p.completion_tokens, 0);
}

#[test]
fn parse_anthropic_message_without_credit_fields_leaves_them_none() {
    let anthropic = json(
        r#"{
            "content": [],
            "stop_reason": "end_turn",
            "usage": { "input_tokens": 1, "output_tokens": 1 }
        }"#,
    );
    let p = parse_anthropic_message(&anthropic, "m");
    assert!(p.credit_usage.is_none());
    assert!(p.credit_unit.is_none());
    assert!(p.credit_unit_plural.is_none());
}

#[test]
fn error_bodies_that_are_no_json() {
    let v = convert_error_body(b"not-json retry later");
    assert!(v.get("type").is_none());
    assert_eq!(v.get2_str("error", "type"), Some("server_error"));
    assert_eq!(v.get2_str("error", "message"), Some("not-json retry later"));
}

#[test]
fn error_bodies_lose_their_envelope() {
    let v = convert_error_body(
        br#"{"type": "error", "error": {"type": "rate_limit_error", "message": "slow down"}}"#,
    );
    assert!(v.get("type").is_none());
    assert_eq!(v.get2_str("error", "type"), Some("rate_limit_error"));
    assert_eq!(v.get2_str("error", "message"), Some("slow down"));
}

#[test]
fn chat_message_and_usage_from_parsed_response() {
    let anthropic = json(
        r#"{
            "content": [
                {"type": "thinking", "thinking": "plan"},
                {"type": "text", "text": ""},
                {"type": "tool_use", "id": "call_1", "name": "get_weather", "input": {"city": "Paris"}}
            ],
            "stop_reason": "tool_use",
            "usage": {
                "input_tokens": 3,
                "cache_creation_input_tokens": 4,
                "cache_read_input_tokens": 5,
                "output_tokens": 6,
                "credit_usage": 0.25
            }
        }"#,
    );
    let p = parse_anthropic_message(&anthropic, "gpt-4o");
    assert_eq!(p.finish_reason, "tool_calls");
    let message = chat_message_from_parsed(&p);
    assert_eq!(message.get("content"), Some(&Json::Null));
    assert_eq!(message.get_str("reasoning_content"), Some("plan"));
    assert_eq!(first(&message, "tool_calls").get_str("id"), Some("call_1"));
    let usage = chat_usage_json(&p);
    assert_eq!(usage.get_i64("prompt_tokens"), Some(12));
    assert_eq!(usage.get_i64("completion_tokens"), Some(6));
    assert_eq!(
        usage.get2("prompt_tokens_details", "cached_tokens").and_then(|j| j.as_i64()),
        Some(5)
    );
    assert_eq!(
        usage.get("credit_usage").and_then(|j| j.as_float_bits()).map(f64::from_bits),
        Some(0.25)
    );
}

#[test]
fn sse_parser_handles_chunk_boundaries_and_crlf() {
    let mut buffer = b"event: ping\r\ndata: {}\r\n\r".to_vec();
    assert!(take_sse_frames(&mut buffer).is_empty());
    buffer.extend_from_slice(b"\nevent: message_stop\n");
    let first = take_sse_frames(&mut buffer);
    assert_eq!(first.len(), 1);
    assert_eq!(parse_sse_frame(&first[0]).unwrap().unwrap().0, "ping");
    buffer.extend_from_slice(b"data: {\"type\":\"message_stop\"}\n\n");
    let second = take_sse_frames(&mut buffer);
    assert_eq!(second.len(), 1);
    assert_eq!(parse_sse_frame(&second[0]).unwrap().unwrap().0, "message_stop");
}

#[test]
fn frames_that_are_no_event() {
    assert_eq!(parse_sse_frame(b": comment\n"), Ok(None));
    assert_eq!(parse_sse_frame(b"data: {"), Ok(None));
    let e = parse_sse_frame(b"event: x\ndata: {").unwrap_err();
    assert!(e.starts_with("failed to parse upstream SSE event x: EOF"), "{e}");
    assert_eq!(
        parse_sse_frame(b"data: \xff").unwrap_err(),
        "upstream sent invalid UTF-8 SSE: invalid utf-8 sequence of 1 bytes from index 6"
    );
    let (event, data) =
        parse_sse_frame(b"event: x\ndata: {\"type\":\"y\",\ndata: \"a\":1}").unwrap().unwrap();
    assert_eq!(event, "x");
    assert_eq!(data.get_i64("a"), Some(1));
    let (event, data) = parse_sse_frame(b"event: ping").unwrap().unwrap();
    assert_eq!(event, "ping");
    assert_eq!(data.to_text(), r#"{"type":"ping"}"#);
}

#[test]
fn chunks_of_a_stream_make_no_difference() {
    let all = b"event: a\ndata: 1\n\nevent: b\r\ndata: 2\r\n\r\ndata: 3\n\nrest".to_vec();
    let mut whole = all.clone();
    let frames = take_sse_frames(&mut whole);
    assert_eq!(frames.len(), 3);
    assert_eq!(whole, b"rest".to_vec());
    for cut in 0..all.len() {
        let mut buffer = all[..cut].to_vec();
        let mut got = take_sse_frames(&mut buffer);
        buffer.extend_from_slice(&all[cut..]);
        got.extend(take_sse_frames(&mut buffer));
        assert_eq!(got, frames, "cut at {cut}");
        assert_eq!(buffer, whole);
    }
}

#[test]
fn whole_responses_become_chat_completions() {
    let response = json(
        r#"{"model":"m","content":[{"type":"text","text":"hi"}],"stop_reason":"max_tokens",
            "usage":{"input_tokens":1,"output_tokens":2,"cache_read_input_tokens":3}}"#,
    );
    match completion_from(Ok(response), "f", "chatcmpl-1", 7) {
        Completion::Made(j) => {
            assert_eq!(j.get_str("id"), Some("chatcmpl-1"));
            assert_eq!(j.get_str("object"), Some("chat.completion"));
            assert_eq!(j.get_i64("created"), Some(7));
            assert_eq!(j.get_str("model"), Some("m"));
            let choice = first(&j, "choices");
            assert_eq!(choice.get_str("finish_reason"), Some("length"));
            assert_eq!(choice.get2_str("message", "content"), Some("hi"));
            assert_eq!(choice.get2_str("message", "role"), Some("assistant"));
            let usage = j.get("usage").unwrap();
            assert_eq!(usage.get_i64("prompt_tokens"), Some(4));
            assert_eq!(usage.get_i64("completion_tokens"), Some(2));
            assert_eq!(usage.get_i64("total_tokens"), Some(6));
        }
        _ => panic!("a completion is due"),
    }
}

#[test]
fn bodies_that_are_no_response() {
    match completion_from(Err("e".to_string()), "f", "i", 0) {
        Completion::Unreadable(j) => {
            assert_eq!(j.get2_str("error", "message"), Some("failed to parse upstream response: e"));
            assert_eq!(j.get2_str("error", "type"), Some("server_error"));
        }
        _ => panic!("an error is due"),
    }
    assert!(matches!(convert_chat_response_body(b"{", "f"), Completion::Unreadable(_)));
    let huge = br#"{"usage":{"input_tokens":9223372036854775807,"output_tokens":9223372036854775807}}"#;
    assert!(matches!(convert_chat_response_body(huge, "f"), Completion::Uncountable));
    assert_eq!(
        unread_body_error("x").get2_str("error", "message"),
        Some("failed to read upstream response: x")
    );
}

#[test]
fn completions_have_an_identifier_of_their_own() {
    let id = |c: Completion| match c {
        Completion::Made(j) => {
            assert!(j.get_i64("created").unwrap() > 1_700_000_000);
            assert_eq!(j.get_str("model"), Some("f-sonnet-4.5"));
            j.get_str("id").unwrap().to_string()
        }
        _ => panic!("a completion is due"),
    };
    let a = id(convert_chat_response_body(b"{}", "f"));
    let b = id(convert_chat_response_body(b"{}", "f"));
    assert_ne!(a, b);
    assert!(a.starts_with("chatcmpl-"));
}

#[test]
fn parts_of_a_response() {
    let parts = assistant_parts_from_anthropic(
        &json(
            r#"{"content":[{"type":"text","text":"a"},{"type":"thinking","thinking":"t"},
                {"type":"text","text":"b"},{"type":"tool_use","id":"i","name":"n","input":{"k":1}}],
                "usage":{"input_tokens":"x","output_tokens":3}}"#,
        ),
        "f",
    );
    assert_eq!(parts.text, "ab");
    assert_eq!(parts.reasoning, "t");
    assert_eq!(parts.stop_reason, "end_turn");
    assert_eq!(parts.input_tokens, 0);
    assert_eq!(parts.output_tokens, 3);
    assert_eq!(parts.model, "f-sonnet-4.5");
    assert_eq!(parts.tool_calls[0].function.arguments, "{\"k\":1}");
    assert!(is_countable(&parts));
    assert_eq!(usage_json(&parts).get_i64("total_tokens"), Some(3));
    let message = chat_message_from_parts(&parts);
    assert_eq!(message.get_str("content"), Some("ab"));
    let history = assistant_message_for_history(&parts);
    assert_eq!(history.role, "assistant");
    assert_eq!(history.tool_calls.len(), 1);
    assert_eq!(finish_reason_from_anthropic("end_turn", true), "tool_calls");
    assert_eq!(finish_reason_from_anthropic("end_turn", false), "stop");
}

#[test]
fn errors_for_clients() {
    let e = openai_error("m", "t");
    assert_eq!(e.get2_str("error", "message"), Some("m"));
    assert_eq!(e.get2_str("error", "type"), Some("t"));
}

#[test]
fn data_urls() {
    assert_eq!(parse_data_url("data:image/png;base64,QUJD"), Some(("image/png", "QUJD")));
    assert_eq!(parse_data_url("https://x/y.png"), None);
    assert_eq!(parse_data_url("data:image/png,QUJD"), None);
}

#[test]
fn the_session_is_the_first_identifier_that_reads_as_one() {
    let a = "67e55044-10b1-426f-9247-bb680e5fe0c8";
    let user = |s: Option<&str>, t: Option<&str>| {
        resolve_session_metadata(s, t, None, None).and_then(|m| m.user_id)
    };
    let got = user(Some("x"), Some(a)).unwrap();
    assert!(got.contains(a), "{got}");
    assert_eq!(user(Some("x"), None), None);
    assert_eq!(user(Some("67E5504410B1426F9247BB680E5FE0C8"), None), Some(got));
}

#[test]
fn turns_of_one_role_are_merged() {
    let mut merged: Vec<(String, Vec<Json>)> = Vec::new();
    push_merged(&mut merged, "user", vec![Json::Int(1)]);
    push_merged(&mut merged, "user", vec![Json::Int(2)]);
    push_merged(&mut merged, "assistant", Vec::new());
    push_merged(&mut merged, "assistant", vec![Json::Int(3)]);
    assert_eq!(
        merged,
        vec![
            ("user".to_string(), vec![Json::Int(1), Json::Int(2)]),
            ("assistant".to_string(), vec![Json::Int(3)]),
        ]
    );
}

#[test]
fn texts_of_a_content() {
    assert!(collect_text_strings(None).is_empty());
    assert_eq!(collect_text_strings(Some(&Json::text("a"))), vec!["a".to_string()]);
}

#[test]
fn searches_that_were_answered() {
    let p = parse_anthropic_message(
        &json(
            r#"{"content":[{"type":"server_tool_use","id":"s","name":"web_search","input":{"query":"q"}},
                {"type":"text","text":"a"}]}"#,
        ),
        "m",
    );
    assert_eq!(p.web_searches, vec![("s".to_string(), "q".to_string())]);
    assert_eq!(p.text, "a");
    assert_eq!(p.finish_reason, "stop");
    assert_eq!(p.model, "m");
}
