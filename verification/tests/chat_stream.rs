use kiro_gateway::json::{parse_json, Json};
use kiro_gateway::openai::handlers::{
    chat_data_sse, is_delta_countable, unix_ts, usage_from_anthropic_delta, ChatStream,
    ChatStreamTranslator, SseFrame, SseFrameParser,
};

fn run_chat_translator(upstream: &str, include_usage: bool) -> Vec<Json> {
    let mut parser = SseFrameParser::new();
    let mut translator = ChatStreamTranslator::new("gpt-4o".to_string(), include_usage);
    let mut pieces: Vec<String> = Vec::new();
    for frame in parser.push(upstream.as_bytes()) {
        pieces.extend(translator.try_handle_frame(frame).unwrap());
    }
    pieces.extend(translator.finish());
    pieces.iter().map(|p| chunk(p)).collect()
}

/// The document of a piece; the end mark is null.
fn chunk(piece: &str) -> Json {
    let data = piece.strip_prefix("data: ").unwrap().strip_suffix("\n\n").unwrap();
    if data == "[DONE]" {
        Json::Null
    } else {
        parse_json(data).unwrap()
    }
}

fn choice(chunk: &Json) -> Option<&Json> {
    chunk.get("choices").and_then(|c| c.as_array()).and_then(|c| c.first())
}

fn delta<'a>(chunk: &'a Json, key: &str) -> Option<&'a Json> {
    choice(chunk).and_then(|c| c.get2("delta", key))
}

const TEXT: &str = "event: message_start\ndata: {\"type\":\"message_start\",\"message\":{\"id\":\"msg_1\"}}\n\n\
event: content_block_start\ndata: {\"type\":\"content_block_start\",\"index\":0,\"content_block\":{\"type\":\"text\",\"text\":\"\"}}\n\n\
event: content_block_delta\ndata: {\"type\":\"content_block_delta\",\"index\":0,\"delta\":{\"type\":\"text_delta\",\"text\":\"Hi\"}}\n\n\
event: content_block_delta\ndata: {\"type\":\"content_block_delta\",\"index\":0,\"delta\":{\"type\":\"text_delta\",\"text\":\" there\"}}\n\n\
event: content_block_stop\ndata: {\"type\":\"content_block_stop\",\"index\":0}\n\n\
event: message_delta\ndata: {\"type\":\"message_delta\",\"delta\":{\"stop_reason\":\"end_turn\"},\"usage\":{\"input_tokens\":5,\"output_tokens\":2}}\n\n\
event: message_stop\ndata: {\"type\":\"message_stop\"}\n\n";

const TOOLS: &str = "event: message_start\ndata: {\"type\":\"message_start\",\"message\":{\"id\":\"msg_1\"}}\n\n\
event: content_block_start\ndata: {\"type\":\"content_block_start\",\"index\":0,\"content_block\":{\"type\":\"tool_use\",\"id\":\"toolu_1\",\"name\":\"get_weather\"}}\n\n\
event: content_block_delta\ndata: {\"type\":\"content_block_delta\",\"index\":0,\"delta\":{\"type\":\"input_json_delta\",\"partial_json\":\"{\\\"city\\\":\\\"Paris\\\"}\"}}\n\n\
event: content_block_stop\ndata: {\"type\":\"content_block_stop\",\"index\":0}\n\n\
event: message_delta\ndata: {\"type\":\"message_delta\",\"delta\":{\"stop_reason\":\"tool_use\"},\"usage\":{\"input_tokens\":10,\"output_tokens\":4,\"cache_read_input_tokens\":2}}\n\n\
event: message_stop\ndata: {\"type\":\"message_stop\"}\n\n";

#[test]
fn chat_stream_emits_openai_text_chunks() {
    let chunks = run_chat_translator(TEXT, false);

    assert_eq!(delta(&chunks[0], "role").and_then(|j| j.as_str()), Some("assistant"));
    assert_eq!(chunks[0].get_str("object"), Some("chat.completion.chunk"));

    let text: String =
        chunks.iter().filter_map(|c| delta(c, "content").and_then(|j| j.as_str())).collect();
    assert_eq!(text, "Hi there");

    assert_eq!(chunks.last().unwrap(), &Json::Null);
    let finish = chunks.iter().find_map(|c| choice(c).and_then(|c| c.get_str("finish_reason")));
    assert_eq!(finish, Some("stop"));

    assert!(chunks.iter().all(|c| matches!(c.get("usage"), None | Some(Json::Null))));
}

#[test]
fn chat_stream_emits_tool_calls_and_usage() {
    let chunks = run_chat_translator(TOOLS, true);

    let calls = chunks
        .iter()
        .find_map(|c| delta(c, "tool_calls"))
        .expect("tool_calls delta present");
    let call = &calls.as_array().unwrap()[0];
    assert_eq!(call.get_i64("index"), Some(0));
    assert_eq!(call.get_str("id"), Some("toolu_1"));
    assert_eq!(call.get2_str("function", "name"), Some("get_weather"));
    assert_eq!(call.get2_str("function", "arguments"), Some("{\"city\":\"Paris\"}"));

    let finish = chunks.iter().find_map(|c| choice(c).and_then(|c| c.get_str("finish_reason")));
    assert_eq!(finish, Some("tool_calls"));

    let usage = chunks
        .iter()
        .find_map(|c| c.get("usage").filter(|u| **u != Json::Null))
        .expect("usage present when include_usage=true");
    assert_eq!(usage.get_i64("prompt_tokens"), Some(12));
    assert_eq!(usage.get_i64("completion_tokens"), Some(4));
    assert_eq!(usage.get_i64("total_tokens"), Some(16));
    assert_eq!(
        usage.get2("prompt_tokens_details", "cached_tokens").and_then(|j| j.as_i64()),
        Some(2)
    );
}

#[test]
fn one_end_mark_and_nothing_after_it() {
    let chunks = run_chat_translator(TEXT, true);
    assert_eq!(chunks.iter().filter(|c| **c == Json::Null).count(), 1);
    let mut t = ChatStreamTranslator::with_identity("i".to_string(), 7, "m".to_string(), false);
    assert_eq!(t.finish().last().map(|p| p.as_str()), Some("data: [DONE]\n\n"));
    assert!(t.finish().is_empty());
    let frame = SseFrame {
        event: "content_block_delta".to_string(),
        data: r#"{"delta":{"type":"text_delta","text":"x"}}"#.to_string(),
    };
    assert_eq!(t.try_handle_frame(frame), Some(Vec::new()));
}

#[test]
fn chunks_tell_their_identity() {
    let mut t = ChatStreamTranslator::with_identity("i".to_string(), 7, "m".to_string(), false);
    let frame = SseFrame {
        event: "content_block_delta".to_string(),
        data: r#"{"delta":{"type":"thinking_delta","thinking":"x"}}"#.to_string(),
    };
    let pieces = t.try_handle_frame(frame).unwrap();
    let last = chunk(pieces.last().unwrap());
    assert_eq!(last.get_str("id"), Some("i"));
    assert_eq!(last.get_i64("created"), Some(7));
    assert_eq!(last.get_str("model"), Some("m"));
    assert_eq!(delta(&last, "reasoning_content").and_then(|j| j.as_str()), Some("x"));
}

#[test]
fn chunks_of_bytes_make_no_difference() {
    let mut whole = SseFrameParser::new();
    let frames = whole.push(TEXT.as_bytes());
    assert_eq!(frames.len(), 7);
    for size in [1usize, 2, 3, 7, 64] {
        let mut parser = SseFrameParser::new();
        let mut got: Vec<SseFrame> = Vec::new();
        for piece in TEXT.as_bytes().chunks(size) {
            got.extend(parser.push(piece));
        }
        got.extend(parser.finish());
        assert_eq!(got, frames, "pieces of {size}");
    }
}

#[test]
fn the_last_frame_needs_no_end() {
    let mut parser = SseFrameParser::new();
    assert!(parser.push(b"event: a\r\ndata: 1\r\ndata: 2").is_empty());
    let last = parser.finish();
    assert_eq!(last, vec![SseFrame { event: "a".to_string(), data: "1\n2".to_string() }]);
    assert!(parser.finish().is_empty());
    assert!(parser.push(b"\xff\n\n").is_empty());
}

#[test]
fn a_stream_from_bytes_to_bytes() {
    let mut stream = ChatStream::new(ChatStreamTranslator::new("m".to_string(), false));
    let out = stream.push(TEXT.as_bytes());
    assert!(out.complete);
    assert_eq!(out.pieces.last().map(|p| p.as_str()), Some("data: [DONE]\n\n"));
    let end = stream.end();
    assert!(end.complete);
    assert!(end.pieces.is_empty());
    assert!(stream.finished());
}

#[test]
fn a_stream_that_breaks_off() {
    let mut stream = ChatStream::new(ChatStreamTranslator::new("m".to_string(), false));
    assert!(!stream.finished());
    let told = stream.fail("reset");
    assert!(told.contains("reset"), "{told}");
    assert!(stream.finished());
}

#[test]
fn a_stream_that_ends_early_is_ended() {
    let mut stream = ChatStream::new(ChatStreamTranslator::new("m".to_string(), false));
    stream.push(b"event: content_block_delta\ndata: {\"delta\":{\"type\":\"text_delta\",\"text\":\"x\"}}");
    let end = stream.end();
    assert_eq!(end.pieces.last().map(|p| p.as_str()), Some("data: [DONE]\n\n"));
    let text: String = end
        .pieces
        .iter()
        .map(|p| chunk(p))
        .filter_map(|c| delta(&c, "content").and_then(|j| j.as_str()).map(|t| t.to_string()))
        .collect();
    assert_eq!(text, "x");
}

#[test]
fn numbers_that_cannot_be_added_up() {
    let huge = r#"{"usage":{"input_tokens":9223372036854775807,"output_tokens":9223372036854775807}}"#;
    let data = parse_json(huge).unwrap();
    assert!(!is_delta_countable(&data));
    let mut t = ChatStreamTranslator::new("m".to_string(), true);
    let frame = SseFrame { event: "message_delta".to_string(), data: huge.to_string() };
    assert_eq!(t.try_handle_frame(frame), None);
    let small = parse_json(r#"{"usage":{"input_tokens":1,"output_tokens":2}}"#).unwrap();
    assert!(is_delta_countable(&small));
    assert_eq!(usage_from_anthropic_delta(&small).get_i64("total_tokens"), Some(3));
}

#[test]
fn frames_for_the_client() {
    assert_eq!(chat_data_sse(&Json::object().with("a", Json::Int(1))), "data: {\"a\":1}\n\n");
    assert!(unix_ts() > 1_700_000_000);
}

#[test]
fn arguments_in_pieces_arrive_whole() {
    let upstream = "event: content_block_start\ndata: {\"index\":3,\"content_block\":{\"type\":\"tool_use\",\"id\":\"a\",\"name\":\"f\"}}\n\n\
event: content_block_start\ndata: {\"index\":4,\"content_block\":{\"type\":\"tool_use\",\"id\":\"b\",\"name\":\"g\"}}\n\n\
event: content_block_delta\ndata: {\"index\":3,\"delta\":{\"type\":\"input_json_delta\",\"partial_json\":\"{\\\"x\\\":\"}}\n\n\
event: content_block_delta\ndata: {\"index\":4,\"delta\":{\"type\":\"input_json_delta\",\"partial_json\":\"[]\"}}\n\n\
event: content_block_delta\ndata: {\"index\":3,\"delta\":{\"type\":\"input_json_delta\",\"partial_json\":\"1}\"}}\n\n\
event: content_block_stop\ndata: {\"index\":4}\n\n\
event: content_block_stop\ndata: {\"index\":3}\n\n";
    let chunks = run_chat_translator(upstream, false);
    let calls: Vec<(i64, String, String)> = chunks
        .iter()
        .filter_map(|c| delta(c, "tool_calls"))
        .map(|list| {
            let call = &list.as_array().unwrap()[0];
            (
                call.get_i64("index").unwrap(),
                call.get_str("id").unwrap().to_string(),
                call.get2_str("function", "arguments").unwrap().to_string(),
            )
        })
        .collect();
    assert_eq!(
        calls,
        vec![
            (1, "b".to_string(), "[]".to_string()),
            (0, "a".to_string(), "{\"x\":1}".to_string()),
        ]
    );
}

#[test]
fn errors_of_the_service_end_the_stream() {
    let upstream = "event: error\ndata: {\"error\":{\"type\":\"overloaded_error\",\"message\":\"busy\"}}\n\n\
event: content_block_delta\ndata: {\"delta\":{\"type\":\"text_delta\",\"text\":\"late\"}}\n\n";
    let chunks = run_chat_translator(upstream, true);
    assert_eq!(chunks.len(), 2);
    assert_eq!(chunks[0].get2_str("error", "message"), Some("busy"));
    assert_eq!(chunks[1], Json::Null);
}

#[test]
fn cuts_make_no_difference_to_the_client() {
    let start = || {
        ChatStream::new(ChatStreamTranslator::with_identity(
            "i".to_string(),
            7,
            "m".to_string(),
            true,
        ))
    };
    let mut whole = start();
    let pieces = whole.push(TOOLS.as_bytes()).pieces;
    for cut in 0..TOOLS.len() {
        let mut stream = start();
        let mut got = stream.push(TOOLS[..cut].as_bytes()).pieces;
        got.extend(stream.push(TOOLS[cut..].as_bytes()).pieces);
        assert_eq!(got, pieces, "cut at {cut}");
    }
}
