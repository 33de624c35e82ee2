//! What the chunks of a stream say, in terms of the frames that came from the
//! service.

use vstd::prelude::*;
use vstd::utf8::{decode_utf8, valid_utf8};

use crate::encoding::utf8_fault;
use crate::ids::is_simple_uuid;
use crate::json::{json_parse, JsonView};
use crate::openai::handlers::{
    chunk_json, event_taken, finished, frame_in, frame_taken, frame_texts, frames_said,
    frames_taken, fresh_stream, is_completion_id, piece_text, piece_texts, role_pieces, takeable,
    text_split, FrameText, Piece, SseFrame, StreamState,
};
use crate::openai::parse::{event_in, frame_event};
use crate::openai::response_laws::{first_choice, reports, tokens_told};
use crate::openai::sse::{
    byte_views, crlf_gap, fields_of, first_from, is_ascii_space, kept_frame, lf_gap, sse_split, stands_at, with_line,
    with_lines, without_cr, FieldsView,
};
use crate::openai::stream_laws::{
    argument_pieces, arguments_arrive_whole, block_told, is_event_of, text_at,
};
use crate::text::{find_from, is_white, join_spec, occurs_at, split_by, trim, trim_start};

verus! {

broadcast use vstd::string::group_string_axioms;

/// The words are told apart by their lengths, or by a letter.
proof fn lemma_keys_differ()
    ensures
        "id"@.len() == 2,
        "object"@.len() == 6,
        "created"@.len() == 7,
        "model"@.len() == 5,
        "choices"@.len() == 7,
        "usage"@.len() == 5,
        "index"@.len() == 5,
        "delta"@.len() == 5,
        "logprobs"@.len() == 8,
        "finish_reason"@.len() == 13,
        "role"@.len() == 4,
        "content"@.len() == 7,
        "reasoning_content"@.len() == 17,
        "tool_calls"@.len() == 10,
        "type"@.len() == 4,
        "function"@.len() == 8,
        "name"@.len() == 4,
        "arguments"@.len() == 9,
        "error"@.len() == 5,
        "created"@ != "choices"@,
        "created"@ != "content"@,
        "model"@ != "usage"@,
        "model"@ != "index"@,
        "model"@ != "delta"@,
        "model"@ != "error"@,
        "choices"@ != "content"@,
        "usage"@ != "index"@,
        "usage"@ != "delta"@,
        "usage"@ != "error"@,
        "index"@ != "delta"@,
        "index"@ != "error"@,
        "delta"@ != "error"@,
        "logprobs"@ != "function"@,
        "role"@ != "type"@,
        "role"@ != "name"@,
        "type"@ != "name"@,
{
    reveal_strlit("id");
    reveal_strlit("object");
    reveal_strlit("created");
    reveal_strlit("model");
    reveal_strlit("choices");
    reveal_strlit("usage");
    reveal_strlit("index");
    reveal_strlit("delta");
    reveal_strlit("logprobs");
    reveal_strlit("finish_reason");
    reveal_strlit("role");
    reveal_strlit("content");
    reveal_strlit("reasoning_content");
    reveal_strlit("tool_calls");
    reveal_strlit("type");
    reveal_strlit("function");
    reveal_strlit("name");
    reveal_strlit("arguments");
    reveal_strlit("error");
    assert("created"@[1] != "choices"@[1]);
    assert("created"@[1] != "content"@[1]);
    assert("model"@[0] != "usage"@[0]);
    assert("model"@[0] != "index"@[0]);
    assert("model"@[0] != "delta"@[0]);
    assert("model"@[0] != "error"@[0]);
    assert("choices"@[1] != "content"@[1]);
    assert("usage"@[0] != "index"@[0]);
    assert("usage"@[0] != "delta"@[0]);
    assert("usage"@[0] != "error"@[0]);
    assert("index"@[0] != "delta"@[0]);
    assert("index"@[0] != "error"@[0]);
    assert("delta"@[0] != "error"@[0]);
    assert("logprobs"@[0] != "function"@[0]);
    assert("role"@[0] != "type"@[0]);
    assert("role"@[0] != "name"@[0]);
    assert("type"@[0] != "name"@[0]);
}

/// The words are told apart by their lengths, or by a letter.
proof fn lemma_events_differ()
    ensures
        "ping"@.len() == 4,
        "message_start"@.len() == 13,
        "content_block_start"@.len() == 19,
        "content_block_delta"@.len() == 19,
        "content_block_stop"@.len() == 18,
        "message_delta"@.len() == 13,
        "message_stop"@.len() == 12,
        "error"@.len() == 5,
        "message_start"@ != "message_delta"@,
        "content_block_start"@ != "content_block_delta"@,
{
    reveal_strlit("ping");
    reveal_strlit("message_start");
    reveal_strlit("content_block_start");
    reveal_strlit("content_block_delta");
    reveal_strlit("content_block_stop");
    reveal_strlit("message_delta");
    reveal_strlit("message_stop");
    reveal_strlit("error");
    assert("message_start"@[8] != "message_delta"@[8]);
    assert("content_block_start"@[14] != "content_block_delta"@[14]);
}

/// The words are told apart by their lengths, or by a letter.
proof fn lemma_deltas_differ()
    ensures
        "text_delta"@.len() == 10,
        "thinking_delta"@.len() == 14,
        "input_json_delta"@.len() == 16,
{
    reveal_strlit("text_delta");
    reveal_strlit("thinking_delta");
    reveal_strlit("input_json_delta");
}

/// The words are told apart by their lengths, or by a letter.
proof fn lemma_reasons_differ()
    ensures
        "tool_use"@.len() == 8,
        "max_tokens"@.len() == 10,
        "model_context_window_exceeded"@.len() == 29,
        "end_turn"@.len() == 8,
        "tool_use"@ != "end_turn"@,
{
    reveal_strlit("tool_use");
    reveal_strlit("max_tokens");
    reveal_strlit("model_context_window_exceeded");
    reveal_strlit("end_turn");
    assert("tool_use"@[0] != "end_turn"@[0]);
}

/// The words are told apart by their lengths, or by a letter.
proof fn lemma_usage_keys_differ()
    ensures
        "prompt_tokens"@.len() == 13,
        "completion_tokens"@.len() == 17,
        "total_tokens"@.len() == 12,
        "prompt_tokens_details"@.len() == 21,
        "completion_tokens_details"@.len() == 25,
        "credit_usage"@.len() == 12,
        "credit_unit"@.len() == 11,
        "credit_unit_plural"@.len() == 18,
        "total_tokens"@ != "credit_usage"@,
{
    reveal_strlit("prompt_tokens");
    reveal_strlit("completion_tokens");
    reveal_strlit("total_tokens");
    reveal_strlit("prompt_tokens_details");
    reveal_strlit("completion_tokens_details");
    reveal_strlit("credit_usage");
    reveal_strlit("credit_unit");
    reveal_strlit("credit_unit_plural");
    assert("total_tokens"@[0] != "credit_usage"@[0]);
}

/// The reason for the end that a piece tells.
pub open spec fn reason_told(p: Piece) -> Option<Seq<char>> {
    match p {
        Piece::Data(j) => first_choice(j).get_str("finish_reason"@),
        Piece::End => None,
    }
}

/// The frame starts a block that calls a tool.
pub open spec fn starts_a_call(frame: FrameText) -> bool {
    &&& frame.event == "content_block_start"@
    &&& json_parse(frame.data) matches Ok(data)
    &&& data.get2_str("content_block"@, "type"@) == Some("tool_use"@)
}

/// A tool is called in some frame.
pub open spec fn some_call(frames: Seq<FrameText>) -> bool {
    exists|i: int| 0 <= i < frames.len() && starts_a_call(#[trigger] frames[i])
}

proof fn lemma_front(s: StreamState, frames: Seq<FrameText>)
    requires
        frames.len() > 0,
        frames_taken(s, frames).2,
        !frames_taken(s, frames).0.done,
    ensures
        frames_taken(s, frames.drop_last()).2,
        !frames_taken(s, frames.drop_last()).0.done,
        ({
            let before = frames_taken(s, frames.drop_last());
            let taken = frame_taken(before.0, frames.last().event, json_parse(frames.last().data));
            &&& takeable(before.0, frames.last().event, json_parse(frames.last().data))
            &&& frames_taken(s, frames).0 == taken.0
            &&& frames_taken(s, frames).1 == before.1 + taken.1
        }),
{
}

proof fn lemma_calls_seen(s: StreamState, frames: Seq<FrameText>)
    requires
        frames_taken(s, frames).2,
        !frames_taken(s, frames).0.done,
    ensures
        frames_taken(s, frames).0.saw_tool_calls == (s.saw_tool_calls || some_call(frames)),
        frames_taken(s, frames).0.include_usage == s.include_usage,
        frames_taken(s, frames).0.id == s.id,
        frames_taken(s, frames).0.model == s.model,
        frames_taken(s, frames).0.created == s.created,
    decreases frames.len(),
{
    if frames.len() > 0 {
        lemma_front(s, frames);
        lemma_events_differ();
        let front = frames.drop_last();
        lemma_calls_seen(s, front);
        let frame = frames.last();
        assert(frame == frames[frames.len() - 1]);
        if some_call(front) {
            let i = choose|i: int| 0 <= i < front.len() && starts_a_call(#[trigger] front[i]);
            assert(starts_a_call(frames[i]));
        }
        if some_call(frames) && !starts_a_call(frame) {
            let i = choose|i: int| 0 <= i < frames.len() && starts_a_call(#[trigger] frames[i]);
            assert(starts_a_call(front[i]));
        }
    }
}

proof fn lemma_reason_stays(s: StreamState, frames: Seq<FrameText>)
    requires
        frames_taken(s, frames).2,
        !frames_taken(s, frames).0.done,
        forall|i: int| 0 <= i < frames.len() ==> (#[trigger] frames[i]).event != "message_delta"@,
    ensures
        frames_taken(s, frames).0.stop_reason == s.stop_reason,
        frames_taken(s, frames).0.usage == s.usage,
    decreases frames.len(),
{
    if frames.len() > 0 {
        lemma_front(s, frames);
        lemma_events_differ();
        let front = frames.drop_last();
        assert forall|i: int| 0 <= i < front.len() implies (#[trigger] front[i]).event
            != "message_delta"@ by {
            assert(front[i] == frames[i]);
        }
        lemma_reason_stays(s, front);
        assert(frames.last() == frames[frames.len() - 1]);
    }
}

proof fn lemma_in_parts(s: StreamState, a: Seq<FrameText>, b: Seq<FrameText>)
    requires
        frames_taken(s, a + b).2,
        !frames_taken(s, a + b).0.done,
    ensures
        frames_taken(s, a).2,
        !frames_taken(s, a).0.done,
        frames_taken(frames_taken(s, a).0, b).2,
        frames_taken(frames_taken(s, a).0, b).0 == frames_taken(s, a + b).0,
        !frames_taken(frames_taken(s, a).0, b).0.done,
    decreases b.len(),
{
    if b.len() == 0 {
        assert(a + b =~= a);
    } else {
        lemma_front(s, a + b);
        assert((a + b).drop_last() =~= a + b.drop_last());
        assert((a + b).last() == b.last());
        lemma_in_parts(s, a, b.drop_last());
    }
}

/// The last frames of a stream that tell how it went: one that gives the reason for
/// the end, and others that do not.
pub open spec fn ends_with(
    frames: Seq<FrameText>,
    front: Seq<FrameText>,
    told: FrameText,
    rest: Seq<FrameText>,
) -> bool {
    &&& frames == front.push(told) + rest
    &&& told.event == "message_delta"@
    &&& forall|i: int| 0 <= i < rest.len() ==> (#[trigger] rest[i]).event != "message_delta"@
}

proof fn lemma_last_told(
    s: StreamState,
    frames: Seq<FrameText>,
    front: Seq<FrameText>,
    told: FrameText,
    rest: Seq<FrameText>,
    data: JsonView,
)
    requires
        ends_with(frames, front, told, rest),
        json_parse(told.data) == Ok::<JsonView, Seq<char>>(data),
        frames_taken(s, frames).2,
        !frames_taken(s, frames).0.done,
    ensures
        frames_taken(s, frames).0.stop_reason == data.get2_str("delta"@, "stop_reason"@),
        frames_taken(s, frames).0.usage == Some(crate::openai::handlers::delta_usage(data)),
        crate::openai::handlers::delta_countable(data),
{
    lemma_events_differ();
    let first = front.push(told);
    lemma_in_parts(s, first, rest);
    lemma_reason_stays(frames_taken(s, first).0, rest);
    lemma_front(s, first);
    assert(first.drop_last() =~= front);
}

/// The stream tells why it ended: if the last word of the service on it is a stop
/// reason, the last chunk has the finish reason that goes with it. A response that a
/// limit cut off is told as such.
pub proof fn the_end_of_a_stream_is_explained(
    s: StreamState,
    frames: Seq<FrameText>,
    front: Seq<FrameText>,
    told: FrameText,
    rest: Seq<FrameText>,
    data: JsonView,
    t: Seq<char>,
)
    requires
        ends_with(frames, front, told, rest),
        json_parse(told.data) == Ok::<JsonView, Seq<char>>(data),
        data.get2_str("delta"@, "stop_reason"@) == Some(t) || data.get2_str(
            "delta"@,
            "stop_reason"@,
        ) is None && t == "end_turn"@,
        frames_taken(s, frames).2,
        !frames_taken(s, frames).0.done,
    ensures
        ({
            let pieces = finished(frames_taken(s, frames).0).1;
            &&& pieces.len() >= 2
            &&& pieces.last() is End
            &&& reason_told(pieces[pieces.len() - 2]) == Some(
                if t == "max_tokens"@ || t == "model_context_window_exceeded"@ {
                    "length"@
                } else if t == "tool_use"@ || s.saw_tool_calls || some_call(frames) {
                    "tool_calls"@
                } else {
                    "stop"@
                },
            )
        }),
{
    lemma_keys_differ();
    lemma_reasons_differ();
    lemma_last_told(s, frames, front, told, rest, data);
    lemma_calls_seen(s, frames);
}

/// A stream that is given no reason ends as one that called a tool, or of itself.
pub proof fn an_unexplained_end_is_an_ordinary_one(s: StreamState, frames: Seq<FrameText>)
    requires
        s.stop_reason is None,
        forall|i: int| 0 <= i < frames.len() ==> (#[trigger] frames[i]).event != "message_delta"@,
        frames_taken(s, frames).2,
        !frames_taken(s, frames).0.done,
    ensures
        ({
            let pieces = finished(frames_taken(s, frames).0).1;
            &&& pieces.len() >= 2
            &&& reason_told(pieces[pieces.len() - 2]) == Some(
                if s.saw_tool_calls || some_call(frames) {
                    "tool_calls"@
                } else {
                    "stop"@
                },
            )
        }),
{
    lemma_keys_differ();
    lemma_reasons_differ();
    lemma_reason_stays(s, frames);
    lemma_calls_seen(s, frames);
}

/// The service ends a response with a frame of its own, and that ends the stream in
/// the same way as when nothing comes any more.
pub proof fn the_end_of_a_message_ends_the_stream(
    s: StreamState,
    frames: Seq<FrameText>,
    stop: FrameText,
)
    requires
        stop.event == "message_stop"@,
        json_parse(stop.data) is Ok,
        frames_taken(s, frames).2,
        !frames_taken(s, frames).0.done,
    ensures
        frames_taken(s, frames.push(stop)).1 == frames_taken(s, frames).1 + finished(
            frames_taken(s, frames).0,
        ).1,
        frames_taken(s, frames.push(stop)).0.done,
        frames_taken(s, frames.push(stop)).2,
{
    lemma_events_differ();
    assert(frames.push(stop).drop_last() =~= frames);
}

/// A client that asked for it is told the tokens that the service last counted, with
/// the reason for the end.
pub proof fn a_stream_tells_its_usage(
    s: StreamState,
    frames: Seq<FrameText>,
    front: Seq<FrameText>,
    told: FrameText,
    rest: Seq<FrameText>,
    data: JsonView,
)
    requires
        s.include_usage,
        ends_with(frames, front, told, rest),
        json_parse(told.data) == Ok::<JsonView, Seq<char>>(data),
        frames_taken(s, frames).2,
        !frames_taken(s, frames).0.done,
    ensures
        ({
            let pieces = finished(frames_taken(s, frames).0).1;
            let usage = data.get("usage"@);
            let cached = tokens_told(usage, "cache_read_input_tokens"@);
            let prompt = tokens_told(usage, "input_tokens"@) + tokens_told(
                usage,
                "cache_creation_input_tokens"@,
            ) + cached;
            &&& pieces.len() >= 2
            &&& pieces[pieces.len() - 2] matches Piece::Data(j)
            &&& j.get("usage"@) matches Some(u)
            &&& reports(u, prompt, tokens_told(usage, "output_tokens"@), cached)
        }),
{
    lemma_keys_differ();
    lemma_usage_keys_differ();
    lemma_last_told(s, frames, front, told, rest, data);
    lemma_calls_seen(s, frames);
}

/// A number of tokens that is too large to be added up is not taken, and any other is.
pub proof fn only_endless_counts_are_refused(s: StreamState, data: JsonView)
    ensures
        ({
            let usage = data.get("usage"@);
            let total = tokens_told(usage, "input_tokens"@) + tokens_told(
                usage,
                "cache_creation_input_tokens"@,
            ) + tokens_told(usage, "cache_read_input_tokens"@) + tokens_told(
                usage,
                "output_tokens"@,
            );
            !s.done ==> (takeable(s, "message_delta"@, Ok(data)) <==> total <= i64::MAX)
        }),
        takeable(s, "content_block_delta"@, Ok(data)),
        takeable(s, "content_block_stop"@, Ok(data)),
        takeable(s, "message_stop"@, Ok(data)),
        takeable(s, "error"@, Ok(data)),
        s.next_tool_index < usize::MAX ==> takeable(s, "content_block_start"@, Ok(data)),
{
    lemma_events_differ();
}

/// The call of a tool that a piece tells.
pub open spec fn call_told(p: Piece) -> JsonView {
    match p {
        Piece::Data(j) => match first_choice(j).get2("delta"@, "tool_calls"@) {
            Some(JsonView::Array(list)) => if list.len() > 0 {
                list[0]
            } else {
                JsonView::Null
            },
            _ => JsonView::Null,
        },
        Piece::End => JsonView::Null,
    }
}

/// A call of a tool reaches the client with its own number, identifier and name, and
/// with its arguments whole, when the block that makes it ends, whatever other blocks
/// go on in between.
pub proof fn a_call_is_told_whole(
    s: StreamState,
    start: FrameText,
    begun: JsonView,
    frames: Seq<FrameText>,
    block: i64,
    stop: JsonView,
)
    requires
        !s.done,
        starts_a_call(start),
        json_parse(start.data) == Ok::<JsonView, Seq<char>>(begun),
        block_told(begun) == block,
        block_told(stop) == block,
        s.next_tool_index < usize::MAX,
        ({
            let t = frame_taken(s, start.event, json_parse(start.data)).0;
            frames_taken(t, frames).2 && !frames_taken(t, frames).0.done
        }),
        forall|i: int|
            0 <= i < frames.len() ==> !is_event_of(
                #[trigger] frames[i],
                "content_block_start"@,
                block,
            ) && !is_event_of(frames[i], "content_block_stop"@, block),
    ensures
        ({
            let t = frame_taken(s, start.event, json_parse(start.data)).0;
            let ended = event_taken(frames_taken(t, frames).0, "content_block_stop"@, stop);
            let call = call_told(ended.1.last());
            &&& frame_taken(s, start.event, json_parse(start.data)).1.len() == 0
            &&& t.next_tool_index == s.next_tool_index + 1
            &&& ended.1.len() > 0
            &&& call.get("index"@) == Some(JsonView::Int(s.next_tool_index as int))
            &&& call.get_str("id"@) == Some(text_at(begun, "content_block"@, "id"@))
            &&& call.get_str("type"@) == Some("function"@)
            &&& call.get2_str("function"@, "name"@) == Some(
                text_at(begun, "content_block"@, "name"@),
            )
            &&& call.get2_str("function"@, "arguments"@) == Some(argument_pieces(frames, block))
        }),
{
    lemma_events_differ();
    lemma_keys_differ();
    let t = frame_taken(s, start.event, json_parse(start.data)).0;
    arguments_arrive_whole(t, frames, block, stop);
    assert(t.tools[block].args + argument_pieces(frames, block) =~= argument_pieces(
        frames,
        block,
    ));
}

/// An error of the service reaches the client as it is, and ends the stream.
pub proof fn an_error_ends_the_stream(s: StreamState, data: JsonView, e: JsonView)
    requires
        !s.done,
    ensures
        ({
            let taken = frame_taken(s, "error"@, Ok(data));
            &&& taken.0.done
            &&& taken.1.len() == 2
            &&& taken.1[1] is End
            &&& taken.1[0] matches Piece::Data(j)
            &&& data.get("error"@) == Some(e) ==> j.get("error"@) == Some(e)
            &&& data.get("error"@) is None ==> j.get("error"@) == Some(data)
        }),
{
    lemma_events_differ();
}

/// Pings, data that is no document, and events of an unknown name change nothing and
/// tell nothing.
pub proof fn noise_is_passed_over(s: StreamState, event: Seq<char>, data: JsonView, e: Seq<char>)
    ensures
        frame_taken(s, "ping"@, Ok(data)) == (s, Seq::<Piece>::empty()),
        frame_taken(s, event, Err(e)) == (s, Seq::<Piece>::empty()),
        !s.done && event != "message_start"@ && event != "content_block_start"@ && event
            != "content_block_delta"@ && event != "content_block_stop"@ && event
            != "message_delta"@ && event != "message_stop"@ && event != "error"@ ==> frame_taken(
            s,
            event,
            Ok(data),
        ) == (s, Seq::<Piece>::empty()),
{
}

/// The piece is a chunk of a given stream.
pub open spec fn is_chunk_of(p: Piece, s: StreamState) -> bool {
    match p {
        Piece::Data(j) => j.get("choices"@) is Some ==> {
            &&& j.get_str("id"@) == Some(s.id)
            &&& j.get_str("object"@) == Some("chat.completion.chunk"@)
            &&& j.get_i64("created"@) == Some(s.created)
            &&& j.get_str("model"@) == Some(s.model)
            &&& first_choice(j).get_i64("index"@) == Some(0i64)
        },
        Piece::End => true,
    }
}

proof fn lemma_any_chunk(s: StreamState)
    ensures
        forall|delta: JsonView, finish: Option<Seq<char>>, usage: Option<JsonView>|
            is_chunk_of(Piece::Data(#[trigger] chunk_json(s, delta, finish, usage)), s),
{
    assert forall|delta: JsonView, finish: Option<Seq<char>>, usage: Option<JsonView>|
        is_chunk_of(Piece::Data(#[trigger] chunk_json(s, delta, finish, usage)), s) by {
        lemma_keys_differ();
    }
}

proof fn lemma_errors_are_no_chunks(e: JsonView, s: StreamState)
    ensures
        is_chunk_of(Piece::Data(JsonView::object().with("error"@, e)), s),
{
    lemma_keys_differ();
}

proof fn lemma_chunks_of_frame(
    s: StreamState,
    event: Seq<char>,
    parsed: Result<JsonView, Seq<char>>,
    i: int,
)
    requires
        0 <= i < frame_taken(s, event, parsed).1.len(),
    ensures
        is_chunk_of(frame_taken(s, event, parsed).1[i], s),
{
    lemma_any_chunk(s);
    match parsed {
        Ok(data) => {
            lemma_errors_are_no_chunks(data, s);
            if data.get("error"@) is Some {
                lemma_errors_are_no_chunks(data.get("error"@)->0, s);
            }
            let p = event_taken(s, event, data).1[i];
            if event == "error"@ {
            } else {
                assert(p is End || exists|
                    delta: JsonView,
                    finish: Option<Seq<char>>,
                    usage: Option<JsonView>,
                | p == Piece::Data(#[trigger] chunk_json(s, delta, finish, usage)));
            }
        },
        Err(_) => {},
    }
}

/// Every chunk of a stream names the stream, its time and its model.
pub proof fn chunks_name_their_stream(s: StreamState, frames: Seq<FrameText>, i: int)
    requires
        0 <= i < frames_taken(s, frames).1.len(),
    ensures
        is_chunk_of(frames_taken(s, frames).1[i], s),
    decreases frames.len(),
{
    if frames.len() > 0 {
        let front = frames.drop_last();
        let before = frames_taken(s, front);
        lemma_identity(s, front);
        if i < before.1.len() {
            chunks_name_their_stream(s, front, i);
        } else {
            let k = i - before.1.len();
            lemma_chunks_of_frame(
                before.0,
                frames.last().event,
                json_parse(frames.last().data),
                k,
            );
        }
    }
}

proof fn lemma_identity(s: StreamState, frames: Seq<FrameText>)
    ensures
        frames_taken(s, frames).0.id == s.id,
        frames_taken(s, frames).0.model == s.model,
        frames_taken(s, frames).0.created == s.created,
    decreases frames.len(),
{
    if frames.len() > 0 {
        lemma_identity(s, frames.drop_last());
    }
}

/// The last chunk names the stream as well, and the first one tells that the assistant
/// speaks.
pub proof fn the_first_and_the_last_chunk(s: StreamState, i: int)
    ensures
        0 <= i < finished(s).1.len() ==> is_chunk_of(finished(s).1[i], s),
        !s.sent_role ==> (role_pieces(s).len() == 1 && (role_pieces(s)[0] matches Piece::Data(j)
            && first_choice(j).get2_str("delta"@, "role"@) == Some("assistant"@))),
        s.sent_role ==> role_pieces(s).len() == 0,
{
    lemma_keys_differ();
}

/// The start of a message tells the role, and so does anything that is told before
/// it, once.
pub proof fn the_role_is_told_once(s: StreamState, data: JsonView)
    requires
        !s.done,
    ensures
        ({
            let taken = frame_taken(s, "message_start"@, Ok(data));
            &&& taken.1 == role_pieces(s)
            &&& taken.0.sent_role
            &&& role_pieces(taken.0).len() == 0
        }),
        frame_taken(s, "content_block_delta"@, Ok(data)).0.sent_role,
{
    lemma_events_differ();
}

/// A text that comes is handed on at once, in one chunk that holds nothing else.
pub proof fn a_text_is_handed_on(s: StreamState, data: JsonView, t: Seq<char>)
    requires
        !s.done,
        s.sent_role,
        t.len() > 0,
    ensures
        data.get2_str("delta"@, "type"@) == Some("text_delta"@) && data.get2_str(
            "delta"@,
            "text"@,
        ) == Some(t) ==> ({
            let taken = frame_taken(s, "content_block_delta"@, Ok(data));
            &&& taken.0 == s
            &&& taken.1.len() == 1
            &&& taken.1[0] matches Piece::Data(j)
            &&& first_choice(j).get2_str("delta"@, "content"@) == Some(t)
            &&& first_choice(j).get("finish_reason"@) == Some(JsonView::Null)
        }),
        data.get2_str("delta"@, "type"@) == Some("thinking_delta"@) && data.get2_str(
            "delta"@,
            "thinking"@,
        ) == Some(t) ==> ({
            let taken = frame_taken(s, "content_block_delta"@, Ok(data));
            &&& taken.0 == s
            &&& taken.1.len() == 1
            &&& taken.1[0] matches Piece::Data(j)
            &&& first_choice(j).get2_str("delta"@, "reasoning_content"@) == Some(t)
            &&& first_choice(j).get("finish_reason"@) == Some(JsonView::Null)
        }),
{
    lemma_events_differ();
    lemma_keys_differ();
    lemma_deltas_differ();
}

/// Blocks that call no tool start and end without a word, and so does an empty text.
pub proof fn nothing_is_told_of_nothing(s: StreamState, data: JsonView)
    requires
        !s.done,
        s.sent_role,
    ensures
        data.get2_str("content_block"@, "type"@) != Some("tool_use"@) ==> frame_taken(
            s,
            "content_block_start"@,
            Ok(data),
        ) == (s, Seq::<Piece>::empty()),
        !s.tools.contains_key(block_told(data)) ==> frame_taken(
            s,
            "content_block_stop"@,
            Ok(data),
        ) == (s, Seq::<Piece>::empty()),
        data.get2_str("delta"@, "type"@) == Some("text_delta"@) && text_at(
            data,
            "delta"@,
            "text"@,
        ).len() == 0 ==> frame_taken(s, "content_block_delta"@, Ok(data)).1.len() == 0,
        data.get2_str("delta"@, "type"@) == Some("input_json_delta"@) && !s.tools.contains_key(
            block_told(data),
        ) ==> frame_taken(s, "content_block_delta"@, Ok(data)).1.len() == 0,
        frame_taken(s, "message_delta"@, Ok(data)).1.len() == 0,
{
    lemma_events_differ();
    lemma_deltas_differ();
}

/// The identifier of a completion is a prefix and the digits of a UUID.
pub proof fn a_completion_has_an_identifier(t: Seq<char>)
    requires
        is_completion_id(t),
    ensures
        t.len() == 41,
        t.take(9) == "chatcmpl-"@,
        is_simple_uuid(t.skip(9)),
{
    reveal_strlit("chatcmpl-");
    let digits = choose|digits: Seq<char>| #[trigger]
        is_simple_uuid(digits) && t == "chatcmpl-"@ + digits;
    assert(t.take(9) =~= "chatcmpl-"@);
    assert(t.skip(9) =~= digits);
}

/// The texts of frames are read one by one, and those that say nothing are left out.
pub proof fn frames_are_read_one_by_one(raws: Seq<Seq<char>>, raw: Seq<char>, f: FrameText)
    ensures
        frame_in(raw) == Some(f) ==> frames_said(raws.push(raw)) == frames_said(raws).push(f),
        frame_in(raw) is None ==> frames_said(raws.push(raw)) == frames_said(raws),
        frames_said(Seq::empty()).len() == 0,
        frame_in(Seq::empty()) is None,
{
    assert(raws.push(raw).drop_last() =~= raws);
    let none = Seq::<char>::empty();
    lemma_split_one(none);
    assert(seq![none].drop_last() =~= Seq::<Seq<char>>::empty());
    assert(with_lines(Seq::<Seq<char>>::empty()) == (FieldsView {
        event: None,
        data: Seq::empty(),
    }));
    reveal_strlit("event:");
    reveal_strlit("data:");
    assert("event:"@.len() == 6 && "data:"@.len() == 5);
    assert(without_cr(none) == none);
}

/// A line that is no field, such as a remark, sets nothing.
pub proof fn remarks_are_passed_over(frame: Seq<char>, line: Seq<char>)
    requires
        line.len() > 0,
        line[0] == ':',
        forall|i: int| 0 <= i < line.len() ==> line[i] != '\n' && line[i] != '\r',
    ensures
        fields_of(frame + seq!['\n'] + line) == fields_of(frame),
{
    reveal_strlit("event:");
    reveal_strlit("data:");
    lemma_split_more(frame, line);
    let lines = split_by(frame, |c: char| c == '\n');
    assert(lines.push(line).drop_last() =~= lines);
    assert(line.last() == line[line.len() - 1]);
    assert(without_cr(line) == line);
    assert(!crate::text::starts_with(line, "event:"@)) by {
        if crate::text::starts_with(line, "event:"@) {
            assert(line.subrange(0, 6)[0] == 'e');
        }
    }
    assert(!crate::text::starts_with(line, "data:"@)) by {
        if crate::text::starts_with(line, "data:"@) {
            assert(line.subrange(0, 5)[0] == 'd');
        }
    }
}

/// A fresh stream has told nothing, and takes frames.
pub proof fn a_fresh_stream_is_open(
    id: Seq<char>,
    created: i64,
    model: Seq<char>,
    include_usage: bool,
)
    ensures
        ({
            let s = fresh_stream(id, created, model, include_usage);
            &&& !s.done
            &&& !s.sent_role
            &&& !s.saw_tool_calls
            &&& s.stop_reason is None
            &&& s.usage is None
            &&& s.next_tool_index == 0
            &&& s.id == id
            &&& s.created == created
            &&& s.model == model
            &&& s.include_usage == include_usage
            &&& forall|i: i64| !s.tools.contains_key(i)
        }),
{
}

/// A piece goes out as a frame of its own; the mark of the end has its own text.
pub proof fn pieces_are_frames(j: JsonView)
    ensures
        piece_text(Piece::Data(j)) == "data: "@ + crate::json::json_text(j) + "\n\n"@,
        piece_text(Piece::End) == "data: [DONE]\n\n"@,
{
}

/// Pieces and frames are seen one by one, in their order.
pub proof fn pieces_are_written_one_by_one(
    pieces: Seq<Piece>,
    frames: Seq<SseFrame>,
    bytes: Seq<Vec<u8>>,
    i: int,
)
    ensures
        piece_texts(pieces).len() == pieces.len(),
        0 <= i < pieces.len() ==> piece_texts(pieces)[i] == piece_text(pieces[i]),
        frame_texts(frames).len() == frames.len(),
        0 <= i < frames.len() ==> frame_texts(frames)[i].event == frames[i].event@ && frame_texts(
            frames,
        )[i].data == frames[i].data@,
        byte_views(bytes).len() == bytes.len(),
        0 <= i < bytes.len() ==> byte_views(bytes)[i] == bytes[i]@,
{
}

proof fn lemma_split_more(s: Seq<char>, line: Seq<char>)
    requires
        forall|i: int| 0 <= i < line.len() ==> line[i] != '\n',
    ensures
        split_by(s + seq!['\n'] + line, |c: char| c == '\n') == split_by(
            s,
            |c: char| c == '\n',
        ).push(line),
    decreases line.len(),
{
    let sep = |c: char| c == '\n';
    let all = s + seq!['\n'] + line;
    if line.len() == 0 {
        assert(all.drop_last() =~= s);
        assert(all.last() == '\n');
        assert(line =~= Seq::<char>::empty());
    } else {
        let front = line.drop_last();
        lemma_split_more(s, front);
        assert(all.drop_last() =~= s + seq!['\n'] + front);
        assert(all.last() == line.last());
        assert(line.last() == line[line.len() - 1]);
        let pieces = split_by(s, sep).push(front);
        assert(front.push(line.last()) =~= line);
        assert(pieces.update(pieces.len() - 1, line) =~= split_by(s, sep).push(line));
    }
}

proof fn lemma_split_one(s: Seq<char>)
    requires
        forall|i: int| 0 <= i < s.len() ==> s[i] != '\n',
    ensures
        split_by(s, |c: char| c == '\n') == seq![s],
    decreases s.len(),
{
    if s.len() == 0 {
        assert(s =~= Seq::<char>::empty());
    } else {
        lemma_split_one(s.drop_last());
        assert(s.last() == s[s.len() - 1]);
        assert(s.drop_last().push(s.last()) =~= s);
        assert(seq![s.drop_last()].update(0, s) =~= seq![s]);
    }
}

/// The text has neither white space around it nor an end of a line in it.
pub open spec fn is_plain_value(t: Seq<char>) -> bool {
    &&& forall|i: int| 0 <= i < t.len() ==> t[i] != '\n' && t[i] != '\r'
    &&& t.len() > 0 ==> !is_white(t[0]) && !is_white(t.last())
}

/// A line of data adds its value to the data of a frame, at the end, and leaves its
/// event; a line that names an event sets it, and leaves the data.
pub proof fn lines_set_their_fields(frame: Seq<char>, value: Seq<char>)
    requires
        is_plain_value(value),
    ensures
        fields_of(frame + seq!['\n'] + ("data: "@ + value)) == (FieldsView {
            event: fields_of(frame).event,
            data: fields_of(frame).data.push(value),
        }),
        fields_of(frame + seq!['\n'] + ("event: "@ + value)) == (FieldsView {
            event: Some(value),
            data: fields_of(frame).data,
        }),
{
    reveal_strlit("data: ");
    reveal_strlit("data:");
    reveal_strlit("event: ");
    reveal_strlit("event:");
    let d = "data: "@ + value;
    let e = "event: "@ + value;
    lemma_line(value);
    lemma_split_more(frame, d);
    lemma_split_more(frame, e);
    let lines = split_by(frame, |c: char| c == '\n');
    assert(lines.push(d).drop_last() =~= lines);
    assert(lines.push(e).drop_last() =~= lines);
}

proof fn lemma_line(value: Seq<char>)
    requires
        is_plain_value(value),
    ensures
        ({
            let d = "data: "@ + value;
            let e = "event: "@ + value;
            &&& forall|i: int| 0 <= i < d.len() ==> d[i] != '\n'
            &&& forall|i: int| 0 <= i < e.len() ==> e[i] != '\n'
            &&& without_cr(d) == d
            &&& without_cr(e) == e
            &&& forall|f: FieldsView| #[trigger]
                with_line(f, d) == (FieldsView { event: f.event, data: f.data.push(value) })
            &&& forall|f: FieldsView| #[trigger]
                with_line(f, e) == (FieldsView { event: Some(value), data: f.data })
        }),
{
    reveal_strlit("data: ");
    reveal_strlit("data:");
    reveal_strlit("event: ");
    reveal_strlit("event:");
    let d = "data: "@ + value;
    let e = "event: "@ + value;
    assert(d.last() != '\r') by {
        assert(d.last() == d[d.len() - 1]);
    }
    assert(e.last() != '\r') by {
        assert(e.last() == e[e.len() - 1]);
    }
    assert(is_white(' '));
    assert(d.subrange(0, 5) =~= "data:"@);
    assert(!crate::text::starts_with(d, "event:"@)) by {
        if crate::text::starts_with(d, "event:"@) {
            assert(d.subrange(0, 6)[0] == "event:"@[0]);
        }
    }
    assert(e.subrange(0, 6) =~= "event:"@);
    let dr = d.subrange(5, d.len() as int);
    let er = e.subrange(6, e.len() as int);
    assert(dr =~= seq![' '] + value);
    assert(er =~= seq![' '] + value);
    assert(dr.drop_first() =~= value);
    assert(trim_start(dr) == trim_start(value));
    assert(trim_start(value) == value);
    assert(trim_start(er) == value);
    assert(trim(er) == value);
}

/// A frame with a line for its event and one for its data is read as that event with
/// that data.
pub proof fn a_frame_is_read_as_its_event(event: Seq<char>, data: Seq<char>)
    requires
        is_plain_value(event),
        is_plain_value(data),
        event.len() > 0,
    ensures
        frame_in("event: "@ + event + seq!['\n'] + ("data: "@ + data)) == Some(
            FrameText { event, data },
        ),
{
    let first = "event: "@ + event;
    lemma_line(event);
    lemma_split_one(first);
    assert(seq![first].drop_last() =~= Seq::<Seq<char>>::empty());
    assert(with_lines(Seq::<Seq<char>>::empty()) == (FieldsView {
        event: None,
        data: Seq::empty(),
    }));
    assert(fields_of(first) == (FieldsView { event: Some(event), data: Seq::empty() }));
    lines_set_their_fields(first, data);
    let f = fields_of(first + seq!['\n'] + ("data: "@ + data));
    assert(f.data =~= seq![data]);
}

/// The data of a frame in several lines is those lines, with the ends of lines between
/// them.
pub proof fn lines_of_data_are_joined(event: Seq<char>, first: Seq<char>, second: Seq<char>)
    requires
        is_plain_value(event),
        is_plain_value(first),
        is_plain_value(second),
        event.len() > 0,
    ensures
        ({
            let raw = "event: "@ + event + seq!['\n'] + ("data: "@ + first) + seq!['\n'] + (
            "data: "@ + second);
            &&& frame_in(raw) == Some(FrameText { event, data: first + seq!['\n'] + second })
            &&& forall|bytes: Seq<u8>|
                valid_utf8(bytes) && #[trigger] decode_utf8(bytes) == raw ==> frame_event(bytes)
                    == event_in(Some(event), json_parse(first + seq!['\n'] + second))
        }),
{
    let head = "event: "@ + event;
    lemma_line(event);
    lemma_split_one(head);
    assert(seq![head].drop_last() =~= Seq::<Seq<char>>::empty());
    assert(with_lines(Seq::<Seq<char>>::empty()) == (FieldsView {
        event: None,
        data: Seq::empty(),
    }));
    assert(fields_of(head) == (FieldsView { event: Some(event), data: Seq::empty() }));
    let once = head + seq!['\n'] + ("data: "@ + first);
    lines_set_their_fields(head, first);
    lines_set_their_fields(once, second);
    let f = fields_of(once + seq!['\n'] + ("data: "@ + second));
    assert(f.data =~= seq![first, second]);
    reveal_strlit("\n");
    assert("\n"@ =~= seq!['\n']);
    assert(f.data.drop_last() =~= seq![first]);
    assert(join_spec(seq![first], "\n"@) == first);
    assert(f.data.last() == second);
    assert(join_spec(f.data, "\n"@) == first + "\n"@ + second);
}

/// It makes no difference whether lines end with a carriage return as well.
pub proof fn carriage_returns_make_no_difference(frame: Seq<char>, line: Seq<char>)
    requires
        forall|i: int| 0 <= i < line.len() ==> line[i] != '\n',
    ensures
        fields_of(frame + seq!['\n'] + line.push('\r')) == fields_of(frame + seq!['\n'] + line),
{
    lemma_split_more(frame, line);
    lemma_split_more(frame, line.push('\r'));
    let lines = split_by(frame, |c: char| c == '\n');
    assert(lines.push(line).drop_last() =~= lines);
    assert(lines.push(line.push('\r')).drop_last() =~= lines);
    assert(line.push('\r').drop_last() =~= line);
}

proof fn lemma_gap_found(s: Seq<char>, pat: Seq<char>, i: int, p: int)
    requires
        0 <= i <= p,
        occurs_at(s, pat, p),
        forall|j: int| i <= j < p ==> !occurs_at(s, pat, j),
    ensures
        find_from(s, pat, i) == Some(p),
    decreases p - i,
{
    if i < p {
        lemma_gap_found(s, pat, i + 1, p);
    }
}

/// An empty line ends a frame: what stands before it is the frame, and what stands
/// behind it is taken for itself.
pub proof fn an_empty_line_ends_a_frame(frame: Seq<char>, rest: Seq<char>)
    requires
        forall|j: int|
            0 <= j < frame.len() - 1 ==> !(#[trigger] frame[j] == '\n' && frame[j + 1] == '\n'),
        frame.len() > 0 ==> frame.last() != '\n',
    ensures
        text_split(frame + "\n\n"@ + rest).0 == seq![frame] + text_split(rest).0,
        text_split(frame + "\n\n"@ + rest).1 == text_split(rest).1,
        text_split(frame) == (Seq::<Seq<char>>::empty(), frame),
{
    reveal_strlit("\n\n");
    let gap = "\n\n"@;
    let all = frame + gap + rest;
    let p = frame.len() as int;
    assert(all.subrange(p, p + 2) =~= gap);
    assert forall|j: int| 0 <= j < p implies !occurs_at(all, gap, j) by {
        if occurs_at(all, gap, j) {
            assert(all.subrange(j, j + 2)[0] == '\n' && all.subrange(j, j + 2)[1] == '\n');
            assert(all[j] == '\n' && all[j + 1] == '\n');
            assert(all[j] == frame[j]);
            if j + 1 < p {
                assert(all[j + 1] == frame[j + 1]);
            } else {
                assert(frame.last() == frame[j]);
            }
        }
    }
    lemma_gap_found(all, gap, 0, p);
    assert(all.take(p) =~= frame);
    assert(all.skip(p + 2) =~= rest);
    assert forall|j: int| 0 <= j implies !occurs_at(frame, gap, j) by {
        if occurs_at(frame, gap, j) {
            assert(frame.subrange(j, j + 2)[0] == '\n' && frame.subrange(j, j + 2)[1] == '\n');
            assert(frame[j] == '\n' && frame[j + 1] == '\n');
        }
    }
    lemma_nowhere(frame, gap, 0);
}

proof fn lemma_nowhere(s: Seq<char>, pat: Seq<char>, i: int)
    requires
        0 <= i,
        forall|j: int| 0 <= j ==> !occurs_at(s, pat, j),
    ensures
        find_from(s, pat, i) is None,
    decreases s.len() + 1 - i,
{
    if i + pat.len() <= s.len() {
        lemma_nowhere(s, pat, i + 1);
    }
}

proof fn lemma_first_gap_byte(b: Seq<u8>, pat: Seq<u8>, i: int, p: int)
    requires
        0 <= i <= p,
        stands_at(b, pat, p),
        forall|j: int| i <= j < p ==> !stands_at(b, pat, j),
    ensures
        first_from(b, pat, i) == Some(p),
    decreases p - i,
{
    if i < p {
        lemma_first_gap_byte(b, pat, i + 1, p);
    }
}

proof fn lemma_no_gap_byte(b: Seq<u8>, pat: Seq<u8>, i: int, p: int)
    requires
        0 <= i,
        pat.len() > 0,
        forall|j: int| i <= j < p ==> !stands_at(b, pat, j),
    ensures
        first_from(b, pat, i) matches Some(k) ==> k >= p,
    decreases b.len() + 1 - i,
{
    if i + pat.len() <= b.len() && !stands_at(b, pat, i) {
        lemma_no_gap_byte(b, pat, i + 1, p);
    }
}

/// An empty line, in either notation, ends a frame of bytes: what stands before it is
/// the frame, and what stands behind it is taken for itself. A frame without content
/// is dropped.
pub proof fn an_empty_line_ends_a_frame_of_bytes(frame: Seq<u8>, rest: Seq<u8>)
    requires
        forall|i: int|
            0 <= i < frame.len() ==> #[trigger] frame[i] != 10 && frame[i] != 12 && frame[i] != 13,
    ensures
        ({
            let blank = forall|i: int|
                0 <= i < frame.len() ==> #[trigger] frame[i] == 32 || frame[i] == 9;
            let kept = if blank {
                Seq::<Seq<u8>>::empty()
            } else {
                seq![frame]
            };
            &&& sse_split(frame + seq![10u8, 10u8] + rest) == (
                kept + sse_split(rest).0,
                sse_split(rest).1,
            )
            &&& sse_split(frame + seq![13u8, 10u8, 13u8, 10u8] + rest) == (
                kept + sse_split(rest).0,
                sse_split(rest).1,
            )
        }),
{
    let p = frame.len() as int;
    let lf = frame + lf_gap() + rest;
    let crlf = frame + crlf_gap() + rest;
    assert(lf.subrange(p, p + 2) =~= lf_gap());
    assert(crlf.subrange(p, p + 4) =~= crlf_gap());
    assert forall|j: int| 0 <= j < p implies !stands_at(lf, lf_gap(), j) && !stands_at(
        lf,
        crlf_gap(),
        j,
    ) && !stands_at(crlf, lf_gap(), j) && !stands_at(crlf, crlf_gap(), j) by {
        if stands_at(lf, lf_gap(), j) {
            assert(lf.subrange(j, j + 2)[0] == 10);
        }
        if stands_at(lf, crlf_gap(), j) {
            assert(lf.subrange(j, j + 4)[0] == 13);
        }
        if stands_at(crlf, lf_gap(), j) {
            assert(crlf.subrange(j, j + 2)[0] == 10);
        }
        if stands_at(crlf, crlf_gap(), j) {
            assert(crlf.subrange(j, j + 4)[0] == 13);
        }
    }
    lemma_first_gap_byte(lf, lf_gap(), 0, p);
    lemma_no_gap_byte(lf, crlf_gap(), 0, p);
    lemma_first_gap_byte(crlf, crlf_gap(), 0, p);
    assert forall|j: int| 0 <= j < p + 1 implies !stands_at(crlf, lf_gap(), j) by {
        if j == p && stands_at(crlf, lf_gap(), j) {
            assert(crlf.subrange(j, j + 2)[0] == 10);
        }
    }
    lemma_no_gap_byte(crlf, lf_gap(), 0, p + 1);
    assert(lf.take(p) =~= frame);
    assert(lf.skip(p + 2) =~= rest);
    assert(crlf.take(p) =~= frame);
    assert(crlf.skip(p + 4) =~= rest);
    if exists|i: int| 0 <= i < frame.len() && #[trigger] frame[i] != 32 && frame[i] != 9 {
        let i = choose|i: int| 0 <= i < frame.len() && #[trigger] frame[i] != 32 && frame[i] != 9;
        assert(!is_ascii_space(frame[i]));
        assert(kept_frame(frame) == seq![frame]);
    }
}

/// A frame of bytes that is text gives the event that its lines name, with its data.
pub proof fn a_frame_of_bytes_gives_its_event(
    event: Seq<char>,
    data: Seq<char>,
    j: JsonView,
    frame: Seq<u8>,
)
    requires
        is_plain_value(event),
        is_plain_value(data),
        event.len() > 0,
        event != "ping"@,
        json_parse(data) == Ok::<JsonView, Seq<char>>(j),
        valid_utf8(frame),
        decode_utf8(frame) == "event: "@ + event + seq!['\n'] + ("data: "@ + data),
    ensures
        frame_event(frame) == Ok::<Option<(Seq<char>, JsonView)>, Seq<char>>(Some((event, j))),
{
    let first = "event: "@ + event;
    lemma_line(event);
    lemma_split_one(first);
    assert(seq![first].drop_last() =~= Seq::<Seq<char>>::empty());
    assert(with_lines(Seq::<Seq<char>>::empty()) == (FieldsView {
        event: None,
        data: Seq::empty(),
    }));
    assert(fields_of(first) == (FieldsView { event: Some(event), data: Seq::empty() }));
    lines_set_their_fields(first, data);
    let f = fields_of(decode_utf8(frame));
    assert(f.data =~= seq![data]);
}

/// Bytes that are no text are an error, which says so.
pub proof fn bytes_that_are_no_text_are_an_error(frame: Seq<u8>)
    requires
        !valid_utf8(frame),
    ensures
        frame_event(frame) == Err::<Option<(Seq<char>, JsonView)>, Seq<char>>(
            "upstream sent invalid UTF-8 SSE: "@ + utf8_fault(frame),
        ),
{
}

} // verus!
