//! Chat completions as they are served: the model that a request is for, and
//! responses, complete or as a stream of chunks.

use std::collections::HashMap;

use vstd::prelude::*;

use crate::admin::model_mapping::{resolved, MappingView, ModelMappingManager};
use crate::clock::{now, seconds_since_epoch, unix_seconds, Moment};
use crate::encoding::{lossy, lossy_text};
use crate::ids::{fresh_id, is_simple_uuid};
use crate::json::{
    array_view, is_one_line, json_parse, json_parse_bytes, json_text, parse_json, parse_json_bytes,
    Json, JsonView,
};
use crate::openai::blocks::{
    credit_of, finish_reason, make_usage_report, map_finish_reason, read_credit, read_tokens,
    tokens, usage_report,
};
use crate::openai::sse::{fields_of, read_fields};
use crate::openai::types::{
    assistant_parts_from_anthropic, calls_json, chat_message_from_parts, countable, error_json,
    is_countable, message_json, openai_error, parts_of, prompt_total, usage_json,
};
use crate::text::{
    concat, find, find_from, join_spec, join_strings, occurs_at, opt_view, split_once_str, str_eq,
    views,
};

verus! {

broadcast use {vstd::string::group_string_axioms, vstd::std_specs::hash::group_hash_axioms};

/// The model that a request is for after the mapping.
pub open spec fn mapped_model(
    mapping: Option<Map<Seq<char>, MappingView>>,
    model: Seq<char>,
) -> Seq<char> {
    match mapping {
        Some(m) => match resolved(m, model) {
            Some(target) => target,
            None => model,
        },
        None => model,
    }
}

/// Puts the model that a name stands for in its place; a name that stands for
/// none stays.
pub fn apply_model_mapping(mappings: Option<&ModelMappingManager>, model: &mut String)
    requires
        mappings matches Some(m) ==> m.wf(),
    ensures
        final(model)@ == mapped_model(
            match mappings {
                Some(m) => Some(m@),
                None => None,
            },
            old(model)@,
        ),
{
    match mappings {
        Some(m) => match m.resolve(model.as_str()) {
            Some(target) => {
                *model = target;
            },
            None => {},
        },
        None => {},
    }
}

/// A frame of an event stream.
#[derive(Debug, PartialEq, Eq)]
pub struct SseFrame {
    pub event: String,
    pub data: String,
}

/// A frame of an event stream.
pub struct FrameText {
    pub event: Seq<char>,
    pub data: Seq<char>,
}

impl SseFrame {
    pub open spec fn view(&self) -> FrameText {
        FrameText { event: self.event@, data: self.data@ }
    }
}

/// What the text of a frame says; without an event and data it is none.
pub open spec fn frame_in(raw: Seq<char>) -> Option<FrameText> {
    let f = fields_of(raw);
    let event = match f.event {
        Some(e) => e,
        None => Seq::empty(),
    };
    if event.len() == 0 && f.data.len() == 0 {
        None
    } else {
        Some(FrameText { event, data: join_spec(f.data, "\n"@) })
    }
}

/// Reads the text of a frame.
pub fn parse_sse_frame(raw: &str) -> (r: Option<SseFrame>)
    ensures
        (match r {
            Some(f) => Some(f@),
            None => None,
        }) == frame_in(raw@),
{
    let f = read_fields(raw);
    assert(views(f.data@).len() == f.data@.len());
    let event = match f.event {
        Some(e) => e,
        None => String::new(),
    };
    if event.as_str().is_empty() && f.data.len() == 0 {
        return None;
    }
    Some(SseFrame { event, data: join_strings(&f.data, "\n") })
}

/// The texts of the complete frames in `b`, which empty lines end, and what is
/// left of it.
pub open spec fn text_split(b: Seq<char>) -> (Seq<Seq<char>>, Seq<char>)
    decreases b.len(),
{
    match find(b, "\n\n"@) {
        Some(p) => if 0 <= p && p + 2 <= b.len() {
            let rest = text_split(b.skip(p + 2));
            (seq![b.take(p)] + rest.0, rest.1)
        } else {
            (Seq::empty(), b)
        },
        None => (Seq::empty(), b),
    }
}

/// What the texts of frames say.
pub open spec fn frames_said(raws: Seq<Seq<char>>) -> Seq<FrameText>
    decreases raws.len(),
{
    if raws.len() == 0 {
        Seq::empty()
    } else {
        match frame_in(raws.last()) {
            Some(f) => frames_said(raws.drop_last()).push(f),
            None => frames_said(raws.drop_last()),
        }
    }
}

pub open spec fn frame_texts(list: Seq<SseFrame>) -> Seq<FrameText> {
    list.map_values(|f: SseFrame| f@)
}

/// Cuts a stream into frames.
#[derive(Debug)]
pub struct SseFrameParser {
    buffer: String,
}

impl SseFrameParser {
    /// What has come of the next frame.
    pub closed spec fn view(&self) -> Seq<char> {
        self.buffer@
    }

    pub fn new() -> (r: Self)
        ensures
            r@ == Seq::<char>::empty(),
    {
        SseFrameParser { buffer: String::new() }
    }

    /// Takes a chunk of the stream, and gives the frames that are complete.
    pub fn push(&mut self, bytes: &[u8]) -> (r: Vec<SseFrame>)
        ensures
            frame_texts(r@) == frames_said(text_split(old(self)@ + lossy(bytes@)).0),
            final(self)@ == text_split(old(self)@ + lossy(bytes@)).1,
    {
        let chunk = lossy_text(bytes);
        self.push_text(chunk.as_str())
    }

    /// Takes a chunk of the stream as text.
    pub fn push_text(&mut self, chunk: &str) -> (r: Vec<SseFrame>)
        ensures
            frame_texts(r@) == frames_said(text_split(old(self)@ + chunk@).0),
            final(self)@ == text_split(old(self)@ + chunk@).1,
    {
        self.buffer.push_str(chunk);
        let mut frames: Vec<SseFrame> = Vec::new();
        let ghost whole = self.buffer@;
        let ghost mut raws: Seq<Seq<char>> = Seq::empty();
        proof {
            reveal_strlit("\n\n");
            assert(raws + text_split(whole).0 =~= text_split(whole).0);
            assert(frame_texts(frames@) =~= Seq::<FrameText>::empty());
        }
        let left = {
            let mut rest: &str = self.buffer.as_str();
            loop
                invariant
                    "\n\n"@.len() == 2,
                    text_split(whole).0 == raws + text_split(rest@).0,
                    text_split(whole).1 == text_split(rest@).1,
                    frame_texts(frames@) == frames_said(raws),
                ensures
                    text_split(rest@).0.len() == 0,
                    text_split(rest@).1 == rest@,
                decreases rest@.len(),
            {
                let ghost now_left = rest@;
                match split_once_str(rest, "\n\n") {
                    Some((raw, after)) => {
                        let ghost before = frames@;
                        proof {
                            lemma_find_within(now_left, "\n\n"@, 0);
                            let p = find(now_left, "\n\n"@)->0;
                            assert(raw@ =~= now_left.take(p));
                            assert(after@ =~= now_left.skip(p + 2));
                            assert(raws + (seq![raw@] + text_split(after@).0) =~= raws.push(raw@)
                                + text_split(after@).0);
                            assert(raws.push(raw@).drop_last() =~= raws);
                            raws = raws.push(raw@);
                        }
                        match parse_sse_frame(raw) {
                            Some(frame) => {
                                frames.push(frame);
                                assert(frame_texts(frames@) =~= frame_texts(before).push(frame@));
                            },
                            None => {},
                        }
                        rest = after;
                    },
                    None => {
                        break;
                    },
                }
            }
            assert(raws + text_split(rest@).0 =~= raws);
            rest.to_owned()
        };
        self.buffer = left;
        frames
    }

    /// The stream is over: gives what has come of the last frame.
    pub fn finish(&mut self) -> (r: Vec<SseFrame>)
        ensures
            frame_texts(r@) == (match frame_in(old(self)@) {
                Some(f) => seq![f],
                None => Seq::empty(),
            }),
            final(self)@ == Seq::<char>::empty(),
    {
        let mut frames: Vec<SseFrame> = Vec::new();
        let parsed = parse_sse_frame(self.buffer.as_str());
        assert(frame_texts(frames@) =~= Seq::<FrameText>::empty());
        match parsed {
            Some(frame) => {
                frames.push(frame);
                assert(frame_texts(frames@) =~= seq![frame@]);
            },
            None => {},
        }
        self.buffer = String::new();
        frames
    }
}

proof fn lemma_find_within(s: Seq<char>, pat: Seq<char>, i: int)
    requires
        0 <= i,
    ensures
        match find_from(s, pat, i) {
            Some(k) => i <= k && occurs_at(s, pat, k) && forall|j: int|
                i <= j < k ==> !occurs_at(s, pat, j),
            None => forall|j: int| i <= j ==> !occurs_at(s, pat, j),
        },
    decreases s.len() + 1 - i,
{
    if i + pat.len() <= s.len() && !occurs_at(s, pat, i) {
        lemma_find_within(s, pat, i + 1);
    }
}

proof fn lemma_find_stays(b: Seq<char>, more: Seq<char>, pat: Seq<char>)
    requires
        find(b, pat) is Some,
    ensures
        find(b + more, pat) == find(b, pat),
{
    let all = b + more;
    lemma_find_within(b, pat, 0);
    lemma_find_within(all, pat, 0);
    let p = find(b, pat)->0;
    assert forall|j: int| 0 <= j <= p implies occurs_at(all, pat, j) == occurs_at(b, pat, j) by {
        assert(all.subrange(j, j + pat.len()) =~= b.subrange(j, j + pat.len()));
    }
    assert(occurs_at(all, pat, p));
}

/// It makes no difference where the text of a stream is cut into chunks: the
/// frames of one chunk, and those of what is left of it with the next chunk, are
/// those of both chunks together.
pub proof fn text_chunks_make_no_difference(b: Seq<char>, more: Seq<char>)
    ensures
        ({
            let first = text_split(b);
            let second = text_split(first.1 + more);
            text_split(b + more) == (first.0 + second.0, second.1)
        }),
    decreases b.len(),
{
    reveal_strlit("\n\n");
    let first = text_split(b);
    lemma_find_within(b, "\n\n"@, 0);
    match find(b, "\n\n"@) {
        Some(p) => {
            lemma_find_stays(b, more, "\n\n"@);
            text_chunks_make_no_difference(b.skip(p + 2), more);
            assert((b + more).skip(p + 2) =~= b.skip(p + 2) + more);
            assert((b + more).take(p) =~= b.take(p));
            let rest = text_split(b.skip(p + 2));
            let second = text_split(rest.1 + more);
            assert(seq![b.take(p)] + (rest.0 + second.0) =~= (seq![b.take(p)] + rest.0)
                + second.0);
        },
        None => {
            let second = text_split(b + more);
            assert(first.0 + second.0 =~= second.0);
        },
    }
}

/// A tool that is being called in a stream.
#[derive(Debug, PartialEq, Eq)]
pub struct ToolStreamAcc {
    pub id: String,
    pub name: String,
    /// The arguments, as far as they have come.
    pub args: String,
    /// The number of the call, from zero.
    pub index: usize,
}

/// A tool that is being called in a stream.
pub struct ToolAccView {
    pub id: Seq<char>,
    pub name: Seq<char>,
    pub args: Seq<char>,
    pub index: usize,
}

impl ToolStreamAcc {
    pub open spec fn view(&self) -> ToolAccView {
        ToolAccView { id: self.id@, name: self.name@, args: self.args@, index: self.index }
    }
}

/// A stream of a response, on its way to the client.
pub struct StreamState {
    pub id: Seq<char>,
    pub model: Seq<char>,
    pub created: i64,
    pub include_usage: bool,
    /// The first chunk, which tells the role, was sent.
    pub sent_role: bool,
    /// The stream is over.
    pub done: bool,
    pub stop_reason: Option<Seq<char>>,
    pub saw_tool_calls: bool,
    pub usage: Option<JsonView>,
    /// The tools that are being called, by the number of their block.
    pub tools: Map<i64, ToolAccView>,
    pub next_tool_index: usize,
}

/// A piece of the stream to the client: a chunk, or the mark of its end.
pub enum Piece {
    Data(JsonView),
    End,
}

/// The text of a frame with some data.
pub open spec fn data_frame(data: Seq<char>) -> Seq<char> {
    "data: "@ + data + "\n\n"@
}

/// The text of a piece.
pub open spec fn piece_text(p: Piece) -> Seq<char> {
    match p {
        Piece::Data(j) => data_frame(json_text(j)),
        Piece::End => "data: [DONE]\n\n"@,
    }
}

/// The texts of pieces.
pub open spec fn piece_texts(list: Seq<Piece>) -> Seq<Seq<char>> {
    list.map_values(|p: Piece| piece_text(p))
}

/// A chunk of a response.
pub open spec fn chunk_json(
    s: StreamState,
    delta: JsonView,
    finish: Option<Seq<char>>,
    usage: Option<JsonView>,
) -> JsonView {
    JsonView::object().with("id"@, JsonView::Text(s.id)).with(
        "object"@,
        JsonView::Text("chat.completion.chunk"@),
    ).with("created"@, JsonView::Int(s.created as int)).with("model"@, JsonView::Text(s.model)).with(
        "choices"@,
        JsonView::Array(
            seq![
                JsonView::object().with("index"@, JsonView::Int(0)).with("delta"@, delta).with(
                    "logprobs"@,
                    JsonView::Null,
                ).with(
                    "finish_reason"@,
                    match finish {
                        Some(t) => JsonView::Text(t),
                        None => JsonView::Null,
                    },
                ),
            ],
        ),
    ).with("usage"@, JsonView::or_null(usage))
}

/// A chunk that adds to the response.
pub open spec fn delta_piece(s: StreamState, delta: JsonView) -> Piece {
    Piece::Data(chunk_json(s, delta, None, None))
}

/// The first chunk, unless it was sent.
pub open spec fn role_pieces(s: StreamState) -> Seq<Piece> {
    if s.sent_role {
        Seq::empty()
    } else {
        seq![
            delta_piece(s, JsonView::object().with("role"@, JsonView::Text("assistant"@))),
        ]
    }
}

/// The stream once the first chunk was sent.
pub open spec fn with_role(s: StreamState) -> StreamState {
    StreamState { sent_role: true, ..s }
}

/// The end of a response: the chunk with the reason for it, and the mark.
pub open spec fn finished(s: StreamState) -> (StreamState, Seq<Piece>) {
    if s.done {
        (s, Seq::empty())
    } else {
        let reason = finish_reason(
            match s.stop_reason {
                Some(t) => t,
                None => "end_turn"@,
            },
            s.saw_tool_calls,
        );
        let usage = if s.include_usage {
            s.usage
        } else {
            None
        };
        (
            with_role(StreamState { done: true, ..s }),
            role_pieces(s).push(
                Piece::Data(chunk_json(s, JsonView::object(), Some(reason), usage)),
            ).push(Piece::End),
        )
    }
}

/// The number of the block that an event is about.
pub open spec fn block_index(data: JsonView) -> i64 {
    match data.get_i64("index"@) {
        Some(i) => i,
        None => 0,
    }
}

/// A text in a member of a member, or an empty one.
pub open spec fn inner_text(data: JsonView, outer: Seq<char>, inner: Seq<char>) -> Seq<char> {
    match data.get2_str(outer, inner) {
        Some(t) => t,
        None => Seq::empty(),
    }
}

/// A block that starts calls a tool.
pub open spec fn starts_call(data: JsonView) -> bool {
    data.get2_str("content_block"@, "type"@) == Some("tool_use"@)
}

/// A block starts: where it calls a tool, the call is noted.
pub open spec fn block_started(s: StreamState, data: JsonView) -> StreamState {
    if starts_call(data) {
        StreamState {
            tools: s.tools.insert(
                block_index(data),
                ToolAccView {
                    id: inner_text(data, "content_block"@, "id"@),
                    name: inner_text(data, "content_block"@, "name"@),
                    args: Seq::empty(),
                    index: s.next_tool_index,
                },
            ),
            next_tool_index: (s.next_tool_index + 1) as usize,
            saw_tool_calls: true,
            ..s
        }
    } else {
        s
    }
}

/// More of a block comes: text and thinking are handed on unless they are empty,
/// and the arguments of a call are collected.
pub open spec fn block_continued(s: StreamState, data: JsonView) -> (StreamState, Seq<Piece>) {
    let t = with_role(s);
    let kind = data.get2_str("delta"@, "type"@);
    if kind == Some("text_delta"@) {
        let text = inner_text(data, "delta"@, "text"@);
        (
            t,
            if text.len() > 0 {
                role_pieces(s).push(
                    delta_piece(s, JsonView::object().with("content"@, JsonView::Text(text))),
                )
            } else {
                role_pieces(s)
            },
        )
    } else if kind == Some("thinking_delta"@) {
        let text = inner_text(data, "delta"@, "thinking"@);
        (
            t,
            if text.len() > 0 {
                role_pieces(s).push(
                    delta_piece(
                        s,
                        JsonView::object().with("reasoning_content"@, JsonView::Text(text)),
                    ),
                )
            } else {
                role_pieces(s)
            },
        )
    } else if kind == Some("input_json_delta"@) && s.tools.contains_key(block_index(data)) {
        let tool = s.tools[block_index(data)];
        (
            StreamState {
                tools: s.tools.insert(
                    block_index(data),
                    ToolAccView {
                        args: tool.args + inner_text(data, "delta"@, "partial_json"@),
                        ..tool
                    },
                ),
                ..t
            },
            role_pieces(s),
        )
    } else {
        (t, role_pieces(s))
    }
}

/// The call of a tool, as a chunk adds it.
pub open spec fn tool_delta(tool: ToolAccView) -> JsonView {
    JsonView::object().with(
        "tool_calls"@,
        JsonView::Array(
            seq![
                JsonView::object().with("index"@, JsonView::Int(tool.index as int)).with(
                    "id"@,
                    JsonView::Text(tool.id),
                ).with("type"@, JsonView::Text("function"@)).with(
                    "function"@,
                    JsonView::object().with("name"@, JsonView::Text(tool.name)).with(
                        "arguments"@,
                        JsonView::Text(tool.args),
                    ),
                ),
            ],
        ),
    )
}

/// A block ends: a call is complete, and is handed on.
pub open spec fn block_stopped(s: StreamState, data: JsonView) -> (StreamState, Seq<Piece>) {
    let index = block_index(data);
    if s.tools.contains_key(index) {
        (
            StreamState { tools: s.tools.remove(index), ..with_role(s) },
            role_pieces(s).push(delta_piece(s, tool_delta(s.tools[index]))),
        )
    } else {
        (s, Seq::empty())
    }
}

/// The tokens that an event tells of, all in all.
pub open spec fn delta_prompt(data: JsonView) -> int {
    let usage = data.get("usage"@);
    tokens(usage, "input_tokens"@) + tokens(usage, "cache_creation_input_tokens"@) + tokens(
        usage,
        "cache_read_input_tokens"@,
    )
}

/// The usage report of an event.
pub open spec fn delta_usage(data: JsonView) -> JsonView {
    let usage = data.get("usage"@);
    usage_report(
        delta_prompt(data),
        tokens(usage, "output_tokens"@) as int,
        tokens(usage, "cache_read_input_tokens"@) as int,
        credit_of(usage),
    )
}

/// The sums of a usage report can be formed.
pub open spec fn delta_countable(data: JsonView) -> bool {
    delta_prompt(data) + tokens(data.get("usage"@), "output_tokens"@) <= i64::MAX
}

/// An event of a stream that is not over.
pub open spec fn event_taken(s: StreamState, event: Seq<char>, data: JsonView) -> (
    StreamState,
    Seq<Piece>,
) {
    if event == "message_start"@ {
        (with_role(s), role_pieces(s))
    } else if event == "content_block_start"@ {
        (block_started(s, data), Seq::empty())
    } else if event == "content_block_delta"@ {
        block_continued(s, data)
    } else if event == "content_block_stop"@ {
        block_stopped(s, data)
    } else if event == "message_delta"@ {
        (
            StreamState {
                stop_reason: data.get2_str("delta"@, "stop_reason"@),
                usage: Some(delta_usage(data)),
                ..s
            },
            Seq::empty(),
        )
    } else if event == "message_stop"@ {
        finished(s)
    } else if event == "error"@ {
        (
            StreamState { done: true, ..s },
            seq![
                Piece::Data(
                    JsonView::object().with(
                        "error"@,
                        match data.get("error"@) {
                            Some(e) => e,
                            None => data,
                        },
                    ),
                ),
                Piece::End,
            ],
        )
    } else {
        (s, Seq::empty())
    }
}

/// An event whose data reads as `parsed`. A stream that is over takes none, and
/// pings and data that is no JSON are passed over.
pub open spec fn frame_taken(
    s: StreamState,
    event: Seq<char>,
    parsed: Result<JsonView, Seq<char>>,
) -> (StreamState, Seq<Piece>) {
    if s.done || event == "ping"@ {
        (s, Seq::empty())
    } else {
        match parsed {
            Ok(data) => event_taken(s, event, data),
            Err(_) => (s, Seq::empty()),
        }
    }
}

/// The numbers that taking an event leads to can be formed.
pub open spec fn takeable(
    s: StreamState,
    event: Seq<char>,
    parsed: Result<JsonView, Seq<char>>,
) -> bool {
    match parsed {
        Ok(data) => s.done || {
            &&& event == "message_delta"@ ==> delta_countable(data)
            &&& event == "content_block_start"@ && starts_call(data) ==> s.next_tool_index
                < usize::MAX
        },
        Err(_) => true,
    }
}

/// The text of a frame with a document.
pub fn chat_data_sse(value: &Json) -> (r: String)
    ensures
        r@ == data_frame(json_text(value@)),
        is_one_line(json_text(value@)),
{
    let mut out = concat("data: ", value.to_text().as_str());
    out.push_str("\n\n");
    out
}

/// The seconds since the Unix epoch, by the system clock. What the clock shows is
/// not stated.
pub fn unix_ts() -> (r: i64)
    ensures
        exists|at: Moment| at.wf() && r == #[trigger] seconds_since_epoch(at),
{
    unix_seconds(now())
}

/// The usage report of an event.
pub fn usage_from_anthropic_delta(data: &Json) -> (r: Json)
    requires
        delta_countable(data@),
    ensures
        r@ == delta_usage(data@),
{
    let usage = data.get("usage");
    let input: i64 = read_tokens(usage, "input_tokens");
    let cache_creation: i64 = read_tokens(usage, "cache_creation_input_tokens");
    let cache_read: i64 = read_tokens(usage, "cache_read_input_tokens");
    let completion: i64 = read_tokens(usage, "output_tokens");
    let credit = read_credit(usage);
    make_usage_report(
        input + cache_creation + cache_read,
        completion,
        cache_read,
        credit.usage,
        &credit.unit,
        &credit.unit_plural,
    )
}

/// Tests whether the sums of a usage report can be formed.
pub fn is_delta_countable(data: &Json) -> (r: bool)
    ensures
        r == delta_countable(data@),
{
    let usage = data.get("usage");
    let input: i64 = read_tokens(usage, "input_tokens");
    let cache_creation: i64 = read_tokens(usage, "cache_creation_input_tokens");
    let cache_read: i64 = read_tokens(usage, "cache_read_input_tokens");
    let completion: i64 = read_tokens(usage, "output_tokens");
    match input.checked_add(cache_creation) {
        Some(a) => match a.checked_add(cache_read) {
            Some(b) => b.checked_add(completion).is_some(),
            None => false,
        },
        None => false,
    }
}

/// Turns the events of a response into the chunks of a chat completion.
#[derive(Debug)]
pub struct ChatStreamTranslator {
    id: String,
    model: String,
    created: i64,
    include_usage: bool,
    sent_role: bool,
    done: bool,
    stop_reason: Option<String>,
    saw_tool_calls: bool,
    usage: Option<Json>,
    tools: HashMap<i64, ToolStreamAcc>,
    next_tool_index: usize,
}

/// A stream before its first event.
pub open spec fn fresh_stream(
    id: Seq<char>,
    created: i64,
    model: Seq<char>,
    include_usage: bool,
) -> StreamState {
    StreamState {
        id,
        model,
        created,
        include_usage,
        sent_role: false,
        done: false,
        stop_reason: None,
        saw_tool_calls: false,
        usage: None,
        tools: Map::empty(),
        next_tool_index: 0,
    }
}

/// The identifier of a chat completion: a prefix and the digits of a UUID.
pub open spec fn is_completion_id(t: Seq<char>) -> bool {
    exists|digits: Seq<char>| #[trigger] is_simple_uuid(digits) && t == "chatcmpl-"@ + digits
}

spec fn acc_views(m: Map<i64, ToolStreamAcc>) -> Map<i64, ToolAccView> {
    m.map_values(|t: ToolStreamAcc| t@)
}

impl ChatStreamTranslator {
    pub closed spec fn view(&self) -> StreamState {
        StreamState {
            id: self.id@,
            model: self.model@,
            created: self.created,
            include_usage: self.include_usage,
            sent_role: self.sent_role,
            done: self.done,
            stop_reason: opt_view(self.stop_reason),
            saw_tool_calls: self.saw_tool_calls,
            usage: match self.usage {
                Some(j) => Some(j@),
                None => None,
            },
            tools: acc_views(self.tools@),
            next_tool_index: self.next_tool_index,
        }
    }

    /// A stream with a given identifier and time.
    pub fn with_identity(id: String, created: i64, model: String, include_usage: bool) -> (r: Self)
        ensures
            r@ == fresh_stream(id@, created, model@, include_usage),
    {
        let r = ChatStreamTranslator {
            id,
            model,
            created,
            include_usage,
            sent_role: false,
            done: false,
            stop_reason: None,
            saw_tool_calls: false,
            usage: None,
            tools: HashMap::new(),
            next_tool_index: 0,
        };
        assert(acc_views(r.tools@) =~= Map::<i64, ToolAccView>::empty());
        r
    }

    /// A stream with a fresh identifier, that starts now.
    pub fn new(model: String, include_usage: bool) -> (r: Self)
        ensures
            is_completion_id(r@.id),
            r@ == fresh_stream(r@.id, r@.created, model@, include_usage),
    {
        ChatStreamTranslator::with_identity(fresh_id("chatcmpl-"), unix_ts(), model, include_usage)
    }

    fn chunk(&self, delta: Json, finish: Option<&str>, usage: Option<Json>) -> (r: String)
        ensures
            r@ == piece_text(
                Piece::Data(
                    chunk_json(
                        self@,
                        delta@,
                        crate::text::opt_str_view(finish),
                        match usage {
                            Some(j) => Some(j@),
                            None => None,
                        },
                    ),
                ),
            ),
    {
        let choice = Json::object().with("index", Json::Int(0)).with("delta", delta).with(
            "logprobs",
            Json::Null,
        ).with(
            "finish_reason",
            match finish {
                Some(t) => Json::text(t),
                None => Json::Null,
            },
        );
        let mut choices: Vec<Json> = Vec::new();
        let ghost shown = choice@;
        choices.push(choice);
        assert(array_view(choices@) =~= seq![shown]);
        chat_data_sse(
            &Json::object().with("id", Json::text(self.id.as_str())).with(
                "object",
                Json::text("chat.completion.chunk"),
            ).with("created", Json::Int(self.created)).with(
                "model",
                Json::text(self.model.as_str()),
            ).with("choices", Json::Array(choices)).with("usage", Json::or_null(usage)),
        )
    }

    fn push_delta(&self, out: &mut Vec<String>, delta: Json)
        ensures
            views(final(out)@) == views(old(out)@).push(piece_text(delta_piece(self@, delta@))),
    {
        let ghost before = out@;
        let text = self.chunk(delta, None, None);
        out.push(text);
        assert(views(out@) =~= views(before).push(text@));
    }

    fn ensure_role(&mut self) -> (r: Vec<String>)
        ensures
            views(r@) == piece_texts(role_pieces(old(self)@)),
            final(self)@ == with_role(old(self)@),
    {
        let mut out: Vec<String> = Vec::new();
        assert(views(out@) =~= Seq::<Seq<char>>::empty());
        if !self.sent_role {
            self.push_delta(&mut out, Json::object().with("role", Json::text("assistant")));
            self.sent_role = true;
        }
        assert(views(out@) =~= piece_texts(role_pieces(old(self)@)));
        out
    }

    /// The stream is over: gives what ends it, once.
    pub fn finish(&mut self) -> (r: Vec<String>)
        ensures
            views(r@) == piece_texts(finished(old(self)@).1),
            final(self)@ == finished(old(self)@).0,
    {
        if self.done {
            let none: Vec<String> = Vec::new();
            assert(views(none@) =~= piece_texts(Seq::<Piece>::empty()));
            return none;
        }
        self.done = true;
        let mut out = self.ensure_role();
        let reason = match &self.stop_reason {
            Some(t) => map_finish_reason(t.as_str(), self.saw_tool_calls),
            None => map_finish_reason("end_turn", self.saw_tool_calls),
        };
        let usage = if self.include_usage {
            match &self.usage {
                Some(j) => Some(j.clone()),
                None => None,
            }
        } else {
            None
        };
        let ghost first = out@;
        let last = self.chunk(Json::object(), Some(reason), usage);
        out.push(last);
        out.push("data: [DONE]\n\n".to_owned());
        assert(views(out@) =~= views(first).push(last@).push("data: [DONE]\n\n"@));
        assert(views(out@) =~= piece_texts(finished(old(self)@).1));
        out
    }
}

fn no_pieces() -> (r: Vec<String>)
    ensures
        views(r@) == piece_texts(Seq::empty()),
{
    let none: Vec<String> = Vec::new();
    assert(views(none@) =~= piece_texts(Seq::<Piece>::empty()));
    none
}

fn read_inner(data: &Json, outer: &str, inner: &str) -> (r: String)
    ensures
        r@ == inner_text(data@, outer@, inner@),
{
    match data.get2_str(outer, inner) {
        Some(t) => t.to_owned(),
        None => String::new(),
    }
}

fn inner_is(data: &Json, outer: &str, inner: &str, word: &str) -> (r: bool)
    ensures
        r == (data@.get2_str(outer@, inner@) == Some(word@)),
{
    match data.get2_str(outer, inner) {
        Some(t) => str_eq(t, word),
        None => false,
    }
}

fn read_block_index(data: &Json) -> (r: i64)
    ensures
        r == block_index(data@),
{
    match data.get_i64("index") {
        Some(i) => i,
        None => 0,
    }
}

impl ChatStreamTranslator {
    fn start_block(&mut self, data: &Json)
        requires
            starts_call(data@) ==> old(self)@.next_tool_index < usize::MAX,
        ensures
            final(self)@ == block_started(old(self)@, data@),
    {
        if inner_is(data, "content_block", "type", "tool_use") {
            let index: i64 = read_block_index(data);
            let tool = ToolStreamAcc {
                id: read_inner(data, "content_block", "id"),
                name: read_inner(data, "content_block", "name"),
                args: String::new(),
                index: self.next_tool_index,
            };
            let ghost before = self.tools@;
            self.tools.insert(index, tool);
            assert(acc_views(self.tools@) =~= acc_views(before).insert(index, tool@));
            self.next_tool_index = self.next_tool_index + 1;
            self.saw_tool_calls = true;
        }
    }

    fn continue_block(&mut self, data: &Json) -> (r: Vec<String>)
        ensures
            views(r@) == piece_texts(block_continued(old(self)@, data@).1),
            final(self)@ == block_continued(old(self)@, data@).0,
    {
        let mut out = self.ensure_role();
        let ghost first = out@;
        if inner_is(data, "delta", "type", "text_delta") {
            let text = read_inner(data, "delta", "text");
            if !text.as_str().is_empty() {
                self.push_delta(&mut out, Json::object().with("content", Json::Text(text)));
            }
        } else if inner_is(data, "delta", "type", "thinking_delta") {
            let text = read_inner(data, "delta", "thinking");
            if !text.as_str().is_empty() {
                self.push_delta(
                    &mut out,
                    Json::object().with("reasoning_content", Json::Text(text)),
                );
            }
        } else if inner_is(data, "delta", "type", "input_json_delta") {
            let index: i64 = read_block_index(data);
            let ghost before = self.tools@;
            match self.tools.remove(&index) {
                Some(tool) => {
                    let mut tool = tool;
                    tool.args.push_str(read_inner(data, "delta", "partial_json").as_str());
                    self.tools.insert(index, tool);
                    assert(acc_views(self.tools@) =~= acc_views(before).insert(index, tool@));
                },
                None => {
                    assert(self.tools@ =~= before);
                },
            }
        }
        proof {
            reveal_strlit("text_delta");
            reveal_strlit("thinking_delta");
            reveal_strlit("input_json_delta");
            assert("text_delta"@.len() == 10 && "thinking_delta"@.len() == 14
                && "input_json_delta"@.len() == 16);
            assert(views(out@) =~= piece_texts(block_continued(old(self)@, data@).1));
        }
        out
    }

    fn stop_block(&mut self, data: &Json) -> (r: Vec<String>)
        ensures
            views(r@) == piece_texts(block_stopped(old(self)@, data@).1),
            final(self)@ == block_stopped(old(self)@, data@).0,
    {
        let index: i64 = read_block_index(data);
        let ghost before = self.tools@;
        match self.tools.remove(&index) {
            None => {
                assert(self.tools@ =~= before);
                no_pieces()
            },
            Some(tool) => {
                assert(acc_views(self.tools@) =~= acc_views(before).remove(index));
                let mut out = self.ensure_role();
                let call = Json::object().with("index", Json::UInt(tool.index as u64)).with(
                    "id",
                    Json::text(tool.id.as_str()),
                ).with("type", Json::text("function")).with(
                    "function",
                    Json::object().with("name", Json::text(tool.name.as_str())).with(
                        "arguments",
                        Json::text(tool.args.as_str()),
                    ),
                );
                let mut calls: Vec<Json> = Vec::new();
                let ghost shown = call@;
                calls.push(call);
                assert(array_view(calls@) =~= seq![shown]);
                self.push_delta(&mut out, Json::object().with("tool_calls", Json::Array(calls)));
                assert(views(out@) =~= piece_texts(block_stopped(old(self)@, data@).1));
                out
            },
        }
    }

    fn report_error(&mut self, data: &Json) -> (r: Vec<String>)
        ensures
            final(self)@ == (StreamState { done: true, ..old(self)@ }),
            views(r@) == piece_texts(event_taken(old(self)@, "error"@, data@).1),
    {
        self.done = true;
        let error = match data.get("error") {
            Some(e) => e.clone(),
            None => data.clone(),
        };
        let mut out: Vec<String> = Vec::new();
        let text = chat_data_sse(&Json::object().with("error", error));
        out.push(text);
        out.push("data: [DONE]\n\n".to_owned());
        proof {
            reveal_strlit("error");
            reveal_strlit("message_start");
            reveal_strlit("content_block_start");
            reveal_strlit("content_block_delta");
            reveal_strlit("content_block_stop");
            reveal_strlit("message_delta");
            reveal_strlit("message_stop");
            assert("error"@.len() == 5 && "message_start"@.len() == 13
                && "content_block_start"@.len() == 19 && "content_block_delta"@.len() == 19
                && "content_block_stop"@.len() == 18 && "message_delta"@.len() == 13
                && "message_stop"@.len() == 12);
            assert(views(out@) =~= piece_texts(event_taken(old(self)@, "error"@, data@).1));
        }
        out
    }

    /// Takes an event of a stream that is not over.
    pub fn handle_event(&mut self, event: &str, data: &Json) -> (r: Vec<String>)
        requires
            !old(self)@.done,
            takeable(old(self)@, event@, Ok(data@)),
        ensures
            views(r@) == piece_texts(event_taken(old(self)@, event@, data@).1),
            final(self)@ == event_taken(old(self)@, event@, data@).0,
    {
        if str_eq(event, "message_start") {
            self.ensure_role()
        } else if str_eq(event, "content_block_start") {
            self.start_block(data);
            no_pieces()
        } else if str_eq(event, "content_block_delta") {
            self.continue_block(data)
        } else if str_eq(event, "content_block_stop") {
            self.stop_block(data)
        } else if str_eq(event, "message_delta") {
            self.stop_reason = match data.get2_str("delta", "stop_reason") {
                Some(t) => Some(t.to_owned()),
                None => None,
            };
            self.usage = Some(usage_from_anthropic_delta(data));
            no_pieces()
        } else if str_eq(event, "message_stop") {
            self.finish()
        } else if str_eq(event, "error") {
            self.report_error(data)
        } else {
            no_pieces()
        }
    }

    /// Takes a frame.
    pub fn handle_frame(&mut self, frame: SseFrame) -> (r: Vec<String>)
        requires
            takeable(old(self)@, frame@.event, json_parse(frame@.data)),
        ensures
            views(r@) == piece_texts(
                frame_taken(old(self)@, frame@.event, json_parse(frame@.data)).1,
            ),
            final(self)@ == frame_taken(old(self)@, frame@.event, json_parse(frame@.data)).0,
    {
        if self.done || str_eq(frame.event.as_str(), "ping") {
            return no_pieces();
        }
        match parse_json(frame.data.as_str()) {
            Ok(data) => self.handle_event(frame.event.as_str(), &data),
            Err(_) => no_pieces(),
        }
    }

    /// Takes a frame, unless the numbers in it are too large to be added up: then
    /// nothing changes.
    pub fn try_handle_frame(&mut self, frame: SseFrame) -> (r: Option<Vec<String>>)
        ensures
            match r {
                Some(list) => {
                    let taken = frame_taken(
                        old(self)@,
                        frame@.event,
                        json_parse(frame@.data),
                    );
                    &&& takeable(old(self)@, frame@.event, json_parse(frame@.data))
                    &&& views(list@) == piece_texts(taken.1)
                    &&& final(self)@ == taken.0
                },
                None => {
                    &&& !takeable(old(self)@, frame@.event, json_parse(frame@.data))
                    &&& final(self)@ == old(self)@
                },
            },
    {
        if !self.done {
            match parse_json(frame.data.as_str()) {
                Ok(data) => {
                    if str_eq(frame.event.as_str(), "message_delta") && !is_delta_countable(&data) {
                        return None;
                    }
                    if str_eq(frame.event.as_str(), "content_block_start") && self.next_tool_index
                        == usize::MAX && inner_is(&data, "content_block", "type", "tool_use") {
                        return None;
                    }
                },
                Err(_) => {},
            }
        }
        Some(self.handle_frame(frame))
    }
}

/// A chat completion with a given identifier and time, of a response.
pub open spec fn completion_json(
    response: JsonView,
    family: Seq<char>,
    id: Seq<char>,
    created: i64,
) -> JsonView {
    let parts = parts_of(response, family);
    JsonView::object().with("id"@, JsonView::Text(id)).with(
        "object"@,
        JsonView::Text("chat.completion"@),
    ).with("created"@, JsonView::Int(created as int)).with("model"@, JsonView::Text(parts.model)).with(
        "choices"@,
        JsonView::Array(
            seq![
                JsonView::object().with("index"@, JsonView::Int(0)).with(
                    "message"@,
                    message_json(parts.text, parts.reasoning, calls_json(parts.tool_calls)),
                ).with("logprobs"@, JsonView::Null).with(
                    "finish_reason"@,
                    JsonView::Text(finish_reason(parts.stop_reason, parts.tool_calls.len() > 0)),
                ),
            ],
        ),
    ).with(
        "usage"@,
        usage_report(
            prompt_total(parts),
            parts.output_tokens as int,
            parts.cache_read_tokens as int,
            parts.credit,
        ),
    )
}

/// A chat completion with a given identifier and time, of a response.
pub fn chat_completion(response: &Json, family: &str, id: &str, created: i64) -> (r: Json)
    requires
        countable(parts_of(response@, family@)),
    ensures
        r@ == completion_json(response@, family@, id@, created),
{
    let parts = assistant_parts_from_anthropic(response, family);
    assert(parts@.tool_calls.len() == parts.tool_calls@.len());
    let choice = Json::object().with("index", Json::Int(0)).with(
        "message",
        chat_message_from_parts(&parts),
    ).with("logprobs", Json::Null).with(
        "finish_reason",
        Json::text(map_finish_reason(parts.stop_reason.as_str(), parts.tool_calls.len() > 0)),
    );
    let mut choices: Vec<Json> = Vec::new();
    let ghost shown = choice@;
    choices.push(choice);
    assert(array_view(choices@) =~= seq![shown]);
    Json::object().with("id", Json::text(id)).with("object", Json::text("chat.completion")).with(
        "created",
        Json::Int(created),
    ).with("model", Json::text(parts.model.as_str())).with("choices", Json::Array(choices)).with(
        "usage",
        usage_json(&parts),
    )
}

/// What the body of a complete response comes to.
#[derive(Debug)]
pub enum Completion {
    /// The chat completion.
    Made(Json),
    /// The body is no JSON: the error for the client.
    Unreadable(Json),
    /// The numbers of tokens are too large to be added up.
    Uncountable,
}

/// What the body of a complete response comes to.
pub open spec fn completion_of(
    r: Completion,
    parsed: Result<JsonView, Seq<char>>,
    family: Seq<char>,
    id: Seq<char>,
    created: i64,
) -> bool {
    match parsed {
        Ok(j) => if countable(parts_of(j, family)) {
            r matches Completion::Made(c) && c@ == completion_json(j, family, id, created)
        } else {
            r is Uncountable
        },
        Err(e) => r matches Completion::Unreadable(c) && c@ == error_json(
            "failed to parse upstream response: "@ + e,
            "server_error"@,
        ),
    }
}

/// What the body of a complete response, that reads as `parsed`, comes to.
pub fn completion_from(
    parsed: Result<Json, String>,
    family: &str,
    id: &str,
    created: i64,
) -> (r: Completion)
    ensures
        completion_of(
            r,
            match parsed {
                Ok(j) => Ok(j@),
                Err(e) => Err(e@),
            },
            family@,
            id@,
            created,
        ),
{
    match parsed {
        Ok(j) => {
            let parts = assistant_parts_from_anthropic(&j, family);
            if is_countable(&parts) {
                Completion::Made(chat_completion(&j, family, id, created))
            } else {
                Completion::Uncountable
            }
        },
        Err(e) => Completion::Unreadable(
            openai_error(
                concat("failed to parse upstream response: ", e.as_str()).as_str(),
                "server_error",
            ),
        ),
    }
}

/// What the body of a complete response comes to: a chat completion with a fresh
/// identifier, that is made now.
pub fn convert_chat_response_body(body: &[u8], family: &str) -> (r: Completion)
    ensures
        exists|id: Seq<char>, created: i64| #[trigger]
            completion_of(r, json_parse_bytes(body@), family@, id, created) && is_completion_id(id),
{
    let id = fresh_id("chatcmpl-");
    let created: i64 = unix_ts();
    let r = completion_from(parse_json_bytes(body), family, id.as_str(), created);
    assert(is_completion_id(id@));
    assert(completion_of(r, json_parse_bytes(body@), family@, id@, created));
    r
}

/// The error for a body that could not be read.
pub fn unread_body_error(e: &str) -> (r: Json)
    ensures
        r@ == error_json("failed to read upstream response: "@ + e@, "server_error"@),
{
    openai_error(concat("failed to read upstream response: ", e).as_str(), "server_error")
}

/// What frames of a stream come to, one after the other, up to the first whose
/// numbers are too large: the stream, the pieces, and whether all were taken.
pub open spec fn frames_taken(s: StreamState, frames: Seq<FrameText>) -> (
    StreamState,
    Seq<Piece>,
    bool,
)
    decreases frames.len(),
{
    if frames.len() == 0 {
        (s, Seq::empty(), true)
    } else {
        let before = frames_taken(s, frames.drop_last());
        let frame = frames.last();
        let parsed = json_parse(frame.data);
        if before.2 && takeable(before.0, frame.event, parsed) {
            let taken = frame_taken(before.0, frame.event, parsed);
            (taken.0, before.1 + taken.1, true)
        } else {
            (before.0, before.1, false)
        }
    }
}

/// A stream of a response, from the bytes that come to those that go.
#[derive(Debug)]
pub struct ChatStream {
    parser: SseFrameParser,
    translator: ChatStreamTranslator,
    finished: bool,
}

/// What a stream goes out as, and whether all that came could be taken.
pub struct StreamOutput {
    pub pieces: Vec<String>,
    pub complete: bool,
}

impl ChatStream {
    /// What has come of the next frame.
    pub closed spec fn pending(&self) -> Seq<char> {
        self.parser@
    }

    pub closed spec fn state(&self) -> StreamState {
        self.translator@
    }

    /// Nothing comes any more.
    pub closed spec fn is_over(&self) -> bool {
        self.finished
    }

    pub fn new(translator: ChatStreamTranslator) -> (r: Self)
        ensures
            r.pending() == Seq::<char>::empty(),
            r.state() == translator@,
            !r.is_over(),
    {
        ChatStream { parser: SseFrameParser::new(), translator, finished: false }
    }

    /// Tests whether the stream is over.
    pub fn finished(&self) -> (r: bool)
        ensures
            r == self.is_over(),
    {
        self.finished
    }

    fn take_frames(&mut self, frames: &Vec<SseFrame>) -> (r: StreamOutput)
        ensures
            ({
                let taken = frames_taken(old(self).state(), frame_texts(frames@));
                &&& views(r.pieces@) == piece_texts(taken.1)
                &&& r.complete == taken.2
                &&& final(self).state() == taken.0
                &&& final(self).pending() == old(self).pending()
                &&& final(self).is_over() == old(self).is_over()
            }),
    {
        let mut pieces: Vec<String> = Vec::new();
        let mut complete = true;
        let ghost all = frame_texts(frames@);
        let ghost start = self.translator@;
        let mut i: usize = 0;
        proof {
            assert(all.take(0) =~= Seq::<FrameText>::empty());
            assert(views(pieces@) =~= piece_texts(Seq::<Piece>::empty()));
        }
        while i < frames.len()
            invariant
                i <= frames@.len(),
                all == frame_texts(frames@),
                self.parser == old(self).parser,
                self.finished == old(self).finished,
                self.translator@ == frames_taken(start, all.take(i as int)).0,
                views(pieces@) == piece_texts(frames_taken(start, all.take(i as int)).1),
                complete == frames_taken(start, all.take(i as int)).2,
            decreases frames@.len() - i,
        {
            let ghost before = frames_taken(start, all.take(i as int));
            proof {
                assert(all.take(i + 1).drop_last() =~= all.take(i as int));
                assert(all.take(i + 1).last() == frames@[i as int]@);
            }
            if complete {
                let frame = SseFrame {
                    event: frames[i].event.clone(),
                    data: frames[i].data.clone(),
                };
                match self.translator.try_handle_frame(frame) {
                    Some(list) => {
                        let mut list = list;
                        let ghost had = pieces@;
                        let ghost came = list@;
                        pieces.append(&mut list);
                        proof {
                            let taken = frame_taken(
                                before.0,
                                all[i as int].event,
                                json_parse(all[i as int].data),
                            );
                            assert(views(pieces@) =~= views(had) + views(came));
                            assert(piece_texts(before.1 + taken.1) =~= piece_texts(before.1)
                                + piece_texts(taken.1));
                        }
                    },
                    None => {
                        complete = false;
                    },
                }
            }
            i += 1;
        }
        assert(all.take(all.len() as int) =~= all);
        StreamOutput { pieces, complete }
    }

    /// Takes a chunk of the stream.
    pub fn push(&mut self, bytes: &[u8]) -> (r: StreamOutput)
        ensures
            ({
                let cut = text_split(old(self).pending() + lossy(bytes@));
                let taken = frames_taken(old(self).state(), frames_said(cut.0));
                &&& views(r.pieces@) == piece_texts(taken.1)
                &&& r.complete == taken.2
                &&& final(self).state() == taken.0
                &&& final(self).pending() == cut.1
                &&& final(self).is_over() == old(self).is_over()
            }),
    {
        let frames = self.parser.push(bytes);
        self.take_frames(&frames)
    }

    /// The stream broke off: gives the error for the client.
    pub fn fail(&mut self, e: &str) -> (r: String)
        ensures
            r@ == piece_text(
                Piece::Data(error_json("upstream stream error: "@ + e@, "server_error"@)),
            ),
            final(self).is_over(),
            final(self).state() == old(self).state(),
            final(self).pending() == old(self).pending(),
    {
        self.finished = true;
        chat_data_sse(
            &openai_error(concat("upstream stream error: ", e).as_str(), "server_error"),
        )
    }

    /// The stream came to its end: takes what is left, and gives what ends it.
    pub fn end(&mut self) -> (r: StreamOutput)
        ensures
            ({
                let left = match frame_in(old(self).pending()) {
                    Some(f) => seq![f],
                    None => Seq::empty(),
                };
                let taken = frames_taken(old(self).state(), left);
                let ended = finished(taken.0);
                &&& views(r.pieces@) == piece_texts(taken.1 + ended.1)
                &&& r.complete == taken.2
                &&& final(self).state() == ended.0
                &&& final(self).pending() == Seq::<char>::empty()
                &&& final(self).is_over()
            }),
    {
        self.finished = true;
        let frames = self.parser.finish();
        let taken = self.take_frames(&frames);
        let mut pieces = taken.pieces;
        let mut last = self.translator.finish();
        let ghost had = pieces@;
        let ghost came = last@;
        pieces.append(&mut last);
        proof {
            let left = match frame_in(old(self).pending()) {
                Some(f) => seq![f],
                None => Seq::empty(),
            };
            let first = frames_taken(old(self).state(), left);
            assert(views(pieces@) =~= views(had) + views(came));
            assert(piece_texts(first.1 + finished(first.0).1) =~= piece_texts(first.1)
                + piece_texts(finished(first.0).1));
        }
        StreamOutput { pieces, complete: taken.complete }
    }
}

} // verus!
