//! What a stream carries from the service to the client.

use vstd::prelude::*;

use crate::json::{json_parse, JsonView};
use crate::openai::handlers::{
    block_index, chunk_json, delta_piece, event_taken, finished, frame_taken, frames_said,
    frames_taken, inner_text, role_pieces, takeable, text_chunks_make_no_difference, text_split,
    tool_delta, FrameText, Piece, StreamState, ToolAccView,
};

verus! {

broadcast use vstd::string::group_string_axioms;

/// The piece tells of the tokens that were used.
pub open spec fn tells_usage(p: Piece) -> bool {
    &&& p matches Piece::Data(j)
    &&& j.get("usage"@) matches Some(u)
    &&& u != JsonView::Null
}

proof fn lemma_usage_of_frame(
    s: StreamState,
    event: Seq<char>,
    parsed: Result<JsonView, Seq<char>>,
    i: int,
)
    requires
        !s.include_usage,
        0 <= i < frame_taken(s, event, parsed).1.len(),
    ensures
        !tells_usage(frame_taken(s, event, parsed).1[i]),
{
    reveal_strlit("usage");
    reveal_strlit("error");
    assert("usage"@[0] != "error"@[0]);
}

proof fn lemma_usage_setting(s: StreamState, frames: Seq<FrameText>)
    ensures
        frames_taken(s, frames).0.include_usage == s.include_usage,
    decreases frames.len(),
{
    if frames.len() > 0 {
        lemma_usage_setting(s, frames.drop_last());
    }
}

proof fn lemma_usage_of_frames(s: StreamState, frames: Seq<FrameText>, i: int)
    requires
        !s.include_usage,
        0 <= i < frames_taken(s, frames).1.len(),
    ensures
        !tells_usage(frames_taken(s, frames).1[i]),
    decreases frames.len(),
{
    if frames.len() > 0 {
        let before = frames_taken(s, frames.drop_last());
        lemma_usage_setting(s, frames.drop_last());
        let frame = frames.last();
        let parsed = json_parse(frame.data);
        if i < before.1.len() {
            lemma_usage_of_frames(s, frames.drop_last(), i);
        } else {
            lemma_usage_of_frame(before.0, frame.event, parsed, i - before.1.len());
        }
    }
}

/// A client that did not ask for the usage report gets none.
pub proof fn usage_is_told_on_request_only(s: StreamState, frames: Seq<FrameText>, i: int)
    requires
        !s.include_usage,
        ({
            let taken = frames_taken(s, frames);
            0 <= i < (taken.1 + finished(taken.0).1).len()
        }),
    ensures
        ({
            let taken = frames_taken(s, frames);
            !tells_usage((taken.1 + finished(taken.0).1)[i])
        }),
{
    let taken = frames_taken(s, frames);
    lemma_usage_setting(s, frames);
    if i < taken.1.len() {
        lemma_usage_of_frames(s, frames, i);
    }
}

/// The text that a member of a member holds, and an empty one where there is none.
pub open spec fn text_at(j: JsonView, outer: Seq<char>, inner: Seq<char>) -> Seq<char> {
    match j.get2_str(outer, inner) {
        Some(t) => t,
        None => Seq::empty(),
    }
}

/// The number of the block that a document is about; the first where it says
/// nothing.
pub open spec fn block_told(j: JsonView) -> i64 {
    match j.get_i64("index"@) {
        Some(i) => i,
        None => 0,
    }
}

/// What a piece adds to a part of the message.
pub open spec fn added(p: Piece, part: Seq<char>) -> Seq<char> {
    match p {
        Piece::Data(j) => match j.get("choices"@) {
            Some(JsonView::Array(choices)) => if choices.len() > 0 {
                text_at(choices[0], "delta"@, part)
            } else {
                Seq::empty()
            },
            _ => Seq::empty(),
        },
        Piece::End => Seq::empty(),
    }
}

/// What pieces add to a part of the message.
pub open spec fn all_added(pieces: Seq<Piece>, part: Seq<char>) -> Seq<char>
    decreases pieces.len(),
{
    if pieces.len() == 0 {
        Seq::empty()
    } else {
        all_added(pieces.drop_last(), part) + added(pieces.last(), part)
    }
}

/// What a frame of the service tells, where it is a piece of a block of a kind.
pub open spec fn told(frame: FrameText, kind: Seq<char>, member: Seq<char>) -> Seq<char> {
    if frame.event == "content_block_delta"@ {
        match json_parse(frame.data) {
            Ok(data) => if data.get2_str("delta"@, "type"@) == Some(kind) {
                text_at(data, "delta"@, member)
            } else {
                Seq::empty()
            },
            Err(_) => Seq::empty(),
        }
    } else {
        Seq::empty()
    }
}

/// What frames of the service tell in pieces of a kind.
pub open spec fn all_told(frames: Seq<FrameText>, kind: Seq<char>, member: Seq<char>) -> Seq<char>
    decreases frames.len(),
{
    if frames.len() == 0 {
        Seq::empty()
    } else {
        all_told(frames.drop_last(), kind, member) + told(frames.last(), kind, member)
    }
}

proof fn lemma_added_push(pieces: Seq<Piece>, p: Piece, part: Seq<char>)
    ensures
        all_added(pieces.push(p), part) == all_added(pieces, part) + added(p, part),
{
    assert(pieces.push(p).drop_last() =~= pieces);
}

proof fn lemma_added_join(a: Seq<Piece>, b: Seq<Piece>, part: Seq<char>)
    ensures
        all_added(a + b, part) == all_added(a, part) + all_added(b, part),
    decreases b.len(),
{
    if b.len() == 0 {
        assert(a + b =~= a);
        assert(all_added(a, part) + all_added(b, part) =~= all_added(a, part));
    } else {
        assert((a + b).drop_last() =~= a + b.drop_last());
        lemma_added_join(a, b.drop_last(), part);
        assert(all_added(a + b, part) =~= all_added(a, part) + all_added(b, part));
    }
}

/// The members of a message that text goes to are told apart.
proof fn lemma_parts_differ()
    ensures
        "content"@ != "role"@,
        "content"@ != "reasoning_content"@,
        "content"@ != "tool_calls"@,
        "reasoning_content"@ != "role"@,
        "reasoning_content"@ != "tool_calls"@,
        "text_delta"@ != "thinking_delta"@,
        "input_json_delta"@ != "text_delta"@,
        "input_json_delta"@ != "thinking_delta"@,
        "choices"@ != "usage"@,
        "delta"@ != "logprobs"@,
        "delta"@ != "finish_reason"@,
{
    reveal_strlit("content");
    reveal_strlit("role");
    reveal_strlit("reasoning_content");
    reveal_strlit("tool_calls");
    reveal_strlit("text_delta");
    reveal_strlit("thinking_delta");
    reveal_strlit("input_json_delta");
    reveal_strlit("choices");
    reveal_strlit("usage");
    reveal_strlit("delta");
    reveal_strlit("logprobs");
    reveal_strlit("finish_reason");
    assert("content"@.len() == 7);
    assert("role"@.len() == 4);
    assert("reasoning_content"@.len() == 17);
    assert("tool_calls"@.len() == 10);
    assert("text_delta"@.len() == 10);
    assert("thinking_delta"@.len() == 14);
    assert("input_json_delta"@.len() == 16);
    assert("choices"@.len() == 7);
    assert("usage"@.len() == 5);
    assert("delta"@.len() == 5);
    assert("logprobs"@.len() == 8);
    assert("finish_reason"@.len() == 13);
}

/// The names of the events are told apart.
proof fn lemma_events_differ()
    ensures
        "content_block_delta"@ != "ping"@,
        "content_block_delta"@ != "message_start"@,
        "content_block_delta"@ != "content_block_start"@,
        "content_block_stop"@ != "message_start"@,
        "content_block_stop"@ != "content_block_start"@,
        "content_block_stop"@ != "content_block_delta"@,
{
    reveal_strlit("ping");
    reveal_strlit("content_block_delta");
    reveal_strlit("content_block_start");
    reveal_strlit("content_block_stop");
    reveal_strlit("message_start");
    assert("ping"@.len() == 4);
    assert("content_block_delta"@.len() == 19);
    assert("content_block_start"@.len() == 19);
    assert("content_block_stop"@.len() == 18);
    assert("message_start"@.len() == 13);
    assert("content_block_delta"@[14] != "content_block_start"@[14]);
}

proof fn lemma_chunk_adds(
    s: StreamState,
    delta: JsonView,
    finish: Option<Seq<char>>,
    usage: Option<JsonView>,
    part: Seq<char>,
)
    ensures
        added(Piece::Data(chunk_json(s, delta, finish, usage)), part) == (match delta.get_str(
            part,
        ) {
            Some(t) => t,
            None => Seq::empty(),
        }),
{
    lemma_parts_differ();
}

proof fn lemma_role_adds(s: StreamState, part: Seq<char>)
    requires
        part != "role"@,
    ensures
        all_added(role_pieces(s), part) == Seq::<char>::empty(),
{
    let role = role_pieces(s);
    if role.len() > 0 {
        let delta = JsonView::object().with("role"@, JsonView::Text("assistant"@));
        lemma_chunk_adds(s, delta, None, None, part);
        assert(role =~= Seq::<Piece>::empty().push(delta_piece(s, delta)));
        lemma_added_push(Seq::empty(), delta_piece(s, delta), part);
        assert(all_added(role, part) =~= Seq::<char>::empty());
    }
}

/// The text parts of a message, and the kinds of pieces that they come from.
spec fn part_of_message(part: Seq<char>, kind: Seq<char>, member: Seq<char>) -> bool {
    ||| part == "content"@ && kind == "text_delta"@ && member == "text"@
    ||| part == "reasoning_content"@ && kind == "thinking_delta"@ && member == "thinking"@
}

proof fn lemma_event_adds(
    s: StreamState,
    event: Seq<char>,
    data: JsonView,
    part: Seq<char>,
    kind: Seq<char>,
    member: Seq<char>,
)
    requires
        part_of_message(part, kind, member),
        !event_taken(s, event, data).0.done,
    ensures
        all_added(event_taken(s, event, data).1, part) == (if event == "content_block_delta"@
            && data.get2_str("delta"@, "type"@) == Some(kind) {
            inner_text(data, "delta"@, member)
        } else {
            Seq::empty()
        }),
{
    lemma_parts_differ();
    lemma_events_differ();
    let role = role_pieces(s);
    lemma_role_adds(s, part);
    assert(all_added(Seq::<Piece>::empty(), part) == Seq::<char>::empty());
    assert(Seq::<char>::empty() + Seq::<char>::empty() =~= Seq::<char>::empty());
    if event == "content_block_delta"@ {
        let text = inner_text(data, "delta"@, "text"@);
        let thinking = inner_text(data, "delta"@, "thinking"@);
        let a = JsonView::object().with("content"@, JsonView::Text(text));
        let b = JsonView::object().with("reasoning_content"@, JsonView::Text(thinking));
        lemma_chunk_adds(s, a, None, None, part);
        lemma_chunk_adds(s, b, None, None, part);
        lemma_added_push(role, delta_piece(s, a), part);
        lemma_added_push(role, delta_piece(s, b), part);
        assert(Seq::<char>::empty() + text =~= text);
        assert(Seq::<char>::empty() + thinking =~= thinking);
        if text.len() == 0 {
            assert(text =~= Seq::<char>::empty());
        }
        if thinking.len() == 0 {
            assert(thinking =~= Seq::<char>::empty());
        }
    } else if event == "content_block_stop"@ {
        let index = block_index(data);
        if s.tools.contains_key(index) {
            let delta = tool_delta(s.tools[index]);
            lemma_chunk_adds(s, delta, None, None, part);
            lemma_added_push(role, delta_piece(s, delta), part);
        }
    }
}

proof fn lemma_frames_add(
    s: StreamState,
    frames: Seq<FrameText>,
    part: Seq<char>,
    kind: Seq<char>,
    member: Seq<char>,
)
    requires
        part_of_message(part, kind, member),
        frames_taken(s, frames).2,
        !frames_taken(s, frames).0.done,
    ensures
        all_added(frames_taken(s, frames).1, part) == all_told(frames, kind, member),
    decreases frames.len(),
{
    if frames.len() > 0 {
        let before = frames_taken(s, frames.drop_last());
        let frame = frames.last();
        let parsed = json_parse(frame.data);
        let taken = frame_taken(before.0, frame.event, parsed);
        assert(before.2 && takeable(before.0, frame.event, parsed));
        lemma_frames_add(s, frames.drop_last(), part, kind, member);
        lemma_added_join(before.1, taken.1, part);
        lemma_events_differ();
        match parsed {
            Ok(data) => {
                if frame.event != "ping"@ {
                    lemma_event_adds(before.0, frame.event, data, part, kind, member);
                }
            },
            Err(_) => {},
        }
    }
}

proof fn lemma_end_adds(s: StreamState, part: Seq<char>)
    requires
        part != "role"@,
    ensures
        all_added(finished(s).1, part) == Seq::<char>::empty(),
{
    if !s.done {
        let role = role_pieces(s);
        let chunk = finished(s).1[role.len() as int];
        lemma_role_adds(s, part);
        lemma_added_push(role, chunk, part);
        lemma_added_push(role.push(chunk), Piece::End, part);
        assert(added(chunk, part) == Seq::<char>::empty()) by {
            lemma_parts_differ();
        }
        assert(finished(s).1 =~= role.push(chunk).push(Piece::End));
        assert(all_added(finished(s).1, part) =~= Seq::<char>::empty());
    }
}

/// The text and the thinking of a response reach the client whole and in order,
/// and nothing else does in their place, up to the end of the response.
pub proof fn text_arrives_whole(s: StreamState, frames: Seq<FrameText>)
    requires
        frames_taken(s, frames).2,
        !frames_taken(s, frames).0.done,
    ensures
        ({
            let taken = frames_taken(s, frames);
            let pieces = taken.1 + finished(taken.0).1;
            &&& all_added(pieces, "content"@) == all_told(frames, "text_delta"@, "text"@)
            &&& all_added(pieces, "reasoning_content"@) == all_told(
                frames,
                "thinking_delta"@,
                "thinking"@,
            )
        }),
{
    lemma_parts_differ();
    let taken = frames_taken(s, frames);
    lemma_frames_add(s, frames, "content"@, "text_delta"@, "text"@);
    lemma_frames_add(s, frames, "reasoning_content"@, "thinking_delta"@, "thinking"@);
    lemma_end_adds(taken.0, "content"@);
    lemma_end_adds(taken.0, "reasoning_content"@);
    lemma_added_join(taken.1, finished(taken.0).1, "content"@);
    lemma_added_join(taken.1, finished(taken.0).1, "reasoning_content"@);
}

/// The frame is an event of a block with a given number.
pub open spec fn is_event_of(frame: FrameText, event: Seq<char>, block: i64) -> bool {
    &&& frame.event == event
    &&& json_parse(frame.data) matches Ok(data)
    &&& block_told(data) == block
}

/// The piece of the arguments of a call that a frame brings, where the call is
/// made by a given block.
pub open spec fn argument_piece(frame: FrameText, block: i64) -> Seq<char> {
    if is_event_of(frame, "content_block_delta"@, block) {
        told(frame, "input_json_delta"@, "partial_json"@)
    } else {
        Seq::empty()
    }
}

/// The arguments of a call that frames bring.
pub open spec fn argument_pieces(frames: Seq<FrameText>, block: i64) -> Seq<char>
    decreases frames.len(),
{
    if frames.len() == 0 {
        Seq::empty()
    } else {
        argument_pieces(frames.drop_last(), block) + argument_piece(frames.last(), block)
    }
}

proof fn lemma_arguments_grow(s: StreamState, frames: Seq<FrameText>, block: i64)
    requires
        s.tools.contains_key(block),
        frames_taken(s, frames).2,
        !frames_taken(s, frames).0.done,
        forall|i: int|
            0 <= i < frames.len() ==> !is_event_of(
                #[trigger] frames[i],
                "content_block_start"@,
                block,
            ) && !is_event_of(frames[i], "content_block_stop"@, block),
    ensures
        ({
            let after = frames_taken(s, frames).0;
            after.tools.contains_key(block) && after.tools[block] == (ToolAccView {
                args: s.tools[block].args + argument_pieces(frames, block),
                ..s.tools[block]
            })
        }),
    decreases frames.len(),
{
    let tool = s.tools[block];
    if frames.len() == 0 {
        assert(tool.args + argument_pieces(frames, block) =~= tool.args);
    } else {
        lemma_parts_differ();
        lemma_events_differ();
        let front = frames.drop_last();
        let frame = frames.last();
        assert(frame == frames[frames.len() - 1]);
        assert forall|i: int| 0 <= i < front.len() implies !is_event_of(
            #[trigger] front[i],
            "content_block_start"@,
            block,
        ) && !is_event_of(front[i], "content_block_stop"@, block) by {
            assert(front[i] == frames[i]);
        }
        let before = frames_taken(s, front);
        let parsed = json_parse(frame.data);
        assert(before.2 && takeable(before.0, frame.event, parsed));
        lemma_arguments_grow(s, front, block);
        assert(tool.args + argument_pieces(frames, block) =~= tool.args + argument_pieces(
            front,
            block,
        ) + argument_piece(frame, block));
        assert(tool.args + argument_pieces(front, block) + Seq::<char>::empty() =~= tool.args
            + argument_pieces(front, block));
    }
}

/// The arguments of a call reach the client whole and in order, with the end of
/// the block that makes the call, whatever other blocks go on in between.
pub proof fn arguments_arrive_whole(
    s: StreamState,
    frames: Seq<FrameText>,
    block: i64,
    stop: JsonView,
)
    requires
        s.tools.contains_key(block),
        frames_taken(s, frames).2,
        !frames_taken(s, frames).0.done,
        forall|i: int|
            0 <= i < frames.len() ==> !is_event_of(
                #[trigger] frames[i],
                "content_block_start"@,
                block,
            ) && !is_event_of(frames[i], "content_block_stop"@, block),
        block_told(stop) == block,
    ensures
        ({
            let after = frames_taken(s, frames).0;
            let ended = event_taken(after, "content_block_stop"@, stop);
            &&& ended.1.len() > 0
            &&& ended.1.last() == delta_piece(
                after,
                tool_delta(
                    ToolAccView {
                        args: s.tools[block].args + argument_pieces(frames, block),
                        ..s.tools[block]
                    },
                ),
            )
            &&& !ended.0.tools.contains_key(block)
        }),
{
    lemma_events_differ();
    lemma_arguments_grow(s, frames, block);
}

proof fn lemma_frames_said_join(a: Seq<Seq<char>>, b: Seq<Seq<char>>)
    ensures
        frames_said(a + b) == frames_said(a) + frames_said(b),
    decreases b.len(),
{
    if b.len() == 0 {
        assert(a + b =~= a);
        assert(frames_said(a) + frames_said(b) =~= frames_said(a));
    } else {
        assert((a + b).drop_last() =~= a + b.drop_last());
        lemma_frames_said_join(a, b.drop_last());
        assert(frames_said(a + b) =~= frames_said(a) + frames_said(b));
    }
}

proof fn lemma_frames_taken_join(s: StreamState, a: Seq<FrameText>, b: Seq<FrameText>)
    requires
        frames_taken(s, a).2,
    ensures
        ({
            let first = frames_taken(s, a);
            let second = frames_taken(first.0, b);
            frames_taken(s, a + b) == (second.0, first.1 + second.1, second.2)
        }),
    decreases b.len(),
{
    let first = frames_taken(s, a);
    if b.len() == 0 {
        assert(a + b =~= a);
        assert(first.1 + frames_taken(first.0, b).1 =~= first.1);
    } else {
        assert((a + b).drop_last() =~= a + b.drop_last());
        assert((a + b).last() == b.last());
        lemma_frames_taken_join(s, a, b.drop_last());
        let before = frames_taken(first.0, b.drop_last());
        let frame = b.last();
        let taken = frame_taken(before.0, frame.event, json_parse(frame.data));
        assert(first.1 + (before.1 + taken.1) =~= (first.1 + before.1) + taken.1);
    }
}

/// It makes no difference to the client where the text of a stream is cut into
/// chunks: two chunks, one after the other, come to the same pieces as both at
/// once. `pending` is what has come of the next frame before them.
pub proof fn cuts_make_no_difference(
    s: StreamState,
    pending: Seq<char>,
    chunk: Seq<char>,
    more: Seq<char>,
)
    requires
        frames_taken(s, frames_said(text_split(pending + chunk).0)).2,
    ensures
        ({
            let cut = text_split(pending + chunk);
            let then_cut = text_split(cut.1 + more);
            let at_once = text_split(pending + chunk + more);
            let first = frames_taken(s, frames_said(cut.0));
            let second = frames_taken(first.0, frames_said(then_cut.0));
            &&& frames_taken(s, frames_said(at_once.0)) == (
                second.0,
                first.1 + second.1,
                second.2,
            )
            &&& at_once.1 == then_cut.1
        }),
{
    let cut = text_split(pending + chunk);
    let then_cut = text_split(cut.1 + more);
    text_chunks_make_no_difference(pending + chunk, more);
    lemma_frames_said_join(cut.0, then_cut.0);
    lemma_frames_taken_join(s, frames_said(cut.0), frames_said(then_cut.0));
}

} // verus!
