//! What holds of every stream and of every conversation.

use vstd::prelude::*;

use crate::admin::model_mapping::{default_mapping, norm_spec, resolved, MappingView};
use crate::anthropic::types::MessageView;
use crate::json::{is_one_line, json_parse, JsonView};
use crate::model::names::model_name;
use crate::openai::handlers::{
    data_frame, event_taken, finished, frame_in, frame_taken, frames_taken, role_pieces, takeable,
    text_split, FrameText, Piece, StreamState,
};
use crate::openai::sse::{fields_of, with_lines, without_cr};
use crate::openai::types::{
    converted, has_web_search, is_foreign_model, is_web_search, mergeable, serving_model,
    split_chat, split_steps, tool_for_model, tool_result_block, tools_for_model, with_message,
    with_messages, ChatCompletionRequest, ChatMessageView, OfferedTool, ToolCallView,
};
use crate::text::{
    find, find_from, is_white, join_spec, occurs_at, split_by, starts_with, strip_prefix_spec,
    trim, trim_start,
};

verus! {

broadcast use vstd::string::group_string_axioms;

/// How often the mark of the end stands among pieces.
pub open spec fn end_marks(pieces: Seq<Piece>) -> nat
    decreases pieces.len(),
{
    if pieces.len() == 0 {
        0
    } else {
        end_marks(pieces.drop_last()) + (if pieces.last() is End {
            1nat
        } else {
            0
        })
    }
}

proof fn lemma_end_marks_add(a: Seq<Piece>, b: Seq<Piece>)
    ensures
        end_marks(a + b) == end_marks(a) + end_marks(b),
    decreases b.len(),
{
    if b.len() == 0 {
        assert(a + b =~= a);
    } else {
        assert((a + b).drop_last() =~= a + b.drop_last());
        lemma_end_marks_add(a, b.drop_last());
    }
}

proof fn lemma_end_marks_push(a: Seq<Piece>, p: Piece)
    ensures
        end_marks(a.push(p)) == end_marks(a) + (if p is End {
            1nat
        } else {
            0
        }),
{
    assert(a.push(p).drop_last() =~= a);
}

/// What a batch of pieces does to a stream: the mark of the end stands in it
/// exactly when the stream ends with it, and then stands last.
spec fn ends_well(s: StreamState, t: StreamState, pieces: Seq<Piece>) -> bool {
    &&& s.done ==> t.done && pieces.len() == 0
    &&& end_marks(pieces) == (if t.done && !s.done {
        1nat
    } else {
        0
    })
    &&& t.done && !s.done ==> pieces.len() > 0 && pieces.last() is End
}

proof fn lemma_event_ends_well(s: StreamState, event: Seq<char>, data: JsonView)
    requires
        !s.done,
    ensures
        ends_well(s, event_taken(s, event, data).0, event_taken(s, event, data).1),
        ends_well(s, finished(s).0, finished(s).1),
{
    reveal_with_fuel(end_marks, 4);
    let taken = event_taken(s, event, data);
    let role = role_pieces(s);
    assert(end_marks(role) == 0) by {
        if role.len() > 0 {
            assert(role.drop_last() =~= Seq::<Piece>::empty());
        }
    }
    let ended = finished(s).1;
    lemma_end_marks_push(role, ended[role.len() as int]);
    lemma_end_marks_push(role.push(ended[role.len() as int]), Piece::End);
    if event == "message_start"@ || event == "content_block_start"@ {
    } else if event == "content_block_delta"@ || event == "content_block_stop"@ {
        if taken.1.len() == role.len() + 1 {
            assert(taken.1 =~= role.push(taken.1.last()));
            lemma_end_marks_push(role, taken.1.last());
        }
    } else if event == "message_delta"@ || event == "message_stop"@ {
    } else if event == "error"@ {
        assert(taken.1.drop_last().drop_last() =~= Seq::<Piece>::empty());
    }
}

proof fn lemma_frames_end_well(s: StreamState, frames: Seq<FrameText>)
    ensures
        ends_well(s, frames_taken(s, frames).0, frames_taken(s, frames).1),
    decreases frames.len(),
{
    if frames.len() > 0 {
        lemma_frames_end_well(s, frames.drop_last());
        let before = frames_taken(s, frames.drop_last());
        let frame = frames.last();
        let parsed = json_parse(frame.data);
        let taken = frame_taken(before.0, frame.event, parsed);
        if !before.0.done {
            match parsed {
                Ok(data) => {
                    lemma_event_ends_well(before.0, frame.event, data);
                },
                Err(_) => {},
            }
        }
        lemma_end_marks_add(before.1, taken.1);
    }
}

/// However a stream goes, it ends with one mark of its end, which stands last.
pub proof fn one_end_mark(s: StreamState, frames: Seq<FrameText>)
    requires
        !s.done,
    ensures
        ({
            let taken = frames_taken(s, frames);
            let pieces = taken.1 + finished(taken.0).1;
            &&& end_marks(pieces) == 1
            &&& pieces.last() is End
            &&& finished(taken.0).0.done
        }),
{
    lemma_frames_end_well(s, frames);
    let taken = frames_taken(s, frames);
    lemma_end_marks_add(taken.1, finished(taken.0).1);
    if taken.0.done {
        assert(taken.1 + finished(taken.0).1 =~= taken.1);
    } else {
        lemma_event_ends_well(taken.0, "message_stop"@, JsonView::Null);
    }
}

/// A stream that is over gives nothing any more, whatever comes.
pub proof fn over_is_over(s: StreamState, frames: Seq<FrameText>)
    requires
        s.done,
    ensures
        frames_taken(s, frames).0 == s,
        frames_taken(s, frames).1.len() == 0,
        finished(s).0 == s,
        finished(s).1.len() == 0,
    decreases frames.len(),
{
    if frames.len() > 0 {
        over_is_over(s, frames.drop_last());
    }
}

/// Either nothing was sent yet, or the first chunk was.
spec fn role_leads(s: StreamState, t: StreamState, pieces: Seq<Piece>) -> bool {
    ||| pieces.len() == 0 && !t.sent_role && !t.done
    ||| pieces.len() > 0 && pieces[0] == role_pieces(s)[0] && t.sent_role
    ||| t.done && pieces.len() == 2 && pieces[1] is End
}

proof fn lemma_role_leads(s: StreamState, frames: Seq<FrameText>)
    requires
        !s.done,
        !s.sent_role,
    ensures
        role_leads(s, frames_taken(s, frames).0, frames_taken(s, frames).1),
        frames_taken(s, frames).0.id == s.id,
        frames_taken(s, frames).0.model == s.model,
        frames_taken(s, frames).0.created == s.created,
    decreases frames.len(),
{
    if frames.len() > 0 {
        lemma_role_leads(s, frames.drop_last());
        let before = frames_taken(s, frames.drop_last());
        let frame = frames.last();
        let parsed = json_parse(frame.data);
        if before.2 && takeable(before.0, frame.event, parsed) {
            let taken = frame_taken(before.0, frame.event, parsed);
            let all = before.1 + taken.1;
            if before.1.len() == 0 {
                assert(all =~= taken.1);
                assert(role_pieces(before.0)[0] == role_pieces(s)[0]);
            } else {
                assert(all[0] == before.1[0]);
                if before.0.done {
                    assert(all =~= before.1);
                }
            }
        }
    }
}

/// The first piece of a stream is the chunk that tells the role, unless the
/// stream ends with an error before it says anything.
pub proof fn the_role_comes_first(s: StreamState, frames: Seq<FrameText>)
    requires
        !s.done,
        !s.sent_role,
    ensures
        ({
            let taken = frames_taken(s, frames);
            let pieces = taken.1 + finished(taken.0).1;
            ||| pieces[0] == role_pieces(s)[0]
            ||| pieces.len() == 2 && pieces[1] is End && taken.0.done
        }),
{
    lemma_role_leads(s, frames);
    let taken = frames_taken(s, frames);
    let pieces = taken.1 + finished(taken.0).1;
    if taken.1.len() == 0 {
        assert(pieces =~= finished(taken.0).1);
        assert(role_pieces(taken.0)[0] == role_pieces(s)[0]);
    } else if taken.0.done {
        assert(pieces =~= taken.1);
    } else {
        assert(pieces[0] == taken.1[0]);
    }
}

proof fn lemma_find_at(s: Seq<char>, pat: Seq<char>, i: int, p: int)
    requires
        0 <= i <= p,
        occurs_at(s, pat, p),
        forall|j: int| i <= j < p ==> !occurs_at(s, pat, j),
    ensures
        find_from(s, pat, i) == Some(p),
    decreases p - i,
{
    if i < p {
        lemma_find_at(s, pat, i + 1, p);
    }
}

proof fn lemma_split_single(s: Seq<char>)
    requires
        forall|i: int| 0 <= i < s.len() ==> s[i] != '\n',
    ensures
        split_by(s, |c: char| c == '\n') == seq![s],
    decreases s.len(),
{
    let sep = |c: char| c == '\n';
    if s.len() == 0 {
        assert(s =~= Seq::<char>::empty());
    } else {
        lemma_split_single(s.drop_last());
        assert(s.last() == s[s.len() - 1]);
        assert(seq![s.drop_last()].update(0, s.drop_last().push(s.last())) =~= seq![s]) by {
            assert(s.drop_last().push(s.last()) =~= s);
        }
    }
}

proof fn lemma_char_value(c: char)
    ensures
        c as u32 >= 0x20 ==> c != '\n' && c != '\r',
{
}

/// A frame gives back the data that it was made of: what is sent as one frame is
/// read as one, with the same data.
pub proof fn a_frame_carries_its_data(data: Seq<char>)
    requires
        is_one_line(data),
    ensures
        text_split(data_frame(data)) == (seq!["data: "@ + data], Seq::<char>::empty()),
        frame_in("data: "@ + data) == Some(FrameText { event: Seq::empty(), data }),
{
    reveal_strlit("data: ");
    reveal_strlit("data:");
    reveal_strlit("event:");
    reveal_strlit("\n\n");
    reveal_strlit("\n");
    let head = "data: "@ + data;
    let whole = data_frame(data);
    let gap = "\n\n"@;
    let p = head.len() as int;
    assert(whole =~= head + gap);
    assert forall|i: int| 0 <= i < p implies head[i] != '\n' && head[i] != '\r' by {
        if i >= 6 {
            assert(head[i] == data[i - 6]);
            lemma_char_value(data[i - 6]);
        }
    }
    assert(whole.subrange(p, p + 2) =~= gap);
    assert forall|j: int| 0 <= j < p implies !occurs_at(whole, gap, j) by {
        if occurs_at(whole, gap, j) {
            assert(whole.subrange(j, j + 2)[0] == gap[0]);
            assert(whole[j] == head[j]);
        }
    }
    lemma_find_at(whole, gap, 0, p);
    assert(whole.take(p) =~= head);
    assert(whole.skip(p + 2) =~= Seq::<char>::empty());
    assert(find(Seq::<char>::empty(), gap) is None);
    assert(text_split(Seq::<char>::empty()) == (Seq::<Seq<char>>::empty(), Seq::<char>::empty()));
    assert(seq![head] + Seq::<Seq<char>>::empty() =~= seq![head]);

    lemma_split_single(head);
    let lines = seq![head];
    assert(lines.drop_last() =~= Seq::<Seq<char>>::empty());
    assert(without_cr(head) == head) by {
        assert(head.last() == head[p - 1]);
    }
    assert(strip_prefix_spec(head, "event:"@) is None) by {
        if starts_with(head, "event:"@) {
            assert(head.subrange(0, 6)[0] == "event:"@[0]);
        }
    }
    assert(head.subrange(0, 5) =~= "data:"@);
    let rest = head.subrange(5, p);
    assert(rest =~= seq![' '] + data);
    assert(rest.drop_first() =~= data);
    assert(is_white(' '));
    assert(trim_start(rest) == trim_start(data));
    assert(trim_start(data) == data);
    let f = fields_of(head);
    assert(with_lines(lines.drop_last()).data =~= Seq::<Seq<char>>::empty());
    assert(f.data =~= seq![data]);
    assert(join_spec(f.data, "\n"@) == data);
}

proof fn lemma_tools_pending(
    list: Seq<ChatMessageView>,
    tools: Seq<ChatMessageView>,
    fresh: Seq<Seq<Seq<char>>>,
)
    requires
        forall|i: int| 0 <= i < tools.len() ==> (#[trigger] tools[i]).role == "tool"@,
    ensures
        ({
            let before = split_steps(list, fresh);
            let after = split_steps(list + tools, fresh);
            &&& after.messages == before.messages
            &&& after.system == before.system
            &&& after.pending == before.pending + tools.map_values(
                |m: ChatMessageView| tool_result_block(m),
            )
        }),
    decreases tools.len(),
{
    let blocks = tools.map_values(|m: ChatMessageView| tool_result_block(m));
    if tools.len() == 0 {
        assert(list + tools =~= list);
        assert(split_steps(list, fresh).pending + blocks =~= split_steps(list, fresh).pending);
    } else {
        lemma_tools_pending(list, tools.drop_last(), fresh);
        assert((list + tools).drop_last() =~= list + tools.drop_last());
        assert(tools.last() == tools[tools.len() - 1]);
        let front = tools.drop_last().map_values(|m: ChatMessageView| tool_result_block(m));
        assert(split_steps(list, fresh).pending + blocks =~= (split_steps(list, fresh).pending
            + front).push(tool_result_block(tools.last())));
    }
}

/// The results of tools that were called together are put into one message, in
/// their order, and not into one each.
pub proof fn parallel_tool_results_share_a_message(
    list: Seq<ChatMessageView>,
    tools: Seq<ChatMessageView>,
    fresh: Seq<Seq<Seq<char>>>,
)
    requires
        list.len() == 0 || list.last().role != "tool"@,
        tools.len() > 0,
        forall|i: int| 0 <= i < tools.len() ==> (#[trigger] tools[i]).role == "tool"@,
    ensures
        split_chat(list + tools, fresh).messages == split_chat(list, fresh).messages.push(
            MessageView {
                role: "user"@,
                content: JsonView::Array(
                    tools.map_values(|m: ChatMessageView| tool_result_block(m)),
                ),
            },
        ),
        split_chat(list + tools, fresh).system == split_chat(list, fresh).system,
{
    lemma_tools_pending(list, tools, fresh);
    let before = split_steps(list, fresh);
    assert(before.pending.len() == 0);
    let blocks = tools.map_values(|m: ChatMessageView| tool_result_block(m));
    assert(before.pending + blocks =~= blocks);
}

spec fn roles_fit(list: Seq<MessageView>) -> bool {
    forall|i: int|
        0 <= i < list.len() ==> (#[trigger] list[i]).role == "user"@ || list[i].role
            == "assistant"@
}

proof fn lemma_roles_fit(list: Seq<ChatMessageView>, fresh: Seq<Seq<Seq<char>>>)
    ensures
        roles_fit(split_steps(list, fresh).messages),
    decreases list.len(),
{
    if list.len() > 0 {
        lemma_roles_fit(list.drop_last(), fresh);
    }
}

/// Every message of a converted conversation is one of the user or of the
/// assistant: system prompts and tool results are not messages of their own.
pub proof fn only_users_and_assistants_speak(
    list: Seq<ChatMessageView>,
    fresh: Seq<Seq<Seq<char>>>,
    i: int,
)
    requires
        0 <= i < split_chat(list, fresh).messages.len(),
    ensures
        split_chat(list, fresh).messages[i].role == "user"@ || split_chat(
            list,
            fresh,
        ).messages[i].role == "assistant"@,
{
    lemma_roles_fit(list, fresh);
}

proof fn lemma_tool_kept(list: Seq<OfferedTool>, i: int)
    requires
        0 <= i < list.len(),
        tool_for_model(list[i]) is Some,
    ensures
        tools_for_model(list).contains(tool_for_model(list[i])->0),
    decreases list.len(),
{
    let all = tools_for_model(list);
    if i < list.len() - 1 {
        lemma_tool_kept(list.drop_last(), i);
        let front = tools_for_model(list.drop_last());
        let k = choose|k: int| 0 <= k < front.len() && front[k] == tool_for_model(list[i])->0;
        assert(all[k] == front[k]);
    } else {
        assert(all[all.len() - 1] == tool_for_model(list[i])->0);
    }
}

/// A web search tool, in whatever variant it is offered, is a web search of the
/// service for the model, and has web searches answered within the conversation.
pub proof fn web_searches_reach_the_model(list: Seq<OfferedTool>, i: int)
    requires
        0 <= i < list.len(),
        is_web_search(list[i].tool_type),
    ensures
        tool_for_model(list[i]) matches Some(t) && t.name == "web_search"@ && t.tool_type == Some(
            "web_search_20250305"@,
        ) && is_web_search("web_search_20250305"@) && tools_for_model(list).contains(t),
        has_web_search(tools_for_model(list)),
{
    reveal_strlit("web_search_20250305");
    reveal_strlit("web_search_");
    assert("web_search_20250305"@.subrange(0, 11) =~= "web_search_"@);
    lemma_tool_kept(list, i);
    let t = tool_for_model(list[i])->0;
    let all = tools_for_model(list);
    let k = choose|k: int| 0 <= k < all.len() && all[k] == t;
    assert(all[k].name == "web_search"@);
}

/// A converted request asks for at least one token, and a web search among its
/// tools is answered within the conversation.
pub proof fn converted_requests_are_sane(
    req: ChatCompletionRequest,
    fresh: Seq<Seq<Seq<char>>>,
    family: Seq<char>,
)
    ensures
        converted(req, fresh, family).max_tokens >= 1,
        converted(req, fresh, family).tools matches Some(list) ==> list.len() > 0
            && converted(req, fresh, family).force_web_search_loop == has_web_search(list),
        converted(req, fresh, family).tools is None ==> !converted(req, fresh, family).force_web_search_loop,
        converted(req, fresh, family).thinking is Some <==> converted(req, fresh, family).effort is Some,
{
}

/// The calls of a conversation, in their order.
pub open spec fn calls_made(list: Seq<ChatMessageView>) -> Seq<ToolCallView>
    decreases list.len(),
{
    if list.len() == 0 {
        Seq::empty()
    } else {
        calls_made(list.drop_last()) + list.last().tool_calls
    }
}

/// Putting messages together loses none of their calls, and keeps their order.
pub proof fn merged_messages_keep_their_calls(
    list: Seq<ChatMessageView>,
    more: Seq<ChatMessageView>,
)
    ensures
        calls_made(with_messages(list, more)) == calls_made(list) + calls_made(more),
        with_messages(list, more).len() <= list.len() + more.len(),
    decreases more.len(),
{
    if more.len() == 0 {
        assert(calls_made(list) + calls_made(more) =~= calls_made(list));
    } else {
        merged_messages_keep_their_calls(list, more.drop_last());
        let before = with_messages(list, more.drop_last());
        let m = more.last();
        let after = with_message(before, m);
        if before.len() > 0 && mergeable(before.last(), m) {
            assert(after.drop_last() =~= before.drop_last());
        } else {
            assert(after.drop_last() =~= before);
        }
        assert(calls_made(after) =~= calls_made(before) + m.tool_calls);
        assert(calls_made(list) + calls_made(more) =~= calls_made(list) + calls_made(
            more.drop_last(),
        ) + m.tool_calls);
    }
}

/// A name that the mapping put in place of another is the model that serves the
/// request, unless it is itself the name of a model of another service.
pub proof fn mapped_models_serve(
    m: Map<Seq<char>, MappingView>,
    model: Seq<char>,
    family: Seq<char>,
)
    requires
        resolved(m, model) is Some,
        trim(resolved(m, model)->0).len() > 0,
        !is_foreign_model(trim(resolved(m, model)->0)),
    ensures
        serving_model(resolved(m, model)->0, family) == trim(resolved(m, model)->0),
{
}

/// On a first start the models that the mapping knows are served by those that it
/// names, where the family is not named like another service.
pub proof fn default_mapping_serves(family: Seq<char>)
    requires
        family.len() > 0,
        !is_white(family[0]),
        !is_foreign_model(model_name(family, "opus-4.8"@)),
    ensures
        resolved(default_mapping(family), "gpt-5.5"@) == Some(model_name(family, "opus-4.8"@)),
        resolved(default_mapping(family), "gpt-5.4"@) == Some(model_name(family, "opus-4.8"@)),
        serving_model(model_name(family, "opus-4.8"@), family) == model_name(
            family,
            "opus-4.8"@,
        ),
{
    reveal_strlit("gpt-5.5");
    reveal_strlit("gpt-5.4");
    reveal_strlit("opus-4.8");
    reveal_strlit("-");
    let name = model_name(family, "opus-4.8"@);
    assert(name[0] == family[0]);
    assert(name.last() == "opus-4.8"@[7]);
    assert(trim(name) == name);
    assert(trim("gpt-5.5"@) == "gpt-5.5"@);
    assert(trim("gpt-5.4"@) == "gpt-5.4"@);
    assert(norm_spec("gpt-5.5"@)[6] == '5');
    assert(norm_spec("gpt-5.4"@)[6] == '4');
}

} // verus!
