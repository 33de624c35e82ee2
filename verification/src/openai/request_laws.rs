//! What a converted request keeps of the request that it was made of.

use vstd::prelude::*;

use crate::admin::model_mapping::MappingView;
use crate::anthropic::types::{
    Message, MessageView, MessagesRequest, Metadata, Tool, ToolView,
};
use crate::ids::is_simple_uuid;
use crate::json::{json_parse, json_text, Json, JsonView};
use crate::openai::chat::{named_sessions, prepared, PreparedChat, SessionHeaders};
use crate::openai::handlers::mapped_model;
use crate::openai::parse::{candidate_uuid, data_url, session_user, user_of};
use crate::openai::types::{
    arguments_json, assistant_content, call_blocks, chat_views, choice_for_model, content_blocks,
    content_text, conversion, conversion_fault, converted, default_model, document, fills_ids,
    flushed, image_block, image_url, is_image_part, offered_views, opt_document, part_blocks,
    result_content, search_limit, serving_model, split_chat, split_steps, tool_result_block,
    tools_for_model, user_content, ChatCompletionRequest, ChatMessageView, ConvertedOpenAIRequest,
    FunctionView, OfferedTool, OpenAIConversionError, OpenAIMessage, OpenAITool, ToolCallView,
};
use crate::text::{find_from, is_blank, lower, occurs_at, opt_str_view, opt_view, trim};

verus! {

broadcast use vstd::string::group_string_axioms;

/// The words are told apart by their lengths, or by a letter.
proof fn lemma_roles_differ()
    ensures
        "user"@.len() == 4,
        "assistant"@.len() == 9,
        "system"@.len() == 6,
        "developer"@.len() == 9,
        "tool"@.len() == 4,
        "user"@ != "tool"@,
        "assistant"@ != "developer"@,
{
    reveal_strlit("user");
    reveal_strlit("assistant");
    reveal_strlit("system");
    reveal_strlit("developer");
    reveal_strlit("tool");
    assert("user"@[0] != "tool"@[0]);
    assert("assistant"@[0] != "developer"@[0]);
}

/// The words are told apart by their lengths, or by a letter.
proof fn lemma_keys_differ()
    ensures
        "type"@.len() == 4,
        "text"@.len() == 4,
        "id"@.len() == 2,
        "name"@.len() == 4,
        "input"@.len() == 5,
        "tool_use_id"@.len() == 11,
        "content"@.len() == 7,
        "source"@.len() == 6,
        "media_type"@.len() == 10,
        "data"@.len() == 4,
        "properties"@.len() == 10,
        "type"@ != "text"@,
        "type"@ != "name"@,
        "type"@ != "data"@,
        "text"@ != "name"@,
        "text"@ != "data"@,
        "name"@ != "data"@,
        "media_type"@ != "properties"@,
{
    reveal_strlit("type");
    reveal_strlit("text");
    reveal_strlit("id");
    reveal_strlit("name");
    reveal_strlit("input");
    reveal_strlit("tool_use_id");
    reveal_strlit("content");
    reveal_strlit("source");
    reveal_strlit("media_type");
    reveal_strlit("data");
    reveal_strlit("properties");
    assert("type"@[1] != "text"@[1]);
    assert("type"@[0] != "name"@[0]);
    assert("type"@[0] != "data"@[0]);
    assert("text"@[0] != "name"@[0]);
    assert("text"@[0] != "data"@[0]);
    assert("name"@[0] != "data"@[0]);
    assert("media_type"@[0] != "properties"@[0]);
}

/// The words are told apart by their lengths, or by a letter.
proof fn lemma_choices_differ()
    ensures
        "none"@.len() == 4,
        "auto"@.len() == 4,
        "required"@.len() == 8,
        "none"@ != "auto"@,
{
    reveal_strlit("none");
    reveal_strlit("auto");
    reveal_strlit("required");
    assert("none"@[0] != "auto"@[0]);
}

/// The words are told apart by their lengths, or by a letter.
proof fn lemma_efforts_differ()
    ensures
        "none"@.len() == 4,
        "minimal"@.len() == 7,
        "low"@.len() == 3,
        "medium"@.len() == 6,
        "high"@.len() == 4,
        "xhigh"@.len() == 5,
        "max"@.len() == 3,
        "none"@ != "high"@,
        "low"@ != "max"@,
{
    reveal_strlit("none");
    reveal_strlit("minimal");
    reveal_strlit("low");
    reveal_strlit("medium");
    reveal_strlit("high");
    reveal_strlit("xhigh");
    reveal_strlit("max");
    assert("none"@[0] != "high"@[0]);
    assert("low"@[0] != "max"@[0]);
}

/// The document has the type, and the text under a key.
pub open spec fn is_text_block(j: JsonView, t: Seq<char>) -> bool {
    j.get_str("type"@) == Some("text"@) && j.get_str("text"@) == Some(t)
}

/// The document is the call of a tool.
pub open spec fn is_call_block(j: JsonView, id: Seq<char>, name: Seq<char>, input: JsonView) -> bool {
    &&& j.get_str("type"@) == Some("tool_use"@)
    &&& j.get_str("id"@) == Some(id)
    &&& j.get_str("name"@) == Some(name)
    &&& j.get("input"@) == Some(input)
}

/// The content of a user message that is a plain text arrives unchanged, and no
/// content arrives as an empty text.
pub proof fn plain_text_arrives_unchanged(t: Seq<char>)
    ensures
        user_content(Some(JsonView::Text(t))) == JsonView::Text(t),
        result_content(Some(JsonView::Text(t))) == JsonView::Text(t),
        content_text(JsonView::Text(t)) == t,
        user_content(None) == JsonView::Text(Seq::empty()),
        result_content(None) == JsonView::Text(Seq::empty()),
        content_text(JsonView::Null) == Seq::<char>::empty(),
{
}

/// A user turn with a text is one more message, of the user and with that text,
/// and leaves all that came before as it was.
pub proof fn a_user_turn_is_one_message(
    list: Seq<ChatMessageView>,
    m: ChatMessageView,
    t: Seq<char>,
    fresh: Seq<Seq<Seq<char>>>,
)
    requires
        m.role == "user"@,
        m.content == Some(JsonView::Text(t)),
    ensures
        split_chat(list.push(m), fresh).messages == split_chat(list, fresh).messages.push(
            MessageView { role: "user"@, content: JsonView::Text(t) },
        ),
        split_chat(list.push(m), fresh).system == split_chat(list, fresh).system,
{
    lemma_roles_differ();
    assert(list.push(m).drop_last() =~= list);
}

/// An assistant turn is one more message, of the assistant: its text, where it has
/// one, and then its calls, each with its own identifier, name and arguments.
pub proof fn an_assistant_turn_is_one_message(
    list: Seq<ChatMessageView>,
    m: ChatMessageView,
    t: Seq<char>,
    fresh: Seq<Seq<Seq<char>>>,
)
    requires
        m.role == "assistant"@,
        m.content == Some(JsonView::Text(t)),
        forall|k: int|
            0 <= k < m.tool_calls.len() ==> (#[trigger] m.tool_calls[k]).tool_type == "function"@
                && m.tool_calls[k].id is Some,
        t.len() > 0 || m.tool_calls.len() > 0,
    ensures
        ({
            let before = split_chat(list, fresh);
            let after = split_chat(list.push(m), fresh);
            let first: int = if t.len() > 0 {
                1
            } else {
                0
            };
            &&& after.system == before.system
            &&& after.messages.len() == before.messages.len() + 1
            &&& after.messages.drop_last() == before.messages
            &&& after.messages.last().role == "assistant"@
            &&& after.messages.last().content matches JsonView::Array(blocks)
            &&& blocks.len() == first + m.tool_calls.len()
            &&& t.len() > 0 ==> is_text_block(blocks[0], t)
            &&& forall|k: int|
                0 <= k < m.tool_calls.len() ==> is_call_block(
                    #[trigger] blocks[first + k],
                    m.tool_calls[k].id->0,
                    m.tool_calls[k].name,
                    arguments_json(
                        m.tool_calls[k].arguments,
                        document(m.tool_calls[k].arguments),
                    ),
                )
        }),
{
    lemma_roles_differ();
    lemma_keys_differ();
    assert(list.push(m).drop_last() =~= list);
    let ids = fresh[list.len() as int];
    let before = split_chat(list, fresh);
    let after = split_chat(list.push(m), fresh);
    assert(after.messages.drop_last() =~= before.messages);
    lemma_calls_in_order(m.tool_calls, ids);
    let head = content_blocks(m.content);
    let tail = call_blocks(m.tool_calls, ids);
    let blocks = head + tail;
    assert forall|k: int| 0 <= k < m.tool_calls.len() implies #[trigger] blocks[head.len() + k]
        == tail[k] by {}
}

/// The blocks of an assistant turn are those of its content and then those of its
/// calls.
pub proof fn an_assistant_turn_has_its_blocks(m: ChatMessageView, fresh: Seq<Seq<char>>)
    requires
        content_blocks(m.content).len() + call_blocks(m.tool_calls, fresh).len() > 0,
    ensures
        assistant_content(m, fresh) == JsonView::Array(
            content_blocks(m.content) + call_blocks(m.tool_calls, fresh),
        ),
{
}

/// A turn of the assistant that says nothing and calls nothing is an empty text.
pub proof fn a_silent_assistant_turn_is_an_empty_text(m: ChatMessageView, fresh: Seq<Seq<char>>)
    requires
        m.content is None || m.content == Some(JsonView::Null),
        m.tool_calls.len() == 0,
    ensures
        assistant_content(m, fresh) == JsonView::Text(Seq::empty()),
{
}

proof fn lemma_calls_in_order(calls: Seq<ToolCallView>, fresh: Seq<Seq<char>>)
    requires
        forall|k: int|
            0 <= k < calls.len() ==> (#[trigger] calls[k]).tool_type == "function"@
                && calls[k].id is Some,
    ensures
        call_blocks(calls, fresh).len() == calls.len(),
        forall|k: int|
            0 <= k < calls.len() ==> is_call_block(
                #[trigger] call_blocks(calls, fresh)[k],
                calls[k].id->0,
                calls[k].name,
                arguments_json(calls[k].arguments, document(calls[k].arguments)),
            ),
    decreases calls.len(),
{
    lemma_keys_differ();
    if calls.len() > 0 {
        let front = calls.drop_last();
        assert forall|k: int| 0 <= k < front.len() implies (#[trigger] front[k]).tool_type
            == "function"@ && front[k].id is Some by {
            assert(front[k] == calls[k]);
        }
        lemma_calls_in_order(front, fresh);
        assert(calls.last() == calls[calls.len() - 1]);
        let all = call_blocks(calls, fresh);
        assert forall|k: int| 0 <= k < calls.len() implies is_call_block(
            #[trigger] all[k],
            calls[k].id->0,
            calls[k].name,
            arguments_json(calls[k].arguments, document(calls[k].arguments)),
        ) by {
            if k < front.len() {
                assert(all[k] == call_blocks(front, fresh)[k]);
                assert(front[k] == calls[k]);
            }
        }
    }
}

/// A call is one more block, after those before it. One without an identifier gets
/// the one that stands ready for it; one that is not of a function is left out.
pub proof fn a_call_is_one_more_block(
    calls: Seq<ToolCallView>,
    c: ToolCallView,
    fresh: Seq<Seq<char>>,
)
    ensures
        c.tool_type != "function"@ ==> call_blocks(calls.push(c), fresh) == call_blocks(
            calls,
            fresh,
        ),
        c.tool_type == "function"@ ==> ({
            let before = call_blocks(calls, fresh);
            let after = call_blocks(calls.push(c), fresh);
            &&& after.len() == before.len() + 1
            &&& after.drop_last() == before
            &&& is_call_block(
                after.last(),
                match c.id {
                    Some(id) => id,
                    None => fresh[calls.len() as int],
                },
                c.name,
                arguments_json(c.arguments, document(c.arguments)),
            )
        }),
        call_blocks(Seq::empty(), fresh).len() == 0,
{
    lemma_keys_differ();
    assert(calls.push(c).drop_last() =~= calls);
    if c.tool_type == "function"@ {
        assert(call_blocks(calls.push(c), fresh).drop_last() =~= call_blocks(calls, fresh));
    }
}

/// The arguments of a call are the document that they read as. None are an empty
/// object, and a text that is no document is kept as it is.
pub proof fn arguments_are_kept(arguments: Seq<char>, j: JsonView)
    ensures
        !is_blank(arguments) && json_parse(arguments) == Ok::<JsonView, Seq<char>>(j)
            ==> arguments_json(arguments, document(arguments)) == j,
        !is_blank(arguments) && json_parse(arguments) is Err ==> arguments_json(
            arguments,
            document(arguments),
        ).get_str("arguments"@) == Some(arguments),
        is_blank(arguments) ==> (arguments_json(arguments, document(arguments)) matches
            JsonView::Object(m) && m == Map::<Seq<char>, JsonView>::empty()),
{
}

/// The result of a tool goes to the call that asked for it, with its text.
pub proof fn a_tool_result_names_its_call(m: ChatMessageView, id: Seq<char>, t: Seq<char>)
    requires
        m.tool_call_id == Some(id),
        m.content == Some(JsonView::Text(t)),
    ensures
        tool_result_block(m).get_str("type"@) == Some("tool_result"@),
        tool_result_block(m).get_str("tool_use_id"@) == Some(id),
        tool_result_block(m).get_str("content"@) == Some(t),
{
    lemma_keys_differ();
}

/// A tool result is one block of a user message: of one more, where no tool result
/// comes right before it, else of the same as that one.
pub proof fn a_tool_turn_is_a_result(
    list: Seq<ChatMessageView>,
    m: ChatMessageView,
    id: Seq<char>,
    t: Seq<char>,
    fresh: Seq<Seq<Seq<char>>>,
)
    requires
        m.role == "tool"@,
        m.tool_call_id == Some(id),
        m.content == Some(JsonView::Text(t)),
    ensures
        ({
            let before = split_chat(list, fresh).messages;
            let after = split_chat(list.push(m), fresh).messages;
            let joins = list.len() > 0 && list.last().role == "tool"@;
            &&& split_chat(list.push(m), fresh).system == split_chat(list, fresh).system
            &&& after.len() == before.len() + (if joins {
                0int
            } else {
                1
            })
            &&& after.last().role == "user"@
            &&& after.drop_last() == (if joins {
                before.drop_last()
            } else {
                before
            })
            &&& after.last().content matches JsonView::Array(blocks)
            &&& blocks.len() > 0
            &&& blocks.last().get_str("type"@) == Some("tool_result"@)
            &&& blocks.last().get_str("tool_use_id"@) == Some(id)
            &&& blocks.last().get_str("content"@) == Some(t)
            &&& if joins {
                before.last().content == JsonView::Array(blocks.drop_last())
            } else {
                blocks.len() == 1
            }
        }),
{
    lemma_roles_differ();
    lemma_keys_differ();
    assert(list.push(m).drop_last() =~= list);
    let s = split_steps(list, fresh);
    let b = tool_result_block(m);
    let after = split_chat(list.push(m), fresh).messages;
    assert(s.pending.push(b).drop_last() =~= s.pending);
    assert(after.drop_last() =~= s.messages);
    if list.len() > 0 && list.last().role == "tool"@ {
        assert(flushed(s).messages.drop_last() =~= s.messages);
    }
}

/// A system prompt, under either of its names, is one more text of the system, and
/// no message. A blank one is none.
pub proof fn a_system_turn_is_a_prompt(
    list: Seq<ChatMessageView>,
    m: ChatMessageView,
    t: Seq<char>,
    fresh: Seq<Seq<Seq<char>>>,
)
    requires
        m.role == "system"@ || m.role == "developer"@,
        m.content == Some(JsonView::Text(t)),
    ensures
        split_chat(list.push(m), fresh).messages == split_chat(list, fresh).messages,
        !is_blank(t) ==> split_chat(list.push(m), fresh).system == split_chat(
            list,
            fresh,
        ).system.push(t),
        is_blank(t) ==> split_chat(list.push(m), fresh).system == split_chat(list, fresh).system,
{
    lemma_roles_differ();
    assert(list.push(m).drop_last() =~= list);
}

/// A turn of an unknown role says nothing.
pub proof fn an_unknown_turn_is_left_out(
    list: Seq<ChatMessageView>,
    m: ChatMessageView,
    fresh: Seq<Seq<Seq<char>>>,
)
    requires
        m.role != "system"@,
        m.role != "developer"@,
        m.role != "user"@,
        m.role != "assistant"@,
        m.role != "tool"@,
    ensures
        split_chat(list.push(m), fresh).messages == split_chat(list, fresh).messages,
        split_chat(list.push(m), fresh).system == split_chat(list, fresh).system,
{
    assert(list.push(m).drop_last() =~= list);
}

proof fn lemma_messages_stay(
    list: Seq<ChatMessageView>,
    fresh: Seq<Seq<Seq<char>>>,
    n: int,
)
    requires
        0 <= n <= list.len(),
    ensures
        split_steps(list.take(n), fresh).messages.is_prefix_of(split_chat(list, fresh).messages),
    decreases list.len() - n,
{
    let now = split_steps(list.take(n), fresh).messages;
    if n == list.len() {
        assert(list.take(n) =~= list);
    } else {
        lemma_messages_stay(list, fresh, n + 1);
        assert(list.take(n + 1).drop_last() =~= list.take(n));
        let then = split_steps(list.take(n + 1), fresh).messages;
        assert(now.is_prefix_of(then));
        let all = split_chat(list, fresh).messages;
        assert(now =~= all.take(now.len() as int));
    }
}

/// Every user turn of a conversation is heard with its own text, after what came
/// before it.
pub proof fn every_user_turn_is_heard(
    list: Seq<ChatMessageView>,
    fresh: Seq<Seq<Seq<char>>>,
    i: int,
    t: Seq<char>,
)
    requires
        0 <= i < list.len(),
        list[i].role == "user"@,
        list[i].content == Some(JsonView::Text(t)),
    ensures
        ({
            let k = split_chat(list.take(i), fresh).messages.len() as int;
            let all = split_chat(list, fresh).messages;
            &&& k < all.len()
            &&& all[k] == (MessageView { role: "user"@, content: JsonView::Text(t) })
            &&& all.take(k) == split_chat(list.take(i), fresh).messages
        }),
{
    lemma_roles_differ();
    let before = split_chat(list.take(i), fresh).messages;
    let k = before.len() as int;
    let all = split_chat(list, fresh).messages;
    a_user_turn_is_one_message(list.take(i), list[i], t, fresh);
    assert(list.take(i).push(list[i]) =~= list.take(i + 1));
    assert(list.take(i + 1).drop_last() =~= list.take(i));
    let then = split_steps(list.take(i + 1), fresh).messages;
    assert(then == before.push(MessageView { role: "user"@, content: JsonView::Text(t) }));
    lemma_messages_stay(list, fresh, i + 1);
    assert(all[k] == then[k]);
    assert(all.take(k) =~= before);
}

/// An empty conversation has no message and no system prompt.
pub proof fn silence_stays_silence(fresh: Seq<Seq<Seq<char>>>)
    ensures
        split_chat(Seq::empty(), fresh).messages.len() == 0,
        split_chat(Seq::empty(), fresh).system.len() == 0,
{
}

/// A text part of a content is a text block with that text, after the blocks of the
/// parts before it; an empty one is none.
pub proof fn a_text_part_is_a_block(parts: Seq<JsonView>, part: JsonView, t: Seq<char>)
    requires
        part.get_str("type"@) != Some("image_url"@),
        part.get_str("type"@) != Some("input_image"@),
        part.get_str("type"@) != Some("image"@),
        part.get_str("text"@) == Some(t),
    ensures
        t.len() > 0 ==> ({
            let after = part_blocks(parts.push(part));
            &&& after.len() == part_blocks(parts).len() + 1
            &&& after.drop_last() == part_blocks(parts)
            &&& is_text_block(after.last(), t)
        }),
        t.len() == 0 ==> part_blocks(parts.push(part)) == part_blocks(parts),
        user_content(Some(JsonView::Array(parts))) == JsonView::Array(part_blocks(parts)),
{
    lemma_keys_differ();
    assert(parts.push(part).drop_last() =~= parts);
    if t.len() > 0 {
        assert(part_blocks(parts.push(part)).drop_last() =~= part_blocks(parts));
    } else {
        assert(part_blocks(parts) + Seq::<JsonView>::empty() =~= part_blocks(parts));
    }
}

proof fn lemma_first_place(s: Seq<char>, pat: Seq<char>, i: int, p: int)
    requires
        0 <= i <= p,
        occurs_at(s, pat, p),
        forall|j: int| i <= j < p ==> !occurs_at(s, pat, j),
    ensures
        find_from(s, pat, i) == Some(p),
    decreases p - i,
{
    if i < p {
        lemma_first_place(s, pat, i + 1, p);
    }
}

/// A `data:` URL is taken apart into its media type and its data.
pub proof fn a_data_url_is_taken_apart(media_type: Seq<char>, data: Seq<char>)
    requires
        forall|i: int| 0 <= i < media_type.len() ==> media_type[i] != ';',
    ensures
        data_url("data:"@ + media_type + ";base64,"@ + data) == Some((media_type, data)),
{
    reveal_strlit("data:");
    reveal_strlit(";base64,");
    let mark = ";base64,"@;
    let rest = media_type + mark + data;
    let url = "data:"@ + media_type + mark + data;
    assert(url =~= "data:"@ + rest);
    assert(url.subrange(0, 5) =~= "data:"@);
    assert(url.subrange(5, url.len() as int) =~= rest);
    let p = media_type.len() as int;
    assert(rest.subrange(p, p + 8) =~= mark);
    assert forall|j: int| 0 <= j < p implies !occurs_at(rest, mark, j) by {
        if occurs_at(rest, mark, j) {
            assert(rest.subrange(j, j + 8)[0] == mark[0]);
            assert(rest[j] == media_type[j]);
        }
    }
    lemma_first_place(rest, mark, 0, p);
    assert(rest.subrange(0, p) =~= media_type);
    assert(rest.subrange(p + 8, rest.len() as int) =~= data);
}

/// An image part with a `data:` URL is an image block with its media type and its
/// data, after the blocks of the parts before it.
pub proof fn an_image_part_is_an_image(
    parts: Seq<JsonView>,
    part: JsonView,
    media_type: Seq<char>,
    data: Seq<char>,
)
    requires
        part.get_str("type"@) == Some("image_url"@),
        part.get2_str("image_url"@, "url"@) == Some(
            "data:"@ + media_type + ";base64,"@ + data,
        ),
        forall|i: int| 0 <= i < media_type.len() ==> media_type[i] != ';',
    ensures
        ({
            let after = part_blocks(parts.push(part));
            let b = after.last();
            &&& after.len() == part_blocks(parts).len() + 1
            &&& after.drop_last() == part_blocks(parts)
            &&& b.get_str("type"@) == Some("image"@)
            &&& b.get2_str("source"@, "type"@) == Some("base64"@)
            &&& b.get2_str("source"@, "media_type"@) == Some(media_type)
            &&& b.get2_str("source"@, "data"@) == Some(data)
        }),
{
    lemma_keys_differ();
    a_data_url_is_taken_apart(media_type, data);
    assert(parts.push(part).drop_last() =~= parts);
    assert(part_blocks(parts.push(part)).drop_last() =~= part_blocks(parts));
}

/// The address of any other image is told as a text.
pub proof fn an_image_elsewhere_is_named(url: Seq<char>)
    requires
        data_url(url) is None,
    ensures
        is_text_block(image_block(url), "[image_url: "@ + url + "]"@),
{
    lemma_keys_differ();
}

/// The text of a list of parts is the texts of the parts, one after the other; that
/// of any part is its `text`.
pub proof fn the_text_of_parts_is_their_texts(
    items: Seq<JsonView>,
    part: JsonView,
    t: Seq<char>,
)
    requires
        part.get_str("text"@) == Some(t),
    ensures
        content_text(part) == t,
        content_text(JsonView::Array(items.push(part))) == content_text(JsonView::Array(items)) + t,
        content_text(JsonView::Array(Seq::empty())) == Seq::<char>::empty(),
{
    reveal_with_fuel(content_text, 3);
    reveal_with_fuel(crate::openai::types::items_text, 3);
    let all = items.push(part);
    lemma_items_text(items, all, items.len());
}

proof fn lemma_items_text(a: Seq<JsonView>, b: Seq<JsonView>, n: nat)
    requires
        n <= a.len(),
        n <= b.len(),
        forall|i: int| 0 <= i < n ==> a[i] == b[i],
    ensures
        crate::openai::types::items_text(a, n) == crate::openai::types::items_text(b, n),
    decreases n,
{
    if n > 0 {
        lemma_items_text(a, b, (n - 1) as nat);
    }
}

/// A function with a name is a tool of that name for the model, with its own schema
/// and its own description, after the tools before it. Where it has no schema it
/// takes an object without properties, and its name describes it.
pub proof fn a_function_is_a_tool(list: Seq<OfferedTool>, t: OfferedTool, f: FunctionView)
    requires
        t.tool_type == "function"@,
        t.function == Some(f),
        !is_blank(f.name),
    ensures
        ({
            let before = tools_for_model(list);
            let after = tools_for_model(list.push(t));
            let tool = after.last();
            &&& after.len() == before.len() + 1
            &&& after.drop_last() == before
            &&& tool.name == trim(f.name)
            &&& tool.tool_type is None
            &&& tool.max_uses is None
            &&& (f.parameters matches Some(p) && p is Object) ==> tool.input_schema
                == f.parameters->0
            &&& !(f.parameters matches Some(p) && p is Object) ==> {
                &&& tool.input_schema.get_str("type"@) == Some("object"@)
                &&& tool.input_schema.get("properties"@) == Some(JsonView::object())
            }
            &&& f.description matches Some(d) ==> tool.description == d
            &&& f.description is None ==> tool.description == trim(f.name)
        }),
{
    lemma_no_search();
    lemma_keys_differ();
    assert(list.push(t).drop_last() =~= list);
    assert(tools_for_model(list.push(t)).drop_last() =~= tools_for_model(list));
}

/// Every function that a client offers reaches the model with its schema unchanged.
pub proof fn schemas_reach_the_model(list: Seq<OfferedTool>, i: int, f: FunctionView, p: JsonView)
    requires
        0 <= i < list.len(),
        list[i].tool_type == "function"@,
        list[i].function == Some(f),
        !is_blank(f.name),
        f.parameters == Some(p),
        p is Object,
    ensures
        exists|k: int|
            0 <= k < tools_for_model(list).len() && (#[trigger] tools_for_model(list)[k]).name
                == trim(f.name) && tools_for_model(list)[k].input_schema == p,
    decreases list.len(),
{
    let front = list.drop_last();
    if i < front.len() {
        schemas_reach_the_model(front, i, f, p);
        let k = choose|k: int|
            0 <= k < tools_for_model(front).len() && (#[trigger] tools_for_model(front)[k]).name
                == trim(f.name) && tools_for_model(front)[k].input_schema == p;
        assert(tools_for_model(list)[k] == tools_for_model(front)[k]);
    } else {
        a_function_is_a_tool(front, list[i], f);
        assert(front.push(list[i]) =~= list);
        let k = tools_for_model(list).len() - 1;
        assert(tools_for_model(list)[k].input_schema == p);
    }
}

proof fn lemma_no_search()
    ensures
        !crate::openai::types::is_web_search("function"@),
{
    reveal_strlit("function");
    reveal_strlit("web_search");
    reveal_strlit("web_search_");
    assert("function"@.len() == 8);
    assert("web_search"@.len() == 10);
    assert("web_search_"@.len() == 11);
}

/// A tool that is neither a function with a name nor a web search is left out.
pub proof fn other_tools_are_left_out(list: Seq<OfferedTool>, t: OfferedTool)
    requires
        t.tool_type != "web_search"@,
        t.tool_type.len() < 11 || t.tool_type.take(11) != "web_search_"@,
        t.tool_type != "function"@ || t.function is None || is_blank(t.function->0.name),
    ensures
        tools_for_model(list.push(t)) == tools_for_model(list),
        tools_for_model(Seq::empty()).len() == 0,
{
    reveal_strlit("web_search_");
    assert("web_search_"@.len() == 11);
    if t.tool_type.len() >= 11 {
        assert(t.tool_type.take(11) =~= t.tool_type.subrange(0, 11));
    }
    assert(list.push(t).drop_last() =~= list);
}

/// A web search allows as many searches as its parameters say, and eight where they
/// say nothing.
pub proof fn searches_are_limited(p: JsonView, n: i64)
    ensures
        1 <= n <= i32::MAX && p.get_i64("max_uses"@) == Some(n) ==> search_limit(Some(p)) == n,
        1 <= n <= i32::MAX && p.get("max_uses"@) is None && p.get_i64("max_num_results"@) == Some(n)
            ==> search_limit(Some(p)) == n,
        p.get("max_uses"@) is None && p.get("max_num_results"@) is None ==> search_limit(Some(p))
            == 8,
        search_limit(None) == 8,
        i32::MIN <= n <= 0 && p.get_i64("max_uses"@) == Some(n) ==> search_limit(Some(p)) == 8,
        search_limit(Some(p)) >= 1,
{
}

/// A web search is one more tool, under the name that the service knows it by.
pub proof fn a_web_search_is_a_tool(list: Seq<OfferedTool>, t: OfferedTool)
    requires
        t.tool_type == "web_search"@ || (t.tool_type.len() >= 11 && t.tool_type.take(11)
            == "web_search_"@),
    ensures
        tools_for_model(list.push(t)) == tools_for_model(list).push(
            ToolView {
                tool_type: Some("web_search_20250305"@),
                name: "web_search"@,
                description: Seq::empty(),
                input_schema: JsonView::object(),
                max_uses: Some(search_limit(t.parameters)),
            },
        ),
{
    reveal_strlit("web_search_");
    assert("web_search_"@.len() == 11);
    if t.tool_type.len() >= 11 {
        assert(t.tool_type.take(11) =~= t.tool_type.subrange(0, 11));
    }
    assert(list.push(t).drop_last() =~= list);
}

/// The choice of a tool keeps its meaning: none, any as the model likes, at least
/// one, or a given function.
pub proof fn a_tool_choice_keeps_its_meaning(choice: JsonView, name: Seq<char>)
    ensures
        choice_for_model(JsonView::Text("none"@)).get_str("type"@) == Some("none"@),
        choice_for_model(JsonView::Text("auto"@)).get_str("type"@) == Some("auto"@),
        choice_for_model(JsonView::Text("required"@)).get_str("type"@) == Some("any"@),
        choice.get2_str("function"@, "name"@) == Some(name) ==> choice_for_model(choice).get_str(
            "type"@,
        ) == Some("tool"@) && choice_for_model(choice).get_str("name"@) == Some(name),
        choice is Object && choice.get2_str("function"@, "name"@) is None ==> choice_for_model(
            choice,
        ) == choice,
{
    lemma_keys_differ();
    lemma_choices_differ();
}

/// A converted request asks for what the request asked for: as many tokens, a
/// stream or not, the conversation, the system prompt, the tools and the choice
/// among them.
pub proof fn a_converted_request_asks_the_same(
    req: ChatCompletionRequest,
    fresh: Seq<Seq<Seq<char>>>,
    family: Seq<char>,
    n: i32,
)
    ensures
        ({
            let c = converted(req, fresh, family);
            let talk = split_chat(chat_views(req.messages@), fresh);
            let tools = tools_for_model(offered_views(req.tools@));
            &&& c.stream == req.stream
            &&& c.messages == talk.messages
            &&& talk.system.len() > 0 ==> c.system == Some(talk.system)
            &&& talk.system.len() == 0 ==> c.system is None
            &&& tools.len() > 0 ==> c.tools == Some(tools)
            &&& tools.len() == 0 ==> c.tools is None
            &&& n >= 1 && req.max_completion_tokens == Some(n) ==> c.max_tokens == n
            &&& n >= 1 && req.max_completion_tokens is None && req.max_tokens == Some(n)
                ==> c.max_tokens == n
            &&& req.max_completion_tokens is None && req.max_tokens is None ==> c.max_tokens
                == 32000
            &&& req.tool_choice is None <==> c.tool_choice is None
            &&& req.tool_choice matches Some(j) ==> c.tool_choice == Some(choice_for_model(j@))
            &&& c.model == serving_model(req.model@, family)
        }),
{
}

/// The effort that a request asks for decides how long the model thinks.
pub proof fn effort_decides_the_thinking(
    req: ChatCompletionRequest,
    fresh: Seq<Seq<Seq<char>>>,
    family: Seq<char>,
    word: Seq<char>,
)
    requires
        req.reasoning_effort matches Some(e) && lower(trim(e@)) == word,
    ensures
        ({
            let c = converted(req, fresh, family);
            &&& word == "none"@ || word.len() == 0 ==> c.thinking is None && c.effort is None
            &&& word == "minimal"@ || word == "low"@ ==> c.thinking == Some(
                ("enabled"@, 4_000i32),
            ) && c.effort == Some("low"@)
            &&& word == "medium"@ ==> c.thinking == Some(("enabled"@, 12_000i32)) && c.effort
                == Some("medium"@)
            &&& word == "high"@ ==> c.thinking == Some(("enabled"@, 20_000i32)) && c.effort
                == Some("high"@)
            &&& word == "xhigh"@ || word == "max"@ ==> c.thinking == Some(
                ("enabled"@, 20_000i32),
            ) && c.effort == Some("xhigh"@)
        }),
{
    lemma_efforts_differ();
}

/// The effort may also stand in the reasoning settings; without one the model does
/// not think.
pub proof fn reasoning_settings_tell_the_effort(
    effort: Option<Seq<char>>,
    reasoning: JsonView,
    word: Seq<char>,
)
    requires
        reasoning.get_str("effort"@) == Some(word),
    ensures
        crate::openai::types::reasoning_level(None, Some(reasoning))
            == crate::openai::types::reasoning_level(Some(word), None),
        effort is Some ==> crate::openai::types::reasoning_level(effort, Some(reasoning))
            == crate::openai::types::reasoning_level(effort, None),
        crate::openai::types::reasoning_level(None, None) is None,
{
}

/// The model of a request serves it, unless its name is blank or that of a model of
/// another service.
pub proof fn a_named_model_serves(model: Seq<char>, family: Seq<char>)
    ensures
        ({
            let n = lower(trim(model));
            let foreign = n.len() >= 4 && n.take(4) == "gpt-"@ || n.len() >= 2 && (n.take(2)
                == "o1"@ || n.take(2) == "o3"@ || n.take(2) == "o4"@) || n.len() >= 5 && n.take(5)
                == "codex"@;
            &&& trim(model).len() == 0 || foreign ==> serving_model(model, family) == family
                + "-sonnet-4.5"@
            &&& trim(model).len() > 0 && !foreign ==> serving_model(model, family) == trim(model)
        }),
{
    reveal_strlit("gpt-");
    reveal_strlit("o1");
    reveal_strlit("o3");
    reveal_strlit("o4");
    reveal_strlit("codex");
    reveal_strlit("sonnet-4.5");
    reveal_strlit("-sonnet-4.5");
    reveal_strlit("-");
    assert(default_model(family) =~= family + "-sonnet-4.5"@);
    let n = lower(trim(model));
    if n.len() >= 2 {
        assert(n.take(2) =~= n.subrange(0, 2));
    }
    if n.len() >= 4 {
        assert(n.take(4) =~= n.subrange(0, 4));
    }
    if n.len() >= 5 {
        assert(n.take(5) =~= n.subrange(0, 5));
    }
}

/// A request is refused only where it has no message of the user, the assistant or a
/// tool.
pub proof fn a_request_with_a_user_turn_is_taken(
    req: ChatCompletionRequest,
    fresh: Seq<Seq<Seq<char>>>,
    i: int,
    t: Seq<char>,
)
    requires
        0 <= i < req.messages@.len(),
        chat_views(req.messages@)[i].role == "user"@,
        chat_views(req.messages@)[i].content == Some(JsonView::Text(t)),
    ensures
        conversion_fault(req, fresh) is None,
{
    every_user_turn_is_heard(chat_views(req.messages@), fresh, i, t);
}

/// A request without a message, or with system prompts only, is refused, and the
/// error says which.
pub proof fn a_request_without_turns_is_refused(
    req: ChatCompletionRequest,
    fresh: Seq<Seq<Seq<char>>>,
)
    ensures
        req.messages@.len() == 0 ==> conversion_fault(req, fresh) == Some(
            "messages must contain at least one message"@,
        ),
        req.messages@.len() > 0 && (forall|i: int|
            0 <= i < req.messages@.len() ==> (#[trigger] req.messages@[i]).role@ == "system"@
                || req.messages@[i].role@ == "developer"@) ==> conversion_fault(req, fresh)
            == Some("messages must contain at least one non-system message"@),
{
    if req.messages@.len() > 0 && (forall|i: int|
        0 <= i < req.messages@.len() ==> (#[trigger] req.messages@[i]).role@ == "system"@
            || req.messages@[i].role@ == "developer"@) {
        let list = chat_views(req.messages@);
        assert forall|i: int| 0 <= i < list.len() implies (#[trigger] list[i]).role == "system"@
            || list[i].role == "developer"@ by {
            assert(list[i].role == req.messages@[i].role@);
        }
        lemma_prompts_only(list, fresh);
    }
}

proof fn lemma_prompts_only(list: Seq<ChatMessageView>, fresh: Seq<Seq<Seq<char>>>)
    requires
        forall|i: int|
            0 <= i < list.len() ==> (#[trigger] list[i]).role == "system"@ || list[i].role
                == "developer"@,
    ensures
        split_steps(list, fresh).messages.len() == 0,
        split_steps(list, fresh).pending.len() == 0,
    decreases list.len(),
{
    lemma_roles_differ();
    if list.len() > 0 {
        let front = list.drop_last();
        assert forall|i: int| 0 <= i < front.len() implies (#[trigger] front[i]).role
            == "system"@ || front[i].role == "developer"@ by {
            assert(front[i] == list[i]);
        }
        lemma_prompts_only(front, fresh);
        assert(list.last() == list[list.len() - 1]);
    }
}

/// The text of an object is its `text`, else that of its content, else that of its
/// output. A number or a truth value is its own notation.
pub proof fn the_text_of_other_contents(j: JsonView, inner: JsonView, outer: JsonView)
    ensures
        j.get("text"@) is None && j.get("content"@) == Some(inner) && content_text(inner).len() > 0
            ==> content_text(j) == content_text(inner),
        j.get("text"@) is None && j.get("content"@) is None && j.get("output"@) == Some(outer)
            ==> content_text(j) == content_text(outer),
        j.get("text"@) is None && j.get("content"@) == Some(inner) && content_text(inner).len()
            == 0 && j.get("output"@) == Some(outer) ==> content_text(j) == content_text(outer),
        j is Object && j.get("text"@) is None && j.get("content"@) is None && j.get("output"@)
            is None ==> content_text(j) == Seq::<char>::empty(),
        j is Bool || j is Int || j is Float ==> content_text(j) == json_text(j),
{
}

/// Parts of a content that are kept as they are: those of a tool result are blocks
/// where there are any, and else its text. A user's object is its text.
pub proof fn the_blocks_of_other_contents(j: JsonView, parts: Seq<JsonView>)
    ensures
        part_blocks(parts).len() > 0 ==> result_content(Some(JsonView::Array(parts)))
            == JsonView::Array(part_blocks(parts)),
        part_blocks(parts).len() == 0 ==> result_content(Some(JsonView::Array(parts)))
            == JsonView::Text(content_text(JsonView::Array(parts))),
        content_blocks(Some(JsonView::Array(parts))) == part_blocks(parts),
        content_blocks(None).len() == 0,
        content_blocks(Some(JsonView::Null)).len() == 0,
        j is Object || j is Int || j is Bool ==> user_content(Some(j)) == JsonView::Text(
            content_text(j),
        ),
        j is Int || j is Bool ==> result_content(Some(j)) == JsonView::Text(json_text(j)),
        j is Int || j is Bool ==> content_blocks(Some(j)).len() == 1 && is_text_block(
            content_blocks(Some(j))[0],
            json_text(j),
        ),
        part_blocks(Seq::empty()).len() == 0,
{
    lemma_keys_differ();
}

/// A plain text is one text block, and an empty one is none.
pub proof fn a_plain_text_is_one_block(t: Seq<char>)
    ensures
        t.len() > 0 ==> content_blocks(Some(JsonView::Text(t))).len() == 1 && is_text_block(
            content_blocks(Some(JsonView::Text(t)))[0],
            t,
        ),
        t.len() == 0 ==> content_blocks(Some(JsonView::Text(t))).len() == 0,
{
    lemma_keys_differ();
}

/// The address of an image stands in its own object, or is the text in place of it, or
/// stands beside it; and an image part is known by any of three types.
pub proof fn the_address_of_an_image_is_found(part: JsonView, v: JsonView, url: Seq<char>)
    ensures
        part.get2_str("image_url"@, "url"@) == Some(url) ==> image_url(part) == Some(url),
        part.get_str("image_url"@) == Some(url) ==> image_url(part) == Some(url),
        part.get("image_url"@) is None && part.get_str("url"@) == Some(url) ==> image_url(part)
            == Some(url),
        part.get("image_url"@) is None && part.get("url"@) is None ==> image_url(part) is None,
        is_image_part(part) <==> part.get_str("type"@) == Some("image_url"@) || part.get_str(
            "type"@,
        ) == Some("input_image"@) || part.get_str("type"@) == Some("image"@),
{
}

/// Only a `data:` URL in base64 has data of its own.
pub proof fn other_urls_have_no_data(url: Seq<char>)
    ensures
        url.len() < 5 || url.take(5) != "data:"@ ==> data_url(url) is None,
{
    reveal_strlit("data:");
    assert("data:"@.len() == 5);
    if url.len() >= 5 {
        assert(url.take(5) =~= url.subrange(0, 5));
    }
}

/// Web searches are answered within the conversation exactly where a tool of that name
/// is among those for the model.
pub proof fn web_searches_force_the_loop(
    req: ChatCompletionRequest,
    fresh: Seq<Seq<Seq<char>>>,
    family: Seq<char>,
)
    ensures
        converted(req, fresh, family).force_web_search_loop <==> exists|i: int|
            0 <= i < tools_for_model(offered_views(req.tools@)).len() && (
            #[trigger] tools_for_model(offered_views(req.tools@))[i]).name == "web_search"@,
{
}

/// A function that stands in a tool counts, else one that is spread over its fields;
/// the parameters beside it stay for themselves.
pub proof fn a_tool_is_seen_as_it_is_offered(t: OpenAITool, list: Seq<OpenAITool>, i: int)
    ensures
        t@.tool_type == t.tool_type@,
        t.function matches Some(f) ==> (t@.function matches Some(seen) && seen.name == f.name@
            && seen.description == opt_view(f.description) && seen.parameters == opt_document(
            f.parameters,
        )),
        t.function is None ==> (t.name matches Some(n) ==> (t@.function matches Some(seen)
            && seen.name == n@ && seen.description == opt_view(t.description) && seen.parameters
            == opt_document(t.parameters))),
        t.function is None && t.name is None ==> t@.function is None,
        t@.parameters == opt_document(t.parameters),
        offered_views(list).len() == list.len(),
        0 <= i < list.len() ==> offered_views(list)[i] == list[i]@,
{
}

/// A message and a call are seen as they are.
pub proof fn a_message_is_seen_as_it_is(m: OpenAIMessage, i: int, list: Seq<OpenAIMessage>, k: int)
    ensures
        m@.role == m.role@,
        m@.content == opt_document(m.content),
        m@.tool_call_id == opt_view(m.tool_call_id),
        m@.name == opt_view(m.name),
        m@.tool_calls.len() == m.tool_calls@.len(),
        0 <= i < m.tool_calls@.len() ==> ({
            let c = m.tool_calls@[i];
            let seen = m@.tool_calls[i];
            &&& seen.id == opt_view(c.id)
            &&& seen.tool_type == c.tool_type@
            &&& seen.name == c.function.name@
            &&& seen.arguments == c.function.arguments@
        }),
        chat_views(list).len() == list.len(),
        0 <= k < list.len() ==> chat_views(list)[k] == list[k]@,
{
}

/// A request for the message interface is seen as it is.
pub proof fn a_made_request_is_seen_as_it_is(r: MessagesRequest, m: Message, t: Tool, i: int)
    ensures
        m@.role == m.role@,
        m@.content == m.content@,
        t@.name == t.name@,
        t@.description == t.description@,
        t@.input_schema == t.input_schema@,
        t@.tool_type == opt_view(t.tool_type),
        t@.max_uses == t.max_uses,
        r@.model == r.model@,
        r@.max_tokens == r.max_tokens,
        r@.stream == r.stream,
        r@.force_web_search_loop == r.force_web_search_loop,
        r@.messages.len() == r.messages@.len(),
        0 <= i < r.messages@.len() ==> r@.messages[i] == r.messages@[i]@,
        r.system matches Some(list) ==> (r@.system matches Some(seen) && seen.len() == list@.len()
            && (0 <= i < list@.len() ==> seen[i] == list@[i].text@)),
        r.system is None <==> r@.system is None,
        r.tools matches Some(list) ==> (r@.tools matches Some(seen) && seen.len() == list@.len()
            && (0 <= i < list@.len() ==> seen[i] == list@[i]@)),
        r.tools is None <==> r@.tools is None,
        r.tool_choice matches Some(j) ==> r@.tool_choice == Some(j@),
        r.tool_choice is None ==> r@.tool_choice is None,
        r.thinking matches Some(x) ==> r@.thinking == Some((x.thinking_type@, x.budget_tokens)),
        r.thinking is None ==> r@.thinking is None,
        r.output_config matches Some(c) ==> r@.effort == Some(c.effort@),
        r.output_config is None ==> r@.effort is None,
{
}

/// A call that has no identifier gets one: a prefix and the digits of a UUID.
pub proof fn missing_identifiers_are_drawn(
    messages: Seq<ChatMessageView>,
    fresh: Seq<Seq<Seq<char>>>,
    i: int,
    j: int,
)
    requires
        fills_ids(messages, fresh),
        0 <= i < messages.len(),
        0 <= j < messages[i].tool_calls.len(),
        messages[i].tool_calls[j].id is None,
    ensures
        fresh[i][j].len() == 37,
        fresh[i][j].take(5) == "call_"@,
        is_simple_uuid(fresh[i][j].skip(5)),
{
    reveal_strlit("call_");
    let t = fresh[i][j];
    let digits = choose|digits: Seq<char>| #[trigger]
        is_simple_uuid(digits) && t == "call_"@ + digits;
    assert(t.take(5) =~= "call_"@);
    assert(t.skip(5) =~= digits);
}

/// A prepared request is the converted one, for the model that its name stands for.
/// It is a stream, and tells of the tokens used, where the client asked for that; and it
/// names its session.
pub proof fn a_prepared_request_is_the_converted_one(
    req: ChatCompletionRequest,
    mapping: Option<Map<Seq<char>, MappingView>>,
    sessions: Seq<Option<Seq<char>>>,
    family: Seq<char>,
    fresh: Seq<Seq<Seq<char>>>,
    p: PreparedChat,
)
    requires
        prepared(req, mapping, sessions, family, fresh, Ok(p)),
    ensures
        ({
            let c = converted(req, fresh, family);
            let made = p.request@;
            &&& made.messages == c.messages
            &&& made.system == c.system
            &&& made.tools == c.tools
            &&& made.tool_choice == c.tool_choice
            &&& made.max_tokens == c.max_tokens
            &&& made.thinking == c.thinking
            &&& made.effort == c.effort
            &&& made.force_web_search_loop == c.force_web_search_loop
            &&& made.stream == req.stream
            &&& made.model == serving_model(mapped_model(mapping, req.model@), family)
            &&& p.model@ == made.model
            &&& p.stream == req.stream
            &&& req.stream_options is None ==> !p.include_usage
            &&& req.stream_options matches Some(o) ==> p.include_usage == o.include_usage
            &&& user_of(p.request.metadata) == session_user(sessions)
        }),
        conversion_fault(req, fresh) is None,
{
}

/// A request that cannot be prepared is answered with an error that says why, and
/// that it is the request that is at fault.
pub proof fn a_refused_request_is_told_why(
    req: ChatCompletionRequest,
    mapping: Option<Map<Seq<char>, MappingView>>,
    sessions: Seq<Option<Seq<char>>>,
    family: Seq<char>,
    fresh: Seq<Seq<Seq<char>>>,
    e: Json,
)
    requires
        prepared(req, mapping, sessions, family, fresh, Err(e)),
    ensures
        conversion_fault(req, fresh) matches Some(why) && e@.get2_str("error"@, "message"@) == Some(
            why,
        ) && e@.get2_str("error"@, "type"@) == Some("invalid_request_error"@),
{
    reveal_strlit("message");
    reveal_strlit("type");
    assert("message"@.len() == 7 && "type"@.len() == 4);
}

/// The sessions that a request may name count in this order: its cache key, and then
/// the three headers.
pub proof fn sessions_count_in_their_order(key: Option<String>, headers: SessionHeaders)
    ensures
        ({
            let list = named_sessions(key, headers);
            &&& list.len() == 4
            &&& list[0] == candidate_uuid(opt_view(key))
            &&& list[1] == candidate_uuid(opt_str_view(headers.session_affinity))
            &&& list[2] == candidate_uuid(opt_str_view(headers.client_request_id))
            &&& list[3] == candidate_uuid(opt_str_view(headers.session_id))
        }),
{
}

/// A conversion that succeeds gives the converted request, for the given user, and the
/// messages that it was made of; one that fails says why.
pub proof fn a_conversion_gives_the_converted_request(
    req: ChatCompletionRequest,
    metadata: Option<Metadata>,
    fresh: Seq<Seq<Seq<char>>>,
    family: Seq<char>,
    c: ConvertedOpenAIRequest,
    e: OpenAIConversionError,
)
    ensures
        conversion(req, metadata, fresh, family, Ok(c)) ==> {
            &&& conversion_fault(req, fresh) is None
            &&& c.anthropic@ == converted(req, fresh, family)
            &&& c.anthropic.metadata == metadata
            &&& chat_views(c.openai_messages@) == chat_views(req.messages@)
        },
        conversion(req, metadata, fresh, family, Err(e)) ==> conversion_fault(req, fresh) == Some(
            e.message@,
        ),
{
}

} // verus!
