//! Chat completion requests and responses, and their conversion to and from
//! those of the message interface.

use vstd::prelude::*;

use crate::anthropic::types::{
    effort_view, message_views, system_views, thinking_view, tool_views, Message, MessageView,
    MessagesRequest, Metadata, OutputConfig, RequestView, SystemMessage, Thinking, Tool, ToolView,
};
use crate::ids::{fresh_id, is_simple_uuid};
use crate::json::{
    array_view, array_view_push, json_parse, json_text, opt_json, parse_json, Json, JsonView,
};
use crate::model::names::{family_model, model_name};
use crate::openai::blocks::{
    block_is, blocks_of, blocks_text, collect_blocks_text, credit_of, finish_reason, is_block,
    make_usage_report, map_finish_reason, member_text, read_credit, read_tokens, text_member,
    tokens, usage_report, CreditView,
};
use crate::openai::parse::{data_url, parse_data_url};
use crate::text::{
    concat, has_prefix, is_blank, is_blank_str, lower, opt_str_view, opt_view, starts_with, str_eq,
    to_lower, trim, trim_str, views,
};

verus! {

broadcast use vstd::string::group_string_axioms;

/// The variant, within its family, of the model of requests that name no model
/// of the family.
pub const DEFAULT_OPENAI_COMPAT_MODEL: &'static str = "sonnet-4.5";

/// The model of requests that name no model of the family.
pub open spec fn default_model(family: Seq<char>) -> Seq<char> {
    model_name(family, DEFAULT_OPENAI_COMPAT_MODEL@)
}

/// The text of a content.
pub open spec fn content_text(j: JsonView) -> Seq<char>
    decreases j, 0nat,
{
    match j {
        JsonView::Null => Seq::empty(),
        JsonView::Text(t) => t,
        JsonView::Array(items) => items_text(items, items.len()),
        JsonView::Object(m) => match j.get_str("text"@) {
            Some(t) => t,
            None => if m.contains_key("content"@) && content_text(m["content"@]).len() > 0 {
                content_text(m["content"@])
            } else if m.contains_key("output"@) {
                content_text(m["output"@])
            } else {
                Seq::empty()
            },
        },
        _ => json_text(j),
    }
}

/// The texts of the first `n` items of a list, put together.
pub open spec fn items_text(items: Seq<JsonView>, n: nat) -> Seq<char>
    decreases items, n,
{
    if n == 0 || n > items.len() {
        Seq::empty()
    } else {
        items_text(items, (n - 1) as nat) + content_text(items[n - 1])
    }
}

/// The text of a content: numbers and truth values as JSON, lists piece by piece,
/// and of an object its text, content or output.
pub fn content_to_text(content: &Json) -> (r: String)
    ensures
        r@ == content_text(content@),
    decreases content,
{
    match content {
        Json::Null => String::new(),
        Json::Text(t) => t.clone(),
        Json::Array(items) => {
            let mut out = String::new();
            let mut i: usize = 0;
            let ghost all = array_view(items@);
            while i < items.len()
                invariant
                    i <= items@.len(),
                    all == array_view(items@),
                    content == Json::Array(*items),
                    out@ == items_text(all, i as nat),
                decreases items@.len() - i,
            {
                assert(decreases_to!(content => items@[i as int])) by {
                    assert(decreases_to!(content => content->Array_0));
                }
                out.push_str(content_to_text(&items[i]).as_str());
                i += 1;
            }
            out
        },
        Json::Object(_) => match content.get_str("text") {
            Some(t) => t.to_owned(),
            None => {
                if let Some(inner) = content.get("content") {
                    let text = content_to_text(inner);
                    if !text.as_str().is_empty() {
                        return text;
                    }
                }
                match content.get("output") {
                    Some(inner) => content_to_text(inner),
                    None => String::new(),
                }
            },
        },
        Json::Float(_) => match content.as_float_bits() {
            Some(_) => content.to_text(),
            None => String::new(),
        },
        _ => content.to_text(),
    }
}

/// A text block.
pub open spec fn text_block(t: Seq<char>) -> JsonView {
    JsonView::object().with("type"@, JsonView::Text("text"@)).with("text"@, JsonView::Text(t))
}

fn make_text_block(t: &str) -> (r: Json)
    ensures
        r@ == text_block(t@),
{
    Json::object().with("type", Json::text("text")).with("text", Json::text(t))
}

/// The address in an image part.
pub open spec fn image_url(part: JsonView) -> Option<Seq<char>> {
    match part.get("image_url"@) {
        Some(v) => match v.get_str("url"@) {
            Some(u) => Some(u),
            None => match v.as_str() {
                Some(u) => Some(u),
                None => part.get_str("url"@),
            },
        },
        None => part.get_str("url"@),
    }
}

/// An image block with the data of a `data:` URL; any other address becomes a
/// text.
pub open spec fn image_block(url: Seq<char>) -> JsonView {
    match data_url(url) {
        Some((media_type, data)) => JsonView::object().with("type"@, JsonView::Text("image"@)).with(
            "source"@,
            JsonView::object().with("type"@, JsonView::Text("base64"@)).with(
                "media_type"@,
                JsonView::Text(media_type),
            ).with("data"@, JsonView::Text(data)),
        ),
        None => text_block("[image_url: "@ + url + "]"@),
    }
}

/// The block of an image part.
fn image_part_to_anthropic(part: &Json) -> (r: Option<Json>)
    ensures
        (match r {
            Some(j) => Some(j@),
            None => None,
        }) == (match image_url(part@) {
            Some(url) => Some(image_block(url)),
            None => None,
        }),
{
    let direct = match part.get("image_url") {
        Some(v) => match v.get_str("url") {
            Some(u) => Some(u),
            None => v.as_str(),
        },
        None => None,
    };
    let url = match direct {
        Some(u) => Some(u),
        None => part.get_str("url"),
    };
    match url {
        None => None,
        Some(u) => match parse_data_url(u) {
            Some((media_type, data)) => Some(
                Json::object().with("type", Json::text("image")).with(
                    "source",
                    Json::object().with("type", Json::text("base64")).with(
                        "media_type",
                        Json::text(media_type),
                    ).with("data", Json::text(data)),
                ),
            ),
            None => {
                let mut text = concat("[image_url: ", u);
                text.push_str("]");
                Some(make_text_block(text.as_str()))
            },
        },
    }
}

/// The part has the type of an image.
pub open spec fn is_image_part(part: JsonView) -> bool {
    match part.get_str("type"@) {
        Some(t) => t == "image_url"@ || t == "input_image"@ || t == "image"@,
        None => false,
    }
}

/// The block of a part of a content: an image where the part is one, else its
/// text unless that is empty.
pub open spec fn part_block(part: JsonView) -> Option<JsonView> {
    if is_image_part(part) {
        match image_url(part) {
            Some(url) => Some(image_block(url)),
            None => None,
        }
    } else {
        match part.get_str("text"@) {
            Some(t) => if t.len() > 0 {
                Some(text_block(t))
            } else {
                None
            },
            None => None,
        }
    }
}

/// The block of a part, or none.
pub open spec fn block_seq(part: JsonView) -> Seq<JsonView> {
    match part_block(part) {
        Some(b) => seq![b],
        None => Seq::empty(),
    }
}

/// The blocks of parts, in their order.
pub open spec fn part_blocks(parts: Seq<JsonView>) -> Seq<JsonView>
    decreases parts.len(),
{
    if parts.len() == 0 {
        Seq::empty()
    } else {
        part_blocks(parts.drop_last()) + block_seq(parts.last())
    }
}

/// The blocks of a content.
pub open spec fn content_blocks(content: Option<JsonView>) -> Seq<JsonView> {
    match content {
        None => Seq::empty(),
        Some(JsonView::Null) => Seq::empty(),
        Some(JsonView::Text(t)) => if t.len() == 0 {
            Seq::empty()
        } else {
            seq![text_block(t)]
        },
        Some(JsonView::Array(parts)) => part_blocks(parts),
        Some(JsonView::Object(m)) => block_seq(JsonView::Object(m)),
        Some(other) => seq![text_block(json_text(other))],
    }
}

fn append_content_part(blocks: &mut Vec<Json>, part: &Json)
    ensures
        array_view(final(blocks)@) == array_view(old(blocks)@) + block_seq(part@),
{
    let ghost before = blocks@;
    let image = match part.get_str("type") {
        Some(t) => str_eq(t, "image_url") || str_eq(t, "input_image") || str_eq(t, "image"),
        None => false,
    };
    let block = if image {
        image_part_to_anthropic(part)
    } else {
        match part.get_str("text") {
            Some(t) => if !t.is_empty() {
                Some(make_text_block(t))
            } else {
                None
            },
            None => None,
        }
    };
    match block {
        Some(b) => {
            let ghost view = b@;
            proof {
                array_view_push(before, b);
            }
            blocks.push(b);
            assert(array_view(blocks@) =~= array_view(before) + seq![view]);
        },
        None => {
            assert(array_view(blocks@) =~= array_view(before) + Seq::<JsonView>::empty());
        },
    }
}

/// The blocks of a content.
fn content_to_text_blocks(content: Option<&Json>) -> (r: Vec<Json>)
    ensures
        array_view(r@) == content_blocks(opt_json(content)),
{
    let mut blocks: Vec<Json> = Vec::new();
    assert(array_view(blocks@) =~= Seq::<JsonView>::empty());
    match content {
        None => {},
        Some(j) => match j {
            Json::Null => {},
            Json::Text(t) => {
                if !t.as_str().is_empty() {
                    let b = make_text_block(t.as_str());
                    proof {
                        array_view_push(blocks@, b);
                    }
                    blocks.push(b);
                    assert(array_view(blocks@) =~= seq![text_block(t@)]);
                }
            },
            Json::Array(parts) => {
                let ghost all = array_view(parts@);
                let mut i: usize = 0;
                assert(all.take(0) =~= Seq::<JsonView>::empty());
                while i < parts.len()
                    invariant
                        i <= parts@.len(),
                        all == array_view(parts@),
                        array_view(blocks@) == part_blocks(all.take(i as int)),
                    decreases parts@.len() - i,
                {
                    assert(all.take(i + 1).drop_last() =~= all.take(i as int));
                    append_content_part(&mut blocks, &parts[i]);
                    i += 1;
                }
                assert(all.take(all.len() as int) =~= all);
            },
            Json::Object(_) => {
                append_content_part(&mut blocks, j);
                assert(array_view(blocks@) =~= block_seq(j@));
            },
            Json::Float(_) => {
                if j.as_float_bits().is_some() {
                    let b = make_text_block(j.to_text().as_str());
                    proof {
                        array_view_push(blocks@, b);
                    }
                    blocks.push(b);
                    assert(array_view(blocks@) =~= seq![text_block(json_text(j@))]);
                }
            },
            _ => {
                let b = make_text_block(j.to_text().as_str());
                proof {
                    array_view_push(blocks@, b);
                }
                blocks.push(b);
                assert(array_view(blocks@) =~= seq![text_block(json_text(j@))]);
            },
        },
    }
    blocks
}

/// The content of a user message.
pub open spec fn user_content(content: Option<JsonView>) -> JsonView {
    match content {
        None => JsonView::Text(Seq::empty()),
        Some(JsonView::Array(parts)) => JsonView::Array(part_blocks(parts)),
        Some(other) => JsonView::Text(content_text(other)),
    }
}

/// The content of a tool result.
pub open spec fn result_content(content: Option<JsonView>) -> JsonView {
    match content {
        None => JsonView::Text(Seq::empty()),
        Some(j) => if (j is Array || j is Object) && content_blocks(Some(j)).len() > 0 {
            JsonView::Array(content_blocks(Some(j)))
        } else {
            JsonView::Text(content_text(j))
        },
    }
}

/// The content of a user message: text as it is, and lists as blocks.
pub fn openai_content_to_anthropic(content: Option<&Json>) -> (r: Json)
    ensures
        r@ == user_content(opt_json(content)),
{
    match content {
        None => Json::Text(String::new()),
        Some(j) => match j {
            Json::Array(_) => Json::Array(content_to_text_blocks(content)),
            _ => Json::Text(content_to_text(j)),
        },
    }
}

/// The content of a tool result: blocks where there are any, else the text.
pub fn tool_result_content(content: Option<&Json>) -> (r: Json)
    ensures
        r@ == result_content(opt_json(content)),
{
    match content {
        None => Json::Text(String::new()),
        Some(j) => {
            let listed = match j {
                Json::Array(_) | Json::Object(_) => true,
                _ => false,
            };
            if listed {
                let blocks = content_to_text_blocks(content);
                assert(array_view(blocks@).len() == blocks@.len());
                if blocks.len() > 0 {
                    return Json::Array(blocks);
                }
            }
            Json::Text(content_to_text(j))
        },
    }
}

/// A function that the model calls.
#[derive(Debug, PartialEq, Eq)]
pub struct OpenAIFunctionCall {
    pub name: String,
    pub arguments: String,
}

/// A tool that the model calls.
#[derive(Debug, PartialEq, Eq)]
pub struct OpenAIToolCall {
    pub id: Option<String>,
    pub tool_type: String,
    pub function: OpenAIFunctionCall,
}

/// A chat message.
#[derive(Debug, PartialEq, Eq)]
pub struct OpenAIMessage {
    pub role: String,
    pub content: Option<Json>,
    pub tool_calls: Vec<OpenAIToolCall>,
    pub tool_call_id: Option<String>,
    pub name: Option<String>,
}

/// A tool that the model calls.
pub struct ToolCallView {
    pub id: Option<Seq<char>>,
    pub tool_type: Seq<char>,
    pub name: Seq<char>,
    pub arguments: Seq<char>,
}

/// A chat message.
pub struct ChatMessageView {
    pub role: Seq<char>,
    pub content: Option<JsonView>,
    pub tool_calls: Seq<ToolCallView>,
    pub tool_call_id: Option<Seq<char>>,
    pub name: Option<Seq<char>>,
}

impl OpenAIToolCall {
    pub open spec fn view(&self) -> ToolCallView {
        ToolCallView {
            id: opt_view(self.id),
            tool_type: self.tool_type@,
            name: self.function.name@,
            arguments: self.function.arguments@,
        }
    }
}

pub open spec fn call_views(list: Seq<OpenAIToolCall>) -> Seq<ToolCallView> {
    list.map_values(|c: OpenAIToolCall| c@)
}

impl OpenAIMessage {
    pub open spec fn view(&self) -> ChatMessageView {
        ChatMessageView {
            role: self.role@,
            content: match self.content {
                Some(j) => Some(j@),
                None => None,
            },
            tool_calls: call_views(self.tool_calls@),
            tool_call_id: opt_view(self.tool_call_id),
            name: opt_view(self.name),
        }
    }
}

pub open spec fn chat_views(list: Seq<OpenAIMessage>) -> Seq<ChatMessageView> {
    list.map_values(|m: OpenAIMessage| m@)
}

impl Clone for OpenAIToolCall {
    fn clone(&self) -> (r: Self)
        ensures
            r == *self,
    {
        OpenAIToolCall {
            id: match &self.id {
                Some(t) => Some(t.clone()),
                None => None,
            },
            tool_type: self.tool_type.clone(),
            function: OpenAIFunctionCall {
                name: self.function.name.clone(),
                arguments: self.function.arguments.clone(),
            },
        }
    }
}

/// A copy of tool calls.
pub fn copy_calls(list: &Vec<OpenAIToolCall>) -> (r: Vec<OpenAIToolCall>)
    ensures
        r@ == list@,
{
    let mut out: Vec<OpenAIToolCall> = Vec::new();
    let mut i: usize = 0;
    while i < list.len()
        invariant
            i <= list@.len(),
            out@ == list@.take(i as int),
        decreases list@.len() - i,
    {
        out.push(list[i].clone());
        assert(list@.take(i + 1) =~= list@.take(i as int).push(list@[i as int]));
        i += 1;
    }
    assert(list@.take(list@.len() as int) =~= list@);
    out
}

fn copy_text(o: &Option<String>) -> (r: Option<String>)
    ensures
        r == *o,
{
    match o {
        Some(t) => Some(t.clone()),
        None => None,
    }
}

impl Clone for OpenAIMessage {
    fn clone(&self) -> (r: Self)
        ensures
            r@ == self@,
    {
        OpenAIMessage {
            role: self.role.clone(),
            content: match &self.content {
                Some(j) => Some(j.clone()),
                None => None,
            },
            tool_calls: copy_calls(&self.tool_calls),
            tool_call_id: copy_text(&self.tool_call_id),
            name: copy_text(&self.name),
        }
    }
}

/// A copy of chat messages.
pub fn copy_messages(list: &Vec<OpenAIMessage>) -> (r: Vec<OpenAIMessage>)
    ensures
        chat_views(r@) == chat_views(list@),
{
    let mut out: Vec<OpenAIMessage> = Vec::new();
    let mut i: usize = 0;
    while i < list.len()
        invariant
            i <= list@.len(),
            out@.len() == i,
            forall|k: int| 0 <= k < i ==> (#[trigger] out@[k])@ == list@[k]@,
        decreases list@.len() - i,
    {
        out.push(list[i].clone());
        i += 1;
    }
    assert(chat_views(out@) =~= chat_views(list@));
    out
}

/// The arguments of a call, as a document: the one they read as, an empty object
/// for none, and an object around what does not read as JSON.
pub open spec fn arguments_json(arguments: Seq<char>, parsed: Option<JsonView>) -> JsonView {
    if is_blank(arguments) {
        JsonView::object()
    } else {
        match parsed {
            Some(j) => j,
            None => JsonView::object().with("arguments"@, JsonView::Text(arguments)),
        }
    }
}

/// The document that a text reads as.
pub open spec fn document(text: Seq<char>) -> Option<JsonView> {
    match json_parse(text) {
        Ok(j) => Some(j),
        Err(_) => None,
    }
}

/// The arguments of a call that read as `parsed`, as a document.
pub fn arguments_from(arguments: &str, parsed: Option<Json>) -> (r: Json)
    ensures
        r@ == arguments_json(
            arguments@,
            match parsed {
                Some(j) => Some(j@),
                None => None,
            },
        ),
{
    if is_blank_str(arguments) {
        return Json::object();
    }
    match parsed {
        Some(j) => j,
        None => Json::object().with("arguments", Json::text(arguments)),
    }
}

/// The arguments of a call, as a document.
pub fn parse_tool_arguments(arguments: &str) -> (r: Json)
    ensures
        r@ == arguments_json(arguments@, document(arguments@)),
{
    let parsed = match parse_json(arguments) {
        Ok(j) => Some(j),
        Err(_) => None,
    };
    arguments_from(arguments, parsed)
}

/// The block of a call that goes by `id`.
pub open spec fn tool_use_block(id: Seq<char>, name: Seq<char>, input: JsonView) -> JsonView {
    JsonView::object().with("type"@, JsonView::Text("tool_use"@)).with(
        "id"@,
        JsonView::Text(id),
    ).with("name"@, JsonView::Text(name)).with("input"@, input)
}

/// The blocks of calls of functions; a call without an identifier goes by the one
/// in `fresh` at its place.
pub open spec fn call_blocks(calls: Seq<ToolCallView>, fresh: Seq<Seq<char>>) -> Seq<JsonView>
    decreases calls.len(),
{
    if calls.len() == 0 {
        Seq::empty()
    } else {
        let front = call_blocks(calls.drop_last(), fresh);
        let c = calls.last();
        if c.tool_type == "function"@ {
            front.push(
                tool_use_block(
                    match c.id {
                        Some(id) => id,
                        None => fresh[calls.len() - 1],
                    },
                    c.name,
                    arguments_json(c.arguments, document(c.arguments)),
                ),
            )
        } else {
            front
        }
    }
}

/// The content of an assistant message: the blocks of its content and of its
/// calls, or an empty text.
pub open spec fn assistant_content(m: ChatMessageView, fresh: Seq<Seq<char>>) -> JsonView {
    let blocks = content_blocks(m.content) + call_blocks(m.tool_calls, fresh);
    if blocks.len() == 0 {
        JsonView::Text(Seq::empty())
    } else {
        JsonView::Array(blocks)
    }
}

/// The content of an assistant message, with identifiers for calls that have
/// none.
pub fn assistant_content_to_anthropic(msg: &OpenAIMessage, fresh: &Vec<String>) -> (r: Json)
    requires
        fresh@.len() == msg.tool_calls@.len(),
    ensures
        r@ == assistant_content(msg@, views(fresh@)),
{
    let mut blocks = content_to_text_blocks(msg.content.as_ref());
    let ghost head = array_view(blocks@);
    let ghost calls = call_views(msg.tool_calls@);
    let ghost ids = views(fresh@);
    let mut i: usize = 0;
    assert(calls.take(0) =~= Seq::<ToolCallView>::empty());
    assert(array_view(blocks@) =~= head + Seq::<JsonView>::empty());
    while i < msg.tool_calls.len()
        invariant
            i <= msg.tool_calls@.len(),
            fresh@.len() == msg.tool_calls@.len(),
            calls == call_views(msg.tool_calls@),
            ids == views(fresh@),
            array_view(blocks@) == head + call_blocks(calls.take(i as int), ids),
        decreases msg.tool_calls@.len() - i,
    {
        let call = &msg.tool_calls[i];
        proof {
            assert(calls.take(i + 1).drop_last() =~= calls.take(i as int));
            assert(calls.take(i + 1).last() == call@);
        }
        if str_eq(call.tool_type.as_str(), "function") {
            let id = match &call.id {
                Some(id) => id.as_str(),
                None => fresh[i].as_str(),
            };
            let b = Json::object().with("type", Json::text("tool_use")).with(
                "id",
                Json::text(id),
            ).with("name", Json::text(call.function.name.as_str())).with(
                "input",
                parse_tool_arguments(call.function.arguments.as_str()),
            );
            proof {
                array_view_push(blocks@, b);
                assert(array_view(blocks@).push(b@) =~= head + call_blocks(
                    calls.take(i as int),
                    ids,
                ).push(b@));
            }
            blocks.push(b);
        }
        i += 1;
    }
    assert(calls.take(calls.len() as int) =~= calls);
    assert(array_view(blocks@).len() == blocks@.len());
    if blocks.len() == 0 {
        Json::Text(String::new())
    } else {
        Json::Array(blocks)
    }
}

/// A conversation that is being converted: the system prompt and the messages
/// so far, and tool results that wait to be put into one message.
pub struct SplitView {
    pub system: Seq<Seq<char>>,
    pub messages: Seq<MessageView>,
    pub pending: Seq<JsonView>,
}

/// The tool results that wait become a user message.
pub open spec fn flushed(s: SplitView) -> SplitView {
    if s.pending.len() == 0 {
        s
    } else {
        SplitView {
            messages: s.messages.push(
                MessageView { role: "user"@, content: JsonView::Array(s.pending) },
            ),
            pending: Seq::empty(),
            ..s
        }
    }
}

/// The block of a tool result.
pub open spec fn tool_result_block(m: ChatMessageView) -> JsonView {
    JsonView::object().with("type"@, JsonView::Text("tool_result"@)).with(
        "tool_use_id"@,
        JsonView::Text(
            match m.tool_call_id {
                Some(id) => id,
                None => Seq::empty(),
            },
        ),
    ).with("content"@, result_content(m.content))
}

/// The text of a message.
pub open spec fn message_text(m: ChatMessageView) -> Seq<char> {
    content_text(JsonView::or_null(m.content))
}

/// The conversation with one more chat message. Successive tool results are put
/// into one message, which is complete once a message of another role follows.
pub open spec fn split_step(s: SplitView, m: ChatMessageView, fresh: Seq<Seq<char>>) -> SplitView {
    if m.role == "tool"@ {
        SplitView { pending: s.pending.push(tool_result_block(m)), ..s }
    } else {
        let f = flushed(s);
        if m.role == "system"@ || m.role == "developer"@ {
            if is_blank(message_text(m)) {
                f
            } else {
                SplitView { system: f.system.push(message_text(m)), ..f }
            }
        } else if m.role == "user"@ {
            SplitView {
                messages: f.messages.push(
                    MessageView { role: "user"@, content: user_content(m.content) },
                ),
                ..f
            }
        } else if m.role == "assistant"@ {
            SplitView {
                messages: f.messages.push(
                    MessageView { role: "assistant"@, content: assistant_content(m, fresh) },
                ),
                ..f
            }
        } else {
            f
        }
    }
}

/// The conversation that chat messages make up, without the last tool results
/// being put into a message yet; `fresh` has the identifiers for each message.
pub open spec fn split_steps(list: Seq<ChatMessageView>, fresh: Seq<Seq<Seq<char>>>) -> SplitView
    decreases list.len(),
{
    if list.len() == 0 {
        SplitView { system: Seq::empty(), messages: Seq::empty(), pending: Seq::empty() }
    } else {
        split_step(split_steps(list.drop_last(), fresh), list.last(), fresh[list.len() - 1])
    }
}

/// The conversation that chat messages make up.
pub open spec fn split_chat(list: Seq<ChatMessageView>, fresh: Seq<Seq<Seq<char>>>) -> SplitView {
    flushed(split_steps(list, fresh))
}

/// The views of lists of identifiers.
pub open spec fn id_views(fresh: Seq<Vec<String>>) -> Seq<Seq<Seq<char>>> {
    fresh.map_values(|ids: Vec<String>| views(ids@))
}

/// There is an identifier for every call.
pub open spec fn ids_fit(messages: Seq<OpenAIMessage>, fresh: Seq<Vec<String>>) -> bool {
    fresh.len() == messages.len() && forall|i: int|
        0 <= i < messages.len() ==> (#[trigger] fresh[i])@.len() == messages[i].tool_calls@.len()
}

fn flush(out: &mut Vec<Message>, pending: &mut Vec<Json>)
    ensures
        ({
            let s = flushed(
                SplitView {
                    system: Seq::empty(),
                    messages: message_views(old(out)@),
                    pending: array_view(old(pending)@),
                },
            );
            message_views(final(out)@) == s.messages && array_view(final(pending)@) == s.pending
        }),
{
    let ghost before = out@;
    assert(array_view(pending@).len() == pending@.len());
    if pending.len() > 0 {
        let mut taken: Vec<Json> = Vec::new();
        std::mem::swap(&mut taken, pending);
        out.push(Message { role: "user".to_owned(), content: Json::Array(taken) });
        assert(message_views(out@) =~= message_views(before).push(out@.last()@));
        assert(array_view(pending@) =~= Seq::<JsonView>::empty());
    }
}

/// Converts a conversation, with identifiers for calls that have none. The system
/// prompt is none where it is empty.
pub fn split_chat_messages(messages: &Vec<OpenAIMessage>, fresh: &Vec<Vec<String>>) -> (r: (
    Option<Vec<SystemMessage>>,
    Vec<Message>,
))
    requires
        ids_fit(messages@, fresh@),
    ensures
        ({
            let s = split_chat(chat_views(messages@), id_views(fresh@));
            &&& message_views(r.1@) == s.messages
            &&& match r.0 {
                Some(list) => s.system.len() > 0 && system_views(list@) == s.system,
                None => s.system.len() == 0,
            }
        }),
{
    let mut system: Vec<SystemMessage> = Vec::new();
    let mut out: Vec<Message> = Vec::new();
    let mut pending: Vec<Json> = Vec::new();
    let ghost all = chat_views(messages@);
    let ghost ids = id_views(fresh@);
    let mut i: usize = 0;
    proof {
        assert(all.take(0) =~= Seq::<ChatMessageView>::empty());
        assert(system_views(system@) =~= Seq::<Seq<char>>::empty());
        assert(message_views(out@) =~= Seq::<MessageView>::empty());
        assert(array_view(pending@) =~= Seq::<JsonView>::empty());
    }
    while i < messages.len()
        invariant
            i <= messages@.len(),
            ids_fit(messages@, fresh@),
            all == chat_views(messages@),
            ids == id_views(fresh@),
            system_views(system@) == split_steps(all.take(i as int), ids).system,
            message_views(out@) == split_steps(all.take(i as int), ids).messages,
            array_view(pending@) == split_steps(all.take(i as int), ids).pending,
        decreases messages@.len() - i,
    {
        let msg = &messages[i];
        let ghost s = split_steps(all.take(i as int), ids);
        proof {
            assert(all.take(i + 1).drop_last() =~= all.take(i as int));
            assert(all.take(i + 1).last() == msg@);
            assert(ids[i as int] == views(fresh@[i as int]@));
        }
        let role = msg.role.as_str();
        if str_eq(role, "tool") {
            let id = match &msg.tool_call_id {
                Some(id) => id.clone(),
                None => String::new(),
            };
            let b = Json::object().with("type", Json::text("tool_result")).with(
                "tool_use_id",
                Json::Text(id),
            ).with("content", tool_result_content(msg.content.as_ref()));
            proof {
                array_view_push(pending@, b);
            }
            pending.push(b);
        } else {
            flush(&mut out, &mut pending);
            let ghost flushed_out = out@;
            if str_eq(role, "system") || str_eq(role, "developer") {
                let text = match &msg.content {
                    Some(j) => content_to_text(j),
                    None => String::new(),
                };
                if !is_blank_str(text.as_str()) {
                    let ghost before = system@;
                    system.push(SystemMessage { text });
                    assert(system_views(system@) =~= system_views(before).push(text@));
                }
            } else if str_eq(role, "user") {
                out.push(
                    Message {
                        role: "user".to_owned(),
                        content: openai_content_to_anthropic(msg.content.as_ref()),
                    },
                );
                assert(message_views(out@) =~= message_views(flushed_out).push(out@.last()@));
            } else if str_eq(role, "assistant") {
                out.push(
                    Message {
                        role: "assistant".to_owned(),
                        content: assistant_content_to_anthropic(msg, &fresh[i]),
                    },
                );
                assert(message_views(out@) =~= message_views(flushed_out).push(out@.last()@));
            }
        }
        i += 1;
    }
    assert(all.take(all.len() as int) =~= all);
    flush(&mut out, &mut pending);
    assert(system_views(system@).len() == system@.len());
    if system.len() == 0 {
        (None, out)
    } else {
        (Some(system), out)
    }
}

/// A function that the client offers.
#[derive(Debug, PartialEq, Eq)]
pub struct OpenAIToolFunction {
    pub name: String,
    pub description: Option<String>,
    pub parameters: Option<Json>,
}

/// A tool that the client offers. A function may stand in it or be spread over
/// its fields.
#[derive(Debug, PartialEq, Eq)]
pub struct OpenAITool {
    pub tool_type: String,
    pub function: Option<OpenAIToolFunction>,
    pub name: Option<String>,
    pub description: Option<String>,
    pub parameters: Option<Json>,
}

/// A function that the client offers.
pub struct FunctionView {
    pub name: Seq<char>,
    pub description: Option<Seq<char>>,
    pub parameters: Option<JsonView>,
}

/// A tool that the client offers; the function is none where it has no name.
pub struct OfferedTool {
    pub tool_type: Seq<char>,
    pub function: Option<FunctionView>,
    /// The parameters that stand in the tool itself.
    pub parameters: Option<JsonView>,
}

/// The view of an optional document.
pub open spec fn opt_document(o: Option<Json>) -> Option<JsonView> {
    match o {
        Some(j) => Some(j@),
        None => None,
    }
}

impl OpenAITool {
    pub open spec fn view(&self) -> OfferedTool {
        OfferedTool {
            tool_type: self.tool_type@,
            function: match self.function {
                Some(f) => Some(
                    FunctionView {
                        name: f.name@,
                        description: opt_view(f.description),
                        parameters: opt_document(f.parameters),
                    },
                ),
                None => match self.name {
                    Some(name) => Some(
                        FunctionView {
                            name: name@,
                            description: opt_view(self.description),
                            parameters: opt_document(self.parameters),
                        },
                    ),
                    None => None,
                },
            },
            parameters: opt_document(self.parameters),
        }
    }
}

pub open spec fn offered_views(list: Seq<OpenAITool>) -> Seq<OfferedTool> {
    list.map_values(|t: OpenAITool| t@)
}

/// The most searches of a web search tool that sets no number.
pub const DEFAULT_WEB_SEARCH_MAX_USES: i32 = 8;

/// The type of a web search tool, in any of its variants.
pub open spec fn is_web_search(tool_type: Seq<char>) -> bool {
    tool_type == "web_search"@ || starts_with(tool_type, "web_search_"@)
}

/// The most searches that the parameters of a web search tool allow.
pub open spec fn search_limit(parameters: Option<JsonView>) -> i32 {
    let number = match parameters {
        Some(p) => match p.get("max_uses"@) {
            Some(v) => v.as_i64(),
            None => p.get_i64("max_num_results"@),
        },
        None => None,
    };
    match number {
        Some(n) => if (n as i32) > 0 {
            n as i32
        } else {
            DEFAULT_WEB_SEARCH_MAX_USES
        },
        None => DEFAULT_WEB_SEARCH_MAX_USES,
    }
}

/// The schema of a function: that of an object without properties where none is
/// given, or what is given is no object.
pub open spec fn schema_of(parameters: Option<JsonView>) -> JsonView {
    match parameters {
        Some(JsonView::Object(m)) => JsonView::Object(m),
        _ => JsonView::object().with("type"@, JsonView::Text("object"@)).with(
            "properties"@,
            JsonView::object(),
        ),
    }
}

/// What a tool that the client offers is for the model: a web search of the
/// service, or a function with a name. Other tools are left out.
pub open spec fn tool_for_model(t: OfferedTool) -> Option<ToolView> {
    if is_web_search(t.tool_type) {
        Some(
            ToolView {
                tool_type: Some("web_search_20250305"@),
                name: "web_search"@,
                description: Seq::empty(),
                input_schema: JsonView::object(),
                max_uses: Some(search_limit(t.parameters)),
            },
        )
    } else if t.tool_type == "function"@ && t.function is Some && !is_blank(t.function->0.name) {
        let f = t.function->0;
        Some(
            ToolView {
                tool_type: None,
                name: trim(f.name),
                description: match f.description {
                    Some(d) => d,
                    None => trim(f.name),
                },
                input_schema: schema_of(f.parameters),
                max_uses: None,
            },
        )
    } else {
        None
    }
}

/// What the tools that the client offers are for the model.
pub open spec fn tools_for_model(list: Seq<OfferedTool>) -> Seq<ToolView>
    decreases list.len(),
{
    if list.len() == 0 {
        Seq::empty()
    } else {
        match tool_for_model(list.last()) {
            Some(t) => tools_for_model(list.drop_last()).push(t),
            None => tools_for_model(list.drop_last()),
        }
    }
}

/// Tests for the type of a web search tool, in any of its variants.
pub fn is_openai_web_search_tool(tool_type: &str) -> (r: bool)
    ensures
        r == is_web_search(tool_type@),
{
    str_eq(tool_type, "web_search") || has_prefix(tool_type, "web_search_")
}

/// The schema of a function.
pub fn schema_to_object(schema: Option<&Json>) -> (r: Json)
    ensures
        r@ == schema_of(opt_json(schema)),
{
    match schema {
        Some(j) => match j {
            Json::Object(_) => {
                return j.clone();
            },
            _ => {},
        },
        None => {},
    }
    Json::object().with("type", Json::text("object")).with("properties", Json::object())
}

/// The function of a tool, as its name, its description and its parameters.
pub fn tool_function(tool: &OpenAITool) -> (r: Option<(&str, Option<&String>, Option<&Json>)>)
    ensures
        match r {
            Some((name, description, parameters)) => tool@.function == Some(
                FunctionView {
                    name: name@,
                    description: match description {
                        Some(d) => Some(d@),
                        None => None,
                    },
                    parameters: opt_json(parameters),
                },
            ),
            None => tool@.function is None,
        },
{
    match &tool.function {
        Some(f) => Some((f.name.as_str(), f.description.as_ref(), f.parameters.as_ref())),
        None => match &tool.name {
            Some(name) => Some(
                (name.as_str(), tool.description.as_ref(), tool.parameters.as_ref()),
            ),
            None => None,
        },
    }
}

fn web_search_limit(tool: &OpenAITool) -> (r: i32)
    ensures
        r == search_limit(tool@.parameters),
{
    let number = match &tool.parameters {
        Some(p) => match p.get("max_uses") {
            Some(v) => v.as_i64(),
            None => p.get_i64("max_num_results"),
        },
        None => None,
    };
    match number {
        Some(n) => {
            let cut: i32 = #[verifier::truncate]
            (n as i32);
            if cut > 0 {
                cut
            } else {
                DEFAULT_WEB_SEARCH_MAX_USES
            }
        },
        None => DEFAULT_WEB_SEARCH_MAX_USES,
    }
}

fn convert_tool(tool: &OpenAITool) -> (r: Option<Tool>)
    ensures
        (match r {
            Some(t) => Some(t@),
            None => None,
        }) == tool_for_model(tool@),
{
    if is_openai_web_search_tool(tool.tool_type.as_str()) {
        return Some(
            Tool {
                tool_type: Some("web_search_20250305".to_owned()),
                name: "web_search".to_owned(),
                description: String::new(),
                input_schema: Json::object(),
                max_uses: Some(web_search_limit(tool)),
            },
        );
    }
    if !str_eq(tool.tool_type.as_str(), "function") {
        return None;
    }
    match tool_function(tool) {
        None => None,
        Some((name, description, parameters)) => {
            let name = trim_str(name);
            if name.is_empty() {
                return None;
            }
            Some(
                Tool {
                    tool_type: None,
                    name: name.to_owned(),
                    description: match description {
                        Some(d) => d.clone(),
                        None => name.to_owned(),
                    },
                    input_schema: schema_to_object(parameters),
                    max_uses: None,
                },
            )
        },
    }
}

/// The tools for the model; none where no tool is left.
pub fn convert_openai_tools(tools: &Vec<OpenAITool>) -> (r: Option<Vec<Tool>>)
    ensures
        match r {
            Some(list) => list@.len() > 0 && tool_views(list@) == tools_for_model(
                offered_views(tools@),
            ),
            None => tools_for_model(offered_views(tools@)).len() == 0,
        },
{
    let mut out: Vec<Tool> = Vec::new();
    let mut i: usize = 0;
    let ghost all = offered_views(tools@);
    assert(all.take(0) =~= Seq::<OfferedTool>::empty());
    assert(tool_views(out@) =~= Seq::<ToolView>::empty());
    while i < tools.len()
        invariant
            i <= tools@.len(),
            all == offered_views(tools@),
            tool_views(out@) == tools_for_model(all.take(i as int)),
        decreases tools@.len() - i,
    {
        proof {
            assert(all.take(i + 1).drop_last() =~= all.take(i as int));
            assert(all.take(i + 1).last() == tools@[i as int]@);
        }
        match convert_tool(&tools[i]) {
            Some(t) => {
                let ghost before = out@;
                out.push(t);
                assert(tool_views(out@) =~= tool_views(before).push(t@));
            },
            None => {},
        }
        i += 1;
    }
    assert(all.take(all.len() as int) =~= all);
    assert(tool_views(out@).len() == out@.len());
    if out.len() == 0 {
        None
    } else {
        Some(out)
    }
}

/// What a choice of tools is for the model.
pub open spec fn choice_for_model(choice: JsonView) -> JsonView {
    match choice.as_str() {
        Some(s) => if s == "none"@ {
            JsonView::object().with("type"@, JsonView::Text("none"@))
        } else if s == "auto"@ {
            JsonView::object().with("type"@, JsonView::Text("auto"@))
        } else if s == "required"@ {
            JsonView::object().with("type"@, JsonView::Text("any"@))
        } else {
            choice
        },
        None => match choice.get2_str("function"@, "name"@) {
            Some(name) => JsonView::object().with("type"@, JsonView::Text("tool"@)).with(
                "name"@,
                JsonView::Text(name),
            ),
            None => choice,
        },
    }
}

/// What a choice of tools is for the model: a word or the name of a function
/// becomes an object, and anything else stays as it is.
pub fn convert_tool_choice(choice: Option<&Json>) -> (r: Option<Json>)
    ensures
        opt_document(r) == (match choice {
            Some(j) => Some(choice_for_model(j@)),
            None => None,
        }),
{
    match choice {
        None => None,
        Some(j) => match j.as_str() {
            Some(s) => {
                let word = if str_eq(s, "none") {
                    "none"
                } else if str_eq(s, "auto") {
                    "auto"
                } else if str_eq(s, "required") {
                    "any"
                } else {
                    return Some(j.clone());
                };
                Some(Json::object().with("type", Json::text(word)))
            },
            None => match j.get2_str("function", "name") {
                Some(name) => Some(
                    Json::object().with("type", Json::text("tool")).with("name", Json::text(name)),
                ),
                None => Some(j.clone()),
            },
        },
    }
}

/// The effort that a request asks for; a word of its own goes before the one in
/// the reasoning settings.
pub open spec fn asked_effort(effort: Option<Seq<char>>, reasoning: Option<JsonView>) -> Option<
    Seq<char>,
> {
    let word = match effort {
        Some(e) => Some(e),
        None => match reasoning {
            Some(r) => r.get_str("effort"@),
            None => None,
        },
    };
    match word {
        Some(w) => if lower(trim(w)).len() > 0 {
            Some(lower(trim(w)))
        } else {
            None
        },
        None => None,
    }
}

/// The budget for thinking, and the effort, that an asked effort comes to. No
/// effort is no thinking, and an unknown word means a medium one.
pub open spec fn effort_level(effort: Seq<char>) -> Option<(i32, Seq<char>)> {
    if effort == "none"@ {
        None
    } else if effort == "minimal"@ || effort == "low"@ {
        Some((4_000, "low"@))
    } else if effort == "high"@ {
        Some((20_000, "high"@))
    } else if effort == "xhigh"@ || effort == "max"@ {
        Some((20_000, "xhigh"@))
    } else {
        Some((12_000, "medium"@))
    }
}

/// The budget for thinking, and the effort, that a request asks for.
pub open spec fn reasoning_level(effort: Option<Seq<char>>, reasoning: Option<JsonView>) -> Option<
    (i32, Seq<char>),
> {
    match asked_effort(effort, reasoning) {
        Some(e) => effort_level(e),
        None => None,
    }
}

/// The thinking and the effort that a request asks for.
pub fn openai_reasoning_to_anthropic(
    reasoning_effort: Option<&str>,
    reasoning: Option<&Json>,
) -> (r: (Option<Thinking>, Option<OutputConfig>))
    ensures
        ({
            let level = reasoning_level(opt_str_view(reasoning_effort), opt_json(reasoning));
            &&& thinking_view(r.0) == (match level {
                Some((budget, _)) => Some(("enabled"@, budget)),
                None => None,
            })
            &&& effort_view(r.1) == (match level {
                Some((_, effort)) => Some(effort),
                None => None,
            })
        }),
{
    let word = match reasoning_effort {
        Some(e) => Some(e),
        None => match reasoning {
            Some(j) => j.get_str("effort"),
            None => None,
        },
    };
    let effort = match word {
        Some(w) => to_lower(trim_str(w)),
        None => {
            return (None, None);
        },
    };
    let e = effort.as_str();
    if e.is_empty() || str_eq(e, "none") {
        return (None, None);
    }
    let (budget, level): (i32, &str) = if str_eq(e, "minimal") || str_eq(e, "low") {
        (4_000, "low")
    } else if str_eq(e, "high") {
        (20_000, "high")
    } else if str_eq(e, "xhigh") || str_eq(e, "max") {
        (20_000, "xhigh")
    } else {
        (12_000, "medium")
    };
    (
        Some(Thinking { thinking_type: "enabled".to_owned(), budget_tokens: budget }),
        Some(OutputConfig { effort: level.to_owned() }),
    )
}

/// What a client asks to be told in a stream.
#[derive(Debug, Clone, Copy, PartialEq, Eq, Structural)]
pub struct StreamOptions {
    pub include_usage: bool,
}

/// A chat completion request.
#[derive(Debug, PartialEq, Eq)]
pub struct ChatCompletionRequest {
    pub model: String,
    pub messages: Vec<OpenAIMessage>,
    pub stream: bool,
    pub max_tokens: Option<i32>,
    pub max_completion_tokens: Option<i32>,
    pub tools: Vec<OpenAITool>,
    pub tool_choice: Option<Json>,
    pub reasoning_effort: Option<String>,
    pub reasoning: Option<Json>,
    pub stream_options: Option<StreamOptions>,
    /// What keeps the requests of one session together.
    pub prompt_cache_key: Option<String>,
}

/// A converted request, and the messages that it was converted from.
#[derive(Debug, PartialEq, Eq)]
pub struct ConvertedOpenAIRequest {
    pub anthropic: MessagesRequest,
    pub openai_messages: Vec<OpenAIMessage>,
}

/// Why a request cannot be converted.
#[derive(Debug, PartialEq, Eq)]
pub struct OpenAIConversionError {
    pub message: String,
}

/// The name of a model of another service.
pub open spec fn is_foreign_model(name: Seq<char>) -> bool {
    let n = lower(name);
    starts_with(n, "gpt-"@) || starts_with(n, "o1"@) || starts_with(n, "o3"@) || starts_with(
        n,
        "o4"@,
    ) || starts_with(n, "codex"@)
}

/// The model that serves a request for a given one.
pub open spec fn serving_model(model: Seq<char>, family: Seq<char>) -> Seq<char> {
    let name = trim(model);
    if name.len() == 0 || is_foreign_model(name) {
        default_model(family)
    } else {
        name
    }
}

/// The model that serves a request for a given one.
pub fn openai_model_to_kiro_model(model: &str, family: &str) -> (r: String)
    ensures
        r@ == serving_model(model@, family@),
{
    let name = trim_str(model);
    if name.is_empty() {
        return family_model(family, DEFAULT_OPENAI_COMPAT_MODEL);
    }
    let low = to_lower(name);
    let n = low.as_str();
    if has_prefix(n, "gpt-") || has_prefix(n, "o1") || has_prefix(n, "o3") || has_prefix(n, "o4")
        || has_prefix(n, "codex") {
        family_model(family, DEFAULT_OPENAI_COMPAT_MODEL)
    } else {
        name.to_owned()
    }
}

/// The most tokens of a response: as the request says, and at least one.
pub open spec fn token_limit(completion: Option<i32>, total: Option<i32>) -> i32 {
    let n = match completion {
        Some(n) => n,
        None => match total {
            Some(n) => n,
            None => 32000,
        },
    };
    if n >= 1 {
        n
    } else {
        1
    }
}

/// There is a web search among the tools.
pub open spec fn has_web_search(tools: Seq<ToolView>) -> bool {
    exists|i: int| 0 <= i < tools.len() && (#[trigger] tools[i]).name == "web_search"@
}

/// The converted request, with identifiers for calls that have none.
pub open spec fn converted(
    req: ChatCompletionRequest,
    fresh: Seq<Seq<Seq<char>>>,
    family: Seq<char>,
) -> RequestView {
    let s = split_chat(chat_views(req.messages@), fresh);
    let tools = tools_for_model(offered_views(req.tools@));
    let level = reasoning_level(opt_view(req.reasoning_effort), opt_document(req.reasoning));
    RequestView {
        model: serving_model(req.model@, family),
        max_tokens: token_limit(req.max_completion_tokens, req.max_tokens),
        messages: s.messages,
        stream: req.stream,
        system: if s.system.len() == 0 {
            None
        } else {
            Some(s.system)
        },
        tools: if tools.len() == 0 {
            None
        } else {
            Some(tools)
        },
        tool_choice: match req.tool_choice {
            Some(j) => Some(choice_for_model(j@)),
            None => None,
        },
        thinking: match level {
            Some((budget, _)) => Some(("enabled"@, budget)),
            None => None,
        },
        effort: match level {
            Some((_, effort)) => Some(effort),
            None => None,
        },
        force_web_search_loop: has_web_search(tools),
    }
}

/// Why a request cannot be converted: it has no message, or only system prompts.
pub open spec fn conversion_fault(req: ChatCompletionRequest, fresh: Seq<Seq<Seq<char>>>) -> Option<
    Seq<char>,
> {
    if req.messages@.len() == 0 {
        Some("messages must contain at least one message"@)
    } else if split_chat(chat_views(req.messages@), fresh).messages.len() == 0 {
        Some("messages must contain at least one non-system message"@)
    } else {
        None
    }
}

/// What converting a request comes to.
pub open spec fn conversion(
    req: ChatCompletionRequest,
    metadata: Option<Metadata>,
    fresh: Seq<Seq<Seq<char>>>,
    family: Seq<char>,
    r: Result<ConvertedOpenAIRequest, OpenAIConversionError>,
) -> bool {
    match r {
        Ok(c) => {
            &&& conversion_fault(req, fresh) is None
            &&& c.anthropic@ == converted(req, fresh, family)
            &&& c.anthropic.metadata == metadata
            &&& chat_views(c.openai_messages@) == chat_views(req.messages@)
        },
        Err(e) => conversion_fault(req, fresh) == Some(e.message@),
    }
}

fn any_web_search(tools: &Option<Vec<Tool>>) -> (r: bool)
    ensures
        r == (tools matches Some(list) && has_web_search(tool_views(list@))),
{
    match tools {
        None => false,
        Some(list) => {
            let mut i: usize = 0;
            while i < list.len()
                invariant
                    i <= list@.len(),
                    tools == Some(*list),
                    forall|k: int|
                        0 <= k < i ==> (#[trigger] tool_views(list@)[k]).name != "web_search"@,
                decreases list@.len() - i,
            {
                if str_eq(list[i].name.as_str(), "web_search") {
                    assert(tool_views(list@)[i as int].name == "web_search"@);
                    return true;
                }
                i += 1;
            }
            false
        },
    }
}

/// Converts a request, with identifiers for calls that have none.
pub fn chat_to_anthropic_with(
    req: &ChatCompletionRequest,
    metadata: Option<Metadata>,
    fresh: &Vec<Vec<String>>,
    family: &str,
) -> (r: Result<ConvertedOpenAIRequest, OpenAIConversionError>)
    requires
        ids_fit(req.messages@, fresh@),
    ensures
        conversion(*req, metadata, id_views(fresh@), family@, r),
{
    if req.messages.len() == 0 {
        return Err(
            OpenAIConversionError {
                message: "messages must contain at least one message".to_owned(),
            },
        );
    }
    let model = openai_model_to_kiro_model(req.model.as_str(), family);
    let (system, messages) = split_chat_messages(&req.messages, fresh);
    assert(message_views(messages@).len() == messages@.len());
    if messages.len() == 0 {
        return Err(
            OpenAIConversionError {
                message: "messages must contain at least one non-system message".to_owned(),
            },
        );
    }
    let effort = match &req.reasoning_effort {
        Some(e) => Some(e.as_str()),
        None => None,
    };
    let (thinking, output_config) = openai_reasoning_to_anthropic(effort, req.reasoning.as_ref());
    let tools = convert_openai_tools(&req.tools);
    let force_web_search_loop = any_web_search(&tools);
    let asked: i32 = match req.max_completion_tokens {
        Some(n) => n,
        None => match req.max_tokens {
            Some(n) => n,
            None => 32000,
        },
    };
    let anthropic = MessagesRequest {
        model,
        max_tokens: if asked >= 1 {
            asked
        } else {
            1
        },
        messages,
        stream: req.stream,
        system,
        tools,
        tool_choice: convert_tool_choice(req.tool_choice.as_ref()),
        thinking,
        output_config,
        metadata,
        force_web_search_loop,
    };
    proof {
        let want = converted(*req, id_views(fresh@), family@);
        match &anthropic.tools {
            Some(list) => {
                assert(tool_views(list@).len() == list@.len());
            },
            None => {
                assert(!has_web_search(tools_for_model(offered_views(req.tools@))));
            },
        }
        assert(anthropic@.tools == want.tools);
        assert(anthropic@.system == want.system);
    }
    Ok(ConvertedOpenAIRequest { anthropic, openai_messages: copy_messages(&req.messages) })
}

/// The identifier of a call: a prefix and the digits of a UUID.
pub open spec fn is_call_id(t: Seq<char>) -> bool {
    exists|digits: Seq<char>| #[trigger] is_simple_uuid(digits) && t == "call_"@ + digits
}

/// Draws an identifier for every call of a function that has none; the places of
/// the others stay empty.
fn draw_call_ids(messages: &Vec<OpenAIMessage>) -> (r: Vec<Vec<String>>)
    ensures
        ids_fit(messages@, r@),
        forall|i: int, j: int|
            0 <= i < r@.len() && 0 <= j < r@[i]@.len() && messages@[i].tool_calls@[j].id is None
                ==> is_call_id((#[trigger] r@[i]@[j])@),
{
    let mut out: Vec<Vec<String>> = Vec::new();
    let mut i: usize = 0;
    while i < messages.len()
        invariant
            i <= messages@.len(),
            out@.len() == i,
            forall|k: int|
                0 <= k < i ==> (#[trigger] out@[k])@.len() == messages@[k].tool_calls@.len(),
            forall|k: int, j: int|
                0 <= k < i && 0 <= j < out@[k]@.len() && messages@[k].tool_calls@[j].id is None
                    ==> is_call_id((#[trigger] out@[k]@[j])@),
        decreases messages@.len() - i,
    {
        let calls = &messages[i].tool_calls;
        let mut ids: Vec<String> = Vec::new();
        let mut j: usize = 0;
        while j < calls.len()
            invariant
                j <= calls@.len(),
                ids@.len() == j,
                forall|k: int|
                    0 <= k < j && calls@[k].id is None ==> is_call_id((#[trigger] ids@[k])@),
            decreases calls@.len() - j,
        {
            if calls[j].id.is_none() {
                ids.push(fresh_id("call_"));
            } else {
                ids.push(String::new());
            }
            j += 1;
        }
        out.push(ids);
        i += 1;
    }
    out
}

/// The identifiers in `fresh` stand for the missing ones of the calls.
pub open spec fn fills_ids(messages: Seq<ChatMessageView>, fresh: Seq<Seq<Seq<char>>>) -> bool {
    &&& fresh.len() == messages.len()
    &&& forall|i: int|
        0 <= i < fresh.len() ==> (#[trigger] fresh[i]).len() == messages[i].tool_calls.len()
    &&& forall|i: int, j: int|
        0 <= i < fresh.len() && 0 <= j < fresh[i].len() && messages[i].tool_calls[j].id is None
            ==> is_call_id(#[trigger] fresh[i][j])
}

/// Converts a request. A call that has no identifier gets a fresh one.
pub fn chat_to_anthropic(
    req: &ChatCompletionRequest,
    metadata: Option<Metadata>,
    family: &str,
) -> (r: Result<ConvertedOpenAIRequest, OpenAIConversionError>)
    ensures
        exists|fresh: Seq<Seq<Seq<char>>>| #[trigger]
            fills_ids(chat_views(req.messages@), fresh) && conversion(
                *req,
                metadata,
                fresh,
                family@,
                r,
            ),
{
    let fresh = draw_call_ids(&req.messages);
    proof {
        let ids = id_views(fresh@);
        let list = chat_views(req.messages@);
        assert forall|i: int, j: int|
            0 <= i < ids.len() && 0 <= j < ids[i].len() && list[i].tool_calls[j].id
                is None implies is_call_id(#[trigger] ids[i][j]) by {
            assert(ids[i][j] == fresh@[i]@[j]@);
            assert(list[i].tool_calls[j] == req.messages@[i].tool_calls@[j]@);
        }
        assert(fills_ids(list, ids));
    }
    chat_to_anthropic_with(req, metadata, &fresh, family)
}

/// Two messages that each do nothing but call tools.
pub open spec fn mergeable(a: ChatMessageView, b: ChatMessageView) -> bool {
    &&& a.role == "assistant"@ && b.role == "assistant"@
    &&& a.tool_calls.len() > 0 && b.tool_calls.len() > 0
    &&& is_blank(message_text(a)) && is_blank(message_text(b))
}

/// A conversation with one more message. One that does nothing but call tools is
/// merged with another such one before it.
pub open spec fn with_message(list: Seq<ChatMessageView>, m: ChatMessageView) -> Seq<
    ChatMessageView,
> {
    if list.len() > 0 && mergeable(list.last(), m) {
        list.update(
            list.len() - 1,
            ChatMessageView { tool_calls: list.last().tool_calls + m.tool_calls, ..list.last() },
        )
    } else {
        list.push(m)
    }
}

/// A conversation with more messages.
pub open spec fn with_messages(list: Seq<ChatMessageView>, more: Seq<ChatMessageView>) -> Seq<
    ChatMessageView,
>
    decreases more.len(),
{
    if more.len() == 0 {
        list
    } else {
        with_message(with_messages(list, more.drop_last()), more.last())
    }
}

fn text_of(m: &OpenAIMessage) -> (r: String)
    ensures
        r@ == message_text(m@),
{
    match &m.content {
        Some(j) => content_to_text(j),
        None => String::new(),
    }
}

fn can_merge(a: &OpenAIMessage, b: &OpenAIMessage) -> (r: bool)
    ensures
        r == mergeable(a@, b@),
{
    assert(call_views(a.tool_calls@).len() == a.tool_calls@.len());
    assert(call_views(b.tool_calls@).len() == b.tool_calls@.len());
    str_eq(a.role.as_str(), "assistant") && a.tool_calls.len() > 0 && str_eq(
        b.role.as_str(),
        "assistant",
    ) && b.tool_calls.len() > 0 && is_blank_str(text_of(a).as_str()) && is_blank_str(
        text_of(b).as_str(),
    )
}

/// A conversation with more messages.
pub fn append_openai_messages(out: Vec<OpenAIMessage>, messages: Vec<OpenAIMessage>) -> (r: Vec<
    OpenAIMessage,
>)
    ensures
        chat_views(r@) == with_messages(chat_views(out@), chat_views(messages@)),
{
    let mut out = out;
    let ghost start = chat_views(out@);
    let ghost more = chat_views(messages@);
    let mut i: usize = 0;
    assert(more.take(0) =~= Seq::<ChatMessageView>::empty());
    while i < messages.len()
        invariant
            i <= messages@.len(),
            more == chat_views(messages@),
            chat_views(out@) == with_messages(start, more.take(i as int)),
        decreases messages@.len() - i,
    {
        let msg = &messages[i];
        let ghost before = out@;
        proof {
            assert(more.take(i + 1).drop_last() =~= more.take(i as int));
            assert(more.take(i + 1).last() == msg@);
            assert(chat_views(out@).len() == out@.len());
        }
        let merge = out.len() > 0 && can_merge(&out[out.len() - 1], msg);
        if merge {
            match out.pop() {
                Some(last) => {
                    let mut last = last;
                    let ghost was = last@;
                    let ghost had = last.tool_calls@;
                    let mut calls = copy_calls(&msg.tool_calls);
                    last.tool_calls.append(&mut calls);
                    proof {
                        assert(call_views(last.tool_calls@) =~= call_views(had) + call_views(
                            msg.tool_calls@,
                        ));
                        assert(before.last()@ == was);
                    }
                    out.push(last);
                    assert(chat_views(out@) =~= with_message(chat_views(before), msg@));
                },
                None => {},
            }
        } else {
            out.push(msg.clone());
            assert(chat_views(out@) =~= chat_views(before).push(msg@));
        }
        i += 1;
    }
    assert(more.take(more.len() as int) =~= more);
    out
}

/// What a response of the message interface says.
#[derive(Debug, PartialEq, Eq)]
pub struct AssistantParts {
    pub text: String,
    pub reasoning: String,
    pub tool_calls: Vec<OpenAIToolCall>,
    pub stop_reason: String,
    pub input_tokens: i64,
    pub output_tokens: i64,
    pub cache_read_tokens: i64,
    pub cache_creation_tokens: i64,
    pub model: String,
    /// The bits of the cost, if the service told it.
    pub credit_usage: Option<u64>,
    pub credit_unit: Option<String>,
    pub credit_unit_plural: Option<String>,
}

/// What a response of the message interface says.
pub struct PartsView {
    pub text: Seq<char>,
    pub reasoning: Seq<char>,
    pub tool_calls: Seq<ToolCallView>,
    pub stop_reason: Seq<char>,
    pub input_tokens: i64,
    pub output_tokens: i64,
    pub cache_read_tokens: i64,
    pub cache_creation_tokens: i64,
    pub model: Seq<char>,
    pub credit: CreditView,
}

impl AssistantParts {
    pub open spec fn view(&self) -> PartsView {
        PartsView {
            text: self.text@,
            reasoning: self.reasoning@,
            tool_calls: call_views(self.tool_calls@),
            stop_reason: self.stop_reason@,
            input_tokens: self.input_tokens,
            output_tokens: self.output_tokens,
            cache_read_tokens: self.cache_read_tokens,
            cache_creation_tokens: self.cache_creation_tokens,
            model: self.model@,
            credit: CreditView {
                usage: self.credit_usage,
                unit: opt_view(self.credit_unit),
                unit_plural: opt_view(self.credit_unit_plural),
            },
        }
    }
}

/// The call of a tool in a response; no input is an empty object.
pub open spec fn call_in_block(block: JsonView) -> ToolCallView {
    ToolCallView {
        id: Some(member_text(block, "id"@)),
        tool_type: "function"@,
        name: member_text(block, "name"@),
        arguments: json_text(
            match block.get("input"@) {
                Some(j) => j,
                None => JsonView::object(),
            },
        ),
    }
}

/// The calls of tools in a response.
pub open spec fn calls_in_blocks(blocks: Seq<JsonView>) -> Seq<ToolCallView>
    decreases blocks.len(),
{
    if blocks.len() == 0 {
        Seq::empty()
    } else if is_block(blocks.last(), "tool_use"@) {
        calls_in_blocks(blocks.drop_last()).push(call_in_block(blocks.last()))
    } else {
        calls_in_blocks(blocks.drop_last())
    }
}

/// What a response says.
pub open spec fn parts_of(response: JsonView, family: Seq<char>) -> PartsView {
    let blocks = blocks_of(response);
    let usage = response.get("usage"@);
    PartsView {
        text: blocks_text(blocks, "text"@, "text"@),
        reasoning: blocks_text(blocks, "thinking"@, "thinking"@),
        tool_calls: calls_in_blocks(blocks),
        stop_reason: match response.get_str("stop_reason"@) {
            Some(t) => t,
            None => "end_turn"@,
        },
        input_tokens: tokens(usage, "input_tokens"@),
        output_tokens: tokens(usage, "output_tokens"@),
        cache_read_tokens: tokens(usage, "cache_read_input_tokens"@),
        cache_creation_tokens: tokens(usage, "cache_creation_input_tokens"@),
        model: match response.get_str("model"@) {
            Some(t) => t,
            None => default_model(family),
        },
        credit: credit_of(usage),
    }
}

fn collect_calls(blocks: &Vec<Json>) -> (r: Vec<OpenAIToolCall>)
    ensures
        call_views(r@) == calls_in_blocks(array_view(blocks@)),
{
    let mut out: Vec<OpenAIToolCall> = Vec::new();
    let mut i: usize = 0;
    let ghost all = array_view(blocks@);
    assert(all.take(0) =~= Seq::<JsonView>::empty());
    assert(call_views(out@) =~= Seq::<ToolCallView>::empty());
    while i < blocks.len()
        invariant
            i <= blocks@.len(),
            all == array_view(blocks@),
            call_views(out@) == calls_in_blocks(all.take(i as int)),
        decreases blocks@.len() - i,
    {
        let block = &blocks[i];
        proof {
            assert(all.take(i + 1).drop_last() =~= all.take(i as int));
            assert(all.take(i + 1).last() == block@);
        }
        if block_is(block, "tool_use") {
            let arguments = match block.get("input") {
                Some(j) => j.to_text(),
                None => Json::object().to_text(),
            };
            let ghost before = out@;
            out.push(
                OpenAIToolCall {
                    id: Some(text_member(block, "id")),
                    tool_type: "function".to_owned(),
                    function: OpenAIFunctionCall { name: text_member(block, "name"), arguments },
                },
            );
            assert(call_views(out@) =~= call_views(before).push(out@.last()@));
        }
        i += 1;
    }
    assert(all.take(all.len() as int) =~= all);
    out
}

/// What a response says.
pub fn assistant_parts_from_anthropic(value: &Json, family: &str) -> (r: AssistantParts)
    ensures
        r@ == parts_of(value@, family@),
{
    let none: Vec<Json> = Vec::new();
    assert(array_view(none@) =~= Seq::<JsonView>::empty());
    let blocks = match value.get("content") {
        Some(content) => match content.as_array() {
            Some(items) => items,
            None => &none,
        },
        None => &none,
    };
    let usage = value.get("usage");
    let credit = read_credit(usage);
    AssistantParts {
        text: collect_blocks_text(blocks, "text", "text"),
        reasoning: collect_blocks_text(blocks, "thinking", "thinking"),
        tool_calls: collect_calls(blocks),
        stop_reason: match value.get_str("stop_reason") {
            Some(t) => t.to_owned(),
            None => "end_turn".to_owned(),
        },
        input_tokens: read_tokens(usage, "input_tokens"),
        output_tokens: read_tokens(usage, "output_tokens"),
        cache_read_tokens: read_tokens(usage, "cache_read_input_tokens"),
        cache_creation_tokens: read_tokens(usage, "cache_creation_input_tokens"),
        model: match value.get_str("model") {
            Some(t) => t.to_owned(),
            None => family_model(family, DEFAULT_OPENAI_COMPAT_MODEL),
        },
        credit_usage: credit.usage,
        credit_unit: credit.unit,
        credit_unit_plural: credit.unit_plural,
    }
}

/// The reason that a response ended for, in the words of chat completions.
pub fn finish_reason_from_anthropic(stop_reason: &str, has_tool_calls: bool) -> (r: &'static str)
    ensures
        r@ == finish_reason(stop_reason@, has_tool_calls),
{
    map_finish_reason(stop_reason, has_tool_calls)
}

/// The call of a tool, as a document.
pub open spec fn call_json(c: ToolCallView) -> JsonView {
    let call = JsonView::object().with("type"@, JsonView::Text(c.tool_type)).with(
        "function"@,
        JsonView::object().with("name"@, JsonView::Text(c.name)).with(
            "arguments"@,
            JsonView::Text(c.arguments),
        ),
    );
    match c.id {
        Some(id) => call.with("id"@, JsonView::Text(id)),
        None => call,
    }
}

/// The calls of tools, as a document.
pub open spec fn calls_json(calls: Seq<ToolCallView>) -> JsonView {
    JsonView::Array(calls.map_values(|c: ToolCallView| call_json(c)))
}

fn call_document(c: &OpenAIToolCall) -> (r: Json)
    ensures
        r@ == call_json(c@),
{
    let call = Json::object().with("type", Json::text(c.tool_type.as_str())).with(
        "function",
        Json::object().with("name", Json::text(c.function.name.as_str())).with(
            "arguments",
            Json::text(c.function.arguments.as_str()),
        ),
    );
    match &c.id {
        Some(id) => call.with("id", Json::text(id.as_str())),
        None => call,
    }
}

fn calls_document(calls: &Vec<OpenAIToolCall>) -> (r: Json)
    ensures
        r@ == calls_json(call_views(calls@)),
{
    let mut out: Vec<Json> = Vec::new();
    let mut i: usize = 0;
    while i < calls.len()
        invariant
            i <= calls@.len(),
            out@.len() == i,
            forall|k: int| 0 <= k < i ==> (#[trigger] out@[k])@ == call_json(calls@[k]@),
        decreases calls@.len() - i,
    {
        out.push(call_document(&calls[i]));
        i += 1;
    }
    assert(array_view(out@) =~= call_views(calls@).map_values(|c: ToolCallView| call_json(c)));
    Json::Array(out)
}

/// The message of a response: its content is null where it only calls tools.
pub open spec fn message_json(text: Seq<char>, reasoning: Seq<char>, calls: JsonView) -> JsonView {
    let called = calls matches JsonView::Array(list) && list.len() > 0;
    let plain = JsonView::object().with("role"@, JsonView::Text("assistant"@)).with(
        "content"@,
        if text.len() == 0 && called {
            JsonView::Null
        } else {
            JsonView::Text(text)
        },
    );
    let reasoned = if reasoning.len() > 0 {
        plain.with("reasoning_content"@, JsonView::Text(reasoning))
    } else {
        plain
    };
    if called {
        reasoned.with("tool_calls"@, calls)
    } else {
        reasoned
    }
}

/// The message of a response; `calls` is a list.
pub fn make_message(text: &str, reasoning: &str, calls: Vec<Json>) -> (r: Json)
    ensures
        r@ == message_json(text@, reasoning@, JsonView::Array(array_view(calls@))),
{
    assert(array_view(calls@).len() == calls@.len());
    let content = if text.is_empty() && calls.len() > 0 {
        Json::Null
    } else {
        Json::text(text)
    };
    let mut message = Json::object().with("role", Json::text("assistant")).with(
        "content",
        content,
    );
    if !reasoning.is_empty() {
        message = message.with("reasoning_content", Json::text(reasoning));
    }
    if calls.len() > 0 {
        message = message.with("tool_calls", Json::Array(calls));
    }
    message
}

/// The message of a response.
pub fn chat_message_from_parts(parts: &AssistantParts) -> (r: Json)
    ensures
        r@ == message_json(parts@.text, parts@.reasoning, calls_json(parts@.tool_calls)),
{
    let calls = match calls_document(&parts.tool_calls) {
        Json::Array(list) => list,
        _ => Vec::new(),
    };
    make_message(parts.text.as_str(), parts.reasoning.as_str(), calls)
}

/// The tokens of a prompt: fresh ones, and those written to and read from the
/// cache.
pub open spec fn prompt_total(parts: PartsView) -> int {
    parts.input_tokens + parts.cache_creation_tokens + parts.cache_read_tokens
}

pub open spec fn in_i64(n: int) -> bool {
    i64::MIN <= n <= i64::MAX
}

/// The sums that a usage report is made of can be formed.
pub open spec fn countable(parts: PartsView) -> bool {
    &&& in_i64(parts.input_tokens + parts.cache_creation_tokens)
    &&& in_i64(prompt_total(parts))
    &&& in_i64(prompt_total(parts) + parts.output_tokens)
}

/// The usage report of a response.
pub fn usage_json(parts: &AssistantParts) -> (r: Json)
    requires
        countable(parts@),
    ensures
        r@ == usage_report(
            prompt_total(parts@),
            parts@.output_tokens as int,
            parts@.cache_read_tokens as int,
            parts@.credit,
        ),
{
    let prompt: i64 = parts.input_tokens + parts.cache_creation_tokens + parts.cache_read_tokens;
    make_usage_report(
        prompt,
        parts.output_tokens,
        parts.cache_read_tokens,
        parts.credit_usage,
        &parts.credit_unit,
        &parts.credit_unit_plural,
    )
}

/// Tests whether the sums that a usage report is made of can be formed.
pub fn is_countable(parts: &AssistantParts) -> (r: bool)
    ensures
        r == countable(parts@),
{
    match parts.input_tokens.checked_add(parts.cache_creation_tokens) {
        Some(a) => match a.checked_add(parts.cache_read_tokens) {
            Some(b) => b.checked_add(parts.output_tokens).is_some(),
            None => false,
        },
        None => false,
    }
}

/// An error, as it is told to the client.
pub open spec fn error_json(message: Seq<char>, error_type: Seq<char>) -> JsonView {
    JsonView::object().with(
        "error"@,
        JsonView::object().with("message"@, JsonView::Text(message)).with(
            "type"@,
            JsonView::Text(error_type),
        ),
    )
}

/// An error, as it is told to the client.
pub fn openai_error(message: &str, error_type: &str) -> (r: Json)
    ensures
        r@ == error_json(message@, error_type@),
{
    Json::object().with(
        "error",
        Json::object().with("message", Json::text(message)).with("type", Json::text(error_type)),
    )
}

/// The message of a response, as it goes into the history of a conversation.
pub fn assistant_message_for_history(parts: &AssistantParts) -> (r: OpenAIMessage)
    ensures
        r@ == (ChatMessageView {
            role: "assistant"@,
            content: Some(JsonView::Text(parts@.text)),
            tool_calls: parts@.tool_calls,
            tool_call_id: None,
            name: None,
        }),
{
    OpenAIMessage {
        role: "assistant".to_owned(),
        content: Some(Json::text(parts.text.as_str())),
        tool_calls: copy_calls(&parts.tool_calls),
        tool_call_id: None,
        name: None,
    }
}

} // verus!
