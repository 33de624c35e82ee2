//! What a converted response keeps of the response that it was made of.

use vstd::prelude::*;

use crate::ids::parsed_uuid;
use crate::json::{float_bits, json_parse, json_text, JsonView};
use crate::openai::blocks::{blocks_of, blocks_text, credit_of, usage_report};
use crate::openai::handlers::{completion_json, completion_of, Completion};
use crate::openai::parse::{
    candidate_uuid, error_told, event_in, first_some, parsed_calls, parsed_response, plain_texts,
    searches_in, session_user, with_turn, ParsedResponse, TurnView,
};
use crate::openai::request_laws::is_call_block;
use crate::openai::types::{
    call_blocks, calls_in_blocks, countable, error_json, mergeable, parts_of, with_message,
    AssistantParts, ChatMessageView, ToolCallView,
};
use crate::text::{is_blank, opt_view};

verus! {

broadcast use vstd::string::group_string_axioms;

/// The words are told apart by their lengths, or by a letter.
proof fn lemma_keys_differ()
    ensures
        "id"@.len() == 2,
        "object"@.len() == 6,
        "created"@.len() == 7,
        "model"@.len() == 5,
        "choices"@.len() == 7,
        "usage"@.len() == 5,
        "index"@.len() == 5,
        "message"@.len() == 7,
        "logprobs"@.len() == 8,
        "finish_reason"@.len() == 13,
        "role"@.len() == 4,
        "content"@.len() == 7,
        "reasoning_content"@.len() == 17,
        "tool_calls"@.len() == 10,
        "type"@.len() == 4,
        "function"@.len() == 8,
        "name"@.len() == 4,
        "arguments"@.len() == 9,
        "error"@.len() == 5,
        "created"@ != "choices"@,
        "created"@ != "message"@,
        "created"@ != "content"@,
        "model"@ != "usage"@,
        "model"@ != "index"@,
        "model"@ != "error"@,
        "choices"@ != "message"@,
        "choices"@ != "content"@,
        "usage"@ != "index"@,
        "usage"@ != "error"@,
        "index"@ != "error"@,
        "message"@ != "content"@,
        "logprobs"@ != "function"@,
        "role"@ != "type"@,
        "role"@ != "name"@,
        "type"@ != "name"@,
{
    reveal_strlit("id");
    reveal_strlit("object");
    reveal_strlit("created");
    reveal_strlit("model");
    reveal_strlit("choices");
    reveal_strlit("usage");
    reveal_strlit("index");
    reveal_strlit("message");
    reveal_strlit("logprobs");
    reveal_strlit("finish_reason");
    reveal_strlit("role");
    reveal_strlit("content");
    reveal_strlit("reasoning_content");
    reveal_strlit("tool_calls");
    reveal_strlit("type");
    reveal_strlit("function");
    reveal_strlit("name");
    reveal_strlit("arguments");
    reveal_strlit("error");
    assert("created"@[1] != "choices"@[1]);
    assert("created"@[0] != "message"@[0]);
    assert("created"@[1] != "content"@[1]);
    assert("model"@[0] != "usage"@[0]);
    assert("model"@[0] != "index"@[0]);
    assert("model"@[0] != "error"@[0]);
    assert("choices"@[0] != "message"@[0]);
    assert("choices"@[1] != "content"@[1]);
    assert("usage"@[0] != "index"@[0]);
    assert("usage"@[0] != "error"@[0]);
    assert("index"@[0] != "error"@[0]);
    assert("message"@[0] != "content"@[0]);
    assert("logprobs"@[0] != "function"@[0]);
    assert("role"@[0] != "type"@[0]);
    assert("role"@[0] != "name"@[0]);
    assert("type"@[0] != "name"@[0]);
}

/// The words are told apart by their lengths, or by a letter.
proof fn lemma_kinds_differ()
    ensures
        "text"@.len() == 4,
        "thinking"@.len() == 8,
        "tool_use"@.len() == 8,
        "thinking"@ != "tool_use"@,
{
    reveal_strlit("text");
    reveal_strlit("thinking");
    reveal_strlit("tool_use");
    assert("thinking"@[1] != "tool_use"@[1]);
}

/// The words are told apart by their lengths, or by a letter.
proof fn lemma_reasons_differ()
    ensures
        "tool_use"@.len() == 8,
        "max_tokens"@.len() == 10,
        "model_context_window_exceeded"@.len() == 29,
        "end_turn"@.len() == 8,
        "tool_use"@ != "end_turn"@,
{
    reveal_strlit("tool_use");
    reveal_strlit("max_tokens");
    reveal_strlit("model_context_window_exceeded");
    reveal_strlit("end_turn");
    assert("tool_use"@[0] != "end_turn"@[0]);
}

/// The words are told apart by their lengths, or by a letter.
proof fn lemma_usage_keys_differ()
    ensures
        "prompt_tokens"@.len() == 13,
        "completion_tokens"@.len() == 17,
        "total_tokens"@.len() == 12,
        "prompt_tokens_details"@.len() == 21,
        "completion_tokens_details"@.len() == 25,
        "credit_usage"@.len() == 12,
        "credit_unit"@.len() == 11,
        "credit_unit_plural"@.len() == 18,
        "total_tokens"@ != "credit_usage"@,
{
    reveal_strlit("prompt_tokens");
    reveal_strlit("completion_tokens");
    reveal_strlit("total_tokens");
    reveal_strlit("prompt_tokens_details");
    reveal_strlit("completion_tokens_details");
    reveal_strlit("credit_usage");
    reveal_strlit("credit_unit");
    reveal_strlit("credit_unit_plural");
    assert("total_tokens"@[0] != "credit_usage"@[0]);
}

/// The blocks of a kind, in their order.
pub open spec fn of_kind(blocks: Seq<JsonView>, kind: Seq<char>) -> Seq<JsonView> {
    blocks.filter(|b: JsonView| b.get_str("type"@) == Some(kind))
}

/// The text of a member, and an empty one where there is none.
pub open spec fn text_under(j: JsonView, key: Seq<char>) -> Seq<char> {
    match j.get_str(key) {
        Some(t) => t,
        None => Seq::empty(),
    }
}

/// The first choice of a completion.
pub open spec fn first_choice(c: JsonView) -> JsonView {
    match c.get("choices"@) {
        Some(JsonView::Array(list)) => if list.len() > 0 {
            list[0]
        } else {
            JsonView::Null
        },
        _ => JsonView::Null,
    }
}

/// The message of a completion.
pub open spec fn message_of(c: JsonView) -> JsonView {
    match first_choice(c).get("message"@) {
        Some(m) => m,
        None => JsonView::Null,
    }
}

/// The calls of a completion.
pub open spec fn calls_of(c: JsonView) -> Seq<JsonView> {
    match message_of(c).get("tool_calls"@) {
        Some(JsonView::Array(list)) => list,
        _ => Seq::empty(),
    }
}

/// The document tells of the call that a block makes: with its identifier, its name
/// and its input.
pub open spec fn tells_call(call: JsonView, block: JsonView) -> bool {
    &&& call.get_str("type"@) == Some("function"@)
    &&& call.get_str("id"@) == Some(text_under(block, "id"@))
    &&& call.get2_str("function"@, "name"@) == Some(text_under(block, "name"@))
    &&& block.get("input"@) matches Some(input) ==> call.get2_str("function"@, "arguments"@)
        == Some(json_text(input))
}

/// A call without an input has an empty object for its arguments.
pub proof fn a_call_without_input_has_no_arguments(block: JsonView)
    requires
        block.get("input"@) is None,
    ensures
        crate::openai::types::call_in_block(block).arguments == json_text(JsonView::object()),
        crate::openai::parse::parsed_call(block).get2_str("function"@, "arguments"@) == Some("{}"@),
{
    lemma_keys_differ();
}

/// A call is written with the identifier that it has, and without one where it has
/// none.
pub proof fn a_call_is_written_as_it_is(c: ToolCallView, calls: Seq<ToolCallView>, k: int)
    ensures
        ({
            let j = crate::openai::types::call_json(c);
            &&& c.id matches Some(id) ==> j.get_str("id"@) == Some(id)
            &&& c.id is None ==> j.get("id"@) is None
            &&& j.get_str("type"@) == Some(c.tool_type)
            &&& j.get2_str("function"@, "name"@) == Some(c.name)
            &&& j.get2_str("function"@, "arguments"@) == Some(c.arguments)
        }),
        crate::openai::types::calls_json(calls) matches JsonView::Array(list) && list.len()
            == calls.len() && (0 <= k < calls.len() ==> list[k] == crate::openai::types::call_json(
            calls[k],
        )),
{
    lemma_keys_differ();
}

/// What a response says is seen as it is.
pub proof fn a_read_response_is_seen_as_it_is(p: ParsedResponse, a: AssistantParts, i: int)
    ensures
        p@.model == p.model@,
        p@.text == p.text@,
        p@.finish_reason == p.finish_reason@,
        p@.prompt_tokens == p.prompt_tokens,
        p@.cached_tokens == p.cached_tokens,
        p@.completion_tokens == p.completion_tokens,
        p@.thinking == p.thinking@,
        p@.tool_calls.len() == p.tool_calls@.len(),
        0 <= i < p.tool_calls@.len() ==> p@.tool_calls[i] == p.tool_calls@[i]@,
        p@.web_searches.len() == p.web_searches@.len(),
        0 <= i < p.web_searches@.len() ==> p@.web_searches[i].0 == p.web_searches@[i].0@
            && p@.web_searches[i].1 == p.web_searches@[i].1@,
        p@.credit.usage == p.credit_usage,
        p@.credit.unit == opt_view(p.credit_unit),
        p@.credit.unit_plural == opt_view(p.credit_unit_plural),
        a@.text == a.text@,
        a@.reasoning == a.reasoning@,
        a@.stop_reason == a.stop_reason@,
        a@.model == a.model@,
        a@.input_tokens == a.input_tokens,
        a@.output_tokens == a.output_tokens,
        a@.cache_read_tokens == a.cache_read_tokens,
        a@.cache_creation_tokens == a.cache_creation_tokens,
        a@.tool_calls.len() == a.tool_calls@.len(),
        0 <= i < a.tool_calls@.len() ==> a@.tool_calls[i] == a.tool_calls@[i]@,
        a@.credit.usage == a.credit_usage,
        a@.credit.unit == opt_view(a.credit_unit),
        a@.credit.unit_plural == opt_view(a.credit_unit_plural),
{
}

/// The message of a response has its text, its thinking and its calls.
pub proof fn a_message_has_its_parts(text: Seq<char>, reasoning: Seq<char>, list: Seq<JsonView>)
    ensures
        ({
            let m = crate::openai::types::message_json(text, reasoning, JsonView::Array(list));
            &&& m.get_str("role"@) == Some("assistant"@)
            &&& text.len() > 0 || list.len() == 0 ==> m.get_str("content"@) == Some(text)
            &&& text.len() == 0 && list.len() > 0 ==> m.get("content"@) == Some(JsonView::Null)
            &&& reasoning.len() > 0 ==> m.get_str("reasoning_content"@) == Some(reasoning)
            &&& reasoning.len() == 0 ==> m.get("reasoning_content"@) is None
            &&& list.len() > 0 ==> m.get("tool_calls"@) == Some(JsonView::Array(list))
            &&& list.len() == 0 ==> m.get("tool_calls"@) is None
        }),
{
    lemma_keys_differ();
}

/// The parts of a response are read from the members that hold them.
pub proof fn parts_are_read_from_their_members(response: JsonView, family: Seq<char>)
    ensures
        ({
            let p = parts_of(response, family);
            let usage = response.get("usage"@);
            &&& response.get_str("stop_reason"@) matches Some(t) ==> p.stop_reason == t
            &&& response.get_str("stop_reason"@) is None ==> p.stop_reason == "end_turn"@
            &&& response.get_str("model"@) matches Some(t) ==> p.model == t
            &&& p.input_tokens == tokens_told(usage, "input_tokens"@)
            &&& p.output_tokens == tokens_told(usage, "output_tokens"@)
            &&& p.cache_read_tokens == tokens_told(usage, "cache_read_input_tokens"@)
            &&& p.cache_creation_tokens == tokens_told(usage, "cache_creation_input_tokens"@)
        }),
{
}

/// The content of a response, block by block.
pub open spec fn has_blocks(response: JsonView, blocks: Seq<JsonView>) -> bool {
    response.get("content"@) == Some(JsonView::Array(blocks))
}

proof fn lemma_calls_of_blocks(blocks: Seq<JsonView>)
    ensures
        ({
            let used = of_kind(blocks, "tool_use"@);
            let calls = calls_in_blocks(blocks);
            &&& calls.len() == used.len()
            &&& forall|k: int|
                0 <= k < used.len() ==> (#[trigger] calls[k]).id == Some(
                    text_under(used[k], "id"@),
                ) && calls[k].name == text_under(used[k], "name"@) && calls[k].tool_type
                    == "function"@ && calls[k].arguments == json_text(
                    match used[k].get("input"@) {
                        Some(j) => j,
                        None => JsonView::object(),
                    },
                )
        }),
    decreases blocks.len(),
{
    reveal(Seq::filter);
    if blocks.len() > 0 {
        lemma_calls_of_blocks(blocks.drop_last());
    }
}

/// Each block of a response that calls a tool is a call of the completion, with the
/// identifier, the name and the input of the block, in the order of the blocks; and
/// there are no other calls.
pub proof fn every_call_is_told(
    response: JsonView,
    blocks: Seq<JsonView>,
    family: Seq<char>,
    id: Seq<char>,
    created: i64,
)
    requires
        has_blocks(response, blocks),
    ensures
        ({
            let used = of_kind(blocks, "tool_use"@);
            let calls = calls_of(completion_json(response, family, id, created));
            &&& calls.len() == used.len()
            &&& forall|k: int| 0 <= k < used.len() ==> tells_call(#[trigger] calls[k], used[k])
        }),
{
    lemma_keys_differ();
    lemma_calls_of_blocks(blocks);
    let used = of_kind(blocks, "tool_use"@);
    let c = completion_json(response, family, id, created);
    let views = calls_in_blocks(blocks);
    let calls = calls_of(c);
    if used.len() > 0 {
        assert(calls =~= views.map_values(
            |c: ToolCallView| crate::openai::types::call_json(c),
        ));
        assert forall|k: int| 0 <= k < used.len() implies tells_call(
            #[trigger] calls[k],
            used[k],
        ) by {
            assert(calls[k] == crate::openai::types::call_json(views[k]));
        }
    }
}

/// The calls of a response, taken back as the turn of the assistant that made them,
/// are the blocks that they came from: with the same identifier, name and input,
/// where the input reads back from its text.
pub proof fn calls_go_there_and_back(blocks: Seq<JsonView>, fresh: Seq<Seq<char>>, k: int)
    requires
        0 <= k < of_kind(blocks, "tool_use"@).len(),
        forall|i: int|
            0 <= i < of_kind(blocks, "tool_use"@).len() ==> (#[trigger] of_kind(
                blocks,
                "tool_use"@,
            )[i]).get("input"@) is Some,
        of_kind(blocks, "tool_use"@)[k].get("input"@) matches Some(input) && json_parse(
            json_text(input),
        ) == Ok::<JsonView, Seq<char>>(input) && !is_blank(json_text(input)),
    ensures
        ({
            let block = of_kind(blocks, "tool_use"@)[k];
            let back = call_blocks(calls_in_blocks(blocks), fresh);
            &&& back.len() == of_kind(blocks, "tool_use"@).len()
            &&& is_call_block(
                back[k],
                text_under(block, "id"@),
                text_under(block, "name"@),
                block.get("input"@)->0,
            )
        }),
{
    lemma_calls_of_blocks(blocks);
    let calls = calls_in_blocks(blocks);
    lemma_back(calls, fresh, k);
}

proof fn lemma_back(calls: Seq<ToolCallView>, fresh: Seq<Seq<char>>, k: int)
    requires
        0 <= k < calls.len(),
        forall|i: int|
            0 <= i < calls.len() ==> (#[trigger] calls[i]).tool_type == "function"@ && calls[i].id
                is Some,
    ensures
        call_blocks(calls, fresh).len() == calls.len(),
        is_call_block(
            call_blocks(calls, fresh)[k],
            calls[k].id->0,
            calls[k].name,
            crate::openai::types::arguments_json(
                calls[k].arguments,
                crate::openai::types::document(calls[k].arguments),
            ),
        ),
    decreases calls.len(),
{
    let front = calls.drop_last();
    let c = calls.last();
    assert(front.push(c) =~= calls);
    assert(c == calls[calls.len() - 1]);
    crate::openai::request_laws::a_call_is_one_more_block(front, c, fresh);
    assert forall|i: int| 0 <= i < front.len() implies (#[trigger] front[i]).tool_type
        == "function"@ && front[i].id is Some by {
        assert(front[i] == calls[i]);
    }
    if k < front.len() {
        lemma_back(front, fresh, k);
        assert(call_blocks(calls, fresh).drop_last()[k] == call_blocks(front, fresh)[k]);
        assert(front[k] == calls[k]);
    } else if front.len() > 0 {
        lemma_back(front, fresh, 0);
    }
}

/// The text of a completion; null counts as none.
pub open spec fn text_told(c: JsonView) -> Seq<char> {
    text_under(message_of(c), "content"@)
}

/// The thinking of a completion.
pub open spec fn thinking_told(c: JsonView) -> Seq<char> {
    text_under(message_of(c), "reasoning_content"@)
}

/// A text block more is its text more in the completion, at the end, and a block of
/// thinking its thinking. Neither adds to the other, and no other block adds to
/// either.
pub proof fn texts_are_told_whole(
    response: JsonView,
    longer: JsonView,
    blocks: Seq<JsonView>,
    b: JsonView,
    family: Seq<char>,
    id: Seq<char>,
    created: i64,
)
    requires
        has_blocks(response, blocks),
        has_blocks(longer, blocks.push(b)),
    ensures
        ({
            let c = completion_json(response, family, id, created);
            let d = completion_json(longer, family, id, created);
            &&& text_told(d) == text_told(c) + (if b.get_str("type"@) == Some("text"@) {
                text_under(b, "text"@)
            } else {
                Seq::empty()
            })
            &&& thinking_told(d) == thinking_told(c) + (if b.get_str("type"@) == Some(
                "thinking"@,
            ) {
                text_under(b, "thinking"@)
            } else {
                Seq::empty()
            })
        }),
{
    lemma_keys_differ();
    lemma_kinds_differ();
    assert(blocks.push(b).drop_last() =~= blocks);
    let c = completion_json(response, family, id, created);
    let d = completion_json(longer, family, id, created);
    lemma_told(response, blocks, family, id, created);
    lemma_told(longer, blocks.push(b), family, id, created);
    let e = Seq::<char>::empty();
    assert(text_told(c) + e =~= text_told(c));
    assert(thinking_told(c) + e =~= thinking_told(c));
}

proof fn lemma_told(
    response: JsonView,
    blocks: Seq<JsonView>,
    family: Seq<char>,
    id: Seq<char>,
    created: i64,
)
    requires
        has_blocks(response, blocks),
    ensures
        text_told(completion_json(response, family, id, created)) == blocks_text(
            blocks,
            "text"@,
            "text"@,
        ),
        thinking_told(completion_json(response, family, id, created)) == blocks_text(
            blocks,
            "thinking"@,
            "thinking"@,
        ),
{
    lemma_keys_differ();
    let text = blocks_text(blocks, "text"@, "text"@);
    let thinking = blocks_text(blocks, "thinking"@, "thinking"@);
    if text.len() == 0 {
        assert(text =~= Seq::<char>::empty());
    }
    if thinking.len() == 0 {
        assert(thinking =~= Seq::<char>::empty());
    }
}

/// A response without blocks says nothing and calls nothing; its content is an empty
/// text. One that only calls tools has no content.
pub proof fn the_content_tells_whether_there_is_text(
    response: JsonView,
    blocks: Seq<JsonView>,
    family: Seq<char>,
    id: Seq<char>,
    created: i64,
)
    requires
        has_blocks(response, blocks),
    ensures
        ({
            let c = completion_json(response, family, id, created);
            &&& message_of(c).get_str("role"@) == Some("assistant"@)
            &&& blocks.len() == 0 ==> message_of(c).get("content"@) == Some(
                JsonView::Text(Seq::empty()),
            ) && calls_of(c).len() == 0 && message_of(c).get("reasoning_content"@) is None
            &&& message_of(c).get("content"@) == Some(JsonView::Null) <==> calls_of(c).len() > 0
                && text_told(c).len() == 0
            &&& message_of(c).get("tool_calls"@) is Some <==> calls_of(c).len() > 0
        }),
{
    lemma_keys_differ();
    every_call_is_told(response, blocks, family, id, created);
    lemma_calls_of_blocks(blocks);
    lemma_told(response, blocks, family, id, created);
    if blocks.len() == 0 {
        reveal(Seq::filter);
    }
}

/// A completion is told why it ended: cut off by a limit, to call a tool, or of
/// itself.
pub proof fn the_end_is_explained(
    response: JsonView,
    family: Seq<char>,
    id: Seq<char>,
    created: i64,
    t: Seq<char>,
)
    requires
        response.get_str("stop_reason"@) == Some(t) || response.get("stop_reason"@) is None && t
            == "end_turn"@,
    ensures
        ({
            let c = completion_json(response, family, id, created);
            let called = calls_of(c).len() > 0;
            first_choice(c).get_str("finish_reason"@) == Some(
                if t == "max_tokens"@ || t == "model_context_window_exceeded"@ {
                    "length"@
                } else if t == "tool_use"@ || called {
                    "tool_calls"@
                } else {
                    "stop"@
                },
            )
        }),
        ({
            let p = parsed_response(response, family);
            p.finish_reason == (if t == "max_tokens"@ || t == "model_context_window_exceeded"@ {
                "length"@
            } else if t == "tool_use"@ || p.tool_calls.len() > 0 {
                "tool_calls"@
            } else {
                "stop"@
            })
        }),
{
    lemma_keys_differ();
    lemma_reasons_differ();
    let blocks = blocks_of(response);
    if has_blocks(response, blocks) {
        every_call_is_told(response, blocks, family, id, created);
        lemma_calls_of_blocks(blocks);
    } else {
        assert(calls_in_blocks(blocks).len() == 0);
    }
}

/// A completion names itself, its time and the model that answered; without one it
/// names the default model.
pub proof fn a_completion_names_its_source(
    response: JsonView,
    family: Seq<char>,
    id: Seq<char>,
    created: i64,
)
    ensures
        ({
            let c = completion_json(response, family, id, created);
            &&& c.get_str("id"@) == Some(id)
            &&& c.get_str("object"@) == Some("chat.completion"@)
            &&& c.get_i64("created"@) == Some(created)
            &&& response.get_str("model"@) matches Some(m) ==> c.get_str("model"@) == Some(m)
            &&& response.get_str("model"@) is None ==> c.get_str("model"@) == Some(
                family + "-"@ + "sonnet-4.5"@,
            )
            &&& first_choice(c).get_i64("index"@) == Some(0i64)
        }),
{
    lemma_keys_differ();
}

/// The document is a usage report with these numbers.
pub open spec fn reports(u: JsonView, prompt: int, completion: int, cached: int) -> bool {
    &&& u.get("prompt_tokens"@) == Some(JsonView::Int(prompt))
    &&& u.get("completion_tokens"@) == Some(JsonView::Int(completion))
    &&& u.get("total_tokens"@) == Some(JsonView::Int(prompt + completion))
    &&& u.get2("prompt_tokens_details"@, "cached_tokens"@) == Some(JsonView::Int(cached))
    &&& u.get2("completion_tokens_details"@, "reasoning_tokens"@) == Some(JsonView::Int(0))
}

/// A number of tokens that usage tells: at least none, and none where it tells
/// nothing.
pub open spec fn tokens_told(usage: Option<JsonView>, key: Seq<char>) -> int {
    match usage {
        Some(u) => match u.get_i64(key) {
            Some(n) => if n > 0 {
                n as int
            } else {
                0
            },
            None => 0,
        },
        None => 0,
    }
}

/// A completion counts the tokens of the prompt, whether fresh, written to the cache
/// or read from it, and those of the answer.
pub proof fn tokens_are_counted(
    response: JsonView,
    family: Seq<char>,
    id: Seq<char>,
    created: i64,
)
    ensures
        ({
            let c = completion_json(response, family, id, created);
            let usage = response.get("usage"@);
            let cached = tokens_told(usage, "cache_read_input_tokens"@);
            let prompt = tokens_told(usage, "input_tokens"@) + tokens_told(
                usage,
                "cache_creation_input_tokens"@,
            ) + cached;
            let answer = tokens_told(usage, "output_tokens"@);
            let p = parsed_response(response, family);
            &&& c.get("usage"@) matches Some(u) && reports(u, prompt, answer, cached)
            &&& prompt <= i64::MAX ==> p.prompt_tokens == prompt
            &&& prompt > i64::MAX ==> p.prompt_tokens == i64::MAX
            &&& p.completion_tokens == answer
            &&& p.cached_tokens == cached
            &&& prompt + answer <= i64::MAX ==> countable(parts_of(response, family))
            &&& prompt + answer > i64::MAX ==> !countable(parts_of(response, family))
        }),
{
    lemma_keys_differ();
    lemma_usage_keys_differ();
}

/// A cost is told with its units where the service tells an amount, and not
/// otherwise.
pub proof fn the_cost_is_told(usage: JsonView, amount: JsonView, prompt: int, answer: int, cached: int)
    requires
        usage.get("credit_usage"@) == Some(amount),
    ensures
        ({
            let u = usage_report(prompt, answer, cached, credit_of(Some(usage)));
            &&& reports(u, prompt, answer, cached)
            &&& float_bits(amount) matches Some(bits) ==> {
                &&& crate::json::finite_bits(bits) ==> u.get("credit_usage"@) == Some(
                    JsonView::Float(bits),
                )
                &&& usage.get_str("credit_unit"@) matches Some(t) ==> u.get_str("credit_unit"@)
                    == Some(t)
                &&& usage.get_str("credit_unit_plural"@) matches Some(t) ==> u.get_str(
                    "credit_unit_plural"@,
                ) == Some(t)
            }
            &&& float_bits(amount) is None ==> u.get("credit_usage"@) is None
        }),
        usage_report(prompt, answer, cached, credit_of(None)).get("credit_usage"@) is None,
{
    lemma_usage_keys_differ();
}

/// Each block of a response that calls a tool is a call of what the response is read
/// as, and each web search that the service answered itself is noted with its
/// identifier and its query.
pub proof fn a_response_is_read_block_by_block(
    response: JsonView,
    blocks: Seq<JsonView>,
    model: Seq<char>,
)
    requires
        has_blocks(response, blocks),
    ensures
        ({
            let p = parsed_response(response, model);
            let used = of_kind(blocks, "tool_use"@);
            let searched = of_kind(blocks, "server_tool_use"@).filter(
                |b: JsonView| b.get_str("name"@) == Some("web_search"@),
            );
            &&& p.model == model
            &&& p.tool_calls.len() == used.len()
            &&& forall|k: int|
                0 <= k < used.len() ==> tells_call(#[trigger] p.tool_calls[k], used[k])
            &&& p.web_searches.len() == searched.len()
            &&& forall|k: int|
                0 <= k < searched.len() ==> (#[trigger] p.web_searches[k]).0 == text_under(
                    searched[k],
                    "id"@,
                ) && (searched[k].get2_str("input"@, "query"@) matches Some(q)
                    ==> p.web_searches[k].1 == q)
        }),
{
    lemma_parsed_calls(blocks);
    lemma_searches(blocks);
}

proof fn lemma_parsed_calls(blocks: Seq<JsonView>)
    ensures
        parsed_calls(blocks).len() == of_kind(blocks, "tool_use"@).len(),
        forall|k: int|
            0 <= k < of_kind(blocks, "tool_use"@).len() ==> tells_call(
                #[trigger] parsed_calls(blocks)[k],
                of_kind(blocks, "tool_use"@)[k],
            ),
    decreases blocks.len(),
{
    reveal(Seq::filter);
    lemma_keys_differ();
    if blocks.len() > 0 {
        lemma_parsed_calls(blocks.drop_last());
    }
}

proof fn lemma_searches(blocks: Seq<JsonView>)
    ensures
        ({
            let found = searches_in(blocks);
            let searched = of_kind(blocks, "server_tool_use"@).filter(
                |b: JsonView| b.get_str("name"@) == Some("web_search"@),
            );
            &&& found.len() == searched.len()
            &&& forall|k: int|
                0 <= k < searched.len() ==> (#[trigger] found[k]).0 == text_under(
                    searched[k],
                    "id"@,
                ) && (searched[k].get2_str("input"@, "query"@) matches Some(q) ==> found[k].1 == q)
        }),
    decreases blocks.len(),
{
    reveal(Seq::filter);
    if blocks.len() > 0 {
        let named = |b: JsonView| b.get_str("name"@) == Some("web_search"@);
        lemma_searches(blocks.drop_last());
        let front = of_kind(blocks.drop_last(), "server_tool_use"@);
        let all = of_kind(blocks, "server_tool_use"@);
        if blocks.last().get_str("type"@) == Some("server_tool_use"@) {
            assert(all.drop_last() =~= front);
        }
    }
}

/// A text block more is its text more of what a response is read as, and thinking
/// that stands beside the blocks comes after that in them.
pub proof fn a_response_is_read_whole(
    response: JsonView,
    longer: JsonView,
    blocks: Seq<JsonView>,
    b: JsonView,
    model: Seq<char>,
)
    requires
        has_blocks(response, blocks),
        has_blocks(longer, blocks.push(b)),
        response.get("kiro_thinking"@) is None,
        longer.get("kiro_thinking"@) is None,
    ensures
        parsed_response(longer, model).text == parsed_response(response, model).text + (
        if b.get_str("type"@) == Some("text"@) {
            text_under(b, "text"@)
        } else {
            Seq::empty()
        }),
        parsed_response(longer, model).thinking == parsed_response(response, model).thinking + (
        if b.get_str("type"@) == Some("thinking"@) {
            text_under(b, "thinking"@)
        } else {
            Seq::empty()
        }),
        blocks.len() == 0 ==> parsed_response(response, model).text.len() == 0,
        blocks.len() == 0 ==> parsed_response(response, model).thinking.len() == 0,
{
    lemma_kinds_differ();
    assert(blocks.push(b).drop_last() =~= blocks);
    let e = Seq::<char>::empty();
    let p = parsed_response(response, model);
    assert(p.text + e =~= p.text);
    assert(p.thinking + e =~= p.thinking);
}

/// Thinking beside the blocks comes after that in them, with an empty line between.
pub proof fn thinking_beside_the_blocks_is_kept(
    response: JsonView,
    without: JsonView,
    blocks: Seq<JsonView>,
    t: Seq<char>,
    model: Seq<char>,
)
    requires
        has_blocks(response, blocks),
        has_blocks(without, blocks),
        without.get("kiro_thinking"@) is None,
        response.get_str("kiro_thinking"@) == Some(t),
        t.len() > 0,
    ensures
        ({
            let inside = parsed_response(without, model).thinking;
            let whole = parsed_response(response, model).thinking;
            if inside.len() == 0 {
                whole == t
            } else {
                whole == inside + "\n\n"@ + t
            }
        }),
{
}

/// A body that is no document is told as an error of the service, one that is a
/// document as a completion of it.
pub proof fn a_body_becomes_a_completion(
    r: Completion,
    response: JsonView,
    family: Seq<char>,
    id: Seq<char>,
    created: i64,
    e: Seq<char>,
)
    ensures
        completion_of(r, Ok(response), family, id, created) && countable(
            parts_of(response, family),
        ) ==> (r matches Completion::Made(c) && c@ == completion_json(
            response,
            family,
            id,
            created,
        )),
        completion_of(r, Err(e), family, id, created) ==> (r matches Completion::Unreadable(c)
            && c@.get2_str("error"@, "message"@) == Some("failed to parse upstream response: "@ + e)
            && c@.get2_str("error"@, "type"@) == Some("server_error"@)),
{
    lemma_keys_differ();
}

/// An error keeps its message and its type; a body that tells neither is its own
/// message.
pub proof fn an_error_keeps_its_message(body: JsonView, plain: Seq<char>, kind: Seq<char>)
    ensures
        ({
            let e = error_told(Some(body), plain);
            &&& body.get2_str("error"@, "message"@) matches Some(t) ==> e.get2_str(
                "error"@,
                "message"@,
            ) == Some(t)
            &&& body.get2_str("error"@, "message"@) is None ==> e.get2_str("error"@, "message"@)
                == Some(plain)
            &&& body.get2_str("error"@, "type"@) matches Some(t) ==> e.get2_str(
                "error"@,
                "type"@,
            ) == Some(t)
            &&& body.get2_str("error"@, "type"@) is None ==> e.get2_str("error"@, "type"@) == Some(
                "server_error"@,
            )
        }),
        error_told(None, plain).get2_str("error"@, "message"@) == Some(plain),
        error_told(None, plain).get2_str("error"@, "type"@) == Some("server_error"@),
        error_json(plain, kind).get2_str("error"@, "message"@) == Some(plain),
        error_json(plain, kind).get2_str("error"@, "type"@) == Some(kind),
{
    lemma_keys_differ();
}

/// A frame with the name of an event gives that event with its data; a ping needs
/// no data, and a frame without a name gives nothing.
pub proof fn an_event_keeps_its_name_and_data(
    event: Seq<char>,
    data: JsonView,
    parsed: Result<JsonView, Seq<char>>,
    e: Seq<char>,
)
    ensures
        event_in(None, parsed) == Ok::<Option<(Seq<char>, JsonView)>, Seq<char>>(None),
        event != "ping"@ ==> event_in(Some(event), Ok(data)) == Ok::<
            Option<(Seq<char>, JsonView)>,
            Seq<char>,
        >(Some((event, data))),
        event != "ping"@ ==> event_in(Some(event), Err(e)) == Err::<
            Option<(Seq<char>, JsonView)>,
            Seq<char>,
        >("failed to parse upstream SSE event "@ + event + ": "@ + e),
        event_in(Some("ping"@), parsed) matches Ok(Some(p)) && p.0 == "ping"@ && p.1.get_str(
            "type"@,
        ) == Some("ping"@),
{
}

/// The session of a request is the first that reads as a UUID, with or without the
/// word before it.
pub proof fn the_first_session_counts(list: Seq<Option<Seq<char>>>, i: int, id: Seq<char>)
    requires
        0 <= i < list.len(),
        list[i] == Some(id),
        forall|k: int| 0 <= k < i ==> list[k] is None,
    ensures
        first_some(list) == Some(id),
        session_user(list) == Some("session_"@ + id),
    decreases i,
{
    if i > 0 {
        assert(list.drop_first()[i - 1] == list[i]);
        assert forall|k: int| 0 <= k < i - 1 implies list.drop_first()[k] is None by {
            assert(list.drop_first()[k] == list[k + 1]);
        }
        the_first_session_counts(list.drop_first(), i - 1, id);
    }
}

/// Without a session there is none, and a candidate counts by the UUID in it.
pub proof fn a_session_is_a_uuid(list: Seq<Option<Seq<char>>>, c: Seq<char>)
    ensures
        (forall|k: int| 0 <= k < list.len() ==> list[k] is None) ==> session_user(list) is None,
        candidate_uuid(Some("session_"@ + c)) == parsed_uuid(c),
        c.len() < 8 || c.take(8) != "session_"@ ==> candidate_uuid(Some(c)) == parsed_uuid(c),
        candidate_uuid(None) is None,
    decreases list.len(),
{
    reveal_strlit("session_");
    let s = "session_"@ + c;
    assert(s.subrange(0, 8) =~= "session_"@);
    assert(s.subrange(8, s.len() as int) =~= c);
    if c.len() >= 8 {
        assert(c.take(8) =~= c.subrange(0, 8));
    }
    if list.len() > 0 && (forall|k: int| 0 <= k < list.len() ==> list[k] is None) {
        assert forall|k: int| 0 <= k < list.drop_first().len() implies list.drop_first()[k]
            is None by {
            assert(list.drop_first()[k] == list[k + 1]);
        }
        a_session_is_a_uuid(list.drop_first(), c);
    }
}

/// The blocks of turns, in their order.
pub open spec fn blocks_in_turns(list: Seq<TurnView>) -> Seq<JsonView>
    decreases list.len(),
{
    if list.len() == 0 {
        Seq::empty()
    } else {
        blocks_in_turns(list.drop_last()) + list.last().blocks
    }
}

/// Blocks that are added come last and none is lost; those of the role that spoke
/// last join its turn, and others begin a turn of their own.
pub proof fn turns_keep_their_blocks(list: Seq<TurnView>, role: Seq<char>, blocks: Seq<JsonView>)
    ensures
        blocks_in_turns(with_turn(list, role, blocks)) == blocks_in_turns(list) + blocks,
        blocks.len() > 0 ==> with_turn(list, role, blocks).last().role == role,
        blocks.len() > 0 && (list.len() == 0 || list.last().role != role) ==> with_turn(
            list,
            role,
            blocks,
        ).len() == list.len() + 1,
        list.len() > 0 && list.last().role == role ==> with_turn(list, role, blocks).len()
            == list.len(),
{
    let after = with_turn(list, role, blocks);
    if blocks.len() == 0 {
        assert(blocks_in_turns(list) + blocks =~= blocks_in_turns(list));
    } else if list.len() > 0 && list.last().role == role {
        assert(after.drop_last() =~= list.drop_last());
        assert(blocks_in_turns(after) =~= blocks_in_turns(list) + blocks);
    } else {
        assert(after.drop_last() =~= list);
    }
}

/// The texts of a content are its text, or the texts of its parts in their order, but
/// for empty ones.
pub proof fn texts_are_collected(parts: Seq<JsonView>, p: JsonView, t: Seq<char>)
    requires
        p.get_str("text"@) == Some(t),
        t.len() > 0,
    ensures
        plain_texts(Some(JsonView::Text(t))) == seq![t],
        plain_texts(Some(JsonView::Array(parts.push(p)))) == plain_texts(
            Some(JsonView::Array(parts)),
        ).push(t),
        plain_texts(Some(JsonView::Array(Seq::empty()))).len() == 0,
        plain_texts(None).len() == 0,
{
    assert(parts.push(p).drop_last() =~= parts);
}

/// Only two turns of the assistant that call tools and say nothing become one. Any
/// other turn stays a turn of its own.
pub proof fn only_silent_calls_are_merged(list: Seq<ChatMessageView>, m: ChatMessageView)
    ensures
        m.role != "assistant"@ || m.tool_calls.len() == 0 ==> with_message(list, m) == list.push(m),
        (m.content matches Some(JsonView::Text(t)) && !is_blank(t)) ==> with_message(list, m)
            == list.push(m),
        list.len() == 0 || list.last().role != "assistant"@ || list.last().tool_calls.len() == 0
            ==> with_message(list, m) == list.push(m),
        list.len() > 0 && list.last().role == "assistant"@ && m.role == "assistant"@
            && list.last().tool_calls.len() > 0 && m.tool_calls.len() > 0 && list.last().content
            is None && m.content is None ==> ({
            let after = with_message(list, m);
            &&& after.len() == list.len()
            &&& after.drop_last() == list.drop_last()
            &&& after.last().role == "assistant"@
            &&& after.last().tool_calls == list.last().tool_calls + m.tool_calls
        }),
{
    if list.len() > 0 && mergeable(list.last(), m) {
        assert(with_message(list, m).drop_last() =~= list.drop_last());
    }
    assert(is_blank(Seq::<char>::empty()));
}

} // verus!
