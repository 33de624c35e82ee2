//! Shared parts of the chat completion interface: data URLs, the reading of
//! responses, and the framing of event streams.

use vstd::prelude::*;
use vstd::utf8::{decode_utf8, valid_utf8};

use crate::anthropic::types::Metadata;
use crate::encoding::{lossy, lossy_text, utf8_fault, utf8_text};
use crate::ids::{is_hyphenated_uuid, parse_uuid, parsed_uuid};
use crate::json::{
    array_view, array_view_push, json_parse, json_parse_bytes, json_text, opt_json, parse_json,
    parse_json_bytes, Json, JsonView,
};
use crate::openai::blocks::{
    block_is, blocks_of, blocks_text, collect_blocks_text, credit_of, finish_reason, is_block,
    make_usage_report, map_finish_reason, member_text, read_credit, read_tokens, text_member,
    tokens, usage_report, CreditView,
};
use crate::openai::sse::{fields_of, read_fields};
use crate::openai::types::{
    call_json, error_json, make_message, message_json, openai_error, ToolCallView,
};
use crate::text::{
    concat, join_spec, join_strings, opt_str_view, opt_view, split_once_spec, split_once_str,
    str_eq, strip_prefix_spec, strip_prefix_str, views,
};

verus! {

broadcast use vstd::string::group_string_axioms;

/// The media type and the data of a `data:` URL in base64.
pub open spec fn data_url(url: Seq<char>) -> Option<(Seq<char>, Seq<char>)> {
    match strip_prefix_spec(url, "data:"@) {
        Some(rest) => split_once_spec(rest, ";base64,"@),
        None => None,
    }
}

/// The media type and the data of a `data:` URL in base64.
pub fn parse_data_url(url: &str) -> (r: Option<(&str, &str)>)
    ensures
        match r {
            Some((media_type, data)) => data_url(url@) == Some((media_type@, data@)),
            None => data_url(url@) is None,
        },
{
    match strip_prefix_str(url, "data:") {
        Some(rest) => split_once_str(rest, ";base64,"),
        None => None,
    }
}

/// The text that is to be a UUID in what a client calls its session.
pub open spec fn session_part(candidate: Seq<char>) -> Seq<char> {
    match strip_prefix_spec(candidate, "session_"@) {
        Some(rest) => rest,
        None => candidate,
    }
}

/// The first of some UUIDs.
pub open spec fn first_some(list: Seq<Option<Seq<char>>>) -> Option<Seq<char>>
    decreases list.len(),
{
    if list.len() == 0 {
        None
    } else if list[0] is Some {
        list[0]
    } else {
        first_some(list.drop_first())
    }
}

/// The UUID that a candidate reads as.
pub open spec fn candidate_uuid(candidate: Option<Seq<char>>) -> Option<Seq<char>> {
    match candidate {
        Some(c) => parsed_uuid(session_part(c)),
        None => None,
    }
}

/// Whom a request is for, by the first of some UUIDs.
pub open spec fn session_user(list: Seq<Option<Seq<char>>>) -> Option<Seq<char>> {
    match first_some(list) {
        Some(id) => Some("session_"@ + id),
        None => None,
    }
}

/// The name of a session: the word `session_` and a UUID in the hyphenated
/// notation.
pub open spec fn is_session_name(user: Seq<char>) -> bool {
    user.len() == 44 && user.take(8) == "session_"@ && is_hyphenated_uuid(user.skip(8))
}

/// Whom metadata names.
pub open spec fn user_of(m: Option<Metadata>) -> Option<Seq<char>> {
    match m {
        Some(m) => opt_view(m.user_id),
        None => None,
    }
}

/// The views of a list of optional texts.
pub open spec fn opt_views(list: Seq<Option<String>>) -> Seq<Option<Seq<char>>> {
    list.map_values(|o: Option<String>| opt_view(o))
}

/// Whom a request is for, by the first of some UUIDs.
pub fn first_session(parsed: &Vec<Option<String>>) -> (r: Option<Metadata>)
    ensures
        user_of(r) == session_user(opt_views(parsed@)),
        r is Some <==> first_some(opt_views(parsed@)) is Some,
{
    let mut i: usize = 0;
    let ghost all = opt_views(parsed@);
    assert(all.skip(0) =~= all);
    while i < parsed.len()
        invariant
            i <= parsed@.len(),
            all == opt_views(parsed@),
            first_some(all) == first_some(all.skip(i as int)),
        decreases parsed@.len() - i,
    {
        assert(all.skip(i as int)[0] == opt_view(parsed@[i as int]));
        assert(all.skip(i as int).drop_first() =~= all.skip(i + 1));
        match &parsed[i] {
            Some(id) => {
                return Some(Metadata { user_id: Some(concat("session_", id.as_str())) });
            },
            None => {},
        }
        i += 1;
    }
    None
}

fn read_candidate(candidate: Option<&str>) -> (r: Option<String>)
    ensures
        opt_view(r) == candidate_uuid(opt_str_view(candidate)),
        r matches Some(t) ==> is_hyphenated_uuid(t@),
{
    match candidate {
        None => None,
        Some(c) => match strip_prefix_str(c, "session_") {
            Some(rest) => parse_uuid(rest),
            None => parse_uuid(c),
        },
    }
}

/// Whom a request is for: the first of the cache key and the three session
/// headers that is a UUID, with or without the word `session_` before it.
pub fn resolve_session_metadata(
    prompt_cache_key: Option<&str>,
    session_affinity: Option<&str>,
    client_request_id: Option<&str>,
    session_id: Option<&str>,
) -> (r: Option<Metadata>)
    ensures
        ({
            let list = seq![
                candidate_uuid(opt_str_view(prompt_cache_key)),
                candidate_uuid(opt_str_view(session_affinity)),
                candidate_uuid(opt_str_view(client_request_id)),
                candidate_uuid(opt_str_view(session_id)),
            ];
            &&& user_of(r) == session_user(list)
            &&& r is Some <==> first_some(list) is Some
        }),
        user_of(r) matches Some(user) ==> is_session_name(user),
{
    let mut parsed: Vec<Option<String>> = Vec::new();
    parsed.push(read_candidate(prompt_cache_key));
    parsed.push(read_candidate(session_affinity));
    parsed.push(read_candidate(client_request_id));
    parsed.push(read_candidate(session_id));
    assert(opt_views(parsed@) =~= seq![
        candidate_uuid(opt_str_view(prompt_cache_key)),
        candidate_uuid(opt_str_view(session_affinity)),
        candidate_uuid(opt_str_view(client_request_id)),
        candidate_uuid(opt_str_view(session_id)),
    ]);
    proof {
        lemma_session_name(opt_views(parsed@));
    }
    first_session(&parsed)
}

proof fn lemma_first_some(list: Seq<Option<Seq<char>>>)
    ensures
        first_some(list) is Some ==> list.contains(first_some(list)),
    decreases list.len(),
{
    if list.len() > 0 {
        if list[0] is Some {
            assert(list.contains(list[0]));
        } else {
            let rest = list.drop_first();
            lemma_first_some(rest);
            if first_some(rest) is Some {
                let i = choose|i: int| 0 <= i < rest.len() && rest[i] == first_some(rest);
                assert(list[i + 1] == rest[i]);
            }
        }
    }
}

proof fn lemma_session_name(list: Seq<Option<Seq<char>>>)
    requires
        forall|i: int|
            0 <= i < list.len() ==> (#[trigger] list[i] matches Some(t) ==> is_hyphenated_uuid(t)),
    ensures
        session_user(list) matches Some(user) ==> is_session_name(user),
{
    reveal_strlit("session_");
    lemma_first_some(list);
    if first_some(list) is Some {
        let id = first_some(list)->0;
        let user = "session_"@ + id;
        let i = choose|i: int| 0 <= i < list.len() && list[i] == first_some(list);
        assert(is_hyphenated_uuid(id)) by {
            assert(list[i] == Some(id));
        }
        assert(user.take(8) =~= "session_"@);
        assert(user.skip(8) =~= id);
    }
}

/// The blocks of one role.
pub struct TurnView {
    pub role: Seq<char>,
    pub blocks: Seq<JsonView>,
}

/// The views of a list of turns.
pub open spec fn turn_views(list: Seq<(String, Vec<Json>)>) -> Seq<TurnView> {
    list.map_values(
        |t: (String, Vec<Json>)| TurnView { role: t.0@, blocks: array_view(t.1@) },
    )
}

/// Turns with more blocks of a role: those of the last turn where it has that
/// role, else a turn of their own. No blocks are no turn.
pub open spec fn with_turn(list: Seq<TurnView>, role: Seq<char>, blocks: Seq<JsonView>) -> Seq<
    TurnView,
> {
    if blocks.len() == 0 {
        list
    } else if list.len() > 0 && list.last().role == role {
        list.update(
            list.len() - 1,
            TurnView { role, blocks: list.last().blocks + blocks },
        )
    } else {
        list.push(TurnView { role, blocks })
    }
}

/// Adds blocks of a role to a list of turns.
pub fn push_merged(merged: &mut Vec<(String, Vec<Json>)>, role: &str, blocks: Vec<Json>)
    ensures
        turn_views(final(merged)@) == with_turn(
            turn_views(old(merged)@),
            role@,
            array_view(blocks@),
        ),
{
    let ghost before = merged@;
    assert(array_view(blocks@).len() == blocks@.len());
    assert(turn_views(merged@).len() == merged@.len());
    if blocks.len() == 0 {
        return;
    }
    let same = merged.len() > 0 && str_eq(merged[merged.len() - 1].0.as_str(), role);
    if same {
        match merged.pop() {
            Some(last) => {
                let (name, had) = last;
                let mut all = had;
                let mut more = blocks;
                let ghost first = all@;
                let ghost second = more@;
                all.append(&mut more);
                assert(array_view(all@) =~= array_view(first) + array_view(second));
                merged.push((name, all));
                assert(turn_views(merged@) =~= with_turn(
                    turn_views(before),
                    role@,
                    array_view(second),
                ));
            },
            None => {},
        }
    } else {
        merged.push((role.to_owned(), blocks));
        assert(turn_views(merged@) =~= with_turn(turn_views(before), role@, array_view(blocks@)));
    }
}

/// The texts of a list of parts that are not empty.
pub open spec fn part_texts(parts: Seq<JsonView>) -> Seq<Seq<char>>
    decreases parts.len(),
{
    if parts.len() == 0 {
        Seq::empty()
    } else {
        let front = part_texts(parts.drop_last());
        match parts.last().get_str("text"@) {
            Some(t) => if t.len() > 0 {
                front.push(t)
            } else {
                front
            },
            None => front,
        }
    }
}

/// The texts of a content.
pub open spec fn plain_texts(content: Option<JsonView>) -> Seq<Seq<char>> {
    match content {
        Some(JsonView::Text(t)) => if t.len() > 0 {
            seq![t]
        } else {
            Seq::empty()
        },
        Some(JsonView::Array(parts)) => part_texts(parts),
        _ => Seq::empty(),
    }
}

/// The texts of a content: the content itself, or the texts of its parts, but for
/// empty ones.
pub fn collect_text_strings(content: Option<&Json>) -> (r: Vec<String>)
    ensures
        views(r@) == plain_texts(opt_json(content)),
{
    let mut out: Vec<String> = Vec::new();
    assert(views(out@) =~= Seq::<Seq<char>>::empty());
    match content {
        Some(Json::Text(t)) => {
            if !t.as_str().is_empty() {
                out.push(t.clone());
                assert(views(out@) =~= seq![t@]);
            }
        },
        Some(Json::Array(parts)) => {
            let ghost all = array_view(parts@);
            let mut i: usize = 0;
            assert(all.take(0) =~= Seq::<JsonView>::empty());
            while i < parts.len()
                invariant
                    i <= parts@.len(),
                    all == array_view(parts@),
                    views(out@) == part_texts(all.take(i as int)),
                decreases parts@.len() - i,
            {
                proof {
                    assert(all.take(i + 1).drop_last() =~= all.take(i as int));
                    assert(all.take(i + 1).last() == parts@[i as int]@);
                }
                match parts[i].get_str("text") {
                    Some(t) => {
                        if !t.is_empty() {
                            let ghost before = out@;
                            let text = t.to_owned();
                            out.push(text);
                            assert(views(out@) =~= views(before).push(text@));
                        }
                    },
                    None => {},
                }
                i += 1;
            }
            assert(all.take(all.len() as int) =~= all);
        },
        _ => {},
    }
    out
}

/// What a response of the message interface says, in the words of chat
/// completions.
#[derive(Debug, PartialEq, Eq)]
pub struct ParsedResponse {
    pub model: String,
    pub text: String,
    /// The calls of tools, as documents.
    pub tool_calls: Vec<Json>,
    pub finish_reason: String,
    pub prompt_tokens: i64,
    pub cached_tokens: i64,
    pub completion_tokens: i64,
    pub thinking: String,
    /// The web searches that were answered within the conversation: the
    /// identifier and the query of each.
    pub web_searches: Vec<(String, String)>,
    /// The bits of the cost, if the service told it.
    pub credit_usage: Option<u64>,
    pub credit_unit: Option<String>,
    pub credit_unit_plural: Option<String>,
}

/// What a response says.
pub struct ParsedView {
    pub model: Seq<char>,
    pub text: Seq<char>,
    pub tool_calls: Seq<JsonView>,
    pub finish_reason: Seq<char>,
    pub prompt_tokens: i64,
    pub cached_tokens: i64,
    pub completion_tokens: i64,
    pub thinking: Seq<char>,
    pub web_searches: Seq<(Seq<char>, Seq<char>)>,
    pub credit: CreditView,
}

pub open spec fn search_views(list: Seq<(String, String)>) -> Seq<(Seq<char>, Seq<char>)> {
    list.map_values(|s: (String, String)| (s.0@, s.1@))
}

impl ParsedResponse {
    pub open spec fn view(&self) -> ParsedView {
        ParsedView {
            model: self.model@,
            text: self.text@,
            tool_calls: array_view(self.tool_calls@),
            finish_reason: self.finish_reason@,
            prompt_tokens: self.prompt_tokens,
            cached_tokens: self.cached_tokens,
            completion_tokens: self.completion_tokens,
            thinking: self.thinking@,
            web_searches: search_views(self.web_searches@),
            credit: CreditView {
                usage: self.credit_usage,
                unit: opt_view(self.credit_unit),
                unit_plural: opt_view(self.credit_unit_plural),
            },
        }
    }
}

/// The call of a tool in a response, as a document.
pub open spec fn parsed_call(block: JsonView) -> JsonView {
    call_json(
        ToolCallView {
            id: Some(member_text(block, "id"@)),
            tool_type: "function"@,
            name: member_text(block, "name"@),
            arguments: match block.get("input"@) {
                Some(j) => json_text(j),
                None => "{}"@,
            },
        },
    )
}

/// The calls of tools in a response, as documents.
pub open spec fn parsed_calls(blocks: Seq<JsonView>) -> Seq<JsonView>
    decreases blocks.len(),
{
    if blocks.len() == 0 {
        Seq::empty()
    } else if is_block(blocks.last(), "tool_use"@) {
        parsed_calls(blocks.drop_last()).push(parsed_call(blocks.last()))
    } else {
        parsed_calls(blocks.drop_last())
    }
}

/// The block tells of a web search that was answered within the conversation.
pub open spec fn is_search_block(block: JsonView) -> bool {
    is_block(block, "server_tool_use"@) && block.get_str("name"@) == Some("web_search"@)
}

/// The web searches in a response.
pub open spec fn searches_in(blocks: Seq<JsonView>) -> Seq<(Seq<char>, Seq<char>)>
    decreases blocks.len(),
{
    if blocks.len() == 0 {
        Seq::empty()
    } else if is_search_block(blocks.last()) {
        searches_in(blocks.drop_last()).push(
            (
                member_text(blocks.last(), "id"@),
                match blocks.last().get2_str("input"@, "query"@) {
                    Some(t) => t,
                    None => Seq::empty(),
                },
            ),
        )
    } else {
        searches_in(blocks.drop_last())
    }
}

/// The thinking in the blocks of a response, and that beside them.
pub open spec fn whole_thinking(response: JsonView) -> Seq<char> {
    let inside = blocks_text(blocks_of(response), "thinking"@, "thinking"@);
    let beside = member_text(response, "kiro_thinking"@);
    if beside.len() == 0 {
        inside
    } else if inside.len() == 0 {
        beside
    } else {
        inside + "\n\n"@ + beside
    }
}

/// The number, or the largest there is.
pub open spec fn saturated(n: int) -> i64 {
    if n <= i64::MAX {
        n as i64
    } else {
        i64::MAX
    }
}

/// What a response says, for a client that asked for `model`.
pub open spec fn parsed_response(response: JsonView, model: Seq<char>) -> ParsedView {
    let blocks = blocks_of(response);
    let usage = response.get("usage"@);
    let cached = tokens(usage, "cache_read_input_tokens"@);
    ParsedView {
        model,
        text: blocks_text(blocks, "text"@, "text"@),
        tool_calls: parsed_calls(blocks),
        finish_reason: finish_reason(
            match response.get_str("stop_reason"@) {
                Some(t) => t,
                None => "end_turn"@,
            },
            parsed_calls(blocks).len() > 0,
        ),
        prompt_tokens: saturated(
            tokens(usage, "input_tokens"@) + tokens(usage, "cache_creation_input_tokens"@) + cached,
        ),
        cached_tokens: cached,
        completion_tokens: tokens(usage, "output_tokens"@),
        thinking: whole_thinking(response),
        web_searches: searches_in(blocks),
        credit: credit_of(usage),
    }
}

fn collect_parsed_calls(blocks: &Vec<Json>) -> (r: Vec<Json>)
    ensures
        array_view(r@) == parsed_calls(array_view(blocks@)),
{
    let mut out: Vec<Json> = Vec::new();
    let mut i: usize = 0;
    let ghost all = array_view(blocks@);
    assert(all.take(0) =~= Seq::<JsonView>::empty());
    assert(array_view(out@) =~= Seq::<JsonView>::empty());
    while i < blocks.len()
        invariant
            i <= blocks@.len(),
            all == array_view(blocks@),
            array_view(out@) == parsed_calls(all.take(i as int)),
        decreases blocks@.len() - i,
    {
        let block = &blocks[i];
        proof {
            assert(all.take(i + 1).drop_last() =~= all.take(i as int));
            assert(all.take(i + 1).last() == block@);
        }
        if block_is(block, "tool_use") {
            let arguments = match block.get("input") {
                Some(j) => j.to_text(),
                None => "{}".to_owned(),
            };
            let call = Json::object().with("type", Json::text("function")).with(
                "function",
                Json::object().with("name", Json::Text(text_member(block, "name"))).with(
                    "arguments",
                    Json::Text(arguments),
                ),
            ).with("id", Json::Text(text_member(block, "id")));
            proof {
                array_view_push(out@, call);
            }
            out.push(call);
        }
        i += 1;
    }
    assert(all.take(all.len() as int) =~= all);
    out
}

fn collect_searches(blocks: &Vec<Json>) -> (r: Vec<(String, String)>)
    ensures
        search_views(r@) == searches_in(array_view(blocks@)),
{
    let mut out: Vec<(String, String)> = Vec::new();
    let mut i: usize = 0;
    let ghost all = array_view(blocks@);
    assert(all.take(0) =~= Seq::<JsonView>::empty());
    assert(search_views(out@) =~= Seq::<(Seq<char>, Seq<char>)>::empty());
    while i < blocks.len()
        invariant
            i <= blocks@.len(),
            all == array_view(blocks@),
            search_views(out@) == searches_in(all.take(i as int)),
        decreases blocks@.len() - i,
    {
        let block = &blocks[i];
        proof {
            assert(all.take(i + 1).drop_last() =~= all.take(i as int));
            assert(all.take(i + 1).last() == block@);
        }
        let named = match block.get_str("name") {
            Some(n) => str_eq(n, "web_search"),
            None => false,
        };
        if block_is(block, "server_tool_use") && named {
            let query = match block.get2_str("input", "query") {
                Some(t) => t.to_owned(),
                None => String::new(),
            };
            let id = text_member(block, "id");
            let ghost before = out@;
            out.push((id, query));
            assert(search_views(out@) =~= search_views(before).push((id@, query@)));
        }
        i += 1;
    }
    assert(all.take(all.len() as int) =~= all);
    out
}

fn saturating_sum(a: i64, b: i64, c: i64) -> (r: i64)
    requires
        a >= 0,
        b >= 0,
        c >= 0,
    ensures
        r == saturated(a + b + c),
{
    match a.checked_add(b) {
        Some(ab) => match ab.checked_add(c) {
            Some(abc) => abc,
            None => i64::MAX,
        },
        None => i64::MAX,
    }
}

/// Reads a response, for a client that asked for `model`.
pub fn parse_anthropic_message(anthropic: &Json, model: &str) -> (r: ParsedResponse)
    ensures
        r@ == parsed_response(anthropic@, model@),
{
    let none: Vec<Json> = Vec::new();
    assert(array_view(none@) =~= Seq::<JsonView>::empty());
    let blocks = match anthropic.get("content") {
        Some(content) => match content.as_array() {
            Some(items) => items,
            None => &none,
        },
        None => &none,
    };
    let mut thinking = collect_blocks_text(blocks, "thinking", "thinking");
    let beside = text_member(anthropic, "kiro_thinking");
    if !beside.as_str().is_empty() {
        if !thinking.as_str().is_empty() {
            thinking.push_str("\n\n");
        }
        let ghost before = thinking@;
        thinking.push_str(beside.as_str());
        assert(before.len() == 0 ==> before + beside@ =~= beside@);
    }
    let tool_calls = collect_parsed_calls(blocks);
    assert(array_view(tool_calls@).len() == tool_calls@.len());
    let stop_reason = match anthropic.get_str("stop_reason") {
        Some(t) => t,
        None => "end_turn",
    };
    let usage = anthropic.get("usage");
    let cached_tokens: i64 = read_tokens(usage, "cache_read_input_tokens");
    let prompt_tokens: i64 = saturating_sum(
        read_tokens(usage, "input_tokens"),
        read_tokens(usage, "cache_creation_input_tokens"),
        cached_tokens,
    );
    let credit = read_credit(usage);
    ParsedResponse {
        model: model.to_owned(),
        text: collect_blocks_text(blocks, "text", "text"),
        finish_reason: map_finish_reason(stop_reason, tool_calls.len() > 0).to_owned(),
        tool_calls,
        prompt_tokens,
        cached_tokens,
        completion_tokens: read_tokens(usage, "output_tokens"),
        thinking,
        web_searches: collect_searches(blocks),
        credit_usage: credit.usage,
        credit_unit: credit.unit,
        credit_unit_plural: credit.unit_plural,
    }
}

/// The message of a response.
pub fn chat_message_from_parsed(p: &ParsedResponse) -> (r: Json)
    ensures
        r@ == message_json(p@.text, p@.thinking, JsonView::Array(p@.tool_calls)),
{
    make_message(
        p.text.as_str(),
        p.thinking.as_str(),
        crate::json::copy_items(&p.tool_calls),
    )
}

/// The usage report of a response.
pub fn chat_usage_json(p: &ParsedResponse) -> (r: Json)
    requires
        i64::MIN <= p@.prompt_tokens + p@.completion_tokens <= i64::MAX,
    ensures
        r@ == usage_report(
            p@.prompt_tokens as int,
            p@.completion_tokens as int,
            p@.cached_tokens as int,
            p@.credit,
        ),
{
    make_usage_report(
        p.prompt_tokens,
        p.completion_tokens,
        p.cached_tokens,
        p.credit_usage,
        &p.credit_unit,
        &p.credit_unit_plural,
    )
}

/// However the service reports its usage, no number of tokens is negative, and
/// the cached tokens are among those of the prompt.
pub proof fn token_counts_are_sane(response: JsonView, model: Seq<char>)
    ensures
        parsed_response(response, model).prompt_tokens >= 0,
        parsed_response(response, model).completion_tokens >= 0,
        0 <= parsed_response(response, model).cached_tokens <= parsed_response(
            response,
            model,
        ).prompt_tokens,
{
}

/// What a frame comes to, where its data reads as `parsed`: nothing
/// without the name of an event, a ping whatever its data, else the event and
/// its data. The error says what is wrong with the data.
pub open spec fn event_in(event: Option<Seq<char>>, parsed: Result<JsonView, Seq<char>>) -> Result<
    Option<(Seq<char>, JsonView)>,
    Seq<char>,
> {
    match event {
        None => Ok(None),
        Some(event) => if event == "ping"@ {
            Ok(Some((event, JsonView::object().with("type"@, JsonView::Text("ping"@)))))
        } else {
            match parsed {
                Ok(j) => Ok(Some((event, j))),
                Err(e) => Err(
                    "failed to parse upstream SSE event "@ + event + ": "@ + e,
                ),
            }
        },
    }
}

/// What a frame comes to.
pub open spec fn frame_event(frame: Seq<u8>) -> Result<Option<(Seq<char>, JsonView)>, Seq<char>> {
    if valid_utf8(frame) {
        let f = fields_of(decode_utf8(frame));
        event_in(f.event, json_parse(join_spec(f.data, "\n"@)))
    } else {
        Err("upstream sent invalid UTF-8 SSE: "@ + utf8_fault(frame))
    }
}

/// The view of what a frame comes to.
pub open spec fn event_view(r: Result<Option<(String, Json)>, String>) -> Result<
    Option<(Seq<char>, JsonView)>,
    Seq<char>,
> {
    match r {
        Ok(Some((event, data))) => Ok(Some((event@, data@))),
        Ok(None) => Ok(None),
        Err(e) => Err(e@),
    }
}

/// What the name of an event, and data that read as `parsed`, come to.
pub fn event_from(event: Option<String>, parsed: Result<Json, String>) -> (r: Result<
    Option<(String, Json)>,
    String,
>)
    ensures
        event_view(r) == event_in(
            opt_view(event),
            match parsed {
                Ok(j) => Ok(j@),
                Err(e) => Err(e@),
            },
        ),
{
    match event {
        None => Ok(None),
        Some(event) => {
            if str_eq(event.as_str(), "ping") {
                return Ok(Some((event, Json::object().with("type", Json::text("ping")))));
            }
            match parsed {
                Ok(j) => Ok(Some((event, j))),
                Err(e) => {
                    let mut text = concat("failed to parse upstream SSE event ", event.as_str());
                    text.push_str(": ");
                    text.push_str(e.as_str());
                    Err(text)
                },
            }
        },
    }
}

/// Reads a frame: strictly UTF-8, and JSON for any event but a ping.
pub fn parse_sse_frame(frame: &[u8]) -> (r: Result<Option<(String, Json)>, String>)
    ensures
        event_view(r) == frame_event(frame@),
{
    match utf8_text(frame) {
        Err(e) => Err(concat("upstream sent invalid UTF-8 SSE: ", e.as_str())),
        Ok(text) => {
            let f = read_fields(text);
            let data = join_strings(&f.data, "\n");
            let parsed = parse_json(data.as_str());
            event_from(f.event, parsed)
        },
    }
}

/// An error of the message interface, in the words of chat completions, where its
/// body reads as `parsed`, or else as the text `plain`.
pub open spec fn error_told(parsed: Option<JsonView>, plain: Seq<char>) -> JsonView {
    error_json(
        match parsed {
            Some(j) => match j.get2_str("error"@, "message"@) {
                Some(t) => t,
                None => plain,
            },
            None => plain,
        },
        match parsed {
            Some(j) => match j.get2_str("error"@, "type"@) {
                Some(t) => t,
                None => "server_error"@,
            },
            None => "server_error"@,
        },
    )
}

/// An error of the message interface, in the words of chat completions.
pub fn error_from(parsed: Option<&Json>, plain: &str) -> (r: Json)
    ensures
        r@ == error_told(opt_json(parsed), plain@),
{
    let message = match parsed {
        Some(j) => match j.get2_str("error", "message") {
            Some(t) => t,
            None => plain,
        },
        None => plain,
    };
    let error_type = match parsed {
        Some(j) => match j.get2_str("error", "type") {
            Some(t) => t,
            None => "server_error",
        },
        None => "server_error",
    };
    openai_error(message, error_type)
}

/// The body of an error of the message interface, in the words of chat
/// completions.
pub fn convert_error_body(bytes: &[u8]) -> (r: Json)
    ensures
        r@ == error_told(
            match json_parse_bytes(bytes@) {
                Ok(j) => Some(j),
                Err(_) => None,
            },
            lossy(bytes@),
        ),
{
    let plain = lossy_text(bytes);
    match parse_json_bytes(bytes) {
        Ok(j) => error_from(Some(&j), plain.as_str()),
        Err(_) => error_from(None, plain.as_str()),
    }
}

} // verus!
