//! What responses of the message interface are made of.

use vstd::prelude::*;

use crate::json::{array_view, float_bits, opt_json, Json, JsonView};
use crate::text::{opt_str_view, opt_view, str_eq};

verus! {

broadcast use vstd::string::group_string_axioms;

/// The text of a member, or an empty one.
pub open spec fn member_text(j: JsonView, key: Seq<char>) -> Seq<char> {
    match j.get_str(key) {
        Some(t) => t,
        None => Seq::empty(),
    }
}

/// The text of a member, or an empty one.
pub fn text_member<'a>(j: &'a Json, key: &str) -> (r: String)
    ensures
        r@ == member_text(j@, key@),
{
    match j.get_str(key) {
        Some(t) => t.to_owned(),
        None => String::new(),
    }
}

/// The block is of a given type.
pub open spec fn is_block(j: JsonView, kind: Seq<char>) -> bool {
    j.get_str("type"@) == Some(kind)
}

/// Tests whether a block is of a given type.
pub fn block_is(j: &Json, kind: &str) -> (r: bool)
    ensures
        r == is_block(j@, kind@),
{
    match j.get_str("type") {
        Some(t) => str_eq(t, kind),
        None => false,
    }
}

/// The texts under `key` of the blocks of a type, put together.
pub open spec fn blocks_text(blocks: Seq<JsonView>, kind: Seq<char>, key: Seq<char>) -> Seq<char>
    decreases blocks.len(),
{
    if blocks.len() == 0 {
        Seq::empty()
    } else if is_block(blocks.last(), kind) {
        blocks_text(blocks.drop_last(), kind, key) + member_text(blocks.last(), key)
    } else {
        blocks_text(blocks.drop_last(), kind, key)
    }
}

/// The texts under `key` of the blocks of a type, put together.
pub fn collect_blocks_text(blocks: &Vec<Json>, kind: &str, key: &str) -> (r: String)
    ensures
        r@ == blocks_text(array_view(blocks@), kind@, key@),
{
    let mut out = String::new();
    let mut i: usize = 0;
    let ghost all = array_view(blocks@);
    assert(all.take(0) =~= Seq::<JsonView>::empty());
    while i < blocks.len()
        invariant
            i <= blocks@.len(),
            all == array_view(blocks@),
            out@ == blocks_text(all.take(i as int), kind@, key@),
        decreases blocks@.len() - i,
    {
        proof {
            assert(all.take(i + 1).drop_last() =~= all.take(i as int));
            assert(all.take(i + 1).last() == blocks@[i as int]@);
        }
        if block_is(&blocks[i], kind) {
            out.push_str(text_member(&blocks[i], key).as_str());
        }
        i += 1;
    }
    assert(all.take(all.len() as int) =~= all);
    out
}

/// The blocks of a response.
pub open spec fn blocks_of(response: JsonView) -> Seq<JsonView> {
    match response.get("content"@) {
        Some(JsonView::Array(items)) => items,
        _ => Seq::empty(),
    }
}

/// A number of tokens in the usage of a response: none where it is not given, is
/// not a number, or is negative.
pub open spec fn tokens(usage: Option<JsonView>, key: Seq<char>) -> i64 {
    let n = match usage {
        Some(u) => match u.get_i64(key) {
            Some(n) => n,
            None => 0,
        },
        None => 0,
    };
    if n >= 0 {
        n
    } else {
        0
    }
}

/// A number of tokens in the usage of a response.
pub fn read_tokens(usage: Option<&Json>, key: &str) -> (r: i64)
    ensures
        r == tokens(opt_json(usage), key@),
        r >= 0,
{
    let n: i64 = match usage {
        Some(u) => match u.get_i64(key) {
            Some(n) => n,
            None => 0,
        },
        None => 0,
    };
    if n >= 0 {
        n
    } else {
        0
    }
}

/// The cost of a response, as the service counts it.
#[derive(Debug, PartialEq, Eq)]
pub struct Credit {
    /// The bits of the amount.
    pub usage: Option<u64>,
    pub unit: Option<String>,
    pub unit_plural: Option<String>,
}

/// The cost of a response, as the service counts it.
pub struct CreditView {
    pub usage: Option<u64>,
    pub unit: Option<Seq<char>>,
    pub unit_plural: Option<Seq<char>>,
}

impl Credit {
    pub open spec fn view(&self) -> CreditView {
        CreditView {
            usage: self.usage,
            unit: opt_view(self.unit),
            unit_plural: opt_view(self.unit_plural),
        }
    }
}

/// The cost in the usage of a response.
pub open spec fn credit_of(usage: Option<JsonView>) -> CreditView {
    match usage {
        Some(u) => CreditView {
            usage: match u.get("credit_usage"@) {
                Some(j) => float_bits(j),
                None => None,
            },
            unit: u.get_str("credit_unit"@),
            unit_plural: u.get_str("credit_unit_plural"@),
        },
        None => CreditView { usage: None, unit: None, unit_plural: None },
    }
}

fn owned(o: Option<&str>) -> (r: Option<String>)
    ensures
        opt_view(r) == opt_str_view(o),
{
    match o {
        Some(t) => Some(t.to_owned()),
        None => None,
    }
}

/// The cost in the usage of a response.
pub fn read_credit(usage: Option<&Json>) -> (r: Credit)
    ensures
        r@ == credit_of(opt_json(usage)),
{
    match usage {
        Some(u) => Credit {
            usage: match u.get("credit_usage") {
                Some(j) => j.as_float_bits(),
                None => None,
            },
            unit: owned(u.get_str("credit_unit")),
            unit_plural: owned(u.get_str("credit_unit_plural")),
        },
        None => Credit { usage: None, unit: None, unit_plural: None },
    }
}

/// A number as a document.
pub open spec fn number(n: int) -> JsonView {
    JsonView::Int(n)
}

/// A float as a document; what is no number becomes null.
pub open spec fn float_json(bits: u64) -> JsonView {
    if crate::json::finite_bits(bits) {
        JsonView::Float(bits)
    } else {
        JsonView::Null
    }
}

/// The document with a text under a key, if there is one.
pub open spec fn with_text(j: JsonView, key: Seq<char>, t: Option<Seq<char>>) -> JsonView {
    match t {
        Some(t) => j.with(key, JsonView::Text(t)),
        None => j,
    }
}

/// A usage report with its cost; the units count only beside an amount.
pub open spec fn with_credit(report: JsonView, credit: CreditView) -> JsonView {
    match credit.usage {
        Some(bits) => with_text(
            with_text(
                report.with("credit_usage"@, float_json(bits)),
                "credit_unit"@,
                credit.unit,
            ),
            "credit_unit_plural"@,
            credit.unit_plural,
        ),
        None => report,
    }
}

/// The usage report of a response.
pub open spec fn usage_report(
    prompt: int,
    completion: int,
    cached: int,
    credit: CreditView,
) -> JsonView {
    with_credit(
        JsonView::object().with("prompt_tokens"@, number(prompt)).with(
            "completion_tokens"@,
            number(completion),
        ).with("total_tokens"@, number(prompt + completion)).with(
            "prompt_tokens_details"@,
            JsonView::object().with("cached_tokens"@, number(cached)),
        ).with(
            "completion_tokens_details"@,
            JsonView::object().with("reasoning_tokens"@, number(0)),
        ),
        credit,
    )
}

fn put_text(j: Json, key: &str, t: &Option<String>) -> (r: Json)
    ensures
        r@ == with_text(j@, key@, opt_view(*t)),
{
    match t {
        Some(t) => j.with(key, Json::text(t.as_str())),
        None => j,
    }
}

/// The usage report of a response.
pub fn make_usage_report(
    prompt: i64,
    completion: i64,
    cached: i64,
    credit_usage: Option<u64>,
    credit_unit: &Option<String>,
    credit_unit_plural: &Option<String>,
) -> (r: Json)
    requires
        i64::MIN <= prompt + completion <= i64::MAX,
    ensures
        r@ == usage_report(
            prompt as int,
            completion as int,
            cached as int,
            (CreditView {
                usage: credit_usage,
                unit: opt_view(*credit_unit),
                unit_plural: opt_view(*credit_unit_plural),
            }),
        ),
{
    let report = Json::object().with("prompt_tokens", Json::Int(prompt)).with(
        "completion_tokens",
        Json::Int(completion),
    ).with("total_tokens", Json::Int(prompt + completion)).with(
        "prompt_tokens_details",
        Json::object().with("cached_tokens", Json::Int(cached)),
    ).with(
        "completion_tokens_details",
        Json::object().with("reasoning_tokens", Json::Int(0)),
    );
    match credit_usage {
        Some(bits) => put_text(
            put_text(report.with("credit_usage", Json::Float(bits)), "credit_unit", credit_unit),
            "credit_unit_plural",
            credit_unit_plural,
        ),
        None => report,
    }
}

/// The reason that a response ended for, in the words of chat completions.
pub open spec fn finish_reason(stop_reason: Seq<char>, has_tool_calls: bool) -> Seq<char> {
    if stop_reason == "tool_use"@ {
        "tool_calls"@
    } else if stop_reason == "max_tokens"@ || stop_reason == "model_context_window_exceeded"@ {
        "length"@
    } else if has_tool_calls {
        "tool_calls"@
    } else {
        "stop"@
    }
}

/// The reason that a response ended for, in the words of chat completions.
pub fn map_finish_reason(stop_reason: &str, has_tool_calls: bool) -> (r: &'static str)
    ensures
        r@ == finish_reason(stop_reason@, has_tool_calls),
{
    if str_eq(stop_reason, "tool_use") {
        "tool_calls"
    } else if str_eq(stop_reason, "max_tokens") || str_eq(
        stop_reason,
        "model_context_window_exceeded",
    ) {
        "length"
    } else if has_tool_calls {
        "tool_calls"
    } else {
        "stop"
    }
}

} // verus!
