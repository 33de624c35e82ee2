//! What is told of a call: the messages of its errors, and excerpts of answers.

use vstd::prelude::*;
use vstd::utf8::{encode_utf8, encode_utf8_decode_utf8};

use crate::encoding::lossy;
use crate::json::JsonView;
use crate::kiro::error::{error_message, kind_label, note_text, status_line, CallError, CallKind, Note};
use crate::kiro::parser::decoder::{header_value, FrameView, HeaderView};
use crate::kiro::snippet::{
    answer_text, excerpt, faults, header_is, snippet_of, told_all, told_by, ToldView,
};
use crate::text::{decimal, is_blank, join_spec};

verus! {

broadcast use vstd::string::group_string_axioms;

/// The message of a refusal tells the kind of call, what follows from it, the status
/// and the body; other errors are told by their own text.
pub proof fn messages_tell_the_reason(
    kind: CallKind,
    note: Note,
    status: u16,
    body: String,
    n: usize,
)
    ensures
        error_message(CallError::Refused { kind, note, status, body }) == kind_label(kind)
            + note_text(kind, note) + ": "@ + status_line(status) + " "@ + body@,
        error_message(CallError::Other(body)) == body@,
        error_message(CallError::Exhausted { kind, max_retries: n }) == kind_label(kind)
            + "：已达到最大重试次数（"@ + decimal(n as nat) + "次）"@,
        kind_label(CallKind::Api { stream: true }) == "流式 API 请求失败"@,
        kind_label(CallKind::Api { stream: false }) == "非流式 API 请求失败"@,
        kind_label(CallKind::Mcp) == "MCP 请求失败"@,
        note_text(kind, Note::Plain) == Seq::<char>::empty(),
        note_text(kind, Note::AllUsed) == "（所有凭据已用尽）"@,
        note_text(kind, Note::Suspended) == "（账号封禁）"@,
        status > 999 ==> status_line(status) == decimal(status as nat),
        100 <= status <= 999 ==> status_line(status) == crate::kiro::error::status_display(status),
{
}

/// The note on a change of the credential names the credential that was left.
pub proof fn a_change_names_the_credential(id: u64)
    ensures
        note_text(CallKind::Mcp, Note::Switched { id }) == "（凭据 #"@ + decimal(id as nat)
            + " 普通 429，已切换其它凭据重试）"@,
        note_text(CallKind::Api { stream: true }, Note::Switched { id }) == "（凭据 #"@ + decimal(
            id as nat,
        ) + " 429，备用端点也失败，已切换其它凭据重试）"@,
        note_text(CallKind::Api { stream: false }, Note::Switched { id }) == note_text(
            CallKind::Api { stream: true },
            Note::Switched { id },
        ),
{
}

/// Of two headers with one name the later one counts, and a header of another name
/// changes nothing.
pub proof fn the_last_header_counts(headers: Seq<HeaderView>, h: HeaderView, name: Seq<u8>)
    ensures
        header_value(headers.push(h), h.name) == Some(h.value),
        name != h.name ==> header_value(headers.push(h), name) == header_value(headers, name),
        header_value(Seq::empty(), name) is None,
{
    assert(headers.push(h).drop_last() =~= headers);
}

/// A piece of an answer is told with its text; it is known by its headers.
pub proof fn an_answer_is_told_with_its_text(f: FrameView, payload: JsonView, t: Seq<char>)
    requires
        header_value(f.headers, encode_utf8(":message-type"@)) is None || header_value(
            f.headers,
            encode_utf8(":message-type"@),
        ) == Some(encode_utf8("event"@)),
        header_value(f.headers, encode_utf8(":event-type"@)) == Some(
            encode_utf8("assistantResponseEvent"@),
        ),
        payload.get_str("content"@) == Some(t),
    ensures
        told_by(f, Some(payload)) == ToldView::Answer(t),
        told_by(f, None) is Nothing,
{
}

/// An error of the service is told with its code and its payload, and an exception
/// with its type.
pub proof fn a_fault_is_told_with_its_code(
    f: FrameView,
    payload: Option<JsonView>,
    code: Seq<u8>,
)
    ensures
        header_value(f.headers, encode_utf8(":message-type"@)) == Some(encode_utf8("error"@)) ==> {
            &&& header_value(f.headers, encode_utf8(":error-code"@)) == Some(code) ==> told_by(
                f,
                payload,
            ) == ToldView::Fault(lossy(code) + ": "@ + lossy(f.payload))
            &&& header_value(f.headers, encode_utf8(":error-code"@)) is None ==> told_by(f, payload)
                == ToldView::Fault("UnknownError"@ + ": "@ + lossy(f.payload))
        },
        header_value(f.headers, encode_utf8(":message-type"@)) == Some(encode_utf8("exception"@))
            ==> {
            &&& header_value(f.headers, encode_utf8(":exception-type"@)) == Some(code) ==> told_by(
                f,
                payload,
            ) == ToldView::Fault(lossy(code) + ": "@ + lossy(f.payload))
            &&& header_value(f.headers, encode_utf8(":exception-type"@)) is None ==> told_by(
                f,
                payload,
            ) == ToldView::Fault("UnknownException"@ + ": "@ + lossy(f.payload))
        },
{
    lemma_kinds_differ();
}

/// The kinds of frames are told apart by their bytes.
proof fn lemma_kinds_differ()
    ensures
        encode_utf8("error"@) != encode_utf8("event"@),
        encode_utf8("exception"@) != encode_utf8("event"@),
        encode_utf8("exception"@) != encode_utf8("error"@),
{
    reveal_strlit("error");
    reveal_strlit("event");
    reveal_strlit("exception");
    encode_utf8_decode_utf8("error"@);
    encode_utf8_decode_utf8("event"@);
    encode_utf8_decode_utf8("exception"@);
    assert("error"@[1] != "event"@[1]);
    assert("exception"@.len() == 9 && "error"@.len() == 5 && "event"@.len() == 5);
}

/// A frame more tells what it tells after what was told, and changes nothing of that.
pub proof fn frames_are_told_in_order(frames: Seq<FrameView>, f: FrameView)
    ensures
        told_all(frames.push(f)) == told_all(frames).push(
            told_by(f, crate::kiro::snippet::json_of(f.payload)),
        ),
{
    assert(told_all(frames.push(f)) =~= told_all(frames).push(
        told_by(f, crate::kiro::snippet::json_of(f.payload)),
    ));
}

/// Pieces of an answer are put together in their order, and errors are listed in
/// theirs.
pub proof fn what_is_told_is_put_together(told: Seq<ToldView>, t: Seq<char>)
    ensures
        answer_text(told.push(ToldView::Answer(t))) == answer_text(told) + t,
        faults(told.push(ToldView::Answer(t))) == faults(told),
        answer_text(told.push(ToldView::Fault(t))) == answer_text(told),
        faults(told.push(ToldView::Fault(t))) == faults(told).push(t),
        answer_text(told.push(ToldView::Nothing)) == answer_text(told),
        faults(told.push(ToldView::Nothing)) == faults(told),
        answer_text(Seq::empty()).len() == 0,
        faults(Seq::empty()).len() == 0,
{
    assert(told.push(ToldView::Answer(t)).drop_last() =~= told);
    assert(told.push(ToldView::Fault(t)).drop_last() =~= told);
    assert(told.push(ToldView::Nothing).drop_last() =~= told);
}

/// An excerpt shows the answer where there is one, else the errors line by line, else
/// the bytes as they are; and no more of it than the limit allows.
pub proof fn an_excerpt_shows_the_answer_first(
    told: Seq<ToldView>,
    plain: Seq<char>,
    limit: usize,
)
    ensures
        ({
            let text = if !is_blank(answer_text(told)) {
                answer_text(told)
            } else if faults(told).len() > 0 {
                join_spec(faults(told), "\n"@)
            } else {
                plain
            };
            &&& text.len() == 0 ==> excerpt(told, plain, limit) is None
            &&& 0 < text.len() <= limit ==> excerpt(told, plain, limit) == Some(text)
            &&& text.len() > limit ==> (excerpt(told, plain, limit) matches Some(shown)
                && shown.len() == limit && shown == text.take(limit as int))
        }),
        snippet_of(plain, limit) matches Some(shown) ==> shown == plain || shown == plain.take(
            limit as int,
        ),
{
}

/// A header has a value where its bytes are those of the text.
pub proof fn a_header_is_compared_by_its_bytes(f: FrameView, name: Seq<char>, text: Seq<char>)
    ensures
        header_is(f, name, text) <==> header_value(f.headers, encode_utf8(name)) == Some(
            encode_utf8(text),
        ),
{
}

} // verus!
