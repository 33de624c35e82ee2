//! A readable excerpt of an answer.

use vstd::prelude::*;
use vstd::string::*;
use vstd::utf8::encode_utf8;

use crate::encoding::{lossy, lossy_text, same_bytes};
use crate::json::{json_parse_bytes, parse_json_bytes, JsonView};
use crate::kiro::parser::decoder::{
    frame_views, frames_in, header_value, read_frames, Frame, FrameView,
};
use crate::text::{is_blank, is_blank_str, join_spec, join_strings, opt_view, views};

verus! {

broadcast use vstd::string::group_string_axioms;

/// What a frame tells a reader.
#[derive(Debug, PartialEq, Eq)]
pub enum Told {
    /// A piece of the answer.
    Answer(String),
    /// An error of the service.
    Fault(String),
    /// Nothing.
    Nothing,
}

/// What a frame tells a reader.
pub enum ToldView {
    Answer(Seq<char>),
    Fault(Seq<char>),
    Nothing,
}

impl Told {
    pub open spec fn view(&self) -> ToldView {
        match self {
            Told::Answer(t) => ToldView::Answer(t@),
            Told::Fault(t) => ToldView::Fault(t@),
            Told::Nothing => ToldView::Nothing,
        }
    }
}

/// The value of a header is `text`.
pub open spec fn header_is(f: FrameView, name: Seq<char>, text: Seq<char>) -> bool {
    header_value(f.headers, encode_utf8(name)) == Some(encode_utf8(text))
}

/// The text of a header, or a text in its place.
pub open spec fn header_text(f: FrameView, name: Seq<char>, otherwise: Seq<char>) -> Seq<char> {
    match header_value(f.headers, encode_utf8(name)) {
        Some(v) => lossy(v),
        None => otherwise,
    }
}

/// A frame is an event unless its headers say otherwise.
pub open spec fn is_event(f: FrameView) -> bool {
    header_value(f.headers, encode_utf8(":message-type"@)) is None || header_is(
        f,
        ":message-type"@,
        "event"@,
    )
}

/// What a frame tells, where its payload reads as the JSON document `payload`.
pub open spec fn told_by(f: FrameView, payload: Option<JsonView>) -> ToldView {
    if is_event(f) {
        if header_is(f, ":event-type"@, "assistantResponseEvent"@) {
            match payload {
                Some(j) => match j.get_str("content"@) {
                    Some(t) => ToldView::Answer(t),
                    None => ToldView::Nothing,
                },
                None => ToldView::Nothing,
            }
        } else {
            ToldView::Nothing
        }
    } else if header_is(f, ":message-type"@, "error"@) {
        ToldView::Fault(
            header_text(f, ":error-code"@, "UnknownError"@) + ": "@ + lossy(f.payload),
        )
    } else if header_is(f, ":message-type"@, "exception"@) {
        ToldView::Fault(
            header_text(f, ":exception-type"@, "UnknownException"@) + ": "@ + lossy(f.payload),
        )
    } else {
        ToldView::Nothing
    }
}

/// The JSON document that bytes read as.
pub open spec fn json_of(bytes: Seq<u8>) -> Option<JsonView> {
    match json_parse_bytes(bytes) {
        Ok(j) => Some(j),
        Err(_) => None,
    }
}

/// What frames tell a reader.
pub open spec fn told_all(frames: Seq<FrameView>) -> Seq<ToldView> {
    frames.map_values(|f: FrameView| told_by(f, json_of(f.payload)))
}

/// The pieces of the answer, put together.
pub open spec fn answer_text(told: Seq<ToldView>) -> Seq<char>
    decreases told.len(),
{
    if told.len() == 0 {
        Seq::empty()
    } else {
        match told.last() {
            ToldView::Answer(t) => answer_text(told.drop_last()) + t,
            _ => answer_text(told.drop_last()),
        }
    }
}

/// The errors, in their order.
pub open spec fn faults(told: Seq<ToldView>) -> Seq<Seq<char>>
    decreases told.len(),
{
    if told.len() == 0 {
        Seq::empty()
    } else {
        match told.last() {
            ToldView::Fault(t) => faults(told.drop_last()).push(t),
            _ => faults(told.drop_last()),
        }
    }
}

/// What is shown of a text: its first characters, up to a limit. Of no text
/// nothing is shown.
pub open spec fn snippet_of(text: Seq<char>, limit: usize) -> Option<Seq<char>> {
    if text.len() == 0 {
        None
    } else if text.len() <= limit {
        Some(text)
    } else {
        Some(text.take(limit as int))
    }
}

/// What is shown of a text begins it, and stays within the limit. Showing it again
/// within the same limit changes nothing.
pub proof fn snippets_stay_within_the_limit(text: Seq<char>, limit: usize)
    ensures
        snippet_of(text, limit) matches Some(shown) ==> shown.len() <= limit
            && shown.is_prefix_of(text) && (limit > 0 ==> snippet_of(shown, limit) == Some(shown)),
        snippet_of(text, limit) is None <==> text.len() == 0,
{
}

/// Cuts a text to its first characters, up to a limit.
pub fn truncate_snippet(text: &str, limit: usize) -> (r: Option<String>)
    ensures
        opt_view(r) == snippet_of(text@, limit),
{
    let len: usize = text.unicode_len();
    if len == 0 {
        None
    } else if len <= limit {
        Some(text.to_owned())
    } else {
        assert(text@.subrange(0, limit as int) =~= text@.take(limit as int));
        Some(text.substring_char(0, limit).to_owned())
    }
}

/// The excerpt that what was told amounts to, of an answer whose bytes read as
/// `plain`: of the text of the answer, else of the errors, else of the bytes as
/// they are, what is shown within a limit.
pub open spec fn excerpt(told: Seq<ToldView>, plain: Seq<char>, limit: usize) -> Option<
    Seq<char>,
> {
    let text = if !is_blank(answer_text(told)) {
        answer_text(told)
    } else if faults(told).len() > 0 {
        join_spec(faults(told), "\n"@)
    } else {
        plain
    };
    snippet_of(text, limit)
}

fn header_is_text(f: &Frame, name: &str, text: &str) -> (r: bool)
    ensures
        r == header_is(f@, name@, text@),
{
    match f.header(name.as_bytes()) {
        Some(v) => same_bytes(v.as_slice(), text.as_bytes()),
        None => false,
    }
}

fn fault_of(f: &Frame, name: &str, otherwise: &str) -> (r: Told)
    ensures
        r@ == ToldView::Fault(header_text(f@, name@, otherwise@) + ": "@ + lossy(f@.payload)),
{
    let mut text = match f.header(name.as_bytes()) {
        Some(v) => lossy_text(v.as_slice()),
        None => otherwise.to_owned(),
    };
    text.push_str(": ");
    text.push_str(lossy_text(f.payload.as_slice()).as_str());
    Told::Fault(text)
}

/// What a frame tells a reader.
pub fn tell(f: &Frame) -> (r: Told)
    ensures
        r@ == told_by(f@, json_of(f@.payload)),
{
    let event = match f.header(":message-type".as_bytes()) {
        None => true,
        Some(v) => same_bytes(v.as_slice(), "event".as_bytes()),
    };
    if event {
        if header_is_text(f, ":event-type", "assistantResponseEvent") {
            match parse_json_bytes(f.payload.as_slice()) {
                Ok(j) => match j.get_str("content") {
                    Some(t) => Told::Answer(t.to_owned()),
                    None => Told::Nothing,
                },
                Err(_) => Told::Nothing,
            }
        } else {
            Told::Nothing
        }
    } else if header_is_text(f, ":message-type", "error") {
        fault_of(f, ":error-code", "UnknownError")
    } else if header_is_text(f, ":message-type", "exception") {
        fault_of(f, ":exception-type", "UnknownException")
    } else {
        Told::Nothing
    }
}

pub open spec fn told_views(told: Seq<Told>) -> Seq<ToldView> {
    told.map_values(|t: Told| t@)
}

/// The excerpt that what was told amounts to.
pub fn excerpt_of(told: &Vec<Told>, plain: &str, limit: usize) -> (r: Option<String>)
    ensures
        opt_view(r) == excerpt(told_views(told@), plain@, limit),
{
    let mut answer = String::new();
    let mut errors: Vec<String> = Vec::new();
    let mut i: usize = 0;
    let ghost all = told_views(told@);
    assert(all.take(0) =~= Seq::<ToldView>::empty());
    assert(views(errors@) =~= Seq::<Seq<char>>::empty());
    while i < told.len()
        invariant
            i <= told@.len(),
            all == told_views(told@),
            answer@ == answer_text(all.take(i as int)),
            views(errors@) == faults(all.take(i as int)),
        decreases told@.len() - i,
    {
        assert(all.take(i + 1).drop_last() =~= all.take(i as int));
        assert(all.take(i + 1).last() == told@[i as int]@);
        match &told[i] {
            Told::Answer(t) => {
                answer.push_str(t.as_str());
            },
            Told::Fault(t) => {
                let ghost before = errors@;
                errors.push(t.clone());
                assert(views(errors@) =~= views(before).push(t@));
            },
            Told::Nothing => {},
        }
        i += 1;
    }
    assert(all.take(all.len() as int) =~= all);
    assert(views(errors@).len() == errors@.len());
    let text = if !is_blank_str(answer.as_str()) {
        answer
    } else if errors.len() > 0 {
        join_strings(&errors, "\n")
    } else {
        plain.to_owned()
    };
    truncate_snippet(text.as_str(), limit)
}

/// A readable excerpt of an answer: the text that its event stream carries, else
/// the errors in it, else the bytes as they are, up to so many characters.
pub fn readable_response_snippet_from_bytes(body: &[u8], limit: usize) -> (r: Option<String>)
    ensures
        opt_view(r) == excerpt(told_all(frames_in(body@)), lossy(body@), limit),
{
    let frames = read_frames(body);
    let mut told: Vec<Told> = Vec::new();
    let mut i: usize = 0;
    while i < frames.len()
        invariant
            i <= frames@.len(),
            told@.len() == i,
            frame_views(frames@) == frames_in(body@),
            forall|k: int|
                0 <= k < i ==> (#[trigger] told@[k])@ == told_by(
                    frames@[k]@,
                    json_of(frames@[k]@.payload),
                ),
        decreases frames@.len() - i,
    {
        told.push(tell(&frames[i]));
        i += 1;
    }
    assert(told_views(told@) =~= told_all(frames_in(body@))) by {
        assert forall|k: int| 0 <= k < told@.len() implies told_views(told@)[k] == told_all(
            frames_in(body@),
        )[k] by {
            assert(frame_views(frames@)[k] == frames@[k]@);
        }
    }
    excerpt_of(&told, lossy_text(body).as_str(), limit)
}

} // verus!
