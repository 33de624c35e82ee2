//! Frames of server-sent events, and the fields in them.

use vstd::prelude::*;
use vstd::slice::{slice_subrange, slice_to_vec};

use crate::text::{
    chars_of, opt_view, split_by, split_with, strip_prefix_spec, strip_prefix_str, trim,
    trim_start, trim_start_str, trim_str, views,
};

verus! {

broadcast use vstd::string::group_string_axioms;

/// What the lines of a frame set.
#[derive(Debug, PartialEq, Eq)]
pub struct SseFields {
    /// The name of the event, as it was last set.
    pub event: Option<String>,
    /// The pieces of its data.
    pub data: Vec<String>,
}

/// What the lines of a frame set.
pub struct FieldsView {
    pub event: Option<Seq<char>>,
    pub data: Seq<Seq<char>>,
}

impl SseFields {
    pub open spec fn view(&self) -> FieldsView {
        FieldsView { event: opt_view(self.event), data: views(self.data@) }
    }
}

/// A line without the carriage returns at its end.
pub open spec fn without_cr(line: Seq<char>) -> Seq<char>
    decreases line.len(),
{
    if line.len() > 0 && line.last() == '\r' {
        without_cr(line.drop_last())
    } else {
        line
    }
}

/// What one more line sets. A line that is no field sets nothing.
pub open spec fn with_line(f: FieldsView, line: Seq<char>) -> FieldsView {
    match strip_prefix_spec(line, "event:"@) {
        Some(rest) => FieldsView { event: Some(trim(rest)), ..f },
        None => match strip_prefix_spec(line, "data:"@) {
            Some(rest) => FieldsView { data: f.data.push(trim_start(rest)), ..f },
            None => f,
        },
    }
}

/// What lines set.
pub open spec fn with_lines(lines: Seq<Seq<char>>) -> FieldsView
    decreases lines.len(),
{
    if lines.len() == 0 {
        FieldsView { event: None, data: Seq::empty() }
    } else {
        with_line(with_lines(lines.drop_last()), without_cr(lines.last()))
    }
}

/// What the lines of a frame set.
pub open spec fn fields_of(frame: Seq<char>) -> FieldsView {
    with_lines(split_by(frame, |c: char| c == '\n'))
}

fn is_line_end(c: char) -> (r: bool)
    ensures
        r == (c == '\n'),
{
    c == '\n'
}

fn strip_cr(line: &str) -> (r: &str)
    ensures
        r@ == without_cr(line@),
{
    let v = chars_of(line);
    let mut n: usize = v.len();
    assert(v@.take(n as int) =~= v@);
    while n > 0 && v[n - 1] == '\r'
        invariant
            n <= v@.len(),
            without_cr(v@) == without_cr(v@.take(n as int)),
        decreases n,
    {
        assert(v@.take(n as int).drop_last() =~= v@.take(n - 1));
        n -= 1;
    }
    assert(line@.subrange(0, n as int) =~= v@.take(n as int));
    vstd::string::StrSliceExecFns::substring_char(line, 0, n)
}

/// Reads the fields of a frame.
pub fn read_fields(frame: &str) -> (r: SseFields)
    ensures
        r@ == fields_of(frame@),
{
    let lines = split_with(frame, is_line_end, Ghost(|c: char| c == '\n'));
    let mut event: Option<String> = None;
    let mut data: Vec<String> = Vec::new();
    let mut i: usize = 0;
    let ghost all = views(lines@);
    assert(all.take(0) =~= Seq::<Seq<char>>::empty());
    assert(views(data@) =~= Seq::<Seq<char>>::empty());
    while i < lines.len()
        invariant
            i <= lines@.len(),
            all == views(lines@),
            opt_view(event) == with_lines(all.take(i as int)).event,
            views(data@) == with_lines(all.take(i as int)).data,
        decreases lines@.len() - i,
    {
        proof {
            assert(all.take(i + 1).drop_last() =~= all.take(i as int));
            assert(all.take(i + 1).last() == lines@[i as int]@);
        }
        let line = strip_cr(lines[i].as_str());
        match strip_prefix_str(line, "event:") {
            Some(rest) => {
                event = Some(trim_str(rest).to_owned());
            },
            None => match strip_prefix_str(line, "data:") {
                Some(rest) => {
                    let ghost before = data@;
                    let piece = trim_start_str(rest).to_owned();
                    data.push(piece);
                    assert(views(data@) =~= views(before).push(piece@));
                },
                None => {},
            },
        }
        i += 1;
    }
    assert(all.take(all.len() as int) =~= all);
    SseFields { event, data }
}

/// `pat` stands in `b` at `i`.
pub open spec fn stands_at(b: Seq<u8>, pat: Seq<u8>, i: int) -> bool {
    0 <= i && i + pat.len() <= b.len() && b.subrange(i, i + pat.len()) == pat
}

/// The first place from `i` on at which `pat` stands in `b`.
pub open spec fn first_from(b: Seq<u8>, pat: Seq<u8>, i: int) -> Option<int>
    decreases b.len() + 1 - i,
{
    if i < 0 || i + pat.len() > b.len() {
        None
    } else if stands_at(b, pat, i) {
        Some(i)
    } else {
        first_from(b, pat, i + 1)
    }
}

/// An empty line, after lines that end with a line feed.
pub open spec fn lf_gap() -> Seq<u8> {
    seq![10u8, 10u8]
}

/// An empty line, after lines that end with a carriage return and a line feed.
pub open spec fn crlf_gap() -> Seq<u8> {
    seq![13u8, 10u8, 13u8, 10u8]
}

/// Where the first frame in `b` ends, and the length of the empty line there.
pub open spec fn first_gap(b: Seq<u8>) -> Option<(int, int)> {
    match (first_from(b, lf_gap(), 0), first_from(b, crlf_gap(), 0)) {
        (Some(x), Some(y)) => if x <= y {
            Some((x, 2))
        } else {
            Some((y, 4))
        },
        (Some(x), None) => Some((x, 2)),
        (None, Some(y)) => Some((y, 4)),
        (None, None) => None,
    }
}

/// A space, a tab, a line feed, a form feed or a carriage return.
pub open spec fn is_ascii_space(b: u8) -> bool {
    b == 32 || b == 9 || b == 10 || b == 12 || b == 13
}

/// `b` has nothing but white space.
pub open spec fn is_blank_frame(b: Seq<u8>) -> bool {
    forall|i: int| 0 <= i < b.len() ==> is_ascii_space(#[trigger] b[i])
}

/// A frame, unless it is blank.
pub open spec fn kept_frame(b: Seq<u8>) -> Seq<Seq<u8>> {
    if is_blank_frame(b) {
        Seq::empty()
    } else {
        seq![b]
    }
}

proof fn lemma_first_from(b: Seq<u8>, pat: Seq<u8>, i: int)
    requires
        0 <= i,
        pat.len() > 0,
    ensures
        match first_from(b, pat, i) {
            Some(k) => i <= k && stands_at(b, pat, k) && forall|j: int|
                i <= j < k ==> !stands_at(b, pat, j),
            None => forall|j: int| i <= j ==> !stands_at(b, pat, j),
        },
    decreases b.len() + 1 - i,
{
    if i + pat.len() <= b.len() && !stands_at(b, pat, i) {
        lemma_first_from(b, pat, i + 1);
    }
}

proof fn lemma_gap_within(b: Seq<u8>)
    ensures
        first_gap(b) matches Some((p, n)) ==> 0 <= p && 2 <= n && p + n <= b.len(),
{
    lemma_first_from(b, lf_gap(), 0);
    lemma_first_from(b, crlf_gap(), 0);
}

/// The complete frames in `b`, but for blank ones, and what is left of it.
pub open spec fn sse_split(b: Seq<u8>) -> (Seq<Seq<u8>>, Seq<u8>)
    decreases b.len(),
{
    match first_gap(b) {
        Some((p, n)) => {
            if 0 <= p && 2 <= n && p + n <= b.len() {
                let rest = sse_split(b.skip(p + n));
                (kept_frame(b.take(p)) + rest.0, rest.1)
            } else {
                (Seq::empty(), b)
            }
        },
        None => (Seq::empty(), b),
    }
}

fn find_bytes(b: &[u8], pat: &[u8]) -> (r: Option<usize>)
    requires
        pat@.len() > 0,
    ensures
        match r {
            Some(k) => first_from(b@, pat@, 0) == Some(k as int) && k + pat@.len() <= b@.len(),
            None => first_from(b@, pat@, 0) is None,
        },
{
    let len: usize = b.len();
    let n: usize = pat.len();
    if len < n {
        return None;
    }
    let mut i: usize = 0;
    while i <= len - n
        invariant
            len == b@.len(),
            n == pat@.len(),
            0 < n <= len,
            i <= len - n + 1,
            first_from(b@, pat@, 0) == first_from(b@, pat@, i as int),
        decreases len + 1 - i,
    {
        if crate::encoding::same_bytes(slice_subrange(b, i, i + n), pat) {
            return Some(i);
        }
        i += 1;
    }
    None
}

fn find_gap(b: &[u8]) -> (r: Option<(usize, usize)>)
    ensures
        match r {
            Some((p, n)) => first_gap(b@) == Some((p as int, n as int)) && 2 <= n && p + n
                <= b@.len(),
            None => first_gap(b@) is None,
        },
{
    let lf: [u8; 2] = [10, 10];
    let crlf: [u8; 4] = [13, 10, 13, 10];
    assert(lf@ =~= lf_gap());
    assert(crlf@ =~= crlf_gap());
    match (find_bytes(b, lf.as_slice()), find_bytes(b, crlf.as_slice())) {
        (Some(x), Some(y)) => if x <= y {
            Some((x, 2))
        } else {
            Some((y, 4))
        },
        (Some(x), None) => Some((x, 2)),
        (None, Some(y)) => Some((y, 4)),
        (None, None) => None,
    }
}

fn has_content(b: &[u8]) -> (r: bool)
    ensures
        r == !is_blank_frame(b@),
{
    let mut i: usize = 0;
    while i < b.len()
        invariant
            i <= b@.len(),
            forall|k: int| 0 <= k < i ==> is_ascii_space(#[trigger] b@[k]),
        decreases b@.len() - i,
    {
        let c: u8 = b[i];
        if !(c == 32 || c == 9 || c == 10 || c == 12 || c == 13) {
            assert(!is_ascii_space(b@[i as int]));
            return true;
        }
        i += 1;
    }
    false
}

/// The views of a list of byte strings.
pub open spec fn byte_views(list: Seq<Vec<u8>>) -> Seq<Seq<u8>> {
    list.map_values(|v: Vec<u8>| v@)
}

/// Takes the complete frames out of a buffer; an empty line, in either notation,
/// ends a frame. Blank frames are dropped.
pub fn take_sse_frames(buffer: &mut Vec<u8>) -> (r: Vec<Vec<u8>>)
    ensures
        byte_views(r@) == sse_split(old(buffer)@).0,
        final(buffer)@ == sse_split(old(buffer)@).1,
{
    let mut frames: Vec<Vec<u8>> = Vec::new();
    let left = {
        let mut rest: &[u8] = buffer.as_slice();
        assert(byte_views(frames@) + sse_split(rest@).0 =~= sse_split(rest@).0);
        loop
            invariant
                sse_split(buffer@).0 == byte_views(frames@) + sse_split(rest@).0,
                sse_split(buffer@).1 == sse_split(rest@).1,
            ensures
                sse_split(rest@).0.len() == 0,
                sse_split(rest@).1 == rest@,
            decreases rest@.len(),
        {
            match find_gap(rest) {
                Some((p, n)) => {
                    let ghost whole = rest@;
                    let ghost before = frames@;
                    let frame = slice_subrange(rest, 0, p);
                    assert(frame@ =~= whole.take(p as int));
                    if has_content(frame) {
                        frames.push(slice_to_vec(frame));
                    }
                    let len: usize = rest.len();
                    rest = slice_subrange(rest, p + n, len);
                    proof {
                        assert(rest@ =~= whole.skip(p + n));
                        assert(byte_views(frames@) =~= byte_views(before) + kept_frame(
                            whole.take(p as int),
                        ));
                        assert(byte_views(before) + (kept_frame(whole.take(p as int)) + sse_split(
                            rest@,
                        ).0) =~= byte_views(frames@) + sse_split(rest@).0);
                    }
                },
                None => {
                    break;
                },
            }
        }
        assert(byte_views(frames@) + sse_split(rest@).0 =~= byte_views(frames@));
        slice_to_vec(rest)
    };
    *buffer = left;
    frames
}

proof fn lemma_stands_in_longer(b: Seq<u8>, more: Seq<u8>, pat: Seq<u8>, i: int)
    requires
        i + pat.len() <= b.len(),
    ensures
        stands_at(b + more, pat, i) == stands_at(b, pat, i),
{
    if 0 <= i {
        assert((b + more).subrange(i, i + pat.len()) =~= b.subrange(i, i + pat.len()));
    }
}

proof fn lemma_gap_stays(b: Seq<u8>, more: Seq<u8>)
    requires
        first_gap(b) is Some,
    ensures
        first_gap(b + more) == first_gap(b),
{
    let all = b + more;
    let (p, n) = first_gap(b)->0;
    lemma_first_from(b, lf_gap(), 0);
    lemma_first_from(b, crlf_gap(), 0);
    lemma_first_from(all, lf_gap(), 0);
    lemma_first_from(all, crlf_gap(), 0);
    lemma_gap_within(b);
    let pat = if n == 2 {
        lf_gap()
    } else {
        crlf_gap()
    };
    assert(stands_at(b, pat, p));
    lemma_stands_in_longer(b, more, pat, p);
    assert forall|j: int| 0 <= j < p implies !stands_at(all, lf_gap(), j) && !stands_at(
        all,
        crlf_gap(),
        j,
    ) by {
        lemma_stands_in_longer(b, more, lf_gap(), j);
        if j + 4 <= b.len() {
            lemma_stands_in_longer(b, more, crlf_gap(), j);
        } else {
            // Only a line feed pair right behind `j` can end before `b` does.
            assert(n == 2 && j == p - 1);
            assert(all.subrange(p, p + 2)[1] == 10);
            assert(all[p + 1] == 10);
            if stands_at(all, crlf_gap(), j) {
                assert(all.subrange(j, j + 4)[2] == 13);
                assert(all[j + 2] == 13);
            }
        }
    }
    if n == 4 {
        assert(all.subrange(p, p + 4)[1] == 10 && all.subrange(p, p + 4)[0] == 13);
        assert(all[p] == 13);
        if stands_at(all, lf_gap(), p) {
            assert(all.subrange(p, p + 2)[0] == 10);
        }
    }
}

/// It makes no difference where a stream is cut into chunks: the frames of one
/// chunk, and those of what is left of it with the next chunk, are those of both
/// chunks together.
pub proof fn chunks_make_no_difference(b: Seq<u8>, more: Seq<u8>)
    ensures
        ({
            let first = sse_split(b);
            let second = sse_split(first.1 + more);
            sse_split(b + more) == (first.0 + second.0, second.1)
        }),
    decreases b.len(),
{
    let first = sse_split(b);
    match first_gap(b) {
        Some((p, n)) => {
            lemma_gap_within(b);
            lemma_gap_stays(b, more);
            lemma_gap_within(b + more);
            chunks_make_no_difference(b.skip(p + n), more);
            assert((b + more).skip(p + n) =~= b.skip(p + n) + more);
            assert((b + more).take(p) =~= b.take(p));
            let rest = sse_split(b.skip(p + n));
            let second = sse_split(rest.1 + more);
            assert(kept_frame(b.take(p)) + (rest.0 + second.0) =~= (kept_frame(b.take(p)) + rest.0)
                + second.0);
        },
        None => {
            let second = sse_split(b + more);
            assert(first.0 + second.0 =~= second.0);
        },
    }
}

} // verus!
