//! Frames of an event stream.
//!
//! A frame is made of its length, the length of its headers, a checksum of
//! those two, the headers, the payload, and a checksum of all before it. The
//! numbers are big-endian.

use vstd::prelude::*;
use vstd::slice::{slice_subrange, slice_to_vec};

use crate::encoding::same_bytes;
use crate::kiro::parser::crc::{checksum, crc32};

verus! {

/// A header whose value is text.
#[derive(Debug, PartialEq, Eq)]
pub struct Header {
    pub name: Vec<u8>,
    pub value: Vec<u8>,
}

/// A frame, as far as its headers are text.
#[derive(Debug, PartialEq, Eq)]
pub struct Frame {
    pub headers: Vec<Header>,
    pub payload: Vec<u8>,
}

/// A header whose value is text.
pub struct HeaderView {
    pub name: Seq<u8>,
    pub value: Seq<u8>,
}

/// A frame, as far as its headers are text.
pub struct FrameView {
    pub headers: Seq<HeaderView>,
    pub payload: Seq<u8>,
}

impl Header {
    pub open spec fn view(&self) -> HeaderView {
        HeaderView { name: self.name@, value: self.value@ }
    }
}

pub open spec fn header_views(list: Seq<Header>) -> Seq<HeaderView> {
    list.map_values(|h: Header| h@)
}

impl Frame {
    pub open spec fn view(&self) -> FrameView {
        FrameView { headers: header_views(self.headers@), payload: self.payload@ }
    }
}

pub open spec fn frame_views(list: Seq<Frame>) -> Seq<FrameView> {
    list.map_values(|f: Frame| f@)
}

/// The number in two bytes from `i` on.
pub open spec fn be16(b: Seq<u8>, i: int) -> int {
    b[i] * 0x100 + b[i + 1]
}

/// The number in four bytes from `i` on.
pub open spec fn be32(b: Seq<u8>, i: int) -> int {
    b[i] * 0x100_0000 + b[i + 1] * 0x1_0000 + b[i + 2] * 0x100 + b[i + 3]
}

/// The length of a header's value of a given type, which starts at `i`.
pub open spec fn value_size(h: Seq<u8>, kind: u8, i: int) -> Option<int> {
    if kind == 0 || kind == 1 {
        Some(0)
    } else if kind == 2 {
        Some(1)
    } else if kind == 3 {
        Some(2)
    } else if kind == 4 {
        Some(4)
    } else if kind == 5 || kind == 8 {
        Some(8)
    } else if kind == 9 {
        Some(16)
    } else if (kind == 6 || kind == 7) && i + 2 <= h.len() {
        Some(2 + be16(h, i))
    } else {
        None
    }
}

/// The length of the first header in `h`: a byte with the length of its name,
/// the name, a byte with the type of its value, and the value.
pub open spec fn header_size(h: Seq<u8>) -> Option<int> {
    if h.len() < 1 || h.len() < h[0] + 2 {
        None
    } else {
        match value_size(h, h[h[0] + 1], h[0] + 2) {
            Some(n) => if h[0] + 2 + n <= h.len() {
                Some(h[0] + 2 + n)
            } else {
                None
            },
            None => None,
        }
    }
}

/// The first header in `h`, if its value is text.
pub open spec fn first_header(h: Seq<u8>, size: int) -> Seq<HeaderView> {
    if h[h[0] + 1] == 7 {
        seq![
            HeaderView {
                name: h.subrange(1, h[0] + 1),
                value: h.subrange(h[0] + 4, size),
            },
        ]
    } else {
        Seq::empty()
    }
}

/// The headers in `h`, as far as they are text.
pub open spec fn headers_of(h: Seq<u8>) -> Option<Seq<HeaderView>>
    decreases h.len(),
{
    if h.len() == 0 {
        Some(Seq::empty())
    } else {
        match header_size(h) {
            None => None,
            Some(n) => match headers_of(h.skip(n)) {
                None => None,
                Some(rest) => Some(first_header(h, n) + rest),
            },
        }
    }
}

/// The length that the frame at the start of `b` tells of itself, where the
/// checksum of its lengths fits and all of it has come.
pub open spec fn told_size(b: Seq<u8>) -> Option<int> {
    if b.len() < 16 || be32(b, 0) < be32(b, 4) + 16 || be32(b, 0) > b.len() || be32(b, 8)
        != checksum(b.subrange(0, 8)) {
        None
    } else {
        Some(be32(b, 0))
    }
}

/// The length of the frame at the start of `b`, where both checksums fit.
pub open spec fn frame_size(b: Seq<u8>) -> Option<int> {
    match told_size(b) {
        Some(n) => if be32(b, n - 4) == checksum(b.subrange(0, n - 4)) {
            Some(n)
        } else {
            None
        },
        None => None,
    }
}

/// The frame at the start of `b`.
pub open spec fn first_frame(b: Seq<u8>) -> Option<FrameView> {
    match frame_size(b) {
        None => None,
        Some(n) => match headers_of(b.subrange(12, 12 + be32(b, 4))) {
            None => None,
            Some(headers) => Some(
                FrameView { headers, payload: b.subrange(12 + be32(b, 4), n - 4) },
            ),
        },
    }
}

/// The frame at the start of `b`, or none.
pub open spec fn frame_seq(b: Seq<u8>) -> Seq<FrameView> {
    match first_frame(b) {
        Some(frame) => seq![frame],
        None => Seq::empty(),
    }
}

/// The frames in `b`. A damaged frame is passed over; where its lengths are
/// damaged too, or a frame is incomplete, nothing after it can be found.
pub open spec fn frames_in(b: Seq<u8>) -> Seq<FrameView>
    decreases b.len(),
{
    match told_size(b) {
        None => Seq::empty(),
        Some(n) => frame_seq(b) + frames_in(b.skip(n)),
    }
}

fn read16(b: &[u8], i: usize) -> (r: usize)
    requires
        i + 2 <= b@.len(),
    ensures
        r == be16(b@, i as int),
{
    (b[i] as usize) * 0x100 + (b[i + 1] as usize)
}

fn read32(b: &[u8], i: usize) -> (r: u64)
    requires
        i + 4 <= b@.len(),
    ensures
        r == be32(b@, i as int),
        r <= 0xffff_ffff,
{
    (b[i] as u64) * 0x100_0000 + (b[i + 1] as u64) * 0x1_0000 + (b[i + 2] as u64) * 0x100 + (b[i
        + 3] as u64)
}

fn read_header_size(h: &[u8]) -> (r: Option<usize>)
    ensures
        match r {
            Some(n) => header_size(h@) == Some(n as int) && 2 <= n <= h@.len(),
            None => header_size(h@) is None,
        },
{
    let len: usize = h.len();
    if len < 1 {
        return None;
    }
    let start: usize = h[0] as usize + 2;
    if len < start {
        return None;
    }
    let kind: u8 = h[start - 1];
    let n: usize = if kind == 0 || kind == 1 {
        0
    } else if kind == 2 {
        1
    } else if kind == 3 {
        2
    } else if kind == 4 {
        4
    } else if kind == 5 || kind == 8 {
        8
    } else if kind == 9 {
        16
    } else if kind == 6 || kind == 7 {
        if len - start < 2 {
            return None;
        }
        2 + read16(h, start)
    } else {
        return None;
    };
    if n <= len - start {
        Some(start + n)
    } else {
        None
    }
}

fn read_headers(h: &[u8]) -> (r: Option<Vec<Header>>)
    ensures
        match r {
            Some(list) => headers_of(h@) == Some(header_views(list@)),
            None => headers_of(h@) is None,
        },
{
    let mut out: Vec<Header> = Vec::new();
    let mut rest: &[u8] = h;
    assert(header_views(out@) =~= Seq::<HeaderView>::empty());
    proof {
        if headers_of(h@) is Some {
            assert(header_views(out@) + headers_of(h@)->0 =~= headers_of(h@)->0);
        }
    }
    while rest.len() > 0
        invariant
            headers_of(h@) is Some <==> headers_of(rest@) is Some,
            headers_of(h@) is Some ==> headers_of(h@)->0 == header_views(out@) + headers_of(
                rest@,
            )->0,
        decreases rest@.len(),
    {
        match read_header_size(rest) {
            None => {
                return None;
            },
            Some(n) => {
                let ghost whole = rest@;
                let ghost before = out@;
                let start: usize = rest[0] as usize + 2;
                let len: usize = rest.len();
                if rest[start - 1] == 7 {
                    let name = slice_to_vec(slice_subrange(rest, 1, start - 1));
                    let value = slice_to_vec(slice_subrange(rest, start + 2, n));
                    out.push(Header { name, value });
                }
                rest = slice_subrange(rest, n, len);
                proof {
                    assert(rest@ =~= whole.skip(n as int));
                    assert(header_views(out@) =~= header_views(before) + first_header(
                        whole,
                        n as int,
                    ));
                    if headers_of(rest@) is Some {
                        assert(header_views(before) + (first_header(whole, n as int) + headers_of(
                            rest@,
                        )->0) =~= header_views(out@) + headers_of(rest@)->0);
                    }
                }
            },
        }
    }
    assert(headers_of(rest@)->0 =~= Seq::<HeaderView>::empty());
    assert(header_views(out@) + headers_of(rest@)->0 =~= header_views(out@));
    Some(out)
}

/// Reads the length that the frame at the start of some bytes tells of itself.
fn read_size(b: &[u8]) -> (r: Option<usize>)
    ensures
        match r {
            Some(n) => told_size(b@) == Some(n as int) && 16 <= n <= b@.len(),
            None => told_size(b@) is None,
        },
{
    let len: usize = b.len();
    if len < 16 {
        return None;
    }
    let total: u64 = read32(b, 0);
    let head: u64 = read32(b, 4);
    if total < head + 16 || total > len as u64 {
        return None;
    }
    if read32(b, 8) != crc32(slice_subrange(b, 0, 8)) as u64 {
        return None;
    }
    Some(total as usize)
}

/// Reads the frame at the start of some bytes; with it comes its length.
pub fn read_frame(b: &[u8]) -> (r: Option<(Frame, usize)>)
    ensures
        match r {
            Some((frame, n)) => first_frame(b@) == Some(frame@) && frame_size(b@) == Some(
                n as int,
            ) && 16 <= n <= b@.len(),
            None => first_frame(b@) is None,
        },
{
    let n: usize = match read_size(b) {
        Some(n) => n,
        None => {
            return None;
        },
    };
    let cut: usize = 12 + read32(b, 4) as usize;
    if read32(b, n - 4) != crc32(slice_subrange(b, 0, n - 4)) as u64 {
        return None;
    }
    match read_headers(slice_subrange(b, 12, cut)) {
        Some(headers) => {
            let payload = slice_to_vec(slice_subrange(b, cut, n - 4));
            Some((Frame { headers, payload }, n))
        },
        None => None,
    }
}

/// Reads the frames in some bytes, and passes over those that are damaged.
pub fn read_frames(b: &[u8]) -> (r: Vec<Frame>)
    ensures
        frame_views(r@) == frames_in(b@),
{
    let mut out: Vec<Frame> = Vec::new();
    let mut rest: &[u8] = b;
    assert(frame_views(out@) + frames_in(b@) =~= frames_in(b@));
    loop
        invariant
            frames_in(b@) == frame_views(out@) + frames_in(rest@),
        decreases rest@.len(),
    {
        match read_size(rest) {
            Some(n) => {
                let ghost whole = rest@;
                let ghost before = out@;
                let len: usize = rest.len();
                match read_frame(rest) {
                    Some((frame, _)) => {
                        out.push(frame);
                    },
                    None => {},
                }
                rest = slice_subrange(rest, n, len);
                proof {
                    assert(rest@ =~= whole.skip(n as int));
                    assert(frame_views(out@) =~= frame_views(before) + frame_seq(whole));
                    assert(frame_views(before) + (frame_seq(whole) + frames_in(rest@))
                        =~= frame_views(out@) + frames_in(rest@));
                }
            },
            None => {
                assert(frame_views(out@) + Seq::<FrameView>::empty() =~= frame_views(out@));
                return out;
            },
        }
    }
}

/// The value of a header.
pub open spec fn header_value(headers: Seq<HeaderView>, name: Seq<u8>) -> Option<Seq<u8>>
    decreases headers.len(),
{
    if headers.len() == 0 {
        None
    } else if headers.last().name == name {
        Some(headers.last().value)
    } else {
        header_value(headers.drop_last(), name)
    }
}

impl Frame {
    /// The value of a header; of two with one name the later one counts.
    pub fn header(&self, name: &[u8]) -> (r: Option<&Vec<u8>>)
        ensures
            (match r {
                Some(v) => Some(v@),
                None => None,
            }) == header_value(self@.headers, name@),
    {
        let mut i: usize = self.headers.len();
        let ghost all = self@.headers;
        assert(all.take(all.len() as int) =~= all);
        while i > 0
            invariant
                i <= self.headers@.len(),
                all == header_views(self.headers@),
                header_value(all, name@) == header_value(all.take(i as int), name@),
            decreases i,
        {
            i -= 1;
            assert(all.take(i + 1).drop_last() =~= all.take(i as int));
            assert(all.take(i + 1).last() == self.headers@[i as int]@);
            if same_bytes(self.headers[i].name.as_slice(), name) {
                assert(header_value(all, name@) == Some(self.headers@[i as int].value@));
                return Some(&self.headers[i].value);
            }
        }
        None
    }
}

} // verus!
