//! How frames are written, and that they read back.

use vstd::prelude::*;

use crate::kiro::parser::crc::checksum;
use crate::kiro::parser::decoder::{
    be16, be32, first_frame, first_header, frame_size, frames_in, header_size, headers_of,
    told_size, value_size, FrameView, HeaderView,
};

verus! {

/// A number in two bytes.
pub open spec fn bytes16(n: int) -> Seq<u8> {
    seq![(n / 0x100) as u8, (n % 0x100) as u8]
}

/// A number in four bytes.
pub open spec fn bytes32(n: int) -> Seq<u8> {
    seq![
        (n / 0x100_0000) as u8,
        (n / 0x1_0000 % 0x100) as u8,
        (n / 0x100 % 0x100) as u8,
        (n % 0x100) as u8,
    ]
}

/// A header whose value is text, as it stands in a frame.
pub open spec fn header_bytes(h: HeaderView) -> Seq<u8> {
    seq![h.name.len() as u8] + h.name + seq![7u8] + bytes16(h.value.len() as int) + h.value
}

/// Headers, as they stand in a frame.
pub open spec fn headers_bytes(headers: Seq<HeaderView>) -> Seq<u8>
    decreases headers.len(),
{
    if headers.len() == 0 {
        Seq::empty()
    } else {
        header_bytes(headers.first()) + headers_bytes(headers.drop_first())
    }
}

/// The headers can be written.
pub open spec fn headers_fit(headers: Seq<HeaderView>) -> bool {
    forall|i: int|
        0 <= i < headers.len() ==> (#[trigger] headers[i]).name.len() < 0x100
            && headers[i].value.len() < 0x1_0000
}

/// A frame up to its last checksum.
pub open spec fn frame_body(f: FrameView) -> Seq<u8> {
    let headers = headers_bytes(f.headers);
    let lengths = bytes32((16 + headers.len() + f.payload.len()) as int) + bytes32(headers.len() as int);
    lengths + bytes32(checksum(lengths) as int) + headers + f.payload
}

/// A frame, as it is sent.
pub open spec fn frame_bytes(f: FrameView) -> Seq<u8> {
    frame_body(f) + bytes32(checksum(frame_body(f)) as int)
}

/// The frame can be written.
pub open spec fn frame_fits(f: FrameView) -> bool {
    headers_fit(f.headers) && 16 + headers_bytes(f.headers).len() + f.payload.len()
        <= 0xffff_ffff
}

proof fn lemma_bytes16(n: int, b: Seq<u8>, i: int)
    requires
        0 <= n < 0x1_0000,
        0 <= i,
        i + 2 <= b.len(),
        b.subrange(i, i + 2) == bytes16(n),
    ensures
        be16(b, i) == n,
{
    let w = b.subrange(i, i + 2);
    assert(w[0] == b[i] && w[1] == b[i + 1]);
}

proof fn lemma_bytes32(n: int, b: Seq<u8>, i: int)
    requires
        0 <= n <= 0xffff_ffff,
        0 <= i,
        i + 4 <= b.len(),
        b.subrange(i, i + 4) == bytes32(n),
    ensures
        be32(b, i) == n,
{
    let w = b.subrange(i, i + 4);
    assert(w[0] == b[i] && w[1] == b[i + 1] && w[2] == b[i + 2] && w[3] == b[i + 3]);
    assert(n == (n / 0x100_0000) * 0x100_0000 + (n / 0x1_0000 % 0x100) * 0x1_0000 + (n / 0x100
        % 0x100) * 0x100 + n % 0x100);
}

proof fn lemma_header_reads_back(h: HeaderView, rest: Seq<u8>)
    requires
        h.name.len() < 0x100,
        h.value.len() < 0x1_0000,
    ensures
        ({
            let b = header_bytes(h) + rest;
            &&& header_size(b) == Some(header_bytes(h).len() as int)
            &&& header_bytes(h).len() >= 4
            &&& first_header(b, header_bytes(h).len() as int) == seq![h]
            &&& b.skip(header_bytes(h).len() as int) == rest
        }),
{
    let b = header_bytes(h) + rest;
    let n = h.name.len() as int;
    let size = header_bytes(h).len() as int;
    assert(b[0] == n);
    assert(b[n + 1] == 7);
    assert(b.subrange(n + 2, n + 4) =~= bytes16(h.value.len() as int));
    lemma_bytes16(h.value.len() as int, b, n + 2);
    assert(b.subrange(1, n + 1) =~= h.name);
    assert(b.subrange(n + 4, size) =~= h.value);
    assert(b.skip(size) =~= rest);
}

/// Headers read back as they were written.
pub proof fn headers_read_back(headers: Seq<HeaderView>)
    requires
        headers_fit(headers),
    ensures
        headers_of(headers_bytes(headers)) == Some(headers),
    decreases headers.len(),
{
    if headers.len() == 0 {
        assert(headers =~= Seq::<HeaderView>::empty());
    } else {
        let h = headers.first();
        let rest = headers.drop_first();
        assert(h == headers[0]);
        assert(headers_fit(rest)) by {
            assert forall|i: int| 0 <= i < rest.len() implies (#[trigger] rest[i]).name.len() < 0x100
                && rest[i].value.len() < 0x1_0000 by {
                assert(rest[i] == headers[i + 1]);
            }
        }
        headers_read_back(rest);
        lemma_header_reads_back(h, headers_bytes(rest));
        assert(seq![h] + rest =~= headers);
    }
}

/// A frame reads back as it was written, whatever follows it, and what follows is
/// read as if it stood alone.
pub proof fn frames_read_back(f: FrameView, rest: Seq<u8>)
    requires
        frame_fits(f),
    ensures
        first_frame(frame_bytes(f) + rest) == Some(f),
        frame_size(frame_bytes(f) + rest) == Some(frame_bytes(f).len() as int),
        frames_in(frame_bytes(f) + rest) == seq![f] + frames_in(rest),
{
    let headers = headers_bytes(f.headers);
    let total = (16 + headers.len() + f.payload.len()) as int;
    let lengths = bytes32(total) + bytes32(headers.len() as int);
    let body = frame_body(f);
    let b = frame_bytes(f) + rest;
    let h = headers.len() as int;
    assert(frame_bytes(f).len() == total);
    assert(b.subrange(0, 4) =~= bytes32(total));
    assert(b.subrange(4, 8) =~= bytes32(h));
    assert(b.subrange(0, 8) =~= lengths);
    assert(b.subrange(8, 12) =~= bytes32(checksum(lengths) as int));
    assert(b.subrange(0, total - 4) =~= body);
    assert(b.subrange(total - 4, total) =~= bytes32(checksum(body) as int));
    lemma_bytes32(total, b, 0);
    lemma_bytes32(h, b, 4);
    lemma_bytes32(checksum(lengths) as int, b, 8);
    lemma_bytes32(checksum(body) as int, b, total - 4);
    assert(b.subrange(12, 12 + h) =~= headers);
    assert(b.subrange(12 + h, total - 4) =~= f.payload);
    headers_read_back(f.headers);
    assert(b.skip(total) =~= rest);
}

/// The values of headers that are not text have the sizes of their kinds: none for a
/// truth value, one to eight bytes for a number, eight for a time, and sixteen for a
/// UUID.
pub proof fn headers_of_other_kinds_have_their_sizes(h: Seq<u8>, i: int)
    ensures
        value_size(h, 0, i) == Some(0int),
        value_size(h, 1, i) == Some(0int),
        value_size(h, 2, i) == Some(1int),
        value_size(h, 3, i) == Some(2int),
        value_size(h, 4, i) == Some(4int),
        value_size(h, 5, i) == Some(8int),
        value_size(h, 8, i) == Some(8int),
        value_size(h, 9, i) == Some(16int),
        i + 2 <= h.len() ==> value_size(h, 6, i) == Some(2 + h[i] * 0x100 + h[i + 1]),
        forall|kind: u8| kind > 9 ==> #[trigger] value_size(h, kind, i) is None,
{
}

/// Frames, as they are sent one after the other.
pub open spec fn stream_bytes(frames: Seq<FrameView>) -> Seq<u8>
    decreases frames.len(),
{
    if frames.len() == 0 {
        Seq::empty()
    } else {
        frame_bytes(frames.first()) + stream_bytes(frames.drop_first())
    }
}

proof fn lemma_stream_grows(f: FrameView, bytes: Seq<u8>, frames: Seq<FrameView>)
    requires
        frame_fits(f),
        frames_in(bytes) == frames,
    ensures
        frames_in(frame_bytes(f) + bytes) == seq![f] + frames,
{
    frames_read_back(f, bytes);
}

proof fn lemma_no_frames()
    ensures
        frames_in(Seq::<u8>::empty()) == Seq::<FrameView>::empty(),
{
    assert(told_size(Seq::<u8>::empty()) is None);
}

/// A stream of frames reads back as it was written.
pub proof fn streams_read_back(frames: Seq<FrameView>)
    requires
        forall|i: int| 0 <= i < frames.len() ==> frame_fits(#[trigger] frames[i]),
    ensures
        frames_in(stream_bytes(frames)) == frames,
    decreases frames.len(),
{
    if frames.len() == 0 {
        lemma_no_frames();
        assert(frames =~= Seq::<FrameView>::empty());
    } else {
        let first = frames[0];
        let rest = frames.drop_first();
        assert forall|i: int| 0 <= i < rest.len() implies frame_fits(#[trigger] rest[i]) by {
            assert(rest[i] == frames[i + 1]);
        }
        streams_read_back(rest);
        lemma_stream_grows(first, stream_bytes(rest), rest);
        assert(seq![first] + rest =~= frames);
        assert(stream_bytes(frames) == frame_bytes(first) + stream_bytes(rest));
    }
}

/// A frame whose lengths are as they were sent, and whose last checksum does not
/// fit, is passed over: what follows it is read as if it stood alone.
pub proof fn damaged_frames_are_passed_over(f: FrameView, damaged: Seq<u8>, rest: Seq<u8>)
    requires
        frame_fits(f),
        damaged.len() == frame_bytes(f).len(),
        damaged.take(12) == frame_bytes(f).take(12),
        be32(damaged, damaged.len() - 4) != checksum(damaged.take(damaged.len() - 4)),
    ensures
        frames_in(damaged + rest) == frames_in(rest),
{
    frames_read_back(f, Seq::empty());
    let whole = frame_bytes(f);
    let b = damaged + rest;
    let n = damaged.len() as int;
    assert(whole + Seq::<u8>::empty() =~= whole);
    assert forall|i: int| 0 <= i < 12 implies b[i] == whole[i] by {
        assert(damaged.take(12)[i] == whole.take(12)[i]);
    }
    assert(b.subrange(0, 8) =~= whole.subrange(0, 8));
    assert(told_size(b) == Some(n));
    assert(b.subrange(0, n - 4) =~= damaged.take(n - 4));
    assert(be32(b, n - 4) == be32(damaged, n - 4));
    assert(first_frame(b) is None);
    assert(b.skip(n) =~= rest);
    assert(Seq::<FrameView>::empty() + frames_in(rest) =~= frames_in(rest));
}

} // verus!
