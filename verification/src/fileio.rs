//! The chunked block format and its in-memory readers and writers.
//!
//! A block is an ordered run of frames; each frame is a 4-byte big-endian
//! length followed by exactly that many payload bytes, and the run ends at
//! the end of the block. `frames_of` writes the format, `parse_frames` reads
//! it, and `lemma_parse_frames_of` proves that reading inverts writing.

use vstd::prelude::*;

pub mod readers;
pub mod writers;

verus! {

/// The value of four big-endian length bytes.
pub open spec fn be32_of(s: Seq<u8>) -> int {
    s[0] * 0x1000000 + s[1] * 0x10000 + s[2] * 0x100 + s[3]
}

/// The four big-endian bytes of a length below 2^32.
pub open spec fn be32_bytes(n: int) -> Seq<u8> {
    seq![
        (n / 0x1000000) as u8,
        ((n / 0x10000) % 0x100) as u8,
        ((n / 0x100) % 0x100) as u8,
        (n % 0x100) as u8,
    ]
}

/// Reading four length bytes inverts writing them.
pub proof fn lemma_be32_round_trip(n: int)
    requires
        0 <= n < 0x100000000,
    ensures
        be32_bytes(n).len() == 4,
        be32_of(be32_bytes(n)) == n,
        forall|i: int| 0 <= i < 4 ==> 0 <= #[trigger] be32_bytes(n)[i] < 0x100,
{
    assert((n / 0x1000000) < 0x100 && 0 <= n / 0x1000000) by (nonlinear_arith)
        requires
            0 <= n < 0x100000000,
    ;
    assert((n / 0x1000000) * 0x1000000 + ((n / 0x10000) % 0x100) * 0x10000 + ((n / 0x100) % 0x100)
        * 0x100 + (n % 0x100) == n) by (nonlinear_arith)
        requires
            0 <= n < 0x100000000,
    ;
}

/// Writing the value of four length bytes restores those bytes.
pub proof fn lemma_be32_bytes_of(s: Seq<u8>)
    requires
        s.len() == 4,
    ensures
        0 <= be32_of(s) < 0x100000000,
        be32_bytes(be32_of(s)) =~= s,
{
    let a = s[0] as int;
    let b = s[1] as int;
    let c = s[2] as int;
    let d = s[3] as int;
    let n = be32_of(s);
    assert(n == a * 0x1000000 + b * 0x10000 + c * 0x100 + d);
    assert(0 <= n < 0x100000000 && n / 0x1000000 == a && (n / 0x10000) % 0x100 == b && (n / 0x100)
        % 0x100 == c && n % 0x100 == d) by (nonlinear_arith)
        requires
            n == a * 0x1000000 + b * 0x10000 + c * 0x100 + d,
            0 <= a < 0x100,
            0 <= b < 0x100,
            0 <= c < 0x100,
            0 <= d < 0x100,
    ;
}

/// One frame: the payload's length in four big-endian bytes, then the
/// payload.
pub open spec fn frame_of(chunk: Seq<u8>) -> Seq<u8> {
    be32_bytes(chunk.len() as int) + chunk
}

/// A whole block: the frames of the chunks, in order.
pub open spec fn frames_of(chunks: Seq<Seq<u8>>) -> Seq<u8>
    decreases chunks.len(),
{
    if chunks.len() == 0 {
        Seq::empty()
    } else {
        frame_of(chunks[0]) + frames_of(chunks.drop_first())
    }
}

/// Appending one chunk appends one frame.
pub proof fn lemma_frames_push(chunks: Seq<Seq<u8>>, chunk: Seq<u8>)
    ensures
        frames_of(chunks.push(chunk)) =~= frames_of(chunks) + frame_of(chunk),
    decreases chunks.len(),
{
    if chunks.len() == 0 {
        assert(chunks.push(chunk).drop_first() =~= Seq::<Seq<u8>>::empty());
        assert(chunks.push(chunk)[0] == chunk);
        assert(frames_of(chunks.push(chunk)) == frame_of(chunk) + frames_of(
            chunks.push(chunk).drop_first(),
        ));
        assert(frames_of(Seq::<Seq<u8>>::empty()) == Seq::<u8>::empty());
        assert(frames_of(chunks.push(chunk)) =~= frames_of(chunks) + frame_of(chunk));
    } else {
        assert(chunks.push(chunk)[0] == chunks[0]);
        assert(chunks.push(chunk).drop_first() =~= chunks.drop_first().push(chunk));
        lemma_frames_push(chunks.drop_first(), chunk);
        assert(frames_of(chunks.push(chunk)) == frame_of(chunks[0]) + frames_of(
            chunks.drop_first().push(chunk),
        ));
        assert(frames_of(chunks.push(chunk)) =~= frames_of(chunks) + frame_of(chunk));
    }
}

/// True when a whole frame stands at `pos`.
pub open spec fn frame_ok(data: Seq<u8>, pos: int) -> bool {
    pos + 4 <= data.len() && pos + 4 + be32_of(data.subrange(pos, pos + 4)) <= data.len()
}

/// The payload of the frame at `pos`.
pub open spec fn frame_chunk(data: Seq<u8>, pos: int) -> Seq<u8> {
    data.subrange(pos + 4, pos + 4 + be32_of(data.subrange(pos, pos + 4)))
}

/// The position just past the frame at `pos`.
pub open spec fn frame_next(data: Seq<u8>, pos: int) -> int {
    pos + 4 + be32_of(data.subrange(pos, pos + 4))
}

/// Reads a block back into its chunks: absent when a frame is cut short.
pub open spec fn parse_frames(data: Seq<u8>) -> Option<Seq<Seq<u8>>>
    decreases data.len(),
{
    if data.len() == 0 {
        Some(Seq::empty())
    } else if frame_ok(data, 0) {
        match parse_frames(data.skip(frame_next(data, 0))) {
            Some(rest) => Some(seq![frame_chunk(data, 0)] + rest),
            None => None,
        }
    } else {
        None
    }
}

/// Every chunk of a block can be framed: its length fits the four bytes.
pub open spec fn chunk_lens_ok(chunks: Seq<Seq<u8>>) -> bool {
    forall|i: int| 0 <= i < chunks.len() ==> (#[trigger] chunks[i]).len() < 0x100000000
}

/// Reading a block inverts writing it: the chunks come back, in order.
pub proof fn lemma_parse_frames_of(chunks: Seq<Seq<u8>>)
    requires
        chunk_lens_ok(chunks),
    ensures
        parse_frames(frames_of(chunks)) == Some(chunks),
    decreases chunks.len(),
{
    if chunks.len() == 0 {
        assert(parse_frames(frames_of(chunks)) == Some(Seq::<Seq<u8>>::empty()));
        assert(chunks =~= Seq::<Seq<u8>>::empty());
    } else {
        let c0 = chunks[0];
        let data = frames_of(chunks);
        let n = c0.len() as int;
        lemma_be32_round_trip(n);
        assert(data =~= be32_bytes(n) + c0 + frames_of(chunks.drop_first()));
        assert(data.subrange(0, 4) =~= be32_bytes(n));
        assert(be32_of(data.subrange(0, 4)) == n);
        assert(frame_ok(data, 0));
        assert(frame_chunk(data, 0) =~= c0);
        assert(data.skip(frame_next(data, 0)) =~= frames_of(chunks.drop_first()));
        assert(chunk_lens_ok(chunks.drop_first())) by {
            assert(forall|i: int|
                0 <= i < chunks.drop_first().len() ==> chunks.drop_first()[i] == chunks[i + 1]);
        }
        lemma_parse_frames_of(chunks.drop_first());
        assert(seq![frame_chunk(data, 0)] + chunks.drop_first() =~= chunks);
    }
}

/// Reading past written frames: parsing decomposes at a frame boundary.
pub proof fn lemma_parse_after_prefix(chunks: Seq<Seq<u8>>, suffix: Seq<u8>)
    requires
        chunk_lens_ok(chunks),
    ensures
        parse_frames(frames_of(chunks) + suffix) == match parse_frames(suffix) {
            Some(rest) => Some(chunks + rest),
            None => None,
        },
    decreases chunks.len(),
{
    if chunks.len() == 0 {
        assert(frames_of(chunks) + suffix =~= suffix);
        if parse_frames(suffix) is Some {
            assert(chunks + parse_frames(suffix)->Some_0 =~= parse_frames(suffix)->Some_0);
        }
    } else {
        let c0 = chunks[0];
        let data = frames_of(chunks) + suffix;
        let n = c0.len() as int;
        lemma_be32_round_trip(n);
        assert(data =~= be32_bytes(n) + c0 + (frames_of(chunks.drop_first()) + suffix));
        assert(data.subrange(0, 4) =~= be32_bytes(n));
        assert(frame_ok(data, 0));
        assert(data.len() > 0);
        assert(frame_chunk(data, 0) =~= c0);
        assert(data.skip(frame_next(data, 0)) =~= frames_of(chunks.drop_first()) + suffix);
        assert(chunk_lens_ok(chunks.drop_first())) by {
            assert(forall|i: int|
                0 <= i < chunks.drop_first().len() ==> chunks.drop_first()[i] == chunks[i + 1]);
        }
        lemma_parse_after_prefix(chunks.drop_first(), suffix);
        if parse_frames(suffix) is Some {
            assert(seq![c0] + (chunks.drop_first() + parse_frames(suffix)->Some_0) =~= chunks
                + parse_frames(suffix)->Some_0);
        }
    }
}

} // verus!
