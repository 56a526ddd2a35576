//! In-memory writers: the plain writer and the frame writer.
//!
//! Both accumulate into a byte buffer that the shell then flushes to disk;
//! `close` hands the accumulated bytes out.

use vstd::prelude::*;
use crate::fileio::{be32_bytes, frame_of, frames_of, lemma_be32_round_trip, lemma_frames_push};

verus! {

/// Accumulates plain bytes.
pub struct FileWriter {
    pub out: Vec<u8>,
}

impl FileWriter {
    /// Starts an empty writer.
    pub fn from() -> (r: FileWriter)
        ensures
            r.out@ == Seq::<u8>::empty(),
    {
        FileWriter { out: Vec::new() }
    }

    /// Appends bytes.
    pub fn write(&mut self, data: Vec<u8>)
        ensures
            final(self).out@ == old(self).out@ + data@,
    {
        let mut data = data;
        self.out.append(&mut data);
    }

    /// Ends the stream and hands the accumulated bytes out.
    pub fn close(self) -> (r: Vec<u8>)
        ensures
            r@ == self.out@,
    {
        self.out
    }
}

/// Accumulates framed chunks: each write adds a 4-byte big-endian length and
/// the chunk.
pub struct ChunkWriter {
    pub out: Vec<u8>,
    pub chunks: Ghost<Seq<Seq<u8>>>,
}

impl ChunkWriter {
    /// The accumulated bytes are exactly the frames of the written chunks.
    pub open spec fn wf(&self) -> bool {
        self.out@ == frames_of(self.chunks@)
    }

    /// Starts an empty writer.
    pub fn from() -> (r: ChunkWriter)
        ensures
            r.wf(),
            r.chunks@ == Seq::<Seq<u8>>::empty(),
    {
        ChunkWriter { out: Vec::new(), chunks: Ghost(Seq::empty()) }
    }

    /// Appends one chunk as a frame.
    pub fn write(&mut self, data: Vec<u8>)
        requires
            old(self).wf(),
            data@.len() < 0x100000000,
        ensures
            final(self).wf(),
            final(self).chunks@ == old(self).chunks@.push(data@),
            final(self).out@ == old(self).out@ + frame_of(data@),
    {
        let ghost d = data@;
        let mut data = data;
        let len32: u32 = data.len() as u32;
        let b0: u8 = (len32 / 0x1000000) as u8;
        let b1: u8 = ((len32 / 0x10000) % 0x100) as u8;
        let b2: u8 = ((len32 / 0x100) % 0x100) as u8;
        let b3: u8 = (len32 % 0x100) as u8;
        self.out.push(b0);
        self.out.push(b1);
        self.out.push(b2);
        self.out.push(b3);
        self.out.append(&mut data);
        proof {
            lemma_be32_round_trip(d.len() as int);
            assert(seq![b0, b1, b2, b3] =~= be32_bytes(d.len() as int));
            assert(self.out@ =~= frames_of(old(self).chunks@) + frame_of(d));
            lemma_frames_push(old(self).chunks@, d);
        }
        self.chunks = Ghost(self.chunks@.push(d));
    }

    /// Ends the stream and hands the framed bytes out.
    pub fn close(self) -> (r: Vec<u8>)
        ensures
            r@ == self.out@,
    {
        self.out
    }
}

} // verus!
