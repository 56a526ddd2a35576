//! In-memory readers: the plain streaming reader and the frame reader.
//!
//! Both read from a byte buffer the shell has loaded; the position tracks how
//! far they have come, and their contracts say exactly what each `next`
//! yields from that position.

use vstd::prelude::*;
use crate::errors::HelixError;
use crate::fileio::{frame_chunk, frame_next, frame_ok};

verus! {

/// Where a plain read starting at `pos` ends: a full buffer of `cap` bytes,
/// or whatever is left.
pub open spec fn read_end(pos: int, cap: int, len: int) -> int {
    if pos + cap <= len {
        pos + cap
    } else {
        len
    }
}

/// Yields successive buffers of up to a fixed capacity from a byte string.
pub struct FileReader {
    pub data: Vec<u8>,
    pub pos: usize,
    pub capacity: usize,
    pub has_more: bool,
}

impl FileReader {
    /// The reader's position is inside its data, and a finished reader is at
    /// the end.
    pub open spec fn wf(&self) -> bool {
        &&& 0 < self.capacity
        &&& self.pos <= self.data@.len()
        &&& (!self.has_more ==> self.pos == self.data@.len())
    }

    /// Starts a reader over `data` with buffer capacity `capacity`.
    pub fn from(capacity: u32, data: Vec<u8>) -> (r: FileReader)
        requires
            capacity > 0,
        ensures
            r.wf(),
            r.data@ == data@,
            r.pos == 0,
            r.capacity == capacity as usize,
    {
        FileReader { data, pos: 0, capacity: capacity as usize, has_more: true }
    }

    /// Yields the next non-empty buffer of up to the capacity, or nothing at
    /// the end.
    pub fn next(&mut self) -> (r: Option<Vec<u8>>)
        requires
            old(self).wf(),
        ensures
            final(self).wf(),
            final(self).data@ == old(self).data@,
            final(self).capacity == old(self).capacity,
            old(self).pos == old(self).data@.len() ==> r is None && final(self).pos == old(
                self,
            ).pos,
            old(self).pos < old(self).data@.len() ==> {
                let end = read_end(
                    old(self).pos as int,
                    old(self).capacity as int,
                    old(self).data@.len() as int,
                );
                &&& r is Some
                &&& r->Some_0@ == old(self).data@.subrange(old(self).pos as int, end)
                &&& r->Some_0@.len() > 0
                &&& final(self).pos == end
            },
    {
        if !self.has_more {
            return None;
        }
        if self.pos == self.data.len() {
            self.has_more = false;
            return None;
        }
        let remaining = self.data.len() - self.pos;
        let take = if self.capacity <= remaining {
            self.capacity
        } else {
            remaining
        };
        let end = self.pos + take;
        let mut buf: Vec<u8> = Vec::new();
        let mut i: usize = self.pos;
        while i < end
            invariant
                self.pos <= i <= end <= self.data@.len(),
                buf@ == self.data@.subrange(self.pos as int, i as int),
            decreases end - i,
        {
            buf.push(self.data[i]);
            proof {
                assert(buf@ =~= self.data@.subrange(self.pos as int, i + 1));
            }
            i = i + 1;
        }
        self.pos = end;
        Some(buf)
    }
}

/// Reads a block frame by frame.
pub struct ChunkReader {
    pub data: Vec<u8>,
    pub pos: usize,
    pub has_more: bool,
}

impl ChunkReader {
    /// The reader's position is inside its data, and a finished reader is at
    /// the end.
    pub open spec fn wf(&self) -> bool {
        &&& self.pos <= self.data@.len()
        &&& (!self.has_more ==> self.pos == self.data@.len())
    }

    /// Starts a frame reader over a block's bytes.
    pub fn from(data: Vec<u8>) -> (r: ChunkReader)
        ensures
            r.wf(),
            r.data@ == data@,
            r.pos == 0,
    {
        ChunkReader { data, pos: 0, has_more: true }
    }

    /// Yields the next frame's payload, nothing at the end of the block, and
    /// an error when a frame is cut short.
    pub fn next(&mut self) -> (r: Result<Option<Vec<u8>>, HelixError>)
        requires
            old(self).wf(),
        ensures
            final(self).wf(),
            final(self).data@ == old(self).data@,
            old(self).pos == old(self).data@.len() ==> r is Ok && r->Ok_0 is None
                && final(self).pos == old(self).pos,
            old(self).pos < old(self).data@.len() && frame_ok(
                old(self).data@,
                old(self).pos as int,
            ) ==> {
                &&& r is Ok
                &&& r->Ok_0 is Some
                &&& r->Ok_0->Some_0@ == frame_chunk(old(self).data@, old(self).pos as int)
                &&& final(self).pos == frame_next(old(self).data@, old(self).pos as int)
            },
            old(self).pos < old(self).data@.len() && !frame_ok(
                old(self).data@,
                old(self).pos as int,
            ) ==> r is Err && r->Err_0.detailed_code@ == "MalformedBlock"@,
            r is Err ==> r->Err_0.detailed_code@ == "MalformedBlock"@,
    {
        if !self.has_more {
            return Ok(None);
        }
        if self.pos == self.data.len() {
            self.has_more = false;
            return Ok(None);
        }
        if self.data.len() - self.pos < 4 {
            return Err(malformed_block());
        }
        let b0 = self.data[self.pos];
        let b1 = self.data[self.pos + 1];
        let b2 = self.data[self.pos + 2];
        let b3 = self.data[self.pos + 3];
        let length: u32 = (b0 as u32) * 0x1000000 + (b1 as u32) * 0x10000 + (b2 as u32) * 0x100
            + (b3 as u32);
        proof {
            assert(self.data@.subrange(self.pos as int, self.pos + 4) =~= seq![b0, b1, b2, b3]);
        }
        let body_start = self.pos + 4;
        if (length as usize) > self.data.len() - body_start {
            return Err(malformed_block());
        }
        let end = body_start + (length as usize);
        let mut buf: Vec<u8> = Vec::new();
        let mut i: usize = body_start;
        while i < end
            invariant
                body_start <= i <= end <= self.data@.len(),
                buf@ == self.data@.subrange(body_start as int, i as int),
            decreases end - i,
        {
            buf.push(self.data[i]);
            proof {
                assert(buf@ =~= self.data@.subrange(body_start as int, i + 1));
            }
            i = i + 1;
        }
        self.pos = end;
        Ok(Some(buf))
    }
}

/// The error reported for a frame cut short.
fn malformed_block() -> (r: HelixError)
    ensures
        r.detailed_code@ == "MalformedBlock"@,
{
    HelixError::from(
        "MalformedBlock",
        "MalformedBlock",
        "A frame of the block is cut short.",
    )
}

} // verus!
