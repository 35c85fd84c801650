//! A reader of a chunk.

use vstd::prelude::*;
use core::task::{Poll, Waker};
use std::io::SeekFrom;
use crate::block::{overlay, Block};
use crate::chunk::{Chunk, ChunkError};
use crate::layout::{
    accepted, lemma_position, lemma_span_step, locate, offset_of, span_len, CHUNK_SIZE,
};
use crate::stream::{fetched, taken};
use crate::sync::{clone_handle, lock_shared, shared_block, try_lock_shared};

verus! {

/// One of any number of readers of a chunk. It keeps a cursor and nothing
/// else: it takes shared access to a block while it copies from it and gives
/// the access up before it returns.
pub struct ChunkReader<'a> {
    chunk: &'a Chunk,
    ptr: usize,
}

/// The position that a seek from `cursor` asks for. It may lie outside the
/// chunk on either side.
pub open spec fn seek_target(cursor: int, pos: SeekFrom) -> int {
    match pos {
        SeekFrom::Start(offset) => offset as int,
        SeekFrom::End(offset) => CHUNK_SIZE + offset,
        SeekFrom::Current(offset) => cursor + offset,
    }
}

impl<'a> ChunkReader<'a> {
    /// The position of the next byte to read.
    pub closed spec fn cursor(&self) -> int {
        self.ptr as int
    }

    /// The chunk that is read.
    pub closed spec fn source(&self) -> &Chunk {
        self.chunk
    }

    /// The cursor lies in the chunk or at its end.
    pub open spec fn wf(&self) -> bool {
        0 <= self.cursor() <= CHUNK_SIZE
    }

    #[verifier::type_invariant]
    spec fn bounded(self) -> bool {
        self.ptr <= CHUNK_SIZE
    }

    /// A reader at the front of `chunk`. It takes no lock.
    pub fn new(chunk: &'a Chunk) -> (reader: Self)
        ensures
            reader.wf(),
            reader.cursor() == 0,
            reader.source() == chunk,
    {
        ChunkReader { chunk, ptr: 0 }
    }

    /// Copies from `block`, which holds the bytes of the block of the cursor,
    /// into `buf` from `filled` on: as many bytes as the block has left behind
    /// the cursor and `buf` has room for. The cursor moves behind them. At the
    /// end of the chunk, and where `buf` has no room, nothing is copied.
    pub fn read_from(&mut self, block: &Block, buf: &mut [u8], filled: usize) -> (n: usize)
        ensures
            final(self).wf(),
            final(self).source() == old(self).source(),
            n == taken(old(self).cursor(), old(buf)@.len() - filled),
            n == fetched(block@, old(self).cursor(), old(buf)@.len() - filled).len(),
            final(self).cursor() == old(self).cursor() + n,
            final(buf)@ == overlay(
                old(buf)@,
                filled as int,
                fetched(block@, old(self).cursor(), old(buf)@.len() - filled),
            ),
    {
        proof {
            use_type_invariant(&*self);
            block.lemma_len();
        }
        if self.ptr >= CHUNK_SIZE || filled >= buf.len() {
            assert(buf@ =~= overlay(
                buf@,
                filled as int,
                fetched(block@, self.cursor(), buf@.len() - filled),
            ));
            return 0;
        }
        let (_, off): (usize, usize) = locate(self.ptr);
        let n: usize = span_len(self.ptr, buf.len() - filled);
        proof {
            lemma_position(self.ptr as int);
            lemma_span_step(self.ptr as int, buf@.len() - filled);
        }
        block.read_at(off, buf, filled, n);
        self.ptr = self.ptr + n;
        n
    }

    /// Goes on reading into `buf` from `start` on, block after block, while
    /// shared access to the block of the cursor can be had at once.
    fn fill(&mut self, buf: &mut [u8], start: usize) -> (end: usize)
        requires
            start <= old(buf)@.len(),
        ensures
            final(self).wf(),
            final(self).source() == old(self).source(),
            start <= end <= old(buf)@.len(),
            final(self).cursor() == old(self).cursor() + (end - start),
            end - start <= accepted(old(self).cursor(), old(buf)@.len() - start),
            end - start < accepted(old(self).cursor(), old(buf)@.len() - start) ==> end == start
                || offset_of(final(self).cursor()) == 0,
            final(buf)@.len() == old(buf)@.len(),
            final(buf)@.take(start as int) == old(buf)@.take(start as int),
            final(buf)@.skip(end as int) == old(buf)@.skip(end as int),
    {
        proof {
            use_type_invariant(&*self);
        }
        let chunk: &'a Chunk = self.chunk;
        let total: usize = buf.len();
        let mut filled: usize = start;
        let mut open: bool = true;
        while open && filled < total && self.ptr < CHUNK_SIZE
            invariant
                self.wf(),
                self.source() == old(self).source(),
                chunk == self.source(),
                total == old(buf)@.len(),
                buf@.len() == total,
                start <= filled <= total,
                self.cursor() == old(self).cursor() + (filled - start),
                filled == start || filled == total || offset_of(self.cursor()) == 0,
                buf@.take(start as int) == old(buf)@.take(start as int),
                buf@.skip(filled as int) == old(buf)@.skip(filled as int),
            decreases (if open { 1int } else { 0int }) + total - filled,
        {
            let (idx, _): (usize, usize) = locate(self.ptr);
            proof {
                lemma_position(self.ptr as int);
                lemma_span_step(self.ptr as int, total - filled);
            }
            let ghost before = buf@;
            match try_lock_shared(chunk.lock_of(idx)) {
                Some(guard) => {
                    let n: usize = self.read_from(shared_block(&guard), buf, filled);
                    filled = filled + n;
                    assert(buf@.take(start as int) =~= before.take(start as int));
                    assert(buf@.skip(filled as int) =~= before.skip(filled as int));
                    assert(before.skip(filled as int) =~= old(buf)@.skip(filled as int)) by {
                        assert(before.skip(filled - n) == old(buf)@.skip(filled - n));
                        assert(before.skip(filled as int) =~= before.skip(filled - n).skip(n as int));
                        assert(old(buf)@.skip(filled as int) =~= old(buf)@.skip(filled - n).skip(
                            n as int,
                        ));
                    }
                },
                None => {
                    open = false;
                },
            }
        }
        filled
    }

    /// Reads what can be had at once: copies into `buf`, block after block,
    /// while shared access to the next block can be had without waiting, and
    /// stops when `buf` is full, at the end of the chunk, or in front of a
    /// block that its writer still holds. Returns the number of bytes copied.
    pub fn try_read(&mut self, buf: &mut [u8]) -> (n: usize)
        ensures
            final(self).wf(),
            final(self).source() == old(self).source(),
            final(self).cursor() == old(self).cursor() + n,
            n <= accepted(old(self).cursor(), old(buf)@.len() as int),
            n < accepted(old(self).cursor(), old(buf)@.len() as int) ==> n == 0 || offset_of(
                final(self).cursor(),
            ) == 0,
            final(buf)@.len() == old(buf)@.len(),
            final(buf)@.skip(n as int) == old(buf)@.skip(n as int),
    {
        self.fill(buf, 0)
    }

    /// Reads, and waits where `try_read` would return with nothing: if no
    /// byte can be had at once and the cursor is not at the end of the chunk,
    /// waits for shared access to the block of the cursor, copies from it, and
    /// goes on as `try_read` does. Returns the number of bytes copied, which
    /// is zero only at the end of the chunk or for an empty `buf`.
    pub fn read(&mut self, buf: &mut [u8]) -> (n: usize)
        ensures
            final(self).wf(),
            final(self).source() == old(self).source(),
            final(self).cursor() == old(self).cursor() + n,
            n <= accepted(old(self).cursor(), old(buf)@.len() as int),
            n == 0 <==> accepted(old(self).cursor(), old(buf)@.len() as int) == 0,
            n < accepted(old(self).cursor(), old(buf)@.len() as int) ==> offset_of(
                final(self).cursor(),
            ) == 0,
            final(buf)@.len() == old(buf)@.len(),
            final(buf)@.skip(n as int) == old(buf)@.skip(n as int),
    {
        let n: usize = self.try_read(buf);
        if n == 0 && self.ptr != CHUNK_SIZE {
            let chunk: &'a Chunk = self.chunk;
            let (idx, _): (usize, usize) = locate(self.ptr);
            proof {
                lemma_position(self.ptr as int);
                lemma_span_step(self.ptr as int, buf@.len() as int);
            }
            let ghost before = buf@;
            let first: usize = {
                let guard = lock_shared(chunk.lock_of(idx));
                self.read_from(shared_block(&guard), buf, 0)
            };
            assert(buf@.skip(first as int) =~= before.skip(first as int));
            let end: usize = self.fill(buf, first);
            assert(old(buf)@.skip(end as int) =~= before.skip(end as int)) by {
                assert(before.skip(0) =~= before);
                assert(old(buf)@.skip(0) =~= old(buf)@);
            }
            end
        } else {
            n
        }
    }

    /// Moves the cursor to the position that `pos` asks for, and returns the
    /// new cursor. A position before the start of the chunk is refused and
    /// leaves the cursor where it was; one at or behind the end of the chunk
    /// is replaced by the last position in the chunk.
    pub fn seek(&mut self, pos: SeekFrom) -> (r: Result<u64, ChunkError>)
        ensures
            final(self).wf(),
            final(self).source() == old(self).source(),
            seek_target(old(self).cursor(), pos) < 0 ==> r == Err::<u64, ChunkError>(
                ChunkError::InvalidInput,
            ) && final(self).cursor() == old(self).cursor(),
            0 <= seek_target(old(self).cursor(), pos) < CHUNK_SIZE ==> r == Ok::<u64, ChunkError>(
                seek_target(old(self).cursor(), pos) as u64,
            ) && final(self).cursor() == seek_target(old(self).cursor(), pos),
            seek_target(old(self).cursor(), pos) >= CHUNK_SIZE ==> r == Ok::<u64, ChunkError>(
                (CHUNK_SIZE - 1) as u64,
            ) && final(self).cursor() == CHUNK_SIZE - 1,
    {
        proof {
            use_type_invariant(&*self);
        }
        let size: i64 = CHUNK_SIZE as i64;
        let here: i64 = self.ptr as i64;
        let target: Option<i64> = match pos {
            SeekFrom::Start(offset) => if offset >= CHUNK_SIZE as u64 {
                Some(size)
            } else {
                Some(offset as i64)
            },
            SeekFrom::End(offset) => if offset >= 0 {
                Some(size)
            } else if offset < -size {
                None
            } else {
                Some(size + offset)
            },
            SeekFrom::Current(offset) => if offset >= size - here {
                Some(size)
            } else if offset < -here {
                None
            } else {
                Some(here + offset)
            },
        };
        match target {
            None => Err(ChunkError::InvalidInput),
            Some(target) => {
                if target >= size {
                    self.ptr = CHUNK_SIZE - 1;
                } else {
                    self.ptr = target as usize;
                }
                Ok(self.ptr as u64)
            },
        }
    }

    /// `try_read`, for a caller that polls. If no byte can be had at once and
    /// the cursor is not at the end of the chunk, a copy of `handle` goes into
    /// the registry of the chunk and the result is `Pending`: the writer will
    /// resume the task when it next gives up a block. Otherwise the result is
    /// `Ready` with the number of bytes copied, which is zero at the end of
    /// the chunk only.
    pub fn poll_read(&mut self, handle: &Waker, buf: &mut [u8]) -> (r: Poll<usize>)
        ensures
            final(self).wf(),
            final(self).source() == old(self).source(),
            final(buf)@.len() == old(buf)@.len(),
            match r {
                Poll::Ready(n) => {
                    &&& final(self).cursor() == old(self).cursor() + n
                    &&& n <= accepted(old(self).cursor(), old(buf)@.len() as int)
                    &&& n == 0 ==> old(self).cursor() == CHUNK_SIZE
                    &&& n < accepted(old(self).cursor(), old(buf)@.len() as int) ==> offset_of(
                        final(self).cursor(),
                    ) == 0
                    &&& final(buf)@.skip(n as int) == old(buf)@.skip(n as int)
                },
                Poll::Pending => {
                    &&& final(self).cursor() == old(self).cursor()
                    &&& old(self).cursor() < CHUNK_SIZE
                    &&& final(buf)@ == old(buf)@
                },
            },
    {
        let n: usize = self.try_read(buf);
        if n == 0 && self.ptr != CHUNK_SIZE {
            assert(buf@ =~= old(buf)@) by {
                assert(buf@.skip(0) =~= buf@);
                assert(old(buf)@.skip(0) =~= old(buf)@);
            }
            self.chunk.subscribe(clone_handle(handle));
            Poll::Pending
        } else {
            Poll::Ready(n)
        }
    }

    /// `seek`, for a caller that polls: the cursor moves at once, and
    /// `poll_complete` then tells where it is.
    pub fn start_seek(&mut self, pos: SeekFrom) -> (r: Result<(), ChunkError>)
        ensures
            final(self).wf(),
            final(self).source() == old(self).source(),
            seek_target(old(self).cursor(), pos) < 0 ==> r == Err::<(), ChunkError>(
                ChunkError::InvalidInput,
            ) && final(self).cursor() == old(self).cursor(),
            0 <= seek_target(old(self).cursor(), pos) < CHUNK_SIZE ==> r == Ok::<(), ChunkError>(())
                && final(self).cursor() == seek_target(old(self).cursor(), pos),
            seek_target(old(self).cursor(), pos) >= CHUNK_SIZE ==> r == Ok::<(), ChunkError>(())
                && final(self).cursor() == CHUNK_SIZE - 1,
    {
        match self.seek(pos) {
            Ok(_) => Ok(()),
            Err(e) => Err(e),
        }
    }

    /// The cursor, for a caller that polls after `start_seek`: it is ready at
    /// once.
    pub fn poll_complete(&self) -> (r: Poll<u64>)
        ensures
            r == Poll::Ready(self.cursor() as u64),
    {
        proof {
            use_type_invariant(self);
        }
        Poll::Ready(self.ptr as u64)
    }
}

} // verus!
