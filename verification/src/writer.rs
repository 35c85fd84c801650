//! The writer of a chunk.

use vstd::prelude::*;
use core::task::Poll;
use crate::block::overlay;
use crate::chunk::Chunk;
use crate::layout::{
    block_of, lemma_position, lemma_span_step, locate, offset_of, span, span_len, BLOCK_PER_CHUNK,
    BLOCK_SIZE, CHUNK_SIZE,
};
use crate::stream::{taken, Stream};
use crate::sync::{held_block, held_bytes, lock_exclusive, WriteGuard};

verus! {

/// The one writer of a chunk. It is made with exclusive access to every
/// block, fills the chunk from the front, and gives up each block when the
/// last byte of the block is written.
pub struct ChunkWriter<'a> {
    chunk: &'a Chunk,
    guards: Vec<Option<WriteGuard<'a>>>,
    ptr: usize,
    /// The bytes of the blocks given up so far, as they were when given up.
    released: Ghost<Seq<u8>>,
}

/// Whether the guard of block `i` is among `guards`.
spec fn held(guards: Seq<Option<WriteGuard<'_>>>, i: int) -> bool {
    0 <= i < guards.len() && guards[i] is Some
}

/// The bytes of a chunk: `released` for the blocks that were given up, and
/// for the others what their guards hold.
spec fn image_of(guards: Seq<Option<WriteGuard<'_>>>, released: Seq<u8>) -> Seq<u8> {
    Seq::new(
        CHUNK_SIZE as nat,
        |p: int|
            if p < released.len() {
                released[p]
            } else {
                held_bytes(guards[block_of(p)]->0)[offset_of(p)]
            },
    )
}

/// What holds of the parts of a writer: it has a guard for each block from
/// the one of its cursor on and for no other, and a record of the others.
spec fn parts_wf(guards: Seq<Option<WriteGuard<'_>>>, released: Seq<u8>, ptr: usize) -> bool {
    &&& guards.len() == BLOCK_PER_CHUNK
    &&& ptr <= CHUNK_SIZE
    &&& released.len() == block_of(ptr as int) * BLOCK_SIZE
    &&& forall|i: int|
        0 <= i < BLOCK_PER_CHUNK ==> (#[trigger] held(guards, i) <==> block_of(ptr as int) <= i)
}

/// Copies the bytes of `buf` from `done` on that fit into the block of the
/// cursor `ptr`, moves the cursor behind them, and gives the block up if
/// that filled it. Says whether it did.
fn store<'a>(
    guards: &mut Vec<Option<WriteGuard<'a>>>,
    released: &mut Ghost<Seq<u8>>,
    ptr: &mut usize,
    buf: &[u8],
    total: usize,
    done: usize,
) -> (r: (usize, bool))
    requires
        parts_wf(old(guards)@, old(released)@, *old(ptr)),
        *old(ptr) < CHUNK_SIZE,
        total == buf@.len(),
        done < total,
    ensures
        parts_wf(final(guards)@, final(released)@, *final(ptr)),
        r.0 == span(*old(ptr) as int, buf@.len() - done),
        r.0 > 0,
        *final(ptr) == *old(ptr) + r.0,
        r.1 <==> block_of(*final(ptr) as int) != block_of(*old(ptr) as int),
        image_of(final(guards)@, final(released)@) == overlay(
            image_of(old(guards)@, old(released)@),
            *old(ptr) as int,
            buf@.subrange(done as int, done + r.0),
        ),
    no_unwind
{
    let (idx, off): (usize, usize) = locate(*ptr);
    let n: usize = span_len(*ptr, total - done);
    proof {
        lemma_position(*ptr as int);
        lemma_span_step(*ptr as int, buf@.len() - done);
    }
    assert(held(guards@, idx as int));
    match &mut guards[idx] {
        Some(guard) => {
            let block = held_block(guard);
            block.write_at(off, buf, done, n);
            proof {
                block.lemma_len();
            }
        },
        None => {},
    }
    let ghost src = buf@.subrange(done as int, done + n);
    assert(guards@.len() == BLOCK_PER_CHUNK);
    assert(guards@[idx as int] is Some);
    assert(held_bytes(guards@[idx as int]->0) == overlay(
        held_bytes(old(guards)@[idx as int]->0),
        off as int,
        src,
    ));
    assert(held_bytes(guards@[idx as int]->0).len() == BLOCK_SIZE);
    assert(forall|j: int|
        0 <= j < BLOCK_PER_CHUNK && j != idx ==> guards@[j] == old(guards)@[j]);
    assert(image_of(guards@, released@) =~= overlay(
        image_of(old(guards)@, old(released)@),
        *old(ptr) as int,
        src,
    ));
    let ghost written = image_of(guards@, released@);
    *ptr = *ptr + n;
    let full: bool = *ptr / BLOCK_SIZE != idx;
    if full {
        proof {
            released@ = released@ + held_bytes(guards@[idx as int]->0);
        }
        guards[idx] = None;
    }
    assert(image_of(guards@, released@) =~= written);
    assert forall|i: int| 0 <= i < BLOCK_PER_CHUNK implies (#[trigger] held(guards@, i)
        <==> block_of(*ptr as int) <= i) by {
        assert(held(old(guards)@, i) <==> idx <= i);
    }
    (n, full)
}

/// Gives up every block and moves the cursor `ptr` to the end of the chunk.
fn release_all<'a>(
    guards: &mut Vec<Option<WriteGuard<'a>>>,
    released: &mut Ghost<Seq<u8>>,
    ptr: &mut usize,
)
    requires
        parts_wf(old(guards)@, old(released)@, *old(ptr)),
    ensures
        parts_wf(final(guards)@, final(released)@, *final(ptr)),
        *final(ptr) == CHUNK_SIZE,
        image_of(final(guards)@, final(released)@) == image_of(old(guards)@, old(released)@),
    no_unwind
{
    let ghost image = image_of(guards@, released@);
    let mut i: usize = 0;
    while i < BLOCK_PER_CHUNK
        invariant
            i <= BLOCK_PER_CHUNK,
            guards@.len() == BLOCK_PER_CHUNK,
            forall|j: int| 0 <= j < i ==> guards@[j] is None,
        decreases BLOCK_PER_CHUNK - i,
    {
        guards[i] = None;
        i = i + 1;
    }
    *ptr = CHUNK_SIZE;
    proof {
        released@ = image;
    }
    assert(image_of(guards@, released@) =~= image);
}

impl<'a> ChunkWriter<'a> {
    /// The position of the next byte to write.
    pub closed spec fn cursor(&self) -> int {
        self.ptr as int
    }

    /// Whether the writer still has exclusive access to block `i`.
    pub closed spec fn holds(&self, i: int) -> bool {
        held(self.guards@, i)
    }

    /// The bytes of the chunk as the writer knows them: those of the blocks
    /// it has given up, as they were then, and those of the blocks it holds.
    pub closed spec fn image(&self) -> Seq<u8> {
        image_of(self.guards@, self.released@)
    }

    /// The cursor and the image together.
    pub open spec fn stream(&self) -> Stream {
        Stream { cursor: self.cursor(), image: self.image() }
    }

    /// The chunk that is written.
    pub closed spec fn target(&self) -> &Chunk {
        self.chunk
    }

    /// The writer holds the blocks from the one of its cursor on, and no
    /// other.
    pub open spec fn wf(&self) -> bool {
        &&& self.stream().wf()
        &&& forall|i: int|
            0 <= i < BLOCK_PER_CHUNK ==> (#[trigger] self.holds(i) <==> block_of(self.cursor()) <= i)
    }

    #[verifier::type_invariant]
    spec fn sound(self) -> bool {
        parts_wf(self.guards@, self.released@, self.ptr)
    }

    /// Once the cursor of the writer is behind block `i`, the writer holds
    /// neither that block nor one before it. A reader whose cursor lies in
    /// one of these blocks is not kept waiting by the writer, and takes at
    /// least one byte if it has room for one.
    pub proof fn lemma_crossed_is_readable(&self, i: int, cursor: int, want: int)
        requires
            self.wf(),
            0 <= i < BLOCK_PER_CHUNK,
            (i + 1) * BLOCK_SIZE <= self.cursor(),
            0 <= cursor < (i + 1) * BLOCK_SIZE,
            0 < want,
        ensures
            !self.holds(block_of(cursor)),
            1 <= taken(cursor, want) <= want,
    {
        lemma_position(cursor);
        lemma_span_step(cursor, want);
        assert(0 <= block_of(cursor) <= i);
        assert(block_of(self.cursor()) >= i + 1);
    }

    /// A writer at the front of `chunk`. Returns once it has exclusive access
    /// to all 1024 blocks, that is, when no block is in use by anyone else.
    pub fn new(chunk: &'a Chunk) -> (writer: Self)
        ensures
            writer.wf(),
            writer.cursor() == 0,
            writer.target() == chunk,
    {
        let mut guards: Vec<Option<WriteGuard<'a>>> = Vec::new();
        let mut i: usize = 0;
        while i < BLOCK_PER_CHUNK
            invariant
                i <= BLOCK_PER_CHUNK,
                guards@.len() == i,
                forall|j: int| 0 <= j < i ==> guards@[j] is Some,
            decreases BLOCK_PER_CHUNK - i,
        {
            guards.push(Some(lock_exclusive(chunk.lock_of(i))));
            i = i + 1;
        }
        ChunkWriter { chunk, guards, ptr: 0, released: Ghost(Seq::empty()) }
    }

    /// Writes the bytes of `buf` that still fit into the chunk, from the
    /// cursor on, and returns how many they are: all of `buf`, or what was
    /// left of the chunk. Each block that the write fills is given up at once,
    /// and the readers that wait for a block are resumed.
    pub fn write(&mut self, buf: &[u8]) -> (n: usize)
        ensures
            final(self).wf(),
            final(self).target() == old(self).target(),
            final(self).stream() == old(self).stream().write(buf@),
            n == final(self).cursor() - old(self).cursor(),
    {
        proof {
            use_type_invariant(&*self);
        }
        let total: usize = buf.len();
        let mut done: usize = 0;
        while done < total && self.ptr < CHUNK_SIZE
            invariant
                total == buf@.len(),
                done <= total,
                parts_wf(self.guards@, self.released@, self.ptr),
                self.target() == old(self).target(),
                self.cursor() == old(self).cursor() + done,
                self.image() == overlay(old(self).image(), old(self).cursor(), buf@.take(done as int)),
            decreases total - done,
        {
            let ghost before = self.image();
            let (n, full): (usize, bool) = store(
                &mut self.guards,
                &mut self.released,
                &mut self.ptr,
                buf,
                total,
                done,
            );
            if full {
                self.chunk.broadcast();
            }
            assert(overlay(before, self.cursor() - n, buf@.subrange(done as int, done + n)) =~= overlay(
                old(self).image(),
                old(self).cursor(),
                buf@.take(done + n),
            ));
            done = done + n;
        }
        assert(self.image() =~= old(self).stream().write(buf@).image);
        done
    }

    /// Does nothing: what was written is in the chunk already.
    pub fn flush(&mut self)
        ensures
            *final(self) == *old(self),
    {
    }

    /// Ends the writing. The writer gives up every block it still holds,
    /// its cursor moves to the end of the chunk, and the readers that wait
    /// for a block are resumed. Later writes take nothing.
    pub fn shutdown(&mut self)
        ensures
            final(self).wf(),
            final(self).target() == old(self).target(),
            final(self).stream() == old(self).stream().shutdown(),
    {
        proof {
            use_type_invariant(&*self);
        }
        release_all(&mut self.guards, &mut self.released, &mut self.ptr);
        self.chunk.broadcast();
    }

    /// `write`, for a caller that polls: it is ready at once.
    pub fn poll_write(&mut self, buf: &[u8]) -> (r: Poll<usize>)
        ensures
            final(self).wf(),
            final(self).target() == old(self).target(),
            final(self).stream() == old(self).stream().write(buf@),
            r == Poll::Ready((final(self).cursor() - old(self).cursor()) as usize),
    {
        Poll::Ready(self.write(buf))
    }

    /// `flush`, for a caller that polls: it is ready at once.
    pub fn poll_flush(&mut self) -> (r: Poll<()>)
        ensures
            *final(self) == *old(self),
            r == Poll::Ready(()),
    {
        Poll::Ready(())
    }

    /// `shutdown`, for a caller that polls: it is ready at once.
    pub fn poll_shutdown(&mut self) -> (r: Poll<()>)
        ensures
            final(self).wf(),
            final(self).target() == old(self).target(),
            final(self).stream() == old(self).stream().shutdown(),
            r == Poll::Ready(()),
    {
        self.shutdown();
        Poll::Ready(())
    }
}

} // verus!
