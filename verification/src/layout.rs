//! Sizes of a chunk and the arithmetic of positions in it.

use vstd::prelude::*;

verus! {

/// Number of bytes in the identifier of a chunk.
pub const ID_LENGTH: usize = 32;

/// Number of bytes in a block.
pub const BLOCK_SIZE: usize = 4096;

/// Number of blocks in a chunk.
pub const BLOCK_PER_CHUNK: usize = 1024;

/// Number of bytes in a chunk.
pub const CHUNK_SIZE: usize = BLOCK_SIZE * BLOCK_PER_CHUNK;

/// The block that holds position `pos`.
pub open spec fn block_of(pos: int) -> int {
    pos / (BLOCK_SIZE as int)
}

/// Where position `pos` lies inside its block.
pub open spec fn offset_of(pos: int) -> int {
    pos % (BLOCK_SIZE as int)
}

/// How many of `want` bytes starting at `pos` lie in the block of `pos`.
pub open spec fn span(pos: int, want: int) -> int {
    if want <= BLOCK_SIZE - offset_of(pos) {
        want
    } else {
        BLOCK_SIZE - offset_of(pos)
    }
}

/// How many of `want` bytes starting at `pos` lie before the end of the chunk.
pub open spec fn accepted(pos: int, want: int) -> int {
    if want <= CHUNK_SIZE - pos {
        want
    } else {
        CHUNK_SIZE - pos
    }
}

/// A position below the end of the chunk lies in one of its blocks, and the
/// block and the offset give the position back.
pub proof fn lemma_position(pos: int)
    requires
        0 <= pos < CHUNK_SIZE,
    ensures
        0 <= block_of(pos) < BLOCK_PER_CHUNK,
        0 <= offset_of(pos) < BLOCK_SIZE,
        pos == block_of(pos) * BLOCK_SIZE + offset_of(pos),
{
}

/// Moving on by a span stays in the block, or arrives at the start of the next.
pub proof fn lemma_span_step(pos: int, want: int)
    requires
        0 <= pos < CHUNK_SIZE,
        0 <= want,
    ensures
        0 <= span(pos, want) <= want,
        span(pos, want) <= accepted(pos, want),
        want > 0 ==> span(pos, want) > 0,
        pos + span(pos, want) <= CHUNK_SIZE,
        span(pos, want) < BLOCK_SIZE - offset_of(pos) ==> {
            &&& block_of(pos + span(pos, want)) == block_of(pos)
            &&& offset_of(pos + span(pos, want)) == offset_of(pos) + span(pos, want)
        },
        span(pos, want) == BLOCK_SIZE - offset_of(pos) ==> {
            &&& block_of(pos + span(pos, want)) == block_of(pos) + 1
            &&& offset_of(pos + span(pos, want)) == 0
        },
{
}

/// The block that holds position `pos`, and where `pos` lies in it.
pub fn locate(pos: usize) -> (at: (usize, usize))
    ensures
        at.0 == block_of(pos as int),
        at.1 == offset_of(pos as int),
        at.1 < BLOCK_SIZE,
        pos < CHUNK_SIZE ==> at.0 < BLOCK_PER_CHUNK,
    no_unwind
{
    (pos / BLOCK_SIZE, pos % BLOCK_SIZE)
}

/// How many of `want` bytes starting at `pos` lie in the block of `pos`.
pub fn span_len(pos: usize, want: usize) -> (n: usize)
    ensures
        n == span(pos as int, want as int),
        n <= want,
        n <= BLOCK_SIZE,
    no_unwind
{
    let room: usize = BLOCK_SIZE - pos % BLOCK_SIZE;
    if want <= room {
        want
    } else {
        room
    }
}

} // verus!
