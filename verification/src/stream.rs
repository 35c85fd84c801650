//! A chunk as a stream of bytes: what its writer lays down, what a reader
//! takes up, and the laws that tie the two together.

use vstd::prelude::*;
use crate::block::{block_bytes, overlay, zeros};
use crate::layout::{
    accepted, block_of, lemma_position, lemma_span_step, offset_of, span, BLOCK_SIZE, CHUNK_SIZE,
};

verus! {

/// The state of a chunk as its writer knows it.
pub struct Stream {
    /// The position of the next byte to write, `CHUNK_SIZE` at the end.
    pub cursor: int,
    /// The bytes of the chunk, block after block.
    pub image: Seq<u8>,
}

impl Stream {
    /// The cursor lies in the chunk or at its end, and the image is a whole chunk.
    pub open spec fn wf(self) -> bool {
        &&& 0 <= self.cursor <= CHUNK_SIZE
        &&& self.image.len() == CHUNK_SIZE
    }

    /// The stream after `buf` was offered to it: the bytes that still fit are
    /// laid over the image at the cursor, and the cursor moves behind them.
    pub open spec fn write(self, buf: Seq<u8>) -> Stream {
        let n = accepted(self.cursor, buf.len() as int);
        Stream { cursor: self.cursor + n, image: overlay(self.image, self.cursor, buf.take(n)) }
    }

    /// The stream after each buffer of `bufs` was offered to it in turn.
    pub open spec fn write_all(self, bufs: Seq<Seq<u8>>) -> Stream
        decreases bufs.len(),
    {
        if bufs.len() == 0 {
            self
        } else {
            self.write_all(bufs.drop_last()).write(bufs.last())
        }
    }

    /// The stream after its writer was shut down: nothing more fits.
    pub open spec fn shutdown(self) -> Stream {
        Stream { cursor: CHUNK_SIZE as int, image: self.image }
    }
}

/// The buffers of `bufs`, one after the other.
pub open spec fn joined(bufs: Seq<Seq<u8>>) -> Seq<u8>
    decreases bufs.len(),
{
    if bufs.len() == 0 {
        Seq::empty()
    } else {
        joined(bufs.drop_last()) + bufs.last()
    }
}

/// The stream of a writer that starts on a chunk of zero bytes.
pub open spec fn fresh() -> Stream {
    Stream { cursor: 0, image: zeros(CHUNK_SIZE as nat) }
}

/// A write keeps a stream well formed, takes no more than was offered, and
/// takes nothing only when nothing was offered or the chunk is full.
pub proof fn lemma_write_wf(s: Stream, buf: Seq<u8>)
    requires
        s.wf(),
    ensures
        s.write(buf).wf(),
        s.cursor <= s.write(buf).cursor <= s.cursor + buf.len(),
        s.write(buf).cursor == s.cursor <==> (buf.len() == 0 || s.cursor == CHUNK_SIZE),
{
}

/// However the bytes are cut into buffers, a writer that starts at the front
/// of a chunk takes all of them while they fit, and `CHUNK_SIZE` of them when
/// they do not: that is the capacity of a chunk, and it is never exceeded.
pub proof fn lemma_capacity(image: Seq<u8>, bufs: Seq<Seq<u8>>)
    requires
        image.len() == CHUNK_SIZE,
    ensures
        (Stream { cursor: 0, image }).write_all(bufs).wf(),
        (Stream { cursor: 0, image }).write_all(bufs).cursor == accepted(
            0,
            joined(bufs).len() as int,
        ),
    decreases bufs.len(),
{
    if bufs.len() > 0 {
        lemma_capacity(image, bufs.drop_last());
    }
}

/// Writes that follow one another lay down the bytes that one write of the
/// joined buffers would have laid down.
pub proof fn lemma_write_all_joined(s: Stream, bufs: Seq<Seq<u8>>)
    requires
        s.wf(),
    ensures
        s.write_all(bufs) == s.write(joined(bufs)),
    decreases bufs.len(),
{
    if bufs.len() == 0 {
        assert(s.write(joined(bufs)).image =~= s.image);
    } else {
        let head = bufs.drop_last();
        let last = bufs.last();
        lemma_write_all_joined(s, head);
        let mid = s.write(joined(head));
        let all = joined(head) + last;
        assert(joined(bufs) == all);
        assert(mid.write(last).cursor == s.write(all).cursor);
        assert(mid.write(last).image =~= s.write(all).image);
    }
}

/// A writer that starts on a chunk of zero bytes and is given the bytes
/// `joined(bufs)`, cut in any way, leaves a chunk that holds those bytes and
/// then zero bytes up to its end.
pub proof fn lemma_byte_fidelity(bufs: Seq<Seq<u8>>)
    requires
        joined(bufs).len() <= CHUNK_SIZE,
    ensures
        fresh().write_all(bufs).cursor == joined(bufs).len(),
        fresh().write_all(bufs).image == joined(bufs) + zeros(
            (CHUNK_SIZE - joined(bufs).len()) as nat,
        ),
        fresh().write_all(bufs).shutdown().image == fresh().write_all(bufs).image,
{
    lemma_write_all_joined(fresh(), bufs);
    assert(fresh().write(joined(bufs)).image =~= joined(bufs) + zeros(
        (CHUNK_SIZE - joined(bufs).len()) as nat,
    ));
}

/// How many bytes a reader at `cursor` takes from the block of its cursor
/// when it has room for `want` bytes: what is left of the block, or what it
/// has room for, and nothing at the end of the chunk.
pub open spec fn taken(cursor: int, want: int) -> int {
    if 0 <= cursor < CHUNK_SIZE && 0 < want {
        span(cursor, want)
    } else {
        0
    }
}

/// The bytes that a reader at `cursor` takes from the block of its cursor,
/// which holds `block`, when it has room for `want` bytes.
pub open spec fn fetched(block: Seq<u8>, cursor: int, want: int) -> Seq<u8> {
    block.subrange(offset_of(cursor), offset_of(cursor) + taken(cursor, want))
}

/// The bytes that a reader at `cursor` takes from a chunk with the bytes
/// `image` when it has room for `want` bytes and no block is held back: what
/// it takes from the block of its cursor, then from the next, and so on.
pub open spec fn gathered(image: Seq<u8>, cursor: int, want: int) -> Seq<u8>
    decreases want,
{
    if 0 < taken(cursor, want) {
        fetched(block_bytes(image, block_of(cursor)), cursor, want) + gathered(
            image,
            cursor + taken(cursor, want),
            want - taken(cursor, want),
        )
    } else {
        Seq::empty()
    }
}

/// A reader whose cursor lies in the chunk and that has room for a byte takes
/// at least one byte from the block of its cursor, and never more than the
/// room it has: given the block, a read makes progress.
pub proof fn lemma_progress(block: Seq<u8>, cursor: int, want: int)
    requires
        block.len() == BLOCK_SIZE,
        0 <= cursor < CHUNK_SIZE,
        0 < want,
    ensures
        1 <= fetched(block, cursor, want).len() <= want,
        fetched(block, cursor, want).len() == taken(cursor, want),
{
    lemma_position(cursor);
    lemma_span_step(cursor, want);
}

/// What a reader takes depends on the bytes of the block, on its cursor and
/// on the room it has, and on nothing else: two readers at the same cursor
/// find the same bytes, whatever their buffers held before and wherever in
/// them the bytes go.
pub proof fn lemma_reader_isolation(
    block: Seq<u8>,
    cursor: int,
    want: int,
    buf_a: Seq<u8>,
    at_a: int,
    buf_b: Seq<u8>,
    at_b: int,
)
    requires
        block.len() == BLOCK_SIZE,
        0 <= cursor < CHUNK_SIZE,
        0 <= want,
        0 <= at_a,
        at_a + want <= buf_a.len(),
        0 <= at_b,
        at_b + want <= buf_b.len(),
    ensures
        overlay(buf_a, at_a, fetched(block, cursor, want)).subrange(
            at_a,
            at_a + taken(cursor, want),
        ) == overlay(buf_b, at_b, fetched(block, cursor, want)).subrange(
            at_b,
            at_b + taken(cursor, want),
        ),
        overlay(buf_a, at_a, fetched(block, cursor, want)).subrange(
            at_a,
            at_a + taken(cursor, want),
        ) == fetched(block, cursor, want),
{
    lemma_position(cursor);
    lemma_span_step(cursor, want);
    let got = fetched(block, cursor, want);
    assert(overlay(buf_a, at_a, got).subrange(at_a, at_a + taken(cursor, want)) =~= got);
    assert(overlay(buf_b, at_b, got).subrange(at_b, at_b + taken(cursor, want)) =~= got);
}

/// Reading gives back the image: the bytes that a reader at `cursor` takes
/// from the block of its cursor are those of the image from `cursor` on.
pub proof fn lemma_fetched_from_image(image: Seq<u8>, cursor: int, want: int)
    requires
        image.len() == CHUNK_SIZE,
        0 <= cursor < CHUNK_SIZE,
        0 <= want,
    ensures
        fetched(block_bytes(image, block_of(cursor)), cursor, want) == image.subrange(
            cursor,
            cursor + taken(cursor, want),
        ),
{
    lemma_position(cursor);
    lemma_span_step(cursor, want);
    assert(fetched(block_bytes(image, block_of(cursor)), cursor, want) =~= image.subrange(
        cursor,
        cursor + taken(cursor, want),
    ));
}

/// A writer that starts on a chunk of zero bytes, is given the bytes
/// `joined(bufs)` and is then shut down leaves a chunk from which a reader at
/// any position takes those bytes, and zero bytes behind them.
pub proof fn lemma_read_back(bufs: Seq<Seq<u8>>, cursor: int, want: int, k: int)
    requires
        joined(bufs).len() <= CHUNK_SIZE,
        0 <= cursor < CHUNK_SIZE,
        0 <= k < taken(cursor, want),
    ensures
        fetched(
            block_bytes(fresh().write_all(bufs).shutdown().image, block_of(cursor)),
            cursor,
            want,
        )[k] == if cursor + k < joined(bufs).len() {
            joined(bufs)[cursor + k]
        } else {
            0u8
        },
{
    lemma_byte_fidelity(bufs);
    lemma_span_step(cursor, want);
    lemma_fetched_from_image(fresh().write_all(bufs).shutdown().image, cursor, want);
}

/// A reader that no block is held back from takes the bytes of the image
/// from its cursor on, as many as it has room for or as are left of the
/// chunk.
pub proof fn lemma_gathered(image: Seq<u8>, cursor: int, want: int)
    requires
        image.len() == CHUNK_SIZE,
        0 <= cursor <= CHUNK_SIZE,
        0 <= want,
    ensures
        gathered(image, cursor, want) == image.subrange(cursor, cursor + accepted(cursor, want)),
    decreases want,
{
    if cursor < CHUNK_SIZE && 0 < want {
        let got = taken(cursor, want);
        lemma_position(cursor);
        lemma_span_step(cursor, want);
        lemma_fetched_from_image(image, cursor, want);
        lemma_gathered(image, cursor + got, want - got);
        assert(gathered(image, cursor, want) =~= image.subrange(
            cursor,
            cursor + accepted(cursor, want),
        ));
    } else {
        assert(gathered(image, cursor, want) =~= image.subrange(
            cursor,
            cursor + accepted(cursor, want),
        ));
    }
}

/// Reads that follow one another take up the bytes in their order: what two
/// reads take, the second from where the first stopped, is what one read
/// with the room of both would have taken.
pub proof fn lemma_reads_in_order(image: Seq<u8>, cursor: int, first: int, second: int)
    requires
        image.len() == CHUNK_SIZE,
        0 <= cursor <= CHUNK_SIZE,
        0 <= first,
        0 <= second,
    ensures
        gathered(image, cursor, first) + gathered(
            image,
            cursor + accepted(cursor, first),
            second,
        ) == gathered(image, cursor, first + second),
{
    lemma_gathered(image, cursor, first);
    lemma_gathered(image, cursor + accepted(cursor, first), second);
    lemma_gathered(image, cursor, first + second);
    assert(image.subrange(cursor, cursor + accepted(cursor, first)) + image.subrange(
        cursor + accepted(cursor, first),
        cursor + accepted(cursor, first) + accepted(cursor + accepted(cursor, first), second),
    ) =~= image.subrange(cursor, cursor + accepted(cursor, first + second)));
}

/// A writer that starts on a chunk of zero bytes, is given the bytes
/// `joined(bufs)`, cut in any way, and is then shut down leaves a chunk from
/// which a reader that reads from the front to the end takes those bytes,
/// and zero bytes behind them up to `CHUNK_SIZE`.
pub proof fn lemma_read_to_end(bufs: Seq<Seq<u8>>)
    requires
        joined(bufs).len() <= CHUNK_SIZE,
    ensures
        gathered(fresh().write_all(bufs).shutdown().image, 0, CHUNK_SIZE as int) == joined(bufs)
            + zeros((CHUNK_SIZE - joined(bufs).len()) as nat),
{
    lemma_byte_fidelity(bufs);
    let image = fresh().write_all(bufs).shutdown().image;
    lemma_gathered(image, 0, CHUNK_SIZE as int);
    assert(image.subrange(0, CHUNK_SIZE as int) =~= image);
}

} // verus!
