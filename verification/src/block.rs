//! A block: 4096 bytes on the heap.

use vstd::prelude::*;
use crate::layout::{
    block_of, lemma_position, offset_of, BLOCK_PER_CHUNK, BLOCK_SIZE, CHUNK_SIZE,
};

verus! {

/// A fixed run of `BLOCK_SIZE` bytes. It lives on the heap, so that a chunk
/// can hand its blocks over without moving their bytes.
#[derive(Debug)]
pub struct Block(Box<[u8; BLOCK_SIZE]>);

impl View for Block {
    type V = Seq<u8>;

    closed spec fn view(&self) -> Seq<u8> {
        self.0@
    }
}

/// `len` zero bytes.
pub open spec fn zeros(len: nat) -> Seq<u8> {
    Seq::new(len, |i: int| 0u8)
}

/// `base` with the bytes of `src` laid over it from position `at` on.
pub open spec fn overlay(base: Seq<u8>, at: int, src: Seq<u8>) -> Seq<u8> {
    Seq::new(
        base.len(),
        |p: int|
            if at <= p < at + src.len() {
                src[p - at]
            } else {
                base[p]
            },
    )
}

/// The bytes of block `index` in `image`, the bytes of a whole chunk.
pub open spec fn block_bytes(image: Seq<u8>, index: int) -> Seq<u8> {
    image.subrange(index * BLOCK_SIZE, (index + 1) * BLOCK_SIZE)
}

/// The bytes of a chunk are those of its blocks: two images with the same
/// blocks are the same image.
pub proof fn lemma_blocks_make_image(a: Seq<u8>, b: Seq<u8>)
    requires
        a.len() == CHUNK_SIZE,
        b.len() == CHUNK_SIZE,
        forall|i: int| 0 <= i < BLOCK_PER_CHUNK ==> #[trigger] block_bytes(a, i) == block_bytes(b, i),
    ensures
        a == b,
{
    assert forall|p: int| 0 <= p < CHUNK_SIZE implies a[p] == b[p] by {
        lemma_position(p);
        assert(block_bytes(a, block_of(p)) == block_bytes(b, block_of(p)));
        assert(block_bytes(a, block_of(p))[offset_of(p)] == a[p]);
        assert(block_bytes(b, block_of(p))[offset_of(p)] == b[p]);
    }
    assert(a =~= b);
}

impl Clone for Block {
    /// A second block with the same bytes.
    fn clone(&self) -> (copy: Self)
        ensures
            copy@ == self@,
    {
        Block(Box::new(*self.0))
    }
}

impl Default for Block {
    /// A block of zero bytes.
    fn default() -> (b: Self)
        ensures
            b@ == zeros(BLOCK_SIZE as nat),
    {
        let b = Block(Box::new([0u8; BLOCK_SIZE]));
        assert(b@ =~= zeros(BLOCK_SIZE as nat));
        b
    }
}

impl std::ops::Deref for Block {
    type Target = [u8; BLOCK_SIZE];

    fn deref(&self) -> (bytes: &[u8; BLOCK_SIZE])
        ensures
            bytes@ == self@,
    {
        &self.0
    }
}

impl std::ops::DerefMut for Block {
    fn deref_mut(&mut self) -> (bytes: &mut [u8; BLOCK_SIZE])
        ensures
            bytes@ == old(self)@,
            final(self)@ == final(bytes)@,
    {
        &mut self.0
    }
}

impl Block {
    /// Every block holds `BLOCK_SIZE` bytes.

    pub proof fn lemma_len(&self)
        ensures
            self@.len() == BLOCK_SIZE,
    {
    }

    /// Copies `len` bytes of `src`, from `from` on, into the block at
    /// `offset`. The other bytes of the block stay as they are.
    pub fn write_at(&mut self, offset: usize, src: &[u8], from: usize, len: usize)
        requires
            offset + len <= BLOCK_SIZE,
            from + len <= src@.len(),
        ensures
            final(self)@ == overlay(old(self)@, offset as int, src@.subrange(from as int, from + len)),
        no_unwind
    {
        assert(src@.len() == src.len());
        let mut k: usize = 0;
        while k < len
            invariant
                k <= len,
                offset + len <= BLOCK_SIZE,
                from + len <= src@.len(),
                src@.len() <= usize::MAX,
                self@ == overlay(old(self)@, offset as int, src@.subrange(from as int, from + k)),
            decreases len - k,
        {
            self.0[offset + k] = src[from + k];
            k = k + 1;
            assert(self@ =~= overlay(
                old(self)@,
                offset as int,
                src@.subrange(from as int, from + k),
            ));
        }
        assert(self@ =~= overlay(old(self)@, offset as int, src@.subrange(from as int, from + len)));
    }

    /// Copies `len` bytes of the block, from `offset` on, into `dst` at `at`.
    /// The other bytes of `dst` stay as they are.
    pub fn read_at(&self, offset: usize, dst: &mut [u8], at: usize, len: usize)
        requires
            offset + len <= BLOCK_SIZE,
            at + len <= old(dst)@.len(),
        ensures
            final(dst)@ == overlay(old(dst)@, at as int, self@.subrange(offset as int, offset + len)),
    {
        let total: usize = dst.len();
        let mut k: usize = 0;
        while k < len
            invariant
                k <= len,
                offset + len <= BLOCK_SIZE,
                total == old(dst)@.len(),
                at + len <= total,
                dst@ == overlay(old(dst)@, at as int, self@.subrange(offset as int, offset + k)),
            decreases len - k,
        {
            dst[at + k] = self.0[offset + k];
            k = k + 1;
            assert(dst@ =~= overlay(
                old(dst)@,
                at as int,
                self@.subrange(offset as int, offset + k),
            ));
        }
        assert(dst@ =~= overlay(old(dst)@, at as int, self@.subrange(offset as int, offset + len)));
    }
}

} // verus!
