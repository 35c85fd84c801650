//! The chunk: 1024 blocks, each behind its own lock, and the registry of
//! readers that wait for a block.

use vstd::prelude::*;
use core::task::Waker;
use crate::block::{block_bytes, lemma_blocks_make_image, zeros};
use crate::layout::{block_of, lemma_position, offset_of};
use crate::layout::{BLOCK_PER_CHUNK, BLOCK_SIZE, CHUNK_SIZE, ID_LENGTH};
use crate::sync::{
    into_block, left_in, lock_registry, made_with, new_lock, new_registry, registered, wake,
    BlockLock, Registry,
};

pub use crate::block::Block;
pub use crate::reader::ChunkReader;
pub use crate::writer::ChunkWriter;

verus! {

/// What a handle of a chunk can refuse.
#[derive(Clone, Copy, Debug, PartialEq, Eq, Structural)]
pub enum ChunkError {
    /// A seek to a position before the start of the chunk.
    InvalidInput,
    /// Bytes for a chunk that are not `CHUNK_SIZE` in number.
    InvalidLength,
}

/// The smallest unit of storage that has an identifier: 4 MiB in 1024 blocks.
pub struct Chunk {
    pub(crate) id: [u8; ID_LENGTH],
    pub(crate) data: Vec<BlockLock>,
    pub(crate) subscriber: Registry,
}

/// `Vec::from` for an array: the blocks of `blocks`, in their order, in a
/// vector. The blocks are moved, not copied.
#[verifier::external_body]
fn blocks_into_vec(blocks: [Block; BLOCK_PER_CHUNK]) -> (moved: Vec<Block>)
    ensures
        moved@ == blocks@,
{
    Vec::from(blocks)
}

/// 1024 blocks of zero bytes.
pub fn zeroed_blocks() -> (blocks: Vec<Block>)
    ensures
        blocks@.len() == BLOCK_PER_CHUNK,
        forall|i: int| 0 <= i < BLOCK_PER_CHUNK ==> (#[trigger] blocks@[i])@ == zeros(BLOCK_SIZE as nat),
{
    let mut blocks: Vec<Block> = Vec::new();
    while blocks.len() < BLOCK_PER_CHUNK
        invariant
            blocks@.len() <= BLOCK_PER_CHUNK,
            forall|i: int| 0 <= i < blocks@.len() ==> (#[trigger] blocks@[i])@ == zeros(BLOCK_SIZE as nat),
        decreases BLOCK_PER_CHUNK - blocks@.len(),
    {
        blocks.push(Block::default());
    }
    blocks
}

/// The 1024 blocks of a chunk that holds `data`: block after block, what
/// `data` holds from front to end.
pub fn blocks_of(data: &[u8]) -> (blocks: Vec<Block>)
    requires
        data@.len() == CHUNK_SIZE,
    ensures
        blocks@.len() == BLOCK_PER_CHUNK,
        forall|i: int| 0 <= i < BLOCK_PER_CHUNK ==> (#[trigger] blocks@[i])@ == block_bytes(data@, i),
{
    let mut blocks: Vec<Block> = Vec::new();
    let mut i: usize = 0;
    while i < BLOCK_PER_CHUNK
        invariant
            i <= BLOCK_PER_CHUNK,
            data@.len() == CHUNK_SIZE,
            blocks@.len() == i,
            forall|j: int| 0 <= j < i ==> (#[trigger] blocks@[j])@ == block_bytes(data@, j),
        decreases BLOCK_PER_CHUNK - i,
    {
        let mut block = Block::default();
        block.write_at(0, data, i * BLOCK_SIZE, BLOCK_SIZE);
        assert(block@ =~= block_bytes(data@, i as int));
        blocks.push(block);
        i = i + 1;
    }
    blocks
}

/// Takes every handle out of `registry` and leaves it empty.
pub fn take_handles(registry: &mut Vec<Waker>) -> (taken: Vec<Waker>)
    ensures
        final(registry)@.len() == 0,
        taken@ == old(registry)@,
{
    let mut taken: Vec<Waker> = Vec::new();
    core::mem::swap(registry, &mut taken);
    taken
}

/// Resumes the task of every handle in `handles`, in order, and says how
/// many that were.
pub fn resume_all(handles: &Vec<Waker>) -> (resumed: usize)
    ensures
        resumed == handles@.len(),
{
    let mut i: usize = 0;
    while i < handles.len()
        invariant
            i <= handles@.len(),
        decreases handles@.len() - i,
    {
        wake(&handles[i]);
        i = i + 1;
    }
    i
}

impl Chunk {
    /// The identifier that the chunk was made with.
    pub closed spec fn ident(&self) -> Seq<u8> {
        self.id@
    }

    /// The bytes that the chunk was made with, block after block. What the
    /// chunk holds later is what its writers lay over them.
    pub closed spec fn initial(&self) -> Seq<u8> {
        Seq::new(
            CHUNK_SIZE as nat,
            |p: int| made_with(self.data@[block_of(p)])[offset_of(p)],
        )
    }

    /// The bytes that the chunk gives back when it is taken apart, block
    /// after block: what its writers have left in it by then.
    pub closed spec fn remains(&self) -> Seq<u8> {
        Seq::new(
            CHUNK_SIZE as nat,
            |p: int| left_in(self.data@[block_of(p)])[offset_of(p)],
        )
    }

    /// A chunk has 1024 blocks.
    #[verifier::type_invariant]
    spec fn whole(self) -> bool {
        self.data@.len() == BLOCK_PER_CHUNK
    }

    /// A chunk of 1024 zero blocks with an empty registry.
    pub fn new(id: [u8; ID_LENGTH]) -> (chunk: Chunk)
        ensures
            chunk.ident() == id@,
            chunk.initial() == zeros(CHUNK_SIZE as nat),
    {
        let blocks = zeroed_blocks();
        let ghost given = blocks@;
        let chunk = Chunk::adopt(id, blocks);
        proof {
            assert forall|i: int| 0 <= i < BLOCK_PER_CHUNK implies #[trigger] block_bytes(
                chunk.initial(),
                i,
            ) == block_bytes(zeros(CHUNK_SIZE as nat), i) by {
                assert(given[i]@ == zeros(BLOCK_SIZE as nat));
                assert(block_bytes(zeros(CHUNK_SIZE as nat), i) =~= zeros(BLOCK_SIZE as nat));
            }
            lemma_blocks_make_image(chunk.initial(), zeros(CHUNK_SIZE as nat));
        }
        chunk
    }

    /// A chunk that owns `blocks`, in their order, with an empty registry.
    /// The blocks are moved: no byte is copied.
    pub fn new_with_blocks(id: [u8; ID_LENGTH], blocks: [Block; BLOCK_PER_CHUNK]) -> (chunk: Chunk)
        ensures
            chunk.ident() == id@,
            forall|i: int|
                0 <= i < BLOCK_PER_CHUNK ==> block_bytes(chunk.initial(), i) == (#[trigger] blocks@[i])@,
    {
        Chunk::adopt(id, blocks_into_vec(blocks))
    }

    /// A chunk that holds `data`, which must be the bytes of a whole chunk:
    /// any other number of bytes is refused.
    pub fn new_with_data(id: [u8; ID_LENGTH], data: &[u8]) -> (r: Result<Chunk, ChunkError>)
        ensures
            data@.len() == CHUNK_SIZE ==> r is Ok && r->Ok_0.ident() == id@ && r->Ok_0.initial()
                == data@,
            data@.len() != CHUNK_SIZE ==> r is Err && r->Err_0 == ChunkError::InvalidLength,
    {
        if data.len() == CHUNK_SIZE {
            let blocks = blocks_of(data);
            let ghost given = blocks@;
            let chunk = Chunk::adopt(id, blocks);
            proof {
                assert forall|i: int| 0 <= i < BLOCK_PER_CHUNK implies #[trigger] block_bytes(
                    chunk.initial(),
                    i,
                ) == block_bytes(data@, i) by {
                    assert(given[i]@ == block_bytes(data@, i));
                }
                lemma_blocks_make_image(chunk.initial(), data@);
            }
            Ok(chunk)
        } else {
            Err(ChunkError::InvalidLength)
        }
    }

    /// A chunk that owns the 1024 blocks of `blocks`, in their order.
    fn adopt(id: [u8; ID_LENGTH], blocks: Vec<Block>) -> (chunk: Chunk)
        requires
            blocks@.len() == BLOCK_PER_CHUNK,
        ensures
            chunk.ident() == id@,
            forall|i: int|
                0 <= i < BLOCK_PER_CHUNK ==> block_bytes(chunk.initial(), i) == (#[trigger] blocks@[i])@,
    {
        let ghost given = blocks@;
        let mut data: Vec<BlockLock> = Vec::new();
        for block in it: blocks
            invariant
                given == blocks@,
                data@.len() == it.index(),
                forall|i: int| 0 <= i < data@.len() ==> made_with(#[trigger] data@[i]) == given[i]@,
        {
            data.push(new_lock(block));
        }
        let chunk = Chunk { id, data, subscriber: new_registry(Vec::new()) };
        assert forall|i: int| 0 <= i < BLOCK_PER_CHUNK implies block_bytes(chunk.initial(), i)
            == (#[trigger] given[i])@ by {
            given[i].lemma_len();
            assert(made_with(chunk.data@[i]) == given[i]@);
            assert forall|k: int| 0 <= k < BLOCK_SIZE implies block_bytes(chunk.initial(), i)[k]
                == given[i]@[k] by {
                lemma_position(i * BLOCK_SIZE + k);
            }
            assert(block_bytes(chunk.initial(), i) =~= given[i]@);
        }
        chunk
    }

    /// Takes the chunk apart and returns its 1024 blocks, in their order. The
    /// blocks are moved: no byte is copied.
    pub fn into_blocks(self) -> (blocks: Vec<Block>)
        ensures
            blocks@.len() == BLOCK_PER_CHUNK,
            forall|i: int|
                0 <= i < BLOCK_PER_CHUNK ==> (#[trigger] blocks@[i])@ == block_bytes(self.remains(), i),
    {
        proof {
            use_type_invariant(&self);
        }
        let ghost locks = self.data@;
        let mut blocks: Vec<Block> = Vec::new();
        for lock in it: self.data
            invariant
                locks == self.data@,
                blocks@.len() == it.index(),
                forall|i: int| 0 <= i < blocks@.len() ==> (#[trigger] blocks@[i])@ == left_in(locks[i]),
        {
            blocks.push(into_block(lock));
        }
        assert forall|i: int| 0 <= i < BLOCK_PER_CHUNK implies (#[trigger] blocks@[i])@
            == block_bytes(self.remains(), i) by {
            blocks@[i].lemma_len();
            assert forall|k: int| 0 <= k < BLOCK_SIZE implies block_bytes(self.remains(), i)[k]
                == blocks@[i]@[k] by {
                lemma_position(i * BLOCK_SIZE + k);
            }
            assert(block_bytes(self.remains(), i) =~= blocks@[i]@);
        }
        blocks
    }

    /// The lock of block `index`.
    pub(crate) fn lock_of(&self, index: usize) -> (lock: &BlockLock)
        requires
            index < BLOCK_PER_CHUNK,
        ensures
            *lock == self.data@[index as int],
    {
        proof {
            use_type_invariant(self);
        }
        &self.data[index]
    }

    /// The identifier of the chunk.
    pub fn id(&self) -> (id: &[u8; ID_LENGTH])
        ensures
            id@ == self.ident(),
    {
        &self.id
    }

    /// The writer of the chunk, at its front. Returns once the writer has
    /// exclusive access to all 1024 blocks: while another writer holds a
    /// block, or a reader copies from one, this waits.
    pub fn writer(&self) -> (writer: ChunkWriter<'_>)
        ensures
            writer.wf(),
            writer.cursor() == 0,
            writer.target() == self,
    {
        ChunkWriter::new(self)
    }

    /// A new reader of the chunk, at its front. It takes no lock and returns
    /// at once.
    pub fn read(&self) -> (reader: ChunkReader<'_>)
        ensures
            reader.wf(),
            reader.cursor() == 0,
            reader.source() == self,
    {
        ChunkReader::new(self)
    }

    /// Adds the handle of a reader that waits for a block.
    pub(crate) fn subscribe(&self, handle: Waker) {
        let mut guard = lock_registry(&self.subscriber);
        let handles = registered(&mut guard);
        handles.push(handle);
    }

    /// Empties the registry and resumes every reader whose handle was in it.
    /// The registry is free again before the first reader is resumed.
    pub(crate) fn broadcast(&self) -> (resumed: usize) {
        let taken = {
            let mut guard = lock_registry(&self.subscriber);
            take_handles(registered(&mut guard))
        };
        resume_all(&taken)
    }
}

} // verus!
