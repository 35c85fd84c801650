//! Where chunks come from and go to: the provider of a backing store.

use vstd::prelude::*;
use crate::chunk::{Chunk, ChunkError};
use crate::id::{lower_hex, Id};

verus! {

/// `std::io::Error`, which a provider hands on from its backing store.
#[verifier::external_type_specification]
#[verifier::external_body]
pub struct ExIoError(std::io::Error);

/// Why a provider could not hand out or take in a chunk.
#[derive(Debug)]
pub enum ChunkProviderError {
    /// The backing store failed.
    IoError(std::io::Error),
    /// The chunk refused what the provider asked of it.
    ChunkError(ChunkError),
}

impl From<std::io::Error> for ChunkProviderError {
    fn from(e: std::io::Error) -> (r: ChunkProviderError) {
        ChunkProviderError::IoError(e)
    }
}

impl vstd::std_specs::convert::FromSpecImpl<std::io::Error> for ChunkProviderError {
    open spec fn obeys_from_spec() -> bool {
        true
    }

    open spec fn from_spec(e: std::io::Error) -> ChunkProviderError {
        ChunkProviderError::IoError(e)
    }
}

impl From<ChunkError> for ChunkProviderError {
    fn from(e: ChunkError) -> (r: ChunkProviderError) {
        ChunkProviderError::ChunkError(e)
    }
}

impl vstd::std_specs::convert::FromSpecImpl<ChunkError> for ChunkProviderError {
    open spec fn obeys_from_spec() -> bool {
        true
    }

    open spec fn from_spec(e: ChunkError) -> ChunkProviderError {
        ChunkProviderError::ChunkError(e)
    }
}

/// A backing store of chunks. Its users implement the two verbs,
/// `get_chunk_by_id` and `save_chunk`; what is said of them here is what every
/// implementation owes, and nothing checks it but the implementer.
pub trait ChunkProvider: Send + Sync {
    /// The chunk with the identifier `id`: the one that was stored under it,
    /// or a chunk of zero bytes where none was.
    fn get_chunk_by_id(&self, id: &Id) -> (r: Result<Chunk, ChunkProviderError>)
        ensures
            r matches Ok(chunk) ==> chunk.ident() == id@,
    ;

    /// The chunks with the identifiers `ids`, in their order, or the first
    /// failure of the provider.
    fn get_chunk_by_ids(&self, ids: &[&Id]) -> (r: Result<Vec<Chunk>, ChunkProviderError>)
        ensures
            ids@.len() == 0 ==> r is Ok,
            r matches Ok(chunks) ==> {
                &&& chunks@.len() == ids@.len()
                &&& forall|i: int| 0 <= i < ids@.len() ==> (#[trigger] chunks@[i]).ident() == ids@[i]@
            },
    {
        let mut chunks: Vec<Chunk> = Vec::new();
        let mut i: usize = 0;
        while i < ids.len()
            invariant
                i <= ids@.len(),
                chunks@.len() == i,
                forall|j: int| 0 <= j < i ==> (#[trigger] chunks@[j]).ident() == ids@[j]@,
            decreases ids@.len() - i,
        {
            match self.get_chunk_by_id(ids[i]) {
                Ok(chunk) => {
                    chunks.push(chunk);
                },
                Err(e) => {
                    return Err(e);
                },
            }
            i = i + 1;
        }
        Ok(chunks)
    }

    /// Stores what `chunk` holds under its identifier, in place of what was
    /// stored there before.
    fn save_chunk(&self, chunk: &Chunk) -> (r: Result<(), ChunkProviderError>);

    /// Stores each of `chunks` in turn, and stops at the first failure: the
    /// result is then what `save_chunk` answered for that chunk, and every
    /// chunk before it was stored. Where no chunk fails, all were stored.
    fn save_all_chunks(&self, chunks: &[&Chunk]) -> (r: Result<(), ChunkProviderError>)
        ensures
            chunks@.len() == 0 ==> r is Ok,
            r is Ok ==> forall|i: int|
                0 <= i < chunks@.len() ==> call_ensures(
                    Self::save_chunk,
                    (self, #[trigger] chunks@[i]),
                    Ok::<(), ChunkProviderError>(()),
                ),
            r is Err ==> exists|at: int|
                {
                    &&& 0 <= at < chunks@.len()
                    &&& call_ensures(Self::save_chunk, (self, #[trigger] chunks@[at]), r)
                    &&& forall|i: int|
                        0 <= i < at ==> call_ensures(
                            Self::save_chunk,
                            (self, #[trigger] chunks@[i]),
                            Ok::<(), ChunkProviderError>(()),
                        )
                },
    {
        let mut i: usize = 0;
        while i < chunks.len()
            invariant
                i <= chunks@.len(),
                forall|j: int|
                    0 <= j < i ==> call_ensures(
                        Self::save_chunk,
                        (self, #[trigger] chunks@[j]),
                        Ok::<(), ChunkProviderError>(()),
                    ),
            decreases chunks@.len() - i,
        {
            let saved = self.save_chunk(chunks[i]);
            assert(call_ensures(Self::save_chunk, (self, chunks@[i as int]), saved));
            match saved {
                Ok(done) => {
                    assert(done == ());
                    assert(saved == Ok::<(), ChunkProviderError>(done));
                },
                Err(e) => {
                    return Err(e);
                },
            }
            i = i + 1;
        }
        Ok(())
    }

    /// Makes the backing store write out what it holds back. A provider that
    /// holds nothing back has nothing to do.
    fn flush(&self) -> (r: Result<(), ChunkProviderError>)
        default_ensures
            r is Ok,
    {
        Ok(())
    }
}

/// Where a store on disk keeps the chunk with the identifier `id`, as the
/// names of three directories, the outermost first, and of the file in the
/// innermost: the first two, four and six digits of the identifier in
/// hexadecimal, and all 64 of them.
pub fn storage_path(id: &Id) -> (parts: Vec<String>)
    ensures
        parts@.len() == 4,
        parts@[0]@ == lower_hex(id@).take(2),
        parts@[1]@ == lower_hex(id@).take(4),
        parts@[2]@ == lower_hex(id@).take(6),
        parts@[3]@ == lower_hex(id@),
{
    let name = id.hex();
    proof {
        id.lemma_hex_ascii();
    }
    let mut parts: Vec<String> = Vec::new();
    parts.push(name.as_str().substring_ascii(0, 2).to_owned());
    parts.push(name.as_str().substring_ascii(0, 4).to_owned());
    parts.push(name.as_str().substring_ascii(0, 6).to_owned());
    parts.push(name);
    parts
}

} // verus!
