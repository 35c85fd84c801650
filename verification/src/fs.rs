//! The kinds of chunk that the file system keeps.

use vstd::prelude::*;
use crate::chunk::Chunk;

verus! {

/// Marks a chunk that holds a part of a file.
pub struct RawChunk;

/// Marks a chunk that holds the metadata of a directory.
pub struct MetaChunk;

/// Marks a chunk that holds files small enough to share one.
pub struct TinyFileChunk;

/// What a chunk holds.
#[derive(Clone, Copy, Debug, PartialEq, Eq, Structural)]
pub enum ChunkType {
    /// A part of a file.
    Raw,
    /// The metadata of a directory.
    DirMeta,
    /// Files small enough to share a chunk.
    TinyFiles,
    /// A provider that does not know the kind says so.
    Unknown,
}

impl Chunk {
    /// What the chunk holds: for every chunk as yet, a part of a file.
    pub fn get_type(&self) -> (kind: ChunkType)
        ensures
            kind == ChunkType::Raw,
    {
        ChunkType::Raw
    }
}

} // verus!
