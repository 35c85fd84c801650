//! Block storage for a chunk-oriented file system.
//!
//! A chunk is a 4 MiB unit of storage made of 1024 blocks of 4 KiB, each
//! behind its own reader-writer lock. One writer fills a chunk from the
//! front and gives up each block as soon as it is full; any number of
//! readers follow behind it, taking the blocks that have been given up.

pub mod block;
pub mod chunk;
pub mod fs;
pub mod id;
pub mod layout;
pub mod provider;
pub mod reader;
pub mod stream;
pub mod sync;
pub mod writer;
