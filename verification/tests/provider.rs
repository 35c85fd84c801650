use chunkstore::chunk::{Chunk, ChunkError};
use chunkstore::id::Id;
use chunkstore::layout::{CHUNK_SIZE, ID_LENGTH};
use chunkstore::provider::{ChunkProvider, ChunkProviderError};
use std::collections::HashMap;
use std::sync::Mutex;

struct Memory {
    stored: Mutex<HashMap<Id, Vec<u8>>>,
    refused: Option<Id>,
}

impl Memory {
    fn new(refused: Option<Id>) -> Memory {
        Memory { stored: Mutex::new(HashMap::new()), refused }
    }

    fn len(&self) -> usize {
        self.stored.lock().unwrap().len()
    }
}

impl ChunkProvider for Memory {
    fn get_chunk_by_id(&self, id: &Id) -> Result<Chunk, ChunkProviderError> {
        if self.refused.as_ref() == Some(id) {
            return Err(std::io::Error::from(std::io::ErrorKind::NotFound).into());
        }
        match self.stored.lock().unwrap().get(id) {
            Some(data) => Ok(Chunk::new_with_data(**id, data)?),
            None => Ok(Chunk::new(**id)),
        }
    }

    fn save_chunk(&self, chunk: &Chunk) -> Result<(), ChunkProviderError> {
        let id = Id::new(*chunk.id());
        if self.refused.as_ref() == Some(&id) {
            return Err(ChunkError::InvalidInput.into());
        }
        let mut data = vec![0u8; CHUNK_SIZE];
        let mut reader = chunk.read();
        let mut filled = 0;
        while filled < CHUNK_SIZE {
            filled += reader.read(&mut data[filled..]);
        }
        self.stored.lock().unwrap().insert(id, data);
        Ok(())
    }
}

fn id(n: u8) -> Id {
    Id::new([n; ID_LENGTH])
}

#[test]
fn chunks_come_back_in_the_order_asked() {
    let provider = Memory::new(None);
    let (a, b, c) = (id(1), id(2), id(3));
    let chunks = provider.get_chunk_by_ids(&[&b, &a, &c, &a]).unwrap();
    assert_eq!(chunks.len(), 4);
    assert_eq!(*chunks[0].id(), [2u8; ID_LENGTH]);
    assert_eq!(*chunks[1].id(), [1u8; ID_LENGTH]);
    assert_eq!(*chunks[2].id(), [3u8; ID_LENGTH]);
    assert_eq!(*chunks[3].id(), [1u8; ID_LENGTH]);
    assert_eq!(provider.get_chunk_by_ids(&[]).unwrap().len(), 0);
}

#[test]
fn first_failure_ends_the_fetch() {
    let provider = Memory::new(Some(id(2)));
    let (a, b) = (id(1), id(2));
    assert!(matches!(
        provider.get_chunk_by_ids(&[&a, &b, &a]),
        Err(ChunkProviderError::IoError(_))
    ));
    assert!(provider.get_chunk_by_ids(&[&a, &a]).is_ok());
}

#[test]
fn saved_chunks_are_handed_out_again() {
    let provider = Memory::new(None);
    let first = Chunk::new([1u8; ID_LENGTH]);
    let second = Chunk::new([2u8; ID_LENGTH]);
    let mut writer = first.writer();
    assert_eq!(writer.write(&[0xABu8; 5000]), 5000);
    drop(writer);
    assert!(provider.save_all_chunks(&[&first, &second]).is_ok());
    assert_eq!(provider.len(), 2);
    assert!(provider.save_all_chunks(&[]).is_ok());
    assert!(provider.flush().is_ok());
    let again = provider.get_chunk_by_id(&id(1)).unwrap();
    let mut head = vec![0u8; 5001];
    assert_eq!(again.read().read(&mut head), 5001);
    assert!(head[..5000].iter().all(|b| *b == 0xAB));
    assert_eq!(head[5000], 0);
}

#[test]
fn first_failure_ends_the_saving() {
    let provider = Memory::new(Some(id(2)));
    let first = Chunk::new([1u8; ID_LENGTH]);
    let second = Chunk::new([2u8; ID_LENGTH]);
    let third = Chunk::new([3u8; ID_LENGTH]);
    assert!(matches!(
        provider.save_all_chunks(&[&first, &second, &third]),
        Err(ChunkProviderError::ChunkError(ChunkError::InvalidInput))
    ));
    assert_eq!(provider.len(), 1);
}

#[test]
fn provider_error_wraps_its_causes() {
    let from_chunk: ChunkProviderError = ChunkError::InvalidLength.into();
    assert!(matches!(from_chunk, ChunkProviderError::ChunkError(ChunkError::InvalidLength)));
    let from_io: ChunkProviderError =
        std::io::Error::from(std::io::ErrorKind::AlreadyExists).into();
    match from_io {
        ChunkProviderError::IoError(e) => assert_eq!(e.kind(), std::io::ErrorKind::AlreadyExists),
        ChunkProviderError::ChunkError(_) => panic!("an error of the store stays one"),
    }
}
