use chunkstore::chunk::{blocks_of, zeroed_blocks, Block, Chunk, ChunkError, ChunkReader};
use chunkstore::fs::ChunkType;
use chunkstore::layout::{BLOCK_PER_CHUNK, BLOCK_SIZE, CHUNK_SIZE, ID_LENGTH};

fn read_to_end(reader: &mut ChunkReader) -> Vec<u8> {
    let mut out = vec![0xEEu8; CHUNK_SIZE];
    let mut filled = 0;
    loop {
        let n = reader.read(&mut out[filled..]);
        if n == 0 {
            break;
        }
        filled += n;
    }
    out.truncate(filled);
    out
}

fn numbered_blocks() -> [Block; BLOCK_PER_CHUNK] {
    std::array::from_fn(|i| {
        let mut block = Block::default();
        block.fill(i as u8);
        block
    })
}

#[test]
fn test_write() {
    let chunk = Chunk::new([0u8; ID_LENGTH]);
    let mut chunk_writer = chunk.writer();
    for i in 0..BLOCK_PER_CHUNK / 4 {
        assert_eq!(chunk_writer.write(&[i as u8; 4096 * 4]), 4096 * 4);
    }
    drop(chunk_writer);
    let blocks = chunk.into_blocks();
    assert_eq!(blocks.len(), BLOCK_PER_CHUNK);
    for i in 0..BLOCK_PER_CHUNK {
        for j in 0..BLOCK_SIZE {
            assert_eq!(blocks[i][j], (i / 4) as u8)
        }
    }
}

#[test]
fn full_write_then_full_read() {
    let chunk = Chunk::new([1u8; ID_LENGTH]);
    let stream: Vec<u8> = (0..CHUNK_SIZE).map(|i| (i / BLOCK_SIZE) as u8).collect();
    let mut writer = chunk.writer();
    assert_eq!(writer.write(&stream), CHUNK_SIZE);
    drop(writer);
    let bytes = read_to_end(&mut chunk.read());
    assert_eq!(bytes.len(), CHUNK_SIZE);
    for (i, byte) in bytes.iter().enumerate() {
        assert_eq!(*byte, ((i / 4096) % 256) as u8);
    }
}

#[test]
fn short_write_leaves_zero_tail() {
    let chunk = Chunk::new([2u8; ID_LENGTH]);
    let mut writer = chunk.writer();
    assert_eq!(writer.write(&[0xAAu8; 5000]), 5000);
    writer.shutdown();
    let bytes = read_to_end(&mut chunk.read());
    assert_eq!(bytes.len(), CHUNK_SIZE);
    assert!(bytes[..5000].iter().all(|b| *b == 0xAA));
    assert!(bytes[5000..].iter().all(|b| *b == 0x00));
}

#[test]
fn dropped_writer_leaves_zero_tail() {
    let chunk = Chunk::new([2u8; ID_LENGTH]);
    let mut writer = chunk.writer();
    assert_eq!(writer.write(&[0x55u8; 4097]), 4097);
    drop(writer);
    let bytes = read_to_end(&mut chunk.read());
    assert_eq!(bytes.len(), CHUNK_SIZE);
    assert!(bytes[..4097].iter().all(|b| *b == 0x55));
    assert!(bytes[4097..].iter().all(|b| *b == 0x00));
}

#[test]
fn deconstruct_round_trip() {
    let given = numbered_blocks();
    let chunk = Chunk::new_with_blocks([3u8; ID_LENGTH], given.clone());
    let mut reader = chunk.read();
    let mut head = [0u8; 8192];
    assert_eq!(reader.read(&mut head), 8192);
    assert!(head[..4096].iter().all(|b| *b == 0));
    assert!(head[4096..].iter().all(|b| *b == 1));
    drop(reader);
    let blocks = chunk.into_blocks();
    assert_eq!(blocks.len(), BLOCK_PER_CHUNK);
    for i in 0..BLOCK_PER_CHUNK {
        assert_eq!(blocks[i][..], given[i][..]);
        assert!(blocks[i].iter().all(|b| *b == (i % 256) as u8));
    }
}

#[test]
fn blocks_keep_their_order() {
    let chunk = Chunk::new_with_blocks([3u8; ID_LENGTH], numbered_blocks());
    let bytes = read_to_end(&mut chunk.read());
    assert_eq!(bytes.len(), CHUNK_SIZE);
    for i in 0..BLOCK_PER_CHUNK {
        assert_eq!(bytes[i * BLOCK_SIZE], (i % 256) as u8);
        assert_eq!(bytes[i * BLOCK_SIZE + BLOCK_SIZE - 1], (i % 256) as u8);
    }
}

#[test]
fn new_chunk_is_zeroed() {
    let chunk = Chunk::new([4u8; ID_LENGTH]);
    let bytes = read_to_end(&mut chunk.read());
    assert_eq!(bytes.len(), CHUNK_SIZE);
    assert!(bytes.iter().all(|b| *b == 0));
    let blocks = chunk.into_blocks();
    assert_eq!(blocks.len(), 1024);
    assert!(blocks.iter().all(|block| block.iter().all(|b| *b == 0)));
}

#[test]
fn zeroed_blocks_are_1024_zero_blocks() {
    let blocks = zeroed_blocks();
    assert_eq!(blocks.len(), 1024);
    for block in blocks.iter() {
        assert_eq!(block.len(), 4096);
        assert!(block.iter().all(|b| *b == 0));
    }
}

#[test]
fn chunk_keeps_its_identifier() {
    let mut id = [0u8; ID_LENGTH];
    for (i, byte) in id.iter_mut().enumerate() {
        *byte = (i * 7) as u8;
    }
    assert_eq!(ID_LENGTH, 32);
    assert_eq!(*Chunk::new(id).id(), id);
    assert_eq!(*Chunk::new_with_blocks(id, numbered_blocks()).id(), id);
    assert_eq!(*Chunk::new_with_data(id, &vec![0u8; CHUNK_SIZE]).unwrap().id(), id);
}

#[test]
fn chunk_from_data_holds_the_data() {
    let data: Vec<u8> = (0..CHUNK_SIZE).map(|i| (i % 251) as u8).collect();
    let chunk = Chunk::new_with_data([5u8; ID_LENGTH], &data).unwrap();
    assert_eq!(read_to_end(&mut chunk.read()), data);
}

#[test]
fn chunk_from_data_of_wrong_length_is_refused() {
    let short = vec![0u8; CHUNK_SIZE - 1];
    let long = vec![0u8; CHUNK_SIZE + 1];
    assert!(matches!(
        Chunk::new_with_data([5u8; ID_LENGTH], &short),
        Err(ChunkError::InvalidLength)
    ));
    assert!(matches!(
        Chunk::new_with_data([5u8; ID_LENGTH], &long),
        Err(ChunkError::InvalidLength)
    ));
    assert!(matches!(Chunk::new_with_data([5u8; ID_LENGTH], &[]), Err(ChunkError::InvalidLength)));
}

#[test]
fn blocks_of_cuts_data_into_blocks() {
    let data: Vec<u8> = (0..CHUNK_SIZE).map(|i| (i / 3) as u8).collect();
    let blocks = blocks_of(&data);
    assert_eq!(blocks.len(), BLOCK_PER_CHUNK);
    for (i, block) in blocks.iter().enumerate() {
        assert_eq!(block[..], data[i * BLOCK_SIZE..(i + 1) * BLOCK_SIZE]);
    }
}

#[test]
fn every_chunk_is_raw() {
    assert_eq!(Chunk::new([6u8; ID_LENGTH]).get_type(), ChunkType::Raw);
    assert_ne!(Chunk::new([6u8; ID_LENGTH]).get_type(), ChunkType::Unknown);
}

#[test]
fn sizes() {
    assert_eq!(BLOCK_SIZE, 4096);
    assert_eq!(BLOCK_PER_CHUNK, 1024);
    assert_eq!(CHUNK_SIZE, 4_194_304);
    assert_eq!(CHUNK_SIZE, BLOCK_SIZE * BLOCK_PER_CHUNK);
}

fn shared_by_threads<T: Send + Sync>() {}

#[test]
fn chunk_and_reader_can_cross_threads() {
    shared_by_threads::<Chunk>();
    shared_by_threads::<ChunkReader<'static>>();
    shared_by_threads::<Block>();
}
