use chunkstore::block::Block;
use chunkstore::layout::{locate, span_len, BLOCK_SIZE};

#[test]
fn default_block_is_zero() {
    let block = Block::default();
    assert_eq!(block.len(), BLOCK_SIZE);
    assert!(block.iter().all(|b| *b == 0));
}

#[test]
fn block_can_be_read_and_written_in_place() {
    let mut block = Block::default();
    block[0] = 9;
    block[4095] = 7;
    assert_eq!(block[0], 9);
    assert_eq!(block[1], 0);
    assert_eq!(block[4095], 7);
    let copy = block.clone();
    block[0] = 1;
    assert_eq!(copy[0], 9);
    assert_eq!(copy[4095], 7);
}

#[test]
fn write_at_lays_bytes_over_the_block() {
    let mut block = Block::default();
    block.fill(0x11);
    block.write_at(10, &[1, 2, 3, 4, 5, 6], 2, 3);
    assert!(block[..10].iter().all(|b| *b == 0x11));
    assert_eq!(block[10..13], [3, 4, 5]);
    assert!(block[13..].iter().all(|b| *b == 0x11));
}

#[test]
fn write_at_reaches_both_ends() {
    let mut block = Block::default();
    let src: Vec<u8> = (0..BLOCK_SIZE).map(|i| (i % 255) as u8 + 1).collect();
    block.write_at(0, &src, 0, BLOCK_SIZE);
    assert_eq!(block[..], src[..]);
    block.write_at(4095, &[0xFE], 0, 1);
    assert_eq!(block[4095], 0xFE);
    assert_eq!(block[4094], src[4094]);
    block.write_at(4096, &[0xFD], 0, 0);
    assert_eq!(block[4095], 0xFE);
}

#[test]
fn read_at_lays_bytes_over_the_buffer() {
    let mut block = Block::default();
    for i in 0..BLOCK_SIZE {
        block[i] = (i % 200) as u8;
    }
    let mut buf = [0xEEu8; 12];
    block.read_at(198, &mut buf, 4, 5);
    assert_eq!(buf, [0xEE, 0xEE, 0xEE, 0xEE, 198, 199, 0, 1, 2, 0xEE, 0xEE, 0xEE]);
    block.read_at(0, &mut buf, 12, 0);
    assert_eq!(buf, [0xEE, 0xEE, 0xEE, 0xEE, 198, 199, 0, 1, 2, 0xEE, 0xEE, 0xEE]);
}

#[test]
fn locate_splits_a_position() {
    assert_eq!(locate(0), (0, 0));
    assert_eq!(locate(4095), (0, 4095));
    assert_eq!(locate(4096), (1, 0));
    assert_eq!(locate(5000), (1, 904));
    assert_eq!(locate(4_194_303), (1023, 4095));
    assert_eq!(locate(4_194_304), (1024, 0));
}

#[test]
fn span_len_stops_at_the_end_of_the_block() {
    assert_eq!(span_len(0, 10), 10);
    assert_eq!(span_len(0, 4096), 4096);
    assert_eq!(span_len(0, 4097), 4096);
    assert_eq!(span_len(4090, 10), 6);
    assert_eq!(span_len(4090, 6), 6);
    assert_eq!(span_len(4090, 5), 5);
    assert_eq!(span_len(8191, 100), 1);
    assert_eq!(span_len(8192, 0), 0);
}
