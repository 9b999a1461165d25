use aio_bridge::driver::{
    copy_blocks, final_length, next_offset, read_size, transfer_done, BLOCK_SIZE, BUFFER_ALIGN,
};

#[test]
fn read_size_at_the_tail() {
    // 5000-byte source with 4096-byte blocks: the final read returns 904
    assert_eq!(read_size(5000, 0, 4096), 4096);
    assert_eq!(read_size(5000, 4096, 4096), 904);
    assert_eq!(read_size(5000, 8192, 4096), 0);
    assert_eq!(read_size(0, 0, 4096), 0);
    assert_eq!(read_size(4096, 0, 4096), 4096);
    assert_eq!(read_size(4096, 4096, 4096), 0);
}

#[test]
fn transfer_stops_on_empty_or_failed_read() {
    assert!(transfer_done(0));
    assert!(transfer_done(-11));
    assert!(!transfer_done(1));
    assert!(!transfer_done(4096));
}

#[test]
fn offsets_advance_by_one_block() {
    assert_eq!(next_offset(0, 4096), 4096);
    assert_eq!(next_offset(4096, 4096), 8192);
    assert_eq!(next_offset(0, BLOCK_SIZE as u64), BLOCK_SIZE as i64);
}

#[test]
fn destination_truncated_only_when_sizes_differ() {
    assert_eq!(final_length(5000, 8192), Some(5000));
    assert_eq!(final_length(5000, 5000), None);
    assert_eq!(final_length(0, 4096), Some(0));
    assert_eq!(final_length(0, 0), None);
}

fn pattern(n: usize) -> Vec<u8> {
    (0..n).map(|i| (i % 251) as u8).collect()
}

#[test]
fn copy_empty_source() {
    let src: Vec<u8> = Vec::new();
    let dst = copy_blocks(&src, 128, 16);
    assert_eq!(dst, src);
    assert_eq!(dst.len(), 0);
}

#[test]
fn copy_less_than_one_block() {
    let src = pattern(100);
    let dst = copy_blocks(&src, 128, 16);
    assert_eq!(dst, src);
    assert_eq!(dst.len(), 100);
}

#[test]
fn copy_exactly_one_block() {
    let src = pattern(128);
    let dst = copy_blocks(&src, 128, 16);
    assert_eq!(dst, src);
    assert_eq!(dst.len(), 128);
}

#[test]
fn copy_many_blocks_and_a_remainder() {
    let src = pattern(1000);
    let dst = copy_blocks(&src, 128, 16);
    assert_eq!(dst, src);
    assert_eq!(dst.len(), 1000);
}

#[test]
fn boundary_partial_final_block_is_truncated_back() {
    // a 5000-byte source with the real 4096-byte block size: the final write
    // transmits a full block from the reused buffer, and the truncation step
    // brings the destination back to exactly 5000 bytes
    let src = pattern(5000);
    let dst = copy_blocks(&src, 4096, BUFFER_ALIGN);
    assert_eq!(dst.len(), 5000);
    assert_eq!(dst, src);
}
