use aio_bridge::buffer::AlignedBuffer;

#[test]
fn aligned_address_for_every_power_of_two() {
    let mut align: usize = 1;
    while align <= 65536 {
        let buf = AlignedBuffer::new(100, align);
        assert_eq!(buf.address() % align, 0);
        assert_eq!(buf.alignment(), align);
        assert_eq!(buf.len(), 100);
        align *= 2;
    }
}

#[test]
fn buffer_starts_zeroed() {
    let buf = AlignedBuffer::new(16, 8);
    for i in 0..16 {
        assert_eq!(buf.read_byte(i), 0);
    }
}

#[test]
fn buffer_read_back_what_was_written() {
    let mut buf = AlignedBuffer::new(8, 4);
    for i in 0..8 {
        buf.write_byte(i, (i as u8) * 3);
    }
    for i in 0..8 {
        assert_eq!(buf.read_byte(i), (i as u8) * 3);
    }
    // untouched positions keep their value
    buf.write_byte(2, 99);
    assert_eq!(buf.read_byte(2), 99);
    assert_eq!(buf.read_byte(1), 3);
    assert_eq!(buf.read_byte(3), 9);
}

#[test]
fn storage_block_alignment() {
    // the alignment direct I/O actually demands
    let buf = AlignedBuffer::new(1 << 20, 4096);
    assert_eq!(buf.address() % 4096, 0);
    assert_eq!(buf.len(), 1 << 20);
}
