//! The transfer driver's logic: copy a source to a destination one block at a
//! time through a single reused aligned buffer.
//!
//! The driver reads at increasing offsets; a zero or negative read result
//! ends the loop; every write transmits the full block size, even when the
//! final read returned fewer bytes, so the stale tail of the reused buffer is
//! written past the source's end; a final truncation of the destination to
//! the source's length makes the copy exact. The file descriptors, the kernel
//! submissions and the awaits live outside this library; the rules they
//! follow, and the end-to-end effect of following them, are verified here.

use vstd::prelude::*;
use crate::buffer::{is_power_of_two, AlignedBuffer};

verus! {

/// The block size the driver transfers per operation.
pub const BLOCK_SIZE: usize = 1048576;

/// The buffer alignment direct I/O demands: the storage block size.
pub const BUFFER_ALIGN: usize = 4096;

/// What a read of up to `bs` bytes at `offset` returns on a file of
/// `file_len` bytes: a full block strictly inside the file, the remainder at
/// the tail, nothing at or past the end.
pub fn read_size(file_len: u64, offset: u64, bs: u64) -> (r: u64)
    ensures
        r == if offset >= file_len {
            0int
        } else if file_len - offset < bs {
            file_len - offset
        } else {
            bs as int
        },
{
    if offset >= file_len {
        0
    } else {
        let rem = file_len - offset;
        if rem < bs {
            rem
        } else {
            bs
        }
    }
}

/// The driver's stop rule: a zero or negative read result ends the transfer.
pub fn transfer_done(read_result: i64) -> (r: bool)
    ensures
        r == (read_result <= 0),
{
    read_result <= 0
}

/// The file offset of the block after the one at `offset`.
pub fn next_offset(offset: i64, bs: u64) -> (r: i64)
    requires
        0 <= offset,
        offset + bs <= i64::MAX,
    ensures
        r == offset + bs,
{
    offset + (bs as i64)
}

/// The length to set on the destination once the loop is done: the source's
/// length exactly when the two files differ in size (the final full-block
/// write may have run past the source's end), nothing otherwise.
pub fn final_length(src_len: u64, dst_len: u64) -> (r: Option<u64>)
    ensures
        r == if src_len == dst_len {
            None::<u64>
        } else {
            Some(src_len)
        },
{
    if src_len == dst_len {
        None
    } else {
        Some(src_len)
    }
}

/// Copy `src` to a fresh destination exactly as the transfer driver does:
/// read one block at a time into a single reused buffer aligned to `align`,
/// write the full block size back at the same offset — stale tail included
/// when the final read came back short — and set the destination's length to
/// the source's at the end.
///
/// The destination comes out byte-identical to the source, and so exactly as
/// long, for every source length: empty, shorter than one block, exactly one
/// block, or many blocks and a remainder.
pub fn copy_blocks(src: &Vec<u8>, bs: usize, align: usize) -> (dst: Vec<u8>)
    requires
        0 < bs,
        0 < align,
        is_power_of_two(align as nat),
        bs + align <= usize::MAX,
        src@.len() + bs <= usize::MAX,
    ensures
        dst@ == src@,
{
    let mut buf = AlignedBuffer::new(bs, align);
    let mut dst: Vec<u8> = Vec::new();
    let src_len = src.len();
    let mut offset: usize = 0;
    while offset < src_len
        invariant
            src_len == src@.len(),
            src@.len() + bs <= usize::MAX,
            0 < bs,
            buf.wf(),
            buf.spec_size() == bs,
            buf@.len() == bs,
            dst@.len() == offset,
            dst@.subrange(0, vstd::math::min(offset as int, src@.len() as int)) == src@.subrange(
                0,
                vstd::math::min(offset as int, src@.len() as int),
            ),
        decreases src_len + bs - offset,
    {
        // what the kernel's read reports: the bytes that landed at the front
        // of the reused buffer
        let readed = read_size(src_len as u64, offset as u64, bs as u64) as usize;
        let mut k: usize = 0;
        while k < readed
            invariant
                k <= readed,
                readed <= bs,
                offset + readed <= src@.len(),
                src_len == src@.len(),
                buf.wf(),
                buf.spec_size() == bs,
                buf@.len() == bs,
                forall|t: int| 0 <= t < k ==> buf@[t] == src@[offset + t],
            decreases readed - k,
        {
            buf.write_byte(k, src[offset + k]);
            k = k + 1;
        }
        // the write transmits the whole block, stale tail included
        let ghost dst_pre = dst@;
        let mut k2: usize = 0;
        while k2 < bs
            invariant
                k2 <= bs,
                buf.wf(),
                buf.spec_size() == bs,
                buf@.len() == bs,
                dst@ == dst_pre + buf@.subrange(0, k2 as int),
            decreases bs - k2,
        {
            let b = buf.read_byte(k2);
            dst.push(b);
            proof {
                assert(buf@.subrange(0, k2 + 1) =~= buf@.subrange(0, k2 as int).push(
                    buf@[k2 as int],
                ));
            }
            k2 = k2 + 1;
        }
        proof {
            let no = offset + bs;
            let sl = src@.len() as int;
            let m = vstd::math::min(no as int, sl);
            assert(buf@.subrange(0, bs as int) =~= buf@);
            assert(dst@ == dst_pre + buf@);
            assert(vstd::math::min(offset as int, sl) == offset as int);
            assert forall|t: int| 0 <= t < m implies dst@[t] == src@[t] by {
                if t < offset {
                    assert(dst_pre.subrange(0, offset as int)[t] == src@.subrange(
                        0,
                        offset as int,
                    )[t]);
                    assert(dst@[t] == dst_pre[t]);
                } else {
                    assert(t - offset < readed);
                    assert(dst@[t] == buf@[t - offset]);
                    assert(buf@[t - offset] == src@[offset + (t - offset)]);
                }
            }
            assert(dst@.subrange(0, m) =~= src@.subrange(0, m));
        }
        offset = offset + bs;
    }
    // set right file size: the last write may have overshot the source's end
    match final_length(src_len as u64, dst.len() as u64) {
        Some(n) => {
            let want = n as usize;
            dst.truncate(want);
        },
        None => {},
    }
    proof {
        assert(src@.subrange(0, src@.len() as int) =~= src@);
        assert(dst@ =~= src@);
    }
    dst
}

} // verus!
