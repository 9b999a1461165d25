//! The value shapes that cross the kernel boundary: one descriptor per
//! submitted operation, one event per observed completion.
//!
//! Buffer addresses and correlation tokens travel as plain integers; the
//! kernel treats both as opaque and echoes the token back verbatim in the
//! completion event.

use vstd::prelude::*;

verus! {

/// Describes one pending operation: file descriptor, direction, buffer
/// address, length, file offset, and an opaque correlation token.
#[derive(Clone, Copy, PartialEq, Eq, Structural, Debug)]
pub struct AioRequest {
    pub fd: i32,
    pub write: bool,
    pub buf: u64,
    pub length: u64,
    pub offset: i64,
    pub data: u64,
}

impl AioRequest {
    /// A read of `length` bytes at `offset` into the buffer at `buf`,
    /// correlated by the token `data`.
    pub fn new_read(fd: i32, buf: u64, length: u64, offset: i64, data: u64) -> (r: AioRequest)
        ensures
            r == (AioRequest { fd, write: false, buf, length, offset, data }),
    {
        let write = false;
        AioRequest { fd, write, buf, length, offset, data }
    }

    /// A write of `length` bytes at `offset` from the buffer at `buf`,
    /// correlated by the token `data`.
    pub fn new_write(fd: i32, buf: u64, length: u64, offset: i64, data: u64) -> (r: AioRequest)
        ensures
            r == (AioRequest { fd, write: true, buf, length, offset, data }),
    {
        let write = true;
        AioRequest { fd, write, buf, length, offset, data }
    }
}

/// One observed completion: the operation's result code (bytes transferred,
/// or a negative error indicator) and the echoed correlation token.
#[derive(Clone, Copy, PartialEq, Eq, Structural, Debug)]
pub struct AioEvent {
    pub ret: i64,
    pub data: u64,
}

impl AioEvent {
    /// Package a result code and its echoed token.
    pub fn new(ret: i64, data: u64) -> (r: AioEvent)
        ensures
            r == (AioEvent { ret, data }),
    {
        AioEvent { ret, data }
    }
}

} // verus!
