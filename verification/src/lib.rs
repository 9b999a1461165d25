//! A verified model of an asynchronous, completion-queue-based block I/O
//! bridge: aligned buffers for direct I/O, a submission context with a bounded
//! queue depth and conserved correlation tokens, a slot table that correlates
//! completion tokens back to suspended operations, the reactor loop's
//! decisions, and the block-copy driver's logic.
//!
//! The kernel context itself, the file handles and the task scheduler live
//! outside the library; everything they are told to do, and the effect of
//! doing it, is stated and proved here.

pub mod bridge;
pub mod buffer;
pub mod context;
pub mod driver;
pub mod reactor;
pub mod request;
