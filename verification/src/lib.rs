//! A completion-based asynchronous I/O reactor core: a bounded
//! submission/completion ring model, an arena that owns the per-operation
//! connection tags, and the per-connection state machine of a TCP echo
//! service. The kernel side of the ring (syscalls, raw descriptors) lives
//! outside this library; everything here is plain data and verified logic.

pub mod events;
pub mod io_uring;
pub mod reactor;
pub mod table;
pub mod tags;
pub mod utils;
