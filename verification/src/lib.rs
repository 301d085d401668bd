//! Wait-free single-writer/single-reader synchronization primitives for
//! moving data between exactly two threads: a bounded SPSC ring-buffer
//! queue and a triple-buffered latest-value exchange, together with the
//! slot and guard machinery underneath them.
//!
//! Coordination between the two threads never locks or blocks: every
//! operation is one pass over thread-own state with at most one atomic
//! read-modify-write. Payloads move through crossbeam's `AtomicCell`, so
//! for payload types the platform can hold in a single machine atomic the
//! whole operation is wait-free; for larger payloads the cell itself falls
//! back to an internal sequence lock, and the wait-freedom of an operation
//! is then only as strong as that fallback.

mod atomic_cell;
mod payload;
pub mod inital_write_guard;
pub mod spsc;
pub mod spsc_model;
pub mod triple_buffer;
pub mod triple_buffer_model;
