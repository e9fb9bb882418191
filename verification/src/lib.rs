//! Synchronisation primitives of a small cooperative kernel, together with
//! the per-process resource ledger that backs deadlock detection.
//!
//! Every primitive is a pure state machine: an operation takes the state of
//! the primitive and of the owning process, and answers with what the
//! scheduler has to do next (block the caller, wake a waiter, ...).

pub mod ledger;
pub mod conservation;
pub mod safety;
pub mod task;
pub mod rows;
pub mod id;
pub mod process;
pub mod mutex;
pub mod semaphore;
pub mod condvar;
pub mod fifo;
pub mod syscall;
