//! Core of a small supervisor-mode kernel for RISC-V: a physical frame
//! allocator, a round-robin scheduler, a thread pool that owns thread
//! bodies, and the per-hart dispatcher state machine that multiplexes
//! kernel threads over one hart.
//!
//! The hardware edges (the context-switch assembly, trap entry, SBI
//! calls, control/status registers) live in the platform layer outside
//! this crate; everything here is plain data and decisions, verified.

pub mod context;
pub mod fairness;
pub mod frame_allocator;
pub mod interrupt;
pub mod process;
pub mod processor;
pub mod scheduler;
pub mod thread_pool;

use vstd::prelude::*;

verus! {

/// A thread identifier: an index into the thread pool's slot vector.
pub type Tid = usize;

} // verus!
