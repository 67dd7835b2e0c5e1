//! A cooperative, single-core green-thread scheduler.
//!
//! The crate owns the logical half of a user-space thread runtime: a fixed
//! pool of thread records, the round-robin selection policy, spawn admission
//! with stack-frame priming, and completion handling. The machine half — the
//! register-level context switch, the process-wide runtime pointer, and
//! process termination — is target-specific and cannot be expressed here;
//! instead, every scheduling step returns a [`runtime::SwitchAction`] that
//! tells the surrounding program which two saved contexts to swap.

use vstd::prelude::*;

pub mod context;
pub mod frame;
pub mod thread;
pub mod runtime;

verus! {

/// Bytes of stack pre-allocated for every thread record.
pub const DEFAULT_STACK_SIZE: usize = 1024 * 1024 * 2;

/// Fixed capacity of the thread pool, the base thread counted in.
pub const MAX_THREADS: usize = 4;

} // verus!
