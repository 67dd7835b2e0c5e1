//! The saved register set of one suspended thread.

use vstd::prelude::*;

verus! {

/// A snapshot of the callee-saved registers and the stack pointer of one
/// suspended thread.
///
/// The scheduler itself touches only `rsp`: `spawn` primes it with the
/// offset, within the record's own stack buffer, of the word a switch will
/// pop first. The remaining fields exist so that a record carries one
/// complete register set; the machine-level switch that fills and drains
/// them lives outside this crate, which also keeps its own, address-valued
/// copy of each context.
#[derive(Clone, Copy, PartialEq, Eq, Structural, Debug)]
pub struct ThreadContext {
    /// Stack pointer, held here as a byte offset into the owning record's
    /// stack buffer.
    pub rsp: u64,
    pub r15: u64,
    pub r14: u64,
    pub r13: u64,
    pub r12: u64,
    pub rbx: u64,
    pub rbp: u64,
}

impl ThreadContext {
    /// The all-zero register set every record starts from.
    pub open spec fn zeroed() -> ThreadContext {
        ThreadContext { rsp: 0, r15: 0, r14: 0, r13: 0, r12: 0, rbx: 0, rbp: 0 }
    }
}

impl Default for ThreadContext {
    fn default() -> (r: Self)
        ensures
            r == ThreadContext::zeroed(),
    {
        ThreadContext { rsp: 0, r15: 0, r14: 0, r13: 0, r12: 0, rbx: 0, rbp: 0 }
    }
}

} // verus!
