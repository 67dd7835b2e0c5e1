//! One schedulable unit of work: a thread record.

use vstd::prelude::*;
use crate::context::ThreadContext;
use crate::DEFAULT_STACK_SIZE;

verus! {

/// The scheduling state of one thread record.
#[derive(Clone, Copy, PartialEq, Eq, Structural, Debug)]
pub enum State {
    /// The slot holds no work and may be handed to `spawn`.
    Available,
    /// The slot's thread is the one executing right now.
    Running,
    /// The slot's thread is suspended and waiting to be selected.
    Ready,
}

/// One green thread: an identifier, a fixed stack buffer, a saved register
/// context and a scheduling state.
///
/// The identifier equals the record's pool slot and never changes, even when
/// the slot cycles back through `Available` and is reused. The stack buffer
/// is allocated once, at construction, and is never grown or shrunk
/// afterwards: live contexts address into it.
pub struct Thread {
    pub id: usize,
    pub stack: Vec<u8>,
    pub ctx: ThreadContext,
    pub state: State,
}

impl Thread {
    /// A fresh, available record with a zeroed stack and context.
    pub fn new(id: usize) -> (t: Thread)
        ensures
            t.id == id,
            t.state == State::Available,
            t.ctx == ThreadContext::zeroed(),
            t.stack@.len() == DEFAULT_STACK_SIZE,
            forall|i: int| 0 <= i < t.stack@.len() ==> t.stack@[i] == 0u8,
    {
        Thread {
            id,
            stack: new_stack(),
            ctx: ThreadContext::default(),
            state: State::Available,
        }
    }
}

/// Allocates one zero-filled stack buffer of the fixed size.
pub fn new_stack() -> (v: Vec<u8>)
    ensures
        v@.len() == DEFAULT_STACK_SIZE,
        forall|i: int| 0 <= i < v@.len() ==> v@[i] == 0u8,
{
    let mut v: Vec<u8> = Vec::new();
    let mut i: usize = 0;
    while i < DEFAULT_STACK_SIZE
        invariant
            i == v@.len(),
            i <= DEFAULT_STACK_SIZE,
            forall|j: int| 0 <= j < v@.len() ==> v@[j] == 0u8,
        decreases DEFAULT_STACK_SIZE - i,
    {
        v.push(0u8);
        i = i + 1;
    }
    v
}

} // verus!
