//! Priming a fresh stack: the fake call frame `spawn` writes.
//!
//! A record that has never run is made resumable by the same switch that
//! resumes suspended ones. Near the top of its stack buffer, `spawn` lays
//! down two machine words: the entry address of the thread body, and above
//! it the address of the return trampoline. A switch that loads the primed
//! stack pointer "returns" into the body; when the body itself returns, the
//! processor pops the next word up and lands in the trampoline, which hands
//! the slot back to the scheduler instead of running off the stack.

use vstd::prelude::*;
use vstd::bytes::{spec_u64_to_le_bytes, u64_to_le_bytes};
use crate::DEFAULT_STACK_SIZE;

verus! {

/// Offset of the thread body's entry word: the word the first switch into
/// the record pops. It sits on a 16-byte boundary, as the calling convention
/// demands of a freshly entered function's stack pointer.
pub const FRAME_BODY_OFFSET: usize = DEFAULT_STACK_SIZE - 32;

/// Offset of the return-trampoline word, one word above the entry word: the
/// address the body's own `return` pops.
pub const FRAME_TRAMPOLINE_OFFSET: usize = DEFAULT_STACK_SIZE - 24;

/// The frame layout obeys the constraints it was derived from: the two
/// words fit inside the buffer, the trampoline word sits one word above the
/// entry word, and the entry word's offset keeps the 16-byte boundary the
/// calling convention demands of a freshly entered function — all relative
/// to the buffer's base, whose own alignment is the embedder's concern.
pub proof fn lemma_frame_layout()
    ensures
        FRAME_TRAMPOLINE_OFFSET == FRAME_BODY_OFFSET + 8,
        FRAME_TRAMPOLINE_OFFSET + 8 <= DEFAULT_STACK_SIZE,
        FRAME_BODY_OFFSET % 16 == 0,
{
}

/// Writes `v` into `stack` at `off`, least significant byte first, leaving
/// every other byte and the buffer's length unchanged.
pub fn write_u64_le(stack: &mut Vec<u8>, off: usize, v: u64)
    requires
        off + 8 <= old(stack)@.len(),
    ensures
        final(stack)@.len() == old(stack)@.len(),
        final(stack)@.subrange(off as int, off + 8) == spec_u64_to_le_bytes(v),
        forall|i: int|
            0 <= i < old(stack)@.len() && !(off <= i < off + 8) ==> final(stack)@[i] == old(
                stack,
            )@[i],
{
    let bytes = u64_to_le_bytes(v);
    let n: usize = stack.len();
    assert(off + 8 <= n);
    stack[off] = bytes[0];
    stack[off + 1] = bytes[1];
    stack[off + 2] = bytes[2];
    stack[off + 3] = bytes[3];
    stack[off + 4] = bytes[4];
    stack[off + 5] = bytes[5];
    stack[off + 6] = bytes[6];
    stack[off + 7] = bytes[7];
    proof {
        assert(stack@.subrange(off as int, off + 8) =~= bytes@);
    }
}

} // verus!
