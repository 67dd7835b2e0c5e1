use green_threads::context::ThreadContext;
use green_threads::frame::{FRAME_BODY_OFFSET, FRAME_TRAMPOLINE_OFFSET};
use green_threads::runtime::{Runtime, SpawnError};
use green_threads::thread::State;
use green_threads::MAX_THREADS;

#[test]
fn spawn_fills_slots_in_ascending_order_then_fails() {
    let mut rt = Runtime::new();
    assert_eq!(rt.spawn(0x1000, 0x2000), Ok(1));
    assert_eq!(rt.spawn(0x1000, 0x2000), Ok(2));
    assert_eq!(rt.spawn(0x1000, 0x2000), Ok(3));
    // Every non-base slot is now Ready (or Running): the pool is exhausted.
    assert_eq!(rt.spawn(0x1000, 0x2000), Err(SpawnError::NoAvailableThread));
}

#[test]
fn failed_spawn_leaves_the_pool_unchanged() {
    let mut rt = Runtime::new();
    for _ in 1..MAX_THREADS {
        rt.spawn(0x1000, 0x2000).unwrap();
    }
    let before: Vec<State> = rt.threads.iter().map(|t| t.state).collect();
    assert!(rt.spawn(0x9999, 0x2000).is_err());
    let after: Vec<State> = rt.threads.iter().map(|t| t.state).collect();
    assert_eq!(before, after);
    assert_eq!(rt.current, 0);
}

#[test]
fn spawn_primes_a_fake_call_frame() {
    let mut rt = Runtime::new();
    let body: u64 = 0x0102_0304_0506_0708;
    let guard: u64 = 0x1112_1314_1516_1718;
    let k = rt.spawn(body, guard).unwrap();
    assert_eq!(k, 1);
    let t = &rt.threads[k];
    assert_eq!(t.state, State::Ready);
    assert_eq!(t.id, 1);
    // The saved stack pointer aims at the entry word; the first switch into
    // this record pops the body's address, and the body's own return pops
    // the trampoline's address one word above it.
    assert_eq!(t.ctx.rsp, FRAME_BODY_OFFSET as u64);
    for j in 0..8 {
        assert_eq!(t.stack[FRAME_BODY_OFFSET + j], body.to_le_bytes()[j]);
        assert_eq!(t.stack[FRAME_TRAMPOLINE_OFFSET + j], guard.to_le_bytes()[j]);
    }
    // The rest of the buffer is untouched.
    assert_eq!(t.stack[FRAME_BODY_OFFSET - 1], 0);
    assert_eq!(t.stack[FRAME_TRAMPOLINE_OFFSET + 8], 0);
    assert_eq!(t.stack[0], 0);
}

#[test]
fn fresh_context_is_zeroed() {
    let ctx = ThreadContext::default();
    assert_eq!(ctx.rsp, 0);
    assert_eq!(ctx.r15, 0);
    assert_eq!(ctx.r14, 0);
    assert_eq!(ctx.r13, 0);
    assert_eq!(ctx.r12, 0);
    assert_eq!(ctx.rbx, 0);
    assert_eq!(ctx.rbp, 0);
}

#[test]
fn finished_slot_can_be_spawned_again() {
    let mut rt = Runtime::new();
    rt.spawn(0x1000, 0x2000).unwrap();
    rt.t_yield().unwrap();
    assert_eq!(rt.current, 1);
    // The body of slot 1 returns; the slot is reclaimed.
    rt.t_return().unwrap();
    assert_eq!(rt.threads[1].state, State::Available);
    // The reclaimed slot is the lowest available one, so a new spawn reuses
    // it — same slot, same id — and it reaches Running again.
    assert_eq!(rt.spawn(0x7000, 0x2000), Ok(1));
    assert_eq!(rt.threads[1].state, State::Ready);
    assert_eq!(rt.threads[1].id, 1);
    let action = rt.t_yield().unwrap();
    assert_eq!(action.to, 1);
    assert_eq!(rt.threads[1].state, State::Running);
}
