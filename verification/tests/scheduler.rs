use green_threads::runtime::{Runtime, SwitchAction};
use green_threads::thread::State;
use green_threads::{DEFAULT_STACK_SIZE, MAX_THREADS};

fn running_count(rt: &Runtime) -> usize {
    rt.threads.iter().filter(|t| t.state == State::Running).count()
}

#[test]
fn new_pool_starts_with_base_thread_running() {
    let rt = Runtime::new();
    assert_eq!(rt.threads.len(), MAX_THREADS);
    assert_eq!(rt.current, 0);
    assert_eq!(rt.threads[0].state, State::Running);
    for i in 1..MAX_THREADS {
        assert_eq!(rt.threads[i].state, State::Available);
    }
    for i in 0..MAX_THREADS {
        assert_eq!(rt.threads[i].id, i);
        assert_eq!(rt.threads[i].stack.len(), DEFAULT_STACK_SIZE);
        assert_eq!(rt.threads[i].ctx.rsp, 0);
    }
    assert_eq!(running_count(&rt), 1);
}

#[test]
fn round_robin_selects_lowest_ready_slot_first() {
    let mut rt = Runtime::new();
    rt.spawn(0x1000, 0x2000).unwrap();
    rt.spawn(0x3000, 0x2000).unwrap();
    // Slots 1 and 2 are Ready, slot 0 is Running: the first switch from
    // slot 0 must land on slot 1, not slot 2.
    let action = rt.t_yield().expect("two slots are ready");
    assert_eq!(action, SwitchAction { from: 0, to: 1 });
    assert_eq!(rt.current, 1);
    assert_eq!(rt.threads[1].state, State::Running);
    assert_eq!(rt.threads[0].state, State::Ready);
    assert_eq!(rt.threads[2].state, State::Ready);
    assert_eq!(running_count(&rt), 1);
}

#[test]
fn yield_with_no_ready_work_reports_none_and_changes_nothing() {
    let mut rt = Runtime::new();
    assert!(rt.t_yield().is_none());
    assert_eq!(rt.current, 0);
    assert_eq!(rt.threads[0].state, State::Running);
    for i in 1..MAX_THREADS {
        assert_eq!(rt.threads[i].state, State::Available);
    }
}

#[test]
fn yield_never_selects_the_current_slot() {
    let mut rt = Runtime::new();
    rt.spawn(0x1000, 0x2000).unwrap();
    rt.spawn(0x3000, 0x2000).unwrap();
    rt.spawn(0x5000, 0x2000).unwrap();
    for _ in 0..32 {
        let before = rt.current;
        match rt.t_yield() {
            Some(action) => {
                assert_eq!(action.from, before);
                assert_ne!(action.to, before);
                assert_eq!(rt.current, action.to);
            }
            None => panic!("three slots stay ready forever"),
        }
        assert_eq!(running_count(&rt), 1);
    }
}

#[test]
fn base_slot_completion_is_a_no_op() {
    let mut rt = Runtime::new();
    rt.spawn(0x1000, 0x2000).unwrap();
    // The base slot never finishes through the trampoline path.
    assert!(rt.t_return().is_none());
    assert_eq!(rt.current, 0);
    assert_eq!(rt.threads[0].state, State::Running);
    assert_eq!(rt.threads[1].state, State::Ready);
}

#[test]
fn finishing_slot_hands_control_to_the_base_slot() {
    let mut rt = Runtime::new();
    rt.spawn(0x1000, 0x2000).unwrap();
    let action = rt.t_yield().expect("slot 1 is ready");
    assert_eq!(action, SwitchAction { from: 0, to: 1 });
    // Slot 1 finishes: slots 2 and 3 are empty, so the wrap-around scan
    // finds the base slot.
    let action = rt.t_return().expect("the base slot is always ready here");
    assert_eq!(action, SwitchAction { from: 1, to: 0 });
    assert_eq!(rt.threads[1].state, State::Available);
    assert_eq!(rt.threads[0].state, State::Running);
    assert_eq!(rt.current, 0);
    assert_eq!(running_count(&rt), 1);
}
