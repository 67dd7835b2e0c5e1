//! The scheduler: pool ownership, round-robin selection, spawn admission
//! and completion handling.

use vstd::prelude::*;
use vstd::bytes::spec_u64_to_le_bytes;
use crate::context::ThreadContext;
use crate::frame::{write_u64_le, FRAME_BODY_OFFSET, FRAME_TRAMPOLINE_OFFSET};
use crate::thread::{State, Thread};
use crate::{DEFAULT_STACK_SIZE, MAX_THREADS};

verus! {

/// The one order a scheduling step can issue: swap the saved context of the
/// record at `from` (the slot that was executing) with the one at `to` (the
/// slot selected to execute next).
#[derive(Clone, Copy, PartialEq, Eq, Structural, Debug)]
pub struct SwitchAction {
    pub from: usize,
    pub to: usize,
}

/// The one failure `spawn` can report: every slot already holds work.
#[derive(Clone, Copy, PartialEq, Eq, Structural, Debug)]
pub enum SpawnError {
    NoAvailableThread,
}

/// The scheduler. It owns the fixed pool of thread records and the index of
/// the record presently executing.
pub struct Runtime {
    pub threads: Vec<Thread>,
    pub current: usize,
}

impl Runtime {
    /// The position inspected `k + 1` steps after `cur` in the wrapping,
    /// strictly ascending round-robin scan.
    pub open spec fn scan_pos(len: int, cur: int, k: int) -> int {
        if cur + 1 + k < len {
            cur + 1 + k
        } else {
            cur + 1 + k - len
        }
    }

    /// The first `Ready` slot at or after scan step `k`, in scan order.
    /// The scan visits every slot other than `cur` exactly once.
    pub open spec fn find_ready_from(s: Seq<Thread>, cur: int, k: int) -> Option<int>
        decreases s.len() - k,
    {
        if k < 0 || k >= s.len() - 1 {
            None
        } else if s[Self::scan_pos(s.len() as int, cur, k)].state == State::Ready {
            Some(Self::scan_pos(s.len() as int, cur, k))
        } else {
            Self::find_ready_from(s, cur, k + 1)
        }
    }

    /// The slot the round-robin policy selects from `cur`: the first `Ready`
    /// slot strictly after `cur`, wrapping once, or `None` if no other slot
    /// is `Ready`.
    pub open spec fn next_ready(s: Seq<Thread>, cur: int) -> Option<int> {
        Self::find_ready_from(s, cur, 0)
    }

    /// Whether any slot other than `cur` is `Ready`, i.e. whether a
    /// scheduling step has work to switch to.
    pub open spec fn has_ready_other(s: Seq<Thread>, cur: int) -> bool {
        exists|i: int| 0 <= i < s.len() && i != cur && s[i].state == State::Ready
    }

    /// The first `Available` slot at or after index `k`.
    pub open spec fn first_available_from(s: Seq<Thread>, k: int) -> Option<int>
        decreases s.len() - k,
    {
        if k < 0 || k >= s.len() {
            None
        } else if s[k].state == State::Available {
            Some(k)
        } else {
            Self::first_available_from(s, k + 1)
        }
    }

    /// The slot `spawn` admits work into: the lowest `Available` index.
    pub open spec fn first_available(s: Seq<Thread>) -> Option<int> {
        Self::first_available_from(s, 0)
    }

    /// Whether the pool has room for one more `spawn`.
    pub open spec fn has_available(s: Seq<Thread>) -> bool {
        exists|i: int| 0 <= i < s.len() && s[i].state == State::Available
    }

    /// Everything of a record except its scheduling state: a scheduling step
    /// moves records between states but never touches their identity, stack
    /// or saved context.
    pub open spec fn same_except_state(a: Thread, b: Thread) -> bool {
        &&& a.id == b.id
        &&& a.ctx == b.ctx
        &&& a.stack@ == b.stack@
    }

    /// The scheduler invariant while a scheduling step is in flight: the
    /// record at `current` has either not been demoted yet (`Running`) or
    /// has just finished (`Available`), and everything else already holds.
    ///
    /// - the pool has its fixed capacity;
    /// - no record other than the one at `current` is `Running`;
    /// - the base slot 0 is `Running` exactly when it is current and `Ready`
    ///   otherwise — it never becomes `Available`;
    /// - each record keeps its slot index as its identifier;
    /// - each record keeps its fixed-size stack buffer.
    pub open spec fn wf_relaxed(self) -> bool {
        let s = self.threads@;
        let cur = self.current as int;
        &&& s.len() == MAX_THREADS as int
        &&& cur < s.len()
        &&& forall|i: int| 0 <= i < s.len() && i != cur ==> s[i].state != State::Running
        &&& s[cur].state != State::Ready
        &&& (cur == 0 ==> s[0].state == State::Running)
        &&& (cur != 0 ==> s[0].state == State::Ready)
        &&& forall|i: int| 0 <= i < s.len() ==> s[i].id == i
        &&& forall|i: int| 0 <= i < s.len() ==> s[i].stack@.len() == DEFAULT_STACK_SIZE
    }

    /// The scheduler invariant at rest: [`Runtime::wf_relaxed`], and the
    /// record at `current` is the one `Running` record.
    pub open spec fn wf(self) -> bool {
        &&& self.wf_relaxed()
        &&& self.threads@[self.current as int].state == State::Running
    }

    /// The pool at start: slot 0 is the caller itself, already `Running`;
    /// every other slot is an `Available` record with a fresh stack.
    pub fn new() -> (rt: Runtime)
        ensures
            rt.wf(),
            rt.current == 0,
            rt.threads@.len() == MAX_THREADS,
            rt.threads@[0].state == State::Running,
            forall|i: int| 1 <= i < rt.threads@.len() ==> rt.threads@[i].state == State::Available,
            forall|i: int| 0 <= i < rt.threads@.len() ==> rt.threads@[i].id == i,
            forall|i: int| 0 <= i < rt.threads@.len() ==> rt.threads@[i].ctx == ThreadContext::zeroed(),
            forall|i: int| 0 <= i < rt.threads@.len() ==> rt.threads@[i].stack@.len() == DEFAULT_STACK_SIZE,
            forall|i: int, j: int|
                0 <= i < rt.threads@.len() && 0 <= j < rt.threads@[i].stack@.len()
                    ==> rt.threads@[i].stack@[j] == 0u8,
    {
        let base_thread = Thread {
            id: 0,
            stack: crate::thread::new_stack(),
            ctx: ThreadContext::default(),
            state: State::Running,
        };
        let mut threads: Vec<Thread> = Vec::new();
        threads.push(base_thread);
        let mut i: usize = 1;
        while i < MAX_THREADS
            invariant
                1 <= i <= MAX_THREADS,
                threads@.len() == i,
                threads@[0].state == State::Running,
                forall|j: int| 1 <= j < i ==> threads@[j].state == State::Available,
                forall|j: int| 0 <= j < i ==> threads@[j].id == j,
                forall|j: int| 0 <= j < i ==> threads@[j].ctx == ThreadContext::zeroed(),
                forall|j: int| 0 <= j < i ==> threads@[j].stack@.len() == DEFAULT_STACK_SIZE,
                forall|j: int, b: int|
                    0 <= j < i && 0 <= b < threads@[j].stack@.len() ==> threads@[j].stack@[b] == 0u8,
            decreases MAX_THREADS - i,
        {
            threads.push(Thread::new(i));
            i = i + 1;
        }
        Runtime { threads, current: 0 }
    }

    /// What the scan yields: a selected slot is in bounds, `Ready`, and —
    /// the scan starting strictly after `cur` and stopping before revisiting
    /// it — never `cur` itself; an empty-handed scan has found every visited
    /// slot not `Ready`.
    proof fn lemma_find_ready_props(s: Seq<Thread>, cur: int, k0: int)
        requires
            0 <= cur < s.len(),
            0 <= k0,
        ensures
            match Self::find_ready_from(s, cur, k0) {
                Some(p) => 0 <= p < s.len() && p != cur && s[p].state == State::Ready,
                None => forall|k: int|
                    k0 <= k < s.len() - 1 ==> s[Self::scan_pos(s.len() as int, cur, k)].state
                        != State::Ready,
            },
        decreases s.len() - k0,
    {
        if k0 >= s.len() - 1 {
        } else if s[Self::scan_pos(s.len() as int, cur, k0)].state == State::Ready {
            assert(Self::scan_pos(s.len() as int, cur, k0) != cur);
        } else {
            Self::lemma_find_ready_props(s, cur, k0 + 1);
        }
    }

    /// The scan succeeds exactly when some slot other than `cur` is `Ready`:
    /// every such slot is visited at one of the `len - 1` scan steps.
    proof fn lemma_next_ready_iff(s: Seq<Thread>, cur: int)
        requires
            0 <= cur < s.len(),
        ensures
            Self::next_ready(s, cur) is Some <==> Self::has_ready_other(s, cur),
            match Self::next_ready(s, cur) {
                Some(p) => 0 <= p < s.len() && p != cur && s[p].state == State::Ready,
                None => true,
            },
    {
        let len = s.len() as int;
        Self::lemma_find_ready_props(s, cur, 0);
        if Self::next_ready(s, cur) is None && Self::has_ready_other(s, cur) {
            let i = choose|i: int| 0 <= i < len && i != cur && s[i].state == State::Ready;
            let k = if i > cur {
                i - cur - 1
            } else {
                i + len - cur - 1
            };
            assert(0 <= k < len - 1);
            assert(Self::scan_pos(len, cur, k) == i);
        }
    }

    /// The scan reads only the slots it visits, which never touch `cur`:
    /// two pools that agree outside `cur` scan alike.
    proof fn lemma_find_ready_same(s1: Seq<Thread>, s2: Seq<Thread>, cur: int, k0: int)
        requires
            s1.len() == s2.len(),
            0 <= cur < s1.len(),
            0 <= k0,
            forall|i: int| 0 <= i < s1.len() && i != cur ==> s1[i].state == s2[i].state,
        ensures
            Self::find_ready_from(s1, cur, k0) == Self::find_ready_from(s2, cur, k0),
        decreases s1.len() - k0,
    {
        let len = s1.len() as int;
        if k0 >= len - 1 {
        } else {
            assert(Self::scan_pos(len, cur, k0) != cur);
            assert(0 <= Self::scan_pos(len, cur, k0) < len);
            Self::lemma_find_ready_same(s1, s2, cur, k0 + 1);
        }
    }

    /// The executable round-robin scan: walks the pool from `current + 1`,
    /// wrapping once, and reports the first `Ready` slot it meets.
    fn next_ready_pos(&self) -> (r: Option<usize>)
        requires
            self.threads@.len() == MAX_THREADS,
            (self.current as int) < self.threads@.len(),
        ensures
            match r {
                Some(p) => Self::next_ready(self.threads@, self.current as int) == Some(p as int),
                None => Self::next_ready(self.threads@, self.current as int) is None,
            },
    {
        let len: usize = self.threads.len();
        let mut k: usize = 0;
        while k < len - 1
            invariant
                len == self.threads@.len(),
                len == MAX_THREADS,
                (self.current as int) < len,
                k <= len - 1,
                Self::find_ready_from(self.threads@, self.current as int, 0)
                    == Self::find_ready_from(self.threads@, self.current as int, k as int),
            decreases len - 1 - k,
        {
            let mut p: usize = self.current + 1 + k;
            if p >= len {
                p = p - len;
            }
            assert(p == Self::scan_pos(len as int, self.current as int, k as int));
            if self.threads[p].state == State::Ready {
                return Some(p);
            }
            k = k + 1;
        }
        None
    }

    /// What one successful scheduling step does to the pool, `pre` to
    /// `post`, issuing `a`:
    ///
    /// - `a.to` is the slot the round-robin policy selects from `a.from`,
    ///   the slot that was current — never `a.from` itself;
    /// - the selected record is promoted `Ready` to `Running` and becomes
    ///   current;
    /// - the outgoing record is demoted to `Ready` if it was still runnable,
    ///   and left `Available` if it had just finished;
    /// - no other record, and nothing but scheduling states, changes.
    pub open spec fn switch_transition(pre: Runtime, post: Runtime, a: SwitchAction) -> bool {
        let s = pre.threads@;
        let cur = pre.current as int;
        &&& a.from == pre.current
        &&& Self::next_ready(s, cur) == Some(a.to as int)
        &&& (a.to as int) < s.len()
        &&& a.to != a.from
        &&& s[a.to as int].state == State::Ready
        &&& post.current == a.to
        &&& post.threads@.len() == s.len()
        &&& post.threads@[a.to as int].state == State::Running
        &&& Self::same_except_state(s[a.to as int], post.threads@[a.to as int])
        &&& post.threads@[cur].state == (if s[cur].state == State::Available {
            State::Available
        } else {
            State::Ready
        })
        &&& Self::same_except_state(s[cur], post.threads@[cur])
        &&& forall|i: int|
            0 <= i < s.len() && i != cur && i != a.to as int ==> post.threads@[i] == s[i]
    }

    /// One scheduling step on a pool whose current record is `Running` or
    /// has just finished: select, demote, promote, and report which two
    /// contexts the caller must now swap.
    fn schedule(&mut self) -> (r: Option<SwitchAction>)
        requires
            old(self).wf_relaxed(),
        ensures
            match r {
                None => {
                    &&& !Self::has_ready_other(old(self).threads@, old(self).current as int)
                    &&& *final(self) == *old(self)
                },
                Some(a) => {
                    &&& Self::has_ready_other(old(self).threads@, old(self).current as int)
                    &&& Self::switch_transition(*old(self), *final(self), a)
                    &&& final(self).wf()
                },
            },
    {
        proof {
            Self::lemma_next_ready_iff(self.threads@, self.current as int);
        }
        match self.next_ready_pos() {
            None => None,
            Some(pos) => {
                if self.threads[self.current].state != State::Available {
                    self.threads[self.current].state = State::Ready;
                }
                self.threads[pos].state = State::Running;
                let old_pos: usize = self.current;
                self.current = pos;
                Some(SwitchAction { from: old_pos, to: pos })
            },
        }
    }

    /// One voluntary yield of the current thread — the core of the runtime.
    ///
    /// If some other slot is `Ready`, the first such slot in round-robin
    /// order is promoted to `Running`, the yielding record is demoted to
    /// `Ready`, and the returned action names the two contexts to swap; the
    /// yielding thread resumes, later, exactly after this call. If no other
    /// slot is `Ready`, nothing changes and `None` says the pool has no
    /// remaining work to switch to. The selected slot is never the yielding
    /// one.
    pub fn t_yield(&mut self) -> (r: Option<SwitchAction>)
        requires
            old(self).wf(),
        ensures
            final(self).wf(),
            r is Some <==> Self::has_ready_other(old(self).threads@, old(self).current as int),
            match r {
                None => *final(self) == *old(self),
                Some(a) => {
                    &&& Self::switch_transition(*old(self), *final(self), a)
                    &&& a.to != old(self).current
                    &&& final(self).threads@[old(self).current as int].state == State::Ready
                },
            },
    {
        self.schedule()
    }

    /// Completion of the current thread's body, invoked by the return
    /// trampoline and never directly.
    ///
    /// A finishing non-base record is demoted to `Available` — its slot may
    /// be spawned again — and control is handed away at once: the base slot
    /// is `Ready` whenever it is not current, so the step always finds a
    /// record to switch to and always issues an action. The base slot itself
    /// never finishes this way; for it the call does nothing.
    pub fn t_return(&mut self) -> (r: Option<SwitchAction>)
        requires
            old(self).wf(),
        ensures
            final(self).wf(),
            old(self).current == 0 ==> r is None && *final(self) == *old(self),
            old(self).current != 0 ==> r is Some,
            match r {
                None => true,
                Some(a) => {
                    &&& a.from == old(self).current
                    &&& Self::next_ready(old(self).threads@, old(self).current as int)
                        == Some(a.to as int)
                    &&& a.to != old(self).current
                    &&& (a.to as int) < old(self).threads@.len()
                    &&& final(self).current == a.to
                    &&& final(self).threads@.len() == old(self).threads@.len()
                    &&& final(self).threads@[a.from as int].state == State::Available
                    &&& Self::same_except_state(
                        old(self).threads@[a.from as int],
                        final(self).threads@[a.from as int],
                    )
                    &&& final(self).threads@[a.to as int].state == State::Running
                    &&& Self::same_except_state(
                        old(self).threads@[a.to as int],
                        final(self).threads@[a.to as int],
                    )
                    &&& forall|i: int|
                        0 <= i < old(self).threads@.len() && i != a.from as int && i != a.to as int
                            ==> final(self).threads@[i] == old(self).threads@[i]
                },
            },
    {
        if self.current != 0 {
            let ghost pre = self.threads@;
            let cur: usize = self.current;
            self.threads[cur].state = State::Available;
            let ghost s1 = self.threads@;
            proof {
                Self::lemma_find_ready_same(s1, pre, cur as int, 0);
                assert(Self::has_ready_other(s1, cur as int)) by {
                    assert(s1[0].state == State::Ready);
                }
            }
            let r = self.schedule();
            proof {
                if let Some(a) = r {
                    assert forall|i: int|
                        0 <= i < pre.len() && i != cur as int && i != a.to as int implies
                        self.threads@[i] == pre[i] by {
                        assert(s1[i] == pre[i]);
                        assert(self.threads@[i] == s1[i]);
                    }
                }
            }
            r
        } else {
            None
        }
    }

    /// What the search for a free slot yields: a found slot is in bounds,
    /// `Available`, and the lowest such index; an empty-handed search has
    /// found no slot `Available` at all.
    proof fn lemma_first_available_props(s: Seq<Thread>, k0: int)
        requires
            0 <= k0,
        ensures
            match Self::first_available_from(s, k0) {
                Some(k) => k0 <= k < s.len() && s[k].state == State::Available && forall|j: int|
                    k0 <= j < k ==> s[j].state != State::Available,
                None => forall|j: int| k0 <= j < s.len() ==> s[j].state != State::Available,
            },
        decreases s.len() - k0,
    {
        if k0 >= s.len() {
        } else if s[k0].state == State::Available {
        } else {
            Self::lemma_first_available_props(s, k0 + 1);
        }
    }

    /// The executable search for the lowest `Available` slot.
    fn find_available(&self) -> (r: Option<usize>)
        requires
            self.threads@.len() == MAX_THREADS,
        ensures
            match r {
                Some(k) => Self::first_available(self.threads@) == Some(k as int),
                None => Self::first_available(self.threads@) is None,
            },
    {
        let len: usize = self.threads.len();
        let mut k: usize = 0;
        while k < len
            invariant
                len == self.threads@.len(),
                k <= len,
                Self::first_available_from(self.threads@, 0) == Self::first_available_from(
                    self.threads@,
                    k as int,
                ),
            decreases len - k,
        {
            if self.threads[k].state == State::Available {
                return Some(k);
            }
            k = k + 1;
        }
        None
    }

    /// What a successful `spawn` does to the pool, `pre` to `post`, priming
    /// slot `k` to enter `f` and fall back into `guard`:
    ///
    /// - `k` is the lowest `Available` slot, never the base slot;
    /// - the record is marked `Ready` and its saved stack pointer is set to
    ///   the entry word's offset;
    /// - the entry word holds `f` and the word above it holds `guard`, both
    ///   least significant byte first;
    /// - nothing else changes: not the record's identity, not the rest of
    ///   its stack or context, and no other record.
    pub open spec fn spawn_transition(
        pre: Runtime,
        post: Runtime,
        k: int,
        f: u64,
        guard: u64,
    ) -> bool {
        let s = pre.threads@;
        &&& Self::first_available(s) == Some(k)
        &&& 0 < k < s.len()
        &&& s[k].state == State::Available
        &&& post.current == pre.current
        &&& post.threads@.len() == s.len()
        &&& forall|i: int| 0 <= i < s.len() && i != k ==> post.threads@[i] == s[i]
        &&& post.threads@[k].id == s[k].id
        &&& post.threads@[k].state == State::Ready
        &&& post.threads@[k].ctx == (ThreadContext {
            rsp: FRAME_BODY_OFFSET as u64,
            ..s[k].ctx
        })
        &&& post.threads@[k].stack@.len() == s[k].stack@.len()
        &&& post.threads@[k].stack@.subrange(
            FRAME_BODY_OFFSET as int,
            FRAME_BODY_OFFSET + 8,
        ) == spec_u64_to_le_bytes(f)
        &&& post.threads@[k].stack@.subrange(
            FRAME_TRAMPOLINE_OFFSET as int,
            FRAME_TRAMPOLINE_OFFSET + 8,
        ) == spec_u64_to_le_bytes(guard)
        &&& forall|i: int|
            0 <= i < s[k].stack@.len() && !(FRAME_BODY_OFFSET <= i < FRAME_TRAMPOLINE_OFFSET + 8)
                ==> post.threads@[k].stack@[i] == s[k].stack@[i]
    }

    /// Admits one unit of work into the pool.
    ///
    /// The lowest `Available` slot is primed — a fake call frame of the
    /// body's entry address `f` and the trampoline address `guard` near the
    /// top of its stack, the saved stack pointer aimed at the entry word —
    /// and marked `Ready`; its index is returned. The pool never grows: if
    /// every slot already holds work, and exactly then, the call fails.
    pub fn spawn(&mut self, f: u64, guard: u64) -> (r: Result<usize, SpawnError>)
        requires
            old(self).wf(),
        ensures
            final(self).wf(),
            r is Ok <==> Self::has_available(old(self).threads@),
            match r {
                Ok(k) => Self::spawn_transition(*old(self), *final(self), k as int, f, guard),
                Err(e) => e == SpawnError::NoAvailableThread && *final(self) == *old(self),
            },
    {
        proof {
            Self::lemma_first_available_props(self.threads@, 0);
        }
        match self.find_available() {
            None => Err(SpawnError::NoAvailableThread),
            Some(k) => {
                let ghost pre = self.threads@;
                proof {
                    assert(pre[k as int].state == State::Available);
                    assert(k != 0);
                    assert(Self::has_available(pre)) by {
                        assert(pre[k as int].state == State::Available);
                    }
                }
                write_u64_le(&mut self.threads[k].stack, FRAME_TRAMPOLINE_OFFSET, guard);
                let ghost s1 = self.threads@;
                write_u64_le(&mut self.threads[k].stack, FRAME_BODY_OFFSET, f);
                let ghost s2 = self.threads@;
                self.threads[k].ctx.rsp = FRAME_BODY_OFFSET as u64;
                self.threads[k].state = State::Ready;
                proof {
                    let ki = k as int;
                    assert(self.threads@[ki].stack@ == s2[ki].stack@);
                    assert(s2[ki].stack@.subrange(
                        FRAME_TRAMPOLINE_OFFSET as int,
                        FRAME_TRAMPOLINE_OFFSET + 8,
                    ) =~= s1[ki].stack@.subrange(
                        FRAME_TRAMPOLINE_OFFSET as int,
                        FRAME_TRAMPOLINE_OFFSET + 8,
                    ));
                    assert(forall|i: int|
                        0 <= i < pre[ki].stack@.len() && !(FRAME_BODY_OFFSET <= i
                            < FRAME_TRAMPOLINE_OFFSET + 8) ==> self.threads@[ki].stack@[i]
                            == pre[ki].stack@[i]);
                }
                Ok(k)
            },
        }
    }

    /// At every instant at which the scheduler invariant holds, exactly one
    /// record is `Running`: the one at `current`. The invariant holds after
    /// construction and after every scheduling operation.
    pub proof fn lemma_exactly_one_running(rt: Runtime)
        requires
            rt.wf(),
        ensures
            0 <= rt.current < rt.threads@.len(),
            rt.threads@[rt.current as int].state == State::Running,
            forall|i: int|
                0 <= i < rt.threads@.len() && rt.threads@[i].state == State::Running ==> i
                    == rt.current,
    {
    }

    /// The round-robin selection never picks the slot it scans from: the
    /// scan starts strictly after `cur` and stops before revisiting it.
    pub proof fn lemma_never_selects_current(s: Seq<Thread>, cur: int)
        requires
            0 <= cur < s.len(),
        ensures
            forall|p: int| Self::next_ready(s, cur) == Some(p) ==> p != cur,
    {
        Self::lemma_next_ready_iff(s, cur);
    }
}

} // verus!
