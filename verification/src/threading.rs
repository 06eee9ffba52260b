//! The thread scheduler: control blocks, ready and terminated queues,
//! round-robin selection, and the preemption policy.
//!
//! The kernel's context-switch assembly saves and restores register
//! frames; which thread those routines switch to, and every bookkeeping
//! step around them, is decided here. The scheduler is modelled as a
//! value: the caller holds it (in the kernel, behind an IRQ-masking
//! lock) and hands each operation the current monotonic time, since the
//! counter itself is a hardware register.

use vstd::prelude::*;

use crate::errors::KernelError;

verus! {

/// Advisory bound in microseconds on how long a cooperative thread may
/// run between yields; zero disables the policy. Violations are logged,
/// never enforced.
pub const COOPERATIVE_TIMEOUT_US: u64 = 1_000_000;

/// Stack size given to every spawned thread.
pub const DEFAULT_STACK_SIZE: usize = 64 * 1024;

/// The thread identifier reserved for the idle thread created by `init`
/// from the boot context.
pub const IDLE_TID: u64 = 0;

/// Whether the scheduler may interrupt the thread or must wait for a
/// voluntary yield.
#[derive(Clone, Copy, Debug, PartialEq, Eq, Structural)]
pub enum ThreadKind {
    /// Never preempted by the scheduler interrupt; yields only voluntarily.
    Cooperative,
    /// May be switched out at an interrupt-return boundary.
    Preemptible,
}

/// Lifecycle state of a thread.
#[derive(Clone, Copy, Debug, PartialEq, Eq, Structural)]
pub enum ThreadState {
    /// Waiting in the ready queue.
    Ready,
    /// The one thread the CPU is executing.
    Running,
    /// Reserved for future use; no operation produces it.
    Blocked,
    /// Finished; waiting to be reaped.
    Terminated,
}

/// Thread control block: per-thread bookkeeping owned by the scheduler.
#[derive(Clone, Copy, Debug, PartialEq, Eq, Structural)]
pub struct Tcb {
    /// Monotonically assigned identifier, unique for the process lifetime.
    pub tid: u64,
    /// Cooperative or preemptible.
    pub kind: ThreadKind,
    /// Lifecycle state.
    pub state: ThreadState,
    /// Identifier of the entry routine the thread starts in.
    pub entry: u64,
    /// Size of the thread's exclusively owned stack; zero for the idle
    /// thread, which keeps the boot stack.
    pub stack_size: usize,
    /// Monotonic timestamp recorded when the thread last became running.
    pub last_scheduled_us: u64,
}

/// What the scheduler-interrupt handler decides to do about the
/// interrupted thread.
#[derive(Clone, Copy, Debug, PartialEq, Eq, Structural)]
pub enum PreemptAction {
    /// Perform a full context switch now.
    Switch,
    /// Record the preemption as pending; a yield or interrupt-return
    /// path consumes it at a safe point.
    Defer,
    /// Log that a cooperative thread overran the advisory bound; the
    /// thread is not switched out.
    WarnOverrun,
    /// Leave the thread alone.
    Ignore,
}

/// The preemption policy, as the scheduler-interrupt handler applies it.
///
/// A switch is performed only when the interrupted context was thread
/// code running with interrupts enabled and no scheduler lock held;
/// anywhere else the preemption is recorded and deferred. At a safe
/// point a preemptible thread is always switched; a cooperative thread
/// never is — at most, overrunning the advisory timeout draws a
/// warning.
pub open spec fn spec_preempt_decision(
    kind: ThreadKind,
    in_thread: bool,
    irqs_enabled: bool,
    lock_held: bool,
    last_scheduled_us: u64,
    now_us: u64,
    timeout_us: u64,
) -> PreemptAction {
    if !(in_thread && irqs_enabled && !lock_held) {
        PreemptAction::Defer
    } else if kind is Preemptible {
        PreemptAction::Switch
    } else if timeout_us > 0 && now_us > last_scheduled_us + timeout_us {
        PreemptAction::WarnOverrun
    } else {
        PreemptAction::Ignore
    }
}

/// Decide what the scheduler interrupt may do to the interrupted
/// thread; pure, so the handler itself only has to act on the answer.
pub fn preempt_decision(
    kind: ThreadKind,
    in_thread: bool,
    irqs_enabled: bool,
    lock_held: bool,
    last_scheduled_us: u64,
    now_us: u64,
    timeout_us: u64,
) -> (a: PreemptAction)
    ensures
        a == spec_preempt_decision(
            kind,
            in_thread,
            irqs_enabled,
            lock_held,
            last_scheduled_us,
            now_us,
            timeout_us,
        ),
{
    if !(in_thread && irqs_enabled && !lock_held) {
        PreemptAction::Defer
    } else if matches!(kind, ThreadKind::Preemptible) {
        PreemptAction::Switch
    } else if timeout_us > 0 && now_us > last_scheduled_us && now_us - last_scheduled_us
        > timeout_us {
        PreemptAction::WarnOverrun
    } else {
        PreemptAction::Ignore
    }
}

/// A cooperative thread is never switched out by the preemption path,
/// whatever the interrupted context and however long it has run.
pub proof fn lemma_cooperative_never_preempted(
    in_thread: bool,
    irqs_enabled: bool,
    lock_held: bool,
    last_scheduled_us: u64,
    now_us: u64,
    timeout_us: u64,
)
    ensures
        !(spec_preempt_decision(
            ThreadKind::Cooperative,
            in_thread,
            irqs_enabled,
            lock_held,
            last_scheduled_us,
            now_us,
            timeout_us,
        ) is Switch),
{
}

/// No two control blocks share an identifier.
pub open spec fn tids_distinct(s: Seq<Tcb>) -> bool {
    forall|i: int, j: int|
        0 <= i < s.len() && 0 <= j < s.len() && i != j ==> #[trigger] s[i].tid != #[trigger] s[j].tid
}

/// Some control block carries this identifier.
pub open spec fn has_tid(s: Seq<Tcb>, tid: u64) -> bool {
    exists|i: int| 0 <= i < s.len() && #[trigger] s[i].tid == tid
}

/// The position of the control block with this identifier.
pub open spec fn index_of_tid(s: Seq<Tcb>, tid: u64) -> int {
    choose|i: int| 0 <= i < s.len() && #[trigger] s[i].tid == tid
}

/// The control block with this identifier.
pub open spec fn tcb_of(s: Seq<Tcb>, tid: u64) -> Tcb {
    s[index_of_tid(s, tid)]
}

/// A queue holds no identifier twice.
pub open spec fn queue_distinct(q: Seq<u64>) -> bool {
    forall|i: int, j: int|
        0 <= i < q.len() && 0 <= j < q.len() && i != j ==> #[trigger] q[i] != #[trigger] q[j]
}

/// `index_of_tid` returns a real position whenever the identifier is live.
proof fn lemma_index_of(s: Seq<Tcb>, tid: u64)
    requires
        has_tid(s, tid),
    ensures
        0 <= index_of_tid(s, tid) < s.len(),
        s[index_of_tid(s, tid)].tid == tid,
        tcb_of(s, tid).tid == tid,
{
    let i = choose|i: int| 0 <= i < s.len() && #[trigger] s[i].tid == tid;
    assert(0 <= i < s.len() && s[i].tid == tid);
}

/// With distinct identifiers the position of a block is the lookup of its
/// identifier.
proof fn lemma_index_of_unique(s: Seq<Tcb>, i: int)
    requires
        tids_distinct(s),
        0 <= i < s.len(),
    ensures
        has_tid(s, s[i].tid),
        index_of_tid(s, s[i].tid) == i,
        tcb_of(s, s[i].tid) == s[i],
{
    assert(has_tid(s, s[i].tid));
    let j = index_of_tid(s, s[i].tid);
    assert(0 <= j < s.len() && s[j].tid == s[i].tid) by {
        lemma_index_of(s, s[i].tid);
    }
    if i != j {
        assert(s[i].tid != s[j].tid);
    }
}

/// Lookup is unchanged when a block with a fresh identifier is appended.
proof fn lemma_tcb_of_push(s: Seq<Tcb>, t: Tcb, tid: u64)
    requires
        tids_distinct(s.push(t)),
        has_tid(s, tid),
    ensures
        has_tid(s.push(t), tid),
        index_of_tid(s.push(t), tid) == index_of_tid(s, tid),
        tcb_of(s.push(t), tid) == tcb_of(s, tid),
{
    lemma_index_of(s, tid);
    let i = index_of_tid(s, tid);
    assert(s.push(t)[i].tid == tid);
    assert(has_tid(s.push(t), tid));
    let j = index_of_tid(s.push(t), tid);
    assert(0 <= j < s.push(t).len() && s.push(t)[j].tid == tid) by {
        lemma_index_of(s.push(t), tid);
    }
    if i != j {
        assert(s.push(t)[i].tid != s.push(t)[j].tid);
    }
}

/// Lookup after replacing one block in place: the replaced identifier now
/// maps to the new block, every other identifier to its old block.
proof fn lemma_tcb_of_update(s: Seq<Tcb>, i: int, t: Tcb, tid: u64)
    requires
        tids_distinct(s),
        0 <= i < s.len(),
        t.tid == s[i].tid,
        has_tid(s, tid),
    ensures
        tids_distinct(s.update(i, t)),
        has_tid(s.update(i, t), tid),
        index_of_tid(s.update(i, t), tid) == index_of_tid(s, tid),
        tcb_of(s.update(i, t), tid) == if tid == t.tid {
            t
        } else {
            tcb_of(s, tid)
        },
{
    let s2 = s.update(i, t);
    assert forall|a: int, b: int|
        0 <= a < s2.len() && 0 <= b < s2.len() && a != b implies #[trigger] s2[a].tid
        != #[trigger] s2[b].tid by {
        assert(s2[a].tid == s[a].tid);
        assert(s2[b].tid == s[b].tid);
    }
    lemma_index_of(s, tid);
    let k = index_of_tid(s, tid);
    assert(s2[k].tid == s[k].tid);
    assert(has_tid(s2, tid));
    let j = index_of_tid(s2, tid);
    assert(0 <= j < s2.len() && s2[j].tid == tid) by {
        lemma_index_of(s2, tid);
    }
    if j != k {
        assert(s2[j].tid != s2[k].tid);
    }
    if tid == t.tid {
        lemma_index_of_unique(s, i);
    }
}

/// Lookup after deleting one block: the deleted identifier is gone,
/// every other identifier still maps to its old block.
proof fn lemma_tcb_of_remove(s: Seq<Tcb>, i: int, tid: u64)
    requires
        tids_distinct(s),
        0 <= i < s.len(),
    ensures
        tids_distinct(s.remove(i)),
        !has_tid(s.remove(i), s[i].tid),
        tid != s[i].tid && has_tid(s, tid) ==> has_tid(s.remove(i), tid) && tcb_of(
            s.remove(i),
            tid,
        ) == tcb_of(s, tid),
        has_tid(s.remove(i), tid) ==> has_tid(s, tid),
{
    let s2 = s.remove(i);
    assert forall|a: int, b: int|
        0 <= a < s2.len() && 0 <= b < s2.len() && a != b implies #[trigger] s2[a].tid
        != #[trigger] s2[b].tid by {
        let a0 = if a < i {
            a
        } else {
            a + 1
        };
        let b0 = if b < i {
            b
        } else {
            b + 1
        };
        assert(s2[a] == s[a0] && s2[b] == s[b0]);
    }
    assert forall|k: int| 0 <= k < s2.len() implies #[trigger] s2[k].tid != s[i].tid by {
        let k0 = if k < i {
            k
        } else {
            k + 1
        };
        assert(s2[k] == s[k0]);
    }
    if tid != s[i].tid && has_tid(s, tid) {
        lemma_index_of(s, tid);
        let j = index_of_tid(s, tid);
        let j2 = if j < i {
            j
        } else {
            j - 1
        };
        assert(s2[j2] == s[j]);
        assert(has_tid(s2, tid));
        lemma_index_of(s2, tid);
        let m = index_of_tid(s2, tid);
        if m != j2 {
            assert(s2[m].tid != s2[j2].tid);
        }
    }
    if has_tid(s2, tid) {
        lemma_index_of(s2, tid);
        let m = index_of_tid(s2, tid);
        let m0 = if m < i {
            m
        } else {
            m + 1
        };
        assert(s2[m] == s[m0]);
        assert(has_tid(s, tid));
    }
}

/// The scheduler: a slab of live control blocks, the FIFO ready queue
/// and the reap list (both holding identifiers, not pointers), the
/// identifier of the thread the CPU is executing, and the next fresh
/// identifier.
pub struct Scheduler {
    tcbs: Vec<Tcb>,
    ready: Vec<u64>,
    terminated: Vec<u64>,
    current: u64,
    next_tid: u64,
    preempt_pending: bool,
}

impl Scheduler {
    /// The live control blocks, in slab order.
    pub closed spec fn tcbs_seq(self) -> Seq<Tcb> {
        self.tcbs@
    }

    /// The ready queue, head first.
    pub closed spec fn ready_q(self) -> Seq<u64> {
        self.ready@
    }

    /// The identifiers awaiting reap.
    pub closed spec fn terminated_q(self) -> Seq<u64> {
        self.terminated@
    }

    /// The identifier of the thread the CPU is executing.
    pub closed spec fn current_tid(self) -> u64 {
        self.current
    }

    /// The identifier the next spawn will assign.
    pub closed spec fn fresh_tid(self) -> u64 {
        self.next_tid
    }

    /// Whether a deferred preemption is waiting to be consumed.
    pub closed spec fn pending_preemption(self) -> bool {
        self.preempt_pending
    }

    /// The control block of the executing thread.
    pub open spec fn current_tcb(self) -> Tcb {
        tcb_of(self.tcbs_seq(), self.current_tid())
    }

    /// Well-formedness: the invariants every scheduler operation
    /// preserves.
    ///
    /// The executing thread is the only one whose state can be
    /// `Running`; it is `Terminated` instead only in the window between
    /// `mark_current_terminated` and the yield that retires it. Every
    /// other live thread sits in exactly one of the two queues,
    /// matching its state, and `Blocked` never occurs. The slab
    /// therefore splits into the executing thread, the ready queue and
    /// the reap list, which is the thread-count identity.
    pub open spec fn wf(self) -> bool {
        let t = self.tcbs_seq();
        let rq = self.ready_q();
        let tq = self.terminated_q();
        &&& tids_distinct(t)
        &&& queue_distinct(rq)
        &&& queue_distinct(tq)
        &&& has_tid(t, self.current_tid())
        &&& self.current_tcb().state is Running || self.current_tcb().state is Terminated
        &&& forall|i: int|
            0 <= i < t.len() ==> #[trigger] t[i].tid < self.fresh_tid()
        &&& forall|i: int|
            0 <= i < t.len() && t[i].tid != self.current_tid() ==> (#[trigger] t[i].state is Ready
                || t[i].state is Terminated)
        &&& forall|i: int|
            0 <= i < t.len() && #[trigger] t[i].state is Running ==> t[i].tid
                == self.current_tid()
        &&& forall|i: int|
            0 <= i < t.len() && t[i].tid != self.current_tid() && #[trigger] t[i].state is Ready
                ==> rq.contains(t[i].tid)
        &&& forall|i: int|
            0 <= i < t.len() && t[i].tid != self.current_tid()
                && #[trigger] t[i].state is Terminated ==> tq.contains(t[i].tid)
        &&& forall|k: int|
            0 <= k < rq.len() ==> has_tid(t, #[trigger] rq[k]) && tcb_of(t, rq[k]).state is Ready
                && rq[k] != self.current_tid()
        &&& forall|k: int|
            0 <= k < tq.len() ==> has_tid(t, #[trigger] tq[k]) && tcb_of(
                t,
                tq[k],
            ).state is Terminated && tq[k] != self.current_tid()
        &&& t.len() == rq.len() + tq.len() + 1
    }

    /// Create the scheduler at boot: the caller's own context becomes
    /// the idle thread, already running, with no freshly allocated
    /// stack. Must be called exactly once, with interrupts masked.
    pub fn init() -> (s: Scheduler)
        ensures
            s.wf(),
            s.tcbs_seq() =~= seq![
                (Tcb {
                    tid: IDLE_TID,
                    kind: ThreadKind::Preemptible,
                    state: ThreadState::Running,
                    entry: 0,
                    stack_size: 0,
                    last_scheduled_us: 0,
                }),
            ],
            s.current_tid() == IDLE_TID,
            s.ready_q().len() == 0,
            s.terminated_q().len() == 0,
            s.fresh_tid() == 1,
            !s.pending_preemption(),
    {
        let idle = Tcb {
            tid: IDLE_TID,
            kind: ThreadKind::Preemptible,
            state: ThreadState::Running,
            entry: 0,
            stack_size: 0,
            last_scheduled_us: 0,
        };
        let mut tcbs: Vec<Tcb> = Vec::new();
        tcbs.push(idle);
        let s = Scheduler {
            tcbs,
            ready: Vec::new(),
            terminated: Vec::new(),
            current: IDLE_TID,
            next_tid: 1,
            preempt_pending: false,
        };
        proof {
            assert(s.tcbs_seq().len() == 1);
            assert(s.tcbs_seq()[0].tid == IDLE_TID);
            assert(has_tid(s.tcbs_seq(), IDLE_TID));
            assert(index_of_tid(s.tcbs_seq(), IDLE_TID) == 0);
        }
        s
    }

    /// Identifier of the thread the CPU is executing.
    pub fn current_thread(&self) -> (tid: u64)
        ensures
            tid == self.current_tid(),
    {
        self.current
    }

    /// Number of live threads (running, ready, or awaiting reap).
    pub fn thread_count(&self) -> (n: usize)
        ensures
            n == self.tcbs_seq().len(),
    {
        self.tcbs.len()
    }

    /// (ready, running, terminated) counts; the running count is always
    /// one, the executing thread.
    pub fn thread_stats(&self) -> (r: (usize, usize, usize))
        requires
            self.wf(),
        ensures
            r.0 == self.ready_q().len(),
            r.1 == 1,
            r.2 == self.terminated_q().len(),
            r.0 + r.1 + r.2 == self.tcbs_seq().len(),
    {
        (self.ready.len(), 1, self.terminated.len())
    }

    /// Thread-count identity: the live threads are exactly the
    /// executing one, the ready queue, and the reap list.
    pub proof fn lemma_thread_count_partition(self)
        requires
            self.wf(),
        ensures
            self.tcbs_seq().len() == self.ready_q().len() + self.terminated_q().len() + 1,
    {
    }

    /// Exactly one control block is `Running` whenever the executing
    /// thread has not marked itself terminated.
    pub proof fn lemma_exactly_one_running(self)
        requires
            self.wf(),
            self.current_tcb().state is Running,
        ensures
            has_tid(self.tcbs_seq(), self.current_tid()),
            tcb_of(self.tcbs_seq(), self.current_tid()).state is Running,
            forall|i: int|
                0 <= i < self.tcbs_seq().len() && #[trigger] self.tcbs_seq()[i].state is Running
                    ==> i == index_of_tid(self.tcbs_seq(), self.current_tid()),
    {
        let t = self.tcbs_seq();
        assert forall|i: int|
            0 <= i < t.len() && #[trigger] t[i].state is Running implies i == index_of_tid(
            t,
            self.current_tid(),
        ) by {
            assert(t[i].tid == self.current_tid());
            let j = index_of_tid(t, self.current_tid());
            assert(0 <= j < t.len() && t[j].tid == self.current_tid());
        }
    }

    /// Find the slab index of a live thread by its identifier.
    fn find_index(&self, tid: u64) -> (r: usize)
        requires
            tids_distinct(self.tcbs_seq()),
            has_tid(self.tcbs_seq(), tid),
        ensures
            r < self.tcbs_seq().len(),
            self.tcbs_seq()[r as int].tid == tid,
            r as int == index_of_tid(self.tcbs_seq(), tid),
    {
        let n = self.tcbs.len();
        let mut i: usize = 0;
        while i < n
            invariant
                n == self.tcbs_seq().len(),
                tids_distinct(self.tcbs_seq()),
                has_tid(self.tcbs_seq(), tid),
                0 <= i <= n,
                forall|j: int| 0 <= j < i ==> #[trigger] self.tcbs_seq()[j].tid != tid,
            decreases n - i,
        {
            if self.tcbs[i].tid == tid {
                proof {
                    let k = index_of_tid(self.tcbs_seq(), tid);
                    assert(0 <= k < self.tcbs_seq().len() && self.tcbs_seq()[k].tid == tid);
                }
                return i;
            }
            i += 1;
        }
        proof {
            let k = index_of_tid(self.tcbs_seq(), tid);
            assert(0 <= k < self.tcbs_seq().len() && self.tcbs_seq()[k].tid == tid);
            assert(false);
        }
        vstd::pervasive::unreached()
    }

    /// Every identifier the ready queue holds is below the fresh one.
    proof fn lemma_queued_tids_bounded(self)
        requires
            self.wf(),
        ensures
            forall|k: int|
                0 <= k < self.ready_q().len() ==> #[trigger] self.ready_q()[k] < self.fresh_tid(),
            forall|k: int|
                0 <= k < self.terminated_q().len() ==> #[trigger] self.terminated_q()[k]
                    < self.fresh_tid(),
            self.current_tid() < self.fresh_tid(),
    {
        let t = self.tcbs_seq();
        assert forall|k: int| 0 <= k < self.ready_q().len() implies #[trigger] self.ready_q()[k]
            < self.fresh_tid() by {
            lemma_index_of(t, self.ready_q()[k]);
            let i = index_of_tid(t, self.ready_q()[k]);
            assert(t[i].tid < self.fresh_tid());
        }
        assert forall|k: int|
            0 <= k < self.terminated_q().len() implies #[trigger] self.terminated_q()[k]
            < self.fresh_tid() by {
            lemma_index_of(t, self.terminated_q()[k]);
            let i = index_of_tid(t, self.terminated_q()[k]);
            assert(t[i].tid < self.fresh_tid());
        }
        lemma_index_of(t, self.current_tid());
        let i = index_of_tid(t, self.current_tid());
        assert(t[i].tid < self.fresh_tid());
    }

    /// Shared body of `spawn` and `spawn_cooperative`: take the fresh
    /// identifier, append the control block, and enqueue it at the tail
    /// of the ready queue. Fails only when identifiers are exhausted,
    /// the model's stand-in for allocator exhaustion.
    fn spawn_with_kind(&mut self, entry: u64, kind: ThreadKind) -> (r: Result<u64, KernelError>)
        requires
            old(self).wf(),
        ensures
            final(self).wf(),
            old(self).fresh_tid() == u64::MAX ==> r == Err::<u64, KernelError>(
                KernelError::OutOfMemory,
            ) && *final(self) == *old(self),
            old(self).fresh_tid() < u64::MAX ==> {
                &&& r == Ok::<u64, KernelError>(old(self).fresh_tid())
                &&& final(self).tcbs_seq() == old(self).tcbs_seq().push(
                    (Tcb {
                        tid: old(self).fresh_tid(),
                        kind: kind,
                        state: ThreadState::Ready,
                        entry: entry,
                        stack_size: DEFAULT_STACK_SIZE,
                        last_scheduled_us: 0,
                    }),
                )
                &&& final(self).ready_q() == old(self).ready_q().push(old(self).fresh_tid())
                &&& final(self).terminated_q() == old(self).terminated_q()
                &&& final(self).current_tid() == old(self).current_tid()
                &&& final(self).current_tcb() == old(self).current_tcb()
                &&& final(self).fresh_tid() == old(self).fresh_tid() + 1
                &&& final(self).pending_preemption() == old(self).pending_preemption()
            },
    {
        if self.next_tid == u64::MAX {
            return Err(KernelError::OutOfMemory);
        }
        let tid = self.next_tid;
        self.next_tid = tid + 1;
        let t = Tcb {
            tid: tid,
            kind: kind,
            state: ThreadState::Ready,
            entry: entry,
            stack_size: DEFAULT_STACK_SIZE,
            last_scheduled_us: 0,
        };
        self.tcbs.push(t);
        self.ready.push(tid);
        proof {
            let t0 = old(self).tcbs_seq();
            let t1 = self.tcbs_seq();
            let rq0 = old(self).ready_q();
            let rq1 = self.ready_q();
            let tq = self.terminated_q();
            assert(t1 =~= t0.push(t));
            assert(rq1 =~= rq0.push(tid));
            old(self).lemma_queued_tids_bounded();
            assert forall|a: int, b: int|
                0 <= a < t1.len() && 0 <= b < t1.len() && a != b implies #[trigger] t1[a].tid
                != #[trigger] t1[b].tid by {
                if a < t0.len() && b < t0.len() {
                    assert(t0[a].tid != t0[b].tid);
                } else if a < t0.len() {
                    assert(t0[a].tid < tid);
                } else {
                    assert(t0[b].tid < tid);
                }
            }
            lemma_tcb_of_push(t0, t, old(self).current);
            assert forall|k: int| 0 <= k < rq1.len() implies has_tid(t1, #[trigger] rq1[k])
                && tcb_of(t1, rq1[k]).state is Ready && rq1[k] != self.current by {
                if k < rq0.len() {
                    lemma_tcb_of_push(t0, t, rq0[k]);
                } else {
                    assert(rq1[k] == tid);
                    lemma_index_of_unique(t1, t0.len() as int);
                }
            }
            assert forall|k: int| 0 <= k < tq.len() implies has_tid(t1, #[trigger] tq[k])
                && tcb_of(t1, tq[k]).state is Terminated && tq[k] != self.current by {
                lemma_tcb_of_push(t0, t, tq[k]);
            }
            assert forall|i: int|
                0 <= i < t1.len() && t1[i].tid != self.current
                    && #[trigger] t1[i].state is Ready implies rq1.contains(t1[i].tid) by {
                if i < t0.len() {
                    assert(rq0.contains(t0[i].tid));
                    let k = choose|k: int| 0 <= k < rq0.len() && rq0[k] == t0[i].tid;
                    assert(rq1[k] == t0[i].tid);
                } else {
                    assert(rq1[rq0.len() as int] == tid);
                }
            }
            assert forall|i: int|
                0 <= i < t1.len() && t1[i].tid != self.current
                    && #[trigger] t1[i].state is Terminated implies tq.contains(t1[i].tid) by {
                assert(tq.contains(t0[i].tid));
            }
        }
        Ok(tid)
    }

    /// Spawn a preemptible thread; returns the new thread's identifier.
    pub fn spawn(&mut self, entry: u64) -> (r: Result<u64, KernelError>)
        requires
            old(self).wf(),
        ensures
            final(self).wf(),
            old(self).fresh_tid() == u64::MAX ==> r == Err::<u64, KernelError>(
                KernelError::OutOfMemory,
            ) && *final(self) == *old(self),
            old(self).fresh_tid() < u64::MAX ==> {
                &&& r == Ok::<u64, KernelError>(old(self).fresh_tid())
                &&& final(self).tcbs_seq() == old(self).tcbs_seq().push(
                    (Tcb {
                        tid: old(self).fresh_tid(),
                        kind: ThreadKind::Preemptible,
                        state: ThreadState::Ready,
                        entry: entry,
                        stack_size: DEFAULT_STACK_SIZE,
                        last_scheduled_us: 0,
                    }),
                )
                &&& final(self).ready_q() == old(self).ready_q().push(old(self).fresh_tid())
                &&& final(self).terminated_q() == old(self).terminated_q()
                &&& final(self).current_tid() == old(self).current_tid()
                &&& final(self).current_tcb() == old(self).current_tcb()
                &&& final(self).fresh_tid() == old(self).fresh_tid() + 1
                &&& final(self).pending_preemption() == old(self).pending_preemption()
            },
    {
        self.spawn_with_kind(entry, ThreadKind::Preemptible)
    }

    /// Spawn a cooperative thread: it will never be preempted by the
    /// scheduler interrupt and must yield voluntarily.
    pub fn spawn_cooperative(&mut self, entry: u64) -> (r: Result<u64, KernelError>)
        requires
            old(self).wf(),
        ensures
            final(self).wf(),
            old(self).fresh_tid() == u64::MAX ==> r == Err::<u64, KernelError>(
                KernelError::OutOfMemory,
            ) && *final(self) == *old(self),
            old(self).fresh_tid() < u64::MAX ==> {
                &&& r == Ok::<u64, KernelError>(old(self).fresh_tid())
                &&& final(self).tcbs_seq() == old(self).tcbs_seq().push(
                    (Tcb {
                        tid: old(self).fresh_tid(),
                        kind: ThreadKind::Cooperative,
                        state: ThreadState::Ready,
                        entry: entry,
                        stack_size: DEFAULT_STACK_SIZE,
                        last_scheduled_us: 0,
                    }),
                )
                &&& final(self).ready_q() == old(self).ready_q().push(old(self).fresh_tid())
                &&& final(self).terminated_q() == old(self).terminated_q()
                &&& final(self).current_tid() == old(self).current_tid()
                &&& final(self).current_tcb() == old(self).current_tcb()
                &&& final(self).fresh_tid() == old(self).fresh_tid() + 1
                &&& final(self).pending_preemption() == old(self).pending_preemption()
            },
    {
        self.spawn_with_kind(entry, ThreadKind::Cooperative)
    }

    /// The relation between the scheduler before and after one
    /// reschedule, voluntary or preemptive: the head of the ready queue
    /// becomes running, stamped with the time of the switch; the thread
    /// that was executing goes to the tail of the ready queue, or to
    /// the reap list if it had marked itself terminated; with an empty
    /// ready queue nothing changes but the pending-preemption flag,
    /// which is consumed either way.
    pub open spec fn yield_transition(pre: Scheduler, post: Scheduler, now_us: u64, switched: bool) -> bool {
        &&& post.tcbs_seq().len() == pre.tcbs_seq().len()
        &&& post.fresh_tid() == pre.fresh_tid()
        &&& !post.pending_preemption()
        &&& (pre.ready_q().len() == 0 ==> {
            &&& !switched
            &&& post.tcbs_seq() == pre.tcbs_seq()
            &&& post.ready_q() == pre.ready_q()
            &&& post.terminated_q() == pre.terminated_q()
            &&& post.current_tid() == pre.current_tid()
        })
        &&& (pre.ready_q().len() > 0 ==> {
            let next = pre.ready_q()[0];
            &&& switched
            &&& post.current_tid() == next
            &&& post.current_tcb() == (Tcb {
                state: ThreadState::Running,
                last_scheduled_us: now_us,
                ..tcb_of(pre.tcbs_seq(), next)
            })
            &&& (pre.current_tcb().state is Running ==> {
                &&& post.ready_q() == pre.ready_q().drop_first().push(pre.current_tid())
                &&& post.terminated_q() == pre.terminated_q()
                &&& tcb_of(post.tcbs_seq(), pre.current_tid()) == (Tcb {
                    state: ThreadState::Ready,
                    ..pre.current_tcb()
                })
            })
            &&& (pre.current_tcb().state is Terminated ==> {
                &&& post.ready_q() == pre.ready_q().drop_first()
                &&& post.terminated_q() == pre.terminated_q().push(pre.current_tid())
                &&& tcb_of(post.tcbs_seq(), pre.current_tid()) == pre.current_tcb()
            })
            &&& forall|tid: u64|
                #![auto]
                has_tid(pre.tcbs_seq(), tid) && tid != next && tid != pre.current_tid()
                    ==> tcb_of(post.tcbs_seq(), tid) == tcb_of(pre.tcbs_seq(), tid) && has_tid(
                    post.tcbs_seq(),
                    tid,
                )
        })
    }

    /// Voluntary reschedule, also the point where a deferred preemption
    /// is consumed.
    ///
    /// In the kernel the switch of register frames happens between the
    /// two control-block updates; here the caller performs it after
    /// being told which thread won.
    pub fn yield_now(&mut self, now_us: u64) -> (switched: bool)
        requires
            old(self).wf(),
        ensures
            final(self).wf(),
            Self::yield_transition(*old(self), *final(self), now_us, switched),
    {
        self.preempt_pending = false;
        if self.ready.len() == 0 {
            return false;
        }
        let next_tid = self.ready.remove(0);
        let cur_tid = self.current;
        proof {
            assert(old(self).ready_q()[0] == next_tid);
            assert(has_tid(self.tcbs_seq(), next_tid));
            assert(next_tid != cur_tid);
            assert(self.ready_q() =~= old(self).ready_q().drop_first());
        }
        let cur_idx = self.find_index(cur_tid);
        let cur = self.tcbs[cur_idx];
        let ghost t0 = old(self).tcbs_seq();
        let ghost rq0 = old(self).ready_q();
        let ghost tq0 = old(self).terminated_q();
        proof {
            lemma_index_of_unique(t0, cur_idx as int);
        }
        let was_running = matches!(cur.state, ThreadState::Running);
        if was_running {
            let mut c = cur;
            c.state = ThreadState::Ready;
            self.tcbs.set(cur_idx, c);
            self.ready.push(cur_tid);
            proof {
                lemma_tcb_of_update(t0, cur_idx as int, c, cur_tid);
            }
        } else {
            self.terminated.push(cur_tid);
        }
        let ghost t_mid = self.tcbs_seq();
        proof {
            if was_running {
                lemma_tcb_of_update(t0, cur_idx as int, t_mid[cur_idx as int], next_tid);
            }
            assert(has_tid(t_mid, next_tid));
            assert(tids_distinct(t_mid));
        }
        let next_idx = self.find_index(next_tid);
        let mut n = self.tcbs[next_idx];
        proof {
            lemma_index_of_unique(t_mid, next_idx as int);
            lemma_index_of(t0, next_tid);
            if was_running {
                assert(next_idx as int != cur_idx as int);
                assert(t_mid[next_idx as int] == t0[next_idx as int]);
                lemma_index_of_unique(t0, next_idx as int);
            }
            assert(t_mid[next_idx as int] == tcb_of(t0, next_tid));
        }
        n.state = ThreadState::Running;
        n.last_scheduled_us = now_us;
        self.tcbs.set(next_idx, n);
        self.current = next_tid;
        proof {
            self.lemma_yield_shape(*old(self), t_mid, cur_idx as int, next_idx as int, now_us);
        }
        true
    }

    /// The bookkeeping facts that re-establish well-formedness at the
    /// end of a switch; shared by the proof of `yield_now`.
    proof fn lemma_yield_shape(
        self,
        pre: Scheduler,
        t_mid: Seq<Tcb>,
        cur_idx: int,
        next_idx: int,
        now_us: u64,
    )
        requires
            pre.wf(),
            pre.ready_q().len() > 0,
            0 <= cur_idx < pre.tcbs_seq().len(),
            pre.tcbs_seq()[cur_idx].tid == pre.current_tid(),
            0 <= next_idx < t_mid.len(),
            t_mid[next_idx].tid == pre.ready_q()[0],
            t_mid == if pre.current_tcb().state is Running {
                pre.tcbs_seq().update(
                    cur_idx,
                    (Tcb { state: ThreadState::Ready, ..pre.tcbs_seq()[cur_idx] }),
                )
            } else {
                pre.tcbs_seq()
            },
            self.tcbs_seq() == t_mid.update(
                next_idx,
                (Tcb {
                    state: ThreadState::Running,
                    last_scheduled_us: now_us,
                    ..t_mid[next_idx]
                }),
            ),
            self.current_tid() == pre.ready_q()[0],
            self.fresh_tid() == pre.fresh_tid(),
            self.ready_q() == if pre.current_tcb().state is Running {
                pre.ready_q().drop_first().push(pre.current_tid())
            } else {
                pre.ready_q().drop_first()
            },
            self.terminated_q() == if pre.current_tcb().state is Running {
                pre.terminated_q()
            } else {
                pre.terminated_q().push(pre.current_tid())
            },
        ensures
            self.wf(),
            self.current_tcb() == (Tcb {
                state: ThreadState::Running,
                last_scheduled_us: now_us,
                ..tcb_of(pre.tcbs_seq(), pre.ready_q()[0])
            }),
            pre.current_tcb().state is Running ==> tcb_of(self.tcbs_seq(), pre.current_tid())
                == (Tcb { state: ThreadState::Ready, ..pre.current_tcb() }),
            pre.current_tcb().state is Terminated ==> tcb_of(self.tcbs_seq(), pre.current_tid())
                == pre.current_tcb(),
            forall|tid: u64|
                #![auto]
                has_tid(pre.tcbs_seq(), tid) && tid != pre.ready_q()[0] && tid
                    != pre.current_tid() ==> tcb_of(self.tcbs_seq(), tid) == tcb_of(
                    pre.tcbs_seq(),
                    tid,
                ) && has_tid(self.tcbs_seq(), tid),
    {
        let t0 = pre.tcbs_seq();
        let t1 = self.tcbs_seq();
        let rq0 = pre.ready_q();
        let tq0 = pre.terminated_q();
        let rq1 = self.ready_q();
        let tq1 = self.terminated_q();
        let cur = pre.current_tid();
        let next = rq0[0];
        let running = pre.current_tcb().state is Running;
        assert(next != cur);
        lemma_index_of_unique(t0, cur_idx);
        assert(tcb_of(t0, cur) == t0[cur_idx]);
        // the middle slab still has distinct identifiers and the same tids
        if running {
            lemma_tcb_of_update(t0, cur_idx, t_mid[cur_idx], cur);
        }
        assert(tids_distinct(t_mid));
        assert(forall|i: int| 0 <= i < t_mid.len() ==> #[trigger] t_mid[i].tid == t0[i].tid);
        lemma_tcb_of_update(t_mid, next_idx, t1[next_idx], next);
        assert(tids_distinct(t1));
        assert(forall|i: int| 0 <= i < t1.len() ==> #[trigger] t1[i].tid == t0[i].tid);
        lemma_index_of_unique(t_mid, next_idx);
        lemma_index_of_unique(t0, next_idx);
        assert(t_mid[next_idx] == t0[next_idx]);
        assert(t0[next_idx] == tcb_of(t0, next));
        lemma_index_of_unique(t1, next_idx);
        assert(self.current_tcb() == t1[next_idx]);
        // lookups for every identifier other than the two that moved
        assert forall|tid: u64|
            #![auto]
            has_tid(t0, tid) && tid != next && tid != cur implies tcb_of(t1, tid) == tcb_of(
            t0,
            tid,
        ) && has_tid(t1, tid) by {
            if running {
                lemma_tcb_of_update(t0, cur_idx, t_mid[cur_idx], tid);
            }
            lemma_tcb_of_update(t_mid, next_idx, t1[next_idx], tid);
        }
        // the old current thread's block after the switch
        if running {
            lemma_tcb_of_update(t_mid, next_idx, t1[next_idx], cur);
            assert(tcb_of(t1, cur) == tcb_of(t_mid, cur));
        } else {
            lemma_tcb_of_update(t_mid, next_idx, t1[next_idx], cur);
        }
        // well-formedness of the new scheduler, conjunct by conjunct
        assert(has_tid(t1, next));
        assert(queue_distinct(rq1)) by {
            assert(forall|k: int|
                0 <= k < rq0.drop_first().len() ==> #[trigger] rq0.drop_first()[k] == rq0[k + 1]);
        }
        assert(queue_distinct(tq1));
        assert forall|i: int|
            0 <= i < t1.len() && t1[i].tid != next implies (#[trigger] t1[i].state is Ready
            || t1[i].state is Terminated) by {
            if i == next_idx {
            } else if i == cur_idx {
                if running {
                    assert(t1[i] == t_mid[cur_idx]);
                } else {
                    assert(t1[i] == t0[cur_idx]);
                }
            } else {
                assert(t1[i] == t0[i]);
                assert(t0[i].tid != cur) by {
                    lemma_index_of_unique(t0, i);
                }
            }
        }
        assert forall|i: int| 0 <= i < t1.len() && #[trigger] t1[i].state is Running implies t1[i].tid
            == next by {
            if i != next_idx {
                if i == cur_idx && running {
                } else if i == cur_idx {
                    assert(t1[i] == t0[cur_idx]);
                } else {
                    assert(t1[i] == t0[i]);
                }
            }
        }
        // membership of ready blocks in the new ready queue
        assert forall|i: int|
            0 <= i < t1.len() && t1[i].tid != next && #[trigger] t1[i].state is Ready implies rq1
            .contains(t1[i].tid) by {
            if i == cur_idx && running {
                assert(rq1[rq1.len() - 1] == cur);
            } else {
                assert(t1[i] == t0[i]);
                assert(t0[i].tid != cur) by {
                    lemma_index_of_unique(t0, i);
                }
                assert(rq0.contains(t0[i].tid));
                let k = choose|k: int| 0 <= k < rq0.len() && rq0[k] == t0[i].tid;
                assert(k != 0) by {
                    lemma_index_of_unique(t0, i);
                }
                assert(rq0.drop_first()[k - 1] == t0[i].tid);
                if running {
                    assert(rq1[k - 1] == t0[i].tid);
                } else {
                    assert(rq1[k - 1] == t0[i].tid);
                }
            }
        }
        // membership of terminated blocks in the new reap list
        assert forall|i: int|
            0 <= i < t1.len() && t1[i].tid != next && #[trigger] t1[i].state is Terminated implies
            tq1.contains(t1[i].tid) by {
            if i == cur_idx && !running {
                assert(t1[i] == t0[cur_idx]);
                assert(tq1[tq1.len() - 1] == cur);
            } else if i == cur_idx {
                assert(t1[i] == t_mid[cur_idx]);
            } else {
                assert(t1[i] == t0[i]);
                assert(t0[i].tid != cur) by {
                    lemma_index_of_unique(t0, i);
                }
                assert(tq0.contains(t0[i].tid));
                let k = choose|k: int| 0 <= k < tq0.len() && tq0[k] == t0[i].tid;
                assert(tq1[k] == t0[i].tid);
            }
        }
        // every queued identifier still names a block of matching state
        assert forall|k: int| 0 <= k < rq1.len() implies has_tid(t1, #[trigger] rq1[k]) && tcb_of(
            t1,
            rq1[k],
        ).state is Ready && rq1[k] != next by {
            if running && k == rq1.len() - 1 {
                assert(rq1[k] == cur);
                assert(tcb_of(t1, cur) == tcb_of(t_mid, cur));
                assert(tcb_of(t_mid, cur) == t_mid[cur_idx]);
            } else {
                assert(rq1[k] == rq0.drop_first()[k]);
                assert(rq0.drop_first()[k] == rq0[k + 1]);
                let x = rq0[k + 1];
                assert(has_tid(t0, x) && tcb_of(t0, x).state is Ready && x != cur);
                assert(x != next);
                if running {
                    lemma_tcb_of_update(t0, cur_idx, t_mid[cur_idx], x);
                }
                lemma_tcb_of_update(t_mid, next_idx, t1[next_idx], x);
            }
        }
        assert forall|k: int| 0 <= k < tq1.len() implies has_tid(t1, #[trigger] tq1[k]) && tcb_of(
            t1,
            tq1[k],
        ).state is Terminated && tq1[k] != next by {
            if !running && k == tq1.len() - 1 {
                assert(tq1[k] == cur);
            } else {
                let x = tq0[k];
                assert(tq1[k] == x);
                assert(has_tid(t0, x) && tcb_of(t0, x).state is Terminated && x != cur);
                assert(x != next) by {
                    lemma_index_of(t0, x);
                    lemma_index_of_unique(t0, next_idx);
                }
                if running {
                    lemma_tcb_of_update(t0, cur_idx, t_mid[cur_idx], x);
                }
                lemma_tcb_of_update(t_mid, next_idx, t1[next_idx], x);
            }
        }
    }

    /// The scheduler-interrupt handler: raised by the timer interrupt
    /// as a software-generated interrupt, it applies the preemption
    /// policy to the interrupted thread.
    ///
    /// `in_thread`, `irqs_enabled` and `lock_held` describe the
    /// interrupted context, which only the exception-entry assembly
    /// knows. A cooperative thread is never switched out here.
    pub fn on_scheduler_sgi(
        &mut self,
        in_thread: bool,
        irqs_enabled: bool,
        lock_held: bool,
        now_us: u64,
    ) -> (a: PreemptAction)
        requires
            old(self).wf(),
        ensures
            final(self).wf(),
            a == spec_preempt_decision(
                old(self).current_tcb().kind,
                in_thread,
                irqs_enabled,
                lock_held,
                old(self).current_tcb().last_scheduled_us,
                now_us,
                COOPERATIVE_TIMEOUT_US,
            ),
            a is Switch ==> Self::yield_transition(
                *old(self),
                *final(self),
                now_us,
                old(self).ready_q().len() > 0,
            ),
            a is Defer ==> {
                &&& final(self).tcbs_seq() == old(self).tcbs_seq()
                &&& final(self).ready_q() == old(self).ready_q()
                &&& final(self).terminated_q() == old(self).terminated_q()
                &&& final(self).current_tid() == old(self).current_tid()
                &&& final(self).fresh_tid() == old(self).fresh_tid()
                &&& final(self).pending_preemption()
            },
            a is WarnOverrun || a is Ignore ==> *final(self) == *old(self),
            old(self).current_tcb().kind is Cooperative ==> final(self).current_tid() == old(
                self,
            ).current_tid() && final(self).current_tcb() == old(self).current_tcb(),
    {
        let cur_idx = self.find_index(self.current);
        proof {
            lemma_index_of_unique(self.tcbs_seq(), cur_idx as int);
        }
        let kind = self.tcbs[cur_idx].kind;
        let last = self.tcbs[cur_idx].last_scheduled_us;
        let a = preempt_decision(
            kind,
            in_thread,
            irqs_enabled,
            lock_held,
            last,
            now_us,
            COOPERATIVE_TIMEOUT_US,
        );
        match a {
            PreemptAction::Switch => {
                self.yield_now(now_us);
            },
            PreemptAction::Defer => {
                self.preempt_pending = true;
            },
            PreemptAction::WarnOverrun => {},
            PreemptAction::Ignore => {},
        }
        a
    }

    /// The safe point on the path back from an interrupt into thread
    /// code: a pending preemption is consumed by switching immediately,
    /// but only away from a preemptible thread. Returning into a
    /// cooperative thread leaves everything untouched; its pending flag
    /// waits for the thread's own yield.
    pub fn on_irq_return(&mut self, now_us: u64) -> (switched: bool)
        requires
            old(self).wf(),
        ensures
            final(self).wf(),
            old(self).pending_preemption() && old(self).current_tcb().kind is Preemptible
                ==> Self::yield_transition(
                *old(self),
                *final(self),
                now_us,
                old(self).ready_q().len() > 0 && switched,
            ) && (switched <==> old(self).ready_q().len() > 0),
            !(old(self).pending_preemption() && old(self).current_tcb().kind is Preemptible) ==> {
                &&& *final(self) == *old(self)
                &&& !switched
            },
    {
        if !self.preempt_pending {
            return false;
        }
        let cur_idx = self.find_index(self.current);
        proof {
            lemma_index_of_unique(self.tcbs_seq(), cur_idx as int);
        }
        if matches!(self.tcbs[cur_idx].kind, ThreadKind::Preemptible) {
            self.yield_now(now_us)
        } else {
            false
        }
    }

    /// Mark the executing thread terminated. It keeps the CPU until its
    /// next `yield_now`, which moves it to the reap list; it will never
    /// be selected to run again.
    pub fn mark_current_terminated(&mut self)
        requires
            old(self).wf(),
        ensures
            final(self).wf(),
            final(self).tcbs_seq() == old(self).tcbs_seq().update(
                index_of_tid(old(self).tcbs_seq(), old(self).current_tid()),
                (Tcb { state: ThreadState::Terminated, ..old(self).current_tcb() }),
            ),
            final(self).current_tcb() == (Tcb {
                state: ThreadState::Terminated,
                ..old(self).current_tcb()
            }),
            final(self).ready_q() == old(self).ready_q(),
            final(self).terminated_q() == old(self).terminated_q(),
            final(self).current_tid() == old(self).current_tid(),
            final(self).fresh_tid() == old(self).fresh_tid(),
            final(self).pending_preemption() == old(self).pending_preemption(),
            forall|tid: u64|
                #![auto]
                has_tid(old(self).tcbs_seq(), tid) && tid != old(self).current_tid() ==> tcb_of(
                    final(self).tcbs_seq(),
                    tid,
                ) == tcb_of(old(self).tcbs_seq(), tid),
    {
        let cur_tid = self.current;
        let cur_idx = self.find_index(cur_tid);
        let mut c = self.tcbs[cur_idx];
        c.state = ThreadState::Terminated;
        self.tcbs.set(cur_idx, c);
        proof {
            let t0 = old(self).tcbs_seq();
            let t1 = self.tcbs_seq();
            lemma_index_of_unique(t0, cur_idx as int);
            lemma_tcb_of_update(t0, cur_idx as int, c, cur_tid);
            assert forall|tid: u64|
                #![auto]
                has_tid(t0, tid) && tid != cur_tid implies tcb_of(t1, tid) == tcb_of(
                t0,
                tid,
            ) by {
                lemma_tcb_of_update(t0, cur_idx as int, c, tid);
            }
            assert forall|i: int|
                0 <= i < t1.len() && t1[i].tid != self.current
                    && #[trigger] t1[i].state is Ready implies self.ready_q().contains(
                t1[i].tid,
            ) by {
                assert(t1[i] == t0[i]);
            }
            assert forall|i: int|
                0 <= i < t1.len() && t1[i].tid != self.current
                    && #[trigger] t1[i].state is Terminated implies self.terminated_q().contains(
                t1[i].tid,
            ) by {
                if i != cur_idx as int {
                    assert(t1[i] == t0[i]);
                }
            }
            assert forall|k: int| 0 <= k < self.ready_q().len() implies has_tid(
                t1,
                #[trigger] self.ready_q()[k],
            ) && tcb_of(t1, self.ready_q()[k]).state is Ready && self.ready_q()[k]
                != self.current by {
                lemma_tcb_of_update(t0, cur_idx as int, c, self.ready_q()[k]);
            }
            assert forall|k: int| 0 <= k < self.terminated_q().len() implies has_tid(
                t1,
                #[trigger] self.terminated_q()[k],
            ) && tcb_of(t1, self.terminated_q()[k]).state is Terminated && self.terminated_q()[k]
                != self.current by {
                lemma_tcb_of_update(t0, cur_idx as int, c, self.terminated_q()[k]);
            }
        }
    }

    /// Reap every thread on the terminated list: free its control block
    /// (and, in the kernel, its stack) and return how many were reaped.
    ///
    /// The caller must be the running thread, so it is never on the
    /// list and never reaps itself. Afterwards the list is empty and
    /// the thread count has dropped by exactly the returned number.
    pub fn cleanup_terminated(&mut self) -> (n: usize)
        requires
            old(self).wf(),
            old(self).current_tcb().state is Running,
        ensures
            final(self).wf(),
            n == old(self).terminated_q().len(),
            final(self).terminated_q().len() == 0,
            final(self).tcbs_seq().len() == old(self).tcbs_seq().len() - n,
            final(self).ready_q() == old(self).ready_q(),
            final(self).current_tid() == old(self).current_tid(),
            final(self).current_tcb() == old(self).current_tcb(),
            final(self).fresh_tid() == old(self).fresh_tid(),
            final(self).pending_preemption() == old(self).pending_preemption(),
            forall|tid: u64|
                #![auto]
                has_tid(old(self).tcbs_seq(), tid) && !old(self).terminated_q().contains(tid)
                    ==> has_tid(final(self).tcbs_seq(), tid) && tcb_of(
                    final(self).tcbs_seq(),
                    tid,
                ) == tcb_of(old(self).tcbs_seq(), tid),
            forall|tid: u64| #![auto]
                old(self).terminated_q().contains(tid) ==> !has_tid(final(self).tcbs_seq(), tid),
    {
        let ghost t0 = old(self).tcbs_seq();
        let ghost tq0 = old(self).terminated_q();
        let n = self.terminated.len();
        let mut k: usize = 0;
        while k < n
            invariant
                old(self).wf(),
                old(self).current_tcb().state is Running,
                n == tq0.len(),
                0 <= k <= n,
                t0 == old(self).tcbs_seq(),
                tq0 == old(self).terminated_q(),
                self.terminated_q() == tq0,
                self.ready_q() == old(self).ready_q(),
                self.current_tid() == old(self).current_tid(),
                self.fresh_tid() == old(self).fresh_tid(),
                self.pending_preemption() == old(self).pending_preemption(),
                tids_distinct(self.tcbs_seq()),
                self.tcbs_seq().len() == t0.len() - k,
                forall|tid: u64|
                    #![auto]
                    has_tid(t0, tid) && !tq0.take(k as int).contains(tid) ==> has_tid(
                        self.tcbs_seq(),
                        tid,
                    ) && tcb_of(self.tcbs_seq(), tid) == tcb_of(t0, tid),
                forall|tid: u64| #![auto]
                    has_tid(self.tcbs_seq(), tid) ==> has_tid(t0, tid),
                forall|tid: u64| #![auto]
                    tq0.take(k as int).contains(tid) ==> !has_tid(self.tcbs_seq(), tid),
            decreases n - k,
        {
            let tid = self.terminated[k];
            proof {
                assert(tq0[k as int] == tid);
                assert(has_tid(t0, tid));
                assert(!tq0.take(k as int).contains(tid)) by {
                    if tq0.take(k as int).contains(tid) {
                        let j = choose|j: int|
                            0 <= j < tq0.take(k as int).len() && tq0.take(k as int)[j] == tid;
                        assert(tq0[j] == tid);
                    }
                }
                assert(has_tid(self.tcbs_seq(), tid));
            }
            let idx = self.find_index(tid);
            let ghost t_pre = self.tcbs_seq();
            self.tcbs.remove(idx);
            proof {
                lemma_tcb_of_remove(t_pre, idx as int, tid);
                assert(tq0.take(k as int + 1) =~= tq0.take(k as int).push(tid));
                assert forall|x: u64|
                    #![auto]
                    has_tid(t0, x) && !tq0.take(k as int + 1).contains(x) implies has_tid(
                    self.tcbs_seq(),
                    x,
                ) && tcb_of(self.tcbs_seq(), x) == tcb_of(t0, x) by {
                    assert(tq0.take(k as int + 1)[k as int] == tid);
                    assert(tq0.take(k as int + 1).contains(tid));
                    assert(x != tid);
                    assert(!tq0.take(k as int).contains(x)) by {
                        if tq0.take(k as int).contains(x) {
                            let j = choose|j: int|
                                0 <= j < tq0.take(k as int).len() && tq0.take(k as int)[j] == x;
                            assert(tq0.take(k as int + 1)[j] == x);
                        }
                    }
                    lemma_tcb_of_remove(t_pre, idx as int, x);
                }
                assert forall|x: u64| #![auto]
                    has_tid(self.tcbs_seq(), x) implies has_tid(t0, x) by {
                    lemma_tcb_of_remove(t_pre, idx as int, x);
                }
                assert forall|x: u64|
                    #![auto]
                    tq0.take(k as int + 1).contains(x) implies !has_tid(self.tcbs_seq(), x) by {
                    if x == tid {
                        assert(t_pre[idx as int].tid == tid);
                    } else {
                        assert(tq0.take(k as int).contains(x));
                        if has_tid(self.tcbs_seq(), x) {
                            lemma_tcb_of_remove(t_pre, idx as int, x);
                        }
                    }
                }
            }
            k += 1;
        }
        self.terminated.clear();
        proof {
            assert(tq0.take(n as int) =~= tq0);
            let t1 = self.tcbs_seq();
            let cur = old(self).current_tid();
            assert(!tq0.contains(cur));
            assert(has_tid(t1, cur) && tcb_of(t1, cur) == tcb_of(t0, cur));
            assert forall|i: int| 0 <= i < t1.len() implies #[trigger] t1[i].tid
                < self.fresh_tid() by {
                lemma_index_of_unique(t1, i);
                assert(has_tid(t0, t1[i].tid));
                lemma_index_of(t0, t1[i].tid);
            }
            assert forall|i: int|
                0 <= i < t1.len() && t1[i].tid != self.current_tid() implies (
            #[trigger] t1[i].state is Ready || t1[i].state is Terminated) by {
                lemma_index_of_unique(t1, i);
                assert(has_tid(t0, t1[i].tid));
                assert(!tq0.contains(t1[i].tid));
                assert(tcb_of(t1, t1[i].tid) == tcb_of(t0, t1[i].tid));
                lemma_index_of(t0, t1[i].tid);
                lemma_index_of_unique(t0, index_of_tid(t0, t1[i].tid));
            }
            assert forall|i: int|
                0 <= i < t1.len() && #[trigger] t1[i].state is Running implies t1[i].tid
                == self.current_tid() by {
                lemma_index_of_unique(t1, i);
                assert(!tq0.contains(t1[i].tid));
                assert(tcb_of(t1, t1[i].tid) == tcb_of(t0, t1[i].tid));
                lemma_index_of(t0, t1[i].tid);
                lemma_index_of_unique(t0, index_of_tid(t0, t1[i].tid));
            }
            assert forall|i: int|
                0 <= i < t1.len() && t1[i].tid != self.current_tid()
                    && #[trigger] t1[i].state is Ready implies self.ready_q().contains(
                t1[i].tid,
            ) by {
                lemma_index_of_unique(t1, i);
                assert(!tq0.contains(t1[i].tid));
                assert(tcb_of(t1, t1[i].tid) == tcb_of(t0, t1[i].tid));
                lemma_index_of(t0, t1[i].tid);
                lemma_index_of_unique(t0, index_of_tid(t0, t1[i].tid));
            }
            assert forall|i: int|
                0 <= i < t1.len() && t1[i].tid != self.current_tid()
                    && #[trigger] t1[i].state is Terminated implies false by {
                lemma_index_of_unique(t1, i);
                assert(!tq0.contains(t1[i].tid));
                assert(tcb_of(t1, t1[i].tid) == tcb_of(t0, t1[i].tid));
                lemma_index_of(t0, t1[i].tid);
                lemma_index_of_unique(t0, index_of_tid(t0, t1[i].tid));
                assert(tq0.contains(t1[i].tid));
            }
            assert forall|j: int| 0 <= j < self.ready_q().len() implies has_tid(
                t1,
                #[trigger] self.ready_q()[j],
            ) && tcb_of(t1, self.ready_q()[j]).state is Ready && self.ready_q()[j]
                != self.current_tid() by {
                let x = self.ready_q()[j];
                assert(has_tid(t0, x) && tcb_of(t0, x).state is Ready);
                assert(!tq0.contains(x)) by {
                    if tq0.contains(x) {
                        let m = choose|m: int| 0 <= m < tq0.len() && tq0[m] == x;
                        assert(tcb_of(t0, tq0[m]).state is Terminated);
                    }
                }
            }
        }
        n
    }
}

} // verus!
