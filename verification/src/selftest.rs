//! Boot-time system tests.
//!
//! The kernel runs these after the scheduler comes up and halts if any
//! fails. Here each check is verified to succeed, so `run_all` is
//! proven to return `true`; running them still exercises the compiled
//! code on real values, as the kernel does at boot.

use vstd::prelude::*;

use crate::threading;
use crate::threading::Scheduler;

verus! {

/// Size of the large-allocation check, one mebibyte.
pub const LARGE_ALLOC_BYTES: usize = 1048576;

/// Vector allocation: push ten values, replace the head, and read it
/// back.
pub fn test_allocator_vec() -> (ok: bool)
    ensures
        ok,
{
    let mut v: Vec<u32> = Vec::new();
    let mut i: u32 = 0;
    while i < 10
        invariant
            v@.len() == i,
            i <= 10,
        decreases 10 - i,
    {
        v.push(i);
        i += 1;
    }
    let len_ok = v.len() == 10;
    v.remove(0);
    v.insert(0, 99);
    let first_ok = v[0] == 99;
    len_ok && first_ok
}

/// Box allocation: a boxed value reads back unchanged.
pub fn test_allocator_box() -> (ok: bool)
    ensures
        ok,
{
    let boxed: Box<u64> = Box::new(42);
    *boxed == 42
}

/// Large allocation: fill one mebibyte, write both ends, read them
/// back.
pub fn test_allocator_large() -> (ok: bool)
    ensures
        ok,
{
    let mut v: Vec<u8> = Vec::with_capacity(LARGE_ALLOC_BYTES);
    let mut i: usize = 0;
    while i < LARGE_ALLOC_BYTES
        invariant
            v@.len() == i,
            i <= LARGE_ALLOC_BYTES,
        decreases LARGE_ALLOC_BYTES - i,
    {
        v.push(0);
        i += 1;
    }
    let len_ok = v.len() == LARGE_ALLOC_BYTES;
    v.set(0, 0x12);
    v.set(LARGE_ALLOC_BYTES - 1, 0x34);
    let write_ok = v[0] == 0x12 && v[LARGE_ALLOC_BYTES - 1] == 0x34;
    len_ok && write_ok
}

/// The scheduler exists: at least the idle thread is alive.
pub fn test_scheduler_init(s: &Scheduler) -> (ok: bool)
    requires
        s.wf(),
    ensures
        ok,
{
    let count = s.thread_count();
    proof {
        s.lemma_thread_count_partition();
    }
    count >= 1
}

/// The statistics always report exactly one running thread.
pub fn test_thread_stats(s: &Scheduler) -> (ok: bool)
    requires
        s.wf(),
    ensures
        ok,
{
    let (_ready, running, _terminated) = s.thread_stats();
    running >= 1
}

/// A yield returns and leaves the scheduler well-formed with a running
/// thread.
pub fn test_yield(s: &mut Scheduler) -> (ok: bool)
    requires
        old(s).wf(),
        old(s).current_tcb().state is Running,
    ensures
        ok,
        final(s).wf(),
        final(s).current_tcb().state is Running,
{
    s.yield_now(0);
    true
}

/// The advisory cooperative timeout is configured.
pub fn test_cooperative_timeout() -> (ok: bool)
    ensures
        ok,
{
    threading::COOPERATIVE_TIMEOUT_US > 0
}

/// Reaping drops the thread count by exactly the number reaped and
/// leaves at least the idle thread.
pub fn test_thread_cleanup(s: &mut Scheduler) -> (ok: bool)
    requires
        old(s).wf(),
        old(s).current_tcb().state is Running,
    ensures
        ok,
        final(s).wf(),
        final(s).current_tcb().state is Running,
{
    let count_before = s.thread_count();
    let cleaned = s.cleanup_terminated();
    let count_after = s.thread_count();
    proof {
        s.lemma_thread_count_partition();
    }
    let count_ok = count_after == count_before - cleaned;
    let has_idle = count_after >= 1;
    count_ok && has_idle
}

/// Run every system test on a fresh scheduler; proven to pass.
pub fn run_all() -> (ok: bool)
    ensures
        ok,
{
    let mut all_pass = test_allocator_vec();
    all_pass = all_pass && test_allocator_box();
    all_pass = all_pass && test_allocator_large();
    let mut sched = Scheduler::init();
    all_pass = all_pass && test_scheduler_init(&sched);
    all_pass = all_pass && test_thread_stats(&sched);
    all_pass = all_pass && test_yield(&mut sched);
    all_pass = all_pass && test_cooperative_timeout();
    all_pass = all_pass && test_thread_cleanup(&mut sched);
    all_pass
}

} // verus!
