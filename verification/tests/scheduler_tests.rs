//! Scheduler scenarios: the tests drive the scheduler model the way
//! the kernel's threads would, acting as whichever thread the
//! scheduler says is running.

use kernel_core::threading::PreemptAction;
use kernel_core::threading::Scheduler;
use kernel_core::threading::ThreadKind;
use kernel_core::threading::COOPERATIVE_TIMEOUT_US;
use kernel_core::threading::IDLE_TID;
use kernel_core::threading::preempt_decision;

#[test]
fn init_has_one_running_idle_thread() {
    let s = Scheduler::init();
    assert_eq!(s.thread_count(), 1);
    assert_eq!(s.current_thread(), IDLE_TID);
    let (ready, running, terminated) = s.thread_stats();
    assert_eq!(ready, 0);
    assert_eq!(running, 1);
    assert_eq!(terminated, 0);
}

#[test]
fn yield_with_empty_ready_queue_keeps_current() {
    let mut s = Scheduler::init();
    let switched = s.yield_now(100);
    assert!(!switched);
    assert_eq!(s.current_thread(), IDLE_TID);
}

#[test]
fn spawn_increments_thread_count_and_assigns_fresh_tids() {
    let mut s = Scheduler::init();
    let t1 = s.spawn(7).unwrap();
    let t2 = s.spawn(8).unwrap();
    assert_eq!(t1, 1);
    assert_eq!(t2, 2);
    assert_eq!(s.thread_count(), 3);
    let (ready, running, terminated) = s.thread_stats();
    assert_eq!((ready, running, terminated), (2, 1, 0));
}

#[test]
fn cleanup_with_no_terminated_threads_reaps_nothing() {
    let mut s = Scheduler::init();
    s.spawn(1).unwrap();
    let before = s.thread_count();
    let cleaned = s.cleanup_terminated();
    assert_eq!(cleaned, 0);
    assert_eq!(s.thread_count(), before);
}

#[test]
fn spawn_and_run() {
    // After init the count is one. One spawned thread sets a flag and
    // terminates; the main thread yields ten times; the flag is set,
    // cleanup reaps exactly one, and the count is one again.
    let mut s = Scheduler::init();
    assert_eq!(s.thread_count(), 1);
    let tid = s.spawn(1).unwrap();
    let mut flag = false;
    for _ in 0..10 {
        s.yield_now(0);
        if s.current_thread() == tid {
            flag = true;
            s.mark_current_terminated();
            s.yield_now(0);
        }
    }
    assert!(flag);
    let cleaned = s.cleanup_terminated();
    assert_eq!(cleaned, 1);
    assert_eq!(s.thread_count(), 1);
}

#[test]
fn round_robin_ordering() {
    // Three cooperative threads append their identifier to a ring and
    // yield, four times each: the ring begins A,B,C repeated four
    // times.
    let mut s = Scheduler::init();
    let a = s.spawn_cooperative(1).unwrap();
    let b = s.spawn_cooperative(2).unwrap();
    let c = s.spawn_cooperative(3).unwrap();
    let mut ring: Vec<u64> = Vec::new();
    let mut remaining = [4u32, 4, 4];
    let mut guard: u32 = 0;
    while remaining.iter().any(|&r| r > 0) && guard < 100 {
        guard += 1;
        let cur = s.current_thread();
        if cur == IDLE_TID {
            s.yield_now(0);
        } else {
            let i = (cur - a) as usize;
            if remaining[i] > 0 {
                ring.push(cur);
                remaining[i] -= 1;
                s.yield_now(0);
            } else {
                s.mark_current_terminated();
                s.yield_now(0);
            }
        }
    }
    let expected = vec![a, b, c, a, b, c, a, b, c, a, b, c];
    assert_eq!(ring, expected);
}

#[test]
fn yield_cycle_count() {
    // One thread increments a counter ten times, yielding in between,
    // then terminates; the main thread yields thirty times; the
    // counter reads ten.
    let mut s = Scheduler::init();
    let tid = s.spawn(1).unwrap();
    let mut counter = 0u32;
    let mut done = false;
    for _ in 0..30 {
        s.yield_now(0);
        if s.current_thread() == tid {
            if counter < 10 {
                counter += 1;
                s.yield_now(0);
            } else if !done {
                done = true;
                s.mark_current_terminated();
                s.yield_now(0);
            }
        }
    }
    assert_eq!(counter, 10);
    let cleaned = s.cleanup_terminated();
    assert_eq!(cleaned, 1);
    assert_eq!(s.thread_count(), 1);
}

#[test]
fn mixed_cooperative_preemptible() {
    // One cooperative thread yields until five milliseconds of wall
    // time have passed; one preemptible thread busy-spins for fifteen
    // milliseconds and never yields, making progress only because the
    // timer-raised scheduler interrupt switches it out. Both finish
    // within fifty milliseconds and cleanup leaves only the idle
    // thread.
    let mut s = Scheduler::init();
    let coop = s.spawn_cooperative(1).unwrap();
    let pre = s.spawn(2).unwrap();
    let mut now: u64 = 0;
    let mut next_timer: u64 = 10_000;
    let start = now;
    let mut coop_done = false;
    let mut pre_done = false;
    let mut pre_spun: u64 = 0;
    while (!coop_done || !pre_done) && now - start < 50_000 {
        // the timer interrupt fires every ten milliseconds and raises
        // the scheduler interrupt; the handler switches preemptible
        // threads and leaves cooperative ones alone
        if now >= next_timer {
            next_timer += 10_000;
            let was = s.current_thread();
            let act = s.on_scheduler_sgi(true, true, false, now);
            if was == pre {
                assert_eq!(act, PreemptAction::Switch);
                assert_ne!(s.current_thread(), pre);
            }
            if was == coop {
                assert_ne!(act, PreemptAction::Switch);
                assert_eq!(s.current_thread(), coop);
            }
            continue;
        }
        let cur = s.current_thread();
        if cur == IDLE_TID {
            now += 100;
            s.yield_now(now);
        } else if cur == coop {
            if now - start >= 5_000 {
                coop_done = true;
                s.mark_current_terminated();
                s.yield_now(now);
            } else {
                now += 100;
                s.yield_now(now);
            }
        } else {
            // the preemptible thread: spin without yielding
            if pre_spun >= 15_000 {
                pre_done = true;
                s.mark_current_terminated();
                s.yield_now(now);
            } else {
                pre_spun += 100;
                now += 100;
            }
        }
    }
    assert!(coop_done);
    assert!(pre_done);
    s.cleanup_terminated();
    assert_eq!(s.thread_count(), 1);
}

#[test]
fn spawn_multiple_threads_all_run_once() {
    // three threads each bump a counter once and terminate; after a
    // round of yields the counter reads three and cleanup restores the
    // original thread count
    let mut s = Scheduler::init();
    let count_before = s.thread_count();
    let first = s.spawn(1).unwrap();
    s.spawn(2).unwrap();
    s.spawn(3).unwrap();
    assert_eq!(s.thread_count(), count_before + 3);
    let mut counter: u32 = 0;
    for _ in 0..20 {
        s.yield_now(0);
        let cur = s.current_thread();
        if cur >= first {
            counter += 1;
            s.mark_current_terminated();
            s.yield_now(0);
        }
    }
    assert_eq!(counter, 3);
    // the count identity: live threads split into ready, running and
    // terminated
    let (ready, running, terminated) = s.thread_stats();
    assert_eq!(terminated, 3);
    assert_eq!(ready + running + terminated, s.thread_count());
    let cleaned = s.cleanup_terminated();
    assert_eq!(cleaned, 3);
    assert_eq!(s.thread_count(), count_before);
}

#[test]
fn spawned_thread_yields_five_times_and_resumes() {
    // one thread increments a counter before each of five yields; the
    // driver keeps yielding until the thread finishes
    let mut s = Scheduler::init();
    let tid = s.spawn(1).unwrap();
    let mut count: u32 = 0;
    let mut done = false;
    for _ in 0..20 {
        s.yield_now(0);
        if s.current_thread() == tid {
            if count < 5 {
                count += 1;
                s.yield_now(0);
            } else if !done {
                done = true;
                s.mark_current_terminated();
                s.yield_now(0);
            }
        }
    }
    assert_eq!(count, 5);
    assert_eq!(s.cleanup_terminated(), 1);
}

#[test]
fn cooperative_spawn_runs_like_any_other_on_yield() {
    let mut s = Scheduler::init();
    let tid = s.spawn_cooperative(1).unwrap();
    let mut ran = false;
    for _ in 0..10 {
        s.yield_now(0);
        if s.current_thread() == tid {
            ran = true;
            s.mark_current_terminated();
            s.yield_now(0);
        }
    }
    assert!(ran);
    s.cleanup_terminated();
    assert_eq!(s.thread_count(), 1);
}

#[test]
fn preempt_decision_matrix() {
    // Unsafe interrupted contexts always defer; a safe context
    // switches a preemptible thread; a cooperative thread is never
    // switched, drawing at most an overrun warning.
    assert_eq!(
        preempt_decision(ThreadKind::Preemptible, false, true, false, 0, 0, COOPERATIVE_TIMEOUT_US),
        PreemptAction::Defer
    );
    assert_eq!(
        preempt_decision(ThreadKind::Preemptible, true, false, false, 0, 0, COOPERATIVE_TIMEOUT_US),
        PreemptAction::Defer
    );
    assert_eq!(
        preempt_decision(ThreadKind::Preemptible, true, true, true, 0, 0, COOPERATIVE_TIMEOUT_US),
        PreemptAction::Defer
    );
    assert_eq!(
        preempt_decision(ThreadKind::Preemptible, true, true, false, 0, 0, COOPERATIVE_TIMEOUT_US),
        PreemptAction::Switch
    );
    assert_eq!(
        preempt_decision(ThreadKind::Cooperative, true, true, false, 0, 500, COOPERATIVE_TIMEOUT_US),
        PreemptAction::Ignore
    );
    assert_eq!(
        preempt_decision(
            ThreadKind::Cooperative,
            true,
            true,
            false,
            0,
            COOPERATIVE_TIMEOUT_US + 1,
            COOPERATIVE_TIMEOUT_US
        ),
        PreemptAction::WarnOverrun
    );
    // a zero timeout disables the overrun warning
    assert_eq!(
        preempt_decision(ThreadKind::Cooperative, true, true, false, 0, u64::MAX - 1, 0),
        PreemptAction::Ignore
    );
}

#[test]
fn deferred_preemption_consumed_on_irq_return() {
    // A preemption recorded in an unsafe context is consumed at the
    // next return into a preemptible thread.
    let mut s = Scheduler::init();
    let t = s.spawn(1).unwrap();
    let act = s.on_scheduler_sgi(true, false, false, 0);
    assert_eq!(act, PreemptAction::Defer);
    let switched = s.on_irq_return(0);
    assert!(switched);
    assert_eq!(s.current_thread(), t);
}

#[test]
fn irq_return_without_pending_preemption_is_inert() {
    let mut s = Scheduler::init();
    s.spawn(1).unwrap();
    let switched = s.on_irq_return(0);
    assert!(!switched);
    assert_eq!(s.current_thread(), IDLE_TID);
}
