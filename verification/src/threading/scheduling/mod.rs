pub mod fifo_scheduler;
pub mod scheduler;
pub mod fairness;

use vstd::prelude::*;
use crate::error::KernelError;
use crate::interrupts::{InterruptFlag, IntrLevel, hold_interrupts};
use crate::mem::{KernelAllocator, same_state};
use crate::threading::context_switch::{ThreadSystem, ThreadsView, queue_wf, switch_threads, threads_wf};
use crate::threading::scheduling::fifo_scheduler::FIFOScheduler;
use crate::threading::scheduling::scheduler::Scheduler;
use crate::threading::thread_control_block::{ThreadControlBlock, ThreadStatus, Tid};

verus! {

/// The scheduler of the kernel, empty. It is made once, while the kernel
/// starts, with interrupts off.
pub fn create_scheduler(flag: &InterruptFlag) -> (scheduler: FIFOScheduler)
    requires
        flag.level() is IntrOff,
    ensures
        scheduler@ == Seq::<ThreadControlBlock>::empty(),
{
    FIFOScheduler::new()
}

/// The thread can be switched to: it is not blocked.
pub open spec fn runnable(thread: ThreadControlBlock) -> bool {
    !(thread.status is Blocked)
}

/// Position `i` holds the first thread of the queue that is not blocked.
pub open spec fn first_runnable(queue: Seq<ThreadControlBlock>, i: int) -> bool {
    &&& 0 <= i < queue.len()
    &&& runnable(queue[i])
    &&& forall|k: int| 0 <= k < i ==> !runnable(#[trigger] queue[k])
}

/// Position of the thread that a yield switches to, if it switches.
pub open spec fn next_index(queue: Seq<ThreadControlBlock>) -> Option<int> {
    if exists|i: int| first_runnable(queue, i) {
        Some(choose|i: int| first_runnable(queue, i))
    } else {
        None
    }
}

/// The queue after the thread at position `i` was taken: the blocked
/// threads that stood before it have gone to the tail, in their order.
pub open spec fn rotated(queue: Seq<ThreadControlBlock>, i: int) -> Seq<ThreadControlBlock> {
    queue.skip(i + 1) + queue.take(i)
}

/// A status that a thread takes when it yields.
pub open spec fn yield_status(status: ThreadStatus) -> bool {
    status is Ready || status is Blocked || status is Dying
}

/// The threads after the running thread yielded with `status`. The first
/// thread of the queue that is not blocked runs; the blocked threads
/// before it go to the tail, and behind them the thread that yielded,
/// unless it is dying: a dying thread is reaped and gone. Where every
/// thread of the queue is blocked, or the queue is empty, nothing changes
/// and the thread that yielded runs on.
pub open spec fn after_yield(threads: ThreadsView, status: ThreadStatus) -> ThreadsView {
    match next_index(threads.queue) {
        None => threads,
        Some(i) => ThreadsView {
            running: threads.queue[i].with_status(ThreadStatus::Running),
            queue: if status is Dying {
                rotated(threads.queue, i)
            } else {
                rotated(threads.queue, i).push(threads.running.with_status(status))
            },
        },
    }
}

/// What a yield came to.
#[derive(Clone, Copy, Debug, PartialEq, Eq, Structural)]
pub enum YieldOutcome {
    /// The processor went from thread `from` to thread `to`.
    Switched { from: Tid, to: Tid },
    /// No thread could take over: the thread that yielded runs on.
    Idle,
}

/// What `scheduler_yield` returns for the threads `threads`.
pub open spec fn yield_outcome(threads: ThreadsView) -> YieldOutcome {
    match next_index(threads.queue) {
        None => YieldOutcome::Idle,
        Some(i) => YieldOutcome::Switched { from: threads.running.tid, to: threads.queue[i].tid },
    }
}

/// There is only one first thread that is not blocked, and `next_index` names it.
pub proof fn lemma_next_index(queue: Seq<ThreadControlBlock>, i: int)
    ensures
        first_runnable(queue, i) ==> next_index(queue) == Some(i),
        (forall|k: int| 0 <= k < queue.len() ==> !runnable(#[trigger] queue[k])) ==> next_index(queue) is None,
        next_index(queue) is Some ==> first_runnable(queue, next_index(queue)->0),
{
    if first_runnable(queue, i) {
        let chosen = choose|k: int| first_runnable(queue, k);
        if chosen < i {
            assert(!runnable(queue[chosen]));
        } else if i < chosen {
            assert(!runnable(queue[i]));
        }
    }
}

/// Takes from the queue the first thread that is not blocked; the blocked
/// threads before it go to the tail. Where there is none, the queue is
/// left as it was.
#[verifier::rlimit(40)]
fn take_next(scheduler: &mut FIFOScheduler) -> (next: Option<ThreadControlBlock>)
    ensures
        match next {
            Some(thread) => {
                let i = next_index(old(scheduler)@)->0;
                &&& next_index(old(scheduler)@) is Some
                &&& thread == old(scheduler)@[i]
                &&& final(scheduler)@ == rotated(old(scheduler)@, i)
            },
            None => next_index(old(scheduler)@) is None && final(scheduler)@ == old(scheduler)@,
        },
{
    let count: usize = scheduler.len();
    let mut seen: usize = 0;
    while seen < count
        invariant
            seen <= count,
            count == old(scheduler)@.len(),
            scheduler@ == old(scheduler)@.skip(seen as int) + old(scheduler)@.take(seen as int),
            forall|k: int| 0 <= k < seen ==> !runnable(#[trigger] old(scheduler)@[k]),
        decreases count - seen,
    {
        match scheduler.pop() {
            None => {
                // a queue of `count` threads, of which `seen` were looked at, is not empty
                return None;
            },
            Some(switch_to) => {
                assert(switch_to == old(scheduler)@[seen as int]);
                if switch_to.status == ThreadStatus::Blocked {
                    scheduler.push(switch_to);
                    assert(scheduler@ =~= old(scheduler)@.skip(seen + 1) + old(scheduler)@.take(seen + 1));
                } else {
                    proof {
                        assert(first_runnable(old(scheduler)@, seen as int));
                        lemma_next_index(old(scheduler)@, seen as int);
                        assert(scheduler@ =~= rotated(old(scheduler)@, seen as int));
                    }
                    return Some(switch_to);
                }
            },
        }
        seen += 1;
    }
    proof {
        lemma_next_index(old(scheduler)@, 0);
        assert(scheduler@ =~= old(scheduler)@);
    }
    None
}

/// What a yield does to the allocator: a dying thread that leaves the
/// processor gives back what it holds; otherwise nothing changes.
pub open spec fn yield_releases(
    threads: ThreadsView,
    status: ThreadStatus,
    before: KernelAllocator,
    after: KernelAllocator,
) -> bool {
    if status is Dying && next_index(threads.queue) is Some {
        ThreadControlBlock::reap_releases(threads.running.with_status(ThreadStatus::Dying), before, after)
    } else {
        same_state(before, after)
    }
}

/// Gives up the processor; the thread that was running takes `status`.
/// Interrupts are off while the next thread is chosen and are put back to
/// the level from before.
#[verifier::rlimit(40)]
pub fn scheduler_yield(
    system: &mut ThreadSystem,
    status_for_current_thread: ThreadStatus,
    interrupts: &mut InterruptFlag,
    allocator: &mut KernelAllocator,
) -> (outcome: YieldOutcome)
    requires
        threads_wf(old(system)@),
        yield_status(status_for_current_thread),
        old(allocator).wf(),
    ensures
        threads_wf(final(system)@),
        final(system)@ == after_yield(old(system)@, status_for_current_thread),
        outcome == yield_outcome(old(system)@),
        final(interrupts).level() == old(interrupts).level(),
        final(allocator).wf(),
        yield_releases(old(system)@, status_for_current_thread, *old(allocator), *final(allocator)),
{
    let guard = hold_interrupts(interrupts, IntrLevel::IntrOff);
    let from: Tid = system.running_tid();
    let outcome: YieldOutcome = match take_next(system.scheduler_mut()) {
        Some(switch_to) => {
            let to: Tid = switch_to.tid;
            proof {
                let i = next_index(old(system)@.queue)->0;
                assert(first_runnable(old(system)@.queue, i));
                assert(queue_wf(rotated(old(system)@.queue, i))) by {
                    assert forall|k: int| 0 <= k < rotated(old(system)@.queue, i).len() implies {
                        let t = #[trigger] rotated(old(system)@.queue, i)[k];
                        t.status is Ready || t.status is Blocked
                    } by {
                        if k < old(system)@.queue.len() - i - 1 {
                            assert(rotated(old(system)@.queue, i)[k] == old(system)@.queue[k + i + 1]);
                        } else {
                            assert(rotated(old(system)@.queue, i)[k] == old(system)@.queue[k - (
                            old(system)@.queue.len() - i - 1)]);
                        }
                    }
                }
            }
            switch_threads(system, status_for_current_thread, switch_to, allocator);
            YieldOutcome::Switched { from, to }
        },
        None => YieldOutcome::Idle,
    };
    guard.release(interrupts);
    outcome
}

/// Gives up the processor; the thread that was running stays ready and
/// goes to the tail of the queue.
pub fn scheduler_yield_and_continue(
    system: &mut ThreadSystem,
    interrupts: &mut InterruptFlag,
    allocator: &mut KernelAllocator,
) -> (outcome: YieldOutcome)
    requires
        threads_wf(old(system)@),
        old(allocator).wf(),
    ensures
        threads_wf(final(system)@),
        final(system)@ == after_yield(old(system)@, ThreadStatus::Ready),
        outcome == yield_outcome(old(system)@),
        final(interrupts).level() == old(interrupts).level(),
        final(allocator).wf(),
        same_state(*old(allocator), *final(allocator)),
{
    scheduler_yield(system, ThreadStatus::Ready, interrupts, allocator)
}

/// Gives up the processor for good: the thread that was running is
/// reaped and runs never again. The result is the thread that runs now.
/// Where no thread can take over, the dying thread cannot leave: the call
/// fails with `InvalidState` and nothing has changed.
pub fn scheduler_yield_and_die(
    system: &mut ThreadSystem,
    interrupts: &mut InterruptFlag,
    allocator: &mut KernelAllocator,
) -> (now_running: Result<Tid, KernelError>)
    requires
        threads_wf(old(system)@),
        old(allocator).wf(),
    ensures
        threads_wf(final(system)@),
        final(system)@ == after_yield(old(system)@, ThreadStatus::Dying),
        match now_running {
            Ok(tid) => next_index(old(system)@.queue) is Some && tid == final(system)@.running.tid,
            Err(e) => e == KernelError::InvalidState && next_index(old(system)@.queue) is None,
        },
        final(interrupts).level() == old(interrupts).level(),
        final(allocator).wf(),
        yield_releases(old(system)@, ThreadStatus::Dying, *old(allocator), *final(allocator)),
{
    match scheduler_yield(system, ThreadStatus::Dying, interrupts, allocator) {
        YieldOutcome::Switched { from: _, to } => Ok(to),
        YieldOutcome::Idle => Err(KernelError::InvalidState),
    }
}

/// Gives up the processor; the thread that was running is blocked until
/// it is woken up, and waits in the queue.
pub fn scheduler_yield_and_block(
    system: &mut ThreadSystem,
    interrupts: &mut InterruptFlag,
    allocator: &mut KernelAllocator,
) -> (outcome: YieldOutcome)
    requires
        threads_wf(old(system)@),
        old(allocator).wf(),
    ensures
        threads_wf(final(system)@),
        final(system)@ == after_yield(old(system)@, ThreadStatus::Blocked),
        outcome == yield_outcome(old(system)@),
        final(interrupts).level() == old(interrupts).level(),
        final(allocator).wf(),
        same_state(*old(allocator), *final(allocator)),
{
    scheduler_yield(system, ThreadStatus::Blocked, interrupts, allocator)
}

} // verus!
