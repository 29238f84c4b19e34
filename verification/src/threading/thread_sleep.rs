use vstd::prelude::*;
use crate::interrupts::InterruptFlag;
use crate::mem::{KernelAllocator, same_state};
use crate::threading::context_switch::{ThreadSystem, ThreadsView, threads_wf};
use crate::threading::scheduling::scheduler::{Scheduler, first_with_tid, no_thread_with_tid};
use crate::threading::scheduling::{YieldOutcome, after_yield, scheduler_yield_and_block, yield_outcome};
use crate::threading::thread_control_block::{ThreadControlBlock, ThreadStatus, Tid};

verus! {

/// The queue after the thread `tid` was woken up: the first thread of the
/// queue with that identifier is ready, in its place. A queue without
/// such a thread stays as it is.
pub open spec fn woken(queue: Seq<ThreadControlBlock>, tid: Tid) -> Seq<ThreadControlBlock> {
    if exists|i: int| first_with_tid(queue, tid, i) {
        let i = choose|i: int| first_with_tid(queue, tid, i);
        queue.update(i, queue[i].with_status(ThreadStatus::Ready))
    } else {
        queue
    }
}

/// There is only one first thread with an identifier, and `woken` wakes it.
pub proof fn lemma_woken(queue: Seq<ThreadControlBlock>, tid: Tid, i: int)
    ensures
        first_with_tid(queue, tid, i) ==> woken(queue, tid) == queue.update(
            i,
            queue[i].with_status(ThreadStatus::Ready),
        ),
        no_thread_with_tid(queue, tid) ==> woken(queue, tid) == queue,
{
    if first_with_tid(queue, tid, i) {
        let chosen = choose|k: int| first_with_tid(queue, tid, k);
        if chosen < i {
            assert(queue[chosen].tid != tid);
        } else if i < chosen {
            assert(queue[i].tid != tid);
        }
    }
    if no_thread_with_tid(queue, tid) {
        if exists|k: int| first_with_tid(queue, tid, k) {
            let chosen = choose|k: int| first_with_tid(queue, tid, k);
            assert(queue[chosen].tid != tid);
        }
    }
}

/// Puts the running thread to sleep: it gives up the processor and is
/// blocked until `thread_wakeup` names it.
pub fn thread_sleep(system: &mut ThreadSystem, interrupts: &mut InterruptFlag, allocator: &mut KernelAllocator) -> (outcome:
    YieldOutcome)
    requires
        threads_wf(old(system)@),
        old(allocator).wf(),
    ensures
        threads_wf(final(system)@),
        final(system)@ == after_yield(old(system)@, ThreadStatus::Blocked),
        outcome == yield_outcome(old(system)@),
        final(interrupts).level() == old(interrupts).level(),
        final(allocator).wf(),
        same_state(*old(allocator), *final(allocator)),
{
    scheduler_yield_and_block(system, interrupts, allocator)
}

/// Wakes the thread `tid` up: it is ready again, in the place in the
/// queue where it waits. Where the queue holds no such thread, nothing
/// happens.
pub fn thread_wakeup(system: &mut ThreadSystem, tid: Tid)
    requires
        threads_wf(old(system)@),
    ensures
        threads_wf(final(system)@),
        final(system)@ == (ThreadsView { running: old(system)@.running, queue: woken(old(system)@.queue, tid) }),
{
    let ghost queue = system@.queue;
    match system.scheduler_mut().get_mut(tid) {
        Some(tcb) => {
            let ghost found = *tcb;
            tcb.status = ThreadStatus::Ready;
            proof {
                let i = choose|i: int| #[trigger]
                    first_with_tid(queue, tid, i) && found == queue[i] && system@.queue == queue.update(
                        i,
                        found.with_status(ThreadStatus::Ready),
                    );
                lemma_woken(queue, tid, i);
            }
        },
        None => {
            proof {
                lemma_woken(queue, tid, 0);
            }
        },
    }
}

} // verus!
