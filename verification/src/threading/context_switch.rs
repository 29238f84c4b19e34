use vstd::prelude::*;
use crate::mem::{KernelAllocator, same_state};
use crate::threading::scheduling::fifo_scheduler::FIFOScheduler;
use crate::threading::scheduling::scheduler::Scheduler;
use crate::threading::thread_control_block::{ThreadControlBlock, ThreadStatus, Tid};

verus! {

/// The threads of the kernel: the one that has the processor, and the
/// queue of those that wait for it.
pub struct ThreadsView {
    pub running: ThreadControlBlock,
    pub queue: Seq<ThreadControlBlock>,
}

/// Every thread of the queue is ready or blocked.
pub open spec fn queue_wf(queue: Seq<ThreadControlBlock>) -> bool {
    forall|k: int|
        0 <= k < queue.len() ==> (#[trigger] queue[k]).status is Ready || queue[k].status is Blocked
}

/// The invariant of the threads: the thread that has the processor is
/// `Running`, and no other is.
pub open spec fn threads_wf(threads: ThreadsView) -> bool {
    threads.running.status is Running && queue_wf(threads.queue)
}

/// The running thread and the scheduler that owns every other thread.
pub struct ThreadSystem {
    running_thread: ThreadControlBlock,
    scheduler: FIFOScheduler,
}

impl View for ThreadSystem {
    type V = ThreadsView;

    closed spec fn view(&self) -> ThreadsView {
        ThreadsView { running: self.running_thread, queue: self.scheduler@ }
    }
}

impl ThreadSystem {
    /// The threads at the start: `kernel_thread` has the processor, and
    /// `scheduler` holds the others.
    pub fn new(kernel_thread: ThreadControlBlock, scheduler: FIFOScheduler) -> (system: ThreadSystem)
        requires
            kernel_thread.status is Running,
            queue_wf(scheduler@),
        ensures
            system@ == (ThreadsView { running: kernel_thread, queue: scheduler@ }),
            threads_wf(system@),
    {
        ThreadSystem { running_thread: kernel_thread, scheduler }
    }

    /// The thread that has the processor.
    pub fn running_thread(&self) -> (thread: &ThreadControlBlock)
        ensures
            *thread == self@.running,
    {
        &self.running_thread
    }

    /// Identifier of the thread that has the processor.
    pub fn running_tid(&self) -> (tid: Tid)
        ensures
            tid == self@.running.tid,
    {
        self.running_thread.tid
    }

    /// The scheduler, to read.
    pub fn scheduler(&self) -> (scheduler: &FIFOScheduler)
        ensures
            scheduler@ == self@.queue,
    {
        &self.scheduler
    }

    /// The scheduler, to change.
    pub(crate) fn scheduler_mut(&mut self) -> (scheduler: &mut FIFOScheduler)
        ensures
            scheduler@ == old(self)@.queue,
            final(self)@ == (ThreadsView { running: old(self)@.running, queue: final(scheduler)@ }),
    {
        &mut self.scheduler
    }

    /// Hands a thread that is ready, or blocked, to the scheduler.
    pub fn add_thread(&mut self, thread: ThreadControlBlock)
        requires
            threads_wf(old(self)@),
            thread.status is Ready || thread.status is Blocked,
        ensures
            threads_wf(final(self)@),
            final(self)@ == (ThreadsView { running: old(self)@.running, queue: old(self)@.queue.push(thread) }),
    {
        self.scheduler.push(thread);
    }

    /// Records the exit code of the thread that has the processor.
    pub fn set_exit_code(&mut self, exit_code: i32)
        ensures
            final(self)@ == (ThreadsView {
                running: ThreadControlBlock { exit_code: Some(exit_code), ..old(self)@.running },
                queue: old(self)@.queue,
            }),
    {
        self.running_thread.set_exit_code(exit_code);
    }
}

/// The threads after the processor went over to `switch_to`: it is
/// `Running`, and the thread that ran before has taken `status` and
/// stands at the tail of the queue, unless it is dying: a dying thread is
/// reaped and gone.
pub open spec fn after_switch(threads: ThreadsView, status: ThreadStatus, switch_to: ThreadControlBlock) -> ThreadsView {
    ThreadsView {
        running: switch_to.with_status(ThreadStatus::Running),
        queue: if status is Dying {
            threads.queue
        } else {
            threads.queue.push(threads.running.with_status(status))
        },
    }
}

/// Hands the processor from the running thread, which takes the status
/// `status_for_current_thread`, to `switch_to`. The registers and the
/// stack are switched by the kernel; this is the bookkeeping that goes
/// with it.
pub fn switch_threads(
    system: &mut ThreadSystem,
    status_for_current_thread: ThreadStatus,
    switch_to: ThreadControlBlock,
    allocator: &mut KernelAllocator,
)
    requires
        threads_wf(old(system)@),
        switch_to.status is Ready,
        status_for_current_thread is Ready || status_for_current_thread is Blocked
            || status_for_current_thread is Dying,
        old(allocator).wf(),
    ensures
        threads_wf(final(system)@),
        final(system)@ == after_switch(old(system)@, status_for_current_thread, switch_to),
        final(allocator).wf(),
        if status_for_current_thread is Dying {
            ThreadControlBlock::reap_releases(
                old(system)@.running.with_status(ThreadStatus::Dying),
                *old(allocator),
                *final(allocator),
            )
        } else {
            same_state(*old(allocator), *final(allocator))
        },
{
    let mut switch_from: ThreadControlBlock = switch_to;
    switch_from.status = ThreadStatus::Running;
    std::mem::swap(&mut system.running_thread, &mut switch_from);
    switch_from.status = status_for_current_thread;
    if status_for_current_thread == ThreadStatus::Dying {
        switch_from.reap(allocator);
    } else {
        system.scheduler.push(switch_from);
    }
}

} // verus!
