use vstd::prelude::*;
use crate::threading::scheduling::scheduler::{Scheduler, first_with_tid, inserted_at};
use crate::threading::thread_control_block::{ThreadControlBlock, Tid};

verus! {

/// First in, first out: threads leave in the order in which they came.
pub struct FIFOScheduler {
    queue: Vec<ThreadControlBlock>,
}

impl View for FIFOScheduler {
    type V = Seq<ThreadControlBlock>;

    closed spec fn view(&self) -> Seq<ThreadControlBlock> {
        self.queue@
    }
}

impl FIFOScheduler {
    /// A scheduler that holds no thread.
    pub fn new() -> (scheduler: FIFOScheduler)
        ensures
            scheduler@ == Seq::<ThreadControlBlock>::empty(),
    {
        FIFOScheduler { queue: Vec::new() }
    }

    /// Number of threads held.
    pub fn len(&self) -> (n: usize)
        ensures
            n == self@.len(),
    {
        self.queue.len()
    }

    /// The thread at position `index` of the queue, to read.
    pub fn peek(&self, index: usize) -> (thread: &ThreadControlBlock)
        requires
            index < self@.len(),
        ensures
            *thread == self@[index as int],
    {
        &self.queue[index]
    }
}

impl Scheduler for FIFOScheduler {
    open spec fn threads(&self) -> Seq<ThreadControlBlock> {
        self@
    }

    /// Puts the thread at the tail of the queue.
    fn push(&mut self, thread: ThreadControlBlock)
        ensures
            final(self)@ == old(self)@.push(thread),
    {
        self.queue.push(thread);
        assert(old(self)@.push(thread) =~= old(self)@.insert(old(self)@.len() as int, thread));
        assert(inserted_at(old(self).threads(), thread, old(self)@.len() as int, self.threads()));
    }

    /// Takes the thread at the head of the queue.
    fn pop(&mut self) -> (thread: Option<ThreadControlBlock>) {
        if self.queue.len() == 0 {
            return None;
        }
        let t: ThreadControlBlock = self.queue.remove(0);
        assert(self.queue@ =~= old(self)@.drop_first());
        Some(t)
    }

    fn get_mut(&mut self, tid: Tid) -> (thread: Option<&mut ThreadControlBlock>) {
        let mut i: usize = 0;
        while i < self.queue.len()
            invariant
                i <= self.queue@.len(),
                self.queue@ == old(self)@,
                forall|k: int| 0 <= k < i ==> (#[trigger] self.queue@[k]).tid != tid,
            decreases self.queue@.len() - i,
        {
            if self.queue[i].tid == tid {
                assert(first_with_tid(old(self).threads(), tid, i as int));
                return Some(&mut self.queue[i]);
            }
            i += 1;
        }
        None
    }
}

} // verus!
