use vstd::prelude::*;
use crate::threading::thread_control_block::{ThreadControlBlock, Tid};

verus! {

/// `t` is the first thread of `threads` with the identifier `tid`,
/// at position `i`.
pub open spec fn first_with_tid(threads: Seq<ThreadControlBlock>, tid: Tid, i: int) -> bool {
    &&& 0 <= i < threads.len()
    &&& threads[i].tid == tid
    &&& forall|k: int| 0 <= k < i ==> (#[trigger] threads[k]).tid != tid
}

/// No thread of `threads` has the identifier `tid`.
pub open spec fn no_thread_with_tid(threads: Seq<ThreadControlBlock>, tid: Tid) -> bool {
    forall|k: int| 0 <= k < threads.len() ==> (#[trigger] threads[k]).tid != tid
}

/// `after` is `before` with the thread `thread` put in at position `k`.
pub open spec fn inserted_at(
    before: Seq<ThreadControlBlock>,
    thread: ThreadControlBlock,
    k: int,
    after: Seq<ThreadControlBlock>,
) -> bool {
    0 <= k <= before.len() && after == before.insert(k, thread)
}

/// What a scheduling policy offers: it takes threads in, hands them out
/// one at a time, and finds a thread that it holds by its identifier.
pub trait Scheduler {
    /// The threads held, in the order in which `pop` would hand them out.
    spec fn threads(&self) -> Seq<ThreadControlBlock>;

    /// Takes a thread in. Where in the order it goes is the policy's choice.
    fn push(&mut self, thread: ThreadControlBlock)
        ensures
            exists|k: int| #[trigger] inserted_at(old(self).threads(), thread, k, final(self).threads()),
    ;

    /// Hands out the first thread of the order, if there is one.
    fn pop(&mut self) -> (thread: Option<ThreadControlBlock>)
        ensures
            match thread {
                Some(t) => old(self).threads().len() > 0 && t == old(self).threads()[0] && final(self).threads()
                    == old(self).threads().drop_first(),
                None => old(self).threads().len() == 0 && final(self).threads() == old(self).threads(),
            },
    ;

    /// The first thread with the identifier `tid`, to read and change.
    fn get_mut(&mut self, tid: Tid) -> (thread: Option<&mut ThreadControlBlock>)
        ensures
            match thread {
                Some(t) => exists|i: int|
                    #[trigger] first_with_tid(old(self).threads(), tid, i) && *t == old(self).threads()[i]
                        && final(self).threads() == old(self).threads().update(i, *final(t)),
                None => no_thread_with_tid(old(self).threads(), tid) && final(self).threads() == old(self).threads(),
            },
    ;
}

} // verus!
