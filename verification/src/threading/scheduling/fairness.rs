use vstd::prelude::*;
use crate::threading::context_switch::{ThreadsView, queue_wf, threads_wf};
use crate::threading::scheduling::scheduler::first_with_tid;
use crate::threading::scheduling::{after_yield, first_runnable, lemma_next_index, next_index, rotated, yield_status};
use crate::threading::thread_control_block::{ThreadControlBlock, ThreadStatus, Tid};
use crate::threading::thread_sleep::{lemma_woken, woken};

verus! {

/// Number of threads of `threads` that are `Running`.
pub open spec fn running_count(threads: Seq<ThreadControlBlock>) -> nat
    decreases threads.len(),
{
    if threads.len() == 0 {
        0
    } else {
        running_count(threads.drop_last()) + if threads.last().status is Running {
            1nat
        } else {
            0nat
        }
    }
}

/// Every thread there is: the one that has the processor, then the queue.
pub open spec fn all_threads(threads: ThreadsView) -> Seq<ThreadControlBlock> {
    seq![threads.running] + threads.queue
}

/// Exactly one thread is `Running`.
///
/// Every function that changes the threads keeps `threads_wf`, so this
/// holds whenever one of them has returned.
pub proof fn lemma_one_running(threads: ThreadsView)
    requires
        threads_wf(threads),
    ensures
        running_count(all_threads(threads)) == 1,
    decreases threads.queue.len(),
{
    let all = all_threads(threads);
    if threads.queue.len() == 0 {
        assert(all.drop_last() =~= Seq::<ThreadControlBlock>::empty());
        assert(running_count(all.drop_last()) == 0);
    } else {
        let shorter = ThreadsView { running: threads.running, queue: threads.queue.drop_last() };
        assert(all.drop_last() =~= all_threads(shorter));
        assert(all.last() == threads.queue.last());
        lemma_one_running(shorter);
    }
}

/// Every yield status is one that a thread can yield with.
pub open spec fn yield_statuses(yields: Seq<ThreadStatus>) -> bool {
    forall|k: int| 0 <= k < yields.len() ==> yield_status(#[trigger] yields[k])
}

/// Where the thread at position `k` of a queue of `len` threads stands
/// after the thread at position `i` was taken from it: threads behind `i`
/// move up, and the blocked threads before `i` follow them.
pub open spec fn position_after(len: int, i: int, k: int) -> int {
    if k > i {
        k - i - 1
    } else {
        len - 1 - i + k
    }
}

/// `thread` stands at position `p` of the queue, and one of the yields
/// `yields`, made one after the other, switches to it.
pub open spec fn runs_within(threads: ThreadsView, thread: ThreadControlBlock, p: int, yields: Seq<ThreadStatus>) -> bool
    decreases yields.len(),
{
    &&& 0 <= p < threads.queue.len()
    &&& threads.queue[p] == thread
    &&& yields.len() > 0
    &&& match next_index(threads.queue) {
        None => false,
        Some(i) => i == p || runs_within(
            after_yield(threads, yields[0]),
            thread,
            position_after(threads.queue.len() as int, i, p),
            yields.drop_first(),
        ),
    }
}

/// One of the yields `yields`, made one after the other, switches to the
/// thread at position `x` of the queue, and none before it has switched
/// to the thread at position `p`.
pub open spec fn overtakes(threads: ThreadsView, x: int, p: int, yields: Seq<ThreadStatus>) -> bool
    decreases yields.len(),
{
    &&& yields.len() > 0
    &&& match next_index(threads.queue) {
        None => false,
        Some(i) => i != p && (i == x || overtakes(
            after_yield(threads, yields[0]),
            position_after(threads.queue.len() as int, i, x),
            position_after(threads.queue.len() as int, i, p),
            yields.drop_first(),
        )),
    }
}

/// A yield that does not switch to the ready thread at position `p`
/// switches to a thread before it, keeps the invariant, and leaves that
/// thread ready and nearer to the head; a thread behind it stays behind it.
#[verifier::rlimit(40)]
proof fn lemma_yield_step(threads: ThreadsView, p: int, status: ThreadStatus)
    requires
        threads_wf(threads),
        0 <= p < threads.queue.len(),
        threads.queue[p].status is Ready,
        yield_status(status),
    ensures
        threads_wf(after_yield(threads, status)),
        next_index(threads.queue) is Some,
        0 <= next_index(threads.queue)->0 <= p,
        next_index(threads.queue)->0 < p ==> {
            let i = next_index(threads.queue)->0;
            let after = after_yield(threads, status);
            &&& after.queue.len() >= threads.queue.len() - 1
            &&& after.queue[p - i - 1] == threads.queue[p]
            &&& forall|x: int| p < x < threads.queue.len() ==> after.queue[x - i - 1] == threads.queue[x]
        },
{
    let q = threads.queue;
    // the first thread of the queue that is not blocked: found by going up to p
    let i = first_unblocked(q, p);
    lemma_next_index(q, i);
    let after = after_yield(threads, status);
    let r = rotated(q, i);
    assert forall|k: int| 0 <= k < r.len() implies (#[trigger] r[k]).status is Ready || r[k].status is Blocked by {
        if k < q.len() - i - 1 {
            assert(r[k] == q[k + i + 1]);
        } else {
            assert(r[k] == q[k - (q.len() - i - 1)]);
        }
    }
    assert(queue_wf(r));
    assert(queue_wf(after.queue));
    if i < p {
        assert(r[p - i - 1] == q[p]);
        assert forall|x: int| p < x < q.len() implies after.queue[x - i - 1] == q[x] by {
            assert(r[x - i - 1] == q[x]);
        }
    }
}

/// Position of the first thread that is not blocked among those up to
/// position `p`, where the thread at `p` is not blocked.
proof fn first_unblocked(queue: Seq<ThreadControlBlock>, p: int) -> (i: int)
    requires
        0 <= p < queue.len(),
        !(queue[p].status is Blocked),
    ensures
        0 <= i <= p,
        first_runnable(queue, i),
    decreases p,
{
    if exists|k: int| 0 <= k < p && !((#[trigger] queue[k]).status is Blocked) {
        let k = choose|k: int| 0 <= k < p && !((#[trigger] queue[k]).status is Blocked);
        first_unblocked(queue, k)
    } else {
        p
    }
}

/// First in, first out is fair: a ready thread at position `p` of the
/// queue has the processor after at most `p + 1` yields, whatever the
/// threads that run before it yield with.
pub proof fn lemma_ready_thread_runs(threads: ThreadsView, p: int, yields: Seq<ThreadStatus>)
    requires
        threads_wf(threads),
        0 <= p < threads.queue.len(),
        threads.queue[p].status is Ready,
        yields.len() > p,
        yield_statuses(yields),
    ensures
        runs_within(threads, threads.queue[p], p, yields),
    decreases p,
{
    lemma_yield_step(threads, p, yields[0]);
    let i = next_index(threads.queue)->0;
    if i < p {
        let rest = yields.drop_first();
        assert forall|k: int| 0 <= k < rest.len() implies yield_status(#[trigger] rest[k]) by {
            assert(rest[k] == yields[k + 1]);
        }
        lemma_ready_thread_runs(after_yield(threads, yields[0]), p - i - 1, rest);
    }
}

/// A thread that yields and stays ready runs again: where some thread
/// can take over, the thread that yielded stands at the tail of the
/// queue, ready, and has the processor again after at most as many
/// further yields as the queue is long.
pub proof fn lemma_yielding_thread_runs_again(threads: ThreadsView, yields: Seq<ThreadStatus>)
    requires
        threads_wf(threads),
        next_index(threads.queue) is Some,
        yields.len() >= threads.queue.len(),
        yield_statuses(yields),
    ensures
        runs_within(
            after_yield(threads, ThreadStatus::Ready),
            threads.running.with_status(ThreadStatus::Ready),
            threads.queue.len() - 1,
            yields,
        ),
{
    let q = threads.queue;
    let i = next_index(q)->0;
    lemma_next_index(q, i);
    let after = after_yield(threads, ThreadStatus::Ready);
    let r = rotated(q, i);
    assert forall|k: int| 0 <= k < r.len() implies (#[trigger] r[k]).status is Ready || r[k].status is Blocked by {
        if k < q.len() - i - 1 {
            assert(r[k] == q[k + i + 1]);
        } else {
            assert(r[k] == q[k - (q.len() - i - 1)]);
        }
    }
    assert(queue_wf(after.queue));
    assert(!(q[i].status is Blocked));
    assert(q[i].status is Ready);
    assert(after.queue.len() == q.len());
    assert(after.queue[q.len() - 1] == threads.running.with_status(ThreadStatus::Ready));
    lemma_ready_thread_runs(after, q.len() - 1, yields);
}

/// No thread that stands behind a ready thread gets the processor before it.
pub proof fn lemma_no_overtaking(threads: ThreadsView, p: int, x: int, yields: Seq<ThreadStatus>)
    requires
        threads_wf(threads),
        0 <= p < x,
        p < threads.queue.len(),
        threads.queue[p].status is Ready,
        yield_statuses(yields),
    ensures
        !overtakes(threads, x, p, yields),
    decreases yields.len(),
{
    if yields.len() > 0 {
        lemma_yield_step(threads, p, yields[0]);
        let i = next_index(threads.queue)->0;
        if i < p {
            let rest = yields.drop_first();
            assert forall|k: int| 0 <= k < rest.len() implies yield_status(#[trigger] rest[k]) by {
                assert(rest[k] == yields[k + 1]);
            }
            lemma_no_overtaking(after_yield(threads, yields[0]), p - i - 1, x - i - 1, rest);
        }
    }
}

/// After a wake-up, the woken thread runs before any thread that came
/// into the queue later. The thread `tid` stands at position `p`; it is
/// woken, and then the threads `later` are put into the queue. Whatever
/// yields follow, none of them switches to a thread of `later`, at
/// position `x`, before one has switched to the woken thread; and after
/// at most `p + 1` yields the woken thread has the processor.
#[verifier::rlimit(40)]
pub proof fn lemma_woken_thread_runs_first(
    threads: ThreadsView,
    tid: Tid,
    p: int,
    later: Seq<ThreadControlBlock>,
    x: int,
    yields: Seq<ThreadStatus>,
)
    requires
        threads_wf(threads),
        first_with_tid(threads.queue, tid, p),
        queue_wf(later),
        threads.queue.len() <= x < threads.queue.len() + later.len(),
        yield_statuses(yields),
    ensures
        ({
            let then = ThreadsView { running: threads.running, queue: woken(threads.queue, tid) + later };
            &&& threads_wf(then)
            &&& then.queue[p] == threads.queue[p].with_status(ThreadStatus::Ready)
            &&& then.queue[x] == later[x - threads.queue.len()]
            &&& !overtakes(then, x, p, yields)
            &&& yields.len() > p ==> runs_within(then, then.queue[p], p, yields)
        }),
{
    lemma_woken(threads.queue, tid, p);
    let then = ThreadsView { running: threads.running, queue: woken(threads.queue, tid) + later };
    assert forall|k: int| 0 <= k < then.queue.len() implies (#[trigger] then.queue[k]).status is Ready
        || then.queue[k].status is Blocked by {
        if k < threads.queue.len() {
            if k != p {
                assert(then.queue[k] == threads.queue[k]);
            }
        } else {
            assert(then.queue[k] == later[k - threads.queue.len()]);
        }
    }
    lemma_no_overtaking(then, p, x, yields);
    if yields.len() > p {
        lemma_ready_thread_runs(then, p, yields);
    }
}

} // verus!
