use vstd::prelude::*;
use crate::mem::frame_allocator::{CoreMapEntry, core_map_wf, fits, freed, in_run, is_run_start, marked};

verus! {

/// Number of allocated frames among the first `k` frames.
pub open spec fn allocated_upto(s: Seq<CoreMapEntry>, k: int) -> nat
    decreases k,
{
    if k <= 0 {
        0
    } else {
        allocated_upto(s, k - 1) + if s[k - 1].allocated { 1nat } else { 0nat }
    }
}

/// Number of allocated frames in the map.
pub open spec fn allocated_frames(s: Seq<CoreMapEntry>) -> nat {
    allocated_upto(s, s.len() as int)
}

/// Number of runs that start among the first `k` frames.
pub open spec fn runs_upto(s: Seq<CoreMapEntry>, k: int) -> nat
    decreases k,
{
    if k <= 0 {
        0
    } else {
        runs_upto(s, k - 1) + if is_run_start(s, k - 1) { 1nat } else { 0nat }
    }
}

/// Number of outstanding runs in the map.
pub open spec fn run_count(s: Seq<CoreMapEntry>) -> nat {
    runs_upto(s, s.len() as int)
}

/// How many of the frames below `k` lie in the range of `n` frames from `start`.
pub open spec fn overlap(start: int, n: int, k: int) -> int {
    if k <= start {
        0
    } else if k >= start + n {
        n
    } else {
        k - start
    }
}

proof fn lemma_marked_upto(s: Seq<CoreMapEntry>, start: int, n: int, k: int)
    requires
        fits(s, n, start),
        n <= usize::MAX,
        0 <= k <= s.len(),
    ensures
        allocated_upto(marked(s, start, n), k) == allocated_upto(s, k) + overlap(start, n, k),
        runs_upto(marked(s, start, n), k) == runs_upto(s, k) + if k > start { 1int } else { 0int },
    decreases k,
{
    if k > 0 {
        lemma_marked_upto(s, start, n, k - 1);
        let t = marked(s, start, n);
        if start <= k - 1 < start + n {
            assert(!s[k - 1].allocated);
            assert(t[k - 1].allocated);
        } else {
            assert(t[k - 1] == s[k - 1]);
        }
    }
}

/// Allocating a run of `n` frames adds `n` allocated frames and one run.
pub proof fn lemma_marked_counts(s: Seq<CoreMapEntry>, start: int, n: int)
    requires
        fits(s, n, start),
        n <= usize::MAX,
    ensures
        allocated_frames(marked(s, start, n)) == allocated_frames(s) + n,
        run_count(marked(s, start, n)) == run_count(s) + 1,
{
    lemma_marked_upto(s, start, n, s.len() as int);
}

proof fn lemma_freed_upto(s: Seq<CoreMapEntry>, start: int, k: int)
    requires
        core_map_wf(s),
        is_run_start(s, start),
        0 <= k <= s.len(),
    ensures
        allocated_upto(freed(s, start), k) + overlap(start, s[start].run_length as int, k) == allocated_upto(
            s,
            k,
        ),
        runs_upto(freed(s, start), k) + (if k > start { 1int } else { 0int }) == runs_upto(s, k),
    decreases k,
{
    if k > 0 {
        lemma_freed_upto(s, start, k - 1);
        let t = freed(s, start);
        let n = s[start].run_length as int;
        if start <= k - 1 < start + n {
            assert(in_run(s, start, k - 1));
            assert(s[k - 1].allocated);
            assert(!t[k - 1].allocated);
            if start < k - 1 {
                assert(!is_run_start(s, k - 1));
            }
        } else {
            assert(t[k - 1] == s[k - 1]);
        }
    }
}

/// Releasing a run of `n` frames takes away `n` allocated frames and one run.
pub proof fn lemma_freed_counts(s: Seq<CoreMapEntry>, start: int)
    requires
        core_map_wf(s),
        is_run_start(s, start),
    ensures
        allocated_frames(freed(s, start)) + s[start].run_length == allocated_frames(s),
        run_count(freed(s, start)) + 1 == run_count(s),
{
    assert(start + s[start].run_length <= s.len());
    lemma_freed_upto(s, start, s.len() as int);
}

proof fn lemma_upto_bounds(s: Seq<CoreMapEntry>, k: int)
    requires
        0 <= k <= s.len(),
    ensures
        allocated_upto(s, k) <= k,
        runs_upto(s, k) <= allocated_upto(s, k),
        allocated_upto(s, k) == 0 <==> (forall|j: int| 0 <= j < k ==> !(#[trigger] s[j]).allocated),
        runs_upto(s, k) == 0 <==> (forall|j: int| 0 <= j < k ==> !#[trigger] is_run_start(s, j)),
    decreases k,
{
    if k > 0 {
        lemma_upto_bounds(s, k - 1);
        if allocated_upto(s, k) == 0 {
            assert forall|j: int| 0 <= j < k implies !(#[trigger] s[j]).allocated by {
                if j < k - 1 {
                }
            }
        }
        if runs_upto(s, k) == 0 {
            assert forall|j: int| 0 <= j < k implies !#[trigger] is_run_start(s, j) by {
                if j < k - 1 {
                }
            }
        }
    }
}

/// There are no more allocated frames than frames, no more runs than
/// allocated frames, and a count of zero means that there is none.
pub proof fn lemma_count_bounds(s: Seq<CoreMapEntry>)
    ensures
        run_count(s) <= allocated_frames(s) <= s.len(),
        allocated_frames(s) == 0 <==> (forall|j: int| 0 <= j < s.len() ==> !(#[trigger] s[j]).allocated),
        run_count(s) == 0 <==> (forall|j: int| !#[trigger] is_run_start(s, j)),
{
    lemma_upto_bounds(s, s.len() as int);
}

/// An outstanding run is no longer than the number of allocated frames.
pub proof fn lemma_run_within_count(s: Seq<CoreMapEntry>, start: int)
    requires
        core_map_wf(s),
        is_run_start(s, start),
    ensures
        s[start].run_length <= allocated_frames(s),
        run_count(s) >= 1,
{
    lemma_freed_counts(s, start);
}

} // verus!
