use vstd::prelude::*;
use crate::mem::frame_allocator::{
    CoreMapEntry, PAGE_FRAME_SIZE, after_request, core_map_wf, fits, frame_address, frame_index, freed,
    is_run_start, lemma_freed_wf, lemma_mark_then_free, lemma_marked_wf, lemma_placement, lemma_runs_disjoint, marked,
    placement, released_at, run_length_at,
};
use crate::mem::frame_count::{
    allocated_frames, lemma_count_bounds, lemma_freed_counts, lemma_marked_counts,
};
use crate::mem::subblock_allocator::{
    Slab, block_live, cell_live, class_size, lemma_live_cell_in_frame, slab_of, slab_wf, slabs_backed, slabs_wf,
};
use crate::mem::{frames_after_release, frames_released, is_direct_run};

verus! {

/// One call of the frame allocator.
pub enum FrameCall {
    /// A request for `frames` frames in a row.
    Allocate { frames: int },
    /// The release of what starts at the frame with number `index`.
    Release { index: int },
}

/// The core map after one call: a request is placed where it fits first;
/// a release frees the run that starts at the frame. A request that fits
/// nowhere, and a release of a frame that starts no run, change nothing.
pub open spec fn after_call(s: Seq<CoreMapEntry>, call: FrameCall) -> Seq<CoreMapEntry> {
    match call {
        FrameCall::Allocate { frames } => after_request(s, frames),
        FrameCall::Release { index } => freed(s, index),
    }
}

/// Frames that the call hands out.
pub open spec fn frames_out(s: Seq<CoreMapEntry>, call: FrameCall) -> int {
    match call {
        FrameCall::Allocate { frames } => if placement(s, frames) is Some {
            frames
        } else {
            0
        },
        FrameCall::Release { index } => 0,
    }
}

/// Frames that the call takes back.
pub open spec fn frames_back(s: Seq<CoreMapEntry>, call: FrameCall) -> int {
    match call {
        FrameCall::Allocate { frames } => 0,
        FrameCall::Release { index } => if is_run_start(s, index) {
            s[index].run_length as int
        } else {
            0
        },
    }
}

/// The core map after the calls `calls`, made one after the other.
pub open spec fn after_calls(s: Seq<CoreMapEntry>, calls: Seq<FrameCall>) -> Seq<CoreMapEntry>
    decreases calls.len(),
{
    if calls.len() == 0 {
        s
    } else {
        after_calls(after_call(s, calls[0]), calls.drop_first())
    }
}

/// Frames that the calls `calls` hand out, all together.
pub open spec fn total_out(s: Seq<CoreMapEntry>, calls: Seq<FrameCall>) -> int
    decreases calls.len(),
{
    if calls.len() == 0 {
        0
    } else {
        frames_out(s, calls[0]) + total_out(after_call(s, calls[0]), calls.drop_first())
    }
}

/// Frames that the calls `calls` take back, all together.
pub open spec fn total_back(s: Seq<CoreMapEntry>, calls: Seq<FrameCall>) -> int
    decreases calls.len(),
{
    if calls.len() == 0 {
        0
    } else {
        frames_back(s, calls[0]) + total_back(after_call(s, calls[0]), calls.drop_first())
    }
}

/// Every request of `calls` asks for a number of frames that a `usize` holds.
pub open spec fn calls_in_range(calls: Seq<FrameCall>) -> bool {
    forall|k: int|
        0 <= k < calls.len() ==> ((#[trigger] calls[k]) matches FrameCall::Allocate { frames } ==> 0 <= frames
            <= usize::MAX)
}

/// One call keeps the invariant of the core map, and the allocated
/// frames change by what it hands out and takes back.
pub proof fn lemma_call_conserves(s: Seq<CoreMapEntry>, call: FrameCall)
    requires
        core_map_wf(s),
        call matches FrameCall::Allocate { frames } ==> 0 <= frames <= usize::MAX,
    ensures
        core_map_wf(after_call(s, call)),
        after_call(s, call).len() == s.len(),
        allocated_frames(after_call(s, call)) + frames_back(s, call) == allocated_frames(s) + frames_out(s, call),
{
    match call {
        FrameCall::Allocate { frames } => {
            lemma_placement(s, frames, 0);
            if placement(s, frames) is Some {
                let index = placement(s, frames)->0;
                lemma_marked_wf(s, index, frames);
                lemma_marked_counts(s, index, frames);
            }
        },
        FrameCall::Release { index } => {
            lemma_freed_wf(s, index);
            if is_run_start(s, index) {
                lemma_freed_counts(s, index);
            }
        },
    }
}

/// Frames are conserved: after any calls, the frames that are allocated
/// are those that were allocated before, plus those handed out, less
/// those taken back.
pub proof fn lemma_calls_conserve(s: Seq<CoreMapEntry>, calls: Seq<FrameCall>)
    requires
        core_map_wf(s),
        calls_in_range(calls),
    ensures
        core_map_wf(after_calls(s, calls)),
        after_calls(s, calls).len() == s.len(),
        allocated_frames(after_calls(s, calls)) + total_back(s, calls) == allocated_frames(s) + total_out(s, calls),
    decreases calls.len(),
{
    if calls.len() > 0 {
        lemma_call_conserves(s, calls[0]);
        let rest = calls.drop_first();
        assert forall|k: int| 0 <= k < rest.len() implies ((#[trigger] rest[k]) matches FrameCall::Allocate {
            frames,
        } ==> 0 <= frames <= usize::MAX) by {
            assert(rest[k] == calls[k + 1]);
        }
        lemma_calls_conserve(after_call(s, calls[0]), rest);
    }
}

/// When everything has been given back, nothing is left: after calls on
/// a core map of free frames that leave no run outstanding, every frame
/// is free, and as many frames were taken back as were handed out.
pub proof fn lemma_all_returned(s: Seq<CoreMapEntry>, calls: Seq<FrameCall>)
    requires
        core_map_wf(s),
        forall|j: int| 0 <= j < s.len() ==> !(#[trigger] s[j]).allocated,
        calls_in_range(calls),
        forall|i: int| !is_run_start(after_calls(s, calls), i),
    ensures
        forall|j: int| 0 <= j < s.len() ==> !(#[trigger] after_calls(s, calls)[j]).allocated,
        total_out(s, calls) == total_back(s, calls),
{
    lemma_calls_conserve(s, calls);
    let end = after_calls(s, calls);
    lemma_count_bounds(s);
    lemma_count_bounds(end);
    crate::mem::frame_allocator::lemma_no_run_all_free(end);
}

/// Two runs that are outstanding lie apart in memory: one ends at or
/// before the address at which the other starts.
pub proof fn lemma_allocations_disjoint(base: int, s: Seq<CoreMapEntry>, a: int, b: int)
    requires
        core_map_wf(s),
        is_run_start(s, a),
        is_run_start(s, b),
        a != b,
    ensures
        frame_address(base, a) + s[a].run_length * PAGE_FRAME_SIZE <= frame_address(base, b) || frame_address(
            base,
            b,
        ) + s[b].run_length * PAGE_FRAME_SIZE <= frame_address(base, a),
{
    lemma_runs_disjoint(s, a, b);
}

/// The address of a frame of the region names that frame.
pub proof fn lemma_frame_index_of_address(base: int, frames: int, index: int)
    requires
        0 <= index < frames,
    ensures
        frame_index(base, frames, frame_address(base, index)) == Some(index),
{
    let ptr = frame_address(base, index);
    assert(ptr - base == index * 4096);
}

/// No slab lies on a frame that is free.
pub proof fn lemma_no_slab_on_free_frame(slabs: Seq<Slab>, base: int, s: Seq<CoreMapEntry>, index: int)
    requires
        slabs_backed(slabs, base, s),
        0 <= index < s.len(),
        !s[index].allocated,
    ensures
        forall|i: int| 0 <= i < slabs.len() ==> (#[trigger] slabs[i]).frame != frame_address(base, index),
{
    assert forall|i: int| 0 <= i < slabs.len() implies (#[trigger] slabs[i]).frame != frame_address(
        base,
        index,
    ) by {
        let at = (slabs[i].frame - base) / (PAGE_FRAME_SIZE as int);
        assert(is_run_start(s, at));
        assert(frame_index(base, s.len() as int, slabs[i].frame as int) == Some(at));
        if slabs[i].frame == frame_address(base, index) {
            lemma_frame_index_of_address(base, s.len() as int, index);
        }
    }
}

/// Of two runs placed one after the other, the first can be released as
/// if the second had been placed alone.
#[verifier::rlimit(40)]
proof fn lemma_release_first_of_two(s: Seq<CoreMapEntry>, k: int, first: int, u: int, second: int)
    requires
        core_map_wf(s),
        fits(s, first, k),
        fits(marked(s, k, first), second, u),
        first <= usize::MAX,
        second <= usize::MAX,
    ensures
        fits(s, second, u),
        is_run_start(marked(marked(s, k, first), u, second), k),
        marked(marked(s, k, first), u, second)[k].run_length == first,
        freed(marked(marked(s, k, first), u, second), k) == marked(s, u, second),
{
    let with_first = marked(s, k, first);
    let with_both = marked(with_first, u, second);
    assert(with_first[k].allocated);
    assert(!(u <= k < u + second)) by {
        if u <= k < u + second {
            assert(!with_first[k].allocated);
        }
    }
    assert(with_both[k] == with_first[k]);
    assert forall|j: int| u <= j < u + second implies !(#[trigger] s[j]).allocated by {
        assert(!with_first[j].allocated);
    }
    assert forall|j: int| 0 <= j < s.len() implies freed(with_both, k)[j] == marked(s, u, second)[j] by {
        if k <= j < k + first {
            assert(!s[j].allocated);
            assert(with_first[j].allocated);
            if u <= j < u + second {
                assert(!with_first[j].allocated);
            }
        }
    }
    assert(freed(with_both, k) =~= marked(s, u, second));
}

/// The stacks of a thread come back whole. On a core map `s`, with slabs
/// `slabs`, a run of `first` frames is placed and then one of `second`
/// frames. Giving back the first and then the second leaves the core map
/// as it was, and takes back as many frames as were handed out.
#[verifier::rlimit(40)]
pub proof fn lemma_two_runs_round_trip(base: int, s: Seq<CoreMapEntry>, slabs: Seq<Slab>, first: int, second: int)
    requires
        core_map_wf(s),
        slabs_backed(slabs, base, s),
        0 <= first <= usize::MAX,
        0 <= second <= usize::MAX,
        placement(s, first) is Some,
        placement(after_request(s, first), second) is Some,
    ensures
        ({
            let k = placement(s, first)->0;
            let with_first = after_request(s, first);
            let u = placement(with_first, second)->0;
            let with_both = after_request(with_first, second);
            let first_back = frames_after_release(base, with_both, slabs, frame_address(base, k));
            &&& frames_released(base, with_both, slabs, frame_address(base, k)) == first
            &&& frames_released(base, first_back, slabs, frame_address(base, u)) == second
            &&& frames_after_release(base, first_back, slabs, frame_address(base, u)) == s
        }),
{
    let k = placement(s, first)->0;
    lemma_placement(s, first, k);
    let with_first = marked(s, k, first);
    lemma_marked_wf(s, k, first);
    let u = placement(with_first, second)->0;
    lemma_placement(with_first, second, u);
    let with_both = marked(with_first, u, second);
    let ka = frame_address(base, k);
    let ua = frame_address(base, u);
    lemma_release_first_of_two(s, k, first, u, second);
    lemma_frame_index_of_address(base, s.len() as int, k);
    lemma_frame_index_of_address(base, s.len() as int, u);
    assert(!s[k].allocated);
    assert(!s[u].allocated);
    lemma_no_slab_on_free_frame(slabs, base, s, k);
    lemma_no_slab_on_free_frame(slabs, base, s, u);
    assert(run_length_at(base, with_both, ka) == first);
    assert(is_direct_run(base, with_both, slabs, ka));
    assert(released_at(base, with_both, ka) == freed(with_both, k));
    let first_back = marked(s, u, second);
    assert(frames_after_release(base, with_both, slabs, ka) == first_back);
    lemma_marked_wf(s, u, second);
    lemma_mark_then_free(s, u, second);
    assert(run_length_at(base, first_back, ua) == second);
    assert(is_direct_run(base, first_back, slabs, ua));
    assert(released_at(base, first_back, ua) == freed(first_back, u));
}

/// A cell that is handed out and a run that was handed out as frames
/// share no byte.
pub proof fn lemma_cell_apart_from_run(
    base: int,
    frames: Seq<CoreMapEntry>,
    slabs: Seq<Slab>,
    class: int,
    addr: int,
    ptr: int,
)
    requires
        core_map_wf(frames),
        slabs_wf(slabs),
        slabs_backed(slabs, base, frames),
        block_live(slabs, class, addr),
        is_direct_run(base, frames, slabs, ptr),
    ensures
        addr + class_size(class) <= ptr || ptr + run_length_at(base, frames, ptr) * PAGE_FRAME_SIZE <= addr,
{
    let i = choose|i: int| #[trigger] slab_of(slabs, addr, i) && slabs[i].class == class && cell_live(slabs[i], addr);
    let slab = slabs[i];
    assert(slab_wf(slab));
    lemma_live_cell_in_frame(slab, addr);
    let at = (slab.frame - base) / (PAGE_FRAME_SIZE as int);
    let run = frame_index(base, frames.len() as int, ptr)->0;
    assert(frame_index(base, frames.len() as int, slab.frame as int) == Some(at));
    assert(is_run_start(frames, at));
    assert(is_run_start(frames, run));
    assert(slab.frame == base + at * 4096);
    assert(ptr == base + run * 4096);
    assert(at != run);
    lemma_runs_disjoint(frames, at, run);
}

} // verus!
