pub mod conservation;
pub mod frame_allocator;
pub mod frame_count;
pub mod subblock_allocator;

use vstd::prelude::*;
use crate::error::KernelError;
use crate::mem::frame_allocator::{
    CoreMap, CoreMapEntry, DummyAllocatorSolution, FrameAllocatorSolution, PAGE_FRAME_SIZE, after_request, align_up,
    core_map_wf, frame_address, frame_index, free_entry, freed, is_first_fit, is_run_start, lemma_placement, marked,
    no_fit, placement, released_at, run_granted, run_length_at,
};
use crate::mem::frame_count::{allocated_frames, lemma_count_bounds, lemma_freed_counts, lemma_marked_counts};
use crate::mem::subblock_allocator::{
    Slab, SubblockAllocator, block_live, cell_granted, cell_refused, cell_returned, class_for, class_size,
    lemma_granted_cell, size_class, slabs_backed, slabs_wf,
};
use crate::sizes::{KB, MB};

verus! {

/// Distance between a physical address and the kernel virtual address
/// through which the kernel reaches it.
pub const OFFSET: usize = 0x8000_0000;

/// The largest alignment a request may ask for: one frame.
pub const MAX_SUPPORTED_ALIGN: usize = 4096;

/// Kernel virtual address at which upper memory starts: one megabyte in.
pub const UPPER_MEMORY_START: usize = MB + OFFSET;

/// Bytes that one record of the core map takes in kernel memory.
pub const CORE_MAP_ENTRY_SIZE: usize = 8;

/// Alignment of a record of the core map in kernel memory.
pub const CORE_MAP_ENTRY_ALIGN: usize = 4;

/// The frame allocator as the kernel allocator holds it.
pub struct FrameAllocatorWrapper {
    frame_allocator: FrameAllocatorSolution,
}

impl FrameAllocatorWrapper {
    /// Address of the first managed frame.
    pub closed spec fn base(&self) -> int {
        self.frame_allocator.base()
    }

    /// The per-frame records.
    pub closed spec fn frames(&self) -> Seq<CoreMapEntry> {
        self.frame_allocator.frames()
    }

    /// The invariant of the allocator inside.
    pub closed spec fn wf(&self) -> bool {
        self.frame_allocator.wf()
    }

    /// What `wf` says of the region and its records.
    pub proof fn lemma_wf(&self)
        requires
            self.wf(),
        ensures
            self.base() > 0,
            self.base() % (PAGE_FRAME_SIZE as int) == 0,
            self.base() + self.frames().len() * PAGE_FRAME_SIZE <= usize::MAX,
            core_map_wf(self.frames()),
    {
        self.frame_allocator.lemma_wf();
    }

    /// An allocator for the `num_frames_in_system` frames from `start` on.
    pub fn new_in(start: usize, core_map: CoreMap, num_frames_in_system: usize) -> (wrapper: FrameAllocatorWrapper)
        requires
            start > 0,
            start % PAGE_FRAME_SIZE == 0,
            core_map@.len() == num_frames_in_system,
            start + num_frames_in_system * PAGE_FRAME_SIZE <= usize::MAX,
            core_map_wf(core_map@),
        ensures
            wrapper.wf(),
            wrapper.base() == start,
            wrapper.frames() == core_map@,
    {
        FrameAllocatorWrapper {
            frame_allocator: FrameAllocatorSolution::new_in(start, core_map, num_frames_in_system),
        }
    }

    /// Allocates `frames` frames in a row at the lowest place where they
    /// fit and returns the address of the first; fails where there is no
    /// such place, and always for a request of no frames.
    pub fn allocate(&mut self, frames: usize) -> (region: Result<usize, KernelError>)
        requires
            old(self).wf(),
        ensures
            final(self).wf(),
            final(self).base() == old(self).base(),
            final(self).frames().len() == old(self).frames().len(),
            frames == 0 || frames > old(self).frames().len() ==> region is Err,
            final(self).frames() == after_request(old(self).frames(), frames as int),
            match region {
                Ok(ptr) => run_granted(
                    old(self).base(),
                    old(self).frames(),
                    frames as int,
                    ptr as int,
                    final(self).frames(),
                ),
                Err(e) => {
                    &&& e == KernelError::OutOfMemory
                    &&& no_fit(old(self).frames(), frames as int)
                    &&& final(self).frames() == old(self).frames()
                },
            },
    {
        self.frame_allocator.allocate(frames)
    }

    /// Releases the run of frames that starts at address `ptr` and returns
    /// its number of frames; an address that starts no run changes nothing
    /// and gives 0.
    pub fn dealloc(&mut self, ptr: usize) -> (frames_released: usize)
        requires
            old(self).wf(),
        ensures
            final(self).wf(),
            final(self).base() == old(self).base(),
            final(self).frames().len() == old(self).frames().len(),
            final(self).frames() == released_at(old(self).base(), old(self).frames(), ptr as int),
            frames_released == run_length_at(old(self).base(), old(self).frames(), ptr as int),
    {
        self.frame_allocator.dealloc(ptr)
    }
}

/// The three stages in the life of the kernel allocator. It moves from
/// `Setup` to `Initialized` to `Deinitialized` and never back.
#[derive(Clone, Copy, Debug, PartialEq, Eq, Structural)]
pub enum AllocatorPhase {
    Setup,
    Initialized,
    Deinitialized,
}

enum KernelAllocatorState {
    Deinitialized,
    SetupState { dummy_allocator: DummyAllocatorSolution },
    Initialized { frame_allocator: FrameAllocatorWrapper, subblock_allocators: SubblockAllocator },
}

/// The kernel heap: a bump allocator while the core map is being set up,
/// then a frame allocator with slabs for small requests on top.
///
/// The four counters only grow; each stays at `usize::MAX` once it gets
/// there. What the bump allocator grants is not counted, as it is never
/// given back.
pub struct KernelAllocator {
    state: KernelAllocatorState,
    total_num_allocations: usize,
    total_num_deallocations: usize,
    total_num_frames_allocated: usize,
    total_num_frames_deallocated: usize,
}

/// `x`, or `usize::MAX` where `x` is larger.
pub open spec fn saturated(x: int) -> int {
    if x > usize::MAX {
        usize::MAX as int
    } else {
        x
    }
}

/// `align` is a power of two that is no larger than a frame.
pub open spec fn valid_align(align: int) -> bool {
    align == 1 || align == 2 || align == 4 || align == 8 || align == 16 || align == 32 || align == 64 || align
        == 128 || align == 256 || align == 512 || align == 1024 || align == 2048 || align == 4096
}

/// Bytes of the cell that serves a request: the larger of size and alignment.
pub open spec fn block_need(size: int, align: int) -> int {
    if size >= align {
        size
    } else {
        align
    }
}

/// Frames taken for a request that is served in whole frames: size plus
/// alignment, rounded up to frames.
pub open spec fn frames_needed(size: int, align: int) -> int {
    (size + align + PAGE_FRAME_SIZE - 1) / (PAGE_FRAME_SIZE as int)
}

/// End, exclusive, of the memory that `mem_upper` kilobytes of upper
/// memory give; `usize::MAX` where that lies beyond the address space.
pub open spec fn frames_ceil(mem_upper: int) -> int {
    saturated(UPPER_MEMORY_START + saturated(mem_upper * KB))
}

/// Frames that the bytes from `base` to `ceil` hold when each frame comes
/// with one record of the core map.
pub open spec fn region_frames(base: int, ceil: int) -> int {
    (ceil - base) / (CORE_MAP_ENTRY_SIZE + PAGE_FRAME_SIZE)
}

/// Address of the first managed frame: the core map for the frames of the
/// region is carved off the front, from the first frame boundary on.
pub open spec fn managed_base(base: int, ceil: int) -> int {
    align_up(base) + frames_needed(region_frames(base, ceil) * CORE_MAP_ENTRY_SIZE, CORE_MAP_ENTRY_ALIGN as int)
        * PAGE_FRAME_SIZE
}

/// Number of managed frames: the frames of the region, as far as they end
/// at or before `ceil`.
pub open spec fn managed_frames(base: int, ceil: int) -> int {
    let room = (ceil - managed_base(base, ceil)) / (PAGE_FRAME_SIZE as int);
    if region_frames(base, ceil) < room {
        region_frames(base, ceil)
    } else {
        room
    }
}

/// The bytes from `base` to `ceil` are kernel memory with room for the core map.
pub open spec fn region_usable(base: int, ceil: int) -> bool {
    OFFSET <= base <= ceil && managed_base(base, ceil) <= ceil
}

/// What starts at a multiple of a size class, or of the frame size,
/// starts at a multiple of every supported alignment up to that size.
pub proof fn lemma_aligned(addr: int, unit: int, align: int)
    requires
        addr % unit == 0,
        valid_align(align),
        align <= unit,
        unit == 8 || unit == 16 || unit == 32 || unit == 64 || unit == 128 || unit == 256 || unit == 512 || unit
            == 1024 || unit == 2048 || unit == 4096,
    ensures
        addr % align == 0,
{
    let k = unit / align;
    assert(unit % align == 0 && k > 0);
    vstd::arithmetic::div_mod::lemma_fundamental_div_mod(unit, align);
    assert(unit == align * k);
    vstd::arithmetic::div_mod::lemma_mod_mod(addr, align, k);
    assert(0int % align == 0);
}

/// Whether `align` is a power of two that is no larger than a frame.
pub fn align_supported(align: usize) -> (ok: bool)
    ensures
        ok == valid_align(align as int),
{
    align == 1 || align == 2 || align == 4 || align == 8 || align == 16 || align == 32 || align == 64 || align
        == 128 || align == 256 || align == 512 || align == 1024 || align == 2048 || align == 4096
}

/// Frames taken for a request of `size` bytes aligned to `align` that is
/// served in whole frames.
pub fn frames_for(size: usize, align: usize) -> (frames: usize)
    ensures
        frames == frames_needed(size as int, align as int),
{
    let rest: usize = size % PAGE_FRAME_SIZE + align % PAGE_FRAME_SIZE;
    size / PAGE_FRAME_SIZE + align / PAGE_FRAME_SIZE + (rest + PAGE_FRAME_SIZE - 1) / PAGE_FRAME_SIZE
}

impl KernelAllocator {
    /// The stage the allocator is in.
    pub closed spec fn phase(&self) -> AllocatorPhase {
        match self.state {
            KernelAllocatorState::Deinitialized => AllocatorPhase::Deinitialized,
            KernelAllocatorState::SetupState { .. } => AllocatorPhase::Setup,
            KernelAllocatorState::Initialized { .. } => AllocatorPhase::Initialized,
        }
    }

    /// First byte the bump allocator has not handed out; 0 outside `Setup`.
    pub closed spec fn bump_start(&self) -> int {
        match self.state {
            KernelAllocatorState::SetupState { dummy_allocator } => dummy_allocator.start(),
            _ => 0,
        }
    }

    /// End of the bump allocator's range; 0 outside `Setup`.
    pub closed spec fn bump_end(&self) -> int {
        match self.state {
            KernelAllocatorState::SetupState { dummy_allocator } => dummy_allocator.end(),
            _ => 0,
        }
    }

    /// Address of the first managed frame; 0 outside `Initialized`.
    pub closed spec fn base(&self) -> int {
        match self.state {
            KernelAllocatorState::Initialized { frame_allocator, .. } => frame_allocator.base(),
            _ => 0,
        }
    }

    /// The per-frame records; empty outside `Initialized`.
    pub closed spec fn frames(&self) -> Seq<CoreMapEntry> {
        match self.state {
            KernelAllocatorState::Initialized { frame_allocator, .. } => frame_allocator.frames(),
            _ => Seq::empty(),
        }
    }

    /// The slabs in use; none outside `Initialized`.
    pub closed spec fn slabs(&self) -> Seq<Slab> {
        match self.state {
            KernelAllocatorState::Initialized { subblock_allocators, .. } => subblock_allocators@,
            _ => Seq::empty(),
        }
    }

    /// Requests granted from the heap so far.
    pub closed spec fn allocations(&self) -> usize {
        self.total_num_allocations
    }

    /// Blocks taken back by the heap so far.
    pub closed spec fn deallocations(&self) -> usize {
        self.total_num_deallocations
    }

    /// Frames handed out by the frame allocator so far.
    pub closed spec fn frames_allocated(&self) -> usize {
        self.total_num_frames_allocated
    }

    /// Frames given back to the frame allocator so far.
    pub closed spec fn frames_deallocated(&self) -> usize {
        self.total_num_frames_deallocated
    }

    /// The invariant of the allocator. Before initialisation nothing has
    /// been counted. Once initialised, the frame allocator and the slabs
    /// are sound, every slab lies on a frame that is handed out, the
    /// managed frames are kernel memory, and, unless the counter has
    /// reached `usize::MAX`, the frames handed out are those given back
    /// plus those that are allocated now.
    pub closed spec fn wf(&self) -> bool {
        match self.state {
            KernelAllocatorState::Deinitialized => true,
            KernelAllocatorState::SetupState { .. } => {
                &&& self.total_num_allocations == 0
                &&& self.total_num_deallocations == 0
                &&& self.total_num_frames_allocated == 0
                &&& self.total_num_frames_deallocated == 0
            },
            KernelAllocatorState::Initialized { frame_allocator, subblock_allocators } => {
                &&& frame_allocator.wf()
                &&& frame_allocator.base() >= OFFSET
                &&& slabs_wf(subblock_allocators@)
                &&& slabs_backed(subblock_allocators@, frame_allocator.base(), frame_allocator.frames())
                &&& self.total_num_frames_allocated < usize::MAX ==> self.total_num_frames_allocated
                    == self.total_num_frames_deallocated + allocated_frames(frame_allocator.frames())
            },
        }
    }

    /// What `wf` says, over the public names.
    pub proof fn lemma_wf(&self)
        requires
            self.wf(),
        ensures
            self.phase() is Setup ==> self.allocations() == 0 && self.deallocations() == 0
                && self.frames_allocated() == 0 && self.frames_deallocated() == 0,
            self.phase() is Initialized ==> {
                &&& self.base() >= OFFSET
                &&& self.base() % (PAGE_FRAME_SIZE as int) == 0
                &&& self.base() + self.frames().len() * PAGE_FRAME_SIZE <= usize::MAX
                &&& core_map_wf(self.frames())
                &&& slabs_wf(self.slabs())
                &&& slabs_backed(self.slabs(), self.base(), self.frames())
                &&& self.frames_allocated() < usize::MAX ==> self.frames_allocated() == self.frames_deallocated()
                    + allocated_frames(self.frames())
            },
    {
        match self.state {
            KernelAllocatorState::Initialized { frame_allocator, .. } => {
                frame_allocator.lemma_wf();
            },
            _ => {},
        }
    }

    /// A new allocator, in `Setup`, with an empty bump range and nothing counted.
    pub fn new() -> (allocator: KernelAllocator)
        ensures
            allocator.wf(),
            allocator.phase() is Setup,
            allocator.bump_start() == 0,
            allocator.bump_end() == 0,
            allocator.allocations() == 0,
            allocator.deallocations() == 0,
            allocator.frames_allocated() == 0,
            allocator.frames_deallocated() == 0,
    {
        KernelAllocator {
            state: KernelAllocatorState::SetupState { dummy_allocator: DummyAllocatorSolution::new_in(0, 0) },
            total_num_allocations: 0,
            total_num_deallocations: 0,
            total_num_frames_allocated: 0,
            total_num_frames_deallocated: 0,
        }
    }

    /// The stage the allocator is in.
    pub fn current_phase(&self) -> (phase: AllocatorPhase)
        ensures
            phase == self.phase(),
    {
        match &self.state {
            KernelAllocatorState::Deinitialized => AllocatorPhase::Deinitialized,
            KernelAllocatorState::SetupState { .. } => AllocatorPhase::Setup,
            KernelAllocatorState::Initialized { .. } => AllocatorPhase::Initialized,
        }
    }

    /// Address of the first managed frame; 0 unless `Initialized`.
    pub fn base_address(&self) -> (addr: usize)
        ensures
            addr == self.base(),
    {
        match &self.state {
            KernelAllocatorState::Initialized { frame_allocator, .. } => frame_allocator.frame_allocator.start_address(),
            _ => 0,
        }
    }

    /// Number of managed frames; 0 unless `Initialized`.
    pub fn num_frames(&self) -> (n: usize)
        requires
            self.wf(),
        ensures
            n == self.frames().len(),
    {
        match &self.state {
            KernelAllocatorState::Initialized { frame_allocator, .. } => frame_allocator.frame_allocator.num_frames(),
            _ => 0,
        }
    }

    /// The record of frame `index`, if there is such a frame.
    pub fn frame_entry(&self, index: usize) -> (entry: Option<CoreMapEntry>)
        requires
            self.wf(),
        ensures
            match entry {
                Some(e) => index < self.frames().len() && e == self.frames()[index as int],
                None => index >= self.frames().len(),
            },
    {
        match &self.state {
            KernelAllocatorState::Initialized { frame_allocator, .. } => {
                if index < frame_allocator.frame_allocator.num_frames() {
                    Some(frame_allocator.frame_allocator.entry(index))
                } else {
                    None
                }
            },
            _ => None,
        }
    }

    /// Where a run of `n` frames would be placed now: the number of the
    /// lowest frame from which `n` frames in a row are free. Fails with
    /// `InvalidState` unless the allocator is `Initialized`, and with
    /// `OutOfMemory` where there is no such frame.
    pub fn find_free_run(&self, n: usize) -> (found: Result<usize, KernelError>)
        requires
            self.wf(),
        ensures
            match found {
                Ok(start) => self.phase() is Initialized && is_first_fit(self.frames(), n as int, start as int),
                Err(e) => if self.phase() is Initialized {
                    e == KernelError::OutOfMemory && no_fit(self.frames(), n as int)
                } else {
                    e == KernelError::InvalidState
                },
            },
    {
        match &self.state {
            KernelAllocatorState::Initialized { frame_allocator, .. } => frame_allocator.frame_allocator.find_free_run(
                n,
            ),
            _ => Err(KernelError::InvalidState),
        }
    }

    /// Number of slabs in use.
    pub fn slab_count(&self) -> (n: usize)
        ensures
            n == self.slabs().len(),
    {
        match &self.state {
            KernelAllocatorState::Initialized { subblock_allocators, .. } => subblock_allocators.slab_count(),
            _ => 0,
        }
    }

    /// Requests granted from the heap so far.
    pub fn total_num_allocations(&self) -> (n: usize)
        ensures
            n == self.allocations(),
    {
        self.total_num_allocations
    }

    /// Blocks taken back by the heap so far.
    pub fn total_num_deallocations(&self) -> (n: usize)
        ensures
            n == self.deallocations(),
    {
        self.total_num_deallocations
    }

    /// Frames handed out by the frame allocator so far.
    pub fn total_num_frames_allocated(&self) -> (n: usize)
        ensures
            n == self.frames_allocated(),
    {
        self.total_num_frames_allocated
    }

    /// Frames given back to the frame allocator so far.
    pub fn total_num_frames_deallocated(&self) -> (n: usize)
        ensures
            n == self.frames_deallocated(),
    {
        self.total_num_frames_deallocated
    }
}

/// Two allocators show the same stage, ranges, records, slabs and counters.
pub open spec fn same_state(a: KernelAllocator, b: KernelAllocator) -> bool {
    &&& a.phase() == b.phase()
    &&& a.bump_start() == b.bump_start()
    &&& a.bump_end() == b.bump_end()
    &&& a.base() == b.base()
    &&& a.frames() == b.frames()
    &&& a.slabs() == b.slabs()
    &&& a.allocations() == b.allocations()
    &&& a.deallocations() == b.deallocations()
    &&& a.frames_allocated() == b.frames_allocated()
    &&& a.frames_deallocated() == b.frames_deallocated()
}

/// A run starts at address `ptr` and no slab lies on it.
pub open spec fn is_direct_run(base: int, frames: Seq<CoreMapEntry>, slabs: Seq<Slab>, ptr: int) -> bool {
    &&& run_length_at(base, frames, ptr) > 0
    &&& forall|i: int| 0 <= i < slabs.len() ==> (#[trigger] slabs[i]).frame != ptr
}

/// Frames that `frame_dealloc` gives back for the address `ptr`.
pub open spec fn frames_released(base: int, frames: Seq<CoreMapEntry>, slabs: Seq<Slab>, ptr: int) -> int {
    if is_direct_run(base, frames, slabs, ptr) {
        run_length_at(base, frames, ptr)
    } else {
        0
    }
}

/// The records after `frame_dealloc` was called with the address `ptr`.
pub open spec fn frames_after_release(base: int, frames: Seq<CoreMapEntry>, slabs: Seq<Slab>, ptr: int) -> Seq<
    CoreMapEntry,
> {
    if is_direct_run(base, frames, slabs, ptr) {
        released_at(base, frames, ptr)
    } else {
        frames
    }
}

/// Two allocators differ at most in the per-frame records and in the two
/// counters of frames.
pub open spec fn only_frames_differ(a: KernelAllocator, b: KernelAllocator) -> bool {
    &&& a.phase() == b.phase()
    &&& a.bump_start() == b.bump_start()
    &&& a.bump_end() == b.bump_end()
    &&& a.base() == b.base()
    &&& a.slabs() == b.slabs()
    &&& a.allocations() == b.allocations()
    &&& a.deallocations() == b.deallocations()
}

/// What `frame_alloc` does with a request for `frames` frames. Unless the
/// allocator is `Initialized` it fails with `InvalidState`. The request is
/// placed at the lowest frame from which `frames` frames in a row are
/// free: the result is the address of that frame, the frames become one
/// run and are counted. Where there is no such place it fails with
/// `OutOfMemory`. Nothing else changes, and a failed call changes nothing.
pub open spec fn frame_alloc_result(
    before: KernelAllocator,
    frames: int,
    after: KernelAllocator,
    region: Result<usize, KernelError>,
) -> bool {
    &&& only_frames_differ(before, after)
    &&& after.frames_deallocated() == before.frames_deallocated()
    &&& if !(before.phase() is Initialized) {
        &&& region matches Err(e)
        &&& e == KernelError::InvalidState
        &&& after.frames() == before.frames()
        &&& after.frames_allocated() == before.frames_allocated()
    } else {
        match placement(before.frames(), frames) {
            Some(index) => {
                &&& region matches Ok(ptr)
                &&& ptr == frame_address(before.base(), index)
                &&& after.frames() == marked(before.frames(), index, frames)
                &&& after.frames_allocated() == saturated(before.frames_allocated() + frames)
            },
            None => {
                &&& region matches Err(e)
                &&& e == KernelError::OutOfMemory
                &&& after.frames() == before.frames()
                &&& after.frames_allocated() == before.frames_allocated()
            },
        }
    }
}

/// What `frame_dealloc` does with the address `ptr`. Unless the allocator
/// is `Initialized` it fails with `InvalidState`. Where a run starts at
/// `ptr` on which no slab lies, the run is released and its frames are
/// the result and are counted. Any other address gives 0. Nothing else
/// changes.
pub open spec fn frame_dealloc_result(
    before: KernelAllocator,
    ptr: int,
    after: KernelAllocator,
    released: Result<usize, KernelError>,
) -> bool {
    &&& only_frames_differ(before, after)
    &&& after.frames_allocated() == before.frames_allocated()
    &&& if !(before.phase() is Initialized) {
        &&& released matches Err(e)
        &&& e == KernelError::InvalidState
        &&& after.frames() == before.frames()
        &&& after.frames_deallocated() == before.frames_deallocated()
    } else if before.direct_run(ptr) {
        let n = run_length_at(before.base(), before.frames(), ptr);
        &&& released matches Ok(count)
        &&& count == n
        &&& after.frames() == released_at(before.base(), before.frames(), ptr)
        &&& after.frames_deallocated() == saturated(before.frames_deallocated() + n)
    } else {
        &&& released matches Ok(count)
        &&& count == 0
        &&& after.frames() == before.frames()
        &&& after.frames_deallocated() == before.frames_deallocated()
    }
}

impl KernelAllocator {
    /// Why `init` would fail, if it would.
    pub open spec fn init_error(&self, mem_upper: int, frames_base_address: int) -> Option<KernelError> {
        if !(self.phase() is Setup) || self.bump_start() != 0 || self.bump_end() != 0 {
            Some(KernelError::InvalidState)
        } else if !region_usable(frames_base_address, frames_ceil(mem_upper)) {
            Some(KernelError::OutOfMemory)
        } else {
            None
        }
    }

    /// Takes over the memory from `frames_base_address` up to the end of
    /// `mem_upper` kilobytes of upper memory. The bump allocator carves the
    /// core map off the front; the frame allocator gets the frames behind
    /// it, all free, and the allocator is `Initialized`.
    ///
    /// Fails with `InvalidState` unless the allocator is in `Setup` with an
    /// untouched bump allocator, and with `OutOfMemory` where the range is
    /// no kernel memory or has no room for the core map. A failed call
    /// changes nothing.
    #[verifier::spinoff_prover]
    #[verifier::rlimit(40)]
    pub fn init(&mut self, mem_upper: usize, frames_base_address: usize) -> (done: Result<(), KernelError>)
        requires
            old(self).wf(),
        ensures
            final(self).wf(),
            match done {
                Ok(_) => {
                    let ceil = frames_ceil(mem_upper as int);
                    &&& old(self).init_error(mem_upper as int, frames_base_address as int) is None
                    &&& final(self).phase() is Initialized
                    &&& final(self).base() == managed_base(frames_base_address as int, ceil)
                    &&& final(self).frames().len() == managed_frames(frames_base_address as int, ceil)
                    &&& forall|i: int| 0 <= i < final(self).frames().len() ==> final(self).frames()[i] == free_entry()
                    &&& final(self).slabs().len() == 0
                    &&& final(self).allocations() == 0
                    &&& final(self).deallocations() == 0
                    &&& final(self).frames_allocated() == 0
                    &&& final(self).frames_deallocated() == 0
                },
                Err(e) => {
                    &&& old(self).init_error(mem_upper as int, frames_base_address as int) == Some(e)
                    &&& same_state(*old(self), *final(self))
                },
            },
    {
        let upper_bytes: usize = match mem_upper.checked_mul(KB) {
            Some(bytes) => bytes,
            None => usize::MAX,
        };
        let ceil: usize = UPPER_MEMORY_START.saturating_add(upper_bytes);
        assert(ceil == frames_ceil(mem_upper as int));
        match &mut self.state {
            KernelAllocatorState::SetupState { dummy_allocator } => {
                if dummy_allocator.get_start_address() != 0 || dummy_allocator.get_end_address() != 0 {
                    return Err(KernelError::InvalidState);
                }
                if frames_base_address < OFFSET || frames_base_address > ceil {
                    return Err(KernelError::OutOfMemory);
                }
                let region: usize = (ceil - frames_base_address) / (CORE_MAP_ENTRY_SIZE + PAGE_FRAME_SIZE);
                let core_map_frames: usize = frames_for(region * CORE_MAP_ENTRY_SIZE, CORE_MAP_ENTRY_ALIGN);
                dummy_allocator.set_start_address(frames_base_address);
                dummy_allocator.set_end_address(ceil);
                match dummy_allocator.allocate(core_map_frames) {
                    Err(_) => {
                        dummy_allocator.set_start_address(0);
                        dummy_allocator.set_end_address(0);
                        return Err(KernelError::OutOfMemory);
                    },
                    Ok(_) => {},
                }
                let start: usize = dummy_allocator.get_start_address();
                assert(start == managed_base(frames_base_address as int, ceil as int));
                assert(start % PAGE_FRAME_SIZE == 0);
                assert(OFFSET <= start <= ceil);
                let room: usize = (ceil - start) / PAGE_FRAME_SIZE;
                let frames: usize = if region < room { region } else { room };
                let core_map: CoreMap = CoreMap::new(frames);
                proof {
                    lemma_count_bounds(core_map@);
                }
                self.state = KernelAllocatorState::Initialized {
                    frame_allocator: FrameAllocatorWrapper::new_in(start, core_map, frames),
                    subblock_allocators: SubblockAllocator::new(),
                };
                Ok(())
            },
            _ => Err(KernelError::InvalidState),
        }
    }

    /// Allocates `frames` frames in a row at the lowest place where they
    /// fit, and returns the address of the first. Fails with `InvalidState`
    /// unless the allocator is `Initialized`, and with `OutOfMemory` where
    /// the frames fit nowhere; a request for no frames fits nowhere. A
    /// failed call changes nothing.
    pub fn frame_alloc(&mut self, frames: usize) -> (region: Result<usize, KernelError>)
        requires
            old(self).wf(),
        ensures
            final(self).wf(),
            frame_alloc_result(*old(self), frames as int, *final(self), region),
            match region {
                Ok(ptr) => {
                    &&& run_granted(old(self).base(), old(self).frames(), frames as int, ptr as int, final(self).frames())
                    &&& ptr >= OFFSET
                },
                Err(e) => same_state(*old(self), *final(self)),
            },
            old(self).phase() is Initialized && (frames == 0 || frames > old(self).frames().len()) ==> region
                == Err::<usize, KernelError>(KernelError::OutOfMemory),
    {
        match &mut self.state {
            KernelAllocatorState::Initialized { frame_allocator, .. } => {
                let ghost before = frame_allocator.frames();
                match frame_allocator.allocate(frames) {
                    Ok(ptr) => {
                        proof {
                            let index = (ptr - frame_allocator.base()) / (PAGE_FRAME_SIZE as int);
                            lemma_marked_counts(before, index, frames as int);
                            lemma_placement(before, frames as int, index);
                        }
                        self.total_num_frames_allocated = self.total_num_frames_allocated.saturating_add(frames);
                        Ok(ptr)
                    },
                    Err(e) => {
                        proof {
                            lemma_placement(before, frames as int, 0);
                        }
                        Err(e)
                    },
                }
            },
            _ => Err(KernelError::InvalidState),
        }
    }

    /// The run that starts at address `ptr` was handed out by
    /// `frame_alloc` or for a large request, not as the frame of a slab.
    pub open spec fn direct_run(&self, ptr: int) -> bool {
        is_direct_run(self.base(), self.frames(), self.slabs(), ptr)
    }

    /// Releases the run of frames that starts at address `ptr` and returns
    /// its number of frames. An address that starts no run, or on which a
    /// slab lies, changes nothing and gives 0. Fails with `InvalidState`
    /// unless the allocator is `Initialized`.
    #[verifier::rlimit(40)]
    pub fn frame_dealloc(&mut self, ptr: usize) -> (released: Result<usize, KernelError>)
        requires
            old(self).wf(),
        ensures
            final(self).wf(),
            final(self).frames().len() == old(self).frames().len(),
            frame_dealloc_result(*old(self), ptr as int, *final(self), released),
    {
        match &mut self.state {
            KernelAllocatorState::Initialized { frame_allocator, subblock_allocators } => {
                if subblock_allocators.owns_frame(ptr) {
                    proof {
                        let i = choose|i: int| 0 <= i < subblock_allocators@.len() && (
                        #[trigger] subblock_allocators@[i]).frame == ptr;
                        assert(old(self).slabs()[i].frame == ptr);
                    }
                    return Ok(0);
                }
                let ghost before = frame_allocator.frames();
                let ghost base = frame_allocator.base();
                proof {
                    frame_allocator.lemma_wf();
                }
                let n: usize = frame_allocator.dealloc(ptr);
                if n == 0 {
                    assert(frame_allocator.frames() == before);
                    return Ok(0);
                }
                proof {
                    let index = frame_index(base, before.len() as int, ptr as int)->0;
                    lemma_freed_counts(before, index);
                    lemma_release_keeps_slabs(subblock_allocators@, base, before, index);
                }
                self.total_num_frames_deallocated = self.total_num_frames_deallocated.saturating_add(n);
                Ok(n)
            },
            _ => Err(KernelError::InvalidState),
        }
    }
}

impl KernelAllocator {
    /// Why a request for `size` bytes aligned to `align` would fail, if it
    /// would: the allocator is shut down; the alignment is no power of two
    /// up to a frame; or there is no memory for it. In `Setup` the bump
    /// allocator serves the request in whole frames. Once initialised, a
    /// request of up to half a frame takes a cell of its size class, and a
    /// larger one takes whole frames.
    pub open spec fn allocate_error(&self, size: int, align: int) -> Option<KernelError> {
        if self.phase() is Deinitialized {
            Some(KernelError::InvalidState)
        } else if !valid_align(align) {
            Some(KernelError::Unsupported)
        } else if self.phase() is Setup {
            if align_up(self.bump_start()) + frames_needed(size, align) * PAGE_FRAME_SIZE > self.bump_end() {
                Some(KernelError::OutOfMemory)
            } else {
                None
            }
        } else {
            match class_for(block_need(size, align)) {
                Some(class) => if cell_refused(self.slabs(), self.frames(), class) {
                    Some(KernelError::OutOfMemory)
                } else {
                    None
                },
                None => if no_fit(self.frames(), frames_needed(size, align)) {
                    Some(KernelError::OutOfMemory)
                } else {
                    None
                },
            }
        }
    }

    /// Serves a request for `size` bytes aligned to `align` and returns the
    /// address of the block. A failed call changes nothing.
    #[verifier::rlimit(40)]
    pub fn allocate(&mut self, size: usize, align: usize) -> (block: Result<usize, KernelError>)
        requires
            old(self).wf(),
        ensures
            final(self).wf(),
            final(self).phase() == old(self).phase(),
            final(self).base() == old(self).base(),
            final(self).frames().len() == old(self).frames().len(),
            match block {
                Ok(addr) => {
                    &&& old(self).allocate_error(size as int, align as int) is None
                    &&& addr % align == 0
                    &&& old(self).phase() is Initialized ==> old(self).base() <= addr && addr + size <= old(self).base() + old(self).frames().len() * PAGE_FRAME_SIZE
                    &&& final(self).deallocations() == old(self).deallocations()
                    &&& final(self).frames_deallocated() == old(self).frames_deallocated()
                    &&& final(self).bump_end() == old(self).bump_end()
                    &&& if old(self).phase() is Setup {
                        &&& addr == align_up(old(self).bump_start())
                        &&& final(self).bump_start() == addr + frames_needed(size as int, align as int)
                            * PAGE_FRAME_SIZE
                        &&& final(self).allocations() == old(self).allocations()
                        &&& final(self).frames_allocated() == old(self).frames_allocated()
                    } else {
                        &&& final(self).allocations() == saturated(old(self).allocations() + 1)
                        &&& match class_for(block_need(size as int, align as int)) {
                            Some(class) => {
                                &&& cell_granted(
                                    old(self).slabs(),
                                    old(self).base(),
                                    old(self).frames(),
                                    class,
                                    addr as int,
                                    final(self).slabs(),
                                    final(self).frames(),
                                )
                                &&& final(self).frames_allocated() == saturated(
                                    old(self).frames_allocated() + final(self).slabs().len() - old(self).slabs().len(),
                                )
                            },
                            None => {
                                &&& run_granted(
                                    old(self).base(),
                                    old(self).frames(),
                                    frames_needed(size as int, align as int),
                                    addr as int,
                                    final(self).frames(),
                                )
                                &&& final(self).slabs() == old(self).slabs()
                                &&& final(self).frames_allocated() == saturated(
                                    old(self).frames_allocated() + frames_needed(size as int, align as int),
                                )
                            },
                        }
                    }
                },
                Err(e) => {
                    &&& old(self).allocate_error(size as int, align as int) == Some(e)
                    &&& same_state(*old(self), *final(self))
                },
            },
    {
        match &mut self.state {
            KernelAllocatorState::Deinitialized => Err(KernelError::InvalidState),
            KernelAllocatorState::SetupState { dummy_allocator } => {
                if !align_supported(align) {
                    return Err(KernelError::Unsupported);
                }
                let frames: usize = frames_for(size, align);
                let granted = dummy_allocator.allocate(frames);
                proof {
                    if granted is Ok {
                        lemma_aligned(granted->Ok_0 as int, 4096, align as int);
                    }
                }
                granted
            },
            KernelAllocatorState::Initialized { frame_allocator, subblock_allocators } => {
                if !align_supported(align) {
                    return Err(KernelError::Unsupported);
                }
                let need: usize = if size >= align { size } else { align };
                let ghost frames_before = frame_allocator.frames();
                let ghost base = frame_allocator.base();
                let ghost slabs = subblock_allocators@;
                proof {
                    frame_allocator.lemma_wf();
                }
                match size_class(need) {
                    Some(class) => {
                        let slabs_before: usize = subblock_allocators.slab_count();
                        match subblock_allocators.allocate_cell(class, &mut frame_allocator.frame_allocator) {
                            Ok(addr) => {
                                let slabs_after: usize = subblock_allocators.slab_count();
                                proof {
                                    if slabs_after != slabs_before {
                                        let index = (addr - base) / (PAGE_FRAME_SIZE as int);
                                        lemma_marked_counts(frames_before, index, 1);
                                    }
                                    lemma_granted_cell(
                                        slabs,
                                        base,
                                        frames_before,
                                        class as int,
                                        addr as int,
                                        subblock_allocators@,
                                        frame_allocator.frames(),
                                    );
                                    lemma_aligned(addr as int, class_size(class as int), align as int);
                                }
                                let taken: usize = slabs_after - slabs_before;
                                self.total_num_allocations = self.total_num_allocations.saturating_add(1);
                                self.total_num_frames_allocated = self.total_num_frames_allocated.saturating_add(
                                    taken,
                                );
                                Ok(addr)
                            },
                            Err(e) => Err(e),
                        }
                    },
                    None => {
                        let frames: usize = frames_for(size, align);
                        match frame_allocator.allocate(frames) {
                            Ok(addr) => {
                                proof {
                                    let index = (addr - base) / (PAGE_FRAME_SIZE as int);
                                    lemma_marked_counts(frames_before, index, frames as int);
                                    lemma_aligned(addr as int, 4096, align as int);
                                }
                                self.total_num_allocations = self.total_num_allocations.saturating_add(1);
                                self.total_num_frames_allocated = self.total_num_frames_allocated.saturating_add(
                                    frames,
                                );
                                Ok(addr)
                            },
                            Err(e) => Err(e),
                        }
                    },
                }
            },
        }
    }

    /// The block at address `ptr` that a request for `size` bytes aligned
    /// to `align` got is still handed out: as a cell of its size class, or,
    /// for a large request, as a run of frames.
    pub open spec fn block_outstanding(&self, ptr: int, size: int, align: int) -> bool {
        match class_for(block_need(size, align)) {
            Some(class) => block_live(self.slabs(), class, ptr),
            None => self.direct_run(ptr),
        }
    }

    /// Takes back the block at address `ptr` that a request for `size`
    /// bytes aligned to `align` got. The result says whether there was such
    /// a block; an address that names none changes nothing. Fails with
    /// `InvalidState` unless the allocator is `Initialized`.
    ///
    /// A slab whose cells are all free again gives its frame back to the
    /// frame allocator at once.
    #[verifier::rlimit(40)]
    pub fn dealloc(&mut self, ptr: usize, size: usize, align: usize) -> (taken: Result<bool, KernelError>)
        requires
            old(self).wf(),
        ensures
            final(self).wf(),
            final(self).phase() == old(self).phase(),
            final(self).base() == old(self).base(),
            final(self).frames().len() == old(self).frames().len(),
            match taken {
                Ok(released) => {
                    &&& old(self).phase() is Initialized
                    &&& released == old(self).block_outstanding(ptr as int, size as int, align as int)
                    &&& if released {
                        &&& final(self).allocations() == old(self).allocations()
                        &&& final(self).frames_allocated() == old(self).frames_allocated()
                        &&& final(self).deallocations() == saturated(old(self).deallocations() + 1)
                        &&& match class_for(block_need(size as int, align as int)) {
                            Some(class) => {
                                &&& cell_returned(
                                    old(self).slabs(),
                                    old(self).base(),
                                    old(self).frames(),
                                    class,
                                    ptr as int,
                                    final(self).slabs(),
                                    final(self).frames(),
                                    old(self).slabs().len() - final(self).slabs().len(),
                                )
                                &&& final(self).frames_deallocated() == saturated(
                                    old(self).frames_deallocated() + old(self).slabs().len() - final(self).slabs().len(),
                                )
                            },
                            None => {
                                &&& final(self).frames() == released_at(
                                    old(self).base(),
                                    old(self).frames(),
                                    ptr as int,
                                )
                                &&& final(self).slabs() == old(self).slabs()
                                &&& final(self).frames_deallocated() == saturated(
                                    old(self).frames_deallocated() + run_length_at(
                                        old(self).base(),
                                        old(self).frames(),
                                        ptr as int,
                                    ),
                                )
                            },
                        }
                    } else {
                        same_state(*old(self), *final(self))
                    }
                },
                Err(e) => {
                    &&& e == KernelError::InvalidState
                    &&& !(old(self).phase() is Initialized)
                    &&& same_state(*old(self), *final(self))
                },
            },
    {
        match &mut self.state {
            KernelAllocatorState::Initialized { frame_allocator, subblock_allocators } => {
                let need: usize = if size >= align { size } else { align };
                let ghost frames_before = frame_allocator.frames();
                let ghost base = frame_allocator.base();
                proof {
                    frame_allocator.lemma_wf();
                }
                match size_class(need) {
                    Some(class) => {
                        match subblock_allocators.deallocate_cell(class, ptr, &mut frame_allocator.frame_allocator) {
                            Some(given_back) => {
                                proof {
                                    if given_back == 1 {
                                        let i = choose|i: int| crate::mem::subblock_allocator::slab_of(
                                            old(self).slabs(),
                                            ptr as int,
                                            i,
                                        );
                                        let index = (old(self).slabs()[i].frame - base) / (
                                        PAGE_FRAME_SIZE as int);
                                        lemma_freed_counts(frames_before, index);
                                    }
                                }
                                self.total_num_deallocations = self.total_num_deallocations.saturating_add(1);
                                self.total_num_frames_deallocated =
                                self.total_num_frames_deallocated.saturating_add(given_back);
                                Ok(true)
                            },
                            None => Ok(false),
                        }
                    },
                    None => {
                        if subblock_allocators.owns_frame(ptr) {
                            proof {
                                let i = choose|i: int| 0 <= i < subblock_allocators@.len() && (
                                #[trigger] subblock_allocators@[i]).frame == ptr;
                                assert(old(self).slabs()[i].frame == ptr);
                            }
                            return Ok(false);
                        }
                        let n: usize = frame_allocator.dealloc(ptr);
                        if n == 0 {
                            assert(frame_allocator.frames() == frames_before);
                            return Ok(false);
                        }
                        proof {
                            let index = frame_index(base, frames_before.len() as int, ptr as int)->0;
                            lemma_freed_counts(frames_before, index);
                            lemma_release_keeps_slabs(subblock_allocators@, base, frames_before, index);
                        }
                        self.total_num_deallocations = self.total_num_deallocations.saturating_add(1);
                        self.total_num_frames_deallocated = self.total_num_frames_deallocated.saturating_add(n);
                        Ok(true)
                    },
                }
            },
            _ => Err(KernelError::InvalidState),
        }
    }

    /// Why `deinit` would fail, if it would: the allocator is not
    /// `Initialized`, or the counters of what was handed out and of what
    /// came back differ.
    pub open spec fn deinit_error(&self) -> Option<KernelError> {
        if !(self.phase() is Initialized) {
            Some(KernelError::InvalidState)
        } else if self.allocations() != self.deallocations() || self.frames_allocated()
            != self.frames_deallocated() {
            Some(KernelError::Leak)
        } else {
            None
        }
    }

    /// Shuts the allocator down: it becomes `Deinitialized`, for good. A
    /// failed call changes nothing.
    pub fn deinit(&mut self) -> (done: Result<(), KernelError>)
        requires
            old(self).wf(),
        ensures
            final(self).wf(),
            match done {
                Ok(_) => {
                    &&& old(self).deinit_error() is None
                    &&& final(self).phase() is Deinitialized
                    &&& final(self).allocations() == old(self).allocations()
                    &&& final(self).deallocations() == old(self).deallocations()
                    &&& final(self).frames_allocated() == old(self).frames_allocated()
                    &&& final(self).frames_deallocated() == old(self).frames_deallocated()
                },
                Err(e) => old(self).deinit_error() == Some(e) && same_state(*old(self), *final(self)),
            },
    {
        match &self.state {
            KernelAllocatorState::Initialized { .. } => {},
            _ => {
                return Err(KernelError::InvalidState);
            },
        }
        if self.total_num_allocations != self.total_num_deallocations || self.total_num_frames_allocated
            != self.total_num_frames_deallocated {
            return Err(KernelError::Leak);
        }
        self.state = KernelAllocatorState::Deinitialized;
        Ok(())
    }
}

impl KernelAllocator {
    /// The counters of frames balance: unless the counter of frames
    /// handed out has reached `usize::MAX`, the frames handed out are
    /// those given back plus those that are allocated now. So when no run
    /// is outstanding, every frame is free and the two counters are equal.
    pub proof fn lemma_frames_balance(&self)
        requires
            self.wf(),
            self.phase() is Initialized,
            self.frames_allocated() < usize::MAX,
        ensures
            self.frames_allocated() == self.frames_deallocated() + allocated_frames(self.frames()),
            (forall|i: int| !is_run_start(self.frames(), i)) ==> {
                &&& self.frames_allocated() == self.frames_deallocated()
                &&& forall|j: int| 0 <= j < self.frames().len() ==> !(#[trigger] self.frames()[j]).allocated
            },
    {
        self.lemma_wf();
        lemma_count_bounds(self.frames());
        if forall|i: int| !is_run_start(self.frames(), i) {
            crate::mem::frame_allocator::lemma_no_run_all_free(self.frames());
        }
    }
}

/// Releasing a run on which no slab lies leaves every slab on its frame.
proof fn lemma_release_keeps_slabs(slabs: Seq<Slab>, base: int, frames: Seq<CoreMapEntry>, index: int)
    requires
        core_map_wf(frames),
        slabs_backed(slabs, base, frames),
        is_run_start(frames, index),
        base % (PAGE_FRAME_SIZE as int) == 0,
        forall|i: int| 0 <= i < slabs.len() ==> (#[trigger] slabs[i]).frame != frame_address(base, index),
    ensures
        slabs_backed(slabs, base, freed(frames, index)),
{
    let after = freed(frames, index);
    assert forall|i: int| 0 <= i < slabs.len() implies {
        let at = ((#[trigger] slabs[i]).frame - base) / (PAGE_FRAME_SIZE as int);
        &&& frame_index(base, after.len() as int, slabs[i].frame as int) == Some(at)
        &&& is_run_start(after, at)
        &&& after[at].run_length == 1
    } by {
        let at = (slabs[i].frame - base) / (PAGE_FRAME_SIZE as int);
        assert(is_run_start(frames, at));
        assert(slabs[i].frame == base + at * PAGE_FRAME_SIZE);
        assert(at != index);
        if index < at < index + frames[index].run_length {
            assert(crate::mem::frame_allocator::in_run(frames, index, at));
        }
    }
}

} // verus!
