use vstd::prelude::*;
use crate::error::KernelError;

verus! {

/// Size in bytes of one frame of physical memory.
pub const PAGE_FRAME_SIZE: usize = 4096;

/// What the allocator records about one frame.
///
/// `run_length` is the number of frames of an allocation, kept on its first
/// frame only; every other frame carries 0.
#[derive(Clone, Copy, Debug, PartialEq, Eq, Structural)]
pub struct CoreMapEntry {
    pub allocated: bool,
    pub run_length: usize,
}

/// The entry of a free frame.
pub open spec fn free_entry() -> CoreMapEntry {
    CoreMapEntry { allocated: false, run_length: 0 }
}

/// Frame `i` is the first frame of an allocated run.
pub open spec fn is_run_start(s: Seq<CoreMapEntry>, i: int) -> bool {
    0 <= i < s.len() && s[i].allocated && s[i].run_length > 0
}

/// Frame `j` belongs to the run that starts at frame `i`.
pub open spec fn in_run(s: Seq<CoreMapEntry>, i: int, j: int) -> bool {
    is_run_start(s, i) && i <= j < i + s[i].run_length
}

/// The invariant of a core map: free frames carry no length, every run lies
/// inside the map and is allocated throughout with its length on the first
/// frame only, and every allocated frame belongs to a run.
pub open spec fn core_map_wf(s: Seq<CoreMapEntry>) -> bool {
    &&& forall|i: int| 0 <= i < s.len() && !(#[trigger] s[i]).allocated ==> s[i].run_length == 0
    &&& forall|i: int| #[trigger] is_run_start(s, i) ==> i + s[i].run_length <= s.len()
    &&& forall|i: int, j: int| #[trigger] in_run(s, i, j) && i < j ==> s[j].allocated && s[j].run_length == 0
    &&& forall|j: int| 0 <= j < s.len() && (#[trigger] s[j]).allocated ==> exists|i: int| in_run(s, i, j)
}

/// The `n` frames from `start` on lie inside the map and are all free.
pub open spec fn range_free(s: Seq<CoreMapEntry>, start: int, n: int) -> bool {
    &&& 0 <= start
    &&& start + n <= s.len()
    &&& forall|j: int| start <= j < start + n ==> !(#[trigger] s[j]).allocated
}

/// A run of `n` frames can be placed at `start`. A run has at least one frame.
pub open spec fn fits(s: Seq<CoreMapEntry>, n: int, start: int) -> bool {
    n >= 1 && range_free(s, start, n)
}

/// `start` is the lowest place where a run of `n` frames can be put.
pub open spec fn is_first_fit(s: Seq<CoreMapEntry>, n: int, start: int) -> bool {
    fits(s, n, start) && forall|k: int| 0 <= k < start ==> !#[trigger] fits(s, n, k)
}

/// There is no place for a run of `n` frames.
pub open spec fn no_fit(s: Seq<CoreMapEntry>, n: int) -> bool {
    forall|k: int| !#[trigger] fits(s, n, k)
}

/// There is only one lowest place for a run.
pub proof fn lemma_first_fit_unique(s: Seq<CoreMapEntry>, n: int, a: int, b: int)
    requires
        is_first_fit(s, n, a),
        is_first_fit(s, n, b),
    ensures
        a == b,
{
    if a < b {
        assert(fits(s, n, a));
    } else if b < a {
        assert(fits(s, n, b));
    }
}

/// The frame at which a request for `n` frames is placed, if it is placed.
pub open spec fn placement(s: Seq<CoreMapEntry>, n: int) -> Option<int> {
    if exists|i: int| is_first_fit(s, n, i) {
        Some(choose|i: int| is_first_fit(s, n, i))
    } else {
        None
    }
}

/// The map after a request for `n` frames: the run is marked where it
/// was placed, and nothing changes where it was not.
pub open spec fn after_request(s: Seq<CoreMapEntry>, n: int) -> Seq<CoreMapEntry> {
    match placement(s, n) {
        Some(index) => marked(s, index, n),
        None => s,
    }
}

/// A request that is placed at `index` has that placement, and one for
/// which there is no place has none.
pub proof fn lemma_placement(s: Seq<CoreMapEntry>, n: int, index: int)
    ensures
        is_first_fit(s, n, index) ==> placement(s, n) == Some(index),
        no_fit(s, n) ==> placement(s, n) is None,
        placement(s, n) is Some ==> is_first_fit(s, n, placement(s, n)->0),
{
    if is_first_fit(s, n, index) {
        let chosen = choose|i: int| is_first_fit(s, n, i);
        lemma_first_fit_unique(s, n, index, chosen);
    }
    if no_fit(s, n) {
        if exists|i: int| is_first_fit(s, n, i) {
            let chosen = choose|i: int| is_first_fit(s, n, i);
            assert(fits(s, n, chosen));
        }
    }
}

/// The map after the `n` frames from `start` on became one allocated run.
pub open spec fn marked(s: Seq<CoreMapEntry>, start: int, n: int) -> Seq<CoreMapEntry> {
    Seq::new(
        s.len(),
        |j: int|
            if start <= j < start + n {
                CoreMapEntry { allocated: true, run_length: if j == start { n as usize } else { 0 } }
            } else {
                s[j]
            },
    )
}

/// The map after the run that starts at `start` was released. A frame that
/// starts no run leaves the map as it is.
pub open spec fn freed(s: Seq<CoreMapEntry>, start: int) -> Seq<CoreMapEntry> {
    if is_run_start(s, start) {
        Seq::new(
            s.len(),
            |j: int| if start <= j < start + s[start].run_length { free_entry() } else { s[j] },
        )
    } else {
        s
    }
}

/// Marking a free range keeps the invariant of the core map.
pub proof fn lemma_marked_wf(s: Seq<CoreMapEntry>, start: int, n: int)
    requires
        core_map_wf(s),
        fits(s, n, start),
        n <= usize::MAX,
    ensures
        core_map_wf(marked(s, start, n)),
        is_run_start(marked(s, start, n), start),
        marked(s, start, n).len() == s.len(),
{
    let t = marked(s, start, n);
    assert forall|i: int| #[trigger] is_run_start(t, i) implies i + t[i].run_length <= t.len() by {
        if i != start {
            assert(is_run_start(s, i));
        }
    }
    assert forall|i: int, j: int| #[trigger] in_run(t, i, j) && i < j implies t[j].allocated
        && t[j].run_length == 0 by {
        if i != start {
            assert(in_run(s, i, j));
            assert(is_run_start(s, i));
            if start <= j < start + n {
                assert(!s[j].allocated);
            }
        }
    }
    assert forall|j: int| 0 <= j < t.len() && (#[trigger] t[j]).allocated implies exists|i: int|
        in_run(t, i, j) by {
        if start <= j < start + n {
            assert(in_run(t, start, j));
        } else {
            assert(s[j].allocated);
            let i = choose|i: int| in_run(s, i, j);
            assert(s[i].allocated);
            assert(in_run(t, i, j));
        }
    }
}

/// Releasing a run keeps the invariant of the core map.
pub proof fn lemma_freed_wf(s: Seq<CoreMapEntry>, start: int)
    requires
        core_map_wf(s),
    ensures
        core_map_wf(freed(s, start)),
        freed(s, start).len() == s.len(),
{
    let t = freed(s, start);
    if is_run_start(s, start) {
        let n = s[start].run_length as int;
        assert forall|i: int| #[trigger] is_run_start(t, i) implies i + t[i].run_length <= t.len() by {
            assert(is_run_start(s, i));
        }
        assert forall|i: int, j: int| #[trigger] in_run(t, i, j) && i < j implies t[j].allocated
            && t[j].run_length == 0 by {
            assert(is_run_start(s, i));
            assert(in_run(s, i, j));
            if start <= j < start + n {
                // frame j would lie in two runs
                if start < j {
                    assert(in_run(s, start, j));
                }
                if i < start {
                    assert(in_run(s, i, start));
                }
            }
        }
        assert forall|j: int| 0 <= j < t.len() && (#[trigger] t[j]).allocated implies exists|i: int|
            in_run(t, i, j) by {
            assert(s[j].allocated);
            let i = choose|i: int| in_run(s, i, j);
            if start <= i < start + n {
                if start < i {
                    assert(in_run(s, start, i));
                }
            }
            assert(in_run(t, i, j));
        }
    }
}

/// Two runs that are outstanding at the same time share no frame.
pub proof fn lemma_runs_disjoint(s: Seq<CoreMapEntry>, a: int, b: int)
    requires
        core_map_wf(s),
        is_run_start(s, a),
        is_run_start(s, b),
        a != b,
    ensures
        a + s[a].run_length <= b || b + s[b].run_length <= a,
{
    if a < b && b < a + s[a].run_length {
        assert(in_run(s, a, b));
    }
    if b < a && a < b + s[b].run_length {
        assert(in_run(s, b, a));
    }
}

/// Allocating a run and releasing it again leaves the core map as it was.
pub proof fn lemma_mark_then_free(s: Seq<CoreMapEntry>, start: int, n: int)
    requires
        core_map_wf(s),
        fits(s, n, start),
        n <= usize::MAX,
    ensures
        freed(marked(s, start, n), start) == s,
{
    let t = marked(s, start, n);
    assert(is_run_start(t, start));
    assert(freed(t, start) =~= s);
}

/// A core map without a run has no allocated frame.
pub proof fn lemma_no_run_all_free(s: Seq<CoreMapEntry>)
    requires
        core_map_wf(s),
        forall|i: int| !is_run_start(s, i),
    ensures
        forall|j: int| 0 <= j < s.len() ==> !(#[trigger] s[j]).allocated,
{
    assert forall|j: int| 0 <= j < s.len() implies !(#[trigger] s[j]).allocated by {
        if s[j].allocated {
            let i = choose|i: int| in_run(s, i, j);
            assert(is_run_start(s, i));
        }
    }
}

/// Per-frame records of a region of memory, indexed by frame number.
pub struct CoreMap {
    entries: Vec<CoreMapEntry>,
}

impl View for CoreMap {
    type V = Seq<CoreMapEntry>;

    closed spec fn view(&self) -> Seq<CoreMapEntry> {
        self.entries@
    }
}

impl CoreMap {
    /// A core map of `frames` free frames.
    pub fn new(frames: usize) -> (map: CoreMap)
        ensures
            map@.len() == frames,
            forall|i: int| 0 <= i < frames ==> map@[i] == free_entry(),
            core_map_wf(map@),
    {
        let mut entries: Vec<CoreMapEntry> = Vec::new();
        let mut i: usize = 0;
        while i < frames
            invariant
                i <= frames,
                entries@.len() == i,
                forall|k: int| 0 <= k < i ==> entries@[k] == free_entry(),
            decreases frames - i,
        {
            entries.push(CoreMapEntry { allocated: false, run_length: 0 });
            i += 1;
        }
        CoreMap { entries }
    }

    /// Number of frames the map describes.
    pub fn len(&self) -> (n: usize)
        ensures
            n == self@.len(),
    {
        self.entries.len()
    }

    /// The record of frame `index`.
    pub fn entry(&self, index: usize) -> (e: CoreMapEntry)
        requires
            index < self@.len(),
        ensures
            e == self@[index as int],
    {
        self.entries[index]
    }

    /// Turns the `n` free frames from `start` on into one allocated run:
    /// all of them become allocated and `start` records the length.
    pub fn mark_allocated(&mut self, start: usize, n: usize)
        requires
            core_map_wf(old(self)@),
            fits(old(self)@, n as int, start as int),
        ensures
            final(self)@ == marked(old(self)@, start as int, n as int),
            core_map_wf(final(self)@),
    {
        let len: usize = self.entries.len();
        assert(start + n <= len);
        let end: usize = start + n;
        let mut j: usize = start;
        while j < end
            invariant
                start <= j <= end,
                end == start + n,
                end <= self.entries@.len(),
                self.entries@.len() == old(self)@.len(),
                forall|k: int| 0 <= k < start || j <= k < self.entries@.len() ==> self.entries@[k] == old(self)@[k],
                forall|k: int| start <= k < j ==> self.entries@[k] == marked(old(self)@, start as int, n as int)[k],
            decreases end - j,
        {
            self.entries[j] = CoreMapEntry { allocated: true, run_length: if j == start { n } else { 0 } };
            j += 1;
        }
        proof {
            assert(self.entries@ =~= marked(old(self)@, start as int, n as int));
            lemma_marked_wf(old(self)@, start as int, n as int);
        }
    }

    /// Releases the run that starts at frame `start` and returns its number
    /// of frames. Where `start` begins no run, nothing changes and 0 comes
    /// back.
    pub fn mark_free(&mut self, start: usize) -> (n: usize)
        requires
            core_map_wf(old(self)@),
            start < old(self)@.len(),
        ensures
            final(self)@ == freed(old(self)@, start as int),
            core_map_wf(final(self)@),
            n == if is_run_start(old(self)@, start as int) { old(self)@[start as int].run_length } else { 0 },
    {
        let first: CoreMapEntry = self.entries[start];
        if !first.allocated {
            return 0;
        }
        let n: usize = first.run_length;
        if n == 0 {
            return 0;
        }
        let len: usize = self.entries.len();
        assert(is_run_start(self@, start as int));
        assert(start + n <= len);
        let end: usize = start + n;
        let mut j: usize = start;
        while j < end
            invariant
                start <= j <= end,
                end == start + n,
                end <= self.entries@.len(),
                self.entries@.len() == old(self)@.len(),
                forall|k: int| 0 <= k < start || j <= k < self.entries@.len() ==> self.entries@[k] == old(self)@[k],
                forall|k: int| start <= k < j ==> self.entries@[k] == free_entry(),
            decreases end - j,
        {
            self.entries[j] = CoreMapEntry { allocated: false, run_length: 0 };
            j += 1;
        }
        proof {
            assert(self.entries@ =~= freed(old(self)@, start as int));
            lemma_freed_wf(old(self)@, start as int);
        }
        n
    }

    /// First-fit search: the lowest frame from which `n` frames in a row are
    /// free. A request for no frames finds nothing.
    pub fn find_free_run(&self, n: usize) -> (found: Result<usize, KernelError>)
        ensures
            match found {
                Ok(start) => is_first_fit(self@, n as int, start as int),
                Err(e) => e == KernelError::OutOfMemory && no_fit(self@, n as int),
            },
    {
        if n == 0 {
            return Err(KernelError::OutOfMemory);
        }
        let len: usize = self.entries.len();
        let mut i: usize = 0;
        let mut run: usize = 0;
        while i < len
            invariant
                n >= 1,
                len == self.entries@.len(),
                run <= i <= len,
                run < n,
                forall|k: int| i - run <= k < i ==> !(#[trigger] self.entries@[k]).allocated,
                forall|k: int| 0 <= k < i - run ==> !#[trigger] fits(self@, n as int, k),
            decreases len - i,
        {
            if self.entries[i].allocated {
                proof {
                    assert forall|k: int| 0 <= k < i + 1 implies !#[trigger] fits(self@, n as int, k) by {
                        if k >= i - run {
                            if fits(self@, n as int, k) {
                                assert(!self@[i as int].allocated);
                            }
                        }
                    }
                }
                run = 0;
            } else {
                run += 1;
                if run == n {
                    return Ok(i + 1 - n);
                }
            }
            i += 1;
        }
        proof {
            assert forall|k: int| !#[trigger] fits(self@, n as int, k) by {
                if k >= len - run {
                }
            }
        }
        Err(KernelError::OutOfMemory)
    }
}

/// The lowest multiple of the frame size that is not below `addr`.
pub open spec fn align_up(addr: int) -> int {
    ((addr + PAGE_FRAME_SIZE - 1) / (PAGE_FRAME_SIZE as int)) * PAGE_FRAME_SIZE
}

/// Bump allocator for the time before the frame allocator exists. It hands
/// out whole frames from the front of a byte range and never takes any back.
pub struct DummyAllocatorSolution {
    start_address: usize,
    end_address: usize,
}

impl DummyAllocatorSolution {
    /// First byte that has not been handed out.
    pub closed spec fn start(&self) -> int {
        self.start_address as int
    }

    /// End of the range, exclusive.
    pub closed spec fn end(&self) -> int {
        self.end_address as int
    }

    /// A bump allocator over the bytes from `start` to `end`.
    pub fn new_in(start: usize, end: usize) -> (dummy: DummyAllocatorSolution)
        ensures
            dummy.start() == start,
            dummy.end() == end,
    {
        DummyAllocatorSolution { start_address: start, end_address: end }
    }

    /// First byte that has not been handed out.
    pub fn get_start_address(&self) -> (addr: usize)
        ensures
            addr == self.start(),
    {
        self.start_address
    }

    /// End of the range, exclusive.
    pub fn get_end_address(&self) -> (addr: usize)
        ensures
            addr == self.end(),
    {
        self.end_address
    }

    /// Moves the start of the range to `start`.
    pub fn set_start_address(&mut self, start: usize)
        ensures
            final(self).start() == start,
            final(self).end() == old(self).end(),
    {
        self.start_address = start;
    }

    /// Moves the end of the range to `end`.
    pub fn set_end_address(&mut self, end: usize)
        ensures
            final(self).start() == old(self).start(),
            final(self).end() == end,
    {
        self.end_address = end;
    }

    /// Hands out `frames_requested` frames. The start of the range is first
    /// moved up to a frame boundary; the frames are granted if they end at
    /// or before the end of the range, and the start then moves past them.
    /// Otherwise nothing changes.
    pub fn allocate(&mut self, frames_requested: usize) -> (region: Result<usize, KernelError>)
        ensures
            final(self).end() == old(self).end(),
            match region {
                Ok(addr) => {
                    &&& addr == align_up(old(self).start())
                    &&& addr % PAGE_FRAME_SIZE == 0
                    &&& addr + frames_requested * PAGE_FRAME_SIZE <= old(self).end()
                    &&& final(self).start() == addr + frames_requested * PAGE_FRAME_SIZE
                },
                Err(e) => {
                    &&& e == KernelError::OutOfMemory
                    &&& align_up(old(self).start()) + frames_requested * PAGE_FRAME_SIZE > old(self).end()
                    &&& final(self).start() == old(self).start()
                },
            },
    {
        let rem: usize = self.start_address % PAGE_FRAME_SIZE;
        let pad: usize = if rem == 0 { 0 } else { PAGE_FRAME_SIZE - rem };
        assert(self.start_address + pad == align_up(self.start_address as int));
        let aligned: usize = match self.start_address.checked_add(pad) {
            Some(a) => a,
            None => { return Err(KernelError::OutOfMemory); },
        };
        let bytes: usize = match frames_requested.checked_mul(PAGE_FRAME_SIZE) {
            Some(b) => b,
            None => { return Err(KernelError::OutOfMemory); },
        };
        let new_start: usize = match aligned.checked_add(bytes) {
            Some(a) => a,
            None => { return Err(KernelError::OutOfMemory); },
        };
        if new_start > self.end_address {
            return Err(KernelError::OutOfMemory);
        }
        self.start_address = new_start;
        Ok(aligned)
    }
}

/// Frame number of the frame at address `ptr` in a region of `frames`
/// frames that starts at `base`, where `ptr` is the first byte of one.
pub open spec fn frame_index(base: int, frames: int, ptr: int) -> Option<int> {
    if ptr >= base && (ptr - base) % (PAGE_FRAME_SIZE as int) == 0 && (ptr - base) / (
    PAGE_FRAME_SIZE as int) < frames {
        Some((ptr - base) / (PAGE_FRAME_SIZE as int))
    } else {
        None
    }
}

/// Address of the first byte of frame `index` in a region that starts at `base`.
pub open spec fn frame_address(base: int, index: int) -> int {
    base + index * PAGE_FRAME_SIZE
}

/// What allocating `n` frames does: `ptr` is the address of the lowest
/// frame from which `n` frames in a row were free, and those frames have
/// become one run. The address is a multiple of the frame size and the
/// run lies inside the region.
pub open spec fn run_granted(
    base: int,
    frames: Seq<CoreMapEntry>,
    n: int,
    ptr: int,
    frames_after: Seq<CoreMapEntry>,
) -> bool {
    let index = (ptr - base) / (PAGE_FRAME_SIZE as int);
    &&& ptr == frame_address(base, index)
    &&& is_first_fit(frames, n, index)
    &&& frames_after == marked(frames, index, n)
    &&& ptr % (PAGE_FRAME_SIZE as int) == 0
    &&& base <= ptr
    &&& ptr + n * PAGE_FRAME_SIZE <= base + frames.len() * PAGE_FRAME_SIZE
}

/// Number of frames of the run that starts at address `ptr`; 0 where no
/// run starts there.
pub open spec fn run_length_at(base: int, frames: Seq<CoreMapEntry>, ptr: int) -> int {
    match frame_index(base, frames.len() as int, ptr) {
        Some(index) => if is_run_start(frames, index) {
            frames[index].run_length as int
        } else {
            0
        },
        None => 0,
    }
}

/// The records after the run that starts at address `ptr` was released;
/// the records as they are where no run starts there.
pub open spec fn released_at(base: int, frames: Seq<CoreMapEntry>, ptr: int) -> Seq<CoreMapEntry> {
    match frame_index(base, frames.len() as int, ptr) {
        Some(index) => freed(frames, index),
        None => frames,
    }
}

/// First-fit allocator of runs of frames over one region of memory.
pub struct FrameAllocatorSolution {
    start: usize,
    core_map: CoreMap,
    num_frames: usize,
}

impl FrameAllocatorSolution {
    /// Address of the first managed frame.
    pub closed spec fn base(&self) -> int {
        self.start as int
    }

    /// The per-frame records.
    pub closed spec fn frames(&self) -> Seq<CoreMapEntry> {
        self.core_map@
    }

    /// The region starts at a frame boundary above address 0 and ends
    /// inside the address space; the core map has one sound record per frame.
    pub closed spec fn wf(&self) -> bool {
        &&& self.start > 0
        &&& self.start % PAGE_FRAME_SIZE == 0
        &&& self.core_map@.len() == self.num_frames
        &&& self.start + self.num_frames * PAGE_FRAME_SIZE <= usize::MAX
        &&& core_map_wf(self.core_map@)
    }

    /// What `wf` says, for callers outside this file.
    pub proof fn lemma_wf(&self)
        requires
            self.wf(),
        ensures
            self.base() > 0,
            self.base() % (PAGE_FRAME_SIZE as int) == 0,
            self.base() + self.frames().len() * PAGE_FRAME_SIZE <= usize::MAX,
            core_map_wf(self.frames()),
    {
    }

    /// An allocator for the `num_frames_in_system` frames from `start` on,
    /// which keeps its records in `core_map`.
    pub fn new_in(start: usize, core_map: CoreMap, num_frames_in_system: usize) -> (allocator:
        FrameAllocatorSolution)
        requires
            start > 0,
            start % PAGE_FRAME_SIZE == 0,
            core_map@.len() == num_frames_in_system,
            start + num_frames_in_system * PAGE_FRAME_SIZE <= usize::MAX,
            core_map_wf(core_map@),
        ensures
            allocator.wf(),
            allocator.base() == start,
            allocator.frames() == core_map@,
    {
        FrameAllocatorSolution { start, core_map, num_frames: num_frames_in_system }
    }

    /// Address of the first managed frame.
    pub fn start_address(&self) -> (addr: usize)
        ensures
            addr == self.base(),
    {
        self.start
    }

    /// Number of managed frames.
    pub fn num_frames(&self) -> (n: usize)
        requires
            self.wf(),
        ensures
            n == self.frames().len(),
    {
        self.num_frames
    }

    /// The record of frame `index`.
    pub fn entry(&self, index: usize) -> (e: CoreMapEntry)
        requires
            self.wf(),
            index < self.frames().len(),
        ensures
            e == self.frames()[index as int],
    {
        self.core_map.entry(index)
    }

    /// Where a run of `n` frames would be placed now.
    pub fn find_free_run(&self, n: usize) -> (found: Result<usize, KernelError>)
        requires
            self.wf(),
        ensures
            match found {
                Ok(start) => is_first_fit(self.frames(), n as int, start as int),
                Err(e) => e == KernelError::OutOfMemory && no_fit(self.frames(), n as int),
            },
    {
        self.core_map.find_free_run(n)
    }

    /// Allocates `frames_requested` frames in a row, at the lowest place
    /// where they fit, and returns the address of the first. A request for
    /// no frames always fails.
    pub fn allocate(&mut self, frames_requested: usize) -> (region: Result<usize, KernelError>)
        requires
            old(self).wf(),
        ensures
            final(self).wf(),
            final(self).base() == old(self).base(),
            final(self).frames().len() == old(self).frames().len(),
            frames_requested == 0 || frames_requested > old(self).frames().len() ==> region is Err,
            final(self).frames() == after_request(old(self).frames(), frames_requested as int),
            match region {
                Ok(ptr) => run_granted(
                    old(self).base(),
                    old(self).frames(),
                    frames_requested as int,
                    ptr as int,
                    final(self).frames(),
                ),
                Err(e) => {
                    &&& e == KernelError::OutOfMemory
                    &&& no_fit(old(self).frames(), frames_requested as int)
                    &&& final(self).frames() == old(self).frames()
                },
            },
    {
        match self.core_map.find_free_run(frames_requested) {
            Ok(index) => {
                proof {
                    lemma_placement(self.core_map@, frames_requested as int, index as int);
                }
                self.core_map.mark_allocated(index, frames_requested);
                let ptr: usize = self.start + index * PAGE_FRAME_SIZE;
                Ok(ptr)
            },
            Err(e) => {
                proof {
                    lemma_placement(self.core_map@, frames_requested as int, 0);
                    if frames_requested > self.core_map@.len() {
                        assert(!fits(self.core_map@, frames_requested as int, 0));
                    }
                }
                Err(e)
            },
        }
    }

    /// The frame number that `ptr` stands for, if it is the address of a
    /// managed frame.
    pub fn index_of(&self, ptr: usize) -> (index: Option<usize>)
        requires
            self.wf(),
        ensures
            match index {
                Some(i) => frame_index(self.base(), self.frames().len() as int, ptr as int) == Some(i as int),
                None => frame_index(self.base(), self.frames().len() as int, ptr as int) is None,
            },
    {
        if ptr < self.start {
            return None;
        }
        let offset: usize = ptr - self.start;
        if offset % PAGE_FRAME_SIZE != 0 {
            return None;
        }
        let index: usize = offset / PAGE_FRAME_SIZE;
        if index >= self.num_frames {
            return None;
        }
        Some(index)
    }

    /// Releases the run of frames that starts at address `ptr_to_dealloc`
    /// and returns how many frames it had. An address that starts no run
    /// changes nothing and gives 0.
    pub fn dealloc(&mut self, ptr_to_dealloc: usize) -> (frames_released: usize)
        requires
            old(self).wf(),
        ensures
            final(self).wf(),
            final(self).base() == old(self).base(),
            final(self).frames().len() == old(self).frames().len(),
            final(self).frames() == released_at(old(self).base(), old(self).frames(), ptr_to_dealloc as int),
            frames_released == run_length_at(old(self).base(), old(self).frames(), ptr_to_dealloc as int),
    {
        match self.index_of(ptr_to_dealloc) {
            Some(index) => self.core_map.mark_free(index),
            None => 0,
        }
    }
}

} // verus!
