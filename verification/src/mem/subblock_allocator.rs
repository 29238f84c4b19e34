use vstd::prelude::*;
use crate::error::KernelError;
use crate::mem::frame_allocator::{
    CoreMapEntry, FrameAllocatorSolution, PAGE_FRAME_SIZE, fits, frame_index, freed, is_first_fit,
    is_run_start, marked, no_fit,
};

verus! {

/// Number of size classes: 8, 16, 32, ..., 2048 bytes.
pub const NUM_SIZE_CLASSES: usize = 9;

/// Largest request, in bytes, that is served from a slab: half a frame.
pub const MAX_BLOCK_SIZE: usize = 2048;

/// Bytes in one cell of size class `class`.
pub open spec fn class_size(class: int) -> int {
    if class == 0 {
        8
    } else if class == 1 {
        16
    } else if class == 2 {
        32
    } else if class == 3 {
        64
    } else if class == 4 {
        128
    } else if class == 5 {
        256
    } else if class == 6 {
        512
    } else if class == 7 {
        1024
    } else {
        2048
    }
}

/// Number of cells in a slab of size class `class`.
pub open spec fn cells_per_slab(class: int) -> int {
    PAGE_FRAME_SIZE as int / class_size(class)
}

/// The smallest size class whose cells hold `need` bytes, if there is one.
pub open spec fn class_for(need: int) -> Option<int> {
    if need <= 8 {
        Some(0)
    } else if need <= 16 {
        Some(1)
    } else if need <= 32 {
        Some(2)
    } else if need <= 64 {
        Some(3)
    } else if need <= 128 {
        Some(4)
    } else if need <= 256 {
        Some(5)
    } else if need <= 512 {
        Some(6)
    } else if need <= 1024 {
        Some(7)
    } else if need <= 2048 {
        Some(8)
    } else {
        None
    }
}

/// Bytes in one cell of size class `class`.
pub fn size_of_class(class: usize) -> (bytes: usize)
    requires
        class < NUM_SIZE_CLASSES,
    ensures
        bytes == class_size(class as int),
{
    if class == 0 {
        8
    } else if class == 1 {
        16
    } else if class == 2 {
        32
    } else if class == 3 {
        64
    } else if class == 4 {
        128
    } else if class == 5 {
        256
    } else if class == 6 {
        512
    } else if class == 7 {
        1024
    } else {
        2048
    }
}

/// The size class that serves a request of `need` bytes, if a slab can.
pub fn size_class(need: usize) -> (class: Option<usize>)
    ensures
        match class {
            Some(c) => class_for(need as int) == Some(c as int) && c < NUM_SIZE_CLASSES,
            None => class_for(need as int) is None,
        },
{
    if need <= 8 {
        Some(0)
    } else if need <= 16 {
        Some(1)
    } else if need <= 32 {
        Some(2)
    } else if need <= 64 {
        Some(3)
    } else if need <= 128 {
        Some(4)
    } else if need <= 256 {
        Some(5)
    } else if need <= 512 {
        Some(6)
    } else if need <= 1024 {
        Some(7)
    } else if need <= 2048 {
        Some(8)
    } else {
        None
    }
}

/// One frame cut into cells of one size class.
///
/// `free_cells` is the free list: the numbers of the cells that are not
/// handed out, the next one to hand out last.
pub struct Slab {
    pub frame: usize,
    pub class: usize,
    pub free_cells: Vec<usize>,
}

/// Address of cell `cell` of a slab.
pub open spec fn cell_address(slab: Slab, cell: int) -> int {
    slab.frame + cell * class_size(slab.class as int)
}

/// `addr` is the address of a cell of the slab that is handed out.
pub open spec fn cell_live(slab: Slab, addr: int) -> bool {
    let size = class_size(slab.class as int);
    &&& slab.frame <= addr < slab.frame + PAGE_FRAME_SIZE
    &&& (addr - slab.frame) % size == 0
    &&& !slab.free_cells@.contains(((addr - slab.frame) / size) as usize)
}

/// The invariant of a slab: it lies on a frame, its free list names cells
/// of the slab, none twice, and at least one cell is handed out.
pub open spec fn slab_wf(slab: Slab) -> bool {
    &&& slab.class < NUM_SIZE_CLASSES
    &&& slab.frame % PAGE_FRAME_SIZE == 0
    &&& slab.frame + PAGE_FRAME_SIZE <= usize::MAX
    &&& slab.free_cells@.no_duplicates()
    &&& slab.free_cells@.len() < cells_per_slab(slab.class as int)
    &&& forall|k: int| 0 <= k < slab.free_cells@.len() ==> #[trigger] slab.free_cells@[k] < cells_per_slab(
        slab.class as int,
    )
}

/// The invariant of the slab registry: every slab is sound and no two
/// slabs lie on the same frame.
pub open spec fn slabs_wf(slabs: Seq<Slab>) -> bool {
    &&& forall|i: int| 0 <= i < slabs.len() ==> slab_wf(#[trigger] slabs[i])
    &&& forall|i: int, j: int|
        0 <= i < slabs.len() && 0 <= j < slabs.len() && i != j ==> (#[trigger] slabs[i]).frame != (
        #[trigger] slabs[j]).frame
}

/// Every slab lies on a frame that the frame allocator has handed out as
/// a run of one frame.
pub open spec fn slabs_backed(slabs: Seq<Slab>, base: int, frames: Seq<CoreMapEntry>) -> bool {
    forall|i: int|
        0 <= i < slabs.len() ==> {
            let index = ((#[trigger] slabs[i]).frame - base) / (PAGE_FRAME_SIZE as int);
            &&& frame_index(base, frames.len() as int, slabs[i].frame as int) == Some(index)
            &&& is_run_start(frames, index)
            &&& frames[index].run_length == 1
        }
}

/// Slab `i` is of size class `class` and has a free cell.
pub open spec fn slab_open(slabs: Seq<Slab>, class: int, i: int) -> bool {
    0 <= i < slabs.len() && slabs[i].class == class && slabs[i].free_cells@.len() > 0
}

/// Slab `i` is the first slab of size class `class` with a free cell.
pub open spec fn is_first_open(slabs: Seq<Slab>, class: int, i: int) -> bool {
    slab_open(slabs, class, i) && forall|k: int| 0 <= k < i ==> !#[trigger] slab_open(slabs, class, k)
}

/// No slab of size class `class` has a free cell.
pub open spec fn none_open(slabs: Seq<Slab>, class: int) -> bool {
    forall|k: int| !#[trigger] slab_open(slabs, class, k)
}

/// The free list of a slab that has just been made: every cell but cell
/// 0, which is handed out at once, with the lowest number last.
pub open spec fn fresh_free_list(class: int) -> Seq<usize> {
    Seq::new((cells_per_slab(class) - 1) as nat, |j: int| (cells_per_slab(class) - 1 - j) as usize)
}

/// Slab `i` lies on the frame that contains `addr`.
pub open spec fn slab_of(slabs: Seq<Slab>, addr: int, i: int) -> bool {
    0 <= i < slabs.len() && slabs[i].frame == addr - addr % (PAGE_FRAME_SIZE as int)
}

/// `addr` is the address of a cell of size class `class` that is handed out.
pub open spec fn block_live(slabs: Seq<Slab>, class: int, addr: int) -> bool {
    exists|i: int| #[trigger] slab_of(slabs, addr, i) && slabs[i].class == class && cell_live(slabs[i], addr)
}

/// What handing out a cell of size class `class` does: `addr` is the
/// cell at the end of the free list of the first slab of that class with a
/// free cell, which leaves the list; or, where no slab has one, `addr` is
/// the first free frame, which becomes a new slab with cell 0 handed out.
pub open spec fn cell_granted(
    slabs: Seq<Slab>,
    base: int,
    frames: Seq<CoreMapEntry>,
    class: int,
    addr: int,
    slabs_after: Seq<Slab>,
    frames_after: Seq<CoreMapEntry>,
) -> bool {
    if exists|i: int| is_first_open(slabs, class, i) {
        let i = choose|i: int| is_first_open(slabs, class, i);
        &&& frames_after == frames
        &&& slabs_after.len() == slabs.len()
        &&& forall|k: int| 0 <= k < slabs.len() && k != i ==> slabs_after[k] == slabs[k]
        &&& slabs_after[i].frame == slabs[i].frame
        &&& slabs_after[i].class == class
        &&& slabs_after[i].free_cells@ == slabs[i].free_cells@.drop_last()
        &&& addr == cell_address(slabs[i], slabs[i].free_cells@.last() as int)
    } else {
        let index = (addr - base) / (PAGE_FRAME_SIZE as int);
        &&& is_first_fit(frames, 1, index)
        &&& addr == base + index * PAGE_FRAME_SIZE
        &&& frames_after == marked(frames, index, 1)
        &&& slabs_after.len() == slabs.len() + 1
        &&& forall|k: int| 0 <= k < slabs.len() ==> slabs_after[k] == slabs[k]
        &&& slabs_after.last().frame == addr
        &&& slabs_after.last().class == class
        &&& slabs_after.last().free_cells@ == fresh_free_list(class)
    }
}

/// No cell of size class `class` can be handed out: no slab of the class
/// has a free cell and no frame is free.
pub open spec fn cell_refused(slabs: Seq<Slab>, frames: Seq<CoreMapEntry>, class: int) -> bool {
    none_open(slabs, class) && no_fit(frames, 1)
}

/// What taking back the handed-out cell at `addr` does: its number goes
/// to the end of the free list of its slab, and `given_back` is 0; or,
/// where that makes every cell of the slab free, the slab leaves the
/// registry, its frame is released, and `given_back` is 1.
pub open spec fn cell_returned(
    slabs: Seq<Slab>,
    base: int,
    frames: Seq<CoreMapEntry>,
    class: int,
    addr: int,
    slabs_after: Seq<Slab>,
    frames_after: Seq<CoreMapEntry>,
    given_back: int,
) -> bool {
    let i = choose|i: int| slab_of(slabs, addr, i);
    let slab = slabs[i];
    let number = (addr - slab.frame) / class_size(class);
    let index = (slab.frame - base) / (PAGE_FRAME_SIZE as int);
    &&& slab_of(slabs, addr, i)
    &&& if slab.free_cells@.len() + 1 == cells_per_slab(class) {
        &&& given_back == 1
        &&& slabs_after == slabs.remove(i)
        &&& frames_after == freed(frames, index)
        &&& is_run_start(frames, index)
        &&& frames[index].run_length == 1
    } else {
        &&& given_back == 0
        &&& frames_after == frames
        &&& slabs_after.len() == slabs.len()
        &&& forall|k: int| 0 <= k < slabs.len() && k != i ==> slabs_after[k] == slabs[k]
        &&& slabs_after[i].frame == slab.frame
        &&& slabs_after[i].class == class
        &&& slabs_after[i].free_cells@ == slab.free_cells@.push(number as usize)
    }
}

/// Registry of the slabs from which small requests are served.
pub struct SubblockAllocator {
    slabs: Vec<Slab>,
}

impl View for SubblockAllocator {
    type V = Seq<Slab>;

    closed spec fn view(&self) -> Seq<Slab> {
        self.slabs@
    }
}

impl SubblockAllocator {
    /// A registry without slabs.
    pub fn new() -> (registry: SubblockAllocator)
        ensures
            registry@.len() == 0,
            slabs_wf(registry@),
    {
        SubblockAllocator { slabs: Vec::new() }
    }

    /// Number of slabs in use.
    pub fn slab_count(&self) -> (n: usize)
        ensures
            n == self@.len(),
    {
        self.slabs.len()
    }

    /// Whether a slab lies on the frame at address `frame`.
    pub fn owns_frame(&self, frame: usize) -> (owned: bool)
        ensures
            owned == exists|i: int| 0 <= i < self@.len() && (#[trigger] self@[i]).frame == frame,
    {
        let mut i: usize = 0;
        while i < self.slabs.len()
            invariant
                i <= self.slabs@.len(),
                forall|k: int| 0 <= k < i ==> (#[trigger] self.slabs@[k]).frame != frame,
            decreases self.slabs@.len() - i,
        {
            if self.slabs[i].frame == frame {
                assert(self@[i as int].frame == frame);
                return true;
            }
            i += 1;
        }
        false
    }

    /// Hands out one cell of size class `class`: the cell at the end of the
    /// free list of the first slab of that class that has a free cell.
    /// Where there is none, a new slab is made on a frame taken from
    /// `frames`, and its cell 0 is handed out.
    #[verifier::loop_isolation(false)]
    #[verifier::rlimit(40)]
    pub fn allocate_cell(&mut self, class: usize, frames: &mut FrameAllocatorSolution) -> (cell: Result<
        usize,
        KernelError,
    >)
        requires
            class < NUM_SIZE_CLASSES,
            slabs_wf(old(self)@),
            old(frames).wf(),
            slabs_backed(old(self)@, old(frames).base(), old(frames).frames()),
        ensures
            slabs_wf(final(self)@),
            final(frames).wf(),
            final(frames).base() == old(frames).base(),
            final(frames).frames().len() == old(frames).frames().len(),
            slabs_backed(final(self)@, final(frames).base(), final(frames).frames()),
            match cell {
                Ok(addr) => cell_granted(
                    old(self)@,
                    old(frames).base(),
                    old(frames).frames(),
                    class as int,
                    addr as int,
                    final(self)@,
                    final(frames).frames(),
                ),
                Err(e) => {
                    &&& e == KernelError::OutOfMemory
                    &&& cell_refused(old(self)@, old(frames).frames(), class as int)
                    &&& final(self)@ == old(self)@
                    &&& final(frames).frames() == old(frames).frames()
                },
            },
    {
        let size: usize = size_of_class(class);
        let mut i: usize = 0;
        while i < self.slabs.len()
            invariant
                i <= self.slabs@.len(),
                self.slabs@ == old(self)@,
                forall|k: int| 0 <= k < i ==> !#[trigger] slab_open(self.slabs@, class as int, k),
            decreases self.slabs@.len() - i,
        {
            if self.slabs[i].class == class && self.slabs[i].free_cells.len() > 0 {
                assert(is_first_open(old(self)@, class as int, i as int));
                assert(slab_wf(old(self)@[i as int]));
                let frame: usize = self.slabs[i].frame;
                let last: usize = self.slabs[i].free_cells.len() - 1;
                let number: usize = self.slabs[i].free_cells[last];
                assert(number == old(self)@[i as int].free_cells@[last as int]);
                self.slabs[i].free_cells.pop();
                proof {
                    let chosen = choose|k: int| is_first_open(old(self)@, class as int, k);
                    assert(chosen == i) by {
                        if chosen < i {
                            assert(slab_open(old(self)@, class as int, chosen));
                        } else if chosen > i {
                            assert(slab_open(old(self)@, class as int, i as int));
                        }
                    }
                    let before = old(self)@[i as int].free_cells@;
                    let after = self.slabs@[i as int].free_cells@;
                    assert(after == before.drop_last());
                    assert forall|k: int| 0 <= k < self.slabs@.len() implies slab_wf(#[trigger] self.slabs@[k]) by {
                        if k != i {
                            assert(self.slabs@[k] == old(self)@[k]);
                            assert(slab_wf(old(self)@[k]));
                        } else {
                            assert forall|a: int, b: int|
                                0 <= a < after.len() && 0 <= b < after.len() && a != b implies after[a]
                                != after[b] by {
                                assert(before[a] != before[b]);
                            }
                            assert forall|a: int| 0 <= a < after.len() implies #[trigger] after[a]
                                < cells_per_slab(class as int) by {
                                assert(before[a] < cells_per_slab(class as int));
                            }
                        }
                    }
                    assert forall|a: int, b: int|
                        0 <= a < self.slabs@.len() && 0 <= b < self.slabs@.len() && a != b implies (
                    #[trigger] self.slabs@[a]).frame != (#[trigger] self.slabs@[b]).frame by {
                        assert(old(self)@[a].frame != old(self)@[b].frame);
                    }
                    assert forall|k: int| 0 <= k < self.slabs@.len() implies {
                        let index = ((#[trigger] self.slabs@[k]).frame - frames.base()) / (
                        PAGE_FRAME_SIZE as int);
                        &&& frame_index(frames.base(), frames.frames().len() as int, self.slabs@[k].frame as int)
                            == Some(index)
                        &&& is_run_start(frames.frames(), index)
                        &&& frames.frames()[index].run_length == 1
                    } by {
                        assert(self.slabs@[k].frame == old(self)@[k].frame);
                    }
                }
                assert(number < cells_per_slab(class as int));
                assert(number * size <= PAGE_FRAME_SIZE - size) by (nonlinear_arith)
                    requires
                        number < PAGE_FRAME_SIZE as int / size as int,
                        0 < size <= PAGE_FRAME_SIZE,
                        PAGE_FRAME_SIZE as int % size as int == 0,
                ;
                let addr: usize = frame + number * size;
                return Ok(addr);
            }
            i += 1;
        }
        proof {
            assert forall|k: int| !#[trigger] slab_open(old(self)@, class as int, k) by {
                if 0 <= k < old(self)@.len() {
                }
            }
        }
        let ghost old_frames = frames.frames();
        match frames.allocate(1) {
            Err(e) => Err(e),
            Ok(frame) => {
                let cells: usize = PAGE_FRAME_SIZE / size;
                let mut free: Vec<usize> = Vec::new();
                let mut number: usize = cells - 1;
                while number > 0
                    invariant
                        number < cells,
                        cells == cells_per_slab(class as int),
                        free@.len() == cells - 1 - number,
                        forall|j: int| 0 <= j < free@.len() ==> free@[j] == cells - 1 - j,
                    decreases number,
                {
                    free.push(number);
                    number -= 1;
                }
                assert(free@ =~= fresh_free_list(class as int));
                proof {
                    frames.lemma_wf();
                }
                self.slabs.push(Slab { frame, class, free_cells: free });
                proof {
                    let index = (frame - frames.base()) / (PAGE_FRAME_SIZE as int);
                    let now = frames.frames();
                    assert(now == marked(old_frames, index, 1));
                    assert(fits(old_frames, 1, index));
                    assert(!old_frames[index].allocated);
                    assert(now[index].allocated && now[index].run_length == 1);
                    assert forall|k: int| 0 <= k < old(self)@.len() implies {
                        let at = ((#[trigger] self.slabs@[k]).frame - frames.base()) / (PAGE_FRAME_SIZE as int);
                        &&& at != index
                        &&& frame_index(frames.base(), now.len() as int, self.slabs@[k].frame as int) == Some(at)
                        &&& is_run_start(now, at)
                        &&& now[at].run_length == 1
                        &&& self.slabs@[k].frame != frame
                    } by {
                        assert(self.slabs@[k] == old(self)@[k]);
                        let at = (old(self)@[k].frame - frames.base()) / (PAGE_FRAME_SIZE as int);
                        assert(is_run_start(old_frames, at));
                    }
                    assert forall|k: int| 0 <= k < self.slabs@.len() implies slab_wf(#[trigger] self.slabs@[k]) by {
                        if k < old(self)@.len() {
                            assert(self.slabs@[k] == old(self)@[k]);
                            assert(slab_wf(old(self)@[k]));
                        }
                    }
                    assert forall|a: int, b: int|
                        0 <= a < self.slabs@.len() && 0 <= b < self.slabs@.len() && a != b implies (
                    #[trigger] self.slabs@[a]).frame != (#[trigger] self.slabs@[b]).frame by {
                        if a < old(self)@.len() && b < old(self)@.len() {
                            assert(old(self)@[a].frame != old(self)@[b].frame);
                        }
                    }
                    assert(!exists|k: int| is_first_open(old(self)@, class as int, k));
                }
                Ok(frame)
            },
        }
    }

    /// Position of the slab that lies on the frame at address `frame`.
    fn find_slab(&self, frame: usize) -> (found: Option<usize>)
        ensures
            match found {
                Some(i) => i < self@.len() && self@[i as int].frame == frame,
                None => forall|k: int| 0 <= k < self@.len() ==> (#[trigger] self@[k]).frame != frame,
            },
    {
        let mut i: usize = 0;
        while i < self.slabs.len()
            invariant
                i <= self.slabs@.len(),
                forall|k: int| 0 <= k < i ==> (#[trigger] self.slabs@[k]).frame != frame,
            decreases self.slabs@.len() - i,
        {
            if self.slabs[i].frame == frame {
                return Some(i);
            }
            i += 1;
        }
        None
    }

    /// Takes back the cell of size class `class` at address `addr`. Its
    /// number goes to the end of the free list of its slab. A slab whose
    /// cells are then all free leaves the registry, and its frame goes back
    /// to `frames`: the result is then `Some(1)`, else `Some(0)`. An address
    /// that is no handed-out cell of that class changes nothing and gives
    /// `None`.
    #[verifier::loop_isolation(false)]
    #[verifier::rlimit(40)]
    pub fn deallocate_cell(&mut self, class: usize, addr: usize, frames: &mut FrameAllocatorSolution) -> (released:
        Option<usize>)
        requires
            class < NUM_SIZE_CLASSES,
            slabs_wf(old(self)@),
            old(frames).wf(),
            slabs_backed(old(self)@, old(frames).base(), old(frames).frames()),
        ensures
            slabs_wf(final(self)@),
            final(frames).wf(),
            final(frames).base() == old(frames).base(),
            final(frames).frames().len() == old(frames).frames().len(),
            slabs_backed(final(self)@, final(frames).base(), final(frames).frames()),
            released is Some <==> block_live(old(self)@, class as int, addr as int),
            match released {
                Some(n) => cell_returned(
                    old(self)@,
                    old(frames).base(),
                    old(frames).frames(),
                    class as int,
                    addr as int,
                    final(self)@,
                    final(frames).frames(),
                    n as int,
                ),
                None => final(self)@ == old(self)@ && final(frames).frames() == old(frames).frames(),
            },
    {
        let size: usize = size_of_class(class);
        let frame: usize = addr - addr % PAGE_FRAME_SIZE;
        let i: usize = match self.find_slab(frame) {
            Some(i) => i,
            None => {
                assert(!block_live(old(self)@, class as int, addr as int));
                return None;
            },
        };
        proof {
            assert(slab_of(old(self)@, addr as int, i as int));
            assert forall|k: int| slab_of(old(self)@, addr as int, k) implies k == i by {
                if k != i {
                    assert(old(self)@[k].frame != old(self)@[i as int].frame);
                }
            }
            assert(slab_wf(old(self)@[i as int]));
        }
        if self.slabs[i].class != class {
            assert(!block_live(old(self)@, class as int, addr as int));
            return None;
        }
        let offset: usize = addr - frame;
        if offset % size != 0 {
            assert(!block_live(old(self)@, class as int, addr as int));
            return None;
        }
        let number: usize = offset / size;
        let cells: usize = PAGE_FRAME_SIZE / size;
        let mut k: usize = 0;
        while k < self.slabs[i].free_cells.len()
            invariant
                k <= self.slabs@[i as int].free_cells@.len(),
                self.slabs@ == old(self)@,
                forall|j: int| 0 <= j < k ==> self.slabs@[i as int].free_cells@[j] != number,
            decreases self.slabs@[i as int].free_cells@.len() - k,
        {
            if self.slabs[i].free_cells[k] == number {
                assert(old(self)@[i as int].free_cells@.contains(number));
                assert(!block_live(old(self)@, class as int, addr as int));
                return None;
            }
            k += 1;
        }
        proof {
            assert(!old(self)@[i as int].free_cells@.contains(number));
            assert(cell_live(old(self)@[i as int], addr as int));
            assert(block_live(old(self)@, class as int, addr as int));
            assert(number < cells) by (nonlinear_arith)
                requires
                    number == offset / size,
                    cells == PAGE_FRAME_SIZE / size,
                    offset < PAGE_FRAME_SIZE,
                    0 < size,
                    PAGE_FRAME_SIZE as int % size as int == 0,
                    offset as int % size as int == 0,
            ;
        }
        let ghost before = old(self)@[i as int].free_cells@;
        let ghost old_frames = frames.frames();
        proof {
            frames.lemma_wf();
        }
        if self.slabs[i].free_cells.len() + 1 == cells {
            self.slabs.remove(i);
            let n: usize = frames.dealloc(frame);
            proof {
                let index = (frame - frames.base()) / (PAGE_FRAME_SIZE as int);
                assert(is_run_start(old_frames, index));
                let now = frames.frames();
                assert(now == freed(old_frames, index));
                assert forall|a: int| 0 <= a < self.slabs@.len() implies slab_wf(#[trigger] self.slabs@[a]) && {
                    let at = (self.slabs@[a].frame - frames.base()) / (PAGE_FRAME_SIZE as int);
                    &&& frame_index(frames.base(), now.len() as int, self.slabs@[a].frame as int) == Some(at)
                    &&& is_run_start(now, at)
                    &&& now[at].run_length == 1
                } by {
                    let b = if a < i { a } else { a + 1 };
                    assert(self.slabs@[a] == old(self)@[b]);
                    assert(slab_wf(old(self)@[b]));
                    assert(old(self)@[b].frame != old(self)@[i as int].frame);
                    let at = (old(self)@[b].frame - frames.base()) / (PAGE_FRAME_SIZE as int);
                    assert(is_run_start(old_frames, at));
                    assert(at != index);
                }
                assert forall|a: int, b: int|
                    0 <= a < self.slabs@.len() && 0 <= b < self.slabs@.len() && a != b implies (
                #[trigger] self.slabs@[a]).frame != (#[trigger] self.slabs@[b]).frame by {
                    let a0 = if a < i { a } else { a + 1 };
                    let b0 = if b < i { b } else { b + 1 };
                    assert(self.slabs@[a] == old(self)@[a0]);
                    assert(self.slabs@[b] == old(self)@[b0]);
                    assert(old(self)@[a0].frame != old(self)@[b0].frame);
                }
            }
            Some(n)
        } else {
            self.slabs[i].free_cells.push(number);
            proof {
                let after = self.slabs@[i as int].free_cells@;
                assert(after == before.push(number));
                assert forall|a: int| 0 <= a < self.slabs@.len() implies slab_wf(#[trigger] self.slabs@[a]) by {
                    if a != i {
                        assert(self.slabs@[a] == old(self)@[a]);
                        assert(slab_wf(old(self)@[a]));
                    } else {
                        assert forall|x: int, y: int|
                            0 <= x < after.len() && 0 <= y < after.len() && x != y implies after[x] != after[y] by {
                            if x < before.len() && y < before.len() {
                                assert(before[x] != before[y]);
                            } else if x < before.len() {
                                assert(before.contains(before[x]));
                            } else {
                                assert(before.contains(before[y]));
                            }
                        }
                        assert forall|x: int| 0 <= x < after.len() implies #[trigger] after[x] < cells_per_slab(
                            class as int,
                        ) by {
                            if x < before.len() {
                                assert(before[x] < cells_per_slab(class as int));
                            }
                        }
                    }
                }
                assert forall|a: int, b: int|
                    0 <= a < self.slabs@.len() && 0 <= b < self.slabs@.len() && a != b implies (
                #[trigger] self.slabs@[a]).frame != (#[trigger] self.slabs@[b]).frame by {
                    assert(old(self)@[a].frame != old(self)@[b].frame);
                }
                assert forall|a: int| 0 <= a < self.slabs@.len() implies {
                    let at = ((#[trigger] self.slabs@[a]).frame - frames.base()) / (PAGE_FRAME_SIZE as int);
                    &&& frame_index(frames.base(), frames.frames().len() as int, self.slabs@[a].frame as int)
                        == Some(at)
                    &&& is_run_start(frames.frames(), at)
                    &&& frames.frames()[at].run_length == 1
                } by {
                    assert(self.slabs@[a].frame == old(self)@[a].frame);
                }
            }
            Some(0)
        }
    }
}

/// A cell lies inside the frame of its slab, at a multiple of its size,
/// and its address tells the frame and the number of the cell.
pub proof fn lemma_cell_in_frame(slab: Slab, number: int)
    requires
        slab.class < NUM_SIZE_CLASSES,
        slab.frame % PAGE_FRAME_SIZE == 0,
        0 <= number < cells_per_slab(slab.class as int),
    ensures
        ({
            let addr = cell_address(slab, number);
            let size = class_size(slab.class as int);
            &&& slab.frame <= addr
            &&& addr + size <= slab.frame + PAGE_FRAME_SIZE
            &&& addr % size == 0
            &&& addr - addr % (PAGE_FRAME_SIZE as int) == slab.frame
            &&& (addr - slab.frame) % size == 0
            &&& (addr - slab.frame) / size == number
        }),
{
    let size = class_size(slab.class as int);
    let frame = slab.frame as int;
    assert(number * size + size <= 4096 && (number * size) % size == 0 && (number * size) / size == number
        && frame % size == 0 && (frame + number * size) % size == 0) by (nonlinear_arith)
        requires
            0 <= number < 4096int / size,
            size == 8 || size == 16 || size == 32 || size == 64 || size == 128 || size == 256 || size == 512
                || size == 1024 || size == 2048,
            frame % 4096 == 0,
            frame >= 0,
    ;
}

/// A live cell lies inside the frame of its slab.
pub proof fn lemma_live_cell_in_frame(slab: Slab, addr: int)
    requires
        slab.class < NUM_SIZE_CLASSES,
        slab.frame % PAGE_FRAME_SIZE == 0,
        cell_live(slab, addr),
    ensures
        slab.frame <= addr,
        addr + class_size(slab.class as int) <= slab.frame + PAGE_FRAME_SIZE,
        addr % class_size(slab.class as int) == 0,
{
    let size = class_size(slab.class as int);
    let frame = slab.frame as int;
    let offset = addr - frame;
    assert(offset + size <= 4096 && (frame + offset) % size == 0) by (nonlinear_arith)
        requires
            0 <= offset < 4096,
            offset % size == 0,
            size == 8 || size == 16 || size == 32 || size == 64 || size == 128 || size == 256 || size == 512
                || size == 1024 || size == 2048,
            frame % 4096 == 0,
            frame >= 0,
    ;
}

/// Two multiples of a size that differ lie at least that size apart.
proof fn lemma_multiples_apart(x: int, y: int, size: int)
    requires
        size > 0,
        x % size == 0,
        y % size == 0,
        x != y,
    ensures
        x + size <= y || y + size <= x,
{
    assert(x + size <= y || y + size <= x) by (nonlinear_arith)
        requires
            x % size == 0,
            y % size == 0,
            x != y,
            size > 0,
    ;
}

/// Two live cells of slabs on different frames, or different live cells
/// of one slab, share no byte.
proof fn lemma_cells_apart(first: Slab, a: int, second: Slab, b: int)
    requires
        slab_wf(first),
        slab_wf(second),
        cell_live(first, a),
        cell_live(second, b),
        first.frame != second.frame || (first.class == second.class && a != b),
    ensures
        a + class_size(first.class as int) <= b || b + class_size(second.class as int) <= a,
{
    lemma_live_cell_in_frame(first, a);
    lemma_live_cell_in_frame(second, b);
    if first.frame != second.frame {
        lemma_multiples_apart(first.frame as int, second.frame as int, 4096);
    } else {
        lemma_multiples_apart(a - first.frame, b - first.frame, class_size(first.class as int));
    }
}

/// Two cells that are handed out share no byte.
pub proof fn lemma_live_blocks_disjoint(slabs: Seq<Slab>, class_a: int, a: int, class_b: int, b: int)
    requires
        slabs_wf(slabs),
        block_live(slabs, class_a, a),
        block_live(slabs, class_b, b),
        a != b,
    ensures
        a + class_size(class_a) <= b || b + class_size(class_b) <= a,
{
    let i = choose|i: int| #[trigger] slab_of(slabs, a, i) && slabs[i].class == class_a && cell_live(slabs[i], a);
    let j = choose|j: int| #[trigger] slab_of(slabs, b, j) && slabs[j].class == class_b && cell_live(slabs[j], b);
    assert(slab_wf(slabs[i]));
    assert(slab_wf(slabs[j]));
    if i != j {
        assert(slabs[i].frame != slabs[j].frame);
    }
    lemma_cells_apart(slabs[i], a, slabs[j], b);
}

/// The cell that is handed out is a new one: it was not handed out
/// before and is now; it starts at a multiple of its size and lies inside
/// the managed frames.
#[verifier::rlimit(40)]
pub proof fn lemma_granted_cell(
    slabs: Seq<Slab>,
    base: int,
    frames: Seq<CoreMapEntry>,
    class: int,
    addr: int,
    slabs_after: Seq<Slab>,
    frames_after: Seq<CoreMapEntry>,
)
    requires
        slabs_wf(slabs),
        slabs_backed(slabs, base, frames),
        base >= 0,
        base % (PAGE_FRAME_SIZE as int) == 0,
        base + frames.len() * PAGE_FRAME_SIZE <= usize::MAX,
        0 <= class < NUM_SIZE_CLASSES,
        cell_granted(slabs, base, frames, class, addr, slabs_after, frames_after),
    ensures
        addr % class_size(class) == 0,
        base <= addr,
        addr + class_size(class) <= base + frames.len() * PAGE_FRAME_SIZE,
        block_live(slabs_after, class, addr),
        forall|other: int| !block_live(slabs, other, addr),
{
    if exists|i: int| is_first_open(slabs, class, i) {
        let i = choose|i: int| is_first_open(slabs, class, i);
        let slab = slabs[i];
        assert(slab_wf(slab));
        let list = slab.free_cells@;
        let number = list.last() as int;
        assert(list[list.len() - 1] < cells_per_slab(class));
        lemma_cell_in_frame(slab, number);
        let at = (slab.frame - base) / (PAGE_FRAME_SIZE as int);
        assert(frame_index(base, frames.len() as int, slab.frame as int) == Some(at));
        assert(slab_of(slabs_after, addr, i));
        assert(!list.drop_last().contains(number as usize)) by {
            if list.drop_last().contains(number as usize) {
                let k = choose|k: int| 0 <= k < list.drop_last().len() && list.drop_last()[k] == number as usize;
                assert(list[k] == list[list.len() - 1]);
            }
        }
        assert(cell_live(slabs_after[i], addr));
        assert forall|other: int| !block_live(slabs, other, addr) by {
            if block_live(slabs, other, addr) {
                let j = choose|j: int| #[trigger]
                    slab_of(slabs, addr, j) && slabs[j].class == other && cell_live(slabs[j], addr);
                if j != i {
                    assert(slabs[j].frame != slabs[i].frame);
                }
                assert(list.contains(list[list.len() - 1]));
            }
        }
    } else {
        let index = (addr - base) / (PAGE_FRAME_SIZE as int);
        assert(fits(frames, 1, index));
        assert(!frames[index].allocated);
        let slab = slabs_after.last();
        lemma_cell_in_frame(slab, 0);
        let list = fresh_free_list(class);
        assert(!list.contains(0usize)) by {
            if list.contains(0usize) {
                let k = choose|k: int| 0 <= k < list.len() && list[k] == 0usize;
                assert(list[k] == cells_per_slab(class) - 1 - k);
            }
        }
        assert(slab_of(slabs_after, addr, slabs_after.len() - 1));
        assert(cell_live(slab, addr));
        assert forall|other: int| !block_live(slabs, other, addr) by {
            if block_live(slabs, other, addr) {
                let j = choose|j: int| #[trigger]
                    slab_of(slabs, addr, j) && slabs[j].class == other && cell_live(slabs[j], addr);
                let at = (slabs[j].frame - base) / (PAGE_FRAME_SIZE as int);
                assert(is_run_start(frames, at));
                assert(frame_index(base, frames.len() as int, slabs[j].frame as int) == Some(at));
                assert(slabs[j].frame == addr);
                assert(at == index);
            }
        }
    }
}

/// The cell that was taken back is handed out no more.
#[verifier::rlimit(40)]
pub proof fn lemma_returned_cell(
    slabs: Seq<Slab>,
    base: int,
    frames: Seq<CoreMapEntry>,
    class: int,
    addr: int,
    slabs_after: Seq<Slab>,
    frames_after: Seq<CoreMapEntry>,
    given_back: int,
)
    requires
        slabs_wf(slabs),
        0 <= class < NUM_SIZE_CLASSES,
        block_live(slabs, class, addr),
        cell_returned(slabs, base, frames, class, addr, slabs_after, frames_after, given_back),
    ensures
        forall|other: int| !block_live(slabs_after, other, addr),
{
    let i = choose|i: int| slab_of(slabs, addr, i);
    let w = choose|w: int| #[trigger] slab_of(slabs, addr, w) && slabs[w].class == class && cell_live(slabs[w], addr);
    if w != i {
        assert(slabs[w].frame != slabs[i].frame);
    }
    let slab = slabs[i];
    let number = (addr - slab.frame) / class_size(class);
    assert forall|other: int| !block_live(slabs_after, other, addr) by {
        if block_live(slabs_after, other, addr) {
            let j = choose|j: int| #[trigger]
                slab_of(slabs_after, addr, j) && slabs_after[j].class == other && cell_live(slabs_after[j], addr);
            if slab.free_cells@.len() + 1 == cells_per_slab(class) {
                let before = if j < i { j } else { j + 1 };
                assert(slabs_after[j] == slabs[before]);
                assert(slabs[before].frame != slabs[i].frame);
            } else {
                if j != i {
                    assert(slabs_after[j] == slabs[j]);
                    assert(slabs[j].frame != slabs[i].frame);
                } else {
                    let list = slab.free_cells@.push(number as usize);
                    assert(list[list.len() - 1] == number as usize);
                    assert(list.contains(number as usize));
                }
            }
        }
    }
}

} // verus!
