use kidneyos::error::KernelError;
use kidneyos::mem::frame_allocator::{
    CoreMap, CoreMapEntry, DummyAllocatorSolution, FrameAllocatorSolution, PAGE_FRAME_SIZE,
};

const BASE: usize = 0x10_0000;

fn allocator(frames: usize) -> FrameAllocatorSolution {
    FrameAllocatorSolution::new_in(BASE, CoreMap::new(frames), frames)
}

fn free() -> CoreMapEntry {
    CoreMapEntry { allocated: false, run_length: 0 }
}

#[test]
fn new_core_map_is_all_free() {
    let map = CoreMap::new(5);
    assert_eq!(map.len(), 5);
    for i in 0..5 {
        assert_eq!(map.entry(i), free());
    }
    assert_eq!(map.find_free_run(5), Ok(0));
    assert_eq!(map.find_free_run(6), Err(KernelError::OutOfMemory));
}

#[test]
fn mark_allocated_records_the_run_on_its_first_frame() {
    let mut map = CoreMap::new(8);
    map.mark_allocated(2, 3);
    assert_eq!(map.entry(1), free());
    assert_eq!(map.entry(2), CoreMapEntry { allocated: true, run_length: 3 });
    assert_eq!(map.entry(3), CoreMapEntry { allocated: true, run_length: 0 });
    assert_eq!(map.entry(4), CoreMapEntry { allocated: true, run_length: 0 });
    assert_eq!(map.entry(5), free());
}

#[test]
fn mark_allocated_then_mark_free_restores_the_map() {
    let mut map = CoreMap::new(8);
    map.mark_allocated(0, 2);
    let before: Vec<CoreMapEntry> = (0..8).map(|i| map.entry(i)).collect();
    map.mark_allocated(3, 4);
    assert_eq!(map.mark_free(3), 4);
    let after: Vec<CoreMapEntry> = (0..8).map(|i| map.entry(i)).collect();
    assert_eq!(before, after);
}

#[test]
fn mark_free_of_a_frame_that_starts_no_run_changes_nothing() {
    let mut map = CoreMap::new(6);
    map.mark_allocated(1, 3);
    assert_eq!(map.mark_free(0), 0);
    assert_eq!(map.mark_free(2), 0);
    assert_eq!(map.mark_free(5), 0);
    assert_eq!(map.entry(1), CoreMapEntry { allocated: true, run_length: 3 });
    assert_eq!(map.entry(2), CoreMapEntry { allocated: true, run_length: 0 });
    assert_eq!(map.entry(3), CoreMapEntry { allocated: true, run_length: 0 });
}

#[test]
fn find_free_run_is_first_fit() {
    let mut map = CoreMap::new(10);
    map.mark_allocated(0, 1);
    map.mark_allocated(3, 2);
    // free: 1..3 (two frames) and 5..10 (five frames)
    assert_eq!(map.find_free_run(1), Ok(1));
    assert_eq!(map.find_free_run(2), Ok(1));
    assert_eq!(map.find_free_run(3), Ok(5));
    assert_eq!(map.find_free_run(5), Ok(5));
    assert_eq!(map.find_free_run(6), Err(KernelError::OutOfMemory));
    assert_eq!(map.find_free_run(0), Err(KernelError::OutOfMemory));
}

#[test]
fn first_fit_takes_the_lowest_free_run() {
    let mut frames = allocator(16);
    let a = frames.allocate(4).unwrap();
    let b = frames.allocate(4).unwrap();
    assert_eq!(a, BASE);
    assert_eq!(b, BASE + 4 * PAGE_FRAME_SIZE);
    assert_eq!(frames.dealloc(a), 4);
    assert_eq!(frames.allocate(2), Ok(a));
    assert_eq!(frames.allocate(3), Ok(b + 4 * PAGE_FRAME_SIZE));
}

#[test]
fn returned_pointers_are_frame_aligned_and_inside_the_region() {
    let mut frames = allocator(12);
    let sizes = [1usize, 3, 2, 5];
    for n in sizes {
        let ptr = frames.allocate(n).unwrap();
        assert_eq!(ptr % PAGE_FRAME_SIZE, 0);
        assert!(ptr >= BASE);
        assert!(ptr + n * PAGE_FRAME_SIZE <= BASE + 12 * PAGE_FRAME_SIZE);
    }
}

#[test]
fn outstanding_allocations_are_disjoint() {
    let mut frames = allocator(32);
    let mut runs: Vec<(usize, usize)> = Vec::new();
    for n in [3usize, 1, 7, 2, 5] {
        runs.push((frames.allocate(n).unwrap(), n));
    }
    frames.dealloc(runs[1].0);
    runs.remove(1);
    runs.push((frames.allocate(1).unwrap(), 1));
    for i in 0..runs.len() {
        for j in 0..runs.len() {
            if i != j {
                let (a, n) = runs[i];
                let (b, m) = runs[j];
                assert!(a + n * PAGE_FRAME_SIZE <= b || b + m * PAGE_FRAME_SIZE <= a);
            }
        }
    }
}

#[test]
fn a_request_for_no_frames_always_fails() {
    let mut frames = allocator(4);
    assert_eq!(frames.allocate(0), Err(KernelError::OutOfMemory));
    frames.allocate(2).unwrap();
    assert_eq!(frames.allocate(0), Err(KernelError::OutOfMemory));
    let mut empty = allocator(0);
    assert_eq!(empty.allocate(0), Err(KernelError::OutOfMemory));
}

#[test]
fn a_request_for_more_than_all_frames_is_out_of_memory() {
    let mut frames = allocator(8);
    assert_eq!(frames.allocate(9), Err(KernelError::OutOfMemory));
    assert_eq!(frames.allocate(8), Ok(BASE));
    assert_eq!(frames.allocate(1), Err(KernelError::OutOfMemory));
}

#[test]
fn dealloc_of_an_address_that_starts_no_run_gives_zero() {
    let mut frames = allocator(8);
    let a = frames.allocate(3).unwrap();
    assert_eq!(frames.dealloc(a + 1), 0);
    assert_eq!(frames.dealloc(a + PAGE_FRAME_SIZE), 0);
    assert_eq!(frames.dealloc(BASE - PAGE_FRAME_SIZE), 0);
    assert_eq!(frames.dealloc(BASE + 8 * PAGE_FRAME_SIZE), 0);
    assert_eq!(frames.dealloc(a + 4 * PAGE_FRAME_SIZE), 0);
    assert_eq!(frames.dealloc(a), 3);
    assert_eq!(frames.dealloc(a), 0);
}

#[test]
fn fragmentation_fills_the_hole() {
    let mut frames = allocator(14);
    let a = frames.allocate(4).unwrap();
    let b = frames.allocate(4).unwrap();
    let c = frames.allocate(4).unwrap();
    assert_eq!((a, b, c), (BASE, BASE + 4 * PAGE_FRAME_SIZE, BASE + 8 * PAGE_FRAME_SIZE));
    assert_eq!(frames.dealloc(b), 4);
    assert_eq!(frames.allocate(4), Ok(b));
    // two frames are left at the end: five do not fit
    assert_eq!(frames.allocate(5), Err(KernelError::OutOfMemory));
    assert_eq!(frames.allocate(2), Ok(BASE + 12 * PAGE_FRAME_SIZE));
}

#[test]
fn all_frames_are_free_again_when_everything_is_returned() {
    let mut frames = allocator(20);
    let mut ptrs = Vec::new();
    let mut handed_out = 0;
    for n in [2usize, 5, 1, 4, 3] {
        ptrs.push(frames.allocate(n).unwrap());
        handed_out += n;
    }
    let mut taken_back = 0;
    for p in [ptrs[2], ptrs[0], ptrs[4], ptrs[1], ptrs[3]] {
        taken_back += frames.dealloc(p);
    }
    assert_eq!(handed_out, taken_back);
    for i in 0..20 {
        assert_eq!(frames.entry(i), free());
    }
    assert_eq!(frames.find_free_run(20), Ok(0));
}

#[test]
fn bump_allocator_aligns_then_advances() {
    let mut dummy = DummyAllocatorSolution::new_in(0x1234, 0x1_0000);
    assert_eq!(dummy.allocate(2), Ok(0x2000));
    assert_eq!(dummy.get_start_address(), 0x4000);
    assert_eq!(dummy.get_end_address(), 0x1_0000);
    assert_eq!(dummy.allocate(12), Ok(0x4000));
    assert_eq!(dummy.get_start_address(), 0x1_0000);
    assert_eq!(dummy.allocate(1), Err(KernelError::OutOfMemory));
    assert_eq!(dummy.get_start_address(), 0x1_0000);
}

#[test]
fn bump_allocator_refuses_what_does_not_fit_and_stays_as_it_was() {
    let mut dummy = DummyAllocatorSolution::new_in(0x1001, 0x3000);
    assert_eq!(dummy.allocate(2), Err(KernelError::OutOfMemory));
    assert_eq!(dummy.get_start_address(), 0x1001);
    assert_eq!(dummy.allocate(1), Ok(0x2000));
    assert_eq!(dummy.get_start_address(), 0x3000);
    assert_eq!(dummy.allocate(0), Ok(0x3000));
    let mut huge = DummyAllocatorSolution::new_in(usize::MAX - 5, usize::MAX);
    assert_eq!(huge.allocate(1), Err(KernelError::OutOfMemory));
    assert_eq!(huge.allocate(usize::MAX), Err(KernelError::OutOfMemory));
}

#[test]
fn bump_allocator_setters() {
    let mut dummy = DummyAllocatorSolution::new_in(0, 0);
    assert_eq!(dummy.allocate(1), Err(KernelError::OutOfMemory));
    dummy.set_start_address(0x5000);
    dummy.set_end_address(0x7000);
    assert_eq!((dummy.get_start_address(), dummy.get_end_address()), (0x5000, 0x7000));
    assert_eq!(dummy.allocate(2), Ok(0x5000));
}
