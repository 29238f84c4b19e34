use kidneyos::error::KernelError;
use kidneyos::mem::frame_allocator::{CoreMap, CoreMapEntry, PAGE_FRAME_SIZE};
use kidneyos::mem::subblock_allocator::{size_class, size_of_class};
use kidneyos::mem::{
    align_supported, frames_for, AllocatorPhase, FrameAllocatorWrapper, KernelAllocator, OFFSET,
    UPPER_MEMORY_START,
};

const HEAP_TOP: usize = UPPER_MEMORY_START + 0x1_0000;
const MANAGED_BASE: usize = HEAP_TOP + PAGE_FRAME_SIZE;

fn booted() -> KernelAllocator {
    let mut allocator = KernelAllocator::new();
    assert_eq!(allocator.init(2048, HEAP_TOP), Ok(()));
    allocator
}

fn counters(allocator: &KernelAllocator) -> (usize, usize, usize, usize) {
    (
        allocator.total_num_allocations(),
        allocator.total_num_deallocations(),
        allocator.total_num_frames_allocated(),
        allocator.total_num_frames_deallocated(),
    )
}

#[test]
fn a_new_allocator_is_in_setup() {
    let allocator = KernelAllocator::new();
    assert_eq!(allocator.current_phase(), AllocatorPhase::Setup);
    assert_eq!(counters(&allocator), (0, 0, 0, 0));
    assert_eq!(allocator.num_frames(), 0);
    assert_eq!(allocator.base_address(), 0);
}

#[test]
fn init_carves_the_core_map_and_manages_the_rest() {
    let allocator = booted();
    assert_eq!(UPPER_MEMORY_START, 0x8010_0000);
    assert_eq!(allocator.current_phase(), AllocatorPhase::Initialized);
    // 2031616 bytes / (4096 + 8) = 495 frames; their core map takes one frame
    assert_eq!(allocator.base_address(), 0x8011_1000);
    assert_eq!(allocator.num_frames(), 495);
    assert_eq!(counters(&allocator), (0, 0, 0, 0));
    assert_eq!(allocator.frame_entry(0), Some(CoreMapEntry { allocated: false, run_length: 0 }));
    assert_eq!(allocator.frame_entry(494), Some(CoreMapEntry { allocated: false, run_length: 0 }));
    assert_eq!(allocator.frame_entry(495), None);
    assert_eq!(allocator.find_free_run(495), Ok(0));
}

#[test]
fn init_keeps_the_managed_frames_below_the_ceiling() {
    let mut allocator = KernelAllocator::new();
    assert_eq!(allocator.init(2048, HEAP_TOP + 0x10), Ok(()));
    assert_eq!(allocator.base_address(), 0x8011_2000);
    assert_eq!(allocator.num_frames(), 494);
    let end = allocator.base_address() + allocator.num_frames() * PAGE_FRAME_SIZE;
    assert!(end <= UPPER_MEMORY_START + 2048 * 1024);
}

#[test]
fn init_twice_is_an_invalid_state() {
    let mut allocator = booted();
    allocator.frame_alloc(3).unwrap();
    assert_eq!(allocator.init(2048, HEAP_TOP), Err(KernelError::InvalidState));
    assert_eq!(allocator.current_phase(), AllocatorPhase::Initialized);
    assert_eq!(allocator.num_frames(), 495);
    assert_eq!(allocator.total_num_frames_allocated(), 3);
}

#[test]
fn init_without_room_is_out_of_memory() {
    let mut allocator = KernelAllocator::new();
    // below the kernel's part of the address space
    assert_eq!(allocator.init(2048, OFFSET - 1), Err(KernelError::OutOfMemory));
    // above the end of memory
    assert_eq!(allocator.init(0, UPPER_MEMORY_START + 1), Err(KernelError::OutOfMemory));
    // no room for the frame of the core map
    assert_eq!(allocator.init(1, UPPER_MEMORY_START), Err(KernelError::OutOfMemory));
    assert_eq!(allocator.current_phase(), AllocatorPhase::Setup);
    // a failed call changes nothing: it can be tried again
    assert_eq!(allocator.init(2048, HEAP_TOP), Ok(()));
    assert_eq!(allocator.num_frames(), 495);
}

#[test]
fn boot_alloc_free() {
    let mut allocator = booted();
    let mut pointers = Vec::new();
    for i in 0..100 {
        let p = allocator.frame_alloc(1).unwrap();
        assert_eq!(p, MANAGED_BASE + i * PAGE_FRAME_SIZE);
        pointers.push(p);
    }
    assert_eq!(counters(&allocator), (0, 0, 100, 0));
    for p in pointers.iter().rev() {
        assert_eq!(allocator.frame_dealloc(*p), Ok(1));
    }
    assert_eq!(counters(&allocator), (0, 0, 100, 100));
    assert_eq!(allocator.find_free_run(allocator.num_frames()), Ok(0));
    assert_eq!(allocator.deinit(), Ok(()));
    assert_eq!(allocator.current_phase(), AllocatorPhase::Deinitialized);
}

#[test]
fn leak_detection() {
    let mut allocator = booted();
    let a = allocator.frame_alloc(1).unwrap();
    let b = allocator.frame_alloc(1).unwrap();
    let _c = allocator.frame_alloc(1).unwrap();
    assert_eq!(allocator.frame_dealloc(a), Ok(1));
    assert_eq!(allocator.frame_dealloc(b), Ok(1));
    let outcome = allocator.deinit();
    assert_eq!(outcome, Err(KernelError::Leak));
    assert_eq!(KernelError::Leak.message(), "Leaks detected");
    assert!(KernelError::Leak.fatal());
    assert_eq!(allocator.current_phase(), AllocatorPhase::Initialized);
    assert_eq!(counters(&allocator), (0, 0, 3, 2));
}

#[test]
fn deinit_before_init_is_an_invalid_state() {
    let mut allocator = KernelAllocator::new();
    assert_eq!(allocator.deinit(), Err(KernelError::InvalidState));
    assert_eq!(allocator.current_phase(), AllocatorPhase::Setup);
    let mut done = booted();
    assert_eq!(done.deinit(), Ok(()));
    assert_eq!(done.deinit(), Err(KernelError::InvalidState));
}

#[test]
fn calls_on_a_shut_down_allocator_are_invalid() {
    let mut allocator = booted();
    assert_eq!(allocator.deinit(), Ok(()));
    assert_eq!(allocator.allocate(16, 8), Err(KernelError::InvalidState));
    assert_eq!(allocator.allocate(16, 3), Err(KernelError::InvalidState));
    assert_eq!(allocator.dealloc(MANAGED_BASE, 16, 8), Err(KernelError::InvalidState));
    assert_eq!(allocator.frame_alloc(1), Err(KernelError::InvalidState));
    assert_eq!(allocator.frame_dealloc(MANAGED_BASE), Err(KernelError::InvalidState));
    assert_eq!(allocator.init(2048, HEAP_TOP), Err(KernelError::InvalidState));
    assert_eq!(allocator.find_free_run(1), Err(KernelError::InvalidState));
}

#[test]
fn frame_calls_before_init_are_invalid() {
    let mut allocator = KernelAllocator::new();
    assert_eq!(allocator.frame_alloc(1), Err(KernelError::InvalidState));
    assert_eq!(allocator.frame_dealloc(0x8011_1000), Err(KernelError::InvalidState));
    assert_eq!(allocator.dealloc(0x8011_1000, 8, 8), Err(KernelError::InvalidState));
}

#[test]
fn setup_requests_go_to_the_empty_bump_allocator() {
    let mut allocator = KernelAllocator::new();
    assert_eq!(allocator.allocate(64, 8), Err(KernelError::OutOfMemory));
    assert_eq!(allocator.allocate(64, 8192), Err(KernelError::Unsupported));
    assert_eq!(counters(&allocator), (0, 0, 0, 0));
    assert_eq!(allocator.init(2048, HEAP_TOP), Ok(()));
}

#[test]
fn frame_alloc_zero_and_too_many() {
    let mut allocator = booted();
    assert_eq!(allocator.frame_alloc(0), Err(KernelError::OutOfMemory));
    assert_eq!(allocator.frame_alloc(496), Err(KernelError::OutOfMemory));
    assert_eq!(counters(&allocator), (0, 0, 0, 0));
    assert_eq!(allocator.frame_alloc(495), Ok(MANAGED_BASE));
    assert_eq!(allocator.frame_alloc(1), Err(KernelError::OutOfMemory));
    assert_eq!(allocator.frame_alloc(0), Err(KernelError::OutOfMemory));
}

#[test]
fn alignment_of_a_frame_is_served_and_more_is_unsupported() {
    let mut allocator = booted();
    let block = allocator.allocate(16, 4096).unwrap();
    assert_eq!(block % 4096, 0);
    assert_eq!(allocator.allocate(16, 8192), Err(KernelError::Unsupported));
    assert_eq!(allocator.allocate(16, 4097), Err(KernelError::Unsupported));
    assert_eq!(allocator.allocate(16, 3), Err(KernelError::Unsupported));
    assert_eq!(allocator.allocate(16, 0), Err(KernelError::Unsupported));
    assert!(align_supported(4096));
    assert!(align_supported(1));
    assert!(!align_supported(8192));
    assert!(!align_supported(24));
}

#[test]
fn small_requests_share_a_slab() {
    let mut allocator = booted();
    let a = allocator.allocate(8, 8).unwrap();
    let b = allocator.allocate(5, 1).unwrap();
    let c = allocator.allocate(1, 8).unwrap();
    assert_eq!((a, b, c), (MANAGED_BASE, MANAGED_BASE + 8, MANAGED_BASE + 16));
    assert_eq!(allocator.slab_count(), 1);
    assert_eq!(counters(&allocator), (3, 0, 1, 0));
    // the cell that came back last goes out first
    assert_eq!(allocator.dealloc(b, 5, 1), Ok(true));
    assert_eq!(allocator.dealloc(a, 8, 8), Ok(true));
    assert_eq!(allocator.allocate(8, 8), Ok(a));
    assert_eq!(allocator.allocate(8, 8), Ok(b));
    assert_eq!(allocator.allocate(8, 8), Ok(MANAGED_BASE + 24));
    assert_eq!(counters(&allocator), (6, 2, 1, 0));
}

#[test]
fn each_size_class_has_its_own_slabs() {
    let mut allocator = booted();
    let small = allocator.allocate(8, 8).unwrap();
    let medium = allocator.allocate(100, 4).unwrap();
    let aligned = allocator.allocate(4, 64).unwrap();
    let half = allocator.allocate(2048, 1).unwrap();
    assert_eq!(small, MANAGED_BASE);
    assert_eq!(medium, MANAGED_BASE + PAGE_FRAME_SIZE);
    assert_eq!(aligned, MANAGED_BASE + 2 * PAGE_FRAME_SIZE);
    assert_eq!(half, MANAGED_BASE + 3 * PAGE_FRAME_SIZE);
    assert_eq!(allocator.slab_count(), 4);
    assert_eq!(allocator.allocate(128, 128), Ok(medium + 128));
    assert_eq!(allocator.allocate(64, 1), Ok(aligned + 64));
    assert_eq!(allocator.allocate(1025, 1), Ok(half + 2048));
    // the slab of 2048-byte cells is full: the next one opens a new slab
    assert_eq!(allocator.allocate(2000, 2), Ok(MANAGED_BASE + 4 * PAGE_FRAME_SIZE));
    assert_eq!(counters(&allocator), (8, 0, 5, 0));
}

#[test]
fn a_slab_that_is_free_again_returns_its_frame() {
    let mut allocator = booted();
    let a = allocator.allocate(2048, 8).unwrap();
    let b = allocator.allocate(2048, 8).unwrap();
    assert_eq!(allocator.frame_entry(0), Some(CoreMapEntry { allocated: true, run_length: 1 }));
    assert_eq!(allocator.dealloc(a, 2048, 8), Ok(true));
    assert_eq!(allocator.slab_count(), 1);
    assert_eq!(allocator.dealloc(b, 2048, 8), Ok(true));
    assert_eq!(allocator.slab_count(), 0);
    assert_eq!(allocator.frame_entry(0), Some(CoreMapEntry { allocated: false, run_length: 0 }));
    assert_eq!(counters(&allocator), (2, 2, 1, 1));
    assert_eq!(allocator.deinit(), Ok(()));
}

#[test]
fn dealloc_of_what_is_not_handed_out_changes_nothing() {
    let mut allocator = booted();
    let a = allocator.allocate(32, 8).unwrap();
    let before = counters(&allocator);
    // another cell of the slab, a place inside a cell, another class, no slab at all
    assert_eq!(allocator.dealloc(a + 32, 32, 8), Ok(false));
    assert_eq!(allocator.dealloc(a + 8, 32, 8), Ok(false));
    assert_eq!(allocator.dealloc(a, 64, 8), Ok(false));
    assert_eq!(allocator.dealloc(a + PAGE_FRAME_SIZE, 32, 8), Ok(false));
    // a slab is no run to give back as frames
    assert_eq!(allocator.dealloc(a, 4096, 8), Ok(false));
    assert_eq!(allocator.frame_dealloc(a), Ok(0));
    assert_eq!(counters(&allocator), before);
    assert_eq!(allocator.dealloc(a, 32, 8), Ok(true));
    assert_eq!(allocator.dealloc(a, 32, 8), Ok(false));
}

#[test]
fn large_requests_take_whole_frames() {
    let mut allocator = booted();
    assert_eq!(frames_for(2049, 1), 1);
    assert_eq!(frames_for(4096, 8), 2);
    assert_eq!(frames_for(4095, 1), 1);
    assert_eq!(frames_for(10000, 16), 3);
    assert_eq!(frames_for(usize::MAX, 4096), usize::MAX / 4096 + 2);
    let a = allocator.allocate(2049, 1).unwrap();
    let b = allocator.allocate(10000, 16).unwrap();
    assert_eq!(a, MANAGED_BASE);
    assert_eq!(b, MANAGED_BASE + PAGE_FRAME_SIZE);
    assert_eq!(allocator.frame_entry(1), Some(CoreMapEntry { allocated: true, run_length: 3 }));
    assert_eq!(counters(&allocator), (2, 0, 4, 0));
    assert_eq!(allocator.dealloc(b + PAGE_FRAME_SIZE, 10000, 16), Ok(false));
    assert_eq!(allocator.dealloc(b, 10000, 16), Ok(true));
    assert_eq!(allocator.dealloc(a, 2049, 1), Ok(true));
    assert_eq!(counters(&allocator), (2, 2, 4, 4));
    assert_eq!(allocator.allocate(usize::MAX, 4096), Err(KernelError::OutOfMemory));
    assert_eq!(allocator.deinit(), Ok(()));
}

#[test]
fn out_of_memory_for_small_requests() {
    let mut allocator = booted();
    assert_eq!(allocator.frame_alloc(495), Ok(MANAGED_BASE));
    assert_eq!(allocator.allocate(8, 8), Err(KernelError::OutOfMemory));
    assert_eq!(counters(&allocator), (0, 0, 495, 0));
}

#[test]
fn unbalanced_heap_counters_are_a_leak() {
    let mut allocator = booted();
    let a = allocator.allocate(4096, 1).unwrap();
    // given back as frames, not as the block it was handed out as
    assert_eq!(allocator.frame_dealloc(a), Ok(2));
    assert_eq!(counters(&allocator), (1, 0, 2, 2));
    assert_eq!(allocator.deinit(), Err(KernelError::Leak));
}

#[test]
fn size_classes() {
    assert_eq!(size_class(0), Some(0));
    assert_eq!(size_class(8), Some(0));
    assert_eq!(size_class(9), Some(1));
    assert_eq!(size_class(64), Some(3));
    assert_eq!(size_class(65), Some(4));
    assert_eq!(size_class(2048), Some(8));
    assert_eq!(size_class(2049), None);
    let sizes: Vec<usize> = (0..9).map(size_of_class).collect();
    assert_eq!(sizes, vec![8, 16, 32, 64, 128, 256, 512, 1024, 2048]);
}

#[test]
fn the_wrapper_hands_on_to_the_frame_allocator() {
    let mut wrapper = FrameAllocatorWrapper::new_in(0x4000, CoreMap::new(4), 4);
    assert_eq!(wrapper.allocate(3), Ok(0x4000));
    assert_eq!(wrapper.allocate(2), Err(KernelError::OutOfMemory));
    assert_eq!(wrapper.allocate(1), Ok(0x7000));
    assert_eq!(wrapper.dealloc(0x4000), 3);
    assert_eq!(wrapper.dealloc(0x4000), 0);
    assert_eq!(wrapper.allocate(2), Ok(0x4000));
}
