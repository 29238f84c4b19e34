use kidneyos::error::KernelError;
use kidneyos::mem::frame_allocator::{CoreMapEntry, PAGE_FRAME_SIZE};
use kidneyos::mem::{KernelAllocator, OFFSET, UPPER_MEMORY_START};
use kidneyos::paging::{Mapping, PageManager};
use kidneyos::threading::thread_control_block::{
    allocate_tid, MemoryAction, ThreadControlBlock, ThreadStatus, TidCounter, DANGLING,
    KERNEL_THREAD_STACK_FRAMES, KERNEL_THREAD_STACK_SIZE, SWITCH_THREADS_CONTEXT_SIZE, THREAD_STACK_SIZE,
    USER_STACK_BOTTOM_VIRT, USER_THREAD_STACK_FRAMES, USER_THREAD_STACK_SIZE,
};
use kidneyos::user_program::{VmAreaStruct, VmFlags};

const HEAP_TOP: usize = UPPER_MEMORY_START + 0x1_0000;
// 32 MB of upper memory: 8160 frames behind a core map of 16 frames
const MANAGED_BASE: usize = 0x8012_0000;

fn booted() -> KernelAllocator {
    let mut allocator = KernelAllocator::new();
    assert_eq!(allocator.init(32 * 1024, HEAP_TOP), Ok(()));
    assert_eq!(allocator.base_address(), MANAGED_BASE);
    assert_eq!(allocator.num_frames(), 8160);
    allocator
}

fn started_counter() -> TidCounter {
    let mut tids = TidCounter::new();
    assert_eq!(allocate_tid(&mut tids), 0);
    tids
}

fn plain_thread(tid: u16, status: ThreadStatus) -> ThreadControlBlock {
    ThreadControlBlock {
        kernel_stack_pointer: 0x9000,
        kernel_stack: 0x8000,
        eip: 0x1234,
        esp: 0x5678,
        user_stack: 0xA000,
        tid,
        status,
        exit_code: None,
        page_manager: PageManager::new(),
    }
}

#[test]
fn constants() {
    assert_eq!(KERNEL_THREAD_STACK_SIZE, KERNEL_THREAD_STACK_FRAMES * PAGE_FRAME_SIZE);
    assert_eq!(USER_THREAD_STACK_SIZE, USER_THREAD_STACK_FRAMES * PAGE_FRAME_SIZE);
    assert_eq!(USER_THREAD_STACK_FRAMES, 4 * 1024);
    assert_eq!(THREAD_STACK_SIZE, 4 * 1024);
    assert_eq!(OFFSET, 0x8000_0000);
}

#[test]
fn tids_count_up_from_zero() {
    let mut tids = TidCounter::new();
    for expected in 0..1000u16 {
        assert_eq!(allocate_tid(&mut tids), expected);
    }
}

#[test]
fn tids_are_distinct_over_a_full_round() {
    let mut tids = TidCounter::new();
    let mut seen = vec![false; 65536];
    for _ in 0..65536u32 {
        let tid = allocate_tid(&mut tids) as usize;
        assert!(!seen[tid]);
        seen[tid] = true;
    }
    // the counter has gone round
    assert_eq!(allocate_tid(&mut tids), 0);
}

#[test]
fn new_func_places_both_stacks() {
    let mut allocator = booted();
    let mut tids = started_counter();
    let (thread, actions) = match ThreadControlBlock::new_func(0xC0DE, &mut tids, &mut allocator) {
        Ok(made) => made,
        Err(e) => panic!("{:?}", e),
    };
    assert_eq!(thread.tid, 1);
    assert_eq!(thread.status, ThreadStatus::Ready);
    assert_eq!(thread.exit_code, None);
    assert_eq!(thread.eip, 0xC0DE);
    assert_eq!(thread.esp, 0x110_0000);
    assert_eq!(thread.esp, USER_STACK_BOTTOM_VIRT + USER_THREAD_STACK_SIZE);
    assert_eq!(thread.kernel_stack, MANAGED_BASE);
    assert_eq!(thread.user_stack, MANAGED_BASE + 2 * PAGE_FRAME_SIZE);
    assert_eq!(thread.kernel_stack_pointer, MANAGED_BASE + 8192 - 20);
    assert_eq!(thread.page_manager.len(), 1);
    assert_eq!(
        thread.page_manager.mapping(0),
        Mapping { phys: 0x12_2000, virt: 0x10_0000, len: 16777216, writable: true, user: true }
    );
    assert_eq!(
        actions,
        vec![
            MemoryAction::Zero { addr: MANAGED_BASE, len: 8192 },
            MemoryAction::Zero { addr: MANAGED_BASE + 8192, len: 16777216 },
            MemoryAction::WriteSwitchContext { addr: MANAGED_BASE + 8172 },
        ]
    );
    assert_eq!(allocator.frame_entry(0), Some(CoreMapEntry { allocated: true, run_length: 2 }));
    assert_eq!(allocator.frame_entry(2), Some(CoreMapEntry { allocated: true, run_length: 4096 }));
    assert_eq!(allocator.total_num_frames_allocated(), 4098);
    assert_eq!(allocate_tid(&mut tids), 2);
}

#[test]
fn new_func_then_reap_gives_every_frame_back() {
    let mut allocator = booted();
    let mut tids = started_counter();
    allocator.frame_alloc(7).unwrap();
    let frames_out = allocator.total_num_frames_allocated();
    let frames_back = allocator.total_num_frames_deallocated();
    let (mut thread, _) = match ThreadControlBlock::new_func(0xC0DE, &mut tids, &mut allocator) {
        Ok(made) => made,
        Err(e) => panic!("{:?}", e),
    };
    thread.status = ThreadStatus::Dying;
    thread.reap(&mut allocator);
    assert_eq!(thread.status, ThreadStatus::Invalid);
    assert_eq!(thread.kernel_stack_pointer, DANGLING);
    assert_eq!(thread.eip, DANGLING);
    assert_eq!(thread.esp, DANGLING);
    assert_eq!(
        allocator.total_num_frames_allocated() - frames_out,
        allocator.total_num_frames_deallocated() - frames_back
    );
    assert_eq!(allocator.total_num_frames_deallocated() - frames_back, 4098);
    assert_eq!(allocator.find_free_run(8160 - 7), Ok(7));
    // reaping once more changes nothing
    thread.reap(&mut allocator);
    assert_eq!(thread.status, ThreadStatus::Invalid);
    assert_eq!(allocator.total_num_frames_deallocated() - frames_back, 4098);
}

#[test]
fn the_kernel_thread_keeps_its_stacks() {
    let mut allocator = booted();
    let a = allocator.frame_alloc(2).unwrap();
    let b = allocator.frame_alloc(4).unwrap();
    let mut thread = plain_thread(0, ThreadStatus::Dying);
    thread.kernel_stack = a;
    thread.kernel_stack_pointer = a + 100;
    thread.user_stack = b;
    thread.reap(&mut allocator);
    assert_eq!(thread.status, ThreadStatus::Invalid);
    assert_eq!(thread.kernel_stack_pointer, a + 100);
    assert_eq!(thread.eip, 0x1234);
    assert_eq!(allocator.total_num_frames_deallocated(), 0);
    assert_eq!(allocator.frame_entry(0), Some(CoreMapEntry { allocated: true, run_length: 2 }));
}

#[test]
fn reap_without_an_initialised_allocator_only_marks_the_thread() {
    let mut allocator = KernelAllocator::new();
    let mut thread = plain_thread(3, ThreadStatus::Dying);
    thread.reap(&mut allocator);
    assert_eq!(thread.status, ThreadStatus::Invalid);
    assert_eq!(thread.kernel_stack_pointer, DANGLING);
    assert_eq!(allocator.total_num_frames_deallocated(), 0);
}

#[test]
fn new_func_without_memory_is_out_of_memory() {
    let mut allocator = booted();
    let mut tids = started_counter();
    // leave room for the kernel stack but not for the user stack
    allocator.frame_alloc(8160 - 4097).unwrap();
    let made = ThreadControlBlock::new_func(0xC0DE, &mut tids, &mut allocator);
    assert!(matches!(made, Err(KernelError::OutOfMemory)));
    // the kernel stack was placed and stays so; the identifier is used up
    assert_eq!(allocator.total_num_frames_allocated(), 8160 - 4097 + 2);
    assert_eq!(allocate_tid(&mut tids), 2);
    let mut full = booted();
    full.frame_alloc(8159).unwrap();
    let made = ThreadControlBlock::new_func(0xC0DE, &mut tids, &mut full);
    assert!(matches!(made, Err(KernelError::OutOfMemory)));
    assert_eq!(full.total_num_frames_allocated(), 8159);
}

#[test]
fn new_func_before_init_is_an_invalid_state() {
    let mut allocator = KernelAllocator::new();
    let mut tids = started_counter();
    let made = ThreadControlBlock::new_func(0xC0DE, &mut tids, &mut allocator);
    assert!(matches!(made, Err(KernelError::InvalidState)));
}

#[test]
fn elf_thread() {
    let mut allocator = booted();
    let mut tids = started_counter();
    let image = vec![0x7Fu8; 0x3000];
    let data = VmAreaStruct {
        vm_start: 0x804_9000,
        vm_end: 0x804_9000 + 0x1234,
        offset: 0x1000,
        flags: VmFlags { read: true, write: true, execute: false },
    };
    let (thread, actions) =
        match ThreadControlBlock::new_elf(&image, 0x804_8000, &vec![data], &mut tids, &mut allocator) {
            Ok(made) => made,
            Err(e) => panic!("{:?}", e),
        };
    assert_eq!(thread.status, ThreadStatus::Ready);
    assert_eq!(thread.tid, 1);
    assert_eq!(thread.eip, 0x804_8000);
    assert_eq!(thread.esp, USER_STACK_BOTTOM_VIRT + USER_THREAD_STACK_SIZE);
    // the area takes two frames, then come the kernel stack and the user stack
    assert_eq!(thread.kernel_stack, MANAGED_BASE + 2 * PAGE_FRAME_SIZE);
    assert_eq!(thread.user_stack, MANAGED_BASE + 4 * PAGE_FRAME_SIZE);
    assert_eq!(thread.page_manager.len(), 2);
    assert_eq!(
        thread.page_manager.find(0x804_9000),
        Some(Mapping { phys: MANAGED_BASE - OFFSET, virt: 0x804_9000, len: 0x2000, writable: true, user: true })
    );
    assert_eq!(
        thread.page_manager.find(USER_STACK_BOTTOM_VIRT),
        Some(Mapping {
            phys: MANAGED_BASE + 4 * PAGE_FRAME_SIZE - OFFSET,
            virt: USER_STACK_BOTTOM_VIRT,
            len: USER_THREAD_STACK_SIZE,
            writable: true,
            user: true
        })
    );
    assert_eq!(thread.page_manager.find(0x804_8000), None);
    assert_eq!(
        actions,
        vec![
            MemoryAction::LoadImage { addr: MANAGED_BASE, offset: 0x1000, len: 0x1234 },
            MemoryAction::Zero { addr: MANAGED_BASE + 0x1234, len: 0x2000 - 0x1234 },
            MemoryAction::Zero { addr: MANAGED_BASE + 0x2000, len: KERNEL_THREAD_STACK_SIZE },
            MemoryAction::WriteSwitchContext { addr: MANAGED_BASE + 0x4000 - SWITCH_THREADS_CONTEXT_SIZE },
        ]
    );
    assert_eq!(allocator.total_num_frames_allocated(), 2 + 2 + 4096);
}

#[test]
fn elf_areas_are_loaded_in_order() {
    let mut allocator = booted();
    let mut tids = started_counter();
    let image = vec![0u8; 0x5000];
    let text = VmAreaStruct {
        vm_start: 0x804_8000,
        vm_end: 0x804_9000,
        offset: 0,
        flags: VmFlags { read: true, write: false, execute: true },
    };
    let data = VmAreaStruct {
        vm_start: 0x805_0000,
        vm_end: 0x805_0001,
        offset: 0x4FFF,
        flags: VmFlags { read: true, write: true, execute: false },
    };
    let (thread, actions) =
        match ThreadControlBlock::new_elf(&image, 0x804_8000, &vec![text, data], &mut tids, &mut allocator) {
            Ok(made) => made,
            Err(e) => panic!("{:?}", e),
        };
    assert_eq!(thread.page_manager.len(), 3);
    assert_eq!(
        thread.page_manager.mapping(0),
        Mapping { phys: MANAGED_BASE - OFFSET, virt: 0x804_8000, len: 0x1000, writable: false, user: true }
    );
    assert_eq!(
        thread.page_manager.mapping(1),
        Mapping { phys: MANAGED_BASE + 0x1000 - OFFSET, virt: 0x805_0000, len: 0x1000, writable: true, user: true }
    );
    assert_eq!(actions[0], MemoryAction::LoadImage { addr: MANAGED_BASE, offset: 0, len: 0x1000 });
    assert_eq!(actions[1], MemoryAction::Zero { addr: MANAGED_BASE + 0x1000, len: 0 });
    assert_eq!(actions[2], MemoryAction::LoadImage { addr: MANAGED_BASE + 0x1000, offset: 0x4FFF, len: 1 });
    assert_eq!(actions[3], MemoryAction::Zero { addr: MANAGED_BASE + 0x1001, len: 0xFFF });
    assert_eq!(actions.len(), 6);
}

#[test]
fn malformed_images_are_refused() {
    let mut tids = started_counter();
    let image = vec![0u8; 0x1000];
    let flags = VmFlags { read: true, write: false, execute: false };
    let good = VmAreaStruct { vm_start: 0x1000, vm_end: 0x2000, offset: 0, flags };
    let backwards = VmAreaStruct { vm_start: 0x2000, vm_end: 0x1000, offset: 0, flags };
    let beyond = VmAreaStruct { vm_start: 0x1000, vm_end: 0x2000, offset: 1, flags };
    let wrapping = VmAreaStruct { vm_start: 0x1000, vm_end: 0x2000, offset: usize::MAX, flags };
    let empty = VmAreaStruct { vm_start: 0x1000, vm_end: 0x1000, offset: 0, flags };

    let mut allocator = booted();
    let made = ThreadControlBlock::new_elf(&image, 0, &vec![good], &mut tids, &mut allocator);
    assert!(matches!(made, Err(KernelError::MalformedImage)));
    assert_eq!(allocator.total_num_frames_allocated(), 0);

    for bad in [backwards, beyond, wrapping] {
        let made = ThreadControlBlock::new_elf(&image, 0x1000, &vec![good, bad, good], &mut tids, &mut allocator);
        assert!(matches!(made, Err(KernelError::MalformedImage)));
    }
    // each time the first area was loaded before the second was refused
    assert_eq!(allocator.total_num_frames_allocated(), 3);

    // an area of no bytes asks for no frames, and such a request always fails
    let made = ThreadControlBlock::new_elf(&image, 0x1000, &vec![empty], &mut tids, &mut allocator);
    assert!(matches!(made, Err(KernelError::OutOfMemory)));
    assert!(KernelError::MalformedImage.fatal());
}

#[test]
fn create_builds_three_frames_on_one_frame_of_stack() {
    let mut allocator = booted();
    let mut tids = started_counter();
    let (thread, actions) = match ThreadControlBlock::create(0xF00D, &mut tids, &mut allocator) {
        Ok(made) => made,
        Err(e) => panic!("{:?}", e),
    };
    assert_eq!(thread.tid, 1);
    assert_eq!(thread.status, ThreadStatus::Ready);
    assert_eq!(thread.kernel_stack, MANAGED_BASE);
    assert_eq!(thread.kernel_stack_pointer, MANAGED_BASE + 4096 - 8 - 4 - 20);
    assert_eq!(thread.user_stack, DANGLING);
    assert_eq!(thread.esp, DANGLING);
    assert_eq!(thread.eip, 0xF00D);
    assert_eq!(thread.page_manager.len(), 0);
    assert_eq!(
        actions,
        vec![
            MemoryAction::Zero { addr: MANAGED_BASE, len: 4096 },
            MemoryAction::WriteRunContext { addr: MANAGED_BASE + 4088, entry: 0xF00D },
            MemoryAction::WritePrepareContext { addr: MANAGED_BASE + 4084 },
            MemoryAction::WriteSwitchContext { addr: MANAGED_BASE + 4064 },
        ]
    );
    assert_eq!(allocator.total_num_frames_allocated(), 1);
    let mut full = booted();
    full.frame_alloc(8160).unwrap();
    assert!(matches!(ThreadControlBlock::create(0xF00D, &mut tids, &mut full), Err(KernelError::OutOfMemory)));
    let mut early = KernelAllocator::new();
    assert!(matches!(ThreadControlBlock::create(0xF00D, &mut tids, &mut early), Err(KernelError::InvalidState)));
}

#[test]
fn new_kernel_thread_is_running_and_owns_nothing() {
    let mut tids = TidCounter::new();
    let thread = ThreadControlBlock::new_kernel_thread(PageManager::new(), &mut tids);
    assert_eq!(thread.tid, 0);
    assert_eq!(thread.status, ThreadStatus::Running);
    assert_eq!(thread.exit_code, None);
    assert_eq!(
        (thread.kernel_stack_pointer, thread.kernel_stack, thread.eip, thread.esp, thread.user_stack),
        (DANGLING, DANGLING, DANGLING, DANGLING, DANGLING)
    );
    assert_eq!(allocate_tid(&mut tids), 1);
}

#[test]
fn stack_space_is_checked_before_the_pointer_moves() {
    let mut thread = plain_thread(4, ThreadStatus::Ready);
    assert!(thread.has_stack_space(0x1000));
    assert!(!thread.has_stack_space(0x1001));
    assert_eq!(thread.allocate_stack_space(0x1001), None);
    assert_eq!(thread.kernel_stack_pointer, 0x9000);
    assert_eq!(thread.allocate_stack_space(0x800), Some(0x8800));
    assert_eq!(thread.kernel_stack_pointer, 0x8800);
    assert_eq!(thread.shift_stack_pointer_down(0x7F0), 0x8010);
    assert_eq!(thread.allocate_frame(), None);
    assert_eq!(thread.allocate_stack_space(0x10), Some(0x8000));
    assert_eq!(thread.allocate_stack_space(1), None);
    assert!(thread.has_stack_space(0));
    thread.kernel_stack_pointer = 0x7000;
    assert!(!thread.has_stack_space(0));
    assert_eq!(thread.allocate_stack_space(0), None);
}

#[test]
fn allocate_frame_takes_the_bytes_of_a_switch_context() {
    let mut thread = plain_thread(4, ThreadStatus::Ready);
    assert_eq!(thread.allocate_frame(), Some(0x9000 - 20));
    assert_eq!(thread.allocate_frame(), Some(0x9000 - 40));
}

#[test]
fn set_exit_code_records_the_code() {
    let mut thread = plain_thread(4, ThreadStatus::Running);
    thread.set_exit_code(-3);
    assert_eq!(thread.exit_code, Some(-3));
    assert_eq!(thread.status, ThreadStatus::Running);
    assert_eq!(thread.tid, 4);
}

#[test]
fn copy_stack_copies_both_stacks_whole() {
    let source = plain_thread(1, ThreadStatus::Running);
    let mut target = plain_thread(2, ThreadStatus::Ready);
    target.kernel_stack = 0x2_0000;
    target.user_stack = 0x4_0000;
    let copies = ThreadControlBlock::copy_stack(&source, &mut target);
    assert_eq!(
        copies,
        vec![
            MemoryAction::CopyBytes { from: 0x8000, to: 0x2_0000, len: 8192 },
            MemoryAction::CopyBytes { from: 0xA000, to: 0x4_0000, len: 16777216 },
        ]
    );
    assert_eq!(target.kernel_stack, 0x2_0000);
}
