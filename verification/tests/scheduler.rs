use kidneyos::error::KernelError;
use kidneyos::interrupts::{InterruptFlag, IntrLevel};
use kidneyos::mem::{KernelAllocator, UPPER_MEMORY_START};
use kidneyos::paging::PageManager;
use kidneyos::threading::context_switch::{switch_threads, ThreadSystem};
use kidneyos::threading::scheduling::fifo_scheduler::FIFOScheduler;
use kidneyos::threading::scheduling::scheduler::Scheduler;
use kidneyos::threading::scheduling::{
    create_scheduler, scheduler_yield, scheduler_yield_and_block, scheduler_yield_and_continue,
    scheduler_yield_and_die, YieldOutcome,
};
use kidneyos::threading::thread_control_block::{ThreadControlBlock, ThreadStatus, TidCounter};
use kidneyos::threading::thread_sleep::{thread_sleep, thread_wakeup};

const HEAP_TOP: usize = UPPER_MEMORY_START + 0x1_0000;

fn booted(mem_upper: usize) -> KernelAllocator {
    let mut allocator = KernelAllocator::new();
    assert_eq!(allocator.init(mem_upper, HEAP_TOP), Ok(()));
    allocator
}

fn thread(tid: u16, status: ThreadStatus) -> ThreadControlBlock {
    ThreadControlBlock {
        kernel_stack_pointer: 1,
        kernel_stack: 1,
        eip: 1,
        esp: 1,
        user_stack: 1,
        tid,
        status,
        exit_code: None,
        page_manager: PageManager::new(),
    }
}

fn system(running: u16, queued: &[(u16, ThreadStatus)]) -> ThreadSystem {
    let flag = InterruptFlag::new(IntrLevel::IntrOff);
    let mut scheduler = create_scheduler(&flag);
    for (tid, status) in queued {
        scheduler.push(thread(*tid, *status));
    }
    ThreadSystem::new(thread(running, ThreadStatus::Running), scheduler)
}

fn queue(system: &ThreadSystem) -> Vec<(u16, ThreadStatus)> {
    let scheduler = system.scheduler();
    (0..scheduler.len()).map(|i| (scheduler.peek(i).tid, scheduler.peek(i).status)).collect()
}

fn running_threads(system: &ThreadSystem) -> usize {
    let in_queue = queue(system).iter().filter(|(_, status)| *status == ThreadStatus::Running).count();
    in_queue + if system.running_thread().status == ThreadStatus::Running { 1 } else { 0 }
}

use ThreadStatus::{Blocked, Ready};

#[test]
fn fifo_scheduler_pops_in_the_order_of_the_pushes() {
    let mut scheduler = FIFOScheduler::new();
    assert!(scheduler.pop().is_none());
    scheduler.push(thread(5, Ready));
    scheduler.push(thread(3, Blocked));
    scheduler.push(thread(9, Ready));
    assert_eq!(scheduler.len(), 3);
    assert_eq!(scheduler.peek(1).tid, 3);
    assert_eq!(scheduler.pop().map(|t| t.tid), Some(5));
    scheduler.push(thread(1, Ready));
    assert_eq!(scheduler.pop().map(|t| t.tid), Some(3));
    assert_eq!(scheduler.pop().map(|t| t.tid), Some(9));
    assert_eq!(scheduler.pop().map(|t| t.tid), Some(1));
    assert!(scheduler.pop().is_none());
    assert_eq!(scheduler.len(), 0);
}

#[test]
fn get_mut_finds_the_first_thread_with_the_tid() {
    let mut scheduler = FIFOScheduler::new();
    scheduler.push(thread(5, Ready));
    scheduler.push(thread(3, Blocked));
    scheduler.push(thread(3, Ready));
    assert!(scheduler.get_mut(4).is_none());
    match scheduler.get_mut(3) {
        Some(found) => {
            assert_eq!(found.status, Blocked);
            found.exit_code = Some(7);
        },
        None => panic!("thread 3 is in the queue"),
    }
    assert_eq!(scheduler.peek(1).exit_code, Some(7));
    assert_eq!(scheduler.peek(2).exit_code, None);
    assert_eq!(scheduler.len(), 3);
}

#[test]
fn yield_switches_to_the_head_and_queues_the_yielder_at_the_tail() {
    let mut threads = system(0, &[(1, Ready), (2, Ready)]);
    let mut flag = InterruptFlag::new(IntrLevel::IntrOn);
    let mut allocator = KernelAllocator::new();
    let outcome = scheduler_yield_and_continue(&mut threads, &mut flag, &mut allocator);
    assert_eq!(outcome, YieldOutcome::Switched { from: 0, to: 1 });
    assert_eq!(threads.running_thread().tid, 1);
    assert_eq!(threads.running_thread().status, ThreadStatus::Running);
    assert_eq!(queue(&threads), vec![(2, Ready), (0, Ready)]);
    assert_eq!(flag.intr_get_level(), IntrLevel::IntrOn);
    assert_eq!(running_threads(&threads), 1);
}

#[test]
fn yield_skips_blocked_threads_and_moves_them_to_the_tail() {
    let mut threads = system(0, &[(1, Blocked), (2, Blocked), (3, Ready), (4, Blocked), (5, Ready)]);
    let mut flag = InterruptFlag::new(IntrLevel::IntrOff);
    let mut allocator = KernelAllocator::new();
    let outcome = scheduler_yield(&mut threads, ThreadStatus::Ready, &mut flag, &mut allocator);
    assert_eq!(outcome, YieldOutcome::Switched { from: 0, to: 3 });
    assert_eq!(queue(&threads), vec![(4, Blocked), (5, Ready), (1, Blocked), (2, Blocked), (0, Ready)]);
    assert_eq!(flag.intr_get_level(), IntrLevel::IntrOff);
    assert_eq!(running_threads(&threads), 1);
}

#[test]
fn yield_with_nothing_to_run_is_idle_and_changes_nothing() {
    let mut flag = InterruptFlag::new(IntrLevel::IntrOn);
    let mut allocator = KernelAllocator::new();
    let mut alone = system(7, &[]);
    assert_eq!(scheduler_yield_and_continue(&mut alone, &mut flag, &mut allocator), YieldOutcome::Idle);
    assert_eq!(alone.running_thread().tid, 7);
    assert_eq!(alone.running_thread().status, ThreadStatus::Running);
    let mut blocked = system(7, &[(1, Blocked), (2, Blocked), (3, Blocked)]);
    assert_eq!(scheduler_yield_and_block(&mut blocked, &mut flag, &mut allocator), YieldOutcome::Idle);
    assert_eq!(blocked.running_thread().tid, 7);
    assert_eq!(blocked.running_thread().status, ThreadStatus::Running);
    assert_eq!(queue(&blocked), vec![(1, Blocked), (2, Blocked), (3, Blocked)]);
    assert_eq!(flag.intr_get_level(), IntrLevel::IntrOn);
}

#[test]
fn yield_and_block_queues_the_yielder_blocked() {
    let mut threads = system(0, &[(1, Ready)]);
    let mut flag = InterruptFlag::new(IntrLevel::IntrOn);
    let mut allocator = KernelAllocator::new();
    let outcome = scheduler_yield_and_block(&mut threads, &mut flag, &mut allocator);
    assert_eq!(outcome, YieldOutcome::Switched { from: 0, to: 1 });
    assert_eq!(queue(&threads), vec![(0, Blocked)]);
    // thread 1 has nobody to switch to: thread 0 is blocked
    assert_eq!(scheduler_yield_and_continue(&mut threads, &mut flag, &mut allocator), YieldOutcome::Idle);
    assert_eq!(threads.running_thread().tid, 1);
}

#[test]
fn yield_and_die_never_comes_back() {
    let mut threads = system(4, &[(1, Ready), (2, Ready)]);
    let mut flag = InterruptFlag::new(IntrLevel::IntrOn);
    let mut allocator = booted(2048);
    assert_eq!(scheduler_yield_and_die(&mut threads, &mut flag, &mut allocator), Ok(1));
    assert_eq!(queue(&threads), vec![(2, Ready)]);
    // whatever yields follow, thread 4 never runs again
    for _ in 0..10 {
        scheduler_yield_and_continue(&mut threads, &mut flag, &mut allocator);
        assert!(threads.running_thread().tid != 4);
        assert!(queue(&threads).iter().all(|(tid, _)| *tid != 4));
    }
}

#[test]
fn yield_and_die_with_nobody_to_take_over_is_fatal() {
    let mut flag = InterruptFlag::new(IntrLevel::IntrOn);
    let mut allocator = booted(2048);
    let mut alone = system(4, &[]);
    let outcome = scheduler_yield_and_die(&mut alone, &mut flag, &mut allocator);
    assert_eq!(outcome, Err(KernelError::InvalidState));
    assert!(KernelError::InvalidState.fatal());
    assert_eq!(alone.running_thread().tid, 4);
    assert_eq!(alone.running_thread().status, ThreadStatus::Running);
    let mut blocked = system(4, &[(1, Blocked)]);
    assert_eq!(scheduler_yield_and_die(&mut blocked, &mut flag, &mut allocator), Err(KernelError::InvalidState));
    assert_eq!(queue(&blocked), vec![(1, Blocked)]);
}

#[test]
fn a_dying_thread_gives_its_stacks_back() {
    let mut allocator = booted(32 * 1024);
    let mut tids = TidCounter::new();
    let mut flag = InterruptFlag::new(IntrLevel::IntrOn);
    let kernel_thread = ThreadControlBlock::new_kernel_thread(PageManager::new(), &mut tids);
    let mut threads = ThreadSystem::new(kernel_thread, create_scheduler(&InterruptFlag::new(IntrLevel::IntrOff)));
    let (worker, _) = match ThreadControlBlock::new_func(0xC0DE, &mut tids, &mut allocator) {
        Ok(made) => made,
        Err(e) => panic!("{:?}", e),
    };
    threads.add_thread(worker);
    assert_eq!(allocator.total_num_frames_allocated(), 4098);
    assert_eq!(
        scheduler_yield_and_continue(&mut threads, &mut flag, &mut allocator),
        YieldOutcome::Switched { from: 0, to: 1 }
    );
    assert_eq!(allocator.total_num_frames_deallocated(), 0);
    assert_eq!(scheduler_yield_and_die(&mut threads, &mut flag, &mut allocator), Ok(0));
    assert_eq!(allocator.total_num_frames_deallocated(), 4098);
    assert_eq!(queue(&threads), vec![]);
    assert_eq!(allocator.find_free_run(allocator.num_frames()), Ok(0));
    assert_eq!(allocator.deinit(), Ok(()));
}

#[test]
fn switch_threads_does_the_bookkeeping_of_a_switch() {
    let mut threads = system(0, &[(1, Ready)]);
    let mut allocator = KernelAllocator::new();
    switch_threads(&mut threads, ThreadStatus::Blocked, thread(8, Ready), &mut allocator);
    assert_eq!(threads.running_thread().tid, 8);
    assert_eq!(threads.running_thread().status, ThreadStatus::Running);
    assert_eq!(queue(&threads), vec![(1, Ready), (0, Blocked)]);
    switch_threads(&mut threads, ThreadStatus::Dying, thread(9, Ready), &mut allocator);
    assert_eq!(threads.running_thread().tid, 9);
    assert_eq!(queue(&threads), vec![(1, Ready), (0, Blocked)]);
}

#[test]
fn two_thread_ping_pong() {
    let mut allocator = booted(64 * 1024);
    let mut tids = TidCounter::new();
    let mut flag = InterruptFlag::new(IntrLevel::IntrOn);
    let kernel_thread = ThreadControlBlock::new_kernel_thread(PageManager::new(), &mut tids);
    let mut threads = ThreadSystem::new(kernel_thread, create_scheduler(&InterruptFlag::new(IntrLevel::IntrOff)));
    for entry in [0xA000usize, 0xB000] {
        match ThreadControlBlock::new_func(entry, &mut tids, &mut allocator) {
            Ok((made, _)) => threads.add_thread(made),
            Err(e) => panic!("{:?}", e),
        }
    }
    let mut tags: Vec<char> = Vec::new();
    let mut printed = [0usize; 3];
    // every thread runs its loop body whenever it has the processor
    for _ in 0..100 {
        let tid = threads.running_thread().tid as usize;
        if tid == 0 {
            if queue(&threads).is_empty() {
                break;
            }
            scheduler_yield_and_continue(&mut threads, &mut flag, &mut allocator);
        } else if printed[tid] < 5 {
            tags.push(if threads.running_thread().eip == 0xA000 { 'A' } else { 'B' });
            printed[tid] += 1;
            scheduler_yield_and_continue(&mut threads, &mut flag, &mut allocator);
        } else {
            assert!(scheduler_yield_and_die(&mut threads, &mut flag, &mut allocator).is_ok());
        }
        assert_eq!(running_threads(&threads), 1);
    }
    assert_eq!(tags, vec!['A', 'B', 'A', 'B', 'A', 'B', 'A', 'B', 'A', 'B']);
    // both are reaped: nothing waits, and every frame is back
    assert_eq!(threads.running_thread().tid, 0);
    assert_eq!(queue(&threads), vec![]);
    assert_eq!(allocator.total_num_frames_allocated(), 2 * 4098);
    assert_eq!(allocator.total_num_frames_deallocated(), 2 * 4098);
    assert_eq!(allocator.deinit(), Ok(()));
}

#[test]
fn sleep_and_wake() {
    let mut allocator = KernelAllocator::new();
    let mut flag = InterruptFlag::new(IntrLevel::IntrOn);
    // S is thread 1; the main thread is thread 0
    let mut threads = system(1, &[(0, Ready)]);
    let mut resumed = 0;
    assert_eq!(thread_sleep(&mut threads, &mut flag, &mut allocator), YieldOutcome::Switched { from: 1, to: 0 });
    assert_eq!(queue(&threads), vec![(1, Blocked)]);
    // while S sleeps, yields of the main thread do not wake it
    assert_eq!(scheduler_yield_and_continue(&mut threads, &mut flag, &mut allocator), YieldOutcome::Idle);
    thread_wakeup(&mut threads, 1);
    assert_eq!(queue(&threads), vec![(1, Ready)]);
    assert_eq!(
        scheduler_yield_and_continue(&mut threads, &mut flag, &mut allocator),
        YieldOutcome::Switched { from: 0, to: 1 }
    );
    if threads.running_thread().tid == 1 {
        resumed += 1;
    }
    // S completes
    assert_eq!(scheduler_yield_and_die(&mut threads, &mut flag, &mut allocator), Ok(0));
    for _ in 0..5 {
        scheduler_yield_and_continue(&mut threads, &mut flag, &mut allocator);
        if threads.running_thread().tid == 1 {
            resumed += 1;
        }
    }
    assert_eq!(resumed, 1);
    assert_eq!(queue(&threads), vec![]);
}

#[test]
fn wakeup_of_a_thread_that_is_not_queued_does_nothing() {
    let mut threads = system(0, &[(1, Blocked), (2, Ready)]);
    thread_wakeup(&mut threads, 9);
    assert_eq!(queue(&threads), vec![(1, Blocked), (2, Ready)]);
    // the running thread is not in the queue
    thread_wakeup(&mut threads, 0);
    assert_eq!(threads.running_thread().status, ThreadStatus::Running);
    assert_eq!(queue(&threads), vec![(1, Blocked), (2, Ready)]);
    thread_wakeup(&mut threads, 2);
    assert_eq!(queue(&threads), vec![(1, Blocked), (2, Ready)]);
}

#[test]
fn a_woken_thread_runs_before_threads_queued_after_the_wakeup() {
    let mut allocator = KernelAllocator::new();
    let mut flag = InterruptFlag::new(IntrLevel::IntrOn);
    let mut threads = system(0, &[(1, Blocked), (2, Blocked), (3, Ready)]);
    thread_wakeup(&mut threads, 2);
    threads.add_thread(thread(4, Ready));
    threads.add_thread(thread(5, Ready));
    let mut order = Vec::new();
    for _ in 0..4 {
        scheduler_yield_and_continue(&mut threads, &mut flag, &mut allocator);
        order.push(threads.running_thread().tid);
    }
    assert_eq!(order, vec![2, 3, 4, 5]);
}

#[test]
fn a_thread_that_yields_runs_again_within_one_round() {
    let mut allocator = KernelAllocator::new();
    let mut flag = InterruptFlag::new(IntrLevel::IntrOn);
    let mut threads = system(0, &[(1, Ready), (2, Blocked), (3, Ready), (4, Ready)]);
    scheduler_yield_and_continue(&mut threads, &mut flag, &mut allocator);
    let waiting = queue(&threads).len();
    let mut yields = 0;
    while threads.running_thread().tid != 0 {
        scheduler_yield_and_continue(&mut threads, &mut flag, &mut allocator);
        yields += 1;
        assert!(yields <= waiting);
    }
    assert_eq!(yields, 3);
}

#[test]
fn the_running_thread_can_record_its_exit_code() {
    let mut threads = system(3, &[(1, Ready)]);
    threads.set_exit_code(42);
    assert_eq!(threads.running_thread().exit_code, Some(42));
    assert_eq!(threads.running_tid(), 3);
}
