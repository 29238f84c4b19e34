use vstd::prelude::*;
use crate::error::KernelError;
use crate::mem::frame_allocator::{CoreMapEntry, PAGE_FRAME_SIZE, frame_address, lemma_placement, marked, placement};
use crate::mem::{
    AllocatorPhase, KernelAllocator, OFFSET, frame_alloc_result, frames_after_release, frames_released,
    only_frames_differ, saturated,
};
use crate::mem::conservation::lemma_two_runs_round_trip;
use crate::paging::{Mapping, PageManager};
use crate::user_program::{VmAreaStruct, area_frames, area_len, area_valid};

verus! {

/// Thread identifier.
pub type Tid = u16;

/// Frames of a kernel stack.
pub const KERNEL_THREAD_STACK_FRAMES: usize = 2;

/// Bytes of a kernel stack.
pub const KERNEL_THREAD_STACK_SIZE: usize = 8192;

/// Frames of a user stack.
pub const USER_THREAD_STACK_FRAMES: usize = 4096;

/// Bytes of a user stack.
pub const USER_THREAD_STACK_SIZE: usize = 16777216;

/// User virtual address at which every user stack is mapped.
pub const USER_STACK_BOTTOM_VIRT: usize = 0x100000;

/// Bytes of the stack of a thread made by `create`: one frame.
pub const THREAD_STACK_SIZE: usize = 4096;

/// The address that stands for "no memory behind this pointer".
pub const DANGLING: usize = 1;

/// Bytes of the frame that the first switch into a thread consumes: the
/// four saved registers and the address to continue at.
pub const SWITCH_THREADS_CONTEXT_SIZE: usize = 20;

/// Bytes of the frame that names the function a thread runs.
pub const RUN_THREAD_CONTEXT_SIZE: usize = 8;

/// Bytes of the frame that leads from the first switch to that function.
pub const PREPARE_THREAD_CONTEXT_SIZE: usize = 4;

/// The counter from which thread identifiers are drawn.
pub struct TidCounter {
    next_unreserved_tid: Tid,
}

impl TidCounter {
    /// The identifier that the next call of `allocate_tid` gives.
    pub closed spec fn next(&self) -> Tid {
        self.next_unreserved_tid
    }

    /// A counter that starts at 0, the identifier of the kernel thread.
    pub fn new() -> (counter: TidCounter)
        ensures
            counter.next() == 0,
    {
        TidCounter { next_unreserved_tid: 0 }
    }
}

/// The identifier given `calls` calls after the counter stood at `start`.
pub open spec fn nth_tid(start: Tid, calls: nat) -> Tid {
    ((start + calls) % 0x1_0000) as Tid
}

/// Draws the next thread identifier. The counter goes up by one, and
/// from 65535 back to 0.
pub fn allocate_tid(counter: &mut TidCounter) -> (tid: Tid)
    ensures
        tid == old(counter).next(),
        tid == nth_tid(old(counter).next(), 0),
        final(counter).next() == nth_tid(old(counter).next(), 1),
{
    let tid: Tid = counter.next_unreserved_tid;
    counter.next_unreserved_tid = tid.wrapping_add(1);
    tid
}

/// The identifiers drawn by fewer than 65536 calls in a row are all different.
pub proof fn lemma_tids_distinct(start: Tid, i: nat, j: nat)
    requires
        i < j < 0x1_0000,
    ensures
        nth_tid(start, i) != nth_tid(start, j),
{
}

/// Drawing an identifier moves on to the next of the row: the identifier
/// given `calls + 1` calls after `start` is the one given one call after
/// the one given `calls` calls after `start`.
pub proof fn lemma_nth_tid_step(start: Tid, calls: nat)
    ensures
        nth_tid(start, calls + 1) == nth_tid(nth_tid(start, calls), 1),
{
}

/// What a thread is doing.
#[derive(Clone, Copy, Debug, PartialEq, Eq, Structural)]
pub enum ThreadStatus {
    Invalid,
    Running,
    Ready,
    Blocked,
    Dying,
}

/// A write to memory that goes with a step of the library. The library
/// decides on addresses and sizes; the kernel performs the write.
#[derive(Clone, Copy, Debug, PartialEq, Eq, Structural)]
pub enum MemoryAction {
    /// Fill the `len` bytes from `addr` on with zeros.
    Zero { addr: usize, len: usize },
    /// Copy `len` bytes of the program image, from byte `offset` on, to `addr`.
    LoadImage { addr: usize, offset: usize, len: usize },
    /// Copy `len` bytes from address `from` to address `to`.
    CopyBytes { from: usize, to: usize, len: usize },
    /// Write at `addr` the frame that the first switch into a thread consumes.
    WriteSwitchContext { addr: usize },
    /// Write at `addr` the frame that leads on to the thread's function.
    WritePrepareContext { addr: usize },
    /// Write at `addr` the frame that names the function at `entry`.
    WriteRunContext { addr: usize, entry: usize },
}

/// The state of one thread. Addresses are kernel virtual addresses, but
/// `eip` and `esp`, which the thread itself uses.
pub struct ThreadControlBlock {
    /// Where the kernel stack of the thread stands now.
    pub kernel_stack_pointer: usize,
    /// Lowest address of the kernel stack.
    pub kernel_stack: usize,
    /// The instruction at which the thread goes on.
    pub eip: usize,
    /// The stack pointer with which the thread goes on.
    pub esp: usize,
    /// Lowest address of the user stack.
    pub user_stack: usize,
    pub tid: Tid,
    pub status: ThreadStatus,
    pub exit_code: Option<i32>,
    pub page_manager: PageManager,
}

impl ThreadControlBlock {
    /// None of the five addresses is 0.
    pub open spec fn wf(&self) -> bool {
        &&& self.kernel_stack_pointer != 0
        &&& self.kernel_stack != 0
        &&& self.eip != 0
        &&& self.esp != 0
        &&& self.user_stack != 0
    }

    /// The stack pointer lies inside the kernel stack or at its top.
    pub open spec fn stack_in_bounds(&self) -> bool {
        self.kernel_stack <= self.kernel_stack_pointer <= self.kernel_stack + KERNEL_THREAD_STACK_SIZE
    }

    /// `bytes` more bytes fit on the kernel stack.
    pub open spec fn stack_space_for(&self, bytes: int) -> bool {
        self.kernel_stack_pointer - self.kernel_stack >= bytes
    }

    /// The thread with another stack pointer.
    pub open spec fn with_stack_pointer(self, pointer: usize) -> ThreadControlBlock {
        ThreadControlBlock { kernel_stack_pointer: pointer, ..self }
    }

    /// The thread with another status.
    pub open spec fn with_status(self, status: ThreadStatus) -> ThreadControlBlock {
        ThreadControlBlock { status, ..self }
    }

    /// The 'kernel thread': the thread that is running when threading
    /// starts. It owns no stack that could be released.
    pub fn new_kernel_thread(page_manager: PageManager, tids: &mut TidCounter) -> (thread: ThreadControlBlock)
        ensures
            thread.wf(),
            thread.kernel_stack_pointer == DANGLING,
            thread.kernel_stack == DANGLING,
            thread.eip == DANGLING,
            thread.esp == DANGLING,
            thread.user_stack == DANGLING,
            thread.tid == old(tids).next(),
            thread.status is Running,
            thread.exit_code is None,
            thread.page_manager == page_manager,
            final(tids).next() == nth_tid(old(tids).next(), 1),
    {
        ThreadControlBlock {
            kernel_stack_pointer: DANGLING,
            kernel_stack: DANGLING,
            eip: DANGLING,
            esp: DANGLING,
            user_stack: DANGLING,
            tid: allocate_tid(tids),
            status: ThreadStatus::Running,
            exit_code: None,
            page_manager,
        }
    }

    /// Check if `bytes` bytes will fit on the kernel stack.
    pub fn has_stack_space(&self, bytes: usize) -> (fits: bool)
        ensures
            fits == self.stack_space_for(bytes as int),
    {
        if self.kernel_stack_pointer < self.kernel_stack {
            return false;
        }
        self.kernel_stack_pointer - self.kernel_stack >= bytes
    }

    /// Moves the stack pointer down by `amount` and returns the new position.
    pub fn shift_stack_pointer_down(&mut self, amount: usize) -> (pointer: usize)
        requires
            old(self).wf(),
            old(self).stack_space_for(amount as int),
        ensures
            pointer == old(self).kernel_stack_pointer - amount,
            pointer >= old(self).kernel_stack,
            *final(self) == old(self).with_stack_pointer(pointer),
            final(self).wf(),
            old(self).stack_in_bounds() ==> final(self).stack_in_bounds(),
    {
        self.kernel_stack_pointer = self.kernel_stack_pointer - amount;
        self.kernel_stack_pointer
    }

    /// If possible without running over the bottom of the kernel stack,
    /// moves the stack pointer down by `bytes` and returns the new value.
    pub fn allocate_stack_space(&mut self, bytes: usize) -> (pointer: Option<usize>)
        requires
            old(self).wf(),
        ensures
            final(self).wf(),
            old(self).stack_in_bounds() ==> final(self).stack_in_bounds(),
            match pointer {
                Some(p) => {
                    &&& old(self).stack_space_for(bytes as int)
                    &&& p == old(self).kernel_stack_pointer - bytes
                    &&& *final(self) == old(self).with_stack_pointer(p)
                },
                None => !old(self).stack_space_for(bytes as int) && *final(self) == *old(self),
            },
    {
        if !self.has_stack_space(bytes) {
            return None;
        }
        Some(self.shift_stack_pointer_down(bytes))
    }

    /// Makes room on the kernel stack for the frame of a context switch.
    pub fn allocate_frame(&mut self) -> (pointer: Option<usize>)
        requires
            old(self).wf(),
        ensures
            final(self).wf(),
            old(self).stack_in_bounds() ==> final(self).stack_in_bounds(),
            match pointer {
                Some(p) => {
                    &&& old(self).stack_space_for(SWITCH_THREADS_CONTEXT_SIZE as int)
                    &&& p == old(self).kernel_stack_pointer - SWITCH_THREADS_CONTEXT_SIZE
                    &&& *final(self) == old(self).with_stack_pointer(p)
                },
                None => !old(self).stack_space_for(SWITCH_THREADS_CONTEXT_SIZE as int) && *final(self) == *old(self),
            },
    {
        self.allocate_stack_space(SWITCH_THREADS_CONTEXT_SIZE)
    }

    /// Records the code with which the thread ends.
    pub fn set_exit_code(&mut self, exit_code: i32)
        ensures
            *final(self) == (ThreadControlBlock { exit_code: Some(exit_code), ..*old(self) }),
    {
        self.exit_code = Some(exit_code);
    }

    /// The two copies that duplicate the stacks of `source` in those of
    /// `target`: first the kernel stack, then the user stack, each whole.
    pub fn copy_stack(source: &ThreadControlBlock, target: &mut ThreadControlBlock) -> (copies: Vec<MemoryAction>)
        ensures
            *final(target) == *old(target),
            copies@ == seq![
                MemoryAction::CopyBytes {
                    from: source.kernel_stack,
                    to: old(target).kernel_stack,
                    len: KERNEL_THREAD_STACK_SIZE,
                },
                MemoryAction::CopyBytes {
                    from: source.user_stack,
                    to: old(target).user_stack,
                    len: USER_THREAD_STACK_SIZE,
                },
            ],
    {
        let mut copies: Vec<MemoryAction> = Vec::new();
        copies.push(
            MemoryAction::CopyBytes {
                from: source.kernel_stack,
                to: target.kernel_stack,
                len: KERNEL_THREAD_STACK_SIZE,
            },
        );
        copies.push(
            MemoryAction::CopyBytes { from: source.user_stack, to: target.user_stack, len: USER_THREAD_STACK_SIZE },
        );
        assert(copies@ =~= seq![
            MemoryAction::CopyBytes {
                from: source.kernel_stack,
                to: old(target).kernel_stack,
                len: KERNEL_THREAD_STACK_SIZE,
            },
            MemoryAction::CopyBytes {
                from: source.user_stack,
                to: old(target).user_stack,
                len: USER_THREAD_STACK_SIZE,
            },
        ]);
        copies
    }
}

/// How far the making of a thread has come: the core map, the frames
/// counted as handed out, the mappings and the writes so far, and what
/// went wrong, if anything did.
pub struct Loaded {
    pub frames: Seq<CoreMapEntry>,
    pub counted: int,
    pub mappings: Seq<Mapping>,
    pub actions: Seq<MemoryAction>,
    pub error: Option<KernelError>,
}

/// The mapping of a user stack that lies at kernel address `user_stack`.
pub open spec fn user_stack_mapping(user_stack: int) -> Mapping {
    Mapping {
        phys: (user_stack - OFFSET) as usize,
        virt: USER_STACK_BOTTOM_VIRT,
        len: USER_THREAD_STACK_SIZE,
        writable: true,
        user: true,
    }
}

/// The stack pointer with which every thread with a user stack starts.
pub open spec fn initial_esp() -> int {
    USER_STACK_BOTTOM_VIRT + USER_THREAD_STACK_SIZE
}

impl ThreadControlBlock {
    /// Takes the frames of a kernel stack and returns its lowest address
    /// and its top; the stack is to be filled with zeros.
    fn allocate_kernel_stack(allocator: &mut KernelAllocator, actions: &mut Vec<MemoryAction>) -> (stack: Result<
        (usize, usize),
        KernelError,
    >)
        requires
            old(allocator).wf(),
        ensures
            final(allocator).wf(),
            match stack {
                Ok((bottom, top)) => {
                    &&& frame_alloc_result(
                        *old(allocator),
                        KERNEL_THREAD_STACK_FRAMES as int,
                        *final(allocator),
                        Ok(bottom),
                    )
                    &&& bottom >= OFFSET
                    &&& top == bottom + KERNEL_THREAD_STACK_SIZE
                    &&& final(actions)@ == old(actions)@.push(
                        MemoryAction::Zero { addr: bottom, len: KERNEL_THREAD_STACK_SIZE },
                    )
                },
                Err(e) => {
                    &&& frame_alloc_result(
                        *old(allocator),
                        KERNEL_THREAD_STACK_FRAMES as int,
                        *final(allocator),
                        Err(e),
                    )
                    &&& final(actions)@ == old(actions)@
                },
            },
    {
        proof {
            allocator.lemma_wf();
        }
        match allocator.frame_alloc(KERNEL_THREAD_STACK_FRAMES) {
            Ok(bottom) => {
                let top: usize = bottom + KERNEL_THREAD_STACK_SIZE;
                actions.push(MemoryAction::Zero { addr: bottom, len: KERNEL_THREAD_STACK_SIZE });
                Ok((bottom, top))
            },
            Err(e) => Err(e),
        }
    }

    /// Takes the frames of a user stack, maps them at the address at
    /// which every user stack stands, and returns the kernel address of
    /// the stack; with `zero_init` the stack is to be filled with zeros.
    fn allocate_user_stack(
        allocator: &mut KernelAllocator,
        page_manager: &mut PageManager,
        zero_init: bool,
        actions: &mut Vec<MemoryAction>,
    ) -> (stack: Result<usize, KernelError>)
        requires
            old(allocator).wf(),
        ensures
            final(allocator).wf(),
            frame_alloc_result(*old(allocator), USER_THREAD_STACK_FRAMES as int, *final(allocator), stack),
            match stack {
                Ok(bottom) => {
                    &&& bottom >= OFFSET
                    &&& final(page_manager)@ == old(page_manager)@.push(user_stack_mapping(bottom as int))
                    &&& final(actions)@ == if zero_init {
                        old(actions)@.push(MemoryAction::Zero { addr: bottom, len: USER_THREAD_STACK_SIZE })
                    } else {
                        old(actions)@
                    }
                },
                Err(e) => final(page_manager)@ == old(page_manager)@ && final(actions)@ == old(actions)@,
            },
    {
        match allocator.frame_alloc(USER_THREAD_STACK_FRAMES) {
            Ok(bottom) => {
                page_manager.map_range(bottom - OFFSET, USER_STACK_BOTTOM_VIRT, USER_THREAD_STACK_SIZE, true, true);
                if zero_init {
                    actions.push(MemoryAction::Zero { addr: bottom, len: USER_THREAD_STACK_SIZE });
                }
                Ok(bottom)
            },
            Err(e) => Err(e),
        }
    }

    /// Puts on the kernel stack the frame that the first switch into the
    /// thread consumes. Fails with `StackOverflow`, and changes nothing,
    /// where the stack has no room for it.
    fn setup_context(new_thread: &mut ThreadControlBlock, actions: &mut Vec<MemoryAction>) -> (done: Result<
        (),
        KernelError,
    >)
        requires
            old(new_thread).wf(),
        ensures
            final(new_thread).wf(),
            match done {
                Ok(_) => {
                    let pointer = (old(new_thread).kernel_stack_pointer - SWITCH_THREADS_CONTEXT_SIZE) as usize;
                    &&& old(new_thread).stack_space_for(SWITCH_THREADS_CONTEXT_SIZE as int)
                    &&& *final(new_thread) == old(new_thread).with_stack_pointer(pointer)
                    &&& final(actions)@ == old(actions)@.push(MemoryAction::WriteSwitchContext { addr: pointer })
                },
                Err(e) => {
                    &&& e == KernelError::StackOverflow
                    &&& !old(new_thread).stack_space_for(SWITCH_THREADS_CONTEXT_SIZE as int)
                    &&& *final(new_thread) == *old(new_thread)
                    &&& final(actions)@ == old(actions)@
                },
            },
    {
        match new_thread.allocate_stack_space(SWITCH_THREADS_CONTEXT_SIZE) {
            Some(pointer) => {
                actions.push(MemoryAction::WriteSwitchContext { addr: pointer });
                Ok(())
            },
            None => Err(KernelError::StackOverflow),
        }
    }

    /// What placing the two stacks of a thread gives and does, on frames
    /// and records as `so_far` has them. The kernel stack is placed, then
    /// the user stack, each at the lowest frames that are free. The call
    /// fails with `OutOfMemory` at the first that finds no place; a stack
    /// that was placed stays so. The kernel stack is to be filled with
    /// zeros, and with `zero_user` the user stack too.
    pub open spec fn stacks_placed(
        entry: usize,
        tid: Tid,
        zero_user: bool,
        base: int,
        so_far: Loaded,
        after: Loaded,
        made: Result<(ThreadControlBlock, Vec<MemoryAction>), KernelError>,
    ) -> bool {
        match placement(so_far.frames, KERNEL_THREAD_STACK_FRAMES as int) {
            None => {
                &&& made matches Err(e)
                &&& e == KernelError::OutOfMemory
                &&& after.frames == so_far.frames
                &&& after.counted == so_far.counted
            },
            Some(k) => {
                let with_kernel = marked(so_far.frames, k, KERNEL_THREAD_STACK_FRAMES as int);
                let counted = saturated(so_far.counted + KERNEL_THREAD_STACK_FRAMES);
                match placement(with_kernel, USER_THREAD_STACK_FRAMES as int) {
                    None => {
                        &&& made matches Err(e)
                        &&& e == KernelError::OutOfMemory
                        &&& after.frames == with_kernel
                        &&& after.counted == counted
                    },
                    Some(u) => {
                        let kernel_stack = frame_address(base, k);
                        let user_stack = frame_address(base, u);
                        let pointer = kernel_stack + KERNEL_THREAD_STACK_SIZE - SWITCH_THREADS_CONTEXT_SIZE;
                        let zero_kernel = MemoryAction::Zero {
                            addr: kernel_stack as usize,
                            len: KERNEL_THREAD_STACK_SIZE,
                        };
                        let zero_user_stack = MemoryAction::Zero {
                            addr: user_stack as usize,
                            len: USER_THREAD_STACK_SIZE,
                        };
                        let context = MemoryAction::WriteSwitchContext { addr: pointer as usize };
                        &&& after.frames == marked(with_kernel, u, USER_THREAD_STACK_FRAMES as int)
                        &&& after.counted == saturated(counted + USER_THREAD_STACK_FRAMES)
                        &&& made matches Ok(pair)
                        &&& pair.0.kernel_stack == kernel_stack
                        &&& pair.0.kernel_stack_pointer == pointer
                        &&& pair.0.user_stack == user_stack
                        &&& pair.0.eip == entry
                        &&& pair.0.esp == initial_esp()
                        &&& pair.0.tid == tid
                        &&& pair.0.status is Ready
                        &&& pair.0.exit_code is None
                        &&& pair.0.page_manager@ == so_far.mappings.push(user_stack_mapping(user_stack))
                        &&& pair.1@ == if zero_user {
                            so_far.actions.push(zero_kernel).push(zero_user_stack).push(context)
                        } else {
                            so_far.actions.push(zero_kernel).push(context)
                        }
                    },
                }
            },
        }
    }

    /// Places the stacks of a thread that starts at `entry` and finishes
    /// the thread: see `stacks_placed`.
    #[verifier::rlimit(40)]
    fn with_stacks(
        entry: usize,
        tid: Tid,
        page_manager: PageManager,
        actions: Vec<MemoryAction>,
        zero_init: bool,
        allocator: &mut KernelAllocator,
    ) -> (made: Result<(ThreadControlBlock, Vec<MemoryAction>), KernelError>)
        requires
            entry != 0,
            old(allocator).wf(),
            old(allocator).phase() is Initialized,
        ensures
            final(allocator).wf(),
            only_frames_differ(*old(allocator), *final(allocator)),
            final(allocator).frames_deallocated() == old(allocator).frames_deallocated(),
            Self::stacks_placed(
                entry,
                tid,
                zero_init,
                old(allocator).base(),
                Loaded {
                    frames: old(allocator).frames(),
                    counted: old(allocator).frames_allocated() as int,
                    mappings: page_manager@,
                    actions: actions@,
                    error: None,
                },
                Loaded {
                    frames: final(allocator).frames(),
                    counted: final(allocator).frames_allocated() as int,
                    mappings: Seq::empty(),
                    actions: Seq::empty(),
                    error: None,
                },
                made,
            ),
            made matches Ok(pair) ==> pair.0.wf() && pair.0.stack_in_bounds(),
    {
        let mut page_manager = page_manager;
        let mut actions = actions;
        let (kernel_stack, kernel_stack_pointer_top) = match Self::allocate_kernel_stack(allocator, &mut actions) {
            Ok(stack) => stack,
            Err(e) => {
                return Err(e);
            },
        };
        let user_stack: usize = match Self::allocate_user_stack(
            allocator,
            &mut page_manager,
            zero_init,
            &mut actions,
        ) {
            Ok(stack) => stack,
            Err(e) => {
                return Err(e);
            },
        };
        let mut new_thread = ThreadControlBlock {
            kernel_stack_pointer: kernel_stack_pointer_top,
            kernel_stack,
            eip: entry,
            esp: USER_STACK_BOTTOM_VIRT + USER_THREAD_STACK_SIZE,
            user_stack,
            tid,
            status: ThreadStatus::Invalid,
            exit_code: None,
            page_manager,
        };
        match Self::setup_context(&mut new_thread, &mut actions) {
            Ok(_) => {},
            Err(e) => {
                return Err(e);
            },
        }
        new_thread.status = ThreadStatus::Ready;
        Ok((new_thread, actions))
    }

    /// What `new_func` gives and does. The identifier is drawn first.
    /// Where the allocator is not `Initialized` the call fails with
    /// `InvalidState`. Else the stacks are placed as `stacks_placed` says,
    /// both to be filled with zeros; the user stack is the one mapping of
    /// the thread.
    pub open spec fn new_func_result(
        entry_instruction: usize,
        tid: Tid,
        before: KernelAllocator,
        after: KernelAllocator,
        made: Result<(ThreadControlBlock, Vec<MemoryAction>), KernelError>,
    ) -> bool {
        &&& only_frames_differ(before, after)
        &&& after.frames_deallocated() == before.frames_deallocated()
        &&& if !(before.phase() is Initialized) {
            &&& made matches Err(e)
            &&& e == KernelError::InvalidState
            &&& after.frames() == before.frames()
            &&& after.frames_allocated() == before.frames_allocated()
        } else {
            Self::stacks_placed(
                entry_instruction,
                tid,
                true,
                before.base(),
                Loaded {
                    frames: before.frames(),
                    counted: before.frames_allocated() as int,
                    mappings: Seq::empty(),
                    actions: Seq::empty(),
                    error: None,
                },
                Loaded {
                    frames: after.frames(),
                    counted: after.frames_allocated() as int,
                    mappings: Seq::empty(),
                    actions: Seq::empty(),
                    error: None,
                },
                made,
            )
        }
    }

    /// Makes a thread that runs the code at `entry_instruction`, with a
    /// kernel stack and a user stack of its own, both to be filled with
    /// zeros, and ready to be switched to. The list says what is to be
    /// written to memory before the thread first runs.
    pub fn new_func(entry_instruction: usize, tids: &mut TidCounter, allocator: &mut KernelAllocator) -> (made:
        Result<(ThreadControlBlock, Vec<MemoryAction>), KernelError>)
        requires
            entry_instruction != 0,
            old(allocator).wf(),
        ensures
            final(allocator).wf(),
            final(tids).next() == nth_tid(old(tids).next(), 1),
            Self::new_func_result(entry_instruction, old(tids).next(), *old(allocator), *final(allocator), made),
            made matches Ok(pair) ==> pair.0.wf() && pair.0.stack_in_bounds(),
    {
        let tid: Tid = allocate_tid(tids);
        match allocator.current_phase() {
            AllocatorPhase::Initialized => {},
            _ => {
                return Err(KernelError::InvalidState);
            },
        }
        Self::with_stacks(entry_instruction, tid, PageManager::new(), Vec::new(), true, allocator)
    }
}

impl ThreadControlBlock {
    /// What `create` gives and does. The identifier is drawn first. The
    /// stack is placed at the lowest free frame; the call fails with
    /// `OutOfMemory` where no frame is free, and with `InvalidState` where
    /// the allocator is not `Initialized`.
    pub open spec fn create_result(
        entry_function: usize,
        tid: Tid,
        before: KernelAllocator,
        after: KernelAllocator,
        made: Result<(ThreadControlBlock, Vec<MemoryAction>), KernelError>,
    ) -> bool {
        &&& frame_alloc_result(
            before,
            1,
            after,
            match made {
                Ok(pair) => Ok(pair.0.kernel_stack),
                Err(e) => Err(e),
            },
        )
        &&& made matches Ok(pair) ==> {
            let top = pair.0.kernel_stack + THREAD_STACK_SIZE;
            let run = (top - RUN_THREAD_CONTEXT_SIZE) as usize;
            let prepare = (run - PREPARE_THREAD_CONTEXT_SIZE) as usize;
            let switch = (prepare - SWITCH_THREADS_CONTEXT_SIZE) as usize;
            &&& pair.0.kernel_stack_pointer == switch
            &&& pair.0.user_stack == DANGLING
            &&& pair.0.eip == entry_function
            &&& pair.0.esp == DANGLING
            &&& pair.0.tid == tid
            &&& pair.0.status is Ready
            &&& pair.0.exit_code is None
            &&& pair.0.page_manager@ == Seq::<Mapping>::empty()
            &&& pair.1@ == seq![
                MemoryAction::Zero { addr: pair.0.kernel_stack, len: THREAD_STACK_SIZE },
                MemoryAction::WriteRunContext { addr: run, entry: entry_function },
                MemoryAction::WritePrepareContext { addr: prepare },
                MemoryAction::WriteSwitchContext { addr: switch },
            ]
        }
    }

    /// Makes a kernel thread that runs the function at `entry_function` on
    /// a stack of one frame, to be filled with zeros. Three frames are put
    /// on the stack, from the top down: the one that names the function,
    /// the one that leads on to it, and the one that the first switch into
    /// the thread consumes. The thread has no user stack and no mappings.
    pub fn create(entry_function: usize, tids: &mut TidCounter, allocator: &mut KernelAllocator) -> (made: Result<
        (ThreadControlBlock, Vec<MemoryAction>),
        KernelError,
    >)
        requires
            entry_function != 0,
            old(allocator).wf(),
        ensures
            final(allocator).wf(),
            final(tids).next() == nth_tid(old(tids).next(), 1),
            Self::create_result(entry_function, old(tids).next(), *old(allocator), *final(allocator), made),
            made matches Ok(pair) ==> pair.0.wf() && pair.0.stack_in_bounds(),
    {
        let tid: Tid = allocate_tid(tids);
        proof {
            allocator.lemma_wf();
        }
        let stack_pointer_bottom: usize = match allocator.frame_alloc(1) {
            Ok(stack) => stack,
            Err(e) => {
                return Err(e);
            },
        };
        let stack_pointer_top: usize = stack_pointer_bottom + THREAD_STACK_SIZE;
        let mut actions: Vec<MemoryAction> = Vec::new();
        actions.push(MemoryAction::Zero { addr: stack_pointer_bottom, len: THREAD_STACK_SIZE });
        let mut new_thread = ThreadControlBlock {
            kernel_stack_pointer: stack_pointer_top,
            kernel_stack: stack_pointer_bottom,
            eip: entry_function,
            esp: DANGLING,
            user_stack: DANGLING,
            tid,
            status: ThreadStatus::Invalid,
            exit_code: None,
            page_manager: PageManager::new(),
        };
        let run_thread_stack_frame: usize = new_thread.shift_stack_pointer_down(RUN_THREAD_CONTEXT_SIZE);
        actions.push(MemoryAction::WriteRunContext { addr: run_thread_stack_frame, entry: entry_function });
        let prepare_thread_stack_frame: usize = new_thread.shift_stack_pointer_down(PREPARE_THREAD_CONTEXT_SIZE);
        actions.push(MemoryAction::WritePrepareContext { addr: prepare_thread_stack_frame });
        let switch_threads_stack_frame: usize = new_thread.shift_stack_pointer_down(SWITCH_THREADS_CONTEXT_SIZE);
        actions.push(MemoryAction::WriteSwitchContext { addr: switch_threads_stack_frame });
        new_thread.status = ThreadStatus::Ready;
        proof {
            assert(actions@ =~= seq![
                MemoryAction::Zero { addr: stack_pointer_bottom, len: THREAD_STACK_SIZE },
                MemoryAction::WriteRunContext { addr: run_thread_stack_frame, entry: entry_function },
                MemoryAction::WritePrepareContext { addr: prepare_thread_stack_frame },
                MemoryAction::WriteSwitchContext { addr: switch_threads_stack_frame },
            ]);
        }
        Ok((new_thread, actions))
    }

    /// The thread after `reap`. A thread that is `Invalid` already is left
    /// as it is. Any other becomes `Invalid`, and unless it is the kernel
    /// thread, thread 0, its stack pointer, `eip` and `esp` point nowhere
    /// from then on.
    pub open spec fn reaped(self) -> ThreadControlBlock {
        if self.status is Invalid {
            self
        } else if self.tid == 0 {
            self.with_status(ThreadStatus::Invalid)
        } else {
            ThreadControlBlock {
                kernel_stack_pointer: DANGLING,
                eip: DANGLING,
                esp: DANGLING,
                status: ThreadStatus::Invalid,
                ..self
            }
        }
    }

    /// What `reap` does to the allocator. Unless the thread is `Invalid`
    /// already or is the kernel thread, thread 0, its kernel stack and then
    /// its user stack are given back with `frame_dealloc`. Nothing else
    /// changes.
    pub open spec fn reap_releases(thread: ThreadControlBlock, before: KernelAllocator, after: KernelAllocator) -> bool {
        let base = before.base();
        let slabs = before.slabs();
        let first = frames_released(base, before.frames(), slabs, thread.kernel_stack as int);
        let between = frames_after_release(base, before.frames(), slabs, thread.kernel_stack as int);
        let second = frames_released(base, between, slabs, thread.user_stack as int);
        &&& only_frames_differ(before, after)
        &&& after.frames_allocated() == before.frames_allocated()
        &&& if !(thread.status is Invalid) && thread.tid != 0 && before.phase() is Initialized {
            &&& after.frames() == frames_after_release(base, between, slabs, thread.user_stack as int)
            &&& after.frames_deallocated() == saturated(saturated(before.frames_deallocated() + first) + second)
        } else {
            &&& after.frames() == before.frames()
            &&& after.frames_deallocated() == before.frames_deallocated()
        }
    }

    /// Releases what a dying thread holds. Only a thread that is `Dying`
    /// is reaped; one that is `Invalid` has been reaped before.
    pub fn reap(&mut self, allocator: &mut KernelAllocator)
        requires
            old(self).status is Dying || old(self).status is Invalid,
            old(allocator).wf(),
        ensures
            final(allocator).wf(),
            *final(self) == old(self).reaped(),
            Self::reap_releases(*old(self), *old(allocator), *final(allocator)),
    {
        if self.status == ThreadStatus::Invalid {
            return ;
        }
        if self.tid != 0 {
            self.kernel_stack_pointer = DANGLING;
            self.eip = DANGLING;
            self.esp = DANGLING;
            let _ = allocator.frame_dealloc(self.kernel_stack);
            let _ = allocator.frame_dealloc(self.user_stack);
        }
        self.status = ThreadStatus::Invalid;
    }
}

/// How far the making of a thread has come after the area `area` of an
/// image of `image_len` bytes was loaded. An area that the image does not
/// hold stops the loading with `MalformedImage`. The frames of the area
/// are placed at the lowest frames that are free, and `OutOfMemory` stops
/// the loading where there are none. The frames are mapped at the
/// addresses of the area, for the user, writable as the area says; the
/// bytes of the area are to be copied from the image, and the rest of the
/// last frame is to be filled with zeros. Once the loading has stopped,
/// nothing more is done.
pub open spec fn load_area(base: int, so_far: Loaded, area: VmAreaStruct, image_len: int) -> Loaded {
    if so_far.error is Some {
        so_far
    } else if !area_valid(area, image_len) {
        Loaded { error: Some(KernelError::MalformedImage), ..so_far }
    } else {
        match placement(so_far.frames, area_frames(area)) {
            None => Loaded { error: Some(KernelError::OutOfMemory), ..so_far },
            Some(index) => {
                let addr = frame_address(base, index);
                let bytes = area_frames(area) * PAGE_FRAME_SIZE;
                Loaded {
                    frames: marked(so_far.frames, index, area_frames(area)),
                    counted: saturated(so_far.counted + area_frames(area)),
                    mappings: so_far.mappings.push(
                        Mapping {
                            phys: (addr - OFFSET) as usize,
                            virt: area.vm_start,
                            len: bytes as usize,
                            writable: area.flags.write,
                            user: true,
                        },
                    ),
                    actions: so_far.actions.push(
                        MemoryAction::LoadImage {
                            addr: addr as usize,
                            offset: area.offset,
                            len: area_len(area) as usize,
                        },
                    ).push(
                        MemoryAction::Zero {
                            addr: (addr + area_len(area)) as usize,
                            len: (bytes - area_len(area)) as usize,
                        },
                    ),
                    error: None,
                }
            },
        }
    }
}

/// How far the making of a thread has come after the areas `areas` were
/// loaded, one after the other.
pub open spec fn load_areas(base: int, so_far: Loaded, areas: Seq<VmAreaStruct>, image_len: int) -> Loaded
    decreases areas.len(),
{
    if areas.len() == 0 {
        so_far
    } else {
        load_areas(base, load_area(base, so_far, areas[0], image_len), areas.drop_first(), image_len)
    }
}

/// Once the loading has stopped, further areas change nothing.
pub proof fn lemma_load_stopped(base: int, so_far: Loaded, areas: Seq<VmAreaStruct>, image_len: int)
    requires
        so_far.error is Some,
    ensures
        load_areas(base, so_far, areas, image_len) == so_far,
    decreases areas.len(),
{
    if areas.len() > 0 {
        lemma_load_stopped(base, so_far, areas.drop_first(), image_len);
    }
}

impl ThreadControlBlock {
    /// Loads one area of a program: see `load_area`.
    #[verifier::rlimit(40)]
    fn load_one(
        area: VmAreaStruct,
        image_len: usize,
        allocator: &mut KernelAllocator,
        page_manager: &mut PageManager,
        actions: &mut Vec<MemoryAction>,
    ) -> (done: Result<(), KernelError>)
        requires
            old(allocator).wf(),
            old(allocator).phase() is Initialized,
        ensures
            final(allocator).wf(),
            only_frames_differ(*old(allocator), *final(allocator)),
            final(allocator).frames_deallocated() == old(allocator).frames_deallocated(),
            ({
                let loaded = load_area(
                    old(allocator).base(),
                    Loaded {
                        frames: old(allocator).frames(),
                        counted: old(allocator).frames_allocated() as int,
                        mappings: old(page_manager)@,
                        actions: old(actions)@,
                        error: None,
                    },
                    area,
                    image_len as int,
                );
                &&& final(allocator).frames() == loaded.frames
                &&& final(allocator).frames_allocated() == loaded.counted
                &&& final(page_manager)@ == loaded.mappings
                &&& final(actions)@ == loaded.actions
                &&& match done {
                    Ok(_) => loaded.error is None,
                    Err(e) => loaded.error == Some(e),
                }
            }),
    {
        if area.vm_end < area.vm_start {
            return Err(KernelError::MalformedImage);
        }
        let len: usize = area.vm_end - area.vm_start;
        match area.offset.checked_add(len) {
            None => {
                return Err(KernelError::MalformedImage);
            },
            Some(end) => {
                if end > image_len {
                    return Err(KernelError::MalformedImage);
                }
            },
        }
        let frames: usize = len / PAGE_FRAME_SIZE + if len % PAGE_FRAME_SIZE != 0 { 1 } else { 0 };
        assert(frames == area_frames(area));
        proof {
            allocator.lemma_wf();
        }
        match allocator.frame_alloc(frames) {
            Err(e) => Err(e),
            Ok(kernel_virt_addr) => {
                let bytes: usize = frames * PAGE_FRAME_SIZE;
                page_manager.map_range(kernel_virt_addr - OFFSET, area.vm_start, bytes, area.flags.write, true);
                actions.push(MemoryAction::LoadImage { addr: kernel_virt_addr, offset: area.offset, len });
                actions.push(MemoryAction::Zero { addr: kernel_virt_addr + len, len: bytes - len });
                Ok(())
            },
        }
    }

    /// What `new_elf` gives and does. The identifier is drawn first. The
    /// call fails with `InvalidState` where the allocator is not
    /// `Initialized`, and with `MalformedImage` where the entry point is
    /// 0. Then the areas are loaded in their order, as `load_areas` says,
    /// and the call fails with what stopped the loading, if anything did.
    /// Then the stacks are placed as `stacks_placed` says; the kernel stack
    /// is to be filled with zeros, the user stack is not.
    pub open spec fn new_elf_result(
        image_len: int,
        entrypoint: usize,
        areas: Seq<VmAreaStruct>,
        tid: Tid,
        before: KernelAllocator,
        after: KernelAllocator,
        made: Result<(ThreadControlBlock, Vec<MemoryAction>), KernelError>,
    ) -> bool {
        let start = Loaded {
            frames: before.frames(),
            counted: before.frames_allocated() as int,
            mappings: Seq::empty(),
            actions: Seq::empty(),
            error: None,
        };
        let end = Loaded {
            frames: after.frames(),
            counted: after.frames_allocated() as int,
            mappings: Seq::empty(),
            actions: Seq::empty(),
            error: None,
        };
        let loaded = load_areas(before.base(), start, areas, image_len);
        &&& only_frames_differ(before, after)
        &&& after.frames_deallocated() == before.frames_deallocated()
        &&& if !(before.phase() is Initialized) {
            &&& made matches Err(e)
            &&& e == KernelError::InvalidState
            &&& after.frames() == before.frames()
            &&& after.frames_allocated() == before.frames_allocated()
        } else if entrypoint == 0 {
            &&& made matches Err(e)
            &&& e == KernelError::MalformedImage
            &&& after.frames() == before.frames()
            &&& after.frames_allocated() == before.frames_allocated()
        } else {
            match loaded.error {
                Some(stopped) => {
                    &&& made matches Err(e)
                    &&& e == stopped
                    &&& after.frames() == loaded.frames
                    &&& after.frames_allocated() == loaded.counted
                },
                None => Self::stacks_placed(entrypoint, tid, false, before.base(), loaded, end, made),
            }
        }
    }

    /// Makes a thread that runs a program. `elf_data` is the image of the
    /// program, `entrypoint` the address at which it starts, and `vm_areas`
    /// the areas of memory that the image describes. The list says what is
    /// to be written to memory before the thread first runs.
    #[verifier::loop_isolation(false)]
    #[verifier::rlimit(40)]
    pub fn new_elf(
        elf_data: &[u8],
        entrypoint: usize,
        vm_areas: &Vec<VmAreaStruct>,
        tids: &mut TidCounter,
        allocator: &mut KernelAllocator,
    ) -> (made: Result<(ThreadControlBlock, Vec<MemoryAction>), KernelError>)
        requires
            old(allocator).wf(),
        ensures
            final(allocator).wf(),
            final(tids).next() == nth_tid(old(tids).next(), 1),
            Self::new_elf_result(
                elf_data@.len() as int,
                entrypoint,
                vm_areas@,
                old(tids).next(),
                *old(allocator),
                *final(allocator),
                made,
            ),
            made matches Ok(pair) ==> pair.0.wf() && pair.0.stack_in_bounds(),
    {
        let tid: Tid = allocate_tid(tids);
        match allocator.current_phase() {
            AllocatorPhase::Initialized => {},
            _ => {
                return Err(KernelError::InvalidState);
            },
        }
        if entrypoint == 0 {
            return Err(KernelError::MalformedImage);
        }
        let image_len: usize = elf_data.len();
        let mut page_manager: PageManager = PageManager::new();
        let mut actions: Vec<MemoryAction> = Vec::new();
        let ghost base = allocator.base();
        let ghost start = Loaded {
            frames: allocator.frames(),
            counted: allocator.frames_allocated() as int,
            mappings: Seq::empty(),
            actions: Seq::empty(),
            error: None,
        };
        assert(vm_areas@.skip(0) =~= vm_areas@);
        let mut i: usize = 0;
        while i < vm_areas.len()
            invariant
                i <= vm_areas@.len(),
                image_len == elf_data@.len(),
                allocator.wf(),
                allocator.phase() is Initialized,
                allocator.base() == base,
                only_frames_differ(*old(allocator), *allocator),
                allocator.frames_deallocated() == old(allocator).frames_deallocated(),
                load_areas(base, start, vm_areas@, image_len as int) == load_areas(
                    base,
                    Loaded {
                        frames: allocator.frames(),
                        counted: allocator.frames_allocated() as int,
                        mappings: page_manager@,
                        actions: actions@,
                        error: None,
                    },
                    vm_areas@.skip(i as int),
                    image_len as int,
                ),
            decreases vm_areas@.len() - i,
        {
            let ghost here = Loaded {
                frames: allocator.frames(),
                counted: allocator.frames_allocated() as int,
                mappings: page_manager@,
                actions: actions@,
                error: None,
            };
            let ghost rest = vm_areas@.skip(i as int);
            proof {
                assert(rest[0] == vm_areas@[i as int]);
                assert(rest.drop_first() =~= vm_areas@.skip(i + 1));
            }
            match Self::load_one(vm_areas[i], image_len, allocator, &mut page_manager, &mut actions) {
                Ok(_) => {},
                Err(e) => {
                    proof {
                        lemma_load_stopped(
                            base,
                            load_area(base, here, vm_areas@[i as int], image_len as int),
                            vm_areas@.skip(i + 1),
                            image_len as int,
                        );
                    }
                    return Err(e);
                },
            }
            proof {
                let next = load_area(base, here, vm_areas@[i as int], image_len as int);
                assert(next == (Loaded {
                    frames: allocator.frames(),
                    counted: allocator.frames_allocated() as int,
                    mappings: page_manager@,
                    actions: actions@,
                    error: None,
                }));
            }
            i += 1;
        }
        assert(vm_areas@.skip(i as int).len() == 0);
        Self::with_stacks(entrypoint, tid, page_manager, actions, false, allocator)
    }

    /// A thread that is made and reaped leaves the frames as they were:
    /// `new_func` and then `reap`, once the thread is dying, give the core
    /// map back as it was, and as many frames are counted as given back
    /// as were counted as handed out. This holds of every thread but
    /// thread 0, which keeps its stacks, and as long as the counter of
    /// frames handed out stays below `usize::MAX`.
    #[verifier::rlimit(40)]
    pub proof fn lemma_new_func_then_reap(
        entry_instruction: usize,
        tid: Tid,
        before: KernelAllocator,
        between: KernelAllocator,
        made: Result<(ThreadControlBlock, Vec<MemoryAction>), KernelError>,
        after: KernelAllocator,
    )
        requires
            before.wf(),
            Self::new_func_result(entry_instruction, tid, before, between, made),
            made is Ok,
            tid != 0,
            before.frames_allocated() + KERNEL_THREAD_STACK_FRAMES + USER_THREAD_STACK_FRAMES < usize::MAX,
            Self::reap_releases(made->Ok_0.0.with_status(ThreadStatus::Dying), between, after),
        ensures
            after.frames() == before.frames(),
            after.frames_allocated() - before.frames_allocated() == KERNEL_THREAD_STACK_FRAMES
                + USER_THREAD_STACK_FRAMES,
            after.frames_deallocated() - before.frames_deallocated() == KERNEL_THREAD_STACK_FRAMES
                + USER_THREAD_STACK_FRAMES,
    {
        before.lemma_wf();
        lemma_placement(before.frames(), KERNEL_THREAD_STACK_FRAMES as int, 0);
        let k = placement(before.frames(), KERNEL_THREAD_STACK_FRAMES as int)->0;
        let with_kernel = marked(before.frames(), k, KERNEL_THREAD_STACK_FRAMES as int);
        lemma_placement(with_kernel, USER_THREAD_STACK_FRAMES as int, 0);
        lemma_two_runs_round_trip(
            before.base(),
            before.frames(),
            before.slabs(),
            KERNEL_THREAD_STACK_FRAMES as int,
            USER_THREAD_STACK_FRAMES as int,
        );
        crate::mem::frame_count::lemma_count_bounds(before.frames());
    }
}

} // verus!
