use vstd::prelude::*;

verus! {

/// What can go wrong in the memory and threading core.
///
/// `OutOfMemory` and `Unsupported` are handed back to the caller to deal
/// with. The others report a broken contract: the kernel halts on them.
#[derive(Clone, Copy, Debug, PartialEq, Eq, Structural)]
pub enum KernelError {
    /// No run of frames, or no slab cell, satisfies the request.
    OutOfMemory,
    /// The requested alignment is larger than a frame, or no power of two.
    Unsupported,
    /// The call is not allowed in the state the allocator or scheduler is in.
    InvalidState,
    /// The allocator is shut down while allocations are outstanding.
    Leak,
    /// A kernel stack has no room for the bytes asked for.
    StackOverflow,
    /// A program image names memory that it does not hold, or no entry point.
    MalformedImage,
}

impl KernelError {
    /// True for the errors on which the kernel halts.
    pub open spec fn is_fatal(self) -> bool {
        self is InvalidState || self is Leak || self is StackOverflow || self is MalformedImage
    }

    /// Whether the kernel halts on this error.
    pub fn fatal(&self) -> (r: bool)
        ensures
            r == self.is_fatal(),
    {
        match self {
            KernelError::OutOfMemory => false,
            KernelError::Unsupported => false,
            KernelError::InvalidState => true,
            KernelError::Leak => true,
            KernelError::StackOverflow => true,
            KernelError::MalformedImage => true,
        }
    }

    /// The text printed when the kernel stops on this error.
    pub fn message(&self) -> (text: &'static str)
        ensures
            text@ == match *self {
                KernelError::OutOfMemory => "Out of memory"@,
                KernelError::Unsupported => "Unsupported alignment"@,
                KernelError::InvalidState => "Invalid state"@,
                KernelError::Leak => "Leaks detected"@,
                KernelError::StackOverflow => "No Stack Space!"@,
                KernelError::MalformedImage => "ELF data was malformed"@,
            },
    {
        match self {
            KernelError::OutOfMemory => "Out of memory",
            KernelError::Unsupported => "Unsupported alignment",
            KernelError::InvalidState => "Invalid state",
            KernelError::Leak => "Leaks detected",
            KernelError::StackOverflow => "No Stack Space!",
            KernelError::MalformedImage => "ELF data was malformed",
        }
    }
}

} // verus!
