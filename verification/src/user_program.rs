use vstd::prelude::*;
use crate::mem::frame_allocator::PAGE_FRAME_SIZE;

verus! {

/// What a program may do with an area of its memory.
#[derive(Clone, Copy, Debug, PartialEq, Eq, Structural)]
pub struct VmFlags {
    pub read: bool,
    pub write: bool,
    pub execute: bool,
}

/// One area of the memory of a program, as its image describes it: the
/// user virtual addresses from `vm_start` up to `vm_end`, filled from
/// the bytes of the image that start at `offset`.
#[derive(Clone, Copy, Debug, PartialEq, Eq, Structural)]
pub struct VmAreaStruct {
    pub vm_start: usize,
    pub vm_end: usize,
    pub offset: usize,
    pub flags: VmFlags,
}

/// Bytes of the area.
pub open spec fn area_len(area: VmAreaStruct) -> int {
    area.vm_end - area.vm_start
}

/// Frames that hold the area.
pub open spec fn area_frames(area: VmAreaStruct) -> int {
    (area_len(area) + PAGE_FRAME_SIZE - 1) / (PAGE_FRAME_SIZE as int)
}

/// The area does not end before it starts, and an image of `image_len`
/// bytes holds the bytes that it names.
pub open spec fn area_valid(area: VmAreaStruct, image_len: int) -> bool {
    area.vm_start <= area.vm_end && area.offset + area_len(area) <= image_len
}

} // verus!
