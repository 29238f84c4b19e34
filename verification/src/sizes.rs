use vstd::prelude::*;

verus! {

/// Bytes in a kilobyte.
pub const KB: usize = 1024;

/// Bytes in a megabyte.
pub const MB: usize = 1048576;

} // verus!
