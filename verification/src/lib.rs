//! Memory and threading substrate of a small teaching kernel.
//!
//! Addresses are plain `usize` values. The library decides which frames,
//! cells and threads are used; the code that touches real memory, page
//! tables, registers and the interrupt flag lives outside and follows the
//! values and actions that these functions hand back.

pub mod dev;
pub mod drivers;
pub mod error;
pub mod interrupts;
pub mod mem;
pub mod paging;
pub mod sizes;
pub mod threading;
pub mod user_program;
