pub mod context_switch;
pub mod scheduling;
pub mod thread_control_block;
pub mod thread_sleep;
