use vstd::prelude::*;

pub mod bitmap;
pub mod error;
pub mod frame;
pub mod memory;
pub mod stack;
pub mod tcb;
pub mod registry;
pub mod kernel;
pub mod task;
pub mod api;
pub mod syscall;
pub mod itc;
pub mod queue;
pub mod svc;
pub mod bench;
pub mod trap;
pub mod types;
pub mod task_map;
pub mod multi_bitmap;

verus! {

/// Number of task slots managed by the kernel.
pub const MAX_TASKS: usize = 32;

} // verus!
