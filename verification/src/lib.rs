//! Verified core of a small teaching kernel: semaphores, deadlock detection,
//! task bookkeeping and the decisions taken by its system calls.

pub mod deadlock;
pub mod semaphore;
pub mod process_sync;
pub mod memory;
pub mod task;
pub mod manager;
pub mod syscall_process;
