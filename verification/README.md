# rcore_os

Verified core of a small teaching kernel, written in Verus.

* `src/deadlock.rs` — the banker's safety test, proved equal to "no safe order
  lets the requesting thread finish", with its laws.
* `src/semaphore.rs` — counting semaphore with owner records and a FIFO wait queue.
* `src/process_sync.rs` — a process's mutex, semaphore and condition-variable
  tables, the synchronisation system calls and the deadlock checks that guard them.
* `src/task.rs`, `src/manager.rs` — task control block (program break, system-call
  statistics, byte access, mapping requests) and the round-robin task manager.
* `src/syscall_process.rs` — process system calls: `waitpid`, `spawn`, `mmap`/`munmap`
  argument checks, `sbrk`, stride priority, time value layout.
* `src/memory.rs` — page arithmetic and the plain values exchanged with the address space.

The system calls return their reply code together with the action the kernel
must carry out (block, wake, lock, switch tasks, map an area). `app/` holds the
global task manager and the module-level scheduling and statistics functions
around it; the functions that need the kernel's address space, file system or
timer have no counterpart there, as those parts of the kernel are not included.
