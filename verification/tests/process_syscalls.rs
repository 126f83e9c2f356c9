use rcore_os::memory::AddrRange;
use rcore_os::syscall_process::{
    mmap_reply, munmap_reply, sys_get_time, sys_mmap, sys_munmap, sys_sbrk, sys_set_priority, sys_spawn, sys_yield,
    sys_waitpid, time_val_split, ChildProcess, MmapRequest, StrideParams, TimeVal,
};
use rcore_os::manager::TaskManager;
use rcore_os::task::{TaskControlBlock, TaskStatus};

fn child(pid: usize, is_zombie: bool, exit_code: i32) -> ChildProcess {
    ChildProcess { pid, is_zombie, exit_code }
}

#[test]
fn waitpid_without_matching_child() {
    let mut c = vec![child(3, true, 0)];
    assert_eq!(sys_waitpid(&mut c, 4), (-1, None));
    let mut none: Vec<ChildProcess> = Vec::new();
    assert_eq!(sys_waitpid(&mut none, -1), (-1, None));
    assert_eq!(c.len(), 1);
}

#[test]
fn waitpid_for_a_running_child() {
    let mut c = vec![child(3, false, 0), child(4, true, 1)];
    assert_eq!(sys_waitpid(&mut c, 3), (-2, None));
    assert_eq!(c.len(), 2);
}

#[test]
fn waitpid_reaps_the_first_exited_child() {
    let mut c = vec![child(3, false, 0), child(4, true, 7), child(5, true, 8)];
    assert_eq!(sys_waitpid(&mut c, -1), (4, Some(7)));
    assert_eq!(c, vec![child(3, false, 0), child(5, true, 8)]);
    assert_eq!(sys_waitpid(&mut c, 5), (5, Some(8)));
    assert_eq!(c, vec![child(3, false, 0)]);
}

#[test]
fn mmap_argument_checks() {
    assert_eq!(sys_mmap(0x1000, 0, 3), Err(0));
    assert_eq!(sys_mmap(0x1001, 0x1000, 3), Err(-1));
    assert_eq!(sys_mmap(0x1000, 0x1000, 0), Err(-1));
    assert_eq!(sys_mmap(0x1000, 0x1000, 8), Err(-1));
    assert_eq!(sys_mmap(0x1000, 0x1000, 0xf), Err(-1));
    assert_eq!(
        sys_mmap(0x1000, 0x1800, 7),
        Ok(MmapRequest { start: 0x1000, end: 0x2800, len: 0x1800, prot: 7 })
    );
    assert_eq!(mmap_reply(false, true), 0);
    assert_eq!(mmap_reply(true, true), -1);
    assert_eq!(mmap_reply(false, false), -1);
}

#[test]
fn munmap_argument_checks() {
    assert_eq!(sys_munmap(0x1000, 0), Err(0));
    assert_eq!(sys_munmap(0x10, 0x1000), Err(-1));
    assert_eq!(sys_munmap(0x1000, 0x1000), Ok(AddrRange { start: 0x1000, end: 0x2000 }));
    assert_eq!(munmap_reply(true), 0);
    assert_eq!(munmap_reply(false), -1);
}

#[test]
fn sbrk_returns_the_old_break_or_minus_one() {
    let mut t = TaskControlBlock::new(0x8000);
    assert_eq!(sys_sbrk(&mut t, 0x100, true), 0x8000);
    assert_eq!(sys_sbrk(&mut t, -0x200, true), -1);
    assert_eq!(sys_sbrk(&mut t, -0x100, true), 0x8100);
    assert_eq!(t.program_brk, 0x8000);
}

#[test]
fn set_priority_updates_stride() {
    let mut s = StrideParams { priority: 16, pass: 0 };
    assert_eq!(sys_set_priority(&mut s, 1, 0x10000), -1);
    assert_eq!(s, StrideParams { priority: 16, pass: 0 });
    assert_eq!(sys_set_priority(&mut s, 4, 0x10000), 16);
    assert_eq!(s, StrideParams { priority: 4, pass: 0x4000 });
}

#[test]
fn time_value_layout() {
    assert_eq!(TimeVal::from_us(3_500_001), TimeVal { sec: 3, usec: 500_001 });
    assert_eq!(time_val_split(0x1000), None);
    assert_eq!(time_val_split(0x1ff8), Some(8));
    // A value ending right at a page boundary lies in one page.
    assert_eq!(time_val_split(0x1ff0), None);
    assert_eq!(time_val_split(0x1ff1), Some(15));
    assert_eq!(sys_get_time(None, true, false), 0);
    assert_eq!(sys_get_time(None, false, false), -1);
    assert_eq!(sys_get_time(Some(8), true, false), -1);
    assert_eq!(sys_get_time(Some(8), true, true), 0);
}

#[test]
fn spawned_child_is_waited_for_until_it_exits() {
    let mut c: Vec<ChildProcess> = Vec::new();
    assert_eq!(sys_spawn(&mut c, None), -1);
    assert!(c.is_empty());
    assert_eq!(sys_spawn(&mut c, Some(12)), 12);
    assert_eq!(sys_waitpid(&mut c, 12), (-2, None));
    c[0].is_zombie = true;
    c[0].exit_code = 3;
    assert_eq!(sys_waitpid(&mut c, 12), (12, Some(3)));
    assert_eq!(sys_waitpid(&mut c, 12), (-1, None));
}

#[test]
fn yield_hands_over_to_the_next_ready_task() {
    let tasks = vec![TaskControlBlock::new(0x1000), TaskControlBlock::new(0x2000)];
    let mut tm = TaskManager::new(tasks);
    tm.run_first_task();
    assert_eq!(sys_yield(&mut tm), (0, (0, 1)));
    assert_eq!(tm.tasks[0].task_status, TaskStatus::Ready);
    assert_eq!(tm.tasks[1].task_status, TaskStatus::Running);
}
