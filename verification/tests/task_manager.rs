use rcore_os::manager::{check_if_address_exist, check_if_address_inexist, task_mmap, task_unmap, TaskManager};
use rcore_os::memory::{AddrRange, FramedArea, MapPermission};
use rcore_os::task::{TaskControlBlock, TaskStatus};

fn manager(statuses: &[TaskStatus]) -> TaskManager {
    let tasks = statuses
        .iter()
        .map(|s| {
            let mut t = TaskControlBlock::new(0x1000);
            t.task_status = *s;
            t
        })
        .collect();
    TaskManager::new(tasks)
}

fn statuses(tm: &TaskManager) -> Vec<TaskStatus> {
    tm.tasks.iter().map(|t| t.task_status).collect()
}

use TaskStatus::{Exited, Ready, Running, UnInit};

#[test]
fn first_task_runs_first() {
    let mut tm = manager(&[Ready, Ready]);
    assert_eq!(tm.run_first_task(), 0);
    assert_eq!(statuses(&tm), vec![Running, Ready]);
}

#[test]
fn next_task_is_the_first_ready_after_the_current_one() {
    let mut tm = manager(&[Running, Exited, Ready, Ready]);
    assert_eq!(tm.find_next_task(), Some(2));
    tm.current_task = 3;
    assert_eq!(tm.find_next_task(), Some(2));
    let tm2 = manager(&[Ready, UnInit, Exited]);
    assert_eq!(tm2.find_next_task(), Some(0));
    let tm3 = manager(&[Running, Exited]);
    assert_eq!(tm3.find_next_task(), None);
}

#[test]
fn suspend_switches_round_robin() {
    let mut tm = manager(&[Ready, Ready, Ready]);
    tm.run_first_task();
    assert_eq!(tm.suspend_current_and_run_next(), (0, 1));
    assert_eq!(statuses(&tm), vec![Ready, Running, Ready]);
    assert_eq!(tm.suspend_current_and_run_next(), (1, 2));
    assert_eq!(tm.suspend_current_and_run_next(), (2, 0));
    assert_eq!(tm.current_task, 0);
}

#[test]
fn a_lone_task_resumes_itself() {
    let mut tm = manager(&[Ready]);
    tm.run_first_task();
    assert_eq!(tm.suspend_current_and_run_next(), (0, 0));
    assert_eq!(statuses(&tm), vec![Running]);
}

#[test]
fn exit_switches_and_reports_when_no_other_task_is_ready() {
    let mut tm = manager(&[Ready, Ready]);
    tm.run_first_task();
    assert_eq!(tm.exit_current_and_run_next(), (0, 1));
    assert_eq!(statuses(&tm), vec![Exited, Running]);
    assert!(!tm.other_task_ready());
    assert_eq!(statuses(&tm), vec![Exited, Running]);
}

#[test]
fn syscall_counts_belong_to_the_current_task() {
    let mut tm = manager(&[Ready, Ready]);
    tm.add_count_syscall(64);
    tm.add_count_syscall(64);
    tm.current_task = 1;
    tm.add_count_syscall(64);
    assert_eq!(tm.count_syscall(64), 1);
    tm.current_task = 0;
    assert_eq!(tm.count_syscall(64), 2);
}

#[test]
fn current_program_break() {
    let mut tm = manager(&[Ready]);
    assert_eq!(tm.change_current_program_brk(0x100, true), Some(0x1000));
    assert_eq!(tm.tasks[0].program_brk, 0x1100);
    assert!(tm.current_brk_request(-0x200).is_none());
}

#[test]
fn address_checks_scan_every_page_of_the_range() {
    // Pages 2 and 3 are mapped.
    let mapped = |vpn: usize| vpn == 2 || vpn == 3;
    assert!(check_if_address_exist(0x1000, 0x2000, mapped));
    assert!(!check_if_address_exist(0x0, 0x2000, mapped));
    assert!(!check_if_address_inexist(0x2000, 0x2000, mapped));
    assert!(check_if_address_inexist(0x2000, 0x2001, mapped));
}

#[test]
fn an_empty_range_has_no_page() {
    let all = |_vpn: usize| true;
    let none = |_vpn: usize| false;
    assert!(!check_if_address_exist(0x2001, 0, all));
    assert!(!check_if_address_inexist(0x2001, 0, none));
}

#[test]
fn suspend_picks_the_first_ready_task_after_the_current_one() {
    let mut tm = manager(&[Ready, UnInit, Exited, Ready, Ready]);
    tm.run_first_task();
    tm.current_task = 0;
    assert_eq!(tm.suspend_current_and_run_next(), (0, 3));
    assert_eq!(statuses(&tm), vec![Ready, UnInit, Exited, Running, Ready]);
    assert_eq!(tm.exit_current_and_run_next(), (3, 4));
    assert_eq!(statuses(&tm), vec![Ready, UnInit, Exited, Exited, Running]);
    assert!(tm.other_task_ready());
    assert_eq!(tm.exit_current_and_run_next(), (4, 0));
    assert!(!tm.other_task_ready());
    assert_eq!(statuses(&tm), vec![Running, UnInit, Exited, Exited, Exited]);
}

#[test]
fn mmap_and_unmap_through_the_manager() {
    let tm = manager(&[Ready]);
    let mapped = |vpn: usize| vpn == 2;
    let rw = MapPermission { read: true, write: true, execute: false, user: false };
    assert_eq!(
        task_mmap(&tm, 0x4000, 0x1000, 2, mapped),
        Ok(FramedArea { start: 0x4000, end: 0x5000, perm: rw })
    );
    assert_eq!(task_mmap(&tm, 0x2000, 0x1000, 2, mapped), Err(-1));
    assert_eq!(task_mmap(&tm, 0x4000, 0x1000, 7, mapped), Err(-1));
    assert_eq!(task_unmap(&tm, 0x2000, 0x1000, mapped), Ok(AddrRange { start: 0x2000, end: 0x3000 }));
    assert_eq!(task_unmap(&tm, 0x2000, 0x2000, mapped), Err(-1));
}
