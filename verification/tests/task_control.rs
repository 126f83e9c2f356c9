use rcore_os::memory::{page_number, page_offset, AddrRange, FramedArea, MapPermission, PageTableEntry, PAGE_SIZE};
use rcore_os::task::{BrkRequest, TaskControlBlock, TaskStatus};

fn perm(read: bool, write: bool, execute: bool) -> MapPermission {
    MapPermission { read, write, execute, user: false }
}

#[test]
fn new_task_is_ready_with_an_empty_heap() {
    let t = TaskControlBlock::new(0x1000);
    assert_eq!(t.task_status, TaskStatus::Ready);
    assert_eq!(t.base_size, 0x1000);
    assert_eq!(t.heap_bottom, 0x1000);
    assert_eq!(t.program_brk, 0x1000);
    assert_eq!(t.get_syscall_count(64), 0);
}

#[test]
fn syscall_counts_accumulate_per_id() {
    let mut t = TaskControlBlock::new(0x1000);
    t.record_syscall(64);
    t.record_syscall(64);
    t.record_syscall(93);
    assert_eq!(t.get_syscall_count(64), 2);
    assert_eq!(t.get_syscall_count(93), 1);
    assert_eq!(t.get_syscall_count(169), 0);
}

#[test]
fn program_break_moves_and_returns_the_old_one() {
    let mut t = TaskControlBlock::new(0x1000);
    assert_eq!(
        t.brk_request(0x200),
        Some(BrkRequest { shrink: false, heap_bottom: 0x1000, new_brk: 0x1200 })
    );
    assert_eq!(t.change_program_brk(0x200, true), Some(0x1000));
    assert_eq!(t.program_brk, 0x1200);
    assert_eq!(
        t.brk_request(-0x100),
        Some(BrkRequest { shrink: true, heap_bottom: 0x1000, new_brk: 0x1100 })
    );
    assert_eq!(t.change_program_brk(-0x100, true), Some(0x1200));
    assert_eq!(t.program_brk, 0x1100);
}

#[test]
fn program_break_never_goes_below_the_heap() {
    let mut t = TaskControlBlock::new(0x1000);
    assert_eq!(t.brk_request(-1), None);
    assert_eq!(t.change_program_brk(-1, true), None);
    assert_eq!(t.program_brk, 0x1000);
}

#[test]
fn failed_resize_keeps_the_break() {
    let mut t = TaskControlBlock::new(0x1000);
    assert_eq!(t.change_program_brk(0x10, false), None);
    assert_eq!(t.program_brk, 0x1000);
}

#[test]
fn mmap_port_values() {
    let t = TaskControlBlock::new(0);
    let area = |p| FramedArea { start: 0x2000, end: 0x3000, perm: p };
    assert_eq!(t.task_mmap(0x2000, 0x1000, 0), Ok(area(perm(false, false, false))));
    assert_eq!(t.task_mmap(0x2000, 0x1000, 1), Ok(area(perm(true, false, false))));
    assert_eq!(t.task_mmap(0x2000, 0x1000, 2), Ok(area(perm(true, true, false))));
    assert_eq!(t.task_mmap(0x2000, 0x1000, 3), Ok(area(perm(true, false, true))));
    assert_eq!(t.task_mmap(0x2000, 0x1000, 4), Ok(area(perm(true, true, true))));
    assert_eq!(t.task_mmap(0x2000, 0x1000, 5), Err(-1));
    assert_eq!(t.task_unmap(0x2000, 0x1000), AddrRange { start: 0x2000, end: 0x3000 });
}

#[test]
fn page_arithmetic() {
    assert_eq!(PAGE_SIZE, 4096);
    assert_eq!(page_number(0x12345), 0x12);
    assert_eq!(page_offset(0x12345), 0x345);
}

#[test]
fn byte_access_follows_the_entry_rights() {
    let t = TaskControlBlock::new(0);
    let mut frame = vec![0u8; PAGE_SIZE];
    frame[0x10] = 42;
    let rw = Some(PageTableEntry { ppn: 5, valid: true, readable: true, writable: true });
    let ro = Some(PageTableEntry { ppn: 5, valid: true, readable: true, writable: false });
    let invalid = Some(PageTableEntry { ppn: 5, valid: false, readable: true, writable: true });
    assert_eq!(t.read_a_byte(0x3010, rw, &frame), Some(42));
    assert_eq!(t.read_a_byte(0x3010, invalid, &frame), None);
    assert_eq!(t.read_a_byte(0x3010, None, &[]), None);
    assert!(t.write_a_byte(0x3011, 7, rw, &mut frame));
    assert_eq!(frame[0x11], 7);
    assert!(!t.write_a_byte(0x3012, 9, ro, &mut frame));
    assert_eq!(frame[0x12], 0);
}
