use rcore_os::semaphore::Semaphore;

#[test]
fn new_semaphore_has_its_units() {
    let s = Semaphore::new(3);
    assert_eq!(s.inner.count, 3);
    assert!(s.inner.owners.is_empty());
    assert!(s.inner.wait_queue.is_empty());
}

#[test]
fn down_takes_a_unit_and_records_the_owner() {
    let mut s = Semaphore::new(1);
    assert!(!s.down(7));
    assert_eq!(s.inner.count, 0);
    assert_eq!(s.held_by(7), 1);
    assert!(s.down(8));
    assert_eq!(s.inner.count, -1);
    assert_eq!(s.inner.wait_queue.iter().copied().collect::<Vec<_>>(), vec![8]);
}

#[test]
fn up_wakes_waiters_first_come_first_served() {
    let mut s = Semaphore::new(1);
    assert!(!s.down(1));
    assert!(s.down(2));
    assert!(s.down(3));
    assert_eq!(s.inner.count, -2);
    assert_eq!(s.up(1), Some(2));
    assert_eq!(s.held_by(1), 0);
    assert_eq!(s.held_by(2), 1);
    assert_eq!(s.inner.count, -1);
    assert_eq!(s.up(2), Some(3));
    assert_eq!(s.held_by(3), 1);
    assert_eq!(s.up(3), None);
    assert_eq!(s.inner.count, 1);
    assert!(s.inner.wait_queue.is_empty());
}

#[test]
fn down_then_up_restores_the_semaphore() {
    let mut s = Semaphore::new(2);
    assert!(!s.down(4));
    assert_eq!(s.up(4), None);
    assert_eq!(s.inner.count, 2);
    assert_eq!(s.held_by(4), 0);
}

#[test]
fn up_by_a_non_owner_still_frees_a_unit() {
    let mut s = Semaphore::new(0);
    assert_eq!(s.up(9), None);
    assert_eq!(s.inner.count, 1);
    assert_eq!(s.held_by(9), 0);
}
