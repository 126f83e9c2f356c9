use rcore_os::deadlock::detect_deadlock;
use rcore_os::process_sync::{
    check_mutex_deadlock, check_semaphore_deadlock, KernelMutex, MutexBlockingState, ProcessSync,
};
use rcore_os::semaphore::Semaphore;
use std::collections::VecDeque;

fn empty_process(task_count: usize) -> ProcessSync {
    ProcessSync {
        task_count,
        mutex_list: Vec::new(),
        semaphore_list: Vec::new(),
        condvar_list: Vec::new(),
        deadlock_detection_enabled: true,
    }
}

fn blocking(owner: Option<usize>, waiters: &[usize]) -> Option<KernelMutex> {
    Some(KernelMutex::Blocking(MutexBlockingState {
        owner,
        wait_queue: waiters.iter().copied().collect::<VecDeque<usize>>(),
    }))
}

#[test]
fn classic_safe_state_is_not_deadlocked() {
    // Three resources, three tasks; the order 1, 0, 2 is safe.
    let work = vec![1, 1, 0];
    let allocation = vec![vec![1, 0, 0], vec![0, 1, 0], vec![0, 0, 1]];
    let need = vec![vec![1, 1, 1], vec![1, 0, 0], vec![0, 0, 0]];
    assert!(!detect_deadlock(work.clone(), &allocation, &need, 0));
    assert!(!detect_deadlock(work.clone(), &allocation, &need, 1));
    assert!(!detect_deadlock(work, &allocation, &need, 2));
}

#[test]
fn circular_wait_is_deadlocked() {
    // Task 0 holds resource 0 and waits for 1; task 1 holds 1 and waits for 0.
    let work = vec![0, 0];
    let allocation = vec![vec![1, 0], vec![0, 1]];
    let need = vec![vec![0, 1], vec![1, 0]];
    assert!(detect_deadlock(work.clone(), &allocation, &need, 0));
    assert!(detect_deadlock(work, &allocation, &need, 1));
}

#[test]
fn a_finishing_task_frees_others() {
    // Task 2 can finish and give back resource 0, which task 0 waits for.
    let work = vec![0];
    let allocation = vec![vec![0], vec![0], vec![1]];
    let need = vec![vec![1], vec![2], vec![0]];
    assert!(!detect_deadlock(work.clone(), &allocation, &need, 0));
    assert!(detect_deadlock(work, &allocation, &need, 1));
}

#[test]
fn request_satisfiable_now_is_never_deadlocked() {
    let work = vec![2, 0];
    let allocation = vec![vec![0, 1], vec![0, 0]];
    let need = vec![vec![2, 0], vec![0, 5]];
    assert!(!detect_deadlock(work, &allocation, &need, 0));
}

#[test]
fn mutex_cycle_between_two_threads() {
    let mut p = empty_process(2);
    // Mutex 0 held by thread 0; mutex 1 held by thread 1 and awaited by thread 0.
    p.mutex_list.push(blocking(Some(0), &[]));
    p.mutex_list.push(blocking(Some(1), &[0]));
    // Thread 1 now asks for mutex 0.
    assert!(check_mutex_deadlock(&p, 1, 0));
    // Thread 0 asking again for mutex 0 that it holds deadlocks too.
    assert!(check_mutex_deadlock(&p, 0, 0));
}

#[test]
fn mutex_held_by_a_free_thread_is_fine() {
    let mut p = empty_process(2);
    p.mutex_list.push(blocking(Some(1), &[]));
    p.mutex_list.push(Some(KernelMutex::Spin));
    p.mutex_list.push(None);
    assert!(!check_mutex_deadlock(&p, 0, 0));
}

#[test]
fn semaphore_cycle_between_two_threads() {
    let mut p = empty_process(2);
    let mut a = Semaphore::new(1);
    let mut b = Semaphore::new(1);
    assert!(!a.down(0));
    assert!(!b.down(1));
    assert!(a.down(1)); // thread 1 waits for a
    p.semaphore_list.push(Some(a));
    p.semaphore_list.push(Some(b));
    // Thread 0 now asks for b.
    assert!(check_semaphore_deadlock(&p, 0, 1));
}

#[test]
fn semaphore_with_spare_units_is_fine() {
    let mut p = empty_process(2);
    let mut a = Semaphore::new(2);
    assert!(!a.down(0));
    p.semaphore_list.push(Some(a));
    assert!(!check_semaphore_deadlock(&p, 1, 0));
}
