use rcore_os::process_sync::{
    alloc_slot, sys_condvar_create, sys_condvar_signal, sys_condvar_wait, sys_enable_deadlock_detect,
    sys_mutex_create, sys_mutex_lock, sys_mutex_unlock, sys_semaphore_create, sys_semaphore_down,
    sys_semaphore_up, sys_sleep, KernelMutex, ProcessSync, SyncAction, DEADLOCK_REPLY,
};

fn process(task_count: usize) -> ProcessSync {
    ProcessSync {
        task_count,
        mutex_list: Vec::new(),
        semaphore_list: Vec::new(),
        condvar_list: Vec::new(),
        deadlock_detection_enabled: false,
    }
}

#[test]
fn ids_reuse_the_first_free_slot() {
    let mut list: Vec<Option<u8>> = vec![Some(1), None, Some(3), None];
    assert_eq!(alloc_slot(&mut list, 9), 1);
    assert_eq!(list, vec![Some(1), Some(9), Some(3), None]);
    let mut full: Vec<Option<u8>> = vec![Some(1)];
    assert_eq!(alloc_slot(&mut full, 2), 1);
    assert_eq!(full, vec![Some(1), Some(2)]);
}

#[test]
fn mutex_create_kinds_and_ids() {
    let mut p = process(1);
    assert_eq!(sys_mutex_create(&mut p, false), 0);
    assert_eq!(sys_mutex_create(&mut p, true), 1);
    assert!(matches!(p.mutex_list[0], Some(KernelMutex::Spin)));
    match &p.mutex_list[1] {
        Some(KernelMutex::Blocking(m)) => {
            assert_eq!(m.owner, None);
            assert!(m.wait_queue.is_empty());
        }
        _ => panic!("expected a blocking mutex"),
    }
    p.mutex_list[0] = None;
    assert_eq!(sys_mutex_create(&mut p, true), 0);
}

#[test]
fn semaphore_and_condvar_create() {
    let mut p = process(1);
    assert_eq!(sys_semaphore_create(&mut p, 2), 0);
    assert_eq!(sys_semaphore_create(&mut p, 0), 1);
    assert_eq!(p.semaphore_list[0].as_ref().unwrap().inner.count, 2);
    assert_eq!(sys_condvar_create(&mut p), 0);
    assert_eq!(sys_condvar_create(&mut p), 1);
    assert_eq!(sys_condvar_signal(&p, 1), (0, SyncAction::SignalCondvar(1)));
    assert_eq!(sys_mutex_create(&mut p, true), 0);
    assert_eq!(
        sys_condvar_wait(&p, 0, 0),
        (0, SyncAction::WaitCondvar { condvar_id: 0, mutex_id: 0 })
    );
}

#[test]
fn enable_deadlock_detect_values() {
    let mut p = process(1);
    assert_eq!(sys_enable_deadlock_detect(&mut p, 1), 0);
    assert!(p.deadlock_detection_enabled);
    assert_eq!(sys_enable_deadlock_detect(&mut p, 2), -1);
    assert!(p.deadlock_detection_enabled);
    assert_eq!(sys_enable_deadlock_detect(&mut p, 0), 0);
    assert!(!p.deadlock_detection_enabled);
}

#[test]
fn semaphore_down_and_up_actions() {
    let mut p = process(3);
    sys_semaphore_create(&mut p, 1);
    assert_eq!(sys_semaphore_down(&mut p, 0, 0), (0, SyncAction::Continue));
    assert_eq!(sys_semaphore_down(&mut p, 0, 1), (0, SyncAction::Block));
    assert_eq!(sys_semaphore_up(&mut p, 0, 0), (0, SyncAction::Wakeup(1)));
    assert_eq!(sys_semaphore_up(&mut p, 0, 1), (0, SyncAction::Continue));
    assert_eq!(p.semaphore_list[0].as_ref().unwrap().inner.count, 1);
}

#[test]
fn semaphore_down_refused_on_deadlock() {
    let mut p = process(2);
    sys_enable_deadlock_detect(&mut p, 1);
    sys_semaphore_create(&mut p, 1);
    sys_semaphore_create(&mut p, 1);
    assert_eq!(sys_semaphore_down(&mut p, 0, 0), (0, SyncAction::Continue));
    assert_eq!(sys_semaphore_down(&mut p, 1, 1), (0, SyncAction::Continue));
    assert_eq!(sys_semaphore_down(&mut p, 0, 1), (0, SyncAction::Block));
    assert_eq!(sys_semaphore_down(&mut p, 1, 0), (DEADLOCK_REPLY, SyncAction::Continue));
    assert_eq!(DEADLOCK_REPLY, -0xDEAD);
    // The refused request left the semaphore as it was.
    assert_eq!(p.semaphore_list[1].as_ref().unwrap().inner.count, 0);
}

#[test]
fn semaphore_down_without_detection_blocks() {
    let mut p = process(2);
    sys_semaphore_create(&mut p, 1);
    sys_semaphore_create(&mut p, 1);
    sys_semaphore_down(&mut p, 0, 0);
    sys_semaphore_down(&mut p, 1, 1);
    sys_semaphore_down(&mut p, 0, 1);
    assert_eq!(sys_semaphore_down(&mut p, 1, 0), (0, SyncAction::Block));
}

#[test]
fn mutex_lock_and_unlock_actions() {
    let mut p = process(2);
    sys_enable_deadlock_detect(&mut p, 1);
    sys_mutex_create(&mut p, true);
    sys_mutex_create(&mut p, false);
    assert_eq!(sys_mutex_lock(&p, 0, 0), (0, SyncAction::LockMutex(0)));
    assert_eq!(sys_mutex_lock(&p, 1, 0), (0, SyncAction::LockMutex(1)));
    assert_eq!(sys_mutex_unlock(&p, 0), (0, SyncAction::UnlockMutex(0)));
    // Mutex 0 held by thread 0, thread 0 asks for it again: refused.
    if let Some(KernelMutex::Blocking(m)) = &mut p.mutex_list[0] {
        m.owner = Some(0);
    }
    assert_eq!(sys_mutex_lock(&p, 0, 0), (DEADLOCK_REPLY, SyncAction::Continue));
    // Thread 1 may wait for it: thread 0 can still finish.
    assert_eq!(sys_mutex_lock(&p, 0, 1), (0, SyncAction::LockMutex(0)));
}

#[test]
fn sleep_sets_the_wakeup_time() {
    assert_eq!(sys_sleep(1000, 250), (0, SyncAction::SleepUntil(1250)));
}
