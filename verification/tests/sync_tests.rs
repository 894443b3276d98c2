use rcore_os::sync::{ProcessInner, SyncOutcome, DEADLOCK};
use rcore_os::syscall::sync::{
    mutex_kind, sys_condvar_create, sys_condvar_signal, sys_condvar_wait,
    sys_enable_deadlock_detect, sys_mutex_create, sys_mutex_lock, sys_mutex_unlock,
    sys_semaphore_create, sys_semaphore_down, sys_semaphore_up, sys_sleep, MutexKind,
};

type Proc = ProcessInner<&'static str, u32, char>;

fn process(threads: usize, resources: usize) -> Proc {
    ProcessInner {
        mutex_list: Vec::new(),
        semaphore_list: Vec::new(),
        condvar_list: Vec::new(),
        available: vec![0; resources],
        allocation: vec![vec![0; resources]; threads],
        need: vec![vec![0; resources]; threads],
        dead_lock_check: false,
    }
}

#[test]
fn sleep_deadline() {
    assert_eq!(sys_sleep(1000, 250), 1250);
}

#[test]
fn mutex_kind_follows_blocking_flag() {
    assert!(mutex_kind(false) == MutexKind::Spin);
    assert!(mutex_kind(true) == MutexKind::Blocking);
}

#[test]
fn outcome_codes() {
    assert_eq!(SyncOutcome::Deadlock.code(), DEADLOCK);
    assert_eq!(DEADLOCK, -0xDEAD);
    assert_eq!(SyncOutcome::Proceed.code(), 0);
}

#[test]
fn mutex_create_appends_and_counts_a_unit() {
    let mut p = process(2, 4);
    assert_eq!(sys_mutex_create(&mut p, "a"), 0);
    assert_eq!(sys_mutex_create(&mut p, "b"), 1);
    assert_eq!(p.available[0], 2);
    assert_eq!(p.mutex_list, vec![Some("a"), Some("b")]);
}

#[test]
fn mutex_create_reuses_first_free_slot() {
    let mut p = process(2, 4);
    p.mutex_list = vec![Some("a"), None, Some("c"), None];
    p.available[0] = 2;
    assert_eq!(sys_mutex_create(&mut p, "x"), 1);
    assert_eq!(p.mutex_list, vec![Some("a"), Some("x"), Some("c"), None]);
    assert_eq!(p.available[0], 2);
}

#[test]
fn mutex_lock_without_detection_books_nothing() {
    let mut p = process(2, 4);
    sys_mutex_create(&mut p, "m");
    assert!(sys_mutex_lock(&mut p, 0, 0) == SyncOutcome::Proceed);
    assert_eq!(p.available, vec![1, 0, 0, 0]);
    assert_eq!(p.allocation[0], vec![0, 0, 0, 0]);
    assert_eq!(p.need[0], vec![0, 0, 0, 0]);
}

#[test]
fn mutex_lock_with_detection_grants_then_refuses() {
    let mut p = process(2, 4);
    sys_mutex_create(&mut p, "m");
    assert_eq!(sys_enable_deadlock_detect(&mut p, 0), 0);
    assert!(p.dead_lock_check);
    assert!(sys_mutex_lock(&mut p, 0, 0) == SyncOutcome::Proceed);
    assert_eq!(p.available[0], 0);
    assert_eq!(p.allocation[0][0], 1);
    assert_eq!(p.need[0][0], 1);
    // no unit left for thread 1
    assert!(sys_mutex_lock(&mut p, 1, 0) == SyncOutcome::Deadlock);
    assert_eq!(p.available[0], 0);
    assert_eq!(p.allocation[1][0], 0);
    assert_eq!(p.need[1][0], 0);
}

#[test]
fn mutex_unlock_gives_the_unit_back() {
    let mut p = process(2, 4);
    sys_mutex_create(&mut p, "m");
    sys_enable_deadlock_detect(&mut p, 1);
    assert!(sys_mutex_lock(&mut p, 0, 0) == SyncOutcome::Proceed);
    assert_eq!(sys_mutex_unlock(&mut p, 0, 0), 0);
    assert_eq!(p.available[0], 1);
    assert_eq!(p.allocation[0][0], 0);
    assert_eq!(p.need[0][0], 0);
    // the only thread re-locks the free mutex: no deadlock
    assert!(sys_mutex_lock(&mut p, 0, 0) == SyncOutcome::Proceed);
    // locking it again while holding it would deadlock
    assert!(sys_mutex_lock(&mut p, 0, 0) == SyncOutcome::Deadlock);
    assert_eq!(sys_mutex_unlock(&mut p, 0, 0), 0);
    assert!(sys_mutex_lock(&mut p, 1, 0) == SyncOutcome::Proceed);
}

#[test]
fn semaphore_create_sets_available() {
    let mut p = process(2, 4);
    assert_eq!(sys_semaphore_create(&mut p, 10, 3), 0);
    assert_eq!(sys_semaphore_create(&mut p, 20, 1), 1);
    assert_eq!(p.available, vec![0, 3, 1, 0]);
    p.semaphore_list[0] = None;
    assert_eq!(sys_semaphore_create(&mut p, 30, 5), 0);
    assert_eq!(p.available, vec![0, 5, 1, 0]);
    assert_eq!(p.semaphore_list, vec![Some(30), Some(20)]);
}

#[test]
fn semaphore_down_without_detection_downs_without_booking() {
    let mut p = process(2, 4);
    sys_semaphore_create(&mut p, 1, 0);
    assert!(sys_semaphore_down(&mut p, 0, 0, &vec![]) == SyncOutcome::Proceed);
    assert_eq!(p.available[1], 0);
    assert_eq!(p.allocation[0][1], 0);
    assert_eq!(p.need[0][1], 0);
}

#[test]
fn semaphore_down_and_up() {
    let mut p = process(2, 4);
    sys_semaphore_create(&mut p, 1, 1);
    sys_enable_deadlock_detect(&mut p, 1);
    assert!(sys_semaphore_down(&mut p, 1, 0, &vec![]) == SyncOutcome::Proceed);
    assert_eq!(p.available[1], 0);
    assert_eq!(p.allocation[1][1], 1);
    assert_eq!(p.need[1][1], 1);
    // nothing ready to run: refused
    assert!(sys_semaphore_down(&mut p, 0, 0, &vec![0, 0]) == SyncOutcome::Deadlock);
    // some task ready: proceeds without booking
    assert!(sys_semaphore_down(&mut p, 0, 0, &vec![0, 3]) == SyncOutcome::Proceed);
    assert_eq!(p.allocation[0][1], 0);
    assert_eq!(p.need[0][1], 0);
    assert_eq!(sys_semaphore_up(&mut p, 1, 0), 0);
    assert_eq!(p.available[1], 1);
    assert_eq!(p.allocation[1][1], 0);
    assert_eq!(p.need[1][1], 0);
}

#[test]
fn condvar_calls() {
    let mut p = process(1, 1);
    sys_mutex_create(&mut p, "m");
    assert_eq!(sys_condvar_create(&mut p, 'a'), 0);
    assert_eq!(sys_condvar_create(&mut p, 'b'), 1);
    assert_eq!(*sys_condvar_signal(&p, 1), 'b');
    let (c, m) = sys_condvar_wait(&p, 0, 0);
    assert_eq!(*c, 'a');
    assert_eq!(*m, "m");
}
