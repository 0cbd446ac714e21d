use ksched::{LockState, LockStep};
use std::sync::{Arc, Mutex};
use std::task::{Wake, Waker};

struct Note {
    id: usize,
    log: Arc<Mutex<Vec<usize>>>,
}

impl Wake for Note {
    fn wake(self: Arc<Self>) {
        self.log.lock().unwrap().push(self.id);
    }
}

fn handle(id: usize, log: &Arc<Mutex<Vec<usize>>>) -> Waker {
    Waker::from(Arc::new(Note { id, log: log.clone() }))
}

fn woken(log: &Arc<Mutex<Vec<usize>>>) -> Vec<usize> {
    log.lock().unwrap().clone()
}

#[test]
fn new_state_is_free() {
    let state = LockState::new();
    assert!(!state.is_locked());
    assert_eq!(state.waiting(), 0);
}

#[test]
fn a_free_lock_is_acquired_without_waiting() {
    let log = Arc::new(Mutex::new(Vec::new()));
    let mut state = LockState::new();
    assert_eq!(state.lock(handle(1, &log)), LockStep::Acquired);
    assert!(state.is_locked());
    assert_eq!(state.waiting(), 0);
}

#[test]
fn a_held_lock_parks_the_caller() {
    let log = Arc::new(Mutex::new(Vec::new()));
    let mut state = LockState::new();
    assert!(state.try_lock());
    assert_eq!(state.lock_granted(handle(1, &log), true), LockStep::Parked);
    assert_eq!(state.lock_granted(handle(2, &log), true), LockStep::Parked);
    assert!(state.is_locked());
    assert_eq!(state.waiting(), 2);
    assert!(woken(&log).is_empty());
}

#[test]
fn try_lock_while_held_changes_nothing() {
    let log = Arc::new(Mutex::new(Vec::new()));
    let mut state = LockState::new();
    assert!(state.try_lock());
    assert_eq!(state.lock_granted(handle(1, &log), true), LockStep::Parked);
    assert!(!state.try_lock());
    assert!(!state.try_lock());
    assert!(state.is_locked());
    assert_eq!(state.waiting(), 1);
    assert!(woken(&log).is_empty());
}

#[test]
fn a_failed_registration_is_reported_at_once() {
    let log = Arc::new(Mutex::new(Vec::new()));
    let mut state = LockState::new();
    assert!(state.try_lock());
    assert_eq!(state.lock_granted(handle(1, &log), true), LockStep::Parked);
    assert_eq!(state.lock_granted(handle(2, &log), false), LockStep::OutOfMemory);
    assert!(state.is_locked());
    assert_eq!(state.waiting(), 1);
    assert!(state.unlock());
    assert!(!state.unlock());
    assert_eq!(woken(&log), vec![1]);
}

#[test]
fn the_answer_of_the_allocator_is_not_asked_for_a_free_lock() {
    let log = Arc::new(Mutex::new(Vec::new()));
    let mut state = LockState::new();
    assert_eq!(state.lock_granted(handle(1, &log), false), LockStep::Acquired);
    assert!(state.is_locked());
    assert_eq!(state.waiting(), 0);
}

#[test]
fn release_wakes_the_head_and_clears_the_flag() {
    let log = Arc::new(Mutex::new(Vec::new()));
    let mut state = LockState::new();
    assert!(state.try_lock());
    assert_eq!(state.lock(handle(1, &log)), LockStep::Parked);
    assert_eq!(state.lock(handle(2, &log)), LockStep::Parked);
    assert!(state.unlock());
    assert!(!state.is_locked());
    assert_eq!(state.waiting(), 1);
    assert_eq!(woken(&log), vec![1]);
}

#[test]
fn release_without_waiters_wakes_nobody() {
    let mut state = LockState::new();
    assert!(state.try_lock());
    assert!(!state.unlock());
    assert!(!state.is_locked());
    assert!(state.try_lock());
}

#[test]
fn the_first_to_register_acquires_first() {
    let log = Arc::new(Mutex::new(Vec::new()));
    let mut state = LockState::new();
    let mut order = Vec::new();
    assert_eq!(state.lock(handle(0, &log)), LockStep::Acquired);
    assert_eq!(state.lock(handle(1, &log)), LockStep::Parked);
    assert_eq!(state.lock(handle(2, &log)), LockStep::Parked);
    for _ in 0..2 {
        assert!(state.unlock());
        let next = *woken(&log).last().unwrap();
        assert_eq!(state.lock(handle(next, &log)), LockStep::Acquired);
        order.push(next);
    }
    assert_eq!(order, vec![1, 2]);
    assert!(!state.unlock());
    assert!(!state.is_locked());
}

#[test]
fn a_woken_waiter_is_only_a_candidate() {
    let log = Arc::new(Mutex::new(Vec::new()));
    let mut state = LockState::new();
    assert!(state.try_lock());
    assert_eq!(state.lock(handle(1, &log)), LockStep::Parked);
    assert_eq!(state.lock(handle(2, &log)), LockStep::Parked);
    assert!(state.unlock());
    assert_eq!(woken(&log), vec![1]);
    assert!(state.try_lock());
    assert_eq!(state.lock(handle(1, &log)), LockStep::Parked);
    assert!(state.unlock());
    assert_eq!(woken(&log), vec![1, 2]);
}

#[test]
fn the_flag_is_set_exactly_while_a_guard_is_out() {
    let log = Arc::new(Mutex::new(Vec::new()));
    let mut state = LockState::new();
    let mut guards = 0;
    for round in 0..50 {
        if state.try_lock() {
            guards += 1;
        }
        if state.lock(handle(round, &log)) == LockStep::Acquired {
            guards += 1;
        }
        assert_eq!(guards, 1);
        assert!(state.is_locked());
        if round % 3 != 0 {
            state.unlock();
            guards -= 1;
            assert!(!state.is_locked());
        }
    }
}
