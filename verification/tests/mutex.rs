use ksched::{AllocError, LockPoll, Mutex, MutexGuard};
use std::cell::Cell;
use std::sync::atomic::{AtomicUsize, Ordering};
use std::sync::{Arc, Mutex as StdMutex};
use std::task::{Wake, Waker};

struct Note {
    id: usize,
    log: Arc<StdMutex<Vec<usize>>>,
}

impl Wake for Note {
    fn wake(self: Arc<Self>) {
        self.log.lock().unwrap().push(self.id);
    }
}

fn handle(id: usize, log: &Arc<StdMutex<Vec<usize>>>) -> Waker {
    Waker::from(Arc::new(Note { id, log: log.clone() }))
}

fn woken(log: &Arc<StdMutex<Vec<usize>>>) -> Vec<usize> {
    log.lock().unwrap().clone()
}

fn acquire<'a, T>(mutex: &'a Mutex<T>, handle: &Waker) -> Option<Result<MutexGuard<'a, T>, AllocError>> {
    match mutex.lock().poll(handle.clone()) {
        LockPoll::Acquired(guard) => Some(Ok(guard)),
        LockPoll::OutOfMemory(e) => Some(Err(e)),
        LockPoll::Parked => None,
    }
}

#[test]
fn round_trip() {
    let mutex: Mutex<usize> = Mutex::new(10);
    assert_eq!(mutex.into_inner(), 10);
    let text = Mutex::new(String::from("kept"));
    assert_eq!(text.into_inner(), "kept");
}

#[test]
fn get_mut_writes_without_locking() {
    let mut mutex: Mutex<usize> = Mutex::new(0);
    *mutex.get_mut() = 10;
    let guard = mutex.try_lock().unwrap();
    assert_eq!(*guard, 10);
    guard.release();
    assert_eq!(mutex.into_inner(), 10);
}

#[test]
fn a_new_mutex_is_free() {
    let log = Arc::new(StdMutex::new(Vec::new()));
    let mutex = Mutex::new(1u8);
    let guard = acquire(&mutex, &handle(0, &log)).unwrap().unwrap();
    assert_eq!(*guard, 1);
}

#[test]
fn try_lock_while_held_gives_no_guard() {
    let log = Arc::new(StdMutex::new(Vec::new()));
    let mutex = Mutex::new(5u32);
    let guard = mutex.try_lock().unwrap();
    assert_eq!(*guard, 5);
    assert!(acquire(&mutex, &handle(1, &log)).is_none());
    assert!(mutex.try_lock().is_none());
    assert!(mutex.try_lock().is_none());
    guard.release();
    assert_eq!(woken(&log), vec![1]);
    let again = mutex.try_lock().unwrap();
    again.release();
    assert_eq!(woken(&log), vec![1]);
}

#[test]
fn the_guard_knows_its_mutex() {
    let first = Mutex::new(1u8);
    let second = Mutex::new(1u8);
    let guard = first.try_lock().unwrap();
    assert!(std::ptr::eq(MutexGuard::source(&guard), &first));
    assert!(!std::ptr::eq(MutexGuard::source(&guard), &second));
}

#[test]
fn a_contended_lock_is_pending_until_released() {
    let log = Arc::new(StdMutex::new(Vec::new()));
    let mutex = Mutex::new(Cell::new(1usize));
    let first = acquire(&mutex, &handle(0, &log)).unwrap().unwrap();
    first.set(2);
    assert!(acquire(&mutex, &handle(1, &log)).is_none());
    assert!(woken(&log).is_empty());
    first.release();
    assert_eq!(woken(&log), vec![1]);
    let second = acquire(&mutex, &handle(1, &log)).unwrap().unwrap();
    assert_eq!(second.get(), 2);
}

#[test]
fn waiters_are_woken_in_registration_order() {
    let log = Arc::new(StdMutex::new(Vec::new()));
    let mutex = Mutex::new(AtomicUsize::new(0));
    let holder = mutex.try_lock().unwrap();
    for id in 1..=4 {
        assert!(acquire(&mutex, &handle(id, &log)).is_none());
    }
    holder.release();
    for turn in 1..=4 {
        assert_eq!(woken(&log).len(), turn);
        let id = *woken(&log).last().unwrap();
        assert_eq!(id, turn);
        let guard = acquire(&mutex, &handle(id, &log)).unwrap().unwrap();
        guard.fetch_add(1, Ordering::SeqCst);
        guard.release();
    }
    assert_eq!(woken(&log), vec![1, 2, 3, 4]);
    assert_eq!(mutex.into_inner().into_inner(), 4);
}

#[test]
fn a_pending_acquisition_can_be_polled_again() {
    let log = Arc::new(StdMutex::new(Vec::new()));
    let mutex = Mutex::new(0u8);
    let holder = mutex.try_lock().unwrap();
    let pending = mutex.lock();
    assert!(matches!(pending.poll(handle(1, &log)), LockPoll::Parked));
    holder.release();
    assert_eq!(woken(&log), vec![1]);
    assert!(matches!(pending.poll(handle(1, &log)), LockPoll::Acquired(_)));
}

#[test]
fn an_abandoned_acquisition_leaves_a_handle_that_is_still_invoked() {
    let log = Arc::new(StdMutex::new(Vec::new()));
    let mutex = Mutex::new(0u8);
    let holder = mutex.try_lock().unwrap();
    {
        let pending = mutex.lock();
        assert!(matches!(pending.poll(handle(1, &log)), LockPoll::Parked));
    }
    holder.release();
    assert_eq!(woken(&log), vec![1]);
    assert!(mutex.try_lock().is_some());
}

#[test]
fn a_mutex_can_be_made_from_a_value_or_by_default() {
    let from: Mutex<u32> = Mutex::from(7);
    assert_eq!(*from.try_lock().unwrap(), 7);
    assert_eq!(from.into_inner(), 7);
    let default: Mutex<String> = Mutex::default();
    assert_eq!(default.into_inner(), "");
}

#[test]
fn release_says_whether_a_waiter_was_woken() {
    let log = Arc::new(StdMutex::new(Vec::new()));
    let mutex = Mutex::new(0u8);
    let alone = mutex.try_lock().unwrap();
    assert!(!alone.release());
    let holder = mutex.try_lock().unwrap();
    assert!(acquire(&mutex, &handle(1, &log)).is_none());
    assert!(acquire(&mutex, &handle(2, &log)).is_none());
    assert!(holder.release());
    assert_eq!(woken(&log), vec![1]);
    let next = mutex.try_lock().unwrap();
    assert!(next.release());
    assert_eq!(woken(&log), vec![1, 2]);
}

#[test]
fn a_guard_that_is_not_released_keeps_the_mutex_held() {
    let log = Arc::new(StdMutex::new(Vec::new()));
    let mutex = Mutex::new(0u8);
    {
        let _kept = mutex.try_lock().unwrap();
        assert!(acquire(&mutex, &handle(1, &log)).is_none());
    }
    assert!(mutex.try_lock().is_none());
    assert!(woken(&log).is_empty());
}

#[test]
fn a_mutex_can_protect_a_value_of_unknown_size() {
    let mut sized = Mutex::new([1u8, 2, 3]);
    {
        let mutex: &mut Mutex<[u8]> = &mut sized;
        mutex.get_mut()[0] = 9;
    }
    let mutex: &Mutex<[u8]> = &sized;
    let guard = mutex.try_lock().unwrap();
    assert_eq!(guard.len(), 3);
    assert_eq!(&*guard, &[9, 2, 3][..]);
    assert!(std::ptr::eq(MutexGuard::source(&guard), mutex));
    assert!(mutex.try_lock().is_none());
    guard.release();
    assert!(mutex.try_lock().is_some());
}
