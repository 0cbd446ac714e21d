use ksched::{AllocError, WaitQueue};
use std::sync::{Arc, Mutex};
use std::task::{Wake, Waker};

struct Note {
    id: usize,
    log: Arc<Mutex<Vec<usize>>>,
}

impl Wake for Note {
    fn wake(self: Arc<Self>) {
        self.log.lock().unwrap().push(self.id);
    }
}

fn handle(id: usize, log: &Arc<Mutex<Vec<usize>>>) -> Waker {
    Waker::from(Arc::new(Note { id, log: log.clone() }))
}

fn woken(log: &Arc<Mutex<Vec<usize>>>) -> Vec<usize> {
    log.lock().unwrap().clone()
}

#[test]
fn new_queue_is_empty() {
    let mut queue = WaitQueue::new();
    assert!(queue.is_empty());
    assert_eq!(queue.len(), 0);
    assert!(!queue.wake_one());
    assert!(queue.pop().is_none());
}

#[test]
fn wake_one_serves_in_insertion_order() {
    let log = Arc::new(Mutex::new(Vec::new()));
    let mut queue = WaitQueue::new();
    for id in [7, 3, 9] {
        assert_eq!(queue.push(handle(id, &log)), Ok(()));
    }
    assert_eq!(queue.len(), 3);
    assert!(queue.wake_one());
    assert_eq!(woken(&log), vec![7]);
    assert_eq!(queue.len(), 2);
    assert!(queue.wake_one());
    assert!(queue.wake_one());
    assert_eq!(woken(&log), vec![7, 3, 9]);
    assert!(!queue.wake_one());
    assert_eq!(woken(&log), vec![7, 3, 9]);
}

#[test]
fn a_later_push_does_not_overtake() {
    let log = Arc::new(Mutex::new(Vec::new()));
    let mut queue = WaitQueue::new();
    queue.push(handle(1, &log)).unwrap();
    queue.push(handle(2, &log)).unwrap();
    assert!(queue.wake_one());
    queue.push(handle(3, &log)).unwrap();
    assert!(queue.wake_one());
    assert!(queue.wake_one());
    assert_eq!(woken(&log), vec![1, 2, 3]);
}

#[test]
fn wake_all_drains_head_first() {
    let log = Arc::new(Mutex::new(Vec::new()));
    let mut queue = WaitQueue::new();
    for id in 0..5 {
        queue.push(handle(id, &log)).unwrap();
    }
    queue.wake_all();
    assert!(queue.is_empty());
    assert_eq!(woken(&log), vec![0, 1, 2, 3, 4]);
    queue.wake_all();
    assert_eq!(woken(&log), vec![0, 1, 2, 3, 4]);
}

#[test]
fn pop_hands_the_head_out_without_invoking_it() {
    let log = Arc::new(Mutex::new(Vec::new()));
    let mut queue = WaitQueue::new();
    queue.push(handle(4, &log)).unwrap();
    queue.push(handle(5, &log)).unwrap();
    let head = queue.pop().unwrap();
    assert_eq!(queue.len(), 1);
    assert!(woken(&log).is_empty());
    head.wake();
    assert_eq!(woken(&log), vec![4]);
}

#[test]
fn a_refused_push_leaves_the_queue_unchanged() {
    let log = Arc::new(Mutex::new(Vec::new()));
    let mut queue = WaitQueue::new();
    assert_eq!(queue.push_granted(handle(1, &log), true), Ok(()));
    assert_eq!(queue.push_granted(handle(2, &log), false), Err(AllocError));
    assert_eq!(queue.len(), 1);
    assert_eq!(queue.push_granted(handle(3, &log), true), Ok(()));
    queue.wake_all();
    assert_eq!(woken(&log), vec![1, 3]);
}

#[test]
fn reserve_keeps_the_contents() {
    let log = Arc::new(Mutex::new(Vec::new()));
    let mut queue = WaitQueue::new();
    queue.push(handle(1, &log)).unwrap();
    let granted = queue.reserve();
    assert_eq!(queue.len(), 1);
    assert_eq!(queue.push_granted(handle(2, &log), granted).is_ok(), granted);
    queue.wake_all();
    assert_eq!(woken(&log), if granted { vec![1, 2] } else { vec![1] });
}
