use ksched::{AllocError, AllocGuard};

#[test]
fn a_new_block_is_zeroed() {
    let guard = AllocGuard::new(16).unwrap();
    assert_eq!(guard.size(), 16);
    assert_eq!(guard.ptr(), &[0u8; 16][..]);
}

#[test]
fn an_empty_block_can_be_had() {
    let guard = AllocGuard::new(0).unwrap();
    assert_eq!(guard.size(), 0);
    assert!(guard.ptr().is_empty());
    assert!(guard.consume().is_empty());
}

#[test]
fn consume_hands_the_block_on() {
    let mut guard = AllocGuard::new(4).unwrap();
    guard.ptr_mut()[1] = 7;
    guard.ptr_mut()[3] = 9;
    assert_eq!(guard.ptr(), &[0, 7, 0, 9][..]);
    let block = guard.consume();
    assert_eq!(block, vec![0, 7, 0, 9]);
}

#[test]
fn from_ptr_adopts_a_block() {
    let guard = AllocGuard::from_ptr(vec![1, 2, 3]);
    assert_eq!(guard.size(), 3);
    assert_eq!(guard.ptr(), &[1, 2, 3][..]);
    assert_eq!(guard.consume(), vec![1, 2, 3]);
}

#[test]
fn a_refused_allocation_gives_no_guard() {
    assert!(matches!(AllocGuard::new_granted(Vec::new(), 8, false), Err(AllocError)));
    let guard = AllocGuard::new_granted(vec![5, 5], 3, true).unwrap();
    assert_eq!(guard.ptr(), &[0, 0, 0][..]);
}

#[test]
fn a_block_that_cannot_exist_is_refused() {
    assert!(AllocGuard::new(usize::MAX).is_err());
}
