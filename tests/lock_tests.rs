use rustos::spinlock::SpinLock;

#[test]
fn try_borrow_on_held_lock_returns_nothing() {
    let mut lock = SpinLock::new(5u64);
    let guard = lock.try_borrow();
    assert!(guard.is_some());
    assert!(lock.try_borrow().is_none());
    lock.release(guard.unwrap());
    assert!(lock.try_borrow().is_some());
}

#[test]
fn borrow_gives_the_value_and_release_puts_it_back() {
    let mut lock = SpinLock::new(vec![1u8, 2]);
    let mut g = lock.borrow();
    assert_eq!(g.get(), &vec![1u8, 2]);
    g.get_mut().push(3);
    lock.release(g);
    let g = lock.borrow();
    assert_eq!(g.get(), &vec![1u8, 2, 3]);
}
