use std::sync::Arc;
use wmonitor::common::lock::LockRegistry;
use wmonitor::domains::FiefId;

#[test]
fn a_fief_keeps_its_lock() {
    let mut registry = LockRegistry::new();
    let first = registry.get_fief_lock(FiefId(1));
    let other = registry.get_fief_lock(FiefId(2));
    let again = registry.get_fief_lock(FiefId(1));
    assert!(Arc::ptr_eq(&first.0, &again.0));
    assert!(!Arc::ptr_eq(&first.0, &other.0));
}

#[test]
fn the_lock_of_a_fief_has_one_holder_at_a_time() {
    let mut registry = LockRegistry::new();
    let mine = registry.get_fief_lock(FiefId(7));
    let yours = registry.get_fief_lock(FiefId(7));
    let theirs = registry.get_fief_lock(FiefId(8));

    let held = mine.0.try_lock().unwrap();
    assert!(yours.0.try_lock().is_err());
    let elsewhere = theirs.0.try_lock().unwrap();
    drop(held);
    let now_free = yours.0.try_lock();
    assert!(now_free.is_ok());
    drop(elsewhere);
}
