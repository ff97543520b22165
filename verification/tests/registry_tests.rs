use async_local::errors::ErrorKind;
use async_local::registry::RootObjectType;
use async_local::registry::Store;

#[test]
fn acquire_retain_twice_release_three_times_then_lookup_fails() {
    let mut s: Store<i64> = Store::new(RootObjectType::Array);
    let h = s.acquire(42);
    assert_eq!(h, 0);
    s.retain(h);
    s.retain(h);
    assert_eq!(s.count_of(h), Some(3));
    assert_eq!(s.lookup(h), Ok(&42));
    s.release(h);
    s.release(h);
    assert_eq!(s.lookup(h), Ok(&42));
    s.release(h);
    assert_eq!(s.count_of(h), Some(0));
    assert_eq!(s.lookup(h), Err(ErrorKind::HandleNotFound));
}

#[test]
fn lookupable_iff_releases_fewer_than_grabs() {
    let mut s: Store<i64> = Store::new(RootObjectType::Object);
    let h = s.acquire(7);
    assert!(s.lookup(h).is_ok()); // 1 grab, 0 releases
    s.retain(h); // 2 grabs
    s.release(h); // 1 release
    assert!(s.lookup(h).is_ok());
    s.release(h); // 2 releases
    assert!(s.lookup(h).is_err());
}

#[test]
fn handles_are_issued_in_order_and_never_reused() {
    let mut s: Store<i64> = Store::new(RootObjectType::Array);
    let a = s.acquire(1);
    let b = s.acquire(2);
    assert_eq!((a, b), (0, 1));
    s.release(a);
    let c = s.acquire(3);
    assert_eq!(c, 2); // the dead slot is tombstoned, not reused
    assert_eq!(s.lookup(a), Err(ErrorKind::HandleNotFound));
    assert_eq!(s.lookup(b), Ok(&2));
    assert_eq!(s.lookup(c), Ok(&3));
    assert_eq!(s.issued(), 3);
}

#[test]
fn lookup_of_unissued_handle_fails() {
    let s: Store<i64> = Store::new(RootObjectType::Array);
    assert_eq!(s.lookup(0), Err(ErrorKind::HandleNotFound));
    assert_eq!(s.count_of(5), None);
}

#[test]
fn release_checked_reports_liveness() {
    let mut s: Store<i64> = Store::new(RootObjectType::Array);
    let h = s.acquire(9);
    assert!(s.release_checked(h));
    assert!(!s.release_checked(h)); // dead: nothing to give back
    assert_eq!(s.count_of(h), Some(0));
}
