use async_local::bridge::Bridge;
use async_local::bridge::Settlement;
use async_local::bridge::converted_outcome;
use async_local::errors::ErrorKind;
use async_local::errors::Failure;
use async_local::once::OnceFn;
use async_local::once::to_fn;
use async_local::registry::RootObjectType;
use async_local::registry::Store;

#[test]
fn create_deferred_registers_both_callbacks() {
    let mut b = Bridge::new();
    let mut s: Store<i64> = Store::new(RootObjectType::Array);
    let d = b.create_deferred(&mut s, 100, 200);
    assert_eq!(d, 0);
    let (rh, jh) = (b.deferreds[d].resolver, b.deferreds[d].rejecter);
    assert_ne!(rh, jh);
    assert_eq!(s.count_of(rh), Some(1));
    assert_eq!(s.count_of(jh), Some(1));
    assert_eq!(s.lookup(rh), Ok(&100));
    assert_eq!(s.lookup(jh), Ok(&200));
    assert_eq!(b.deferreds[d].settled, None);
}

#[test]
fn settle_with_value_resolves_and_releases_callbacks() {
    let mut b = Bridge::new();
    let mut s: Store<i64> = Store::new(RootObjectType::Array);
    let d = b.create_deferred(&mut s, 100, 200);
    let (rh, jh) = (b.deferreds[d].resolver, b.deferreds[d].rejecter);
    b.settle(&mut s, d, Ok(9));
    assert_eq!(b.deferreds[d].settled, Some(Settlement::Resolved(9)));
    assert_eq!(b.log, vec![(d, Settlement::Resolved(9))]);
    assert_eq!(s.count_of(rh), Some(0));
    assert_eq!(s.count_of(jh), Some(0));
    assert!(s.lookup(rh).is_err());
    assert!(s.lookup(jh).is_err());
}

#[test]
fn settle_with_error_rejects() {
    let mut b = Bridge::new();
    let mut s: Store<i64> = Store::new(RootObjectType::Array);
    let d = b.create_deferred(&mut s, 1, 2);
    b.settle(&mut s, d, Err(Failure::Body(77)));
    assert_eq!(b.deferreds[d].settled, Some(Settlement::Rejected(Failure::Body(77))));
}

#[test]
fn converted_outcome_resolves_converted_values() {
    assert_eq!(converted_outcome(Ok(3), Some(30)), Ok(30));
}

#[test]
fn converted_outcome_rejects_unrepresentable_values() {
    assert_eq!(
        converted_outcome(Ok(3), None),
        Err(Failure::Bridge(ErrorKind::ConversionFailed))
    );
}

#[test]
fn converted_outcome_keeps_native_errors() {
    assert_eq!(
        converted_outcome(Err(Failure::Body(9)), Some(1)),
        Err(Failure::Body(9))
    );
}

#[test]
fn once_fn_is_consumed_by_its_first_call() {
    let mut f: OnceFn<_> = to_fn(|x: u32| x + 1);
    assert!(f.is_callable());
    assert_eq!(f.call_once_with(41), 42);
    assert!(!f.is_callable());
}

#[test]
fn once_fn_hands_its_function_out_at_most_once() {
    let mut f: OnceFn<_> = to_fn(|x: u32| x * 2);
    let first = f.take_inner();
    assert!(first.is_some());
    assert!(f.take_inner().is_none());
    assert_eq!((first.unwrap())(21), 42);
}

#[test]
fn error_kinds_have_distinct_messages() {
    let kinds = [
        ErrorKind::ChannelDispatchFailed,
        ErrorKind::HandleNotFound,
        ErrorKind::DoubleSettle,
        ErrorKind::ConversionFailed,
    ];
    assert_eq!(kinds[0].message(), "host channel dispatch failed");
    assert_eq!(kinds[1].message(), "handle not found");
    assert_eq!(kinds[2].message(), "deferred result settled twice");
    assert_eq!(kinds[3].message(), "conversion to host value failed");
}
