//! Call-count policies: unlimited, counted, and one-shot budgets, and the
//! priority and skipping rules of the scan.

use faux::store::{DispatchError, MockStore};
use faux::when::When;
use faux::matcher::Single;

const M: u64 = 21;
const N: u64 = 22;

#[test]
fn always_never_exhausts() {
    let mut store: MockStore<u32, u32> = MockStore::new();
    When::new(M).then_call(&mut store, |x| x + 1);
    for i in 0..1000u32 {
        let got = store.dispatch(M, i, "Foo::m", "here").unwrap();
        assert_eq!(got, i + 1);
    }
}

#[test]
fn times_two_serves_twice_then_fails() {
    let mut store: MockStore<u32, u32> = MockStore::new();
    When::new(M).times(2).then_return(&mut store, 10);
    assert_eq!(store.dispatch(M, 1, "Foo::m", "here").unwrap(), 10);
    assert_eq!(store.dispatch(M, 2, "Foo::m", "here").unwrap(), 10);
    let err = store.dispatch(M, 3, "Foo::m", "here").unwrap_err();
    assert!(matches!(err, DispatchError::Unstubbed { .. }));
}

#[test]
fn times_zero_never_serves() {
    let mut store: MockStore<(), u8> = MockStore::new();
    When::new(M).times(0).then_return(&mut store, 1);
    let err = store.dispatch(M, (), "Foo::m", "here").unwrap_err();
    assert!(matches!(err, DispatchError::Unstubbed { .. }));
}

#[test]
fn unregistered_method_fails_with_unstubbed() {
    let mut store: MockStore<(), u8> = MockStore::new();
    let err = store.dispatch(N, (), "Foo::n", "tests/budgets.rs:44:15").unwrap_err();
    assert_eq!(err.message(), "`Foo::n` was called but never stubbed");
}

#[test]
fn earlier_registration_wins_and_keeps_the_budget() {
    let mut store: MockStore<(), u8> = MockStore::new();
    When::new(M).times(1).then_return(&mut store, 1);
    When::new(M).then_return(&mut store, 2);
    // Both entries match; the earlier one is selected and its budget is
    // the one consumed.
    assert_eq!(store.dispatch(M, (), "Foo::m", "here").unwrap(), 1);
    // The earlier entry is now exhausted and skipped; the later one serves.
    assert_eq!(store.dispatch(M, (), "Foo::m", "here").unwrap(), 2);
    assert_eq!(store.dispatch(M, (), "Foo::m", "here").unwrap(), 2);
}

#[test]
fn rejecting_matcher_is_skipped_whatever_its_budget() {
    let mut store: MockStore<i32, u8> = MockStore::new();
    When::new(M).with_args(Single(faux::eq(5))).then_return(&mut store, 1);
    When::new(M).then_return(&mut store, 2);
    assert_eq!(store.dispatch(M, 7, "Foo::m", "here").unwrap(), 2);
    assert_eq!(store.dispatch(M, 5, "Foo::m", "here").unwrap(), 1);
}

#[test]
fn once_serves_one_call_then_violates() {
    let mut store: MockStore<(), String> = MockStore::new();
    // A uniquely owned resource, released to the caller by the one call.
    let resource = String::from("owned resource");
    When::new(M).once().then_return(&mut store, resource);
    let got = store.dispatch(M, (), "Foo::m", "here").unwrap();
    assert_eq!(got, "owned resource");
    let err = store.dispatch(M, (), "Foo::m", "tests/budgets.rs:77:15").unwrap_err();
    // The second call is a policy violation, distinct from exhaustion.
    assert!(matches!(err, DispatchError::OnceViolation { .. }));
    assert_eq!(
        err.message(),
        "`Foo::m` was called again after its one allowed call"
    );
}

#[test]
fn once_violation_aborts_instead_of_trying_later_entries() {
    let mut store: MockStore<(), u8> = MockStore::new();
    When::new(M).once().then_return(&mut store, 1);
    When::new(M).then_return(&mut store, 2);
    assert_eq!(store.dispatch(M, (), "Foo::m", "here").unwrap(), 1);
    // The spent one-shot entry still matches first: the call aborts with
    // the violation rather than falling through to the later entry.
    let err = store.dispatch(M, (), "Foo::m", "here").unwrap_err();
    assert!(matches!(err, DispatchError::OnceViolation { .. }));
}

#[test]
fn matcher_and_budget_combine_in_one_registration() {
    let mut store: MockStore<i32, u8> = MockStore::new();
    When::new(M)
        .with_args(Single(faux::eq(3)))
        .times(1)
        .then_return(&mut store, 9);
    // A rejected call does not touch the budget.
    assert!(store.dispatch(M, 4, "Foo::m", "here").is_err());
    assert_eq!(store.dispatch(M, 3, "Foo::m", "here").unwrap(), 9);
    // The single unit of budget is now consumed.
    assert!(store.dispatch(M, 3, "Foo::m", "here").is_err());
}

#[test]
fn discarded_builder_registers_nothing() {
    let mut store: MockStore<(), u8> = MockStore::new();
    let builder = When::new(M).times(3);
    drop(builder);
    let err = store.dispatch(M, (), "Foo::m", "here").unwrap_err();
    assert!(matches!(err, DispatchError::Unstubbed { .. }));
}

#[test]
fn once_with_behavior_consumes_captured_state() {
    let mut store: MockStore<u8, Vec<u8>> = MockStore::new();
    let captured = vec![25];
    When::new(M).once().then_call(&mut store, move |x| {
        let mut v = captured;
        v.push(x);
        v
    });
    let got = store.dispatch(M, 8, "Foo::m", "here").unwrap();
    assert_eq!(got, vec![25, 8]);
    assert!(store.dispatch(M, 8, "Foo::m", "here").is_err());
}
