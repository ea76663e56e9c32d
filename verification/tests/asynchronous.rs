//! Dispatch driven the way a desugared asynchronous method would drive it:
//! the forwarding layer captures the call site eagerly and performs exactly
//! one dispatch when the deferred computation is driven; the engine itself
//! stays synchronous.

use faux::store::MockStore;
use faux::when::When;

const FETCH: u64 = 11;

#[test]
fn mocked() {
    let mut store: MockStore<(), i32> = MockStore::new();
    When::new(FETCH).then_call(&mut store, |_| 10);
    // The deferred computation a desugared `fetch` would return: the call
    // site was captured when the method was entered, the dispatch happens
    // when the computation is driven.
    let site = "tests/asynchronous.rs:39:53";
    let mut deferred = move |store: &mut MockStore<(), i32>| {
        store.dispatch(FETCH, (), "Foo::fetch", site).unwrap()
    };
    let fetched = deferred(&mut store);
    assert_eq!(fetched, 10);
}

#[test]
fn asynchronous_unmocked_reports_the_captured_call_site() {
    let mut store: MockStore<(), i32> = MockStore::new();
    let site = "tests/asynchronous.rs:60:69";
    let err = store.dispatch(FETCH, (), "Foo::fetch", site).unwrap_err();
    match err {
        faux::store::DispatchError::Unstubbed { site, .. } => {
            assert_eq!(site, "tests/asynchronous.rs:60:69");
        }
        faux::store::DispatchError::OnceViolation { .. } => panic!("wrong error variant"),
    }
}
