//! Stubbing and dispatch for ordinary synchronous methods, the way the
//! generated forwarding stubs of a mocked `Foo` would drive the engine.

use faux::matcher::Single;
use faux::store::{DispatchError, MockStore};
use faux::when::When;

/// The plain struct whose mocked counterpart the other tests drive.
struct Foo {
    a: u32,
}

impl Foo {
    fn new(a: u32) -> Self {
        Foo { a }
    }

    fn get_stuff(&self) -> u32 {
        self.a
    }

    fn add_stuff(&self, x: i32) -> i32 {
        self.a as i32 + x
    }
}

// Stable identities the code generation layer would assign to `Foo`'s
// method slots.
const GET_STUFF: u64 = 1;
const ADD_STUFF_2: u64 = 2;

#[test]
fn real_struct() {
    let real = Foo::new(3);
    assert_eq!(real.get_stuff(), 3);
    assert_eq!(real.add_stuff(2), 5);
}

#[test]
fn faux_single_arg() {
    let mut store: MockStore<(), u32> = MockStore::new();
    When::new(GET_STUFF).then_call(&mut store, |_| 10);
    let got = store
        .dispatch(GET_STUFF, (), "Foo::get_stuff", "tests/simple.rs")
        .unwrap();
    assert_eq!(got, 10);
}

#[test]
fn faux_multi_arg() {
    let mut store: MockStore<(i32, i32), i32> = MockStore::new();
    When::new(ADD_STUFF_2).then_call(&mut store, |(a, b)| a - b);
    let got = store
        .dispatch(ADD_STUFF_2, (90, 30), "Foo::add_stuff_2", "tests/simple.rs")
        .unwrap();
    assert_eq!(got, 60);
}

#[test]
#[should_panic(expected = "`Foo::get_stuff` was called but never stubbed")]
fn unmocked_faux_panics() {
    let mut store: MockStore<(), u32> = MockStore::new();
    match store.dispatch(GET_STUFF, (), "Foo::get_stuff", "tests/simple.rs:74:16") {
        Ok(v) => {
            let _ = v;
        }
        Err(e) => panic!("{}", e.message()),
    }
}

#[test]
fn unstubbed_error_names_method_and_site() {
    let mut store: MockStore<u8, u8> = MockStore::new();
    let err = store
        .dispatch(9, 5, "Foo::missing", "tests/simple.rs:81:13")
        .unwrap_err();
    match &err {
        DispatchError::Unstubbed { method, site } => {
            assert_eq!(method, "Foo::missing");
            assert_eq!(site, "tests/simple.rs:81:13");
        }
        DispatchError::OnceViolation { .. } => panic!("wrong error variant"),
    }
    assert_eq!(err.message(), "`Foo::missing` was called but never stubbed");
}

#[test]
fn equality_matcher_filters_and_any_serves_the_rest() {
    let mut store: MockStore<i32, String> = MockStore::new();
    When::new(GET_STUFF)
        .with_args(Single(faux::eq(7)))
        .then_return(&mut store, String::from("seven"));
    When::new(GET_STUFF).then_return(&mut store, String::from("other"));
    let first = store.dispatch(GET_STUFF, 7, "Foo::get_stuff", "here").unwrap();
    assert_eq!(first, "seven");
    let second = store.dispatch(GET_STUFF, 8, "Foo::get_stuff", "here").unwrap();
    assert_eq!(second, "other");
}

#[test]
fn positional_matchers_apply_per_argument() {
    let mut store: MockStore<(i32, i32), i32> = MockStore::new();
    When::new(ADD_STUFF_2)
        .with_args((faux::eq(1), faux::any()))
        .then_return(&mut store, 100);
    When::new(ADD_STUFF_2).then_return(&mut store, 200);
    assert_eq!(
        store.dispatch(ADD_STUFF_2, (1, 50), "Foo::add_stuff_2", "here").unwrap(),
        100
    );
    assert_eq!(
        store.dispatch(ADD_STUFF_2, (2, 50), "Foo::add_stuff_2", "here").unwrap(),
        200
    );
}

#[test]
fn identities_do_not_interfere() {
    let mut store: MockStore<(), u32> = MockStore::new();
    When::new(GET_STUFF).then_return(&mut store, 4);
    assert!(store.dispatch(ADD_STUFF_2, (), "Foo::add_stuff_2", "here").is_err());
    assert_eq!(store.dispatch(GET_STUFF, (), "Foo::get_stuff", "here").unwrap(), 4);
}
