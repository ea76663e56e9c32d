//! The storage seam between the verified engine and the behaviors it runs.
//!
//! Entries of one method's registration list carry matchers and stubs of
//! many different concrete types, so the store keeps each behind a boxed
//! function value, a type Verus cannot look into. Each boxed value travels
//! with a ghost predicate fixed at the moment of erasure: the matcher's
//! acceptance predicate, or the stub's input-output postcondition. The
//! fields are private and the functions of this module are the only ways to
//! create and to call the boxed values, which is what keeps the ghost
//! predicate faithful to the behavior inside the box: the `run_` functions
//! are trusted on exactly that pairing.

use vstd::prelude::*;
use crate::matcher::AllArgs;

verus! {

/// Holds a boxed matcher decision. Verus sees nothing inside; the ghost
/// predicate beside it in `StoredMatcher` carries its meaning.
#[verifier::external_body]
#[verifier::reject_recursive_types(A)]
struct MatcherBox<A: 'static> {
    decide: Box<dyn Fn(&A) -> bool + Send>,
}

/// Boxes a matcher's decision. Relies on std's `Box` to store the closure
/// and hand every later call to it unchanged.
#[verifier::external_body]
fn box_matcher<A, M: AllArgs<A> + Send + 'static>(m: M) -> MatcherBox<A> {
    MatcherBox { decide: Box::new(move |args: &A| m.matches(args)) }
}

/// A type-erased argument matcher: the boxed decision together with the
/// ghost predicate it implements.
#[verifier::reject_recursive_types(A)]
pub struct StoredMatcher<A: 'static> {
    decide: MatcherBox<A>,
    pred: Ghost<spec_fn(A) -> bool>,
}

impl<A> StoredMatcher<A> {
    /// The set of argument tuples the erased matcher accepts.
    pub closed spec fn accepts(self, args: A) -> bool {
        (self.pred@)(args)
    }
}

/// Erases a matcher into the form the store keeps: the boxed decision of
/// `m`, paired with `m`'s own acceptance predicate.
pub fn erase_matcher<A, M: AllArgs<A> + Send + 'static>(m: M) -> (r: StoredMatcher<A>)
    ensures
        forall|args: A| #[trigger] r.accepts(args) == m.accepts(args),
{
    let ghost pred: spec_fn(A) -> bool = |args: A| m.accepts(args);
    let decide = box_matcher(m);
    StoredMatcher { decide, pred: Ghost(pred) }
}

/// Runs the erased matcher. Relies on std's `Box`: the call reaches the
/// matcher boxed by `box_matcher`, whose `AllArgs::matches` contract makes
/// the result equal to the ghost predicate that `erase_matcher` paired with
/// the box.
#[verifier::external_body]
pub fn run_matcher<A>(m: &StoredMatcher<A>, args: &A) -> (r: bool)
    ensures
        r == m.accepts(*args),
{
    (m.decide.decide)(args)
}

/// Holds a boxed repeatable behavior. Verus sees nothing inside; the ghost
/// relation beside it in `StoredStub` carries its meaning.
#[verifier::external_body]
#[verifier::reject_recursive_types(A)]
#[verifier::reject_recursive_types(O)]
struct StubBox<A: 'static, O: 'static> {
    behavior: Box<dyn Fn(A) -> O + Send>,
}

/// Boxes a repeatable behavior. Relies on std's `Box` to store the closure
/// and hand every later call to it unchanged. The closure must accept every
/// argument tuple, since dispatch may hand it any accepted call.
#[verifier::external_body]
fn box_stub<A, O, F: Fn(A) -> O + Send + 'static>(f: F) -> StubBox<A, O>
    requires
        forall|args: A| #[trigger] call_requires(f, (args,)),
{
    StubBox { behavior: Box::new(f) }
}

/// A type-erased repeatable stub: the boxed behavior together with the ghost
/// relation of its possible input-output pairs.
#[verifier::reject_recursive_types(A)]
#[verifier::reject_recursive_types(O)]
pub struct StoredStub<A: 'static, O: 'static> {
    behavior: StubBox<A, O>,
    post: Ghost<spec_fn(A, O) -> bool>,
}

impl<A, O> StoredStub<A, O> {
    /// Whether `out` is a possible output of the erased behavior on `args`.
    pub closed spec fn post_allows(self, args: A, out: O) -> bool {
        (self.post@)(args, out)
    }
}

/// Erases a repeatable behavior into the form the store keeps: the boxed
/// closure, paired with the closure's own postcondition.
pub fn erase_stub<A, O, F: Fn(A) -> O + Send + 'static>(f: F) -> (r: StoredStub<A, O>)
    requires
        forall|args: A| #[trigger] call_requires(f, (args,)),
    ensures
        forall|args: A, out: O|
            #[trigger] r.post_allows(args, out) == call_ensures(f, (args,), out),
{
    let ghost post: spec_fn(A, O) -> bool = |args: A, out: O| call_ensures(f, (args,), out);
    let behavior = box_stub(f);
    StoredStub { behavior, post: Ghost(post) }
}

/// Runs the erased behavior once, leaving it in place. Relies on std's
/// `Box`: the call reaches the closure boxed by `box_stub`, and what a
/// closure returns satisfies its own postcondition — the ghost relation that
/// `erase_stub` paired with the box.
#[verifier::external_body]
pub fn run_stub<A, O>(s: &StoredStub<A, O>, args: A) -> (r: O)
    ensures
        s.post_allows(args, r),
{
    (s.behavior.behavior)(args)
}

/// Holds a boxed one-shot behavior. Verus sees nothing inside; the ghost
/// relation beside it in `StoredOnceStub` carries its meaning.
#[verifier::external_body]
#[verifier::reject_recursive_types(A)]
#[verifier::reject_recursive_types(O)]
struct OnceBox<A: 'static, O: 'static> {
    behavior: Box<dyn FnOnce(A) -> O + Send>,
}

/// Boxes a one-shot behavior, which may own captured state and release it
/// when run. Relies on std's `Box` to store the closure and hand the single
/// later call to it unchanged. The closure must accept every argument tuple.
#[verifier::external_body]
fn box_once_stub<A, O, F: FnOnce(A) -> O + Send + 'static>(f: F) -> OnceBox<A, O>
    requires
        forall|args: A| #[trigger] call_requires(f, (args,)),
{
    OnceBox { behavior: Box::new(f) }
}

/// A type-erased one-shot stub: the boxed behavior, consumed by its single
/// run, together with the ghost relation of its possible input-output pairs.
#[verifier::reject_recursive_types(A)]
#[verifier::reject_recursive_types(O)]
pub struct StoredOnceStub<A: 'static, O: 'static> {
    behavior: OnceBox<A, O>,
    post: Ghost<spec_fn(A, O) -> bool>,
}

impl<A, O> StoredOnceStub<A, O> {
    /// Whether `out` is a possible output of the erased behavior on `args`.
    pub closed spec fn post_allows(self, args: A, out: O) -> bool {
        (self.post@)(args, out)
    }
}

/// Erases a one-shot behavior into the form the store keeps: the boxed
/// closure, paired with the closure's own postcondition.
pub fn erase_once_stub<A, O, F: FnOnce(A) -> O + Send + 'static>(f: F) -> (r: StoredOnceStub<
    A,
    O,
>)
    requires
        forall|args: A| #[trigger] call_requires(f, (args,)),
    ensures
        forall|args: A, out: O|
            #[trigger] r.post_allows(args, out) == call_ensures(f, (args,), out),
{
    let ghost post: spec_fn(A, O) -> bool = |args: A, out: O| call_ensures(f, (args,), out);
    let behavior = box_once_stub(f);
    StoredOnceStub { behavior, post: Ghost(post) }
}

/// Consumes the erased one-shot behavior and runs it. Relies on std's `Box`:
/// the value taken apart by this call is the closure boxed by
/// `box_once_stub`, and what a closure returns satisfies its own
/// postcondition — the ghost relation that `erase_once_stub` paired with the
/// box. Taking the stub by value is what makes a second run impossible.
#[verifier::external_body]
pub fn run_once_stub<A, O>(s: StoredOnceStub<A, O>, args: A) -> (r: O)
    ensures
        s.post_allows(args, r),
{
    (s.behavior.behavior)(args)
}

} // verus!
