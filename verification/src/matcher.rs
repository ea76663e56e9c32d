//! Argument matchers: the predicates that decide whether a registered entry
//! applies to the argument tuple of a call.
//!
//! A matcher over a whole argument tuple implements [`AllArgs`]. [`Any`]
//! accepts every tuple. Per-position matching is built from [`ArgMatcher`]
//! values — [`any()`] or [`eq()`] — wrapped in [`Single`] for one-argument
//! methods or grouped in a tuple, one matcher per argument position, for
//! methods with several arguments. Arity is fixed by the types, so a matcher
//! with the wrong number of positions is rejected when the registration is
//! written, not when the call happens.
//!
//! A custom predicate is a type of the caller's own implementing [`AllArgs`]
//! (or [`ArgMatcher`] for one position): its `accepts` states the predicate
//! and its `matches` must decide exactly that, without panicking.

use vstd::prelude::*;
use vstd::std_specs::cmp::PartialEqSpec;

verus! {

/// A predicate over a method's full (non-receiver) argument tuple.
///
/// `accepts` is the mathematical meaning of the matcher; `matches` is its
/// executable decision, which must agree with `accepts` on every tuple and
/// must not panic.
pub trait AllArgs<A>: Sized {
    /// The set of argument tuples this matcher accepts.
    spec fn accepts(&self, args: A) -> bool;

    /// Decides whether `args` is accepted.
    fn matches(&self, args: &A) -> (r: bool)
        ensures
            r == self.accepts(*args),
    ;
}

/// Matches every argument tuple, whatever its arity or contents.
pub struct Any;

impl<A> AllArgs<A> for Any {
    open spec fn accepts(&self, args: A) -> bool {
        true
    }

    fn matches(&self, args: &A) -> (r: bool) {
        true
    }
}

/// A predicate over a single argument position.
pub trait ArgMatcher<T>: Sized {
    /// The set of argument values this matcher accepts.
    spec fn accepts_arg(&self, arg: T) -> bool;

    /// Decides whether `arg` is accepted.
    fn matches_arg(&self, arg: &T) -> (r: bool)
        ensures
            r == self.accepts_arg(*arg),
    ;
}

/// Matches any value in one argument position.
pub struct AnyArg;

/// Returns the matcher that accepts any value in one argument position.
pub fn any() -> AnyArg {
    AnyArg
}

impl<T> ArgMatcher<T> for AnyArg {
    open spec fn accepts_arg(&self, arg: T) -> bool {
        true
    }

    fn matches_arg(&self, arg: &T) -> (r: bool) {
        true
    }
}

/// Matches exactly the values equal to a captured expected value, by the
/// type's own equality comparison.
pub struct EqArg<T: PartialEq> {
    expected: T,
}

impl<T: PartialEq> EqArg<T> {
    /// Equality matching is only meaningful when the type's `==` agrees with
    /// its specification-level equality.
    #[verifier::type_invariant]
    spec fn inv(self) -> bool {
        T::obeys_eq_spec()
    }

    /// The captured value that call arguments are compared against.
    pub closed spec fn expected_value(self) -> T {
        self.expected
    }
}

/// Returns the matcher that accepts exactly the values equal to `expected`.
pub fn eq<T: PartialEq>(expected: T) -> (r: EqArg<T>)
    requires
        T::obeys_eq_spec(),
    ensures
        r.expected_value() == expected,
{
    EqArg { expected }
}

impl<T: PartialEq> ArgMatcher<T> for EqArg<T> {
    closed spec fn accepts_arg(&self, arg: T) -> bool {
        arg.eq_spec(&self.expected)
    }

    fn matches_arg(&self, arg: &T) -> (r: bool) {
        proof {
            use_type_invariant(self);
        }
        *arg == self.expected
    }
}

/// Wraps the matcher of a one-argument method into a matcher over that
/// method's whole argument tuple, which is the bare argument itself.
pub struct Single<M>(pub M);

impl<T, M: ArgMatcher<T>> AllArgs<T> for Single<M> {
    open spec fn accepts(&self, args: T) -> bool {
        self.0.accepts_arg(args)
    }

    fn matches(&self, args: &T) -> (r: bool) {
        self.0.matches_arg(args)
    }
}

impl<T1, T2, M1: ArgMatcher<T1>, M2: ArgMatcher<T2>> AllArgs<(T1, T2)> for (M1, M2) {
    open spec fn accepts(&self, args: (T1, T2)) -> bool {
        self.0.accepts_arg(args.0) && self.1.accepts_arg(args.1)
    }

    fn matches(&self, args: &(T1, T2)) -> (r: bool) {
        self.0.matches_arg(&args.0) && self.1.matches_arg(&args.1)
    }
}

impl<T1, T2, T3, M1: ArgMatcher<T1>, M2: ArgMatcher<T2>, M3: ArgMatcher<T3>> AllArgs<
    (T1, T2, T3),
> for (M1, M2, M3) {
    open spec fn accepts(&self, args: (T1, T2, T3)) -> bool {
        self.0.accepts_arg(args.0) && self.1.accepts_arg(args.1) && self.2.accepts_arg(args.2)
    }

    fn matches(&self, args: &(T1, T2, T3)) -> (r: bool) {
        self.0.matches_arg(&args.0) && self.1.matches_arg(&args.1) && self.2.matches_arg(&args.2)
    }
}

} // verus!
