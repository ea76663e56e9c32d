//! The fluent registration builders that stub a mocked method.
//!
//! A [`When`] is created bound to one method identity. By default the
//! registration matches any arguments and never exhausts; `with_args`
//! replaces the matcher, `times` replaces the budget, and `once` moves to
//! the one-shot builder [`Once`], after which a counted budget can no
//! longer be chosen. The terminal operations `then` and `then_return` bind
//! the behavior, build the finished entry and append it to the store; they
//! consume the builder, so a spent builder cannot be reused, and a builder
//! that is dropped instead registers nothing.
//!
//! A behavior bound through `When` must be free of borrowed state — owned
//! indefinitely, safe to run any number of times — while the [`Once`]
//! builder also takes a behavior that owns captured state and releases it
//! when it runs, since that behavior is structurally guaranteed to run at
//! most once.

use vstd::prelude::*;
use crate::erased::{erase_matcher, erase_once_stub, erase_stub};
use crate::matcher::{AllArgs, Any};
use crate::mock::{MockEntry, MockTimes, StubState};
use crate::store::MockStore;

verus! {

/// The fluent builder of one registration: a method identity, the matcher
/// the entry will carry, and the call-count policy it will carry.
pub struct When<M> {
    /// The method identity the registration is for.
    pub id: u64,
    /// The call-count policy of the future entry.
    pub times: MockTimes,
    /// The matcher of the future entry.
    pub matcher: M,
}

impl When<Any> {
    /// Starts a registration for the method slot `id`. By default the
    /// entry will match any arguments and will never exhaust.
    pub fn new(id: u64) -> (r: Self)
        ensures
            r.id == id,
            r.times is Always,
            r.matcher == Any,
    {
        When { id, times: MockTimes::Always, matcher: Any }
    }
}

impl<M> When<M> {
    /// Limits how many calls the registration may serve: calls past the
    /// budget no longer reach this entry.
    pub fn times(self, times: usize) -> (r: Self)
        ensures
            r.id == self.id,
            r.matcher == self.matcher,
            r.times == MockTimes::Times(times),
    {
        When { id: self.id, matcher: self.matcher, times: MockTimes::Times(times) }
    }

    /// Replaces the matcher: the registration will only serve calls whose
    /// arguments `matcher` accepts.
    pub fn with_args<N>(self, matcher: N) -> (r: When<N>)
        ensures
            r.id == self.id,
            r.times == self.times,
            r.matcher == matcher,
    {
        When { id: self.id, times: self.times, matcher }
    }

    /// Moves to the one-shot builder: the registration will serve exactly
    /// one call, and may bind a behavior that consumes captured state.
    pub fn once(self) -> (r: Once<M>)
        ensures
            r.id == self.id,
            r.matcher == self.matcher,
    {
        Once { id: self.id, matcher: self.matcher }
    }

    /// Binds `f` as the stubbed implementation and completes the
    /// registration: the new entry stands after every earlier registration
    /// for the same identity, matches what the chosen matcher accepts,
    /// carries the chosen budget, and its possible outputs on each call are
    /// exactly what `f` may return for those arguments.
    pub fn then_call<A, O, F: Fn(A) -> O + Send + 'static>(self, store: &mut MockStore<A, O>, f: F)
        where M: AllArgs<A> + Send + 'static
        requires
            old(store).wf(),
            forall|args: A| #[trigger] call_requires(f, (args,)),
        ensures
            final(store).wf(),
            ({
                let es0 = old(store).entries_for(self.id);
                let es = final(store).entries_for(self.id);
                let e = es.last();
                &&& es == es0.push(e)
                &&& forall|args: A| #[trigger] e.accepts(args) == self.matcher.accepts(args)
                &&& e.has_times(self.times)
                &&& forall|args: A, out: O|
                    #[trigger] e.post_allows(args, out) == call_ensures(f, (args,), out)
            }),
            forall|other: u64|
                other != self.id ==> #[trigger] final(store).entries_for(other) == old(
                    store,
                ).entries_for(other),
    {
        let When { id, times, matcher } = self;
        let m = erase_matcher(matcher);
        let s = erase_stub(f);
        let entry = MockEntry::new(m, StubState::Many { times, stub: s });
        store.register(id, entry);
        proof {
            assert(store.entries_for(id).last() == entry);
        }
    }

    /// Binds a fixed return value and completes the registration: each
    /// call the new entry serves returns a clone of `value`.
    pub fn then_return<A, O: Clone + Send + 'static>(self, store: &mut MockStore<A, O>, value: O)
        where M: AllArgs<A> + Send + 'static
        requires
            old(store).wf(),
        ensures
            final(store).wf(),
            ({
                let es0 = old(store).entries_for(self.id);
                let es = final(store).entries_for(self.id);
                let e = es.last();
                &&& es == es0.push(e)
                &&& forall|args: A| #[trigger] e.accepts(args) == self.matcher.accepts(args)
                &&& e.has_times(self.times)
                &&& forall|args: A, out: O|
                    #[trigger] e.post_allows(args, out) ==> cloned::<O>(value, out)
            }),
            forall|other: u64|
                other != self.id ==> #[trigger] final(store).entries_for(other) == old(
                    store,
                ).entries_for(other),
    {
        let bound: Ghost<O> = Ghost(value);
        let stub = move |_args: A| -> (out: O)
            ensures
                cloned::<O>(bound@, out),
            { value.clone() };
        self.then_call(store, stub)
    }
}

/// The one-shot registration builder: its entry serves exactly one call,
/// and its behavior may own captured state and release it when it runs,
/// since it is structurally guaranteed to run at most once. A second call
/// that reaches the entry is a policy violation, reported as such.
pub struct Once<M> {
    /// The method identity the registration is for.
    pub id: u64,
    /// The matcher of the future entry.
    pub matcher: M,
}

impl<M> Once<M> {
    /// Binds `f` — a behavior run at most once, free to consume what it
    /// captured — as the stubbed implementation and completes the
    /// registration: the new entry stands after every earlier registration
    /// for the same identity, matches what the chosen matcher accepts, and
    /// its possible output on the one call it serves is exactly what `f`
    /// may return for those arguments.
    pub fn then_call<A, O, F: FnOnce(A) -> O + Send + 'static>(self, store: &mut MockStore<A, O>, f: F)
        where M: AllArgs<A> + Send + 'static
        requires
            old(store).wf(),
            forall|args: A| #[trigger] call_requires(f, (args,)),
        ensures
            final(store).wf(),
            ({
                let es0 = old(store).entries_for(self.id);
                let es = final(store).entries_for(self.id);
                let e = es.last();
                &&& es == es0.push(e)
                &&& forall|args: A| #[trigger] e.accepts(args) == self.matcher.accepts(args)
                &&& e.is_ready_once()
                &&& forall|args: A, out: O|
                    #[trigger] e.post_allows(args, out) == call_ensures(f, (args,), out)
            }),
            forall|other: u64|
                other != self.id ==> #[trigger] final(store).entries_for(other) == old(
                    store,
                ).entries_for(other),
    {
        let Once { id, matcher } = self;
        let m = erase_matcher(matcher);
        let s = erase_once_stub(f);
        let entry = MockEntry::new(m, StubState::Once { pending: Some(s) });
        store.register(id, entry);
        proof {
            assert(store.entries_for(id).last() == entry);
        }
    }

    /// Binds `value` itself — not a clone — as the one returned value and
    /// completes the registration: the one call the new entry serves
    /// releases `value` to the caller.
    pub fn then_return<A, O: Send + 'static>(self, store: &mut MockStore<A, O>, value: O)
        where M: AllArgs<A> + Send + 'static
        requires
            old(store).wf(),
        ensures
            final(store).wf(),
            ({
                let es0 = old(store).entries_for(self.id);
                let es = final(store).entries_for(self.id);
                let e = es.last();
                &&& es == es0.push(e)
                &&& forall|args: A| #[trigger] e.accepts(args) == self.matcher.accepts(args)
                &&& e.is_ready_once()
                &&& forall|args: A, out: O| #[trigger] e.post_allows(args, out) ==> out == value
            }),
            forall|other: u64|
                other != self.id ==> #[trigger] final(store).entries_for(other) == old(
                    store,
                ).entries_for(other),
    {
        let stub = move |_args: A| -> (out: O)
            ensures
                out == value,
            { value };
        self.then_call(store, stub)
    }
}

} // verus!
