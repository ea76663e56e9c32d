//! Mock entries: one registered substitute behavior, its matcher, and its
//! call-count policy.
//!
//! An entry pairs an erased matcher with an erased stub. A repeatable stub
//! carries a [`MockTimes`] budget; a one-shot stub is consumed by its single
//! run, so its spent state is the absence of the stored behavior. Entries
//! are never edited in place by callers: the store alone consumes budget,
//! through [`MockEntry::fired`]-shaped updates.

use vstd::prelude::*;
use crate::erased::{StoredMatcher, StoredOnceStub, StoredStub};

verus! {

/// How many more calls a repeatable stub may serve.
pub enum MockTimes {
    /// Serves any number of calls; never exhausted.
    Always,
    /// Serves exactly the given number of further calls; exhausted at zero.
    Times(usize),
}

/// The stored behavior of an entry, together with its call-count state.
#[verifier::reject_recursive_types(A)]
#[verifier::reject_recursive_types(O)]
pub enum StubState<A: 'static, O: 'static> {
    /// A repeatable behavior limited by a budget.
    Many { times: MockTimes, stub: StoredStub<A, O> },
    /// A one-shot behavior: `Some` until it fires, `None` afterwards.
    Once { pending: Option<StoredOnceStub<A, O>> },
}

/// One registration: a matcher deciding which calls the entry serves, and
/// the stub that serves them.
#[verifier::reject_recursive_types(A)]
#[verifier::reject_recursive_types(O)]
pub struct MockEntry<A: 'static, O: 'static> {
    /// Decides whether this entry applies to a call's argument tuple.
    pub matcher: StoredMatcher<A>,
    /// The behavior to run, with its remaining budget.
    pub stub: StubState<A, O>,
}

impl<A, O> MockEntry<A, O> {
    /// Pairs a matcher with a stub.
    pub fn new(matcher: StoredMatcher<A>, stub: StubState<A, O>) -> (r: Self)
        ensures
            r == (MockEntry { matcher, stub }),
    {
        MockEntry { matcher, stub }
    }

    /// Whether this entry's matcher accepts `args`.
    pub open spec fn accepts(self, args: A) -> bool {
        self.matcher.accepts(args)
    }

    /// Whether this entry's budget still allows it to serve a call.
    pub open spec fn eligible(self) -> bool {
        match self.stub {
            StubState::Many { times: MockTimes::Always, .. } => true,
            StubState::Many { times: MockTimes::Times(n), .. } => n > 0,
            StubState::Once { pending } => pending is Some,
        }
    }

    /// Whether this entry held a one-shot stub that has already fired.
    pub open spec fn spent_once(self) -> bool {
        self.stub matches StubState::Once { pending: None }
    }

    /// Whether this entry's policy is the unlimited one.
    pub open spec fn is_always(self) -> bool {
        self.stub matches StubState::Many { times: MockTimes::Always, .. }
    }

    /// The remaining budget of an entry under a counted policy.
    pub open spec fn times_remaining(self) -> Option<usize> {
        match self.stub {
            StubState::Many { times: MockTimes::Times(n), .. } => Some(n),
            _ => None,
        }
    }

    /// Whether this entry carries exactly the call-count state `times`.
    pub open spec fn has_times(self, times: MockTimes) -> bool {
        match times {
            MockTimes::Always => self.is_always(),
            MockTimes::Times(n) => self.times_remaining() == Some(n),
        }
    }

    /// Whether this entry holds a one-shot stub that has not fired yet.
    pub open spec fn is_ready_once(self) -> bool {
        self.stub matches StubState::Once { pending: Some(_) }
    }

    /// Whether `out` is a possible output of this entry's stub on `args`.
    pub open spec fn post_allows(self, args: A, out: O) -> bool {
        match self.stub {
            StubState::Many { stub, .. } => stub.post_allows(args, out),
            StubState::Once { pending: Some(s) } => s.post_allows(args, out),
            StubState::Once { pending: None } => false,
        }
    }

    /// The entry as it stands after serving one call: an unlimited budget is
    /// untouched, a counted budget loses one unit, a one-shot stub is gone.
    pub open spec fn fired(self) -> Self {
        MockEntry {
            matcher: self.matcher,
            stub: match self.stub {
                StubState::Many { times: MockTimes::Always, stub } => StubState::Many {
                    times: MockTimes::Always,
                    stub,
                },
                StubState::Many { times: MockTimes::Times(n), stub } => StubState::Many {
                    times: MockTimes::Times((n - 1) as usize),
                    stub,
                },
                StubState::Once { pending: _ } => StubState::Once { pending: None },
            },
        }
    }
}

} // verus!
