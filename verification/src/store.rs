//! The mock store: a per-instance registry mapping each method identity to
//! its ordered list of registered entries, and the dispatch that resolves a
//! call to at most one of them.
//!
//! Registration order is match priority: dispatch scans a method's entries
//! in the order they were registered and stops at the first entry whose
//! matcher accepts the call and whose budget is not exhausted — or at a
//! one-shot entry that matched but has already fired, which is a fatal
//! policy violation rather than a reason to try later entries. An entry
//! whose matcher rejects the call, or whose counted budget has run out, is
//! skipped and later entries are considered. When the scan ends with no
//! entry fired, dispatch reports the call as unstubbed, naming the method
//! and the caller's source location.

use vstd::prelude::*;
use crate::erased::{run_matcher, run_once_stub, run_stub};
use crate::mock::{MockEntry, MockTimes, StubState};

verus! {

/// Why a dispatched call failed. Both failures are fatal for the call that
/// raised them and carry the method's qualified name and the call site the
/// forwarding layer reported.
#[derive(Debug)]
pub enum DispatchError {
    /// No registered entry matched the call with budget to serve it.
    Unstubbed { method: String, site: String },
    /// The first entry that matched the call was a one-shot entry that had
    /// already fired: a policy violation distinct from ordinary exhaustion.
    OnceViolation { method: String, site: String },
}

impl DispatchError {
    /// The qualified name of the method whose call failed.
    pub open spec fn method_label(self) -> Seq<char> {
        match self {
            DispatchError::Unstubbed { method, .. } => method@,
            DispatchError::OnceViolation { method, .. } => method@,
        }
    }

    /// The source location of the failed call, as the forwarding layer
    /// reported it.
    pub open spec fn site_label(self) -> Seq<char> {
        match self {
            DispatchError::Unstubbed { site, .. } => site@,
            DispatchError::OnceViolation { site, .. } => site@,
        }
    }

    /// The diagnostic text of the failure: the method's qualified name in
    /// backticks, followed by what went wrong.
    pub open spec fn spec_message(self) -> Seq<char> {
        match self {
            DispatchError::Unstubbed { method, .. } => "`"@ + method@
                + "` was called but never stubbed"@,
            DispatchError::OnceViolation { method, .. } => "`"@ + method@
                + "` was called again after its one allowed call"@,
        }
    }

    /// Renders the diagnostic text.
    pub fn message(&self) -> (r: String)
        ensures
            r@ == self.spec_message(),
    {
        match self {
            DispatchError::Unstubbed { method, .. } => {
                let open = concat_strs("`", method.as_str());
                concat_strs(open.as_str(), "` was called but never stubbed")
            },
            DispatchError::OnceViolation { method, .. } => {
                let open = concat_strs("`", method.as_str());
                concat_strs(open.as_str(), "` was called again after its one allowed call")
            },
        }
    }
}

/// Relies on alloc's `format!` macro: the result is `a` followed by `b`.
#[verifier::external_body]
fn concat_strs(a: &str, b: &str) -> (r: String)
    ensures
        r@ == a@ + b@,
{
    format!("{a}{b}")
}

/// Whether dispatch's scan of a registration list stops at this entry for
/// `args`: the matcher accepts and the entry either can serve the call or is
/// a spent one-shot entry, whose match is a fatal policy violation.
pub open spec fn stops_scan<A, O>(e: MockEntry<A, O>, args: A) -> bool {
    e.accepts(args) && (e.eligible() || e.spent_once())
}

/// The index at which dispatch's scan of `entries` stops for `args`: the
/// first entry that either fires or raises the one-shot violation. `None`
/// when every entry is skipped, which makes the call unstubbed.
pub open spec fn selected_index<A, O>(entries: Seq<MockEntry<A, O>>, args: A) -> Option<int>
    decreases entries.len(),
{
    if entries.len() == 0 {
        None
    } else if stops_scan(entries[0], args) {
        Some(0)
    } else {
        match selected_index(entries.subrange(1, entries.len() as int), args) {
            None => None,
            Some(i) => Some(i + 1),
        }
    }
}

/// Registration order is match priority: the selected index is the first
/// index where the scan stops, and every earlier entry — rejected by its
/// matcher, or matching with an exhausted counted budget — is skipped.
pub proof fn lemma_selected_index_is_first<A, O>(entries: Seq<MockEntry<A, O>>, args: A)
    ensures
        match selected_index(entries, args) {
            Some(i) => 0 <= i < entries.len() && stops_scan(entries[i], args) && forall|j: int|
                0 <= j < i ==> !stops_scan(#[trigger] entries[j], args),
            None => forall|j: int|
                0 <= j < entries.len() ==> !stops_scan(#[trigger] entries[j], args),
        },
    decreases entries.len(),
{
    if entries.len() == 0 {
    } else if stops_scan(entries[0], args) {
    } else {
        let rest = entries.subrange(1, entries.len() as int);
        lemma_selected_index_is_first(rest, args);
        match selected_index(rest, args) {
            None => {
                assert forall|j: int| 0 <= j < entries.len() implies !stops_scan(
                    #[trigger] entries[j],
                    args,
                ) by {
                    if j >= 1 {
                        assert(entries[j] == rest[j - 1]);
                    }
                }
            },
            Some(i) => {
                assert(entries[i + 1] == rest[i]);
                assert forall|j: int| 0 <= j < i + 1 implies !stops_scan(
                    #[trigger] entries[j],
                    args,
                ) by {
                    if j >= 1 {
                        assert(entries[j] == rest[j - 1]);
                    }
                }
            },
        }
    }
}

/// When the scan stops at an entry that no earlier entry preceded in
/// stopping, that entry's index is the selected one.
proof fn lemma_scan_stops_here<A, O>(entries: Seq<MockEntry<A, O>>, args: A, k: int)
    requires
        0 <= k < entries.len(),
        stops_scan(entries[k], args),
        forall|j: int| 0 <= j < k ==> !stops_scan(#[trigger] entries[j], args),
    ensures
        selected_index(entries, args) == Some(k),
{
    lemma_selected_index_is_first(entries, args);
    match selected_index(entries, args) {
        Option::None => {
            assert(!stops_scan(entries[k], args));
        },
        Option::Some(i) => {
            if i < k {
                assert(!stops_scan(entries[i], args));
            }
            if i > k {
                assert(!stops_scan(entries[k], args));
            }
        },
    }
}

/// Where the exec scan of a registration list stopped.
enum ScanStop {
    /// The entry at this index matched with budget available: fire it.
    Fire(usize),
    /// A spent one-shot entry matched first: fail the call as a policy
    /// violation.
    SpentOnce,
    /// Every entry was skipped: the call is unstubbed.
    NoMatch,
}

/// Scans a registration list for `args` and reports where the scan stopped,
/// as `selected_index` describes it.
fn scan_entries<A, O>(entries: &Vec<MockEntry<A, O>>, args: &A) -> (r: ScanStop)
    ensures
        match selected_index(entries@, *args) {
            None => r is NoMatch,
            Some(i) => {
                if entries@[i].spent_once() {
                    r is SpentOnce
                } else {
                    r matches ScanStop::Fire(k) && k as int == i
                }
            },
        },
{
    proof {
        lemma_selected_index_is_first(entries@, *args);
    }
    let mut k: usize = 0;
    while k < entries.len()
        invariant
            k <= entries@.len(),
            forall|j: int| 0 <= j < k ==> !stops_scan(#[trigger] entries@[j], *args),
        decreases entries@.len() - k,
    {
        let e = &entries[k];
        if run_matcher(&e.matcher, args) {
            match &e.stub {
                StubState::Many { times: MockTimes::Always, .. } => {
                    proof {
                        lemma_scan_stops_here(entries@, *args, k as int);
                    }
                    return ScanStop::Fire(k);
                },
                StubState::Many { times: MockTimes::Times(n), .. } => {
                    if *n > 0 {
                        proof {
                            lemma_scan_stops_here(entries@, *args, k as int);
                        }
                        return ScanStop::Fire(k);
                    }
                },
                StubState::Once { pending: Some(_) } => {
                    proof {
                        lemma_scan_stops_here(entries@, *args, k as int);
                    }
                    return ScanStop::Fire(k);
                },
                StubState::Once { pending: None } => {
                    proof {
                        lemma_scan_stops_here(entries@, *args, k as int);
                    }
                    return ScanStop::SpentOnce;
                },
            }
        }
        k += 1;
    }
    ScanStop::NoMatch
}

/// One method identity's registrations, in registration order.
#[verifier::reject_recursive_types(A)]
#[verifier::reject_recursive_types(O)]
struct MockSlot<A: 'static, O: 'static> {
    id: u64,
    entries: Vec<MockEntry<A, O>>,
}

/// The entries of the first slot carrying `id`, or the empty sequence when
/// no slot does.
spec fn entries_in<A, O>(slots: Seq<MockSlot<A, O>>, id: u64) -> Seq<MockEntry<A, O>>
    decreases slots.len(),
{
    if slots.len() == 0 {
        Seq::empty()
    } else if slots[0].id == id {
        slots[0].entries@
    } else {
        entries_in(slots.subrange(1, slots.len() as int), id)
    }
}

/// Whether no two slots carry the same method identity.
spec fn distinct_ids<A, O>(slots: Seq<MockSlot<A, O>>) -> bool {
    forall|i: int, j: int|
        0 <= i < j < slots.len() ==> (#[trigger] slots[i]).id != (#[trigger] slots[j]).id
}

/// With distinct identities, the entries found for a slot's identity are
/// exactly that slot's entries.
proof fn lemma_entries_in_at<A, O>(slots: Seq<MockSlot<A, O>>, si: int)
    requires
        distinct_ids(slots),
        0 <= si < slots.len(),
    ensures
        entries_in(slots, slots[si].id) == slots[si].entries@,
    decreases slots.len(),
{
    if si > 0 {
        let rest = slots.subrange(1, slots.len() as int);
        assert(slots[0].id != slots[si].id);
        assert forall|i: int, j: int| 0 <= i < j < rest.len() implies (#[trigger] rest[i]).id != (
        #[trigger] rest[j]).id by {
            assert(rest[i] == slots[i + 1]);
            assert(rest[j] == slots[j + 1]);
        }
        lemma_entries_in_at(rest, si - 1);
        assert(rest[si - 1] == slots[si]);
    }
}

/// An identity carried by no slot has no entries.
proof fn lemma_entries_in_absent<A, O>(slots: Seq<MockSlot<A, O>>, id: u64)
    requires
        forall|i: int| 0 <= i < slots.len() ==> (#[trigger] slots[i]).id != id,
    ensures
        entries_in(slots, id) == Seq::<MockEntry<A, O>>::empty(),
    decreases slots.len(),
{
    if slots.len() > 0 {
        let rest = slots.subrange(1, slots.len() as int);
        assert forall|i: int| 0 <= i < rest.len() implies (#[trigger] rest[i]).id != id by {
            assert(rest[i] == slots[i + 1]);
        }
        lemma_entries_in_absent(rest, id);
    }
}

/// Replacing one slot by another with the same identity rewrites that
/// identity's entries and leaves every other identity's entries alone.
proof fn lemma_entries_in_update<A, O>(
    slots: Seq<MockSlot<A, O>>,
    si: int,
    slot2: MockSlot<A, O>,
)
    requires
        distinct_ids(slots),
        0 <= si < slots.len(),
        slots[si].id == slot2.id,
    ensures
        distinct_ids(slots.update(si, slot2)),
        entries_in(slots.update(si, slot2), slot2.id) == slot2.entries@,
        forall|other: u64|
            other != slot2.id ==> entries_in(slots.update(si, slot2), other) == entries_in(
                slots,
                other,
            ),
{
    let updated = slots.update(si, slot2);
    assert forall|i: int, j: int| 0 <= i < j < updated.len() implies (#[trigger] updated[i]).id
        != (#[trigger] updated[j]).id by {
        assert(slots[i].id != slots[j].id);
    }
    lemma_entries_in_at(updated, si);
    assert(updated[si] == slot2);
    assert forall|other: u64| other != slot2.id implies entries_in(updated, other) == entries_in(
        slots,
        other,
    ) by {
        lemma_entries_in_other(slots, si, slot2, other);
    }
}

/// Helper for `lemma_entries_in_update`: identities other than the replaced
/// slot's keep their entries.
proof fn lemma_entries_in_other<A, O>(
    slots: Seq<MockSlot<A, O>>,
    si: int,
    slot2: MockSlot<A, O>,
    other: u64,
)
    requires
        0 <= si < slots.len(),
        slots[si].id == slot2.id,
        other != slot2.id,
    ensures
        entries_in(slots.update(si, slot2), other) == entries_in(slots, other),
    decreases slots.len(),
{
    let updated = slots.update(si, slot2);
    let rest = slots.subrange(1, slots.len() as int);
    let urest = updated.subrange(1, updated.len() as int);
    if si == 0 {
        assert(urest =~= rest);
    } else {
        assert(updated[0] == slots[0]);
        assert(urest =~= rest.update(si - 1, slot2));
        lemma_entries_in_other(rest, si - 1, slot2, other);
    }
}

/// Appending a slot with a fresh identity gives that identity the new
/// slot's entries and leaves every other identity's entries alone.
proof fn lemma_entries_in_push<A, O>(slots: Seq<MockSlot<A, O>>, slot: MockSlot<A, O>)
    requires
        forall|i: int| 0 <= i < slots.len() ==> (#[trigger] slots[i]).id != slot.id,
    ensures
        entries_in(slots.push(slot), slot.id) == slot.entries@,
        forall|other: u64|
            other != slot.id ==> entries_in(slots.push(slot), other) == entries_in(slots, other),
    decreases slots.len(),
{
    let pushed = slots.push(slot);
    if slots.len() == 0 {
        assert(pushed[0] == slot);
        assert(pushed.subrange(1, pushed.len() as int) =~= Seq::<MockSlot<A, O>>::empty());
        assert forall|other: u64| other != slot.id implies entries_in(pushed, other) == entries_in(
            slots,
            other,
        ) by {
            assert(entries_in(pushed.subrange(1, pushed.len() as int), other) == Seq::<
                MockEntry<A, O>,
            >::empty());
        }
    } else {
        let rest = slots.subrange(1, slots.len() as int);
        assert forall|i: int| 0 <= i < rest.len() implies (#[trigger] rest[i]).id != slot.id by {
            assert(rest[i] == slots[i + 1]);
        }
        lemma_entries_in_push(rest, slot);
        assert(pushed[0] == slots[0]);
        assert(pushed.subrange(1, pushed.len() as int) =~= rest.push(slot));
        assert(entries_in(pushed, slot.id) == entries_in(rest.push(slot), slot.id));
        assert forall|other: u64| other != slot.id implies entries_in(pushed, other) == entries_in(
            slots,
            other,
        ) by {
            if slots[0].id != other {
                assert(entries_in(pushed, other) == entries_in(rest.push(slot), other));
                assert(entries_in(rest.push(slot), other) == entries_in(rest, other));
                assert(entries_in(slots, other) == entries_in(rest, other));
            }
        }
    }
}

/// The per-instance registry of mock entries, keyed by method identity.
/// Each mocked instance owns one store; the store owns every entry
/// registered on it and is destroyed with the instance.
#[verifier::reject_recursive_types(A)]
#[verifier::reject_recursive_types(O)]
pub struct MockStore<A: 'static, O: 'static> {
    slots: Vec<MockSlot<A, O>>,
}

impl<A, O> MockStore<A, O> {
    /// Well-formedness: each method identity has at most one slot, so the
    /// ordered entry list per identity is unambiguous.
    pub closed spec fn wf(self) -> bool {
        distinct_ids(self.slots@)
    }

    /// The ordered entries registered for `id`, oldest first; empty when
    /// nothing was registered for `id`.
    pub closed spec fn entries_for(self, id: u64) -> Seq<MockEntry<A, O>> {
        entries_in(self.slots@, id)
    }

    /// An empty store: nothing is stubbed, every dispatch fails.
    pub fn new() -> (r: Self)
        ensures
            r.wf(),
            forall|id: u64| #[trigger] r.entries_for(id) == Seq::<MockEntry<A, O>>::empty(),
    {
        let r = MockStore { slots: Vec::new() };
        proof {
            assert forall|id: u64| #[trigger]
            r.entries_for(id) == Seq::<MockEntry<A, O>>::empty() by {
                lemma_entries_in_absent(r.slots@, id);
            }
        }
        r
    }

    /// The index of the slot carrying `id`, if any.
    fn find_slot(&self, id: u64) -> (r: Option<usize>)
        requires
            self.wf(),
        ensures
            match r {
                Some(si) => si < self.slots@.len() && self.slots@[si as int].id == id
                    && self.entries_for(id) == self.slots@[si as int].entries@,
                None => {
                    &&& forall|i: int| 0 <= i < self.slots@.len() ==> (#[trigger] self.slots@[i]).id
                        != id
                    &&& self.entries_for(id) == Seq::<MockEntry<A, O>>::empty()
                },
            },
    {
        let mut si: usize = 0;
        while si < self.slots.len()
            invariant
                self.wf(),
                si <= self.slots@.len(),
                forall|i: int| 0 <= i < si ==> (#[trigger] self.slots@[i]).id != id,
            decreases self.slots@.len() - si,
        {
            if self.slots[si].id == id {
                proof {
                    lemma_entries_in_at(self.slots@, si as int);
                }
                return Some(si);
            }
            si += 1;
        }
        proof {
            lemma_entries_in_absent(self.slots@, id);
        }
        None
    }

    /// Appends `entry` at the end of `id`'s registration list, after every
    /// entry registered for `id` before it, whichever way each was built.
    /// No other identity's registrations change.
    pub fn register(&mut self, id: u64, entry: MockEntry<A, O>)
        requires
            old(self).wf(),
        ensures
            final(self).wf(),
            final(self).entries_for(id) == old(self).entries_for(id).push(entry),
            forall|other: u64|
                other != id ==> #[trigger] final(self).entries_for(other) == old(
                    self,
                ).entries_for(other),
    {
        let found = self.find_slot(id);
        match found {
            Some(si) => {
                let ghost slots0 = self.slots@;
                let mut slot = self.slots.remove(si);
                slot.entries.push(entry);
                let ghost slot2 = slot;
                self.slots.insert(si, slot);
                proof {
                    assert(self.slots@ =~= slots0.update(si as int, slot2));
                    lemma_entries_in_update(slots0, si as int, slot2);
                }
            },
            None => {
                let mut entries: Vec<MockEntry<A, O>> = Vec::new();
                entries.push(entry);
                let ghost slots0 = self.slots@;
                let ghost slot = MockSlot { id, entries: entries };
                self.slots.push(MockSlot { id, entries });
                proof {
                    lemma_entries_in_push(slots0, slot);
                    assert(self.entries_for(id) =~= old(self).entries_for(id).push(entry));
                    assert forall|i: int, j: int|
                        0 <= i < j < self.slots@.len() implies (#[trigger] self.slots@[i]).id != (
                    #[trigger] self.slots@[j]).id by {
                        if j < slots0.len() {
                            assert(slots0[i].id != slots0[j].id);
                        } else {
                            assert(self.slots@[j] == slot);
                            assert(slots0[i].id != id);
                        }
                    }
                }
            },
        }
    }

    /// Resolves one call. Scans `id`'s entries in registration order and
    /// fires the first one whose matcher accepts `args` and whose budget is
    /// available, consuming one unit of its budget and returning its stub's
    /// output; entries that reject the call or are exhausted under a counted
    /// budget are skipped. A spent one-shot entry that matches first ends
    /// the call with the distinct one-shot violation. With no entry to stop
    /// at, the call fails as unstubbed. Only the fired entry changes;
    /// `method` and `site` name the call in the diagnostics.
    pub fn dispatch(&mut self, id: u64, args: A, method: &str, site: &str) -> (r: Result<
        O,
        DispatchError,
    >)
        requires
            old(self).wf(),
        ensures
            final(self).wf(),
            forall|other: u64|
                other != id ==> #[trigger] final(self).entries_for(other) == old(
                    self,
                ).entries_for(other),
            ({
                let entries = old(self).entries_for(id);
                match selected_index(entries, args) {
                    None => {
                        &&& r matches Err(e)
                        &&& e is Unstubbed
                        &&& e.method_label() == method@
                        &&& e.site_label() == site@
                        &&& final(self).entries_for(id) == entries
                    },
                    Some(i) => {
                        if entries[i].spent_once() {
                            &&& r matches Err(e)
                            &&& e is OnceViolation
                            &&& e.method_label() == method@
                            &&& e.site_label() == site@
                            &&& final(self).entries_for(id) == entries
                        } else {
                            &&& r matches Ok(out)
                            &&& entries[i].post_allows(args, out)
                            &&& final(self).entries_for(id) == entries.update(
                                i,
                                entries[i].fired(),
                            )
                        }
                    },
                }
            }),
    {
        let ghost entries = self.entries_for(id);
        let found = self.find_slot(id);
        let si: usize;
        match found {
            Some(i) => {
                si = i;
            },
            None => {
                return Result::Err(
                    DispatchError::Unstubbed { method: method.to_owned(), site: site.to_owned() },
                );
            },
        }
        let stop = scan_entries(&self.slots[si].entries, &args);
        proof {
            lemma_selected_index_is_first(entries, args);
        }
        let fire: usize;
        match stop {
            ScanStop::NoMatch => {
                return Result::Err(
                    DispatchError::Unstubbed { method: method.to_owned(), site: site.to_owned() },
                );
            },
            ScanStop::SpentOnce => {
                return Result::Err(
                    DispatchError::OnceViolation {
                        method: method.to_owned(),
                        site: site.to_owned(),
                    },
                );
            },
            ScanStop::Fire(k) => {
                fire = k;
            },
        }
        assert(selected_index(entries, args) == Some(fire as int));
        assert(entries[fire as int].eligible() && !entries[fire as int].spent_once());
        let ghost slots0 = self.slots@;
        let mut slot = self.slots.remove(si);
        let e = slot.entries.remove(fire);
        assert(e == entries[fire as int]);
        let MockEntry { matcher, stub } = e;
        let out: O;
        let stub2: StubState<A, O>;
        match stub {
            StubState::Many { times, stub } => {
                out = run_stub(&stub, args);
                let times2 = match times {
                    MockTimes::Always => MockTimes::Always,
                    MockTimes::Times(n) => MockTimes::Times(n - 1),
                };
                stub2 = StubState::Many { times: times2, stub };
            },
            StubState::Once { pending } => {
                match pending {
                    Some(s) => {
                        out = run_once_stub(s, args);
                        stub2 = StubState::Once { pending: None };
                    },
                    None => {
                        // Unreachable: the scan only asks to fire an
                        // eligible entry, and an eligible one-shot entry
                        // still holds its stub.
                        proof {
                            assert(false);
                        }
                        return Result::Err(
                            DispatchError::Unstubbed {
                                method: method.to_owned(),
                                site: site.to_owned(),
                            },
                        );
                    },
                }
            },
        }
        let fired = MockEntry { matcher, stub: stub2 };
        assert(fired == entries[fire as int].fired());
        slot.entries.insert(fire, fired);
        assert(slot.entries@ =~= entries.update(fire as int, entries[fire as int].fired()));
        let ghost slot2 = slot;
        self.slots.insert(si, slot);
        proof {
            assert(self.slots@ =~= slots0.update(si as int, slot2));
            lemma_entries_in_update(slots0, si as int, slot2);
        }
        Result::Ok(out)
    }
}

} // verus!
