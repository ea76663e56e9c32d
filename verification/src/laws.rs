//! The engine's laws: how budgets evolve over repeated served calls, and
//! how the scan's selection respects registration order.
//!
//! Each law is stated over the spec functions that the store's contracts
//! use — [`MockEntry::fired`] for the budget an entry keeps after serving a
//! call, and [`selected_index`] for the entry a dispatched call stops at —
//! so together with [`MockStore::dispatch`]'s postcondition they describe
//! whole call sequences.
//!
//! [`MockEntry::fired`]: crate::mock::MockEntry::fired
//! [`MockStore::dispatch`]: crate::store::MockStore::dispatch

use vstd::prelude::*;
use crate::mock::MockEntry;
use crate::store::{lemma_selected_index_is_first, selected_index, stops_scan};

verus! {

/// The entry as it stands after serving `k` calls in a row.
pub open spec fn fired_repeatedly<A, O>(e: MockEntry<A, O>, k: nat) -> MockEntry<A, O>
    decreases k,
{
    if k == 0 {
        e
    } else {
        fired_repeatedly(e, (k - 1) as nat).fired()
    }
}

/// An entry under the unlimited policy never exhausts: it is eligible, and
/// serving any number of calls leaves it exactly as it was — same matcher,
/// same behavior, same budget — so every later matching call succeeds too.
pub proof fn lemma_always_never_exhausts<A, O>(e: MockEntry<A, O>, k: nat)
    requires
        e.is_always(),
    ensures
        e.eligible(),
        fired_repeatedly(e, k) == e,
    decreases k,
{
    if k > 0 {
        lemma_always_never_exhausts(e, (k - 1) as nat);
    }
}

/// Under a counted budget of `n`, exactly the first `n` served calls
/// succeed: after `k` of them the remaining budget is `n - k`, so the
/// entry can serve another call exactly when `k < n`; its matcher and its
/// behavior's possible outputs never change, and it is never mistaken for
/// a spent one-shot entry.
pub proof fn lemma_times_budget<A, O>(e: MockEntry<A, O>, n: usize, k: nat)
    requires
        e.times_remaining() == Some(n),
        k <= n,
    ensures
        fired_repeatedly(e, k).times_remaining() == Some((n - k) as usize),
        fired_repeatedly(e, k).eligible() <==> k < n,
        !fired_repeatedly(e, k).spent_once(),
        fired_repeatedly(e, k).matcher == e.matcher,
        forall|args: A, out: O|
            #[trigger] fired_repeatedly(e, k).post_allows(args, out) == e.post_allows(args, out),
    decreases k,
{
    if k > 0 {
        let prev = (k - 1) as nat;
        lemma_times_budget(e, n, prev);
        assert(fired_repeatedly(e, k) == fired_repeatedly(e, prev).fired());
        assert forall|args: A, out: O| #[trigger]
        fired_repeatedly(e, k).post_allows(args, out) == e.post_allows(args, out) by {
            assert(fired_repeatedly(e, prev).post_allows(args, out) == e.post_allows(args, out));
        }
    } else {
        assert(fired_repeatedly(e, k) == e);
    }
}

/// A one-shot entry serves exactly its first matching call: it is eligible
/// until it fires, and after firing — once or any number of times — it is
/// spent and permanently ineligible, while its matcher stays, so a later
/// matching call still stops the scan on it and is reported as the
/// distinct policy violation instead of reaching other entries.
pub proof fn lemma_once_single_fire<A, O>(e: MockEntry<A, O>, k: nat)
    requires
        e.is_ready_once(),
        k >= 1,
    ensures
        e.eligible(),
        fired_repeatedly(e, k).spent_once(),
        !fired_repeatedly(e, k).eligible(),
        fired_repeatedly(e, k).matcher == e.matcher,
    decreases k,
{
    let prev = (k - 1) as nat;
    if k == 1 {
        assert(fired_repeatedly(e, 0) == e);
    } else {
        lemma_once_single_fire(e, prev);
    }
    assert(fired_repeatedly(e, k) == fired_repeatedly(e, prev).fired());
}

/// With a single registered entry, dispatch stops at it exactly when it
/// matches with budget available or is a spent one-shot entry; otherwise —
/// its matcher rejects, or its counted budget is exhausted — the call is
/// unstubbed. This is the "(n+1)th matching call fails, assuming no other
/// eligible entry" shape of a counted budget.
pub proof fn lemma_single_entry_selection<A, O>(e: MockEntry<A, O>, args: A)
    ensures
        selected_index(seq![e], args) == if stops_scan(e, args) {
            Some(0int)
        } else {
            None::<int>
        },
{
    assert(seq![e][0] == e);
    assert(seq![e].subrange(1, 1) =~= Seq::<MockEntry<A, O>>::empty());
    assert(selected_index(Seq::<MockEntry<A, O>>::empty(), args) is None);
}

/// Registration order is match priority: when the entry at `i` can stop
/// the scan, no entry after `i` is ever selected — an earlier registration
/// is always preferred over a later one that also matches.
pub proof fn lemma_registration_order_priority<A, O>(
    entries: Seq<MockEntry<A, O>>,
    args: A,
    i: int,
)
    requires
        0 <= i < entries.len(),
        stops_scan(entries[i], args),
    ensures
        selected_index(entries, args) matches Some(s) && s <= i,
{
    lemma_selected_index_is_first(entries, args);
    match selected_index(entries, args) {
        Option::None => {
            assert(!stops_scan(entries[i], args));
        },
        Option::Some(s) => {
            if s > i {
                assert(!stops_scan(entries[i], args));
            }
        },
    }
}

/// An entry that rejects the call's arguments — whatever its budget — or
/// that matches with an exhausted counted budget does not stop the scan,
/// so it is never the selected entry.
pub proof fn lemma_skipped_entry_never_selected<A, O>(
    entries: Seq<MockEntry<A, O>>,
    args: A,
    i: int,
)
    requires
        0 <= i < entries.len(),
        !stops_scan(entries[i], args),
    ensures
        selected_index(entries, args) != Some(i),
{
    lemma_selected_index_is_first(entries, args);
}

/// A later entry that can serve the call is still reached over skipped
/// ones: when some entry stops the scan, a selection exists, it is no
/// later than that entry, and it is itself an entry that stops the scan.
pub proof fn lemma_later_entry_still_serves<A, O>(
    entries: Seq<MockEntry<A, O>>,
    args: A,
    j: int,
)
    requires
        0 <= j < entries.len(),
        stops_scan(entries[j], args),
    ensures
        selected_index(entries, args) matches Some(s) && s <= j && stops_scan(entries[s], args),
{
    lemma_registration_order_priority(entries, args, j);
    lemma_selected_index_is_first(entries, args);
}

} // verus!
