//! What holds of every reconciliation pass, stated over the pass's model.
use vstd::prelude::*;
use crate::checker::{
    fetch_plan, pass_step, restored, pass_upto, pass_window, plan_upto, reconciled, store_invariant,
    wanted, StoreState,
};
use crate::registry::{
    has_version, insert_new, lemma_sorted_insert_well_formed, lookup_hash, VersionEntry,
};

verus! {

/// One position of a pass keeps the store's invariant and forgets no version.
proof fn lemma_step_invariant(st: StoreState, listing: Seq<Seq<char>>, f: Seq<VersionEntry>, i: int)
    requires
        store_invariant(st),
        0 <= i < listing.len(),
    ensures
        store_invariant(pass_step(st, listing, f, i)),
        forall|v: Seq<char>|
            has_version(st.versions, v) ==> has_version(pass_step(st, listing, f, i).versions, v),
{
    let v = listing[i];
    match lookup_hash(f, v) {
        Some(h) => {
            let e = VersionEntry { version: v, sri_hash: h };
            if i == 0 {
                if v != st.latest.version {
                    if !has_version(st.versions, v) {
                        lemma_sorted_insert_well_formed(st.versions, e);
                    }
                    assert(insert_new(st.versions, e) == pass_step(st, listing, f, i).versions);
                }
            } else if !has_version(st.versions, v) {
                lemma_sorted_insert_well_formed(st.versions, e);
            }
        },
        None => {},
    }
}

proof fn lemma_upto_invariant(st: StoreState, listing: Seq<Seq<char>>, f: Seq<VersionEntry>, n: nat)
    requires
        store_invariant(st),
        n <= listing.len(),
    ensures
        store_invariant(pass_upto(st, listing, f, n)),
        forall|v: Seq<char>|
            has_version(st.versions, v) ==> has_version(pass_upto(st, listing, f, n).versions, v),
    decreases n,
{
    if n > 0 {
        lemma_upto_invariant(st, listing, f, (n - 1) as nat);
        lemma_step_invariant(pass_upto(st, listing, f, (n - 1) as nat), listing, f, n - 1);
    }
}

/// A reconciliation pass keeps the version set in descending order and free
/// of duplicate versions, keeps the current and latest records equal, and
/// keeps the latest one in the set; no known version is lost.
pub proof fn lemma_pass_keeps_invariant(
    st: StoreState,
    listing: Seq<Seq<char>>,
    fetched: Seq<VersionEntry>,
)
    requires
        store_invariant(st),
    ensures
        store_invariant(reconciled(st, listing, fetched)),
        forall|v: Seq<char>|
            has_version(st.versions, v) ==> has_version(reconciled(st, listing, fetched).versions, v),
{
    lemma_upto_invariant(st, listing, fetched, pass_window(listing.len()));
}

/// Every wanted position of the first `n` is in the plan.
proof fn lemma_plan_covers(st: StoreState, listing: Seq<Seq<char>>, n: nat, i: int)
    requires
        0 <= i < n <= listing.len(),
        wanted(st, listing, i),
    ensures
        plan_upto(st, listing, n).contains(listing[i]),
    decreases n,
{
    let p = plan_upto(st, listing, (n - 1) as nat);
    if i < n - 1 {
        lemma_plan_covers(st, listing, (n - 1) as nat, i);
        let k = choose|k: int| 0 <= k < p.len() && p[k] == listing[i];
        if !(wanted(st, listing, n - 1) && !p.contains(listing[n - 1])) {
        } else {
            assert(p.push(listing[n - 1])[k] == listing[i]);
        }
    } else {
        if !p.contains(listing[i]) {
            assert(p.push(listing[i])[p.len() as int] == listing[i]);
        }
    }
}

/// Whether every version of the plan was fetched.
pub open spec fn plan_fetched(st: StoreState, listing: Seq<Seq<char>>, fetched: Seq<VersionEntry>) -> bool {
    forall|v: Seq<char>| fetch_plan(st, listing).contains(v) ==> (#[trigger] lookup_hash(fetched, v)) is Some
}

proof fn lemma_complete_upto(st: StoreState, listing: Seq<Seq<char>>, f: Seq<VersionEntry>, n: nat)
    requires
        store_invariant(st),
        1 <= n <= pass_window(listing.len()),
        plan_fetched(st, listing, f),
    ensures
        pass_upto(st, listing, f, n).latest.version == listing[0],
        forall|i: int| 1 <= i < n ==> has_version(pass_upto(st, listing, f, n).versions, #[trigger] listing[i]),
    decreases n,
{
    let prev = pass_upto(st, listing, f, (n - 1) as nat);
    lemma_upto_invariant(st, listing, f, (n - 1) as nat);
    lemma_step_invariant(prev, listing, f, n - 1);
    if n > 1 {
        lemma_complete_upto(st, listing, f, (n - 1) as nat);
    }
    let i = n - 1;
    let v = listing[i];
    if i == 0 {
        if v != st.latest.version {
            lemma_plan_covers(st, listing, pass_window(listing.len()), 0);
            assert(lookup_hash(f, v) is Some);
        }
    } else if !has_version(prev.versions, v) {
        assert(!has_version(st.versions, v)) by {
            lemma_upto_invariant(st, listing, f, (n - 1) as nat);
        }
        lemma_plan_covers(st, listing, pass_window(listing.len()), i);
        assert(lookup_hash(f, v) is Some);
        let e = VersionEntry { version: v, sri_hash: lookup_hash(f, v)->0 };
        lemma_sorted_insert_well_formed(prev.versions, e);
    }
}

/// After a pass in which every planned fetch succeeded, the top listed
/// version is the latest release and every version of the pass's window is
/// in the set.
pub proof fn lemma_complete_pass_covers_window(
    st: StoreState,
    listing: Seq<Seq<char>>,
    fetched: Seq<VersionEntry>,
)
    requires
        store_invariant(st),
        listing.len() > 0,
        plan_fetched(st, listing, fetched),
    ensures
        reconciled(st, listing, fetched).latest.version == listing[0],
        forall|i: int|
            1 <= i < pass_window(listing.len()) ==> has_version(
                reconciled(st, listing, fetched).versions,
                #[trigger] listing[i],
            ),
{
    lemma_complete_upto(st, listing, fetched, pass_window(listing.len()));
}

proof fn lemma_settled_upto(st: StoreState, listing: Seq<Seq<char>>, f: Seq<VersionEntry>, n: nat)
    requires
        n <= pass_window(listing.len()),
        forall|i: int| 0 <= i < pass_window(listing.len()) ==> !wanted(st, listing, i),
    ensures
        pass_upto(st, listing, f, n) == st,
        plan_upto(st, listing, n) == Seq::<Seq<char>>::empty(),
    decreases n,
{
    if n > 0 {
        lemma_settled_upto(st, listing, f, (n - 1) as nat);
        assert(!wanted(st, listing, n - 1));
    }
}

/// Running a pass twice over an unchanged listing, where the first pass
/// fetched everything it planned, changes nothing the second time: the
/// second pass plans no fetch, and whatever it is handed it leaves the store
/// as the first pass left it.
pub proof fn lemma_reconcile_idempotent(
    st: StoreState,
    listing: Seq<Seq<char>>,
    first: Seq<VersionEntry>,
    second: Seq<VersionEntry>,
)
    requires
        store_invariant(st),
        plan_fetched(st, listing, first),
    ensures
        fetch_plan(reconciled(st, listing, first), listing) == Seq::<Seq<char>>::empty(),
        reconciled(reconciled(st, listing, first), listing, second) == reconciled(st, listing, first),
{
    let st1 = reconciled(st, listing, first);
    if listing.len() > 0 {
        lemma_complete_pass_covers_window(st, listing, first);
    }
    assert forall|i: int| 0 <= i < pass_window(listing.len()) implies !wanted(st1, listing, i) by {
        if i > 0 {
            assert(has_version(st1.versions, listing[i]));
        }
    }
    lemma_settled_upto(st1, listing, second, pass_window(listing.len()));
}

/// A persisted set restores exactly: whatever set a store holds, once
/// written and read back it is restored with the same entries in the same
/// order (an empty set restores nothing and leaves the store empty).
pub proof fn lemma_cache_round_trip(st: StoreState)
    requires
        store_invariant(st),
    ensures
        st.versions.len() > 0 ==> (restored(st.versions) matches Some(r) && r.versions
            == st.versions),
        st.versions.len() == 0 ==> restored(st.versions) is None,
{
}

} // verus!
