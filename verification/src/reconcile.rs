//! Reconciliation of the tracked item set against the collection's current
//! external membership list.
//!
//! Items that newly appear get a record with the default rating state;
//! items that disappeared lose their record, and their rating history with
//! it; items present in both keep their rating state untouched, so state
//! survives reordering or metadata changes upstream.
//!
//! Retrieving the membership list is the caller's concern: a caller that
//! cannot retrieve it reports `UpstreamUnavailable` without calling
//! `reconcile`, so a fetch failure never leaves the store partially
//! reconciled.

use vstd::prelude::*;

use crate::model::Record;
use crate::store::Collection;
use crate::store::contains_id;
use crate::store::record_for;
use crate::store::unique_ids;
use crate::store::all_wf;
use crate::store::lemma_idx_of_unique;

verus! {

/// Whether `x` occurs in the vector.
fn vec_contains_u64(v: &Vec<u64>, x: u64) -> (b: bool)
    ensures
        b == v@.contains(x),
{
    let n = v.len();
    let mut i: usize = 0;
    while i < n
        invariant
            n == v@.len(),
            i <= n,
            forall|k: int| 0 <= k < i ==> v@[k] != x,
        decreases n - i,
    {
        if v[i] == x {
            return true;
        }
        i = i + 1;
    }
    false
}

/// Whether some record of the vector describes the item `id`.
fn vec_contains_record_id(v: &Vec<Record>, id: u64) -> (b: bool)
    ensures
        b == contains_id(v@, id),
{
    let n = v.len();
    let mut i: usize = 0;
    while i < n
        invariant
            n == v@.len(),
            i <= n,
            forall|k: int| 0 <= k < i ==> (#[trigger] v@[k].item_id) != id,
        decreases n - i,
    {
        if v[i].item_id == id {
            return true;
        }
        i = i + 1;
    }
    false
}

/// Appending an id to a sequence of ids adds exactly that id to its
/// members.
proof fn lemma_push_contains_u64(s0: Seq<u64>, s1: Seq<u64>, x: u64)
    requires
        s1 == s0.push(x),
    ensures
        forall|y: u64| #[trigger] s1.contains(y) <==> s0.contains(y) || y == x,
{
    assert forall|y: u64| #[trigger] s1.contains(y) implies s0.contains(y) || y == x by {
        let k = choose|k: int| 0 <= k < s1.len() && s1[k] == y;
        if k < s0.len() {
            assert(s0[k] == y);
        }
    }
    assert forall|y: u64| s0.contains(y) || y == x implies #[trigger] s1.contains(y) by {
        if s0.contains(y) {
            let k = choose|k: int| 0 <= k < s0.len() && s0[k] == y;
            assert(s1[k] == y);
        } else {
            assert(s1[s0.len() as int] == x);
        }
    }
}

/// Aligns the store with the collection's current membership list.
///
/// Returns `(inserted, removed)`: the ids that newly appeared and were
/// given a default record, and the ids that disappeared and whose records
/// were deleted. Both are free of duplicates; a duplicate id in the
/// external list counts once. Afterwards the store tracks exactly the ids
/// of the external list, and every item present both before and after
/// keeps the record it had.
pub fn reconcile(store: &mut Collection, external: &Vec<u64>) -> (r: (Vec<u64>, Vec<u64>))
    requires
        old(store).wf(),
    ensures
        final(store).wf(),
        final(store).collection_id == old(store).collection_id,
        forall|id: u64| #[trigger] final(store).contains(id) <==> external@.contains(id),
        forall|id: u64|
            old(store).contains(id) && external@.contains(id)
                ==> (#[trigger] final(store).record_of(id)) == old(store).record_of(id),
        forall|id: u64|
            external@.contains(id) && !old(store).contains(id)
                ==> (#[trigger] final(store).record_of(id)) == Record::spec_default_for(id),
        forall|id: u64|
            #[trigger] r.0@.contains(id) <==> external@.contains(id) && !old(store).contains(id),
        r.0@.no_duplicates(),
        forall|id: u64|
            #[trigger] r.1@.contains(id) <==> old(store).contains(id) && !external@.contains(id),
        r.1@.no_duplicates(),
{
    let ghost s0 = store.records@;

    // The ids whose records vanish: tracked now, absent from the list.
    let mut removed: Vec<u64> = Vec::new();
    let n = store.records.len();
    let mut i: usize = 0;
    while i < n
        invariant
            n == store.records@.len(),
            i <= n,
            unique_ids(store.records@),
            forall|id: u64|
                #[trigger] removed@.contains(id) <==> (exists|p: int|
                    0 <= p < i && store.records@[p].item_id == id) && !external@.contains(id),
            forall|k: int|
                0 <= k < removed@.len() ==> exists|p: int|
                    0 <= p < i && store.records@[p].item_id == #[trigger] removed@[k],
            removed@.no_duplicates(),
        decreases n - i,
    {
        let id = store.records[i].item_id;
        if !vec_contains_u64(external, id) {
            let ghost removed0 = removed@;
            proof {
                assert forall|k: int| 0 <= k < removed0.len() implies removed0[k] != id by {
                    let p = choose|p: int|
                        0 <= p < i && store.records@[p].item_id == removed0[k];
                    assert(store.records@[p].item_id != store.records@[i as int].item_id);
                }
            }
            removed.push(id);
            proof {
                lemma_push_contains_u64(removed0, removed@, id);
                assert forall|k: int, l: int|
                    0 <= k < removed@.len() && 0 <= l < removed@.len() && k != l implies removed@[k]
                    != removed@[l] by {
                    if k < removed0.len() && l < removed0.len() {
                        assert(removed0[k] != removed0[l]);
                    }
                }
            }
        }
        i = i + 1;
    }

    // The records the store will hold afterwards: one per distinct id of
    // the external list, keeping the state of every already-tracked item.
    let mut next: Vec<Record> = Vec::new();
    let mut inserted: Vec<u64> = Vec::new();
    let m = external.len();
    let mut j: usize = 0;
    while j < m
        invariant
            m == external@.len(),
            j <= m,
            store.wf(),
            store.records@ == s0,
            unique_ids(next@),
            all_wf(next@),
            forall|id: u64|
                #[trigger] contains_id(next@, id) <==> (exists|q: int|
                    0 <= q < j && external@[q] == id),
            forall|id: u64|
                contains_id(next@, id) && contains_id(s0, id) ==> (#[trigger] record_for(next@, id))
                    == record_for(s0, id),
            forall|id: u64|
                contains_id(next@, id) && !contains_id(s0, id) ==> (#[trigger] record_for(
                    next@,
                    id,
                )) == Record::spec_default_for(id),
            forall|id: u64|
                #[trigger] inserted@.contains(id) <==> contains_id(next@, id) && !contains_id(
                    s0,
                    id,
                ),
            inserted@.no_duplicates(),
        decreases m - j,
    {
        let id = external[j];
        if !vec_contains_record_id(&next, id) {
            let ghost next0 = next@;
            match store.find(id) {
                Some(p) => {
                    proof {
                        lemma_idx_of_unique(s0, id, p as int);
                    }
                    let rec = store.records[p];
                    next.push(rec);
                    proof {
                        Collection::lemma_push_preserves(next0, next@, rec);
                    }
                },
                None => {
                    let rec = Record::default_for(id);
                    next.push(rec);
                    let ghost inserted0 = inserted@;
                    proof {
                        Collection::lemma_push_preserves(next0, next@, rec);
                        assert forall|k: int| 0 <= k < inserted0.len() implies inserted0[k]
                            != id by {
                            assert(inserted0.contains(inserted0[k]));
                            assert(contains_id(next0, inserted0[k]));
                        }
                    }
                    inserted.push(id);
                    proof {
                        lemma_push_contains_u64(inserted0, inserted@, id);
                        assert forall|k: int, l: int|
                            0 <= k < inserted@.len() && 0 <= l < inserted@.len() && k
                                != l implies inserted@[k] != inserted@[l] by {
                            if k < inserted0.len() && l < inserted0.len() {
                                assert(inserted0[k] != inserted0[l]);
                            }
                        }
                    }
                },
            }
        }
        j = j + 1;
    }

    store.records = next;
    (inserted, removed)
}

/// Reconciliation is idempotent: a store already aligned with the
/// external list — as a store is after any `reconcile` run with that list
/// — makes a further run with the same list report nothing inserted and
/// nothing removed and keep every record unchanged.
///
/// `pre` is the aligned store the second run starts from; `post`,
/// `inserted` and `removed` are what `reconcile`'s contract states of the
/// second run's outcome.
pub proof fn lemma_reconcile_idempotent(
    pre: Collection,
    post: Collection,
    external: Seq<u64>,
    inserted: Seq<u64>,
    removed: Seq<u64>,
)
    requires
        forall|id: u64| #[trigger] pre.contains(id) <==> external.contains(id),
        forall|id: u64| #[trigger] post.contains(id) <==> external.contains(id),
        forall|id: u64|
            pre.contains(id) && external.contains(id) ==> (#[trigger] post.record_of(id))
                == pre.record_of(id),
        forall|id: u64| #[trigger] inserted.contains(id) <==> external.contains(id)
            && !pre.contains(id),
        forall|id: u64| #[trigger] removed.contains(id) <==> pre.contains(id)
            && !external.contains(id),
    ensures
        inserted.len() == 0,
        removed.len() == 0,
        forall|id: u64| #[trigger] post.contains(id) <==> pre.contains(id),
        forall|id: u64| pre.contains(id) ==> (#[trigger] post.record_of(id)) == pre.record_of(id),
{
    if inserted.len() > 0 {
        assert(inserted.contains(inserted[0]));
    }
    if removed.len() > 0 {
        assert(removed.contains(removed[0]));
    }
}

} // verus!
