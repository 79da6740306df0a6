//! The rating store: every rating record of one collection.
//!
//! A collection exclusively owns its records; `(collection, item)` is
//! unique, so the store keeps at most one record per item id. The store is
//! the only mutable state the engine's three operations share.

use vstd::prelude::*;

use crate::error::EngineError;
use crate::model::Record;

verus! {

/// No two records of the sequence describe the same item.
pub open spec fn unique_ids(s: Seq<Record>) -> bool {
    forall|i: int, j: int|
        0 <= i < s.len() && 0 <= j < s.len() && i != j ==> (#[trigger] s[i].item_id) != (
        #[trigger] s[j].item_id)
}

/// Every record of the sequence satisfies the record invariant.
pub open spec fn all_wf(s: Seq<Record>) -> bool {
    forall|i: int| 0 <= i < s.len() ==> (#[trigger] s[i]).wf()
}

/// Some record of the sequence describes the item `id`.
pub open spec fn contains_id(s: Seq<Record>, id: u64) -> bool {
    exists|i: int| 0 <= i < s.len() && (#[trigger] s[i]).item_id == id
}

/// The position of the record describing `id`; meaningful only when
/// `contains_id(s, id)` holds.
pub open spec fn idx_of(s: Seq<Record>, id: u64) -> int {
    choose|i: int| 0 <= i < s.len() && (#[trigger] s[i]).item_id == id
}

/// The record describing `id`; meaningful only when `contains_id(s, id)`
/// holds.
pub open spec fn record_for(s: Seq<Record>, id: u64) -> Record {
    s[idx_of(s, id)]
}

/// When ids are unique, any position holding `id` is the position
/// `idx_of` denotes.
pub proof fn lemma_idx_of_unique(s: Seq<Record>, id: u64, i: int)
    requires
        unique_ids(s),
        0 <= i < s.len(),
        s[i].item_id == id,
    ensures
        contains_id(s, id),
        idx_of(s, id) == i,
        record_for(s, id) == s[i],
{
    assert(contains_id(s, id));
    let j = idx_of(s, id);
    assert(0 <= j < s.len() && s[j].item_id == id);
    if i != j {
        assert(s[i].item_id != s[j].item_id);
    }
}

/// The rating records of one collection.
pub struct Collection {
    /// Identifier of the owning collection within the external catalog.
    pub collection_id: u64,
    /// One record per tracked item.
    pub records: Vec<Record>,
}

impl Collection {
    /// The store invariant: item ids are unique and every record keeps
    /// deviation and volatility positive.
    pub open spec fn wf(self) -> bool {
        unique_ids(self.records@) && all_wf(self.records@)
    }

    /// Whether the item `id` currently has a record.
    pub open spec fn contains(self, id: u64) -> bool {
        contains_id(self.records@, id)
    }

    /// The record of the item `id`; meaningful only when `contains` holds.
    pub open spec fn record_of(self, id: u64) -> Record {
        record_for(self.records@, id)
    }

    /// An empty store for the given collection.
    pub fn new(collection_id: u64) -> (r: Collection)
        ensures
            r.wf(),
            r.collection_id == collection_id,
            r.records@.len() == 0,
    {
        Collection { collection_id, records: Vec::new() }
    }

    /// How many items the collection currently tracks.
    pub fn len(&self) -> (r: usize)
        ensures
            r == self.records@.len(),
    {
        self.records.len()
    }

    /// Every record of the collection, in storage order.
    pub fn get_all(&self) -> (r: &Vec<Record>)
        ensures
            r@ == self.records@,
    {
        &self.records
    }

    /// The position of the record describing `item_id`, if the item is
    /// tracked.
    pub fn find(&self, item_id: u64) -> (r: Option<usize>)
        requires
            self.wf(),
        ensures
            match r {
                Some(i) => i < self.records@.len() && self.records@[i as int].item_id == item_id
                    && i == idx_of(self.records@, item_id) && self.contains(item_id),
                None => !self.contains(item_id),
            },
    {
        let n = self.records.len();
        let mut i: usize = 0;
        while i < n
            invariant
                n == self.records@.len(),
                i <= n,
                self.wf(),
                forall|k: int| 0 <= k < i ==> (#[trigger] self.records@[k].item_id) != item_id,
            decreases n - i,
        {
            if self.records[i].item_id == item_id {
                proof {
                    lemma_idx_of_unique(self.records@, item_id, i as int);
                }
                return Some(i);
            }
            i = i + 1;
        }
        proof {
            assert forall|k: int| 0 <= k < self.records@.len() implies (#[trigger] self
                .records@[k].item_id) != item_id by {}
        }
        None
    }

    /// The record of `item_id`, if the item is tracked.
    pub fn get(&self, item_id: u64) -> (r: Option<Record>)
        requires
            self.wf(),
        ensures
            match r {
                Some(rec) => self.contains(item_id) && rec == self.record_of(item_id),
                None => !self.contains(item_id),
            },
    {
        match self.find(item_id) {
            Some(i) => Some(self.records[i]),
            None => None,
        }
    }

    /// Inserts the record of a new item, or replaces the record its item
    /// already has. Every other record is untouched.
    pub fn upsert(&mut self, rec: Record)
        requires
            old(self).wf(),
            rec.wf(),
        ensures
            final(self).wf(),
            final(self).collection_id == old(self).collection_id,
            final(self).contains(rec.item_id),
            final(self).record_of(rec.item_id) == rec,
            forall|id: u64|
                id != rec.item_id ==> (#[trigger] final(self).contains(id)) == old(self).contains(
                    id,
                ),
            forall|id: u64|
                id != rec.item_id && old(self).contains(id) ==> (#[trigger] final(self).record_of(
                    id,
                )) == old(self).record_of(id),
            final(self).records@.len() == old(self).records@.len() + (
            if old(self).contains(rec.item_id) {
                0int
            } else {
                1int
            }),
    {
        match self.find(rec.item_id) {
            Some(i) => {
                let ghost old_records = self.records@;
                self.records[i] = rec;
                proof {
                    Self::lemma_update_preserves(old_records, self.records@, i as int, rec);
                }
            },
            None => {
                let ghost old_records = self.records@;
                self.records.push(rec);
                proof {
                    Self::lemma_push_preserves(old_records, self.records@, rec);
                }
            },
        }
    }

    /// Replacing the record at a position keeps uniqueness and leaves the
    /// other positions' ids and records as they were.
    proof fn lemma_update_preserves(s0: Seq<Record>, s1: Seq<Record>, i: int, rec: Record)
        requires
            unique_ids(s0),
            all_wf(s0),
            rec.wf(),
            0 <= i < s0.len(),
            s0[i].item_id == rec.item_id,
            s1 == s0.update(i, rec),
        ensures
            unique_ids(s1),
            all_wf(s1),
            contains_id(s1, rec.item_id),
            record_for(s1, rec.item_id) == rec,
            forall|id: u64|
                id != rec.item_id ==> (#[trigger] contains_id(s1, id)) == contains_id(s0, id),
            forall|id: u64|
                id != rec.item_id && contains_id(s0, id) ==> (#[trigger] record_for(s1, id))
                    == record_for(s0, id),
    {
        assert forall|k: int, l: int|
            0 <= k < s1.len() && 0 <= l < s1.len() && k != l implies (#[trigger] s1[k].item_id) != (
        #[trigger] s1[l].item_id) by {
            assert(s0[k].item_id != s0[l].item_id);
        }
        lemma_idx_of_unique(s1, rec.item_id, i);
        assert forall|id: u64| id != rec.item_id implies (#[trigger] contains_id(s1, id))
            == contains_id(s0, id) by {
            if contains_id(s0, id) {
                let k = idx_of(s0, id);
                assert(s1[k].item_id == id);
            }
            if contains_id(s1, id) {
                let k = idx_of(s1, id);
                assert(s0[k].item_id == id);
            }
        }
        assert forall|id: u64| id != rec.item_id && contains_id(s0, id) implies (
        #[trigger] record_for(s1, id)) == record_for(s0, id) by {
            let k = idx_of(s0, id);
            assert(0 <= k < s0.len() && s0[k].item_id == id);
            assert(k != i);
            lemma_idx_of_unique(s1, id, k);
        }
    }

    /// Appending a record with a fresh id keeps uniqueness and leaves the
    /// earlier positions' ids and records as they were.
    pub(crate) proof fn lemma_push_preserves(s0: Seq<Record>, s1: Seq<Record>, rec: Record)
        requires
            unique_ids(s0),
            all_wf(s0),
            rec.wf(),
            !contains_id(s0, rec.item_id),
            s1 == s0.push(rec),
        ensures
            unique_ids(s1),
            all_wf(s1),
            contains_id(s1, rec.item_id),
            record_for(s1, rec.item_id) == rec,
            forall|id: u64|
                id != rec.item_id ==> (#[trigger] contains_id(s1, id)) == contains_id(s0, id),
            forall|id: u64|
                id != rec.item_id && contains_id(s0, id) ==> (#[trigger] record_for(s1, id))
                    == record_for(s0, id),
    {
        assert forall|k: int, l: int|
            0 <= k < s1.len() && 0 <= l < s1.len() && k != l implies (#[trigger] s1[k].item_id) != (
        #[trigger] s1[l].item_id) by {
            if k < s0.len() && l < s0.len() {
                assert(s0[k].item_id != s0[l].item_id);
            } else if k == s0.len() {
                assert(s1[l] == s0[l]);
                if s1[l].item_id == rec.item_id {
                    assert(contains_id(s0, rec.item_id));
                }
            } else {
                assert(s1[k] == s0[k]);
                if s1[k].item_id == rec.item_id {
                    assert(contains_id(s0, rec.item_id));
                }
            }
        }
        lemma_idx_of_unique(s1, rec.item_id, s0.len() as int);
        assert forall|id: u64| id != rec.item_id implies (#[trigger] contains_id(s1, id))
            == contains_id(s0, id) by {
            if contains_id(s0, id) {
                let k = idx_of(s0, id);
                assert(s1[k].item_id == id);
            }
            if contains_id(s1, id) {
                let k = idx_of(s1, id);
                assert(k < s0.len());
                assert(s0[k].item_id == id);
            }
        }
        assert forall|id: u64| id != rec.item_id && contains_id(s0, id) implies (
        #[trigger] record_for(s1, id)) == record_for(s0, id) by {
            let k = idx_of(s0, id);
            assert(0 <= k < s0.len() && s0[k].item_id == id);
            lemma_idx_of_unique(s1, id, k);
        }
    }

    /// Removes the record of `item_id`, if the item is tracked; every other
    /// record is untouched. Returns whether a record was removed.
    pub fn delete(&mut self, item_id: u64) -> (r: bool)
        requires
            old(self).wf(),
        ensures
            final(self).wf(),
            final(self).collection_id == old(self).collection_id,
            r == old(self).contains(item_id),
            !final(self).contains(item_id),
            forall|id: u64|
                id != item_id ==> (#[trigger] final(self).contains(id)) == old(self).contains(id),
            forall|id: u64|
                id != item_id && old(self).contains(id) ==> (#[trigger] final(self).record_of(id))
                    == old(self).record_of(id),
            final(self).records@.len() == old(self).records@.len() - (
            if old(self).contains(item_id) {
                1int
            } else {
                0int
            }),
    {
        match self.find(item_id) {
            Some(i) => {
                let ghost old_records = self.records@;
                self.records.remove(i);
                proof {
                    Self::lemma_remove_preserves(old_records, self.records@, i as int, item_id);
                }
                true
            },
            None => false,
        }
    }

    /// Removing the record at a position keeps uniqueness and leaves the
    /// other items' records as they were.
    proof fn lemma_remove_preserves(s0: Seq<Record>, s1: Seq<Record>, i: int, item_id: u64)
        requires
            unique_ids(s0),
            all_wf(s0),
            0 <= i < s0.len(),
            s0[i].item_id == item_id,
            s1 == s0.remove(i),
        ensures
            unique_ids(s1),
            all_wf(s1),
            !contains_id(s1, item_id),
            forall|id: u64|
                id != item_id ==> (#[trigger] contains_id(s1, id)) == contains_id(s0, id),
            forall|id: u64|
                id != item_id && contains_id(s0, id) ==> (#[trigger] record_for(s1, id))
                    == record_for(s0, id),
    {
        let ghost f = |k: int| if k < i { k } else { k + 1 };
        assert forall|k: int| 0 <= k < s1.len() implies s1[k] == s0[f(k)] by {}
        assert forall|k: int, l: int|
            0 <= k < s1.len() && 0 <= l < s1.len() && k != l implies (#[trigger] s1[k].item_id) != (
        #[trigger] s1[l].item_id) by {
            assert(s0[f(k)].item_id != s0[f(l)].item_id);
        }
        if contains_id(s1, item_id) {
            let k = idx_of(s1, item_id);
            assert(s0[f(k)].item_id == item_id);
            assert(f(k) != i);
            assert(s0[f(k)].item_id != s0[i].item_id);
        }
        assert forall|id: u64| id != item_id implies (#[trigger] contains_id(s1, id))
            == contains_id(s0, id) by {
            if contains_id(s0, id) {
                let k = idx_of(s0, id);
                assert(k != i);
                if k < i {
                    assert(s1[k].item_id == id);
                } else {
                    assert(s1[k - 1].item_id == id);
                }
            }
            if contains_id(s1, id) {
                let k = idx_of(s1, id);
                assert(s0[f(k)].item_id == id);
            }
        }
        assert forall|id: u64| id != item_id && contains_id(s0, id) implies (
        #[trigger] record_for(s1, id)) == record_for(s0, id) by {
            let k = idx_of(s0, id);
            assert(0 <= k < s0.len() && s0[k].item_id == id);
            assert(k != i);
            if k < i {
                assert(s1[k] == s0[k]);
                lemma_idx_of_unique(s1, id, k);
            } else {
                assert(s1[k - 1] == s0[k]);
                lemma_idx_of_unique(s1, id, k - 1);
            }
        }
    }

    /// The collection's current standings: every record, ordered from the
    /// highest rating down. The store itself is left as it is.
    pub fn ranked(&self) -> (r: Vec<Record>)
        ensures
            r@.to_multiset() == self.records@.to_multiset(),
            forall|k: int, l: int| 0 <= k < l < r@.len() ==> r@[k].rating >= r@[l].rating,
    {
        broadcast use vstd::seq_lib::group_to_multiset_ensures;

        let mut work = self.records.clone();
        let mut out: Vec<Record> = Vec::new();
        proof {
            assert(work@.to_multiset().add(out@.to_multiset()) =~= self.records@.to_multiset());
        }
        while work.len() > 0
            invariant
                work@.to_multiset().add(out@.to_multiset()) == self.records@.to_multiset(),
                forall|k: int, l: int| 0 <= k < l < out@.len() ==> out@[k].rating >= out@[l].rating,
                forall|k: int, t: int|
                    0 <= k < out@.len() && 0 <= t < work@.len() ==> out@[k].rating
                        >= work@[t].rating,
            decreases work@.len(),
        {
            // position of a highest-rated remaining record
            let mut best: usize = 0;
            let mut t: usize = 1;
            while t < work.len()
                invariant
                    best < t <= work@.len(),
                    forall|u: int| 0 <= u < t ==> work@[u].rating <= work@[best as int].rating,
                decreases work@.len() - t,
            {
                if work[t].rating > work[best].rating {
                    best = t;
                }
                t = t + 1;
            }
            let ghost work0 = work@;
            let ghost out0 = out@;
            let top = work.remove(best);
            out.push(top);
            proof {
                broadcast use vstd::multiset::group_multiset_axioms;

                vstd::seq_lib::to_multiset_remove(work0, best as int);
                vstd::seq_lib::to_multiset_build(out0, top);
                assert(work@.to_multiset() == work0.to_multiset().remove(top));
                assert(out@.to_multiset() =~= out0.to_multiset().insert(top));
                assert(work0.contains(top));
                vstd::seq_lib::to_multiset_contains(work0, top);
                assert(work0.to_multiset().count(top) > 0);
                assert(work@.to_multiset().add(out@.to_multiset()) =~= work0.to_multiset().add(
                    out0.to_multiset(),
                ));
                assert forall|k: int, tt: int|
                    0 <= k < out@.len() && 0 <= tt < work@.len() implies out@[k].rating
                    >= work@[tt].rating by {
                    let source = if tt < best as int {
                        tt
                    } else {
                        tt + 1
                    };
                    assert(work@[tt] == work0[source]);
                }
            }
        }
        out
    }

    /// Replaces the records of two distinct items as one unit: both change
    /// together, or — when either item is no longer tracked — neither does.
    pub fn atomic_update_pair(&mut self, rec_a: Record, rec_b: Record) -> (r: Result<
        (),
        EngineError,
    >)
        requires
            old(self).wf(),
            rec_a.wf(),
            rec_b.wf(),
            rec_a.item_id != rec_b.item_id,
        ensures
            final(self).wf(),
            final(self).collection_id == old(self).collection_id,
            r is Ok <==> old(self).contains(rec_a.item_id) && old(self).contains(rec_b.item_id),
            r is Ok ==> {
                &&& final(self).contains(rec_a.item_id)
                &&& final(self).contains(rec_b.item_id)
                &&& final(self).record_of(rec_a.item_id) == rec_a
                &&& final(self).record_of(rec_b.item_id) == rec_b
                &&& forall|id: u64|
                    id != rec_a.item_id && id != rec_b.item_id ==> (#[trigger] final(self).contains(id)) == old(self).contains(id)
                &&& forall|id: u64|
                    id != rec_a.item_id && id != rec_b.item_id && old(self).contains(id) ==> (#[trigger] final(self).record_of(id)) == old(self).record_of(id)
                &&& final(self).records@.len() == old(self).records@.len()
            },
            r is Err ==> r == Result::<(), EngineError>::Err(EngineError::UnknownItem)
                && final(self).records@ == old(self).records@
                && final(self).collection_id == old(self).collection_id,
    {
        let ia = match self.find(rec_a.item_id) {
            Some(i) => i,
            None => {
                return Err(EngineError::UnknownItem);
            },
        };
        let ib = match self.find(rec_b.item_id) {
            Some(i) => i,
            None => {
                return Err(EngineError::UnknownItem);
            },
        };
        let ghost s0 = self.records@;
        self.records[ia] = rec_a;
        let ghost s1 = self.records@;
        proof {
            Self::lemma_update_preserves(s0, s1, ia as int, rec_a);
            assert(s1[ib as int].item_id == rec_b.item_id);
        }
        self.records[ib] = rec_b;
        proof {
            Self::lemma_update_preserves(s1, self.records@, ib as int, rec_b);
            assert(record_for(self.records@, rec_a.item_id) == rec_a) by {
                lemma_idx_of_unique(s1, rec_a.item_id, ia as int);
                lemma_idx_of_unique(self.records@, rec_a.item_id, ia as int);
            }
        }
        Ok(())
    }
}

} // verus!
