//! Pair selection: which two items to compare next.
//!
//! Selection is two-staged. Item A is chosen uniformly at random among all
//! records. Item B is then drawn from the remaining items by weighted
//! random sampling, where each candidate's weight rises with its rating's
//! closeness to A's rating relative to A's uncertainty — comparisons are
//! most informative when the outcome is not a foregone conclusion.
//!
//! The similarity weights are real-valued (a floor constant plus a
//! Gaussian of the rating distance), so the engine does not compute them:
//! `select_pair_begin` fixes A and the ordered candidate list, the caller
//! computes one weight per candidate from the records' rating state, and
//! `select_pair_finish` validates the inputs and draws B. Whatever weights
//! the caller supplies, a finished proposal names two distinct tracked
//! items, and B always carries a positive weight.

use vstd::prelude::*;

use rand::RngExt;
use rand::distr::Distribution;

use crate::error::EngineError;
use crate::model::Record;
use crate::store::Collection;
use crate::store::lemma_idx_of_unique;

verus! {

/// A pair to compare: both items' ids with a snapshot of their rating
/// state at proposal time. Ephemeral — never persisted, and not
/// authoritative: results are applied to the live records, which
/// concurrent matches may have moved on.
#[derive(Clone, Copy, Debug, PartialEq, Eq, Structural)]
pub struct MatchProposal {
    /// Snapshot of item A's record.
    pub item_a: Record,
    /// Snapshot of item B's record.
    pub item_b: Record,
}

/// A pair selection between the choice of item A and the draw of item B:
/// A's position in the store and the candidate positions for B.
#[derive(Debug)]
pub struct SelectionDraft {
    /// Position of item A among the store's records.
    pub a_index: usize,
    /// Positions of every other record, in storage order: the candidates
    /// for item B, one expected weight each.
    pub candidates: Vec<usize>,
}

impl SelectionDraft {
    /// The draft fits the store: A's position is valid and the candidates
    /// are exactly the other positions, in storage order.
    pub open spec fn describes(self, store: Collection) -> bool {
        &&& (self.a_index as int) < store.records@.len()
        &&& self.candidates@.len() == store.records@.len() - 1
        &&& forall|k: int|
            0 <= k < self.candidates@.len() ==> (#[trigger] self.candidates@[k]) as int == (
            if k < self.a_index as int {
                k
            } else {
                k + 1
            })
    }
}

/// Sum of a weight list, as an unbounded integer.
pub open spec fn weight_total(s: Seq<u64>) -> int
    decreases s.len(),
{
    if s.len() == 0 {
        0
    } else {
        weight_total(s.drop_last()) + s.last()
    }
}

/// A usable weight list: its total is positive (some candidate can be
/// drawn) and fits the weight type.
pub open spec fn weights_ok(s: Seq<u64>) -> bool {
    0 < weight_total(s) <= u64::MAX
}

/// A prefix never sums to more than the whole list.
proof fn lemma_weight_total_prefix(s: Seq<u64>, t: int)
    requires
        0 <= t <= s.len(),
    ensures
        weight_total(s.subrange(0, t)) <= weight_total(s),
    decreases s.len() - t,
{
    if t == s.len() {
        assert(s.subrange(0, t) =~= s);
    } else {
        lemma_weight_total_prefix(s, t + 1);
        assert(s.subrange(0, t + 1).drop_last() =~= s.subrange(0, t));
        assert(s.subrange(0, t + 1).last() == s[t]);
    }
}

/// Relies on rand's `random_range` over `0..n`: it panics only on an
/// empty range and returns a value of the range.
#[verifier::external_body]
fn random_below(n: usize) -> (r: usize)
    requires
        n > 0,
    ensures
        r < n,
{
    rand::rng().random_range(0..n)
}

/// Relies on rand's `WeightedIndex` (re-exported by rand_distr): over a
/// nonempty `u64` weight list with a positive, in-range total,
/// construction succeeds, and sampling returns the index of an entry
/// drawn with probability proportional to its weight — never one whose
/// weight is zero.
#[verifier::external_body]
fn weighted_pick(weights: &Vec<u64>) -> (r: usize)
    requires
        weights@.len() > 0,
        weights_ok(weights@),
    ensures
        r < weights@.len(),
        weights@[r as int] > 0,
{
    let dist = rand_distr::weighted::WeightedIndex::new(weights).unwrap();
    dist.sample(&mut rand::rng())
}

/// Starts a pair selection: chooses item A uniformly at random and lists
/// the candidate positions for item B.
///
/// Fails with `InsufficientItems` — and only then — when fewer than two
/// records exist.
pub fn select_pair_begin(store: &Collection) -> (r: Result<SelectionDraft, EngineError>)
    requires
        store.wf(),
    ensures
        match r {
            Ok(d) => store.records@.len() >= 2 && d.describes(*store),
            Err(e) => e == EngineError::InsufficientItems && store.records@.len() < 2,
        },
        r is Ok <==> store.records@.len() >= 2,
{
    let n = store.len();
    if n < 2 {
        return Err(EngineError::InsufficientItems);
    }
    let a_index = random_below(n);
    let mut candidates: Vec<usize> = Vec::new();
    let mut k: usize = 0;
    while k < n
        invariant
            k <= n,
            a_index < n,
            n == store.records@.len(),
            candidates@.len() == (if k <= a_index {
                k as int
            } else {
                k as int - 1
            }),
            forall|t: int|
                0 <= t < candidates@.len() ==> (#[trigger] candidates@[t]) as int == (
                if t < a_index as int {
                    t
                } else {
                    t + 1
                }),
        decreases n - k,
    {
        if k != a_index {
            candidates.push(k);
        }
        k = k + 1;
    }
    Ok(SelectionDraft { a_index, candidates })
}

/// Finishes a pair selection: draws item B among the draft's candidates
/// with probability proportional to the supplied weights, and returns the
/// proposal with both records' current state as its snapshot.
///
/// Fails with `Internal` — and only then — when the inputs do not cohere:
/// the draft does not fit the store, the weight list does not match the
/// candidate list, or the weights' total is zero or overflows. On valid
/// inputs a proposal is always returned, it names two distinct tracked
/// items, and item B's weight was positive.
pub fn select_pair_finish(store: &Collection, draft: &SelectionDraft, weights: &Vec<u64>) -> (r:
    Result<MatchProposal, EngineError>)
    requires
        store.wf(),
    ensures
        r is Ok <==> draft.describes(*store) && weights@.len() == draft.candidates@.len()
            && weights_ok(weights@),
        match r {
            Ok(p) => {
                &&& p.item_a == store.records@[draft.a_index as int]
                &&& store.contains(p.item_a.item_id)
                &&& store.contains(p.item_b.item_id)
                &&& p.item_a.item_id != p.item_b.item_id
                &&& exists|k: int|
                    0 <= k < draft.candidates@.len() && p.item_b == store.records@[(
                    #[trigger] draft.candidates@[k]) as int] && weights@[k] > 0
            },
            Err(e) => e == EngineError::Internal,
        },
{
    let n = store.len();
    if draft.a_index >= n {
        return Err(EngineError::Internal);
    }
    if weights.len() != draft.candidates.len() {
        return Err(EngineError::Internal);
    }
    if draft.candidates.len() != n - 1 {
        return Err(EngineError::Internal);
    }
    let mut k: usize = 0;
    while k < draft.candidates.len()
        invariant
            k <= draft.candidates@.len(),
            draft.candidates@.len() == n - 1,
            (draft.a_index as int) < n,
            n == store.records@.len(),
            forall|t: int|
                0 <= t < k ==> (#[trigger] draft.candidates@[t]) as int == (
                if t < draft.a_index as int {
                    t
                } else {
                    t + 1
                }),
        decreases draft.candidates@.len() - k,
    {
        let expect: usize = if k < draft.a_index {
            k
        } else {
            k + 1
        };
        if draft.candidates[k] != expect {
            return Err(EngineError::Internal);
        }
        k = k + 1;
    }

    // Total the weights; a zero or overflowing total cannot be sampled.
    let mut total: u64 = 0;
    let mut t: usize = 0;
    while t < weights.len()
        invariant
            t <= weights@.len(),
            total as int == weight_total(weights@.subrange(0, t as int)),
        decreases weights@.len() - t,
    {
        let ghost prefix = weights@.subrange(0, t as int);
        proof {
            assert(weights@.subrange(0, t as int + 1).drop_last() =~= prefix);
            assert(weights@.subrange(0, t as int + 1).last() == weights@[t as int]);
        }
        total = match total.checked_add(weights[t]) {
            Some(s) => s,
            None => {
                proof {
                    lemma_weight_total_prefix(weights@, t as int + 1);
                }
                return Err(EngineError::Internal);
            },
        };
        t = t + 1;
    }
    proof {
        assert(weights@.subrange(0, weights@.len() as int) =~= weights@);
    }
    if total == 0 {
        return Err(EngineError::Internal);
    }

    let pick = weighted_pick(weights);
    let b_index = draft.candidates[pick];
    let item_a = store.records[draft.a_index];
    let item_b = store.records[b_index];
    proof {
        lemma_idx_of_unique(store.records@, item_a.item_id, draft.a_index as int);
        lemma_idx_of_unique(store.records@, item_b.item_id, b_index as int);
        assert(b_index != draft.a_index);
    }
    Ok(MatchProposal { item_a, item_b })
}

/// The similarity weight of a candidate falls off with one quantity: the
/// squared distance between its rating and item A's. That quantity rises
/// strictly with the rating distance, so of two candidates the one
/// rating-closer to A stands on the strictly higher weight — equal-rated
/// items are favoured over far ones. (The fall-off itself, a real-valued
/// Gaussian over this quantity, is computed by the caller.)
pub proof fn lemma_similarity_distance_orders(a: int, x: int, y: int)
    requires
        (if x >= a {
            x - a
        } else {
            a - x
        }) < (if y >= a {
            y - a
        } else {
            a - y
        }),
    ensures
        (x - a) * (x - a) < (y - a) * (y - a),
{
    let dx = if x >= a {
        x - a
    } else {
        a - x
    };
    let dy = if y >= a {
        y - a
    } else {
        a - y
    };
    assert((x - a) * (x - a) == dx * dx) by (nonlinear_arith)
        requires
            dx == (if x >= a {
                x - a
            } else {
                a - x
            }),
    ;
    assert((y - a) * (y - a) == dy * dy) by (nonlinear_arith)
        requires
            dy == (if y >= a {
                y - a
            } else {
                a - y
            }),
    ;
    assert(dx * dx < dy * dy) by (nonlinear_arith)
        requires
            0 <= dx < dy,
    ;
}

/// An item whose record reconciliation just removed is never named by a
/// pair proposed on the reconciled store: the store then tracks only ids
/// of the external list, removed ids are off that list, and a proposal
/// names tracked items only.
pub proof fn lemma_reconcile_then_select_excludes_removed(
    store: Collection,
    external: Seq<u64>,
    removed: Seq<u64>,
    proposal: MatchProposal,
)
    requires
        forall|id: u64| #[trigger] store.contains(id) <==> external.contains(id),
        forall|id: u64| #[trigger] removed.contains(id) ==> !external.contains(id),
        store.contains(proposal.item_a.item_id),
        store.contains(proposal.item_b.item_id),
    ensures
        !removed.contains(proposal.item_a.item_id),
        !removed.contains(proposal.item_b.item_id),
{
}

} // verus!
