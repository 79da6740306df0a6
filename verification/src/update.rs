//! Applying a resolved match outcome to the pair's rating records.
//!
//! The engine validates and commits; the Glicko-2 arithmetic itself —
//! real-valued, with an iterative volatility solve — is computed outside
//! on the pre-match states `apply_result_prepare` hands out, and the new
//! states come back as `RatingUpdate` values for `apply_result_commit`.
//! The commit re-reads nothing stale: it addresses the live records, moves
//! both together or neither, steps each participant's match count by
//! exactly 1, and refuses any update that would break the positivity
//! invariant of deviation and volatility.

use vstd::prelude::*;

use crate::error::EngineError;
use crate::model::Record;
use crate::model::RatingUpdate;
use crate::store::Collection;

verus! {

/// The live pre-match states of a validated pair, with the outcome
/// derived from the reported winner.
#[derive(Clone, Copy, Debug, PartialEq, Eq, Structural)]
pub struct ResolvedPair {
    /// Item A's record as currently stored.
    pub record_a: Record,
    /// Item B's record as currently stored.
    pub record_b: Record,
    /// Whether the reported winner was item A; otherwise it was item B.
    pub a_won: bool,
}

/// Validates a reported result and fetches the pair's live records.
///
/// Fails with `InvalidWinner` — and only then — when the reported winner
/// is neither participant; fails with `UnknownItem` — and only then —
/// when the winner is valid but either participant no longer has a record
/// (a legitimate race with reconciliation: the caller should discard the
/// proposal and request a new one).
pub fn apply_result_prepare(store: &Collection, item_a: u64, item_b: u64, winner: u64) -> (r:
    Result<ResolvedPair, EngineError>)
    requires
        store.wf(),
        item_a != item_b,
    ensures
        r is Ok <==> (winner == item_a || winner == item_b) && store.contains(item_a)
            && store.contains(item_b),
        match r {
            Ok(pair) => {
                &&& pair.record_a == store.record_of(item_a)
                &&& pair.record_b == store.record_of(item_b)
                &&& pair.a_won == (winner == item_a)
            },
            Err(e) => {
                &&& (e == EngineError::InvalidWinner <==> winner != item_a && winner != item_b)
                &&& (e == EngineError::UnknownItem <==> (winner == item_a || winner == item_b) && (
                !store.contains(item_a) || !store.contains(item_b)))
            },
        },
{
    if winner != item_a && winner != item_b {
        return Err(EngineError::InvalidWinner);
    }
    let record_a = match store.get(item_a) {
        Some(rec) => rec,
        None => {
            return Err(EngineError::UnknownItem);
        },
    };
    let record_b = match store.get(item_b) {
        Some(rec) => rec,
        None => {
            return Err(EngineError::UnknownItem);
        },
    };
    Ok(ResolvedPair { record_a, record_b, a_won: winner == item_a })
}

/// Commits the freshly computed states of both participants as one unit
/// and steps each one's match count by exactly 1.
///
/// Both records change together or neither does. Fails with `UnknownItem`
/// — and only then — when either participant no longer has a record;
/// fails with `Internal` — and only then — when both are present but an
/// update would break an invariant: a nonpositive deviation or
/// volatility, or a match counter that cannot be stepped. On failure the
/// store is exactly as it was.
pub fn apply_result_commit(
    store: &mut Collection,
    item_a: u64,
    item_b: u64,
    update_a: RatingUpdate,
    update_b: RatingUpdate,
) -> (r: Result<(), EngineError>)
    requires
        old(store).wf(),
        item_a != item_b,
    ensures
        final(store).wf(),
        final(store).collection_id == old(store).collection_id,
        r is Ok <==> old(store).contains(item_a) && old(store).contains(item_b) && update_a.wf()
            && update_b.wf() && old(store).record_of(item_a).total_matches < u64::MAX && old(store).record_of(item_b).total_matches < u64::MAX,
        r is Ok ==> {
            &&& final(store).contains(item_a)
            &&& final(store).contains(item_b)
            &&& final(store).record_of(item_a) == (Record {
                item_id: item_a,
                rating: update_a.rating,
                deviation: update_a.deviation,
                volatility: update_a.volatility,
                total_matches: (old(store).record_of(item_a).total_matches + 1) as u64,
            })
            &&& final(store).record_of(item_b) == (Record {
                item_id: item_b,
                rating: update_b.rating,
                deviation: update_b.deviation,
                volatility: update_b.volatility,
                total_matches: (old(store).record_of(item_b).total_matches + 1) as u64,
            })
            &&& forall|id: u64|
                id != item_a && id != item_b ==> (#[trigger] final(store).contains(id)) == old(store).contains(id)
            &&& forall|id: u64|
                id != item_a && id != item_b && old(store).contains(id) ==> (#[trigger] final(store).record_of(id)) == old(store).record_of(id)
            &&& final(store).records@.len() == old(store).records@.len()
        },
        r is Err ==> final(store).records@ == old(store).records@,
        match r {
            Ok(_) => true,
            Err(e) => {
                &&& (e == EngineError::UnknownItem <==> !old(store).contains(item_a) || !old(store).contains(item_b))
                &&& (e == EngineError::Internal <==> old(store).contains(item_a) && old(store).contains(item_b) && (!update_a.wf() || !update_b.wf() || old(store).record_of(
                    item_a,
                ).total_matches == u64::MAX || old(store).record_of(item_b).total_matches
                    == u64::MAX))
            },
        },
{
    let record_a = match store.get(item_a) {
        Some(rec) => rec,
        None => {
            return Err(EngineError::UnknownItem);
        },
    };
    let record_b = match store.get(item_b) {
        Some(rec) => rec,
        None => {
            return Err(EngineError::UnknownItem);
        },
    };
    if update_a.deviation <= 0 || update_a.volatility <= 0 || update_b.deviation <= 0
        || update_b.volatility <= 0 {
        return Err(EngineError::Internal);
    }
    let matches_a = match record_a.total_matches.checked_add(1) {
        Some(m) => m,
        None => {
            return Err(EngineError::Internal);
        },
    };
    let matches_b = match record_b.total_matches.checked_add(1) {
        Some(m) => m,
        None => {
            return Err(EngineError::Internal);
        },
    };
    let new_a = Record {
        item_id: item_a,
        rating: update_a.rating,
        deviation: update_a.deviation,
        volatility: update_a.volatility,
        total_matches: matches_a,
    };
    let new_b = Record {
        item_id: item_b,
        rating: update_b.rating,
        deviation: update_b.deviation,
        volatility: update_b.volatility,
        total_matches: matches_b,
    };
    store.atomic_update_pair(new_a, new_b)
}

/// Conflicting results for the same pair, committed one after the other —
/// whichever outcomes they carry — leave each participant's match count
/// exactly two above where it started: neither commit is lost and none is
/// counted twice.
pub proof fn lemma_serialized_commits_count_once_each(
    before: Collection,
    middle: Collection,
    after: Collection,
    item_a: u64,
    item_b: u64,
)
    requires
        before.contains(item_a),
        before.contains(item_b),
        middle.contains(item_a),
        middle.contains(item_b),
        middle.record_of(item_a).total_matches == before.record_of(item_a).total_matches + 1,
        middle.record_of(item_b).total_matches == before.record_of(item_b).total_matches + 1,
        after.record_of(item_a).total_matches == middle.record_of(item_a).total_matches + 1,
        after.record_of(item_b).total_matches == middle.record_of(item_b).total_matches + 1,
    ensures
        after.record_of(item_a).total_matches == before.record_of(item_a).total_matches + 2,
        after.record_of(item_b).total_matches == before.record_of(item_b).total_matches + 2,
{
}

} // verus!
