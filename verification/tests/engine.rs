//! Tests of the rating engine: reconciliation, pair selection and result
//! application, including the end-to-end comparison flow with the real
//! Glicko-2 arithmetic.

use skillratings::Outcomes;
use skillratings::glicko2::Glicko2Config;
use skillratings::glicko2::Glicko2Rating;
use skillratings::glicko2::glicko2;

use spotify_rankings::error::EngineError;
use spotify_rankings::model::DEFAULT_DEVIATION;
use spotify_rankings::model::DEFAULT_RATING;
use spotify_rankings::model::DEFAULT_VOLATILITY;
use spotify_rankings::model::Record;
use spotify_rankings::model::RatingUpdate;
use spotify_rankings::reconcile::reconcile;
use spotify_rankings::select::select_pair_begin;
use spotify_rankings::select::select_pair_finish;
use spotify_rankings::select::MatchProposal;
use spotify_rankings::store::Collection;
use spotify_rankings::update::apply_result_commit;
use spotify_rankings::update::apply_result_prepare;

fn to_micro(x: f64) -> i64 {
    (x * 1_000_000.0).round() as i64
}

fn from_micro(x: i64) -> f64 {
    (x as f64) / 1_000_000.0
}

/// The real Glicko-2 update on two stored records, as the engine's caller
/// computes it between `apply_result_prepare` and `apply_result_commit`.
fn glicko_update(a: &Record, b: &Record, a_won: bool) -> (RatingUpdate, RatingUpdate) {
    let player_a = Glicko2Rating {
        rating: from_micro(a.rating),
        deviation: from_micro(a.deviation),
        volatility: from_micro(a.volatility),
    };
    let player_b = Glicko2Rating {
        rating: from_micro(b.rating),
        deviation: from_micro(b.deviation),
        volatility: from_micro(b.volatility),
    };
    let outcome = if a_won { Outcomes::WIN } else { Outcomes::LOSS };
    let config = Glicko2Config::default();
    let (new_a, new_b) = glicko2(&player_a, &player_b, &outcome, &config);
    (
        RatingUpdate {
            rating: to_micro(new_a.rating),
            deviation: to_micro(new_a.deviation),
            volatility: to_micro(new_a.volatility),
        },
        RatingUpdate {
            rating: to_micro(new_b.rating),
            deviation: to_micro(new_b.deviation),
            volatility: to_micro(new_b.volatility),
        },
    )
}

/// Uniform weights, one per candidate of the draft.
fn uniform_weights(n: usize) -> Vec<u64> {
    vec![1u64; n]
}

fn select_once(store: &Collection) -> MatchProposal {
    let draft = select_pair_begin(store).expect("two items are tracked");
    let weights = uniform_weights(draft.candidates.len());
    select_pair_finish(store, &draft, &weights).expect("coherent inputs")
}

#[test]
fn reconcile_inserts_new_items_with_defaults() {
    let mut store = Collection::new(1);
    let (inserted, removed) = reconcile(&mut store, &vec![10, 20, 30]);
    let mut inserted_sorted = inserted.clone();
    inserted_sorted.sort();
    assert_eq!(inserted_sorted, vec![10, 20, 30]);
    assert_eq!(removed, Vec::<u64>::new());
    assert_eq!(store.len(), 3);
    let rec = store.get(20).expect("newly observed item is tracked");
    assert_eq!(rec.rating, DEFAULT_RATING);
    assert_eq!(rec.deviation, DEFAULT_DEVIATION);
    assert_eq!(rec.volatility, DEFAULT_VOLATILITY);
    assert_eq!(rec.total_matches, 0);
}

#[test]
fn reconcile_is_idempotent() {
    let mut store = Collection::new(1);
    let external = vec![10, 20, 30];
    reconcile(&mut store, &external);

    // move one item's rating so "unchanged" is observable
    let mut moved = store.get(20).unwrap();
    moved.rating = 1_700_000_000;
    moved.total_matches = 4;
    store.upsert(moved);
    let before: Vec<Record> = store.get_all().clone();

    let (inserted, removed) = reconcile(&mut store, &external);
    assert_eq!(inserted, Vec::<u64>::new());
    assert_eq!(removed, Vec::<u64>::new());
    assert_eq!(store.len(), 3);
    for rec in before {
        assert_eq!(store.get(rec.item_id), Some(rec));
    }
}

#[test]
fn reconcile_removes_stale_and_keeps_survivors() {
    let mut store = Collection::new(1);
    reconcile(&mut store, &vec![1, 2, 3]);
    let mut moved = store.get(2).unwrap();
    moved.rating = 1_800_000_000;
    store.upsert(moved);

    let (inserted, removed) = reconcile(&mut store, &vec![2, 3, 4]);
    assert_eq!(inserted, vec![4]);
    assert_eq!(removed, vec![1]);
    assert_eq!(store.len(), 3);
    assert!(store.get(1).is_none());
    assert_eq!(store.get(2).unwrap().rating, 1_800_000_000);
    assert_eq!(store.get(3).unwrap().rating, DEFAULT_RATING);
    assert_eq!(store.get(4).unwrap().rating, DEFAULT_RATING);
}

#[test]
fn reconcile_counts_duplicate_external_ids_once() {
    let mut store = Collection::new(1);
    let (inserted, removed) = reconcile(&mut store, &vec![5, 5, 6, 5]);
    let mut inserted_sorted = inserted.clone();
    inserted_sorted.sort();
    assert_eq!(inserted_sorted, vec![5, 6]);
    assert_eq!(removed, Vec::<u64>::new());
    assert_eq!(store.len(), 2);
}

#[test]
fn reconcile_then_select_never_names_a_removed_item() {
    let mut store = Collection::new(1);
    reconcile(&mut store, &vec![1, 2, 3]);
    let (_, removed) = reconcile(&mut store, &vec![2, 3]);
    assert_eq!(removed, vec![1]);
    for _ in 0..20 {
        let proposal = select_once(&store);
        assert_ne!(proposal.item_a.item_id, 1);
        assert_ne!(proposal.item_b.item_id, 1);
    }
}

#[test]
fn select_fails_without_two_items() {
    let empty = Collection::new(1);
    assert_eq!(select_pair_begin(&empty).unwrap_err(), EngineError::InsufficientItems);

    let mut one = Collection::new(1);
    reconcile(&mut one, &vec![42]);
    assert_eq!(select_pair_begin(&one).unwrap_err(), EngineError::InsufficientItems);
}

#[test]
fn select_returns_two_distinct_tracked_items() {
    let mut store = Collection::new(1);
    reconcile(&mut store, &vec![1, 2, 3, 4]);
    for _ in 0..50 {
        let proposal = select_once(&store);
        assert_ne!(proposal.item_a.item_id, proposal.item_b.item_id);
        assert!(store.get(proposal.item_a.item_id).is_some());
        assert!(store.get(proposal.item_b.item_id).is_some());
    }
}

#[test]
fn select_with_exactly_two_items_is_the_only_pair() {
    let mut store = Collection::new(1);
    reconcile(&mut store, &vec![8, 9]);
    for _ in 0..10 {
        let proposal = select_once(&store);
        let mut ids = [proposal.item_a.item_id, proposal.item_b.item_id];
        ids.sort();
        assert_eq!(ids, [8, 9]);
    }
}

#[test]
fn select_never_draws_a_zero_weight_candidate() {
    let mut store = Collection::new(1);
    reconcile(&mut store, &vec![1, 2, 3]);
    for _ in 0..30 {
        let draft = select_pair_begin(&store).unwrap();
        // only the last candidate carries weight
        let mut weights = vec![0u64; draft.candidates.len()];
        *weights.last_mut().unwrap() = 7;
        let proposal = select_pair_finish(&store, &draft, &weights).unwrap();
        let forced = store.get_all()[*draft.candidates.last().unwrap()];
        assert_eq!(proposal.item_b.item_id, forced.item_id);
    }
}

#[test]
fn select_finish_rejects_incoherent_inputs() {
    let mut store = Collection::new(1);
    reconcile(&mut store, &vec![1, 2, 3]);
    let draft = select_pair_begin(&store).unwrap();

    // wrong number of weights
    let short = vec![1u64; draft.candidates.len() - 1];
    assert_eq!(select_pair_finish(&store, &draft, &short), Err(EngineError::Internal));

    // a total of zero cannot be sampled
    let zeros = vec![0u64; draft.candidates.len()];
    assert_eq!(select_pair_finish(&store, &draft, &zeros), Err(EngineError::Internal));

    // an overflowing total cannot be sampled
    let huge = vec![u64::MAX; draft.candidates.len()];
    assert_eq!(select_pair_finish(&store, &draft, &huge), Err(EngineError::Internal));

    // a draft from another store does not fit
    let mut other = Collection::new(2);
    reconcile(&mut other, &vec![1, 2, 3, 4, 5]);
    let stale = select_pair_begin(&other).unwrap();
    let weights = vec![1u64; stale.candidates.len()];
    assert_eq!(select_pair_finish(&store, &stale, &weights), Err(EngineError::Internal));
}

#[test]
fn apply_result_rejects_an_unknown_winner() {
    let mut store = Collection::new(1);
    reconcile(&mut store, &vec![1, 2]);
    assert_eq!(apply_result_prepare(&store, 1, 2, 99), Err(EngineError::InvalidWinner));
}

#[test]
fn apply_result_reports_a_vanished_item() {
    let mut store = Collection::new(1);
    reconcile(&mut store, &vec![1, 2, 3]);
    let proposal = select_once(&store);
    let (a, b) = (proposal.item_a.item_id, proposal.item_b.item_id);

    // the reconciler removes item b between proposal and result
    let keep: Vec<u64> = vec![1, 2, 3].into_iter().filter(|id| *id != b).collect();
    reconcile(&mut store, &keep);

    assert_eq!(apply_result_prepare(&store, a, b, a), Err(EngineError::UnknownItem));
    let update = RatingUpdate { rating: DEFAULT_RATING, deviation: 1, volatility: 1 };
    assert_eq!(apply_result_commit(&mut store, a, b, update, update), Err(EngineError::UnknownItem));
    // the failed commit changed nothing
    assert_eq!(store.get(a).unwrap().total_matches, 0);
}

#[test]
fn apply_result_commit_refuses_an_invariant_breaking_update() {
    let mut store = Collection::new(1);
    reconcile(&mut store, &vec![1, 2]);
    let good = RatingUpdate { rating: DEFAULT_RATING, deviation: 1, volatility: 1 };
    let bad = RatingUpdate { rating: DEFAULT_RATING, deviation: 0, volatility: 1 };
    assert_eq!(apply_result_commit(&mut store, 1, 2, good, bad), Err(EngineError::Internal));
    assert_eq!(store.get(1).unwrap().total_matches, 0);
    assert_eq!(store.get(2).unwrap().total_matches, 0);
}

#[test]
fn applying_a_win_moves_both_ratings_the_right_way() {
    let mut store = Collection::new(1);
    reconcile(&mut store, &vec![1, 2]);
    let pair = apply_result_prepare(&store, 1, 2, 1).unwrap();
    assert!(pair.a_won);
    let (update_a, update_b) = glicko_update(&pair.record_a, &pair.record_b, pair.a_won);
    apply_result_commit(&mut store, 1, 2, update_a, update_b).unwrap();

    let winner = store.get(1).unwrap();
    let loser = store.get(2).unwrap();
    assert!(winner.rating >= pair.record_a.rating);
    assert!(loser.rating <= pair.record_b.rating);
    assert_eq!(winner.total_matches, pair.record_a.total_matches + 1);
    assert_eq!(loser.total_matches, pair.record_b.total_matches + 1);
}

#[test]
fn conflicting_results_are_each_counted_exactly_once() {
    let mut store = Collection::new(1);
    reconcile(&mut store, &vec![1, 2]);

    // two voters resolve the same pair with opposite outcomes; the
    // commits serialize, and each steps both counters exactly once
    let first = apply_result_prepare(&store, 1, 2, 1).unwrap();
    let (update_a, update_b) = glicko_update(&first.record_a, &first.record_b, true);
    apply_result_commit(&mut store, 1, 2, update_a, update_b).unwrap();

    let second = apply_result_prepare(&store, 1, 2, 2).unwrap();
    let (update_a, update_b) = glicko_update(&second.record_a, &second.record_b, false);
    apply_result_commit(&mut store, 1, 2, update_a, update_b).unwrap();

    assert_eq!(store.get(1).unwrap().total_matches, 2);
    assert_eq!(store.get(2).unwrap().total_matches, 2);
}

#[test]
fn end_to_end_two_track_scenario() {
    let mut store = Collection::new(1);
    let x = 101;
    let y = 202;
    reconcile(&mut store, &vec![x, y]);
    assert_eq!(store.get(x).unwrap().rating, to_micro(1500.0));
    assert_eq!(store.get(x).unwrap().deviation, to_micro(350.0));

    let proposal = select_once(&store);
    let mut ids = [proposal.item_a.item_id, proposal.item_b.item_id];
    ids.sort();
    assert_eq!(ids, [x, y]);

    // report: x wins
    let pair = apply_result_prepare(&store, x, y, x).unwrap();
    let (update_x, update_y) = glicko_update(&pair.record_a, &pair.record_b, pair.a_won);
    apply_result_commit(&mut store, x, y, update_x, update_y).unwrap();

    let rec_x = store.get(x).unwrap();
    let rec_y = store.get(y).unwrap();
    assert!(rec_x.rating > to_micro(1500.0));
    assert!(rec_y.rating < to_micro(1500.0));
    assert!(rec_x.deviation < to_micro(350.0));
    assert!(rec_y.deviation < to_micro(350.0));
    assert_eq!(rec_x.total_matches, 1);
    assert_eq!(rec_y.total_matches, 1);

    // the Glicko-2 values for this exact configuration
    assert_eq!(from_micro(rec_x.rating).round(), 1662.0);
    assert_eq!(from_micro(rec_y.rating).round(), 1338.0);
    assert_eq!(from_micro(rec_x.deviation).round(), 290.0);
    assert_eq!(from_micro(rec_y.deviation).round(), 290.0);
}
