//! The rating state kept for one item of a collection.
//!
//! Rating, deviation and volatility are Glicko-2 state variables. They are
//! real-valued quantities; the engine stores each as a fixed-point integer
//! in millionths, so that a rating of 1500 is stored as 1_500_000_000 and a
//! volatility of 0.06 as 60_000. The engine itself never does arithmetic on
//! these quantities beyond moving them whole: the Glicko-2 update is
//! computed outside and handed back, and the engine guards the invariants.

use vstd::prelude::*;

verus! {

/// Default rating (1500) in millionths.
pub const DEFAULT_RATING: i64 = 1_500_000_000;

/// Default rating deviation (350) in millionths.
pub const DEFAULT_DEVIATION: i64 = 350_000_000;

/// Default rating volatility (0.06) in millionths.
pub const DEFAULT_VOLATILITY: i64 = 60_000;

/// The rating record of one item: its identity within the collection and
/// its Glicko-2 state.
#[derive(Clone, Copy, Debug, PartialEq, Eq, Structural)]
pub struct Record {
    /// Identifier of the item within the external catalog, unique within
    /// the collection.
    pub item_id: u64,
    /// Skill estimate, in millionths.
    pub rating: i64,
    /// Uncertainty of the skill estimate, in millionths; always positive.
    pub deviation: i64,
    /// Expected rating fluctuation, in millionths; always positive.
    pub volatility: i64,
    /// How many resolved matches this item has taken part in.
    pub total_matches: u64,
}

/// A freshly computed Glicko-2 state for one item, as handed back by the
/// numeric update kernel, waiting to be committed.
#[derive(Clone, Copy, Debug, PartialEq, Eq, Structural)]
pub struct RatingUpdate {
    /// New skill estimate, in millionths.
    pub rating: i64,
    /// New deviation, in millionths.
    pub deviation: i64,
    /// New volatility, in millionths.
    pub volatility: i64,
}

impl Record {
    /// The record invariant: deviation and volatility never reach zero or
    /// below, so the pair-selection weight formula never divides by zero
    /// and every item keeps a positive sampling probability.
    pub open spec fn wf(self) -> bool {
        self.deviation > 0 && self.volatility > 0
    }

    /// The state a newly observed item starts with.
    pub open spec fn spec_default_for(id: u64) -> Record {
        Record {
            item_id: id,
            rating: DEFAULT_RATING,
            deviation: DEFAULT_DEVIATION,
            volatility: DEFAULT_VOLATILITY,
            total_matches: 0,
        }
    }

    /// Builds the default record for a newly observed item.
    pub fn default_for(id: u64) -> (r: Record)
        ensures
            r == Record::spec_default_for(id),
            r.wf(),
    {
        Record {
            item_id: id,
            rating: DEFAULT_RATING,
            deviation: DEFAULT_DEVIATION,
            volatility: DEFAULT_VOLATILITY,
            total_matches: 0,
        }
    }
}

impl RatingUpdate {
    /// A committed update must keep deviation and volatility positive.
    pub open spec fn wf(self) -> bool {
        self.deviation > 0 && self.volatility > 0
    }
}

} // verus!
