//! Adaptive pairwise rating engine for the items of an externally managed
//! collection — a playlist whose songs are ranked by repeated head-to-head
//! comparisons.
//!
//! The engine owns three operations over one shared store of rating
//! records:
//!
//! - reconciliation ([`reconcile::reconcile`]) aligns the tracked item set
//!   with the collection's current external membership list;
//! - pair selection ([`select`]) proposes the next two items to compare,
//!   biased toward informative match-ups;
//! - result application ([`update`]) turns a reported win/loss into new
//!   rating state for both participants, atomically.
//!
//! Rating, deviation and volatility are Glicko-2 quantities, held as
//! fixed-point integers in millionths. The two real-valued computations —
//! the Gaussian similarity weights of pair selection and the Glicko-2
//! update itself — are the caller's: each operation that needs one hands
//! the caller plain values and takes the result back, and its contract
//! holds whatever the caller computes.

pub mod catalog;
pub mod error;
pub mod model;
pub mod reconcile;
pub mod select;
pub mod store;
pub mod update;
