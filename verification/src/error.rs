//! The error taxonomy of the rating engine.
//!
//! Every variant is recoverable at the request boundary; no operation of the
//! engine leaves the rating store in an invariant-violating state when it
//! fails.

use vstd::prelude::*;

verus! {

/// Why an engine operation was refused.
#[derive(Clone, Copy, Debug, PartialEq, Eq, Structural)]
pub enum EngineError {
    /// Fewer than two rating records exist for the collection, so no pair
    /// can be proposed.
    InsufficientItems,
    /// A reported winner id matches neither participant of the pair.
    InvalidWinner,
    /// A participant of the pair no longer has a rating record; the caller
    /// should discard the stale proposal and request a new one.
    UnknownItem,
    /// The collection's external membership list could not be retrieved, so
    /// reconciliation was not attempted.
    UpstreamUnavailable,
    /// An opaque internal failure the caller cannot act on, such as a
    /// malformed intermediate value.
    Internal,
}

} // verus!
