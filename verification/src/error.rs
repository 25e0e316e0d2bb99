//! Error taxonomy for adapter calls and store operations.

use vstd::prelude::*;

verus! {

/// Failure of a chain-adapter call.
///
/// A transient failure (network or RPC hiccup) is retried by the engine with
/// backoff, over the same window, so no range is ever skipped. A fatal failure
/// (malformed or unexpected data) halts indexing for that chain and kind until
/// an operator intervenes; resuming automatically could silently persist bad
/// data.
#[derive(Clone, Copy, Debug, PartialEq, Eq, Structural)]
pub enum ChainError {
    /// Network/RPC hiccup: the caller retries the same window with backoff.
    Transient,
    /// Malformed or unexpected data: indexing of this chain and kind halts.
    Fatal,
}

/// Failure of a store operation.
#[derive(Clone, Copy, Debug, PartialEq, Eq, Structural)]
pub enum StoreError {
    /// A cursor write carried a lower value than the one already persisted.
    /// Cursors are monotonic; such a write indicates a bug upstream and is
    /// rejected rather than silently applied.
    NonMonotonicCursor,
}

} // verus!
