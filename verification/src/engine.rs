//! The cursor-driven scan engine.
//!
//! One engine instance runs per (chain, event kind). Each cycle it reads the
//! persisted cursor (or starts at the configured start height), bounds the
//! next scan window by the adapter's finalized height and the configured batch
//! cap, has the adapter fetch that window, normalizes the result and commits
//! rows and cursor as one unit. The adapter calls themselves are I/O and live
//! with the caller; the engine receives their answers as plain values, so
//! every decision it makes is verified for every possible answer.
//!
//! Failure never moves the cursor: a transient fetch failure re-runs the same
//! window after a backoff, a fatal one halts the (chain, kind) scan with the
//! store untouched. Cursor advancement is bounded by the finalized height,
//! never the tip, so a reorganization within the finality lag cannot
//! invalidate committed data; a deeper one is an accepted, documented risk
//! that the engine does not detect.

use vstd::prelude::*;

use crate::error::ChainError;
use crate::event::EventKind;
use crate::event::RawEvent;
use crate::normalize::BlockTimestamp;
use crate::normalize::batch_ok;
use crate::normalize::normalize_batch;
use crate::normalize::normalized_of;
use crate::store::Store;
use crate::store::upsert_seq;

verus! {

/// Per-chain scan configuration. Every field is set independently per chain.
#[derive(Clone, Copy, Debug, PartialEq, Eq, Structural)]
pub struct ScanConfig {
    /// Identifier of the chain this configuration scans.
    pub chain_id: u32,
    /// Height scanning starts above: the first window begins at
    /// `start_height + 1`.
    pub start_height: u64,
    /// Largest number of blocks one window may span, so a long catch-up never
    /// requests an unbounded range.
    pub max_batch_size: u64,
    /// Blocks subtracted from the observed tip to obtain a height safe from
    /// reorganization.
    pub finality_lag: u64,
    /// How long the caller sleeps when no new finalized data exists.
    pub poll_interval_ms: u64,
}

impl ScanConfig {
    /// A window must be able to hold at least one block.
    pub open spec fn well_formed(self) -> bool {
        self.max_batch_size >= 1
    }
}

/// Persistent control state of one (chain, kind) scan.
#[derive(Clone, Copy, Debug, PartialEq, Eq, Structural)]
pub enum ScanState {
    /// Ready for the next cycle.
    Idle,
    /// The last cycle failed transiently; the same window is retried after an
    /// exponential delay.
    Backoff,
    /// A fatal failure was surfaced; the scan contributes nothing further
    /// until an operator intervenes. Terminal.
    Halted,
}

/// What one scan cycle did.
#[derive(Clone, Copy, Debug, PartialEq, Eq, Structural)]
pub enum CycleOutcome {
    /// No block above the cursor is finalized yet; nothing was done.
    NoNewData,
    /// The window's rows and the cursor, now at the carried height, were
    /// committed as one unit.
    Committed(u64),
    /// A transient failure: nothing was committed, the window is retried.
    Backoff,
    /// A fatal failure: nothing was committed, the scan halts.
    Halted,
}

/// The cursor a scan proceeds from: the persisted one, or the configured
/// start height before any commit exists for this (chain, kind).
pub open spec fn effective_cursor(store: Store, chain_id: u32, kind: EventKind, start_height: u64) -> u64 {
    match store.spec_cursor(chain_id, kind) {
        Some(c) => c,
        None => start_height,
    }
}

/// The next scan window above `cursor`: nothing when no block above the
/// cursor is finalized, otherwise `[cursor + 1, min(finalized, cursor +
/// max_batch)]`.
pub open spec fn plan_window_spec(cursor: u64, finalized: u64, max_batch: u64) -> Option<
    (u64, u64),
> {
    if finalized <= cursor {
        None
    } else if finalized - cursor <= max_batch {
        Some(((cursor + 1) as u64, finalized))
    } else {
        Some(((cursor + 1) as u64, (cursor + max_batch) as u64))
    }
}

/// Finality bound: a planned window never reaches above the finalized height,
/// starts right above the cursor, holds at least one block and at most
/// `max_batch` blocks. Since a commit moves the cursor exactly to the
/// window's upper bound, no committed cursor value ever exceeds the finalized
/// height reported at planning time.
pub proof fn lemma_window_bounds(cursor: u64, finalized: u64, max_batch: u64)
    requires
        max_batch >= 1,
    ensures
        match plan_window_spec(cursor, finalized, max_batch) {
            Some(w) => {
                &&& w.0 == cursor + 1
                &&& w.0 <= w.1
                &&& w.1 <= finalized
                &&& w.1 - w.0 + 1 <= max_batch
            },
            None => finalized <= cursor,
        },
{
}

/// Computes the next scan window above `cursor`, bounded by the finalized
/// height and the batch cap.
pub fn plan_window(cursor: u64, finalized: u64, max_batch: u64) -> (r: Option<(u64, u64)>)
    requires
        max_batch >= 1,
    ensures
        r == plan_window_spec(cursor, finalized, max_batch),
{
    if finalized <= cursor {
        None
    } else if finalized - cursor <= max_batch {
        Some((cursor + 1, finalized))
    } else {
        Some((cursor + 1, cursor + max_batch))
    }
}

/// The height considered safe from reorganization: the observed tip minus the
/// configured finality lag, saturating at zero while the chain is younger
/// than the lag.
pub fn finalized_from_tip(tip: u64, finality_lag: u64) -> (r: u64)
    ensures
        tip >= finality_lag ==> r == tip - finality_lag,
        tip < finality_lag ==> r == 0,
{
    if tip >= finality_lag {
        tip - finality_lag
    } else {
        0
    }
}

/// Plans the next window for `(cfg.chain_id, kind)` from the persisted cursor
/// (or the configured start height) and the finalized height the adapter just
/// reported. `None` means no new safe data exists: the caller sleeps for the
/// poll interval and retries with no state change.
pub fn next_window(store: &Store, cfg: &ScanConfig, kind: EventKind, finalized: u64) -> (r: Option<
    (u64, u64),
>)
    requires
        cfg.well_formed(),
    ensures
        r == plan_window_spec(
            effective_cursor(*store, cfg.chain_id, kind, cfg.start_height),
            finalized,
            cfg.max_batch_size,
        ),
{
    let cursor = match store.get_cursor(cfg.chain_id, kind) {
        Some(c) => c,
        None => cfg.start_height,
    };
    plan_window(cursor, finalized, cfg.max_batch_size)
}

/// Applies what the adapter answered for one planned window.
///
/// On a fetch that succeeded and normalized cleanly, the rows and the cursor
/// (moved to the window's upper bound) are committed as one unit. On a
/// transient failure nothing changes and the caller backs off over the same
/// window, so no range is ever skipped. On a fatal failure — the adapter's
/// own, or a structurally invalid event found while normalizing — nothing
/// changes, not even part of the batch, and the scan halts.
pub fn apply_fetch(
    store: &mut Store,
    cfg: &ScanConfig,
    kind: EventKind,
    window: (u64, u64),
    fetched: Result<Vec<RawEvent>, ChainError>,
    table: &Vec<BlockTimestamp>,
) -> (r: CycleOutcome)
    requires
        old(store).inv(),
        window.0 == effective_cursor(*old(store), cfg.chain_id, kind, cfg.start_height) + 1,
        window.0 <= window.1,
    ensures
        final(store).inv(),
        match fetched {
            Err(ChainError::Transient) => r == CycleOutcome::Backoff && *final(store) == *old(
                store,
            ),
            Err(ChainError::Fatal) => r == CycleOutcome::Halted && *final(store) == *old(store),
            Ok(raws) => {
                if batch_ok(raws@, table@) {
                    &&& r == CycleOutcome::Committed(window.1)
                    &&& final(store).spec_rows() == upsert_seq(
                        old(store).spec_rows(),
                        normalized_of(cfg.chain_id, raws@, table@),
                    )
                    &&& final(store).spec_cursor(cfg.chain_id, kind) == Some(window.1)
                    &&& forall|c2: u32, k2: EventKind|
                        !(c2 == cfg.chain_id && k2 == kind) ==> final(store).spec_cursor(c2, k2)
                            == old(store).spec_cursor(c2, k2)
                } else {
                    r == CycleOutcome::Halted && *final(store) == *old(store)
                }
            },
        },
{
    let raws = match fetched {
        Ok(raws) => raws,
        Err(ChainError::Transient) => {
            return CycleOutcome::Backoff;
        },
        Err(ChainError::Fatal) => {
            return CycleOutcome::Halted;
        },
    };
    let rows = match normalize_batch(cfg.chain_id, &raws, table) {
        Ok(rows) => rows,
        Err(_) => {
            return CycleOutcome::Halted;
        },
    };
    match store.commit(&rows, cfg.chain_id, kind, window.1) {
        Ok(()) => CycleOutcome::Committed(window.1),
        Err(e) => {
            proof {
                assert(false);
            }
            CycleOutcome::Halted
        },
    }
}

/// The control-state transition after one cycle. `Halted` is terminal: once a
/// fatal failure surfaced, the scan never resumes on its own.
pub open spec fn next_state_spec(state: ScanState, outcome: CycleOutcome) -> ScanState {
    match state {
        ScanState::Halted => ScanState::Halted,
        _ => match outcome {
            CycleOutcome::Halted => ScanState::Halted,
            CycleOutcome::Backoff => ScanState::Backoff,
            CycleOutcome::NoNewData => ScanState::Idle,
            CycleOutcome::Committed(_) => ScanState::Idle,
        },
    }
}

/// Advances the control state of one (chain, kind) scan after a cycle.
pub fn next_state(state: ScanState, outcome: CycleOutcome) -> (r: ScanState)
    ensures
        r == next_state_spec(state, outcome),
{
    match state {
        ScanState::Halted => ScanState::Halted,
        _ => match outcome {
            CycleOutcome::Halted => ScanState::Halted,
            CycleOutcome::Backoff => ScanState::Backoff,
            CycleOutcome::NoNewData => ScanState::Idle,
            CycleOutcome::Committed(_) => ScanState::Idle,
        },
    }
}

/// The cursor left by a sequence of attempted cursor writes, each applied as
/// the store applies it: a value at or above the current cursor is persisted,
/// a lower one is rejected and leaves the cursor where it was.
pub open spec fn cursor_after_commits(initial: Option<u64>, requests: Seq<u64>) -> Option<u64>
    decreases requests.len(),
{
    if requests.len() == 0 {
        initial
    } else {
        let prev = cursor_after_commits(initial, requests.drop_last());
        let h = requests.last();
        match prev {
            None => Some(h),
            Some(c) => if h >= c {
                Some(h)
            } else {
                Some(c)
            },
        }
    }
}

/// Ordering on optional cursor values: an absent cursor precedes everything.
pub open spec fn cursor_le(a: Option<u64>, b: Option<u64>) -> bool {
    match a {
        None => true,
        Some(x) => match b {
            Some(y) => x <= y,
            None => false,
        },
    }
}

/// Monotonicity: over any sequence of attempted commits on one (chain, kind),
/// the persisted cursor value never decreases — rejected lower-value writes
/// leave it in place, accepted ones only raise it. Each step of
/// `cursor_after_commits` is exactly what `Store::advance_cursor` (and so
/// `Store::commit`) guarantees for the pair it touches.
pub proof fn lemma_cursor_monotone(initial: Option<u64>, requests: Seq<u64>, i: int, j: int)
    requires
        0 <= i <= j <= requests.len(),
    ensures
        cursor_le(
            cursor_after_commits(initial, requests.take(i)),
            cursor_after_commits(initial, requests.take(j)),
        ),
    decreases j - i,
{
    if i < j {
        lemma_cursor_monotone(initial, requests, i, j - 1);
        let prefix = requests.take(j - 1);
        let full = requests.take(j);
        assert(full.drop_last() =~= prefix);
        assert(full.last() == requests[j - 1]);
        assert(cursor_le(
            cursor_after_commits(initial, prefix),
            cursor_after_commits(initial, full),
        ));
    }
}

/// Whether a sequence of windows is chained above `start`: each window is
/// non-empty and begins right above where its predecessor ended, the first
/// right above `start`. Successful engine cycles produce exactly such
/// windows: `next_window` starts at the persisted cursor plus one, and the
/// commit moves the cursor to the window's upper bound.
pub open spec fn chained_windows(start: u64, ws: Seq<(u64, u64)>) -> bool {
    forall|i: int|
        0 <= i < ws.len() ==> {
            &&& (#[trigger] ws[i]).0 <= ws[i].1
            &&& ws[i].0 == if i == 0 {
                start + 1
            } else {
                ws[i - 1].1 + 1
            }
        }
}

/// No-gap guarantee: the union of chained windows is a contiguous range. Every
/// block between the start height (exclusive) and the last committed height
/// (inclusive) lies inside some committed window — no sub-range is ever
/// skipped, however the cycles were interleaved with crashes and restarts,
/// because a cursor only moves in the same commit that persists its window.
pub proof fn lemma_no_gap(start: u64, ws: Seq<(u64, u64)>, b: u64)
    requires
        chained_windows(start, ws),
        ws.len() > 0,
        start < b <= ws.last().1,
    ensures
        exists|i: int| 0 <= i < ws.len() && (#[trigger] ws[i]).0 <= b <= ws[i].1,
    decreases ws.len(),
{
    let last = ws.len() - 1;
    if b >= ws.last().0 {
        assert(ws[last].0 <= b <= ws[last].1);
    } else {
        assert(ws.len() > 1) by {
            if ws.len() == 1 {
                assert(ws[0].0 == start + 1);
            }
        }
        let head = ws.drop_last();
        assert(forall|i: int| 0 <= i < head.len() ==> #[trigger] head[i] == ws[i]);
        assert(chained_windows(start, head));
        assert(head.last() == ws[last - 1]);
        assert(ws[last].0 == ws[last - 1].1 + 1);
        lemma_no_gap(start, head, b);
        let w = choose|i: int| 0 <= i < head.len() && (#[trigger] head[i]).0 <= b <= head[i].1;
        assert(ws[w].0 <= b <= ws[w].1);
    }
}

} // verus!
