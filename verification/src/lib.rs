//! An incremental, finality-aware indexer for cross-chain messaging events.
//!
//! Each monitored chain produces its own stream of protocol events (message
//! dispatches, gas payments, checkpoint attestations). This library holds the
//! chain-agnostic core of the indexing pipeline: per-(chain, kind) cursor
//! bookkeeping, finality-bounded scan-window planning, normalization of
//! chain-native event encodings into one canonical schema, and an idempotent
//! store whose rows are joinable across chains by message identifier.
//!
//! Chain adapters (RPC clients) live outside this crate; the engine receives
//! their answers as plain values and decides what to persist and how far the
//! cursor may advance.

mod engine;
mod error;
mod event;
mod ids;
mod normalize;
mod store;

pub use engine::CycleOutcome;
pub use engine::ScanConfig;
pub use engine::ScanState;
pub use engine::apply_fetch;
pub use engine::chained_windows;
pub use engine::cursor_after_commits;
pub use engine::cursor_le;
pub use engine::effective_cursor;
pub use engine::finalized_from_tip;
pub use engine::lemma_cursor_monotone;
pub use engine::lemma_no_gap;
pub use engine::lemma_window_bounds;
pub use engine::next_state;
pub use engine::next_state_spec;
pub use engine::next_window;
pub use engine::plan_window;
pub use engine::plan_window_spec;
pub use error::ChainError;
pub use error::StoreError;
pub use event::EventKind;
pub use event::EventPayload;
pub use event::NormalizedEvent;
pub use event::RawEvent;
pub use event::RawPayload;
pub use ids::Hash256;
pub use ids::be_val;
pub use ids::decode_hash;
pub use ids::hash_from_bytes;
pub use ids::lemma_be_val_bound;
pub use ids::pow256;
pub use normalize::BlockTimestamp;
pub use normalize::batch_ok;
pub use normalize::lookup_timestamp;
pub use normalize::normalize_batch;
pub use normalize::normalize_event;
pub use normalize::normalize_spec;
pub use normalize::normalized_of;
pub use normalize::raw_well_formed;
pub use normalize::ts_lookup;
pub use normalize::ts_lookup_val;
pub use store::CursorEntry;
pub use store::Store;
pub use store::contains_key;
pub use store::cursor_lookup;
pub use store::cursors_unique;
pub use store::insert_row;
pub use store::keys_unique;
pub use store::lemma_join_groups_by_message;
pub use store::lemma_rows_with_message_exact;
pub use store::lemma_upsert_covers_batch;
pub use store::lemma_upsert_idempotent;
pub use store::lemma_upsert_noop;
pub use store::rows_in_range;
pub use store::rows_with_message;
pub use store::upsert_seq;
