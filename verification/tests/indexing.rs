use scraper::BlockTimestamp;
use scraper::ChainError;
use scraper::CycleOutcome;
use scraper::EventKind;
use scraper::EventPayload;
use scraper::Hash256;
use scraper::NormalizedEvent;
use scraper::RawEvent;
use scraper::RawPayload;
use scraper::ScanConfig;
use scraper::ScanState;
use scraper::Store;
use scraper::StoreError;
use scraper::apply_fetch;
use scraper::finalized_from_tip;
use scraper::next_state;
use scraper::next_window;
use scraper::plan_window;

fn tagged_hash(tag: u8) -> Hash256 {
    Hash256 { w0: 0, w1: 0, w2: 0, w3: tag as u64 }
}

fn payment_row(tx_tag: u8, log_index: u64, msg_tag: u8) -> NormalizedEvent {
    NormalizedEvent {
        origin_chain_id: 1,
        tx_hash: tagged_hash(tx_tag),
        log_index,
        block_number: 10,
        block_timestamp: 100,
        payload: EventPayload::GasPayment {
            message_id: tagged_hash(msg_tag),
            amount: 5,
            payer: tagged_hash(9),
        },
    }
}

fn dispatch_row(tx_tag: u8, log_index: u64, msg_tag: u8) -> NormalizedEvent {
    NormalizedEvent {
        origin_chain_id: 2,
        tx_hash: tagged_hash(tx_tag),
        log_index,
        block_number: 11,
        block_timestamp: 110,
        payload: EventPayload::Dispatch {
            message_id: tagged_hash(msg_tag),
            origin_domain: 2,
            destination_domain: 3,
            sender: tagged_hash(7),
            recipient: tagged_hash(8),
        },
    }
}

fn byte32(tag: u8) -> Vec<u8> {
    let mut b = vec![0u8; 32];
    b[31] = tag;
    b
}

fn raw_payment(tx_tag: u8, log_index: u64, block_number: u64) -> RawEvent {
    RawEvent {
        tx_hash: byte32(tx_tag),
        log_index,
        block_number,
        payload: RawPayload::GasPayment { message_id: byte32(2), amount: 5, payer: byte32(9) },
    }
}

fn config(start_height: u64, max_batch_size: u64) -> ScanConfig {
    ScanConfig {
        chain_id: 1,
        start_height,
        max_batch_size,
        finality_lag: 5,
        poll_interval_ms: 100,
    }
}

#[test]
fn window_capped_by_batch_size_then_remainder() {
    // Finalized height 100, cursor at 40, cap 50: the engine scans [41, 90],
    // commits cursor 90 and leaves [91, 100] for the next cycle.
    let mut store = Store::new();
    let cfg = config(40, 50);
    let window = next_window(&store, &cfg, EventKind::GasPayment, 100).unwrap();
    assert_eq!(window, (41, 90));
    let outcome = apply_fetch(
        &mut store,
        &cfg,
        EventKind::GasPayment,
        window,
        Ok(Vec::new()),
        &Vec::new(),
    );
    assert_eq!(outcome, CycleOutcome::Committed(90));
    assert_eq!(store.get_cursor(1, EventKind::GasPayment), Some(90));
    let next = next_window(&store, &cfg, EventKind::GasPayment, 100).unwrap();
    assert_eq!(next, (91, 100));
}

#[test]
fn no_window_when_nothing_newly_finalized() {
    let store = Store::new();
    let cfg = config(40, 50);
    assert_eq!(next_window(&store, &cfg, EventKind::GasPayment, 40), None);
    assert_eq!(next_window(&store, &cfg, EventKind::GasPayment, 12), None);
}

#[test]
fn window_never_exceeds_finalized_height() {
    for finalized in [41u64, 55, 90, 91, 150] {
        let (lo, hi) = plan_window(40, finalized, 50).unwrap();
        assert_eq!(lo, 41);
        assert!(hi <= finalized);
        assert!(hi - lo + 1 <= 50);
    }
}

#[test]
fn finalized_height_saturates_below_lag() {
    assert_eq!(finalized_from_tip(100, 5), 95);
    assert_eq!(finalized_from_tip(5, 5), 0);
    assert_eq!(finalized_from_tip(3, 5), 0);
}

#[test]
fn upsert_same_batch_twice_keeps_one_row() {
    // The same event replayed by a retried, overlapping window leaves exactly
    // one row: identity is (tx_hash, log_index).
    let mut store = Store::new();
    let batch = vec![payment_row(1, 0, 2)];
    store.upsert_events(&batch);
    store.upsert_events(&batch);
    assert_eq!(store.row_count(), 1);
    assert_eq!(*store.row_at(0), payment_row(1, 0, 2));
}

#[test]
fn upsert_duplicate_within_one_batch_keeps_first() {
    let mut store = Store::new();
    store.upsert_events(&vec![payment_row(1, 0, 2), payment_row(1, 0, 2)]);
    assert_eq!(store.row_count(), 1);
}

#[test]
fn upsert_distinguishes_log_index() {
    let mut store = Store::new();
    store.upsert_events(&vec![payment_row(1, 0, 2), payment_row(1, 1, 2)]);
    assert_eq!(store.row_count(), 2);
}

#[test]
fn cursor_rejects_lower_value() {
    let mut store = Store::new();
    assert_eq!(store.advance_cursor(1, EventKind::GasPayment, 10), Ok(()));
    assert_eq!(
        store.advance_cursor(1, EventKind::GasPayment, 5),
        Err(StoreError::NonMonotonicCursor)
    );
    assert_eq!(store.get_cursor(1, EventKind::GasPayment), Some(10));
    // An equal value is not a decrease and is accepted.
    assert_eq!(store.advance_cursor(1, EventKind::GasPayment, 10), Ok(()));
    assert_eq!(store.get_cursor(1, EventKind::GasPayment), Some(10));
}

#[test]
fn cursors_are_independent_per_chain_and_kind() {
    let mut store = Store::new();
    store.advance_cursor(1, EventKind::GasPayment, 10).unwrap();
    store.advance_cursor(1, EventKind::MessageDispatch, 20).unwrap();
    store.advance_cursor(2, EventKind::GasPayment, 30).unwrap();
    assert_eq!(store.get_cursor(1, EventKind::GasPayment), Some(10));
    assert_eq!(store.get_cursor(1, EventKind::MessageDispatch), Some(20));
    assert_eq!(store.get_cursor(2, EventKind::GasPayment), Some(30));
    assert_eq!(store.get_cursor(2, EventKind::MessageDispatch), None);
}

#[test]
fn rejected_commit_leaves_rows_and_cursor_untouched() {
    let mut store = Store::new();
    store.advance_cursor(1, EventKind::GasPayment, 90).unwrap();
    let r = store.commit(&vec![payment_row(1, 0, 2)], 1, EventKind::GasPayment, 50);
    assert_eq!(r, Err(StoreError::NonMonotonicCursor));
    assert_eq!(store.row_count(), 0);
    assert_eq!(store.get_cursor(1, EventKind::GasPayment), Some(90));
}

#[test]
fn fatal_fetch_halts_without_partial_rows() {
    // Cursor at 90, fetch of [91, 140] fails fatally: the cursor stays at 90,
    // the scan halts, and nothing from the window is committed.
    let mut store = Store::new();
    let cfg = config(90, 50);
    store.advance_cursor(1, EventKind::GasPayment, 90).unwrap();
    let window = next_window(&store, &cfg, EventKind::GasPayment, 140).unwrap();
    assert_eq!(window, (91, 140));
    let outcome = apply_fetch(
        &mut store,
        &cfg,
        EventKind::GasPayment,
        window,
        Err(ChainError::Fatal),
        &Vec::new(),
    );
    assert_eq!(outcome, CycleOutcome::Halted);
    assert_eq!(store.get_cursor(1, EventKind::GasPayment), Some(90));
    assert_eq!(store.row_count(), 0);
    assert_eq!(next_state(ScanState::Idle, outcome), ScanState::Halted);
}

#[test]
fn malformed_event_halts_without_partial_rows() {
    let mut store = Store::new();
    let cfg = config(9, 50);
    let window = next_window(&store, &cfg, EventKind::GasPayment, 10).unwrap();
    let good = raw_payment(1, 0, 10);
    let mut bad = raw_payment(1, 1, 10);
    bad.tx_hash = vec![0u8; 31];
    let table = vec![BlockTimestamp { block_number: 10, timestamp: 100 }];
    let outcome =
        apply_fetch(&mut store, &cfg, EventKind::GasPayment, window, Ok(vec![good, bad]), &table);
    assert_eq!(outcome, CycleOutcome::Halted);
    assert_eq!(store.row_count(), 0);
    assert_eq!(store.get_cursor(1, EventKind::GasPayment), None);
}

#[test]
fn transient_fetch_backs_off_and_retries_same_window() {
    let mut store = Store::new();
    let cfg = config(9, 50);
    let window = next_window(&store, &cfg, EventKind::GasPayment, 10).unwrap();
    assert_eq!(window, (10, 10));
    let outcome = apply_fetch(
        &mut store,
        &cfg,
        EventKind::GasPayment,
        window,
        Err(ChainError::Transient),
        &Vec::new(),
    );
    assert_eq!(outcome, CycleOutcome::Backoff);
    assert_eq!(next_state(ScanState::Idle, outcome), ScanState::Backoff);
    assert_eq!(store.get_cursor(1, EventKind::GasPayment), None);
    // The retry plans the same window, and this time it lands.
    let retry = next_window(&store, &cfg, EventKind::GasPayment, 10).unwrap();
    assert_eq!(retry, window);
    let table = vec![BlockTimestamp { block_number: 10, timestamp: 100 }];
    let outcome = apply_fetch(
        &mut store,
        &cfg,
        EventKind::GasPayment,
        retry,
        Ok(vec![raw_payment(1, 0, 10)]),
        &table,
    );
    assert_eq!(outcome, CycleOutcome::Committed(10));
    assert_eq!(store.row_count(), 1);
}

#[test]
fn halted_state_is_terminal() {
    assert_eq!(next_state(ScanState::Halted, CycleOutcome::Committed(5)), ScanState::Halted);
    assert_eq!(next_state(ScanState::Halted, CycleOutcome::NoNewData), ScanState::Halted);
    assert_eq!(next_state(ScanState::Backoff, CycleOutcome::Committed(5)), ScanState::Idle);
    assert_eq!(next_state(ScanState::Idle, CycleOutcome::NoNewData), ScanState::Idle);
}

#[test]
fn committed_windows_form_contiguous_range() {
    // Catch-up from start height 0 to finalized height 100 in capped windows:
    // each window starts right above the previous one, and their union covers
    // every block from 1 to 100.
    let mut store = Store::new();
    let cfg = config(0, 30);
    let mut windows: Vec<(u64, u64)> = Vec::new();
    while let Some(window) = next_window(&store, &cfg, EventKind::GasPayment, 100) {
        let outcome = apply_fetch(
            &mut store,
            &cfg,
            EventKind::GasPayment,
            window,
            Ok(Vec::new()),
            &Vec::new(),
        );
        assert_eq!(outcome, CycleOutcome::Committed(window.1));
        windows.push(window);
    }
    assert_eq!(windows, vec![(1, 30), (31, 60), (61, 90), (91, 100)]);
    let mut expected_lo = 1u64;
    for (lo, hi) in &windows {
        assert_eq!(*lo, expected_lo);
        assert!(lo <= hi);
        expected_lo = hi + 1;
    }
    assert_eq!(expected_lo, 101);
    assert_eq!(store.get_cursor(1, EventKind::GasPayment), Some(100));
}

#[test]
fn join_finds_dispatch_and_payment_in_either_commit_order() {
    // A dispatch and a gas payment with the same message identifier, written
    // by different instances in either order, both appear when grouped by it.
    let d = dispatch_row(1, 0, 2);
    let g = payment_row(3, 0, 2);
    let unrelated = payment_row(4, 0, 6);

    let mut store_a = Store::new();
    store_a.upsert_events(&vec![d, unrelated]);
    store_a.upsert_events(&vec![g]);
    let joined_a = store_a.rows_for_message(&tagged_hash(2));
    assert_eq!(joined_a.len(), 2);
    assert!(joined_a.contains(&d));
    assert!(joined_a.contains(&g));

    let mut store_b = Store::new();
    store_b.upsert_events(&vec![g]);
    store_b.upsert_events(&vec![unrelated, d]);
    let joined_b = store_b.rows_for_message(&tagged_hash(2));
    assert_eq!(joined_b.len(), 2);
    assert!(joined_b.contains(&d));
    assert!(joined_b.contains(&g));

    assert!(store_a.rows_for_message(&tagged_hash(5)).is_empty());
}

#[test]
fn block_range_query_filters_by_chain_and_range() {
    let mut store = Store::new();
    let mut early = payment_row(1, 0, 2);
    early.block_number = 5;
    let mut inside = payment_row(2, 0, 2);
    inside.block_number = 10;
    let mut other_chain = payment_row(3, 0, 2);
    other_chain.block_number = 10;
    other_chain.origin_chain_id = 9;
    store.upsert_events(&vec![early, inside, other_chain]);
    let hits = store.rows_for_block_range(1, 6, 12);
    assert_eq!(hits.len(), 1);
    assert_eq!(hits[0], inside);
    assert_eq!(store.rows_for_block_range(1, 1, 100).len(), 2);
    assert_eq!(store.rows_for_block_range(9, 10, 10), vec![other_chain]);
    assert!(store.rows_for_block_range(1, 11, 12).is_empty());
}

#[test]
fn commit_writes_rows_and_cursor_as_one_unit() {
    let mut store = Store::new();
    let cfg = config(9, 50);
    let window = next_window(&store, &cfg, EventKind::GasPayment, 12).unwrap();
    assert_eq!(window, (10, 12));
    let table = vec![
        BlockTimestamp { block_number: 10, timestamp: 100 },
        BlockTimestamp { block_number: 12, timestamp: 120 },
    ];
    let outcome = apply_fetch(
        &mut store,
        &cfg,
        EventKind::GasPayment,
        window,
        Ok(vec![raw_payment(1, 0, 10), raw_payment(1, 1, 12)]),
        &table,
    );
    assert_eq!(outcome, CycleOutcome::Committed(12));
    assert_eq!(store.row_count(), 2);
    assert_eq!(store.get_cursor(1, EventKind::GasPayment), Some(12));
    let row = store.row_at(0);
    assert_eq!(row.origin_chain_id, 1);
    assert_eq!(row.block_number, 10);
    assert_eq!(row.block_timestamp, 100);
    assert_eq!(row.tx_hash, tagged_hash(1));
    assert_eq!(store.row_at(1).block_timestamp, 120);
}
