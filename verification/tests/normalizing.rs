use scraper::BlockTimestamp;
use scraper::ChainError;
use scraper::EventPayload;
use scraper::Hash256;
use scraper::NormalizedEvent;
use scraper::RawEvent;
use scraper::RawPayload;
use scraper::decode_hash;
use scraper::lookup_timestamp;
use scraper::normalize_batch;
use scraper::normalize_event;

fn byte32(tag: u8) -> Vec<u8> {
    let mut b = vec![0u8; 32];
    b[31] = tag;
    b
}

fn tagged_hash(tag: u8) -> Hash256 {
    Hash256 { w0: 0, w1: 0, w2: 0, w3: tag as u64 }
}

#[test]
fn decode_hash_exact_words() {
    let bytes: Vec<u8> = (0u8..32u8).collect();
    let h = decode_hash(&bytes).unwrap();
    assert_eq!(h.w0, 0x0001020304050607);
    assert_eq!(h.w1, 0x08090a0b0c0d0e0f);
    assert_eq!(h.w2, 0x1011121314151617);
    assert_eq!(h.w3, 0x18191a1b1c1d1e1f);
}

#[test]
fn decode_hash_low_byte() {
    let h = decode_hash(&byte32(9)).unwrap();
    assert_eq!(h, tagged_hash(9));
}

#[test]
fn decode_hash_rejects_wrong_length() {
    assert_eq!(decode_hash(&vec![0u8; 31]), Err(ChainError::Fatal));
    assert_eq!(decode_hash(&vec![0u8; 33]), Err(ChainError::Fatal));
    assert_eq!(decode_hash(&Vec::new()), Err(ChainError::Fatal));
}

#[test]
fn normalize_gas_payment_exact() {
    let raw = RawEvent {
        tx_hash: byte32(1),
        log_index: 3,
        block_number: 77,
        payload: RawPayload::GasPayment {
            message_id: byte32(2),
            amount: 12345,
            payer: byte32(4),
        },
    };
    let row = normalize_event(6, &raw, 1_700_000_000).unwrap();
    assert_eq!(
        row,
        NormalizedEvent {
            origin_chain_id: 6,
            tx_hash: tagged_hash(1),
            log_index: 3,
            block_number: 77,
            block_timestamp: 1_700_000_000,
            payload: EventPayload::GasPayment {
                message_id: tagged_hash(2),
                amount: 12345,
                payer: tagged_hash(4),
            },
        }
    );
}

#[test]
fn normalize_dispatch_exact() {
    let raw = RawEvent {
        tx_hash: byte32(1),
        log_index: 0,
        block_number: 5,
        payload: RawPayload::Dispatch {
            message_id: byte32(2),
            origin_domain: 6,
            destination_domain: 7,
            sender: byte32(3),
            recipient: byte32(4),
        },
    };
    let row = normalize_event(6, &raw, 42).unwrap();
    assert_eq!(
        row.payload,
        EventPayload::Dispatch {
            message_id: tagged_hash(2),
            origin_domain: 6,
            destination_domain: 7,
            sender: tagged_hash(3),
            recipient: tagged_hash(4),
        }
    );
    assert_eq!(row.block_timestamp, 42);
}

#[test]
fn normalize_attestation_exact() {
    let raw = RawEvent {
        tx_hash: byte32(8),
        log_index: 1,
        block_number: 9,
        payload: RawPayload::Attestation {
            root: byte32(5),
            index: 11,
            validator: byte32(6),
        },
    };
    let row = normalize_event(2, &raw, 100).unwrap();
    assert_eq!(
        row.payload,
        EventPayload::Attestation { root: tagged_hash(5), index: 11, validator: tagged_hash(6) }
    );
}

#[test]
fn normalize_rejects_malformed_identifier() {
    let raw = RawEvent {
        tx_hash: byte32(1),
        log_index: 0,
        block_number: 5,
        payload: RawPayload::GasPayment {
            message_id: vec![0u8; 31],
            amount: 1,
            payer: byte32(4),
        },
    };
    assert_eq!(normalize_event(1, &raw, 0), Err(ChainError::Fatal));
}

#[test]
fn normalize_batch_rejects_whole_batch_on_one_malformed_event() {
    let good = RawEvent {
        tx_hash: byte32(1),
        log_index: 0,
        block_number: 5,
        payload: RawPayload::GasPayment { message_id: byte32(2), amount: 1, payer: byte32(4) },
    };
    let bad = RawEvent {
        tx_hash: vec![0u8; 30],
        log_index: 1,
        block_number: 5,
        payload: RawPayload::GasPayment { message_id: byte32(2), amount: 1, payer: byte32(4) },
    };
    let table = vec![BlockTimestamp { block_number: 5, timestamp: 50 }];
    assert_eq!(normalize_batch(1, &vec![good, bad], &table), Err(ChainError::Fatal));
}

#[test]
fn normalize_batch_rejects_missing_timestamp() {
    let raw = RawEvent {
        tx_hash: byte32(1),
        log_index: 0,
        block_number: 6,
        payload: RawPayload::GasPayment { message_id: byte32(2), amount: 1, payer: byte32(4) },
    };
    let table = vec![BlockTimestamp { block_number: 5, timestamp: 50 }];
    assert_eq!(normalize_batch(1, &vec![raw], &table), Err(ChainError::Fatal));
}

#[test]
fn normalize_batch_empty_is_ok() {
    let rows = normalize_batch(1, &Vec::new(), &Vec::new()).unwrap();
    assert!(rows.is_empty());
}

#[test]
fn normalize_batch_attaches_timestamps_per_block() {
    let table = vec![
        BlockTimestamp { block_number: 5, timestamp: 50 },
        BlockTimestamp { block_number: 6, timestamp: 60 },
    ];
    let mk = |block: u64, log_index: u64| RawEvent {
        tx_hash: byte32(1),
        log_index,
        block_number: block,
        payload: RawPayload::GasPayment { message_id: byte32(2), amount: 1, payer: byte32(4) },
    };
    let rows = normalize_batch(1, &vec![mk(5, 0), mk(6, 1)], &table).unwrap();
    assert_eq!(rows.len(), 2);
    assert_eq!(rows[0].block_timestamp, 50);
    assert_eq!(rows[1].block_timestamp, 60);
}

#[test]
fn lookup_timestamp_first_match_wins() {
    let table = vec![
        BlockTimestamp { block_number: 5, timestamp: 50 },
        BlockTimestamp { block_number: 5, timestamp: 99 },
    ];
    assert_eq!(lookup_timestamp(&table, 5), Some(50));
    assert_eq!(lookup_timestamp(&table, 7), None);
    assert_eq!(lookup_timestamp(&Vec::new(), 5), None);
}
