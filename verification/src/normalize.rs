//! Normalization of chain-native raw events into the canonical schema.
//!
//! Normalization is a pure function of the raw event, the observing chain and
//! the block-timestamp table the adapter resolved for the scan window. An
//! event whose encoding is structurally invalid is rejected loudly as a fatal
//! chain error — never silently dropped, since a silent drop would create an
//! undetectable gap in the indexed record.

use vstd::prelude::*;

use crate::error::ChainError;
use crate::event::EventPayload;
use crate::event::NormalizedEvent;
use crate::event::RawEvent;
use crate::event::RawPayload;
use crate::ids::decode_hash;
use crate::ids::hash_from_bytes;

verus! {

/// The timestamp of one block, as resolved through the adapter's
/// block-metadata lookup (batched per scan window to limit round trips).
#[derive(Clone, Copy, Debug, PartialEq, Eq, Structural)]
pub struct BlockTimestamp {
    /// The block this entry describes.
    pub block_number: u64,
    /// That block's timestamp.
    pub timestamp: u64,
}

/// The timestamp the table assigns to `block`: the first matching entry.
pub open spec fn ts_lookup(table: Seq<BlockTimestamp>, block: u64) -> Option<u64>
    decreases table.len(),
{
    if table.len() == 0 {
        None
    } else if table.first().block_number == block {
        Some(table.first().timestamp)
    } else {
        ts_lookup(table.drop_first(), block)
    }
}

/// The looked-up timestamp where one exists; only meaningful under
/// `ts_lookup(table, block) is Some`.
pub open spec fn ts_lookup_val(table: Seq<BlockTimestamp>, block: u64) -> u64 {
    match ts_lookup(table, block) {
        Some(t) => t,
        None => 0,
    }
}

/// Finds the timestamp the table assigns to `block`.
pub fn lookup_timestamp(table: &Vec<BlockTimestamp>, block: u64) -> (r: Option<u64>)
    ensures
        r == ts_lookup(table@, block),
{
    let n = table.len();
    let mut i: usize = 0;
    proof {
        assert(table@.skip(0) =~= table@);
    }
    while i < n
        invariant
            i <= n,
            n == table@.len(),
            ts_lookup(table@, block) == ts_lookup(table@.skip(i as int), block),
        decreases n - i,
    {
        proof {
            assert(table@.skip(i as int).first() == table@[i as int]);
            assert(table@.skip(i as int).drop_first() =~= table@.skip(i as int + 1));
        }
        if table[i].block_number == block {
            return Some(table[i].timestamp);
        }
        i = i + 1;
    }
    proof {
        assert(table@.skip(n as int).len() == 0);
    }
    None
}

/// Whether a raw event's encoding is structurally valid: every fixed-width
/// identifier field holds exactly 32 bytes.
pub open spec fn raw_well_formed(raw: RawEvent) -> bool {
    &&& raw.tx_hash@.len() == 32
    &&& match raw.payload {
        RawPayload::Dispatch { message_id, sender, recipient, .. } => {
            &&& message_id@.len() == 32
            &&& sender@.len() == 32
            &&& recipient@.len() == 32
        },
        RawPayload::GasPayment { message_id, payer, .. } => {
            &&& message_id@.len() == 32
            &&& payer@.len() == 32
        },
        RawPayload::Attestation { root, validator, .. } => {
            &&& root@.len() == 32
            &&& validator@.len() == 32
        },
    }
}

/// The canonical row a structurally valid raw event denotes; only meaningful
/// under `raw_well_formed(raw)`.
pub open spec fn normalize_spec(chain_id: u32, raw: RawEvent, timestamp: u64) -> NormalizedEvent
    recommends
        raw_well_formed(raw),
{
    NormalizedEvent {
        origin_chain_id: chain_id,
        tx_hash: hash_from_bytes(raw.tx_hash@),
        log_index: raw.log_index,
        block_number: raw.block_number,
        block_timestamp: timestamp,
        payload: match raw.payload {
            RawPayload::Dispatch {
                message_id,
                origin_domain,
                destination_domain,
                sender,
                recipient,
            } => EventPayload::Dispatch {
                message_id: hash_from_bytes(message_id@),
                origin_domain,
                destination_domain,
                sender: hash_from_bytes(sender@),
                recipient: hash_from_bytes(recipient@),
            },
            RawPayload::GasPayment { message_id, amount, payer } => EventPayload::GasPayment {
                message_id: hash_from_bytes(message_id@),
                amount,
                payer: hash_from_bytes(payer@),
            },
            RawPayload::Attestation { root, index, validator } => EventPayload::Attestation {
                root: hash_from_bytes(root@),
                index,
                validator: hash_from_bytes(validator@),
            },
        },
    }
}

/// Converts one raw event into its canonical row, given the timestamp of the
/// block it landed in. A structurally invalid encoding is a fatal chain error.
pub fn normalize_event(chain_id: u32, raw: &RawEvent, timestamp: u64) -> (r: Result<
    NormalizedEvent,
    ChainError,
>)
    ensures
        raw_well_formed(*raw) ==> r == Ok::<NormalizedEvent, ChainError>(
            normalize_spec(chain_id, *raw, timestamp),
        ),
        !raw_well_formed(*raw) ==> r == Err::<NormalizedEvent, ChainError>(ChainError::Fatal),
{
    let tx_hash = match decode_hash(&raw.tx_hash) {
        Ok(h) => h,
        Err(e) => {
            return Err(e);
        },
    };
    let payload = match &raw.payload {
        RawPayload::Dispatch { message_id, origin_domain, destination_domain, sender, recipient } => {
            let message_id = match decode_hash(message_id) {
                Ok(h) => h,
                Err(e) => {
                    return Err(e);
                },
            };
            let sender = match decode_hash(sender) {
                Ok(h) => h,
                Err(e) => {
                    return Err(e);
                },
            };
            let recipient = match decode_hash(recipient) {
                Ok(h) => h,
                Err(e) => {
                    return Err(e);
                },
            };
            EventPayload::Dispatch {
                message_id,
                origin_domain: *origin_domain,
                destination_domain: *destination_domain,
                sender,
                recipient,
            }
        },
        RawPayload::GasPayment { message_id, amount, payer } => {
            let message_id = match decode_hash(message_id) {
                Ok(h) => h,
                Err(e) => {
                    return Err(e);
                },
            };
            let payer = match decode_hash(payer) {
                Ok(h) => h,
                Err(e) => {
                    return Err(e);
                },
            };
            EventPayload::GasPayment { message_id, amount: *amount, payer }
        },
        RawPayload::Attestation { root, index, validator } => {
            let root = match decode_hash(root) {
                Ok(h) => h,
                Err(e) => {
                    return Err(e);
                },
            };
            let validator = match decode_hash(validator) {
                Ok(h) => h,
                Err(e) => {
                    return Err(e);
                },
            };
            EventPayload::Attestation { root, index: *index, validator }
        },
    };
    Ok(
        NormalizedEvent {
            origin_chain_id: chain_id,
            tx_hash,
            log_index: raw.log_index,
            block_number: raw.block_number,
            block_timestamp: timestamp,
            payload,
        },
    )
}

/// Whether a whole fetched batch can be normalized: every event is
/// structurally valid and the timestamp table covers every block it names.
pub open spec fn batch_ok(raws: Seq<RawEvent>, table: Seq<BlockTimestamp>) -> bool {
    forall|i: int|
        0 <= i < raws.len() ==> raw_well_formed(#[trigger] raws[i]) && ts_lookup(
            table,
            raws[i].block_number,
        ) is Some
}

/// The canonical rows a batch denotes; only meaningful under
/// `batch_ok(raws, table)`.
pub open spec fn normalized_of(
    chain_id: u32,
    raws: Seq<RawEvent>,
    table: Seq<BlockTimestamp>,
) -> Seq<NormalizedEvent>
    recommends
        batch_ok(raws, table),
{
    Seq::new(
        raws.len(),
        |i: int| normalize_spec(chain_id, raws[i], ts_lookup_val(table, raws[i].block_number)),
    )
}

/// Normalizes a whole fetched batch. Succeeds exactly when every event is
/// structurally valid and the timestamp table covers every block named; any
/// defect is a fatal chain error for the scan, so that no event is silently
/// dropped and no partial batch is handed on.
pub fn normalize_batch(chain_id: u32, raws: &Vec<RawEvent>, table: &Vec<BlockTimestamp>) -> (r:
    Result<Vec<NormalizedEvent>, ChainError>)
    ensures
        match r {
            Ok(rows) => batch_ok(raws@, table@) && rows@ == normalized_of(chain_id, raws@, table@),
            Err(e) => !batch_ok(raws@, table@) && e == ChainError::Fatal,
        },
{
    let n = raws.len();
    let mut rows: Vec<NormalizedEvent> = Vec::new();
    let mut i: usize = 0;
    while i < n
        invariant
            i <= n,
            n == raws@.len(),
            rows@.len() == i,
            forall|j: int|
                0 <= j < i ==> raw_well_formed(#[trigger] raws@[j]) && ts_lookup(
                    table@,
                    raws@[j].block_number,
                ) is Some,
            forall|j: int|
                0 <= j < i ==> #[trigger] rows@[j] == normalize_spec(
                    chain_id,
                    raws@[j],
                    ts_lookup_val(table@, raws@[j].block_number),
                ),
        decreases n - i,
    {
        let timestamp = match lookup_timestamp(table, raws[i].block_number) {
            Some(t) => t,
            None => {
                return Err(ChainError::Fatal);
            },
        };
        let row = match normalize_event(chain_id, &raws[i], timestamp) {
            Ok(row) => row,
            Err(_) => {
                return Err(ChainError::Fatal);
            },
        };
        rows.push(row);
        i = i + 1;
    }
    proof {
        assert(rows@ =~= normalized_of(chain_id, raws@, table@));
    }
    Ok(rows)
}

} // verus!
