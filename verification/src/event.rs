//! Event model: chain-native raw events and their canonical normalized form.

use vstd::prelude::*;

use crate::ids::Hash256;

verus! {

/// The kind of protocol event a scan tracks. Each (chain, kind) pair has its
/// own cursor and advances independently.
#[derive(Clone, Copy, Debug, PartialEq, Eq, Structural)]
pub enum EventKind {
    /// A message left its origin chain's mailbox.
    MessageDispatch,
    /// Someone paid gas on the origin chain for a message's delivery.
    GasPayment,
    /// A validator attested to a checkpoint of the message tree.
    CheckpointAttestation,
}

/// Kind-specific payload of a raw event, still in the chain-native encoding:
/// identifiers are byte strings whose length the normalizer has yet to check.
#[derive(Clone, Debug)]
pub enum RawPayload {
    /// A message dispatch as the chain reported it.
    Dispatch {
        /// Content-derived message identifier, expected 32 bytes.
        message_id: Vec<u8>,
        /// Domain of the chain the message left from.
        origin_domain: u32,
        /// Domain of the chain the message is addressed to.
        destination_domain: u32,
        /// Sender address digest, expected 32 bytes.
        sender: Vec<u8>,
        /// Recipient address digest, expected 32 bytes.
        recipient: Vec<u8>,
    },
    /// A gas payment as the chain reported it.
    GasPayment {
        /// Identifier of the message the payment is for, expected 32 bytes.
        message_id: Vec<u8>,
        /// Paid amount in the chain's base unit.
        amount: u64,
        /// Payer address digest, expected 32 bytes.
        payer: Vec<u8>,
    },
    /// A checkpoint attestation as the chain reported it.
    Attestation {
        /// Attested root of the message tree, expected 32 bytes.
        root: Vec<u8>,
        /// Index of the attested checkpoint.
        index: u64,
        /// Attesting validator's address digest, expected 32 bytes.
        validator: Vec<u8>,
    },
}

/// One event occurrence as a chain adapter reports it: the chain-native
/// payload plus provenance (source transaction, log position, block).
#[derive(Clone, Debug)]
pub struct RawEvent {
    /// Hash of the transaction that emitted the event, expected 32 bytes.
    pub tx_hash: Vec<u8>,
    /// Position of the event within its transaction's logs.
    pub log_index: u64,
    /// Block the transaction landed in.
    pub block_number: u64,
    /// Kind-specific fields.
    pub payload: RawPayload,
}

/// Kind-specific payload in canonical form: every identifier decoded to a
/// fixed-width [`Hash256`].
#[derive(Clone, Copy, Debug, PartialEq, Eq, Structural)]
pub enum EventPayload {
    /// A message left its origin chain's mailbox.
    Dispatch {
        /// Content-derived, globally unique message identifier.
        message_id: Hash256,
        /// Domain of the chain the message left from.
        origin_domain: u32,
        /// Domain of the chain the message is addressed to.
        destination_domain: u32,
        /// Sender address digest.
        sender: Hash256,
        /// Recipient address digest.
        recipient: Hash256,
    },
    /// Gas paid for a message's delivery.
    GasPayment {
        /// Identifier of the message the payment is for.
        message_id: Hash256,
        /// Paid amount in the chain's base unit.
        amount: u64,
        /// Payer address digest.
        payer: Hash256,
    },
    /// A validator attested to a checkpoint.
    Attestation {
        /// Attested root of the message tree.
        root: Hash256,
        /// Index of the attested checkpoint.
        index: u64,
        /// Attesting validator's address digest.
        validator: Hash256,
    },
}

/// One canonical event row. Its identity key is `(tx_hash, log_index)`:
/// re-inserting a row with a key already present is a no-op, which makes
/// persistence idempotent under retries and overlapping windows.
#[derive(Clone, Copy, Debug, PartialEq, Eq, Structural)]
pub struct NormalizedEvent {
    /// Chain the event was observed on.
    pub origin_chain_id: u32,
    /// Hash of the transaction that emitted the event.
    pub tx_hash: Hash256,
    /// Position of the event within its transaction's logs.
    pub log_index: u64,
    /// Block the transaction landed in.
    pub block_number: u64,
    /// Timestamp of that block, resolved per scan window.
    pub block_timestamp: u64,
    /// Kind-specific fields.
    pub payload: EventPayload,
}

impl NormalizedEvent {
    /// The row's identity key.
    pub open spec fn key(self) -> (Hash256, u64) {
        (self.tx_hash, self.log_index)
    }

    /// The kind of this event.
    pub open spec fn kind(self) -> EventKind {
        match self.payload {
            EventPayload::Dispatch { .. } => EventKind::MessageDispatch,
            EventPayload::GasPayment { .. } => EventKind::GasPayment,
            EventPayload::Attestation { .. } => EventKind::CheckpointAttestation,
        }
    }

    /// The message identifier this row concerns, where its kind carries one.
    /// Dispatches and gas payments on different chains and cycles become
    /// joinable through this value.
    pub open spec fn spec_message_id(self) -> Option<Hash256> {
        match self.payload {
            EventPayload::Dispatch { message_id, .. } => Some(message_id),
            EventPayload::GasPayment { message_id, .. } => Some(message_id),
            EventPayload::Attestation { .. } => None,
        }
    }

    /// Returns the message identifier this row concerns, if its kind carries
    /// one.
    pub fn message_id(&self) -> (r: Option<Hash256>)
        ensures
            r == self.spec_message_id(),
    {
        match self.payload {
            EventPayload::Dispatch { message_id, .. } => Some(message_id),
            EventPayload::GasPayment { message_id, .. } => Some(message_id),
            EventPayload::Attestation { .. } => None,
        }
    }
}

} // verus!
