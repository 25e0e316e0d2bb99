//! Canonical fixed-width identifiers.
//!
//! Chains encode hashes, message identifiers and addresses as 32-byte strings.
//! The canonical form packs those bytes big-endian into four machine words, so
//! the rest of the pipeline compares and stores identifiers as plain integers.

use vstd::prelude::*;

use crate::error::ChainError;

verus! {

/// A 256-bit identifier (transaction hash, message identifier, address digest,
/// checkpoint root), stored as four big-endian 64-bit limbs: `w0` holds the
/// most significant eight bytes of the source encoding.
#[derive(Clone, Copy, Debug, PartialEq, Eq, Structural)]
pub struct Hash256 {
    /// Bytes 0..8 of the big-endian encoding.
    pub w0: u64,
    /// Bytes 8..16.
    pub w1: u64,
    /// Bytes 16..24.
    pub w2: u64,
    /// Bytes 24..32.
    pub w3: u64,
}

/// The value of a byte string read as one big-endian unsigned integer.
pub open spec fn be_val(b: Seq<u8>) -> nat
    decreases b.len(),
{
    if b.len() == 0 {
        0
    } else {
        be_val(b.drop_last()) * 256 + b.last() as nat
    }
}

/// 256 raised to the power `n`: the number of distinct byte strings of length
/// `n`, hence the exclusive upper bound of `be_val` on such strings.
pub open spec fn pow256(n: nat) -> nat
    decreases n,
{
    if n == 0 {
        1
    } else {
        256 * pow256((n - 1) as nat)
    }
}

/// A big-endian reading of `n` bytes is below `256^n`.
pub proof fn lemma_be_val_bound(b: Seq<u8>)
    ensures
        be_val(b) < pow256(b.len()),
    decreases b.len(),
{
    if b.len() == 0 {
    } else {
        let head = b.drop_last();
        lemma_be_val_bound(head);
        assert(be_val(head) * 256 + b.last() < pow256(head.len()) * 256) by (nonlinear_arith)
            requires
                be_val(head) < pow256(head.len()),
                b.last() < 256,
        ;
    }
}

/// The identifier denoted by a 32-byte big-endian encoding.
pub open spec fn hash_from_bytes(b: Seq<u8>) -> Hash256
    recommends
        b.len() == 32,
{
    Hash256 {
        w0: be_val(b.subrange(0, 8)) as u64,
        w1: be_val(b.subrange(8, 16)) as u64,
        w2: be_val(b.subrange(16, 24)) as u64,
        w3: be_val(b.subrange(24, 32)) as u64,
    }
}

/// Reads eight bytes at `start` as one big-endian word.
fn be_word(bytes: &Vec<u8>, start: usize) -> (r: u64)
    requires
        start + 8 <= bytes@.len(),
    ensures
        r == be_val(bytes@.subrange(start as int, start as int + 8)),
{
    let n: usize = bytes.len();
    let mut w: u64 = 0;
    let mut i: usize = 0;
    while i < 8
        invariant
            i <= 8,
            start + 8 <= n,
            n == bytes@.len(),
            w == be_val(bytes@.subrange(start as int, start as int + i)),
            w < pow256(i as nat),
        decreases 8 - i,
    {
        proof {
            let prefix = bytes@.subrange(start as int, start as int + i);
            let next = bytes@.subrange(start as int, start as int + i + 1);
            assert(next.drop_last() =~= prefix);
            lemma_pow256_words();
            assert(pow256((i + 1) as nat) == 256 * pow256(i as nat));
            assert(w * 256 + bytes@[start + i] < pow256(i as nat) * 256) by (nonlinear_arith)
                requires
                    w < pow256(i as nat),
                    bytes@[start + i] < 256,
            ;
            assert(pow256(i as nat) <= pow256(7)) by {
                lemma_pow256_le(i as nat, 7);
            }
            assert(w * 256 <= (pow256(7) - 1) * 256) by (nonlinear_arith)
                requires
                    w < pow256(7),
            ;
        }
        w = w * 256 + (bytes[start + i] as u64);
        i = i + 1;
    }
    proof {
        assert(bytes@.subrange(start as int, start as int + 8) =~= bytes@.subrange(
            start as int,
            start as int + i,
        ));
    }
    w
}

/// The concrete word-width values of `pow256`.
proof fn lemma_pow256_words()
    ensures
        pow256(7) == 0x100000000000000,
        pow256(8) == 0x10000000000000000,
{
    assert(pow256(0) == 1);
    assert(pow256(1) == 256 * pow256(0));
    assert(pow256(2) == 256 * pow256(1));
    assert(pow256(3) == 256 * pow256(2));
    assert(pow256(4) == 256 * pow256(3));
    assert(pow256(5) == 256 * pow256(4));
    assert(pow256(6) == 256 * pow256(5));
    assert(pow256(7) == 256 * pow256(6));
    assert(pow256(8) == 256 * pow256(7));
}

/// `pow256` is monotone in its exponent.
proof fn lemma_pow256_le(m: nat, n: nat)
    requires
        m <= n,
    ensures
        pow256(m) <= pow256(n),
    decreases n,
{
    if m < n {
        lemma_pow256_le(m, (n - 1) as nat);
        assert(pow256(n) == 256 * pow256((n - 1) as nat));
    }
}

/// Decodes a chain-native 32-byte identifier into its canonical form.
///
/// An encoding of any other length is structurally invalid: it is rejected
/// loudly as a fatal chain error, never silently dropped, since a dropped
/// event would create an undetectable gap in the indexed record.
pub fn decode_hash(bytes: &Vec<u8>) -> (r: Result<Hash256, ChainError>)
    ensures
        bytes@.len() == 32 ==> r == Ok::<Hash256, ChainError>(hash_from_bytes(bytes@)),
        bytes@.len() != 32 ==> r == Err::<Hash256, ChainError>(ChainError::Fatal),
{
    if bytes.len() != 32 {
        return Err(ChainError::Fatal);
    }
    let w0 = be_word(bytes, 0);
    let w1 = be_word(bytes, 8);
    let w2 = be_word(bytes, 16);
    let w3 = be_word(bytes, 24);
    proof {
        lemma_be_val_bound(bytes@.subrange(0, 8));
        lemma_be_val_bound(bytes@.subrange(8, 16));
        lemma_be_val_bound(bytes@.subrange(16, 24));
        lemma_be_val_bound(bytes@.subrange(24, 32));
        lemma_pow256_words();
    }
    Ok(Hash256 { w0, w1, w2, w3 })
}

} // verus!
