//! The reconciliation store: canonical event rows plus per-(chain, kind)
//! cursors.
//!
//! The store is the only state shared between chain instances. Its two write
//! paths are idempotent by construction: `upsert_events` is insert-or-ignore
//! keyed by `(tx_hash, log_index)`, so replays from retries or overlapping
//! windows add nothing; cursor writes are monotonic-only, a lower value is
//! rejected rather than silently applied. `commit` couples a batch write with
//! a cursor advance so that either both land or neither does.

use vstd::prelude::*;

use crate::error::StoreError;
use crate::event::EventKind;
use crate::event::NormalizedEvent;
use crate::ids::Hash256;

verus! {

/// The persisted high-water mark of one (chain, kind) scan: the last block
/// whose events have been fully indexed.
#[derive(Clone, Copy, Debug, PartialEq, Eq, Structural)]
pub struct CursorEntry {
    /// Chain this cursor belongs to.
    pub chain_id: u32,
    /// Event kind this cursor belongs to.
    pub kind: EventKind,
    /// Last fully indexed block, inclusive.
    pub last_indexed_block: u64,
}

/// Whether some row in `rows` already carries the identity key `k`.
pub open spec fn contains_key(rows: Seq<NormalizedEvent>, k: (Hash256, u64)) -> bool {
    exists|i: int| 0 <= i < rows.len() && (#[trigger] rows[i]).key() == k
}

/// Insert-or-ignore of a single row: a row whose key is already present
/// changes nothing.
pub open spec fn insert_row(rows: Seq<NormalizedEvent>, e: NormalizedEvent) -> Seq<
    NormalizedEvent,
> {
    if contains_key(rows, e.key()) {
        rows
    } else {
        rows.push(e)
    }
}

/// Insert-or-ignore of a whole batch, row by row in batch order.
pub open spec fn upsert_seq(rows: Seq<NormalizedEvent>, batch: Seq<NormalizedEvent>) -> Seq<
    NormalizedEvent,
>
    decreases batch.len(),
{
    if batch.len() == 0 {
        rows
    } else {
        insert_row(upsert_seq(rows, batch.drop_last()), batch.last())
    }
}

/// No two rows share an identity key.
pub open spec fn keys_unique(rows: Seq<NormalizedEvent>) -> bool {
    forall|i: int, j: int|
        0 <= i < j < rows.len() ==> (#[trigger] rows[i]).key() != (#[trigger] rows[j]).key()
}

/// The cursor value the entry list assigns to `(chain, kind)`: the first
/// matching entry.
pub open spec fn cursor_lookup(cs: Seq<CursorEntry>, chain: u32, kind: EventKind) -> Option<u64>
    decreases cs.len(),
{
    if cs.len() == 0 {
        None
    } else if cs.first().chain_id == chain && cs.first().kind == kind {
        Some(cs.first().last_indexed_block)
    } else {
        cursor_lookup(cs.drop_first(), chain, kind)
    }
}

/// No two entries describe the same (chain, kind) pair.
pub open spec fn cursors_unique(cs: Seq<CursorEntry>) -> bool {
    forall|i: int, j: int|
        0 <= i < j < cs.len() ==> !((#[trigger] cs[i]).chain_id == (#[trigger] cs[j]).chain_id
            && cs[i].kind == cs[j].kind)
}

/// The rows among `rows` that concern message `m`, in stored order. Join
/// structure is realized as this read-side grouping, not as a separately
/// mutated table, so the write path stays append-mostly.
pub open spec fn rows_with_message(rows: Seq<NormalizedEvent>, m: Hash256) -> Seq<NormalizedEvent>
    decreases rows.len(),
{
    if rows.len() == 0 {
        Seq::empty()
    } else {
        let rest = rows_with_message(rows.drop_last(), m);
        if rows.last().spec_message_id() == Some(m) {
            rest.push(rows.last())
        } else {
            rest
        }
    }
}

/// The rows among `rows` observed on chain `chain_id` within blocks `from`
/// through `to` inclusive, in stored order.
pub open spec fn rows_in_range(
    rows: Seq<NormalizedEvent>,
    chain_id: u32,
    from: u64,
    to: u64,
) -> Seq<NormalizedEvent>
    decreases rows.len(),
{
    if rows.len() == 0 {
        Seq::empty()
    } else {
        let rest = rows_in_range(rows.drop_last(), chain_id, from, to);
        if rows.last().origin_chain_id == chain_id && from <= rows.last().block_number
            && rows.last().block_number <= to {
            rest.push(rows.last())
        } else {
            rest
        }
    }
}

/// If no entry of `cs` matches `(chain, kind)`, the lookup finds nothing.
proof fn lemma_lookup_none(cs: Seq<CursorEntry>, chain: u32, kind: EventKind)
    requires
        forall|j: int|
            0 <= j < cs.len() ==> !((#[trigger] cs[j]).chain_id == chain && cs[j].kind == kind),
    ensures
        cursor_lookup(cs, chain, kind) is None,
    decreases cs.len(),
{
    if cs.len() > 0 {
        assert(forall|j: int|
            0 <= j < cs.drop_first().len() ==> #[trigger] cs.drop_first()[j] == cs[j + 1]);
        lemma_lookup_none(cs.drop_first(), chain, kind);
    }
}

/// The lookup returns the entry at the first matching index.
proof fn lemma_lookup_found(cs: Seq<CursorEntry>, idx: int)
    requires
        0 <= idx < cs.len(),
        forall|j: int|
            0 <= j < idx ==> !((#[trigger] cs[j]).chain_id == cs[idx].chain_id && cs[j].kind
                == cs[idx].kind),
    ensures
        cursor_lookup(cs, cs[idx].chain_id, cs[idx].kind) == Some(cs[idx].last_indexed_block),
    decreases idx,
{
    if idx > 0 {
        assert(forall|j: int|
            0 <= j < cs.drop_first().len() ==> #[trigger] cs.drop_first()[j] == cs[j + 1]);
        lemma_lookup_found(cs.drop_first(), idx - 1);
    }
}

/// Overwriting the value of the entry at a first-matching index moves the
/// lookup of that key to the new value and leaves every other key's lookup
/// unchanged.
proof fn lemma_lookup_update(cs: Seq<CursorEntry>, idx: int, v: u64, chain: u32, kind: EventKind)
    requires
        0 <= idx < cs.len(),
        forall|j: int|
            0 <= j < idx ==> !((#[trigger] cs[j]).chain_id == cs[idx].chain_id && cs[j].kind
                == cs[idx].kind),
    ensures
        ({
            let up = cs.update(
                idx,
                CursorEntry {
                    chain_id: cs[idx].chain_id,
                    kind: cs[idx].kind,
                    last_indexed_block: v,
                },
            );
            if chain == cs[idx].chain_id && kind == cs[idx].kind {
                cursor_lookup(up, chain, kind) == Some(v)
            } else {
                cursor_lookup(up, chain, kind) == cursor_lookup(cs, chain, kind)
            }
        }),
    decreases idx,
{
    let e = CursorEntry { chain_id: cs[idx].chain_id, kind: cs[idx].kind, last_indexed_block: v };
    let up = cs.update(idx, e);
    if idx == 0 {
        if !(chain == cs[idx].chain_id && kind == cs[idx].kind) {
            assert(up.drop_first() =~= cs.drop_first());
        }
    } else {
        assert(up.first() == cs.first());
        assert(up.drop_first() =~= cs.drop_first().update(idx - 1, e));
        assert(forall|j: int|
            0 <= j < cs.drop_first().len() ==> #[trigger] cs.drop_first()[j] == cs[j + 1]);
        lemma_lookup_update(cs.drop_first(), idx - 1, v, chain, kind);
    }
}

/// Appending an entry for a key not yet present serves lookups of that key
/// from the new entry and leaves every other key's lookup unchanged.
proof fn lemma_lookup_push(cs: Seq<CursorEntry>, e: CursorEntry, chain: u32, kind: EventKind)
    requires
        forall|j: int|
            0 <= j < cs.len() ==> !((#[trigger] cs[j]).chain_id == e.chain_id && cs[j].kind
                == e.kind),
    ensures
        chain == e.chain_id && kind == e.kind ==> cursor_lookup(cs.push(e), chain, kind) == Some(
            e.last_indexed_block,
        ),
        !(chain == e.chain_id && kind == e.kind) ==> cursor_lookup(cs.push(e), chain, kind)
            == cursor_lookup(cs, chain, kind),
    decreases cs.len(),
{
    if cs.len() == 0 {
        assert(cs.push(e).first() == e);
        assert(cs.push(e).drop_first() =~= Seq::<CursorEntry>::empty());
        assert(cursor_lookup(Seq::<CursorEntry>::empty(), chain, kind) is None);
        assert(cursor_lookup(cs, chain, kind) is None);
    } else {
        assert(cs.push(e).first() == cs.first());
        assert(cs.push(e).drop_first() =~= cs.drop_first().push(e));
        assert(forall|j: int|
            0 <= j < cs.drop_first().len() ==> #[trigger] cs.drop_first()[j] == cs[j + 1]);
        lemma_lookup_push(cs.drop_first(), e, chain, kind);
    }
}

/// A key present in `rows` is still present after an insert-or-ignore.
proof fn lemma_insert_preserves_key(rows: Seq<NormalizedEvent>, e: NormalizedEvent, k: (
    Hash256,
    u64,
))
    requires
        contains_key(rows, k),
    ensures
        contains_key(insert_row(rows, e), k),
{
    let i = choose|i: int| 0 <= i < rows.len() && (#[trigger] rows[i]).key() == k;
    if !contains_key(rows, e.key()) {
        assert(rows.push(e)[i] == rows[i]);
    }
}

/// After a batch upsert, the key of every batch row is present.
pub proof fn lemma_upsert_covers_batch(rows: Seq<NormalizedEvent>, batch: Seq<NormalizedEvent>)
    ensures
        forall|i: int|
            0 <= i < batch.len() ==> contains_key(
                upsert_seq(rows, batch),
                (#[trigger] batch[i]).key(),
            ),
    decreases batch.len(),
{
    if batch.len() > 0 {
        let head = batch.drop_last();
        let prev = upsert_seq(rows, head);
        lemma_upsert_covers_batch(rows, head);
        assert forall|i: int| 0 <= i < batch.len() implies contains_key(
            upsert_seq(rows, batch),
            (#[trigger] batch[i]).key(),
        ) by {
            if i < batch.len() - 1 {
                assert(batch[i] == head[i]);
                lemma_insert_preserves_key(prev, batch.last(), head[i].key());
            } else {
                if !contains_key(prev, batch.last().key()) {
                    assert(prev.push(batch.last()).last() == batch.last());
                } else {
                    assert(insert_row(prev, batch.last()) == prev);
                }
            }
        }
    }
}

/// Upserting a batch whose every key is already present changes nothing.
pub proof fn lemma_upsert_noop(rows: Seq<NormalizedEvent>, batch: Seq<NormalizedEvent>)
    requires
        forall|i: int| 0 <= i < batch.len() ==> contains_key(rows, (#[trigger] batch[i]).key()),
    ensures
        upsert_seq(rows, batch) == rows,
    decreases batch.len(),
{
    if batch.len() > 0 {
        lemma_upsert_noop(rows, batch.drop_last());
    }
}

/// Idempotence of persistence: upserting the same batch a second time leaves
/// the row set exactly as the first upsert left it. Together with the
/// range-idempotence of `fetch_events` and normalization being a pure
/// function, re-running fetch, normalize and upsert for a block range any
/// number of times yields the same rows as running it once.
pub proof fn lemma_upsert_idempotent(rows: Seq<NormalizedEvent>, batch: Seq<NormalizedEvent>)
    ensures
        upsert_seq(upsert_seq(rows, batch), batch) == upsert_seq(rows, batch),
{
    lemma_upsert_covers_batch(rows, batch);
    lemma_upsert_noop(upsert_seq(rows, batch), batch);
}

/// The read-side grouping by message identifier holds exactly the rows that
/// carry that identifier, whatever order and whatever commits produced them.
pub proof fn lemma_rows_with_message_exact(
    rows: Seq<NormalizedEvent>,
    m: Hash256,
    e: NormalizedEvent,
)
    ensures
        rows_with_message(rows, m).contains(e) <==> rows.contains(e) && e.spec_message_id()
            == Some(m),
    decreases rows.len(),
{
    if rows.len() > 0 {
        let head = rows.drop_last();
        lemma_rows_with_message_exact(head, m, e);
        let rest = rows_with_message(head, m);
        if rows.last().spec_message_id() == Some(m) {
            assert(rows_with_message(rows, m) == rest.push(rows.last()));
            assert(rest.push(rows.last()).contains(e) <==> rest.contains(e) || e
                == rows.last()) by {
                let p = rest.push(rows.last());
                if p.contains(e) {
                    let i = choose|i: int| 0 <= i < p.len() && p[i] == e;
                    if i < rest.len() {
                        assert(rest[i] == e);
                    }
                }
                if rest.contains(e) {
                    let i = choose|i: int| 0 <= i < rest.len() && rest[i] == e;
                    assert(p[i] == e);
                }
                assert(p[rest.len() as int] == rows.last());
            }
        }
        assert(rows.contains(e) <==> head.contains(e) || e == rows.last()) by {
            if rows.contains(e) {
                let i = choose|i: int| 0 <= i < rows.len() && rows[i] == e;
                if i < rows.len() - 1 {
                    assert(head[i] == e);
                }
            }
            if head.contains(e) {
                let i = choose|i: int| 0 <= i < head.len() && head[i] == e;
                assert(rows[i] == e);
            }
            if e == rows.last() {
                assert(rows[rows.len() - 1] == e);
            }
        }
    }
}

/// Cross-chain join correctness: a dispatch row and a gas-payment row that
/// carry the same message identifier — possibly written by different chain
/// instances, in different commits, in either order — both appear when the
/// rows are grouped by that identifier. Only membership matters, so commit
/// order cannot affect the join.
pub proof fn lemma_join_groups_by_message(
    rows: Seq<NormalizedEvent>,
    m: Hash256,
    dispatch: NormalizedEvent,
    payment: NormalizedEvent,
)
    requires
        rows.contains(dispatch),
        rows.contains(payment),
        dispatch.spec_message_id() == Some(m),
        payment.spec_message_id() == Some(m),
    ensures
        rows_with_message(rows, m).contains(dispatch),
        rows_with_message(rows, m).contains(payment),
{
    lemma_rows_with_message_exact(rows, m, dispatch);
    lemma_rows_with_message_exact(rows, m, payment);
}

/// The shared reconciliation store: one row per normalized event, plus one
/// cursor per (chain, kind) scan.
pub struct Store {
    rows: Vec<NormalizedEvent>,
    cursors: Vec<CursorEntry>,
}

impl Store {
    /// The stored rows, in insertion order.
    pub closed spec fn spec_rows(self) -> Seq<NormalizedEvent> {
        self.rows@
    }

    /// The persisted cursor entries, in creation order.
    pub closed spec fn spec_cursors(self) -> Seq<CursorEntry> {
        self.cursors@
    }

    /// The cursor persisted for `(chain, kind)`, if any.
    pub closed spec fn spec_cursor(self, chain: u32, kind: EventKind) -> Option<u64> {
        cursor_lookup(self.cursors@, chain, kind)
    }

    /// Well-formedness: row keys and cursor keys are unique.
    pub closed spec fn inv(self) -> bool {
        &&& keys_unique(self.rows@)
        &&& cursors_unique(self.cursors@)
    }

    /// An empty store.
    pub fn new() -> (r: Store)
        ensures
            r.inv(),
            r.spec_rows() == Seq::<NormalizedEvent>::empty(),
            forall|c: u32, k: EventKind| r.spec_cursor(c, k) is None,
    {
        let r = Store { rows: Vec::new(), cursors: Vec::new() };
        proof {
            assert(forall|c: u32, k: EventKind| cursor_lookup(r.cursors@, c, k) is None);
        }
        r
    }

    /// How many rows the store holds.
    pub fn row_count(&self) -> (r: usize)
        ensures
            r == self.spec_rows().len(),
    {
        self.rows.len()
    }

    /// The row at `i`, in insertion order.
    pub fn row_at(&self, i: usize) -> (r: &NormalizedEvent)
        requires
            i < self.spec_rows().len(),
        ensures
            *r == self.spec_rows()[i as int],
    {
        &self.rows[i]
    }

    /// Whether a row with key `(tx_hash, log_index)` is already stored.
    pub fn has_key(&self, tx_hash: &Hash256, log_index: u64) -> (r: bool)
        ensures
            r == contains_key(self.spec_rows(), (*tx_hash, log_index)),
    {
        let n = self.rows.len();
        let mut i: usize = 0;
        while i < n
            invariant
                i <= n,
                n == self.rows@.len(),
                forall|j: int| 0 <= j < i ==> (#[trigger] self.rows@[j]).key() != (*tx_hash, log_index),
            decreases n - i,
        {
            let row = &self.rows[i];
            if row.tx_hash == *tx_hash && row.log_index == log_index {
                assert(self.rows@[i as int].key() == (*tx_hash, log_index));
                return true;
            }
            i = i + 1;
        }
        false
    }

    /// Inserts every batch row whose identity key is not yet present and
    /// ignores the rest. Replays from retries or overlapping windows are
    /// therefore harmless: the resulting rows are exactly `upsert_seq` of the
    /// old rows and the batch.
    pub fn upsert_events(&mut self, batch: &Vec<NormalizedEvent>)
        requires
            old(self).inv(),
        ensures
            final(self).inv(),
            final(self).spec_rows() == upsert_seq(old(self).spec_rows(), batch@),
            final(self).spec_cursors() == old(self).spec_cursors(),
    {
        let n = batch.len();
        let mut i: usize = 0;
        while i < n
            invariant
                i <= n,
                n == batch@.len(),
                keys_unique(self.rows@),
                self.rows@ == upsert_seq(old(self).rows@, batch@.take(i as int)),
                self.cursors@ == old(self).cursors@,
            decreases n - i,
        {
            proof {
                assert(batch@.take(i as int + 1).drop_last() =~= batch@.take(i as int));
                assert(batch@.take(i as int + 1).last() == batch@[i as int]);
            }
            let e = &batch[i];
            if !self.has_key(&e.tx_hash, e.log_index) {
                proof {
                    let cur = self.rows@;
                    assert forall|a: int, b: int| 0 <= a < b < cur.push(batch@[i as int]).len()
                        implies (#[trigger] cur.push(batch@[i as int])[a]).key() != (
                    #[trigger] cur.push(batch@[i as int])[b]).key() by {
                        if b < cur.len() {
                        } else {
                            assert(cur.push(batch@[i as int])[a] == cur[a]);
                            assert(!contains_key(cur, batch@[i as int].key()));
                        }
                    }
                }
                self.rows.push(e.clone());
            }
            i = i + 1;
        }
        proof {
            assert(batch@.take(n as int) =~= batch@);
        }
    }

    /// Reads the cursor persisted for `(chain, kind)`.
    pub fn get_cursor(&self, chain: u32, kind: EventKind) -> (r: Option<u64>)
        ensures
            r == self.spec_cursor(chain, kind),
    {
        let n = self.cursors.len();
        let mut i: usize = 0;
        proof {
            assert(self.cursors@.skip(0) =~= self.cursors@);
        }
        while i < n
            invariant
                i <= n,
                n == self.cursors@.len(),
                cursor_lookup(self.cursors@, chain, kind) == cursor_lookup(
                    self.cursors@.skip(i as int),
                    chain,
                    kind,
                ),
            decreases n - i,
        {
            proof {
                assert(self.cursors@.skip(i as int).first() == self.cursors@[i as int]);
                assert(self.cursors@.skip(i as int).drop_first() =~= self.cursors@.skip(
                    i as int + 1,
                ));
            }
            let entry = &self.cursors[i];
            if entry.chain_id == chain && entry.kind == kind {
                return Some(entry.last_indexed_block);
            }
            i = i + 1;
        }
        proof {
            assert(self.cursors@.skip(n as int).len() == 0);
        }
        None
    }

    /// Persists a new cursor value for `(chain, kind)`. The update is
    /// monotonic-only: a value below the one already persisted indicates a bug
    /// upstream and is rejected, leaving the store untouched. A pair not seen
    /// before gets a fresh entry. Rows are never touched.
    pub fn advance_cursor(&mut self, chain: u32, kind: EventKind, height: u64) -> (r: Result<
        (),
        StoreError,
    >)
        requires
            old(self).inv(),
        ensures
            final(self).inv(),
            final(self).spec_rows() == old(self).spec_rows(),
            match r {
                Ok(()) => {
                    &&& match old(self).spec_cursor(chain, kind) {
                        Some(c) => height >= c,
                        None => true,
                    }
                    &&& final(self).spec_cursor(chain, kind) == Some(height)
                    &&& forall|c2: u32, k2: EventKind|
                        !(c2 == chain && k2 == kind) ==> final(self).spec_cursor(c2, k2) == old(
                            self,
                        ).spec_cursor(c2, k2)
                },
                Err(e) => {
                    &&& e == StoreError::NonMonotonicCursor
                    &&& match old(self).spec_cursor(chain, kind) {
                        Some(c) => height < c,
                        None => false,
                    }
                    &&& final(self).spec_rows() == old(self).spec_rows()
                    &&& final(self).spec_cursors() == old(self).spec_cursors()
                },
            },
    {
        let n = self.cursors.len();
        let mut i: usize = 0;
        while i < n
            invariant
                i <= n,
                n == self.cursors@.len(),
                old(self).inv(),
                self.rows@ == old(self).rows@,
                self.cursors@ == old(self).cursors@,
                forall|j: int|
                    0 <= j < i ==> !((#[trigger] self.cursors@[j]).chain_id == chain
                        && self.cursors@[j].kind == kind),
            decreases n - i,
        {
            let entry = self.cursors[i];
            if entry.chain_id == chain && entry.kind == kind {
                proof {
                    lemma_lookup_found(self.cursors@, i as int);
                }
                if height < entry.last_indexed_block {
                    return Err(StoreError::NonMonotonicCursor);
                }
                let ghost before = self.cursors@;
                self.cursors[i] =
                CursorEntry { chain_id: chain, kind, last_indexed_block: height };
                proof {
                    assert(self.cursors@ =~= before.update(
                        i as int,
                        CursorEntry { chain_id: chain, kind, last_indexed_block: height },
                    ));
                    assert(cursors_unique(before));
                    assert(forall|x: int|
                        0 <= x < self.cursors@.len() ==> (#[trigger] self.cursors@[x]).chain_id
                            == before[x].chain_id && self.cursors@[x].kind == before[x].kind);
                    assert(cursors_unique(self.cursors@));
                    assert forall|c2: u32, k2: EventKind| true implies {
                        if c2 == chain && k2 == kind {
                            cursor_lookup(self.cursors@, c2, k2) == Some(height)
                        } else {
                            cursor_lookup(self.cursors@, c2, k2) == cursor_lookup(before, c2, k2)
                        }
                    } by {
                        lemma_lookup_update(before, i as int, height, c2, k2);
                    }
                }
                return Ok(());
            }
            i = i + 1;
        }
        proof {
            lemma_lookup_none(self.cursors@, chain, kind);
        }
        let ghost before = self.cursors@;
        let entry = CursorEntry { chain_id: chain, kind, last_indexed_block: height };
        self.cursors.push(entry);
        proof {
            assert forall|c2: u32, k2: EventKind| true implies {
                if c2 == chain && k2 == kind {
                    cursor_lookup(self.cursors@, c2, k2) == Some(height)
                } else {
                    cursor_lookup(self.cursors@, c2, k2) == cursor_lookup(before, c2, k2)
                }
            } by {
                lemma_lookup_push(before, entry, c2, k2);
            }
            assert forall|a: int, b: int| 0 <= a < b < self.cursors@.len() implies !((
            #[trigger] self.cursors@[a]).chain_id == (#[trigger] self.cursors@[b]).chain_id
                && self.cursors@[a].kind == self.cursors@[b].kind) by {
                if b < before.len() {
                    assert(self.cursors@[a] == before[a] && self.cursors@[b] == before[b]);
                } else {
                    assert(self.cursors@[a] == before[a] && self.cursors@[b] == entry);
                }
            }
        }
        Ok(())
    }

    /// Atomically persists a normalized batch and advances the cursor of
    /// `(chain, kind)` to `new_height`: either both land or neither does. A
    /// `new_height` below the persisted cursor is rejected with the store
    /// untouched — no partial batch is ever visible.
    pub fn commit(
        &mut self,
        batch: &Vec<NormalizedEvent>,
        chain: u32,
        kind: EventKind,
        new_height: u64,
    ) -> (r: Result<(), StoreError>)
        requires
            old(self).inv(),
        ensures
            final(self).inv(),
            match r {
                Ok(()) => {
                    &&& match old(self).spec_cursor(chain, kind) {
                        Some(c) => new_height >= c,
                        None => true,
                    }
                    &&& final(self).spec_rows() == upsert_seq(old(self).spec_rows(), batch@)
                    &&& final(self).spec_cursor(chain, kind) == Some(new_height)
                    &&& forall|c2: u32, k2: EventKind|
                        !(c2 == chain && k2 == kind) ==> final(self).spec_cursor(c2, k2) == old(
                            self,
                        ).spec_cursor(c2, k2)
                },
                Err(e) => {
                    &&& e == StoreError::NonMonotonicCursor
                    &&& match old(self).spec_cursor(chain, kind) {
                        Some(c) => new_height < c,
                        None => false,
                    }
                    &&& final(self).spec_rows() == old(self).spec_rows()
                    &&& forall|c2: u32, k2: EventKind|
                        final(self).spec_cursor(c2, k2) == old(self).spec_cursor(c2, k2)
                },
            },
    {
        match self.get_cursor(chain, kind) {
            Some(c) => {
                if new_height < c {
                    return Err(StoreError::NonMonotonicCursor);
                }
            },
            None => {},
        }
        self.upsert_events(batch);
        match self.advance_cursor(chain, kind, new_height) {
            Ok(()) => Ok(()),
            Err(e) => {
                proof {
                    assert(false);
                }
                Err(e)
            },
        }
    }

    /// Returns the rows that concern message `m`, in stored order: the
    /// realized join of dispatches, gas payments and whatever else carries
    /// that identifier, whichever chain instances wrote them.
    pub fn rows_for_message(&self, m: &Hash256) -> (r: Vec<NormalizedEvent>)
        ensures
            r@ == rows_with_message(self.spec_rows(), *m),
    {
        let n = self.rows.len();
        let mut out: Vec<NormalizedEvent> = Vec::new();
        let mut i: usize = 0;
        while i < n
            invariant
                i <= n,
                n == self.rows@.len(),
                out@ == rows_with_message(self.rows@.take(i as int), *m),
            decreases n - i,
        {
            proof {
                assert(self.rows@.take(i as int + 1).drop_last() =~= self.rows@.take(i as int));
                assert(self.rows@.take(i as int + 1).last() == self.rows@[i as int]);
            }
            let row = &self.rows[i];
            match row.message_id() {
                Some(id) => {
                    if id == *m {
                        out.push(row.clone());
                    }
                },
                None => {},
            }
            i = i + 1;
        }
        proof {
            assert(self.rows@.take(n as int) =~= self.rows@);
        }
        out
    }

    /// Returns the rows observed on chain `chain_id` within blocks `from`
    /// through `to` inclusive, in stored order, for downstream tools that
    /// reconstruct message lifecycles by block range.
    pub fn rows_for_block_range(&self, chain_id: u32, from: u64, to: u64) -> (r: Vec<
        NormalizedEvent,
    >)
        ensures
            r@ == rows_in_range(self.spec_rows(), chain_id, from, to),
    {
        let n = self.rows.len();
        let mut out: Vec<NormalizedEvent> = Vec::new();
        let mut i: usize = 0;
        while i < n
            invariant
                i <= n,
                n == self.rows@.len(),
                out@ == rows_in_range(self.rows@.take(i as int), chain_id, from, to),
            decreases n - i,
        {
            proof {
                assert(self.rows@.take(i as int + 1).drop_last() =~= self.rows@.take(i as int));
                assert(self.rows@.take(i as int + 1).last() == self.rows@[i as int]);
            }
            let row = &self.rows[i];
            if row.origin_chain_id == chain_id && from <= row.block_number && row.block_number
                <= to {
                out.push(row.clone());
            }
            i = i + 1;
        }
        proof {
            assert(self.rows@.take(n as int) =~= self.rows@);
        }
        out
    }
}

} // verus!
