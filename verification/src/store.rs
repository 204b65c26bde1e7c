//! The writer's store: a relational model of the two persisted tables, the
//! transactional contract the writer relies on, and an in-memory reference
//! implementation.
//!
//! Rows carry a strictly monotonic surrogate key `uid` that defines the
//! canonical linear order; "rollback to block X" deletes every block row
//! with a larger `uid`, and transaction rows follow their block.

use vstd::prelude::*;

use crate::json::Json;
use crate::json::JsonV;
use crate::json::json_clone;
use crate::json::json_view;
use crate::json::spec_tx_json;
use crate::json::str_eq;
use crate::json::tx_to_json;
use crate::model::OperationType;
use crate::model::TransactionV;
use crate::updates::BlockchainUpdate;
use crate::updates::BlockchainUpdateV;
use crate::updates::RollbackV;

verus! {

/// Why a store operation failed.
#[derive(Copy, Clone, PartialEq, Eq, Debug, Structural)]
pub enum StoreError {
    /// The named block is not persisted.
    NotFound,
    /// The backing store could not be reached or refused the statement.
    Unavailable,
}

/// One persisted block or microblock row.
#[derive(PartialEq, Eq, Debug)]
pub struct BlockRow {
    pub uid: i64,
    pub id: String,
    pub height: i32,
    pub time_stamp: i64,
}

/// Spec-level image of a [`BlockRow`].
pub struct BlockRowV {
    pub uid: i64,
    pub id: Seq<char>,
    pub height: i32,
    pub time_stamp: i64,
}

impl DeepView for BlockRow {
    type V = BlockRowV;

    open spec fn deep_view(&self) -> BlockRowV {
        BlockRowV {
            uid: self.uid,
            id: self.id@,
            height: self.height,
            time_stamp: self.time_stamp,
        }
    }
}

/// One persisted transaction row.
#[derive(PartialEq, Eq, Debug)]
pub struct TxRow {
    pub uid: i64,
    pub id: String,
    pub block_uid: i64,
    pub sender: String,
    pub tx_type: i16,
    pub op_type: OperationType,
    pub operation: Json,
}

/// Spec-level image of a [`TxRow`].
pub struct TxRowV {
    pub uid: i64,
    pub id: Seq<char>,
    pub block_uid: i64,
    pub sender: Seq<char>,
    pub tx_type: i16,
    pub op_type: OperationType,
    pub operation: JsonV,
}

impl DeepView for TxRow {
    type V = TxRowV;

    open spec fn deep_view(&self) -> TxRowV {
        TxRowV {
            uid: self.uid,
            id: self.id@,
            block_uid: self.block_uid,
            sender: self.sender@,
            tx_type: self.tx_type,
            op_type: self.op_type,
            operation: json_view(self.operation),
        }
    }
}

/// The store's abstract state: both tables in `uid` order, plus the next
/// surrogate key.
pub struct StoreModel {
    pub blocks: Seq<BlockRowV>,
    pub txs: Seq<TxRowV>,
    pub next_uid: i64,
}

pub open spec fn blocks_sorted(s: Seq<BlockRowV>) -> bool {
    forall|i: int, j: int| 0 <= i < j < s.len() ==> s[i].uid < s[j].uid
}

pub open spec fn txs_sorted(s: Seq<TxRowV>) -> bool {
    forall|i: int, j: int| 0 <= i < j < s.len() ==> s[i].uid < s[j].uid
}

/// Whether some block row carries the given key.
pub open spec fn spec_has_block_uid(s: Seq<BlockRowV>, uid: i64) -> bool {
    exists|j: int| 0 <= j < s.len() && s[j].uid == uid
}

/// The store's well-formedness: keys strictly increase in insertion order,
/// stay below the next key, and every transaction row references a block.
pub open spec fn store_inv(m: StoreModel) -> bool {
    &&& blocks_sorted(m.blocks)
    &&& txs_sorted(m.txs)
    &&& forall|i: int| 0 <= i < m.blocks.len() ==> (#[trigger] m.blocks[i]).uid < m.next_uid
    &&& forall|i: int| 0 <= i < m.txs.len() ==> (#[trigger] m.txs[i]).uid < m.next_uid
    &&& forall|i: int|
        0 <= i < m.txs.len() ==> spec_has_block_uid(m.blocks, (#[trigger] m.txs[i]).block_uid)
}

/// The key of the first block row carrying the given id.
pub open spec fn spec_block_uid(s: Seq<BlockRowV>, id: Seq<char>) -> Option<i64>
    decreases s.len(),
{
    if s.len() == 0 {
        None
    } else if s[0].id == id {
        Some(s[0].uid)
    } else {
        spec_block_uid(s.skip(1), id)
    }
}

/// The greatest height among the block rows.
pub open spec fn spec_max_height(s: Seq<BlockRowV>) -> i32
    recommends
        s.len() > 0,
    decreases s.len(),
{
    if s.len() <= 1 {
        if s.len() == 1 {
            s[0].height
        } else {
            0
        }
    } else {
        let rest = spec_max_height(s.skip(1));
        if s[0].height > rest {
            s[0].height
        } else {
            rest
        }
    }
}

/// The last persisted height, as the reader reports it.
pub open spec fn spec_last_height(m: StoreModel) -> Option<u32> {
    if m.blocks.len() == 0 {
        None
    } else {
        Some(spec_max_height(m.blocks) as u32)
    }
}

/// The store after deleting every block row with `uid > x`, transaction
/// rows following their block.
pub open spec fn spec_rollback(m: StoreModel, x: i64) -> StoreModel {
    StoreModel {
        blocks: m.blocks.filter(|b: BlockRowV| b.uid <= x),
        txs: m.txs.filter(|t: TxRowV| t.block_uid <= x),
        next_uid: m.next_uid,
    }
}

/// The store after deleting every block row with `height > h`, transaction
/// rows following their block.
pub open spec fn spec_rollback_height(m: StoreModel, h: u32) -> StoreModel {
    let blocks = m.blocks.filter(|b: BlockRowV| b.height <= h as i32);
    StoreModel {
        blocks,
        txs: m.txs.filter(|t: TxRowV| spec_has_block_uid(blocks, t.block_uid)),
        next_uid: m.next_uid,
    }
}

/// The store after inserting one block row, and the row's key.
pub open spec fn spec_insert_block(m: StoreModel, id: Seq<char>, height: u32, timestamp: u64) -> (
    StoreModel,
    i64,
) {
    let row = BlockRowV {
        uid: m.next_uid,
        id,
        height: height as i32,
        time_stamp: timestamp as i64,
    };
    (
        StoreModel {
            blocks: m.blocks.push(row),
            txs: m.txs,
            next_uid: (m.next_uid + 1) as i64,
        },
        m.next_uid,
    )
}

/// The store after inserting one transaction row.
pub open spec fn spec_insert_tx(
    m: StoreModel,
    id: Seq<char>,
    block_uid: i64,
    sender: Seq<char>,
    tx_type: u8,
    operation: JsonV,
) -> StoreModel {
    let row = TxRowV {
        uid: m.next_uid,
        id,
        block_uid,
        sender,
        tx_type: tx_type as i16,
        op_type: OperationType::InvokeScript,
        operation,
    };
    StoreModel { blocks: m.blocks, txs: m.txs.push(row), next_uid: (m.next_uid + 1) as i64 }
}

/// Filtering a sorted block table keeps it sorted, with every kept row
/// taken from the input table.
proof fn lemma_blocks_filter(s: Seq<BlockRowV>, pred: spec_fn(BlockRowV) -> bool)
    requires
        blocks_sorted(s),
    ensures
        blocks_sorted(s.filter(pred)),
        forall|k: int| 0 <= k < s.filter(pred).len() ==> s.contains(#[trigger] s.filter(pred)[k]),
    decreases s.len(),
{
    reveal(Seq::filter);
    if s.len() > 0 {
        let rest = s.drop_last();
        assert(blocks_sorted(rest));
        lemma_blocks_filter(rest, pred);
        let fr = rest.filter(pred);
        assert forall|k: int| 0 <= k < fr.len() implies s.contains(#[trigger] fr[k]) by {
            assert(rest.contains(fr[k]));
            let j = choose|j: int| 0 <= j < rest.len() && rest[j] == fr[k];
            assert(s[j] == fr[k]);
        }
        if pred(s.last()) {
            assert forall|k: int| 0 <= k < fr.len() implies fr[k].uid < s.last().uid by {
                assert(rest.contains(fr[k]));
                let j = choose|j: int| 0 <= j < rest.len() && rest[j] == fr[k];
                assert(s[j].uid < s[s.len() - 1].uid);
            }
            assert(s.contains(s.last())) by {
                assert(s[s.len() - 1] == s.last());
            }
        }
    }
}

/// Filtering a sorted transaction table keeps it sorted, with every kept
/// row taken from the input table.
proof fn lemma_txs_filter(s: Seq<TxRowV>, pred: spec_fn(TxRowV) -> bool)
    requires
        txs_sorted(s),
    ensures
        txs_sorted(s.filter(pred)),
        forall|k: int| 0 <= k < s.filter(pred).len() ==> s.contains(#[trigger] s.filter(pred)[k]),
    decreases s.len(),
{
    reveal(Seq::filter);
    if s.len() > 0 {
        let rest = s.drop_last();
        assert(txs_sorted(rest));
        lemma_txs_filter(rest, pred);
        let fr = rest.filter(pred);
        assert forall|k: int| 0 <= k < fr.len() implies s.contains(#[trigger] fr[k]) by {
            assert(rest.contains(fr[k]));
            let j = choose|j: int| 0 <= j < rest.len() && rest[j] == fr[k];
            assert(s[j] == fr[k]);
        }
        if pred(s.last()) {
            assert forall|k: int| 0 <= k < fr.len() implies fr[k].uid < s.last().uid by {
                assert(rest.contains(fr[k]));
                let j = choose|j: int| 0 <= j < rest.len() && rest[j] == fr[k];
                assert(s[j].uid < s[s.len() - 1].uid);
            }
            assert(s.contains(s.last())) by {
                assert(s[s.len() - 1] == s.last());
            }
        }
    }
}

/// A deletion by either rule leaves a well-formed store.
proof fn lemma_rollback_inv(m: StoreModel, x: i64)
    requires
        store_inv(m),
    ensures
        store_inv(spec_rollback(m, x)),
{
    broadcast use vstd::seq_lib::group_filter_ensures;

    let m1 = spec_rollback(m, x);
    lemma_blocks_filter(m.blocks, |b: BlockRowV| b.uid <= x);
    lemma_txs_filter(m.txs, |t: TxRowV| t.block_uid <= x);
    assert forall|i: int| 0 <= i < m1.blocks.len() implies (#[trigger] m1.blocks[i]).uid
        < m1.next_uid by {
        assert(m.blocks.contains(m1.blocks[i]));
        let j = choose|j: int| 0 <= j < m.blocks.len() && m.blocks[j] == m1.blocks[i];
        assert(m.blocks[j].uid < m.next_uid);
    }
    assert forall|i: int| 0 <= i < m1.txs.len() implies (#[trigger] m1.txs[i]).uid
        < m1.next_uid by {
        assert(m.txs.contains(m1.txs[i]));
        let j = choose|j: int| 0 <= j < m.txs.len() && m.txs[j] == m1.txs[i];
        assert(m.txs[j].uid < m.next_uid);
    }
    assert forall|i: int| 0 <= i < m1.txs.len() implies spec_has_block_uid(
        m1.blocks,
        (#[trigger] m1.txs[i]).block_uid,
    ) by {
        let t = m1.txs[i];
        assert(m.txs.contains(t));
        let j = choose|j: int| 0 <= j < m.txs.len() && m.txs[j] == t;
        assert(spec_has_block_uid(m.blocks, t.block_uid));
        let k = choose|k: int| 0 <= k < m.blocks.len() && m.blocks[k].uid == t.block_uid;
        let b = m.blocks[k];
        assert(t.block_uid <= x);
        assert(b.uid <= x);
        assert(m.blocks.filter(|bb: BlockRowV| bb.uid <= x).contains(b));
        let q = choose|q: int|
            0 <= q < m1.blocks.len() && (#[trigger] m1.blocks[q]) == b;
        assert(m1.blocks[q].uid == t.block_uid);
    }
}

/// A deletion by height leaves a well-formed store.
proof fn lemma_rollback_height_inv(m: StoreModel, h: u32)
    requires
        store_inv(m),
    ensures
        store_inv(spec_rollback_height(m, h)),
{
    broadcast use vstd::seq_lib::group_filter_ensures;

    let m1 = spec_rollback_height(m, h);
    lemma_blocks_filter(m.blocks, |b: BlockRowV| b.height <= h as i32);
    lemma_txs_filter(m.txs, |t: TxRowV| spec_has_block_uid(m1.blocks, t.block_uid));
    assert forall|i: int| 0 <= i < m1.blocks.len() implies (#[trigger] m1.blocks[i]).uid
        < m1.next_uid by {
        assert(m.blocks.contains(m1.blocks[i]));
        let j = choose|j: int| 0 <= j < m.blocks.len() && m.blocks[j] == m1.blocks[i];
        assert(m.blocks[j].uid < m.next_uid);
    }
    assert forall|i: int| 0 <= i < m1.txs.len() implies (#[trigger] m1.txs[i]).uid
        < m1.next_uid by {
        assert(m.txs.contains(m1.txs[i]));
        let j = choose|j: int| 0 <= j < m.txs.len() && m.txs[j] == m1.txs[i];
        assert(m.txs[j].uid < m.next_uid);
    }
}

/// An insertion of either row kind leaves a well-formed store.
proof fn lemma_insert_block_inv(m: StoreModel, id: Seq<char>, height: u32, timestamp: u64)
    requires
        store_inv(m),
        m.next_uid < i64::MAX,
    ensures
        store_inv(spec_insert_block(m, id, height, timestamp).0),
        spec_has_block_uid(spec_insert_block(m, id, height, timestamp).0.blocks, m.next_uid),
{
    let m1 = spec_insert_block(m, id, height, timestamp).0;
    assert(m1.blocks[m.blocks.len() as int].uid == m.next_uid);
    assert forall|i: int| 0 <= i < m1.txs.len() implies spec_has_block_uid(
        m1.blocks,
        (#[trigger] m1.txs[i]).block_uid,
    ) by {
        assert(spec_has_block_uid(m.blocks, m1.txs[i].block_uid));
        let k = choose|k: int| 0 <= k < m.blocks.len() && m.blocks[k].uid == m1.txs[i].block_uid;
        assert(m1.blocks[k].uid == m1.txs[i].block_uid);
    }
}

proof fn lemma_insert_tx_inv(
    m: StoreModel,
    id: Seq<char>,
    block_uid: i64,
    sender: Seq<char>,
    tx_type: u8,
    operation: JsonV,
)
    requires
        store_inv(m),
        m.next_uid < i64::MAX,
        spec_has_block_uid(m.blocks, block_uid),
    ensures
        store_inv(spec_insert_tx(m, id, block_uid, sender, tx_type, operation)),
{
    let m1 = spec_insert_tx(m, id, block_uid, sender, tx_type, operation);
    assert forall|i: int| 0 <= i < m1.txs.len() implies spec_has_block_uid(
        m1.blocks,
        (#[trigger] m1.txs[i]).block_uid,
    ) by {
        if i < m.txs.len() {
            assert(m1.txs[i] == m.txs[i]);
        } else {
            assert(m1.txs[i].block_uid == block_uid);
        }
    }
}

/// The store after inserting one block's transactions, in order.
pub open spec fn spec_insert_txs(m: StoreModel, block_uid: i64, txs: Seq<TransactionV>) -> StoreModel
    decreases txs.len(),
{
    if txs.len() == 0 {
        m
    } else {
        let t = txs[0];
        let m1 = spec_insert_tx(
            m,
            t.id,
            block_uid,
            t.sender,
            t.tx_type.spec_code(),
            spec_tx_json(t),
        );
        spec_insert_txs(m1, block_uid, txs.subrange(1, txs.len() as int))
    }
}

/// The store and reported height after applying one event: an append
/// inserts the block row and then its transaction rows; a rollback deletes
/// the suffix after its target, or fails when the target is unknown.
pub open spec fn spec_apply_event(m: StoreModel, u: BlockchainUpdateV) -> Result<
    (StoreModel, Option<u32>),
    StoreError,
> {
    match u {
        BlockchainUpdateV::Append(a) => {
            let (m1, block_uid) = spec_insert_block(m, a.block_id, a.height, a.timestamp->Some_0);
            Ok((spec_insert_txs(m1, block_uid, a.transactions), Some(a.height)))
        },
        BlockchainUpdateV::Rollback(r) => match spec_block_uid(m.blocks, r.block_id) {
            None => Err(StoreError::NotFound),
            Some(x) => Ok((spec_rollback(m, x), None)),
        },
    }
}

/// The store and the height of the last appended block after applying a
/// whole batch, event by event; the first failure fails the batch.
pub open spec fn spec_apply_batch(m: StoreModel, batch: Seq<BlockchainUpdateV>) -> Result<
    (StoreModel, Option<u32>),
    StoreError,
>
    decreases batch.len(),
{
    if batch.len() == 0 {
        Ok((m, None))
    } else {
        match spec_apply_event(m, batch[0]) {
            Err(e) => Err(e),
            Ok((m1, h0)) => match spec_apply_batch(m1, batch.subrange(1, batch.len() as int)) {
                Err(e) => Err(e),
                Ok((m2, h)) => Ok(
                    (
                        m2,
                        if h is Some {
                            h
                        } else {
                            h0
                        },
                    ),
                ),
            },
        }
    }
}

/// How many rows one event inserts.
pub open spec fn spec_event_inserts(u: BlockchainUpdateV) -> int {
    match u {
        BlockchainUpdateV::Append(a) => 1 + a.transactions.len() as int,
        BlockchainUpdateV::Rollback(_) => 0,
    }
}

/// How many rows a batch inserts.
pub open spec fn spec_batch_inserts(batch: Seq<BlockchainUpdateV>) -> int
    decreases batch.len(),
{
    if batch.len() == 0 {
        0
    } else {
        spec_event_inserts(batch[0]) + spec_batch_inserts(batch.subrange(1, batch.len() as int))
    }
}

/// What the writer owes the store before applying a batch: every append
/// carries a timestamp (the batcher never releases a bare microblock), and
/// the surrogate keys cannot overflow.
pub open spec fn spec_batch_ok(m: StoreModel, batch: Seq<BlockchainUpdateV>) -> bool {
    &&& forall|i: int|
        0 <= i < batch.len() ==> match #[trigger] batch[i] {
            BlockchainUpdateV::Append(a) => a.timestamp is Some,
            BlockchainUpdateV::Rollback(_) => true,
        }
    &&& m.next_uid + spec_batch_inserts(batch) <= i64::MAX
}

/// Inserting transactions leaves the store well-formed, leaves the block
/// table alone, and advances the key by the number of rows.
proof fn lemma_insert_txs_inv(m: StoreModel, block_uid: i64, txs: Seq<TransactionV>)
    requires
        store_inv(m),
        m.next_uid + txs.len() <= i64::MAX,
        spec_has_block_uid(m.blocks, block_uid),
    ensures
        ({
            let m1 = spec_insert_txs(m, block_uid, txs);
            &&& store_inv(m1)
            &&& m1.blocks == m.blocks
            &&& m1.next_uid == m.next_uid + txs.len()
        }),
    decreases txs.len(),
{
    if txs.len() > 0 {
        let t = txs[0];
        let m1 = spec_insert_tx(
            m,
            t.id,
            block_uid,
            t.sender,
            t.tx_type.spec_code(),
            spec_tx_json(t),
        );
        lemma_insert_tx_inv(m, t.id, block_uid, t.sender, t.tx_type.spec_code(), spec_tx_json(t));
        lemma_insert_txs_inv(m1, block_uid, txs.subrange(1, txs.len() as int));
    }
}

/// Applying one event leaves the store well-formed and advances the key by
/// at most the event's insertions.
proof fn lemma_apply_event_inv(m: StoreModel, u: BlockchainUpdateV)
    requires
        store_inv(m),
        m.next_uid + spec_event_inserts(u) <= i64::MAX,
        u matches BlockchainUpdateV::Append(a) ==> a.timestamp is Some,
    ensures
        match spec_apply_event(m, u) {
            Ok((m1, _)) => store_inv(m1) && m1.next_uid <= m.next_uid + spec_event_inserts(u),
            Err(_) => true,
        },
{
    match u {
        BlockchainUpdateV::Append(a) => {
            let (mb, block_uid) = spec_insert_block(m, a.block_id, a.height, a.timestamp->Some_0);
            lemma_insert_block_inv(m, a.block_id, a.height, a.timestamp->Some_0);
            lemma_insert_txs_inv(mb, block_uid, a.transactions);
        },
        BlockchainUpdateV::Rollback(r) => {
            match spec_block_uid(m.blocks, r.block_id) {
                Some(x) => {
                    lemma_rollback_inv(m, x);
                },
                None => {},
            }
        },
    }
}

/// The store's write interface; the writer applies whole batches through
/// it. The backing implementation may always fail with `Unavailable`, but
/// a success has exactly the modeled effect.
pub trait Repo: Sized {
    /// The abstract state this handle reads and writes. A backing store
    /// that Verus cannot see (an outside database) leaves the default: an
    /// unspecified model, of which its contracts then promise nothing.
    open spec fn store(&self) -> StoreModel {
        vstd::pervasive::arbitrary()
    }

    /// The greatest persisted height, if any row exists.
    fn last_height(&mut self) -> (r: Result<Option<u32>, StoreError>)
        requires
            store_inv(old(self).store()),
        ensures
            store_inv(final(self).store()),
            final(self).store() == old(self).store(),
            match r {
                Ok(h) => h == spec_last_height(old(self).store()),
                Err(e) => e == StoreError::Unavailable,
            },
    ;

    /// Deletes every block row above the given height, transaction rows
    /// following their block.
    fn rollback_to_height(&mut self, height: u32) -> (r: Result<(), StoreError>)
        requires
            store_inv(old(self).store()),
        ensures
            store_inv(final(self).store()),
            match r {
                Ok(_) => final(self).store() == spec_rollback_height(old(self).store(), height),
                Err(e) => e == StoreError::Unavailable && final(self).store() == old(
                    self,
                ).store(),
            },
    ;

    /// Deletes every block row with a key above the given one, transaction
    /// rows following their block.
    fn rollback_to_block(&mut self, block_uid: i64) -> (r: Result<(), StoreError>)
        requires
            store_inv(old(self).store()),
        ensures
            store_inv(final(self).store()),
            match r {
                Ok(_) => final(self).store() == spec_rollback(old(self).store(), block_uid),
                Err(e) => e == StoreError::Unavailable && final(self).store() == old(
                    self,
                ).store(),
            },
    ;

    /// Inserts one block row and returns its key.
    fn insert_block(&mut self, id: &str, height: u32, timestamp: u64) -> (r: Result<
        i64,
        StoreError,
    >)
        requires
            store_inv(old(self).store()),
            old(self).store().next_uid < i64::MAX,
        ensures
            store_inv(final(self).store()),
            match r {
                Ok(uid) => uid == old(self).store().next_uid && final(self).store()
                    == spec_insert_block(old(self).store(), id@, height, timestamp).0,
                Err(e) => e == StoreError::Unavailable && final(self).store() == old(
                    self,
                ).store(),
            },
    ;

    /// Inserts one transaction row under an existing block.
    fn insert_tx(
        &mut self,
        id: &str,
        block_uid: i64,
        sender: &str,
        tx_type: u8,
        operation: Json,
    ) -> (r: Result<(), StoreError>)
        requires
            store_inv(old(self).store()),
            old(self).store().next_uid < i64::MAX,
            spec_has_block_uid(old(self).store().blocks, block_uid),
        ensures
            store_inv(final(self).store()),
            match r {
                Ok(_) => final(self).store() == spec_insert_tx(
                    old(self).store(),
                    id@,
                    block_uid,
                    sender@,
                    tx_type,
                    json_view(operation),
                ),
                Err(e) => e == StoreError::Unavailable && final(self).store() == old(
                    self,
                ).store(),
            },
    ;

    /// The key of the block row carrying the given id.
    fn block_uid(&mut self, block_id: &str) -> (r: Result<i64, StoreError>)
        requires
            store_inv(old(self).store()),
        ensures
            store_inv(final(self).store()),
            final(self).store() == old(self).store(),
            match r {
                Ok(uid) => spec_block_uid(old(self).store().blocks, block_id@) == Some(uid),
                Err(e) => e == StoreError::Unavailable || (e == StoreError::NotFound
                    && spec_block_uid(old(self).store().blocks, block_id@) is None),
            },
    ;
}

fn clone_block_row(b: &BlockRow) -> (r: BlockRow)
    ensures
        r.deep_view() == b.deep_view(),
{
    BlockRow { uid: b.uid, id: b.id.clone(), height: b.height, time_stamp: b.time_stamp }
}

fn clone_tx_row(t: &TxRow) -> (r: TxRow)
    ensures
        r.deep_view() == t.deep_view(),
{
    TxRow {
        uid: t.uid,
        id: t.id.clone(),
        block_uid: t.block_uid,
        sender: t.sender.clone(),
        tx_type: t.tx_type,
        op_type: t.op_type,
        operation: json_clone(&t.operation),
    }
}

#[verifier::loop_isolation(false)]
fn has_block_uid(blocks: &Vec<BlockRow>, uid: i64) -> (r: bool)
    ensures
        r == spec_has_block_uid(blocks.deep_view(), uid),
{
    let mut i: usize = 0;
    while i < blocks.len()
        invariant
            i <= blocks@.len(),
            forall|j: int| 0 <= j < i ==> (#[trigger] blocks.deep_view()[j]).uid != uid,
        decreases blocks@.len() - i,
    {
        if blocks[i].uid == uid {
            proof {
                assert(blocks.deep_view()[i as int].uid == uid);
            }
            return true;
        }
        i += 1;
    }
    false
}

/// Unfolds one step of [`spec_block_uid`].
proof fn lemma_block_uid_step(s: Seq<BlockRowV>, id: Seq<char>, i: int)
    requires
        0 <= i < s.len(),
    ensures
        spec_block_uid(s.skip(i), id) == (if s[i].id == id {
            Some(s[i].uid)
        } else {
            spec_block_uid(s.skip(i + 1), id)
        }),
{
    assert(s.skip(i).len() == s.len() - i);
    assert(s.skip(i)[0] == s[i]);
    assert(s.skip(i).skip(1) =~= s.skip(i + 1));
}

/// The in-memory reference store: both tables as plain vectors.
pub struct MemRepo {
    pub blocks: Vec<BlockRow>,
    pub txs: Vec<TxRow>,
    pub next_uid: i64,
}

impl MemRepo {
    /// An empty store whose first surrogate key is 1.
    pub fn new() -> (r: MemRepo)
        ensures
            r.wf(),
            r.store().blocks.len() == 0,
            r.store().txs.len() == 0,
            r.store().next_uid == 1,
    {
        let r = MemRepo { blocks: Vec::new(), txs: Vec::new(), next_uid: 1 };
        proof {
            assert(r.blocks.deep_view() =~= Seq::<BlockRowV>::empty());
            assert(r.txs.deep_view() =~= Seq::<TxRowV>::empty());
        }
        r
    }
}

impl MemRepo {
    /// The abstract state of this in-memory store.
    pub open spec fn mem_store(&self) -> StoreModel {
        StoreModel {
            blocks: self.blocks.deep_view(),
            txs: self.txs.deep_view(),
            next_uid: self.next_uid,
        }
    }

    /// Whether this in-memory store is well-formed.
    pub open spec fn wf(&self) -> bool {
        store_inv(self.mem_store())
    }
}

impl Repo for MemRepo {
    open spec fn store(&self) -> StoreModel {
        self.mem_store()
    }

    #[verifier::loop_isolation(false)]
    fn last_height(&mut self) -> (r: Result<Option<u32>, StoreError>) {
        let n = self.blocks.len();
        if n == 0 {
            return Ok(None);
        }
        let ghost bv = self.blocks.deep_view();
        let mut i: usize = n - 1;
        let mut acc: i32 = self.blocks[n - 1].height;
        proof {
            assert(bv.skip(n - 1).len() == 1);
            assert(bv.skip(n - 1)[0] == bv[n - 1]);
        }
        while i > 0
            invariant
                i < n,
                acc == spec_max_height(bv.skip(i as int)),
            decreases i,
        {
            i -= 1;
            let h = self.blocks[i].height;
            proof {
                assert(bv.skip(i as int).len() == n - i);
                assert(bv.skip(i as int)[0] == bv[i as int]);
                assert(bv.skip(i as int).skip(1) =~= bv.skip(i as int + 1));
            }
            if h > acc {
                acc = h;
            }
        }
        proof {
            assert(bv.skip(0) =~= bv);
        }
        Ok(Some(acc as u32))
    }

    #[verifier::loop_isolation(false)]
    fn rollback_to_height(&mut self, height: u32) -> (r: Result<(), StoreError>) {
        let ghost m0 = self.store();
        let ghost bpred = |b: BlockRowV| b.height <= height as i32;
        let mut kept_blocks: Vec<BlockRow> = Vec::new();
        let mut i: usize = 0;
        proof {
            reveal(Seq::filter);
            assert(m0.blocks.take(0) =~= Seq::<BlockRowV>::empty());
            assert(kept_blocks.deep_view() =~= Seq::<BlockRowV>::empty());
        }
        while i < self.blocks.len()
            invariant
                i <= self.blocks@.len(),
                kept_blocks.deep_view() == m0.blocks.take(i as int).filter(bpred),
            decreases self.blocks@.len() - i,
        {
            let ghost j = i as int;
            let ghost kept0 = kept_blocks.deep_view();
            proof {
                reveal(Seq::filter);
                assert(m0.blocks.take(j + 1).drop_last() =~= m0.blocks.take(j));
                assert(m0.blocks.take(j + 1).last() == m0.blocks[j]);
            }
            if self.blocks[i].height <= height as i32 {
                kept_blocks.push(clone_block_row(&self.blocks[i]));
                proof {
                    assert(kept_blocks.deep_view() =~= kept0.push(m0.blocks[j]));
                }
            }
            i += 1;
        }
        proof {
            assert(m0.blocks.take(m0.blocks.len() as int) =~= m0.blocks);
        }
        let ghost keptv = kept_blocks.deep_view();
        let ghost tpred = |t: TxRowV| spec_has_block_uid(keptv, t.block_uid);
        let mut kept_txs: Vec<TxRow> = Vec::new();
        let mut i: usize = 0;
        proof {
            reveal(Seq::filter);
            assert(m0.txs.take(0) =~= Seq::<TxRowV>::empty());
            assert(kept_txs.deep_view() =~= Seq::<TxRowV>::empty());
        }
        while i < self.txs.len()
            invariant
                i <= self.txs@.len(),
                keptv == kept_blocks.deep_view(),
                kept_txs.deep_view() == m0.txs.take(i as int).filter(tpred),
            decreases self.txs@.len() - i,
        {
            let ghost j = i as int;
            let ghost kept0 = kept_txs.deep_view();
            proof {
                reveal(Seq::filter);
                assert(m0.txs.take(j + 1).drop_last() =~= m0.txs.take(j));
                assert(m0.txs.take(j + 1).last() == m0.txs[j]);
            }
            if has_block_uid(&kept_blocks, self.txs[i].block_uid) {
                kept_txs.push(clone_tx_row(&self.txs[i]));
                proof {
                    assert(kept_txs.deep_view() =~= kept0.push(m0.txs[j]));
                }
            }
            i += 1;
        }
        proof {
            assert(m0.txs.take(m0.txs.len() as int) =~= m0.txs);
        }
        self.blocks = kept_blocks;
        self.txs = kept_txs;
        proof {
            lemma_rollback_height_inv(m0, height);
        }
        Ok(())
    }

    #[verifier::loop_isolation(false)]
    fn rollback_to_block(&mut self, block_uid: i64) -> (r: Result<(), StoreError>) {
        let ghost m0 = self.store();
        let ghost bpred = |b: BlockRowV| b.uid <= block_uid;
        let mut kept_blocks: Vec<BlockRow> = Vec::new();
        let mut i: usize = 0;
        proof {
            reveal(Seq::filter);
            assert(m0.blocks.take(0) =~= Seq::<BlockRowV>::empty());
            assert(kept_blocks.deep_view() =~= Seq::<BlockRowV>::empty());
        }
        while i < self.blocks.len()
            invariant
                i <= self.blocks@.len(),
                kept_blocks.deep_view() == m0.blocks.take(i as int).filter(bpred),
            decreases self.blocks@.len() - i,
        {
            let ghost j = i as int;
            let ghost kept0 = kept_blocks.deep_view();
            proof {
                reveal(Seq::filter);
                assert(m0.blocks.take(j + 1).drop_last() =~= m0.blocks.take(j));
                assert(m0.blocks.take(j + 1).last() == m0.blocks[j]);
            }
            if self.blocks[i].uid <= block_uid {
                kept_blocks.push(clone_block_row(&self.blocks[i]));
                proof {
                    assert(kept_blocks.deep_view() =~= kept0.push(m0.blocks[j]));
                }
            }
            i += 1;
        }
        proof {
            assert(m0.blocks.take(m0.blocks.len() as int) =~= m0.blocks);
        }
        let ghost tpred = |t: TxRowV| t.block_uid <= block_uid;
        let mut kept_txs: Vec<TxRow> = Vec::new();
        let mut i: usize = 0;
        proof {
            reveal(Seq::filter);
            assert(m0.txs.take(0) =~= Seq::<TxRowV>::empty());
            assert(kept_txs.deep_view() =~= Seq::<TxRowV>::empty());
        }
        while i < self.txs.len()
            invariant
                i <= self.txs@.len(),
                kept_txs.deep_view() == m0.txs.take(i as int).filter(tpred),
            decreases self.txs@.len() - i,
        {
            let ghost j = i as int;
            let ghost kept0 = kept_txs.deep_view();
            proof {
                reveal(Seq::filter);
                assert(m0.txs.take(j + 1).drop_last() =~= m0.txs.take(j));
                assert(m0.txs.take(j + 1).last() == m0.txs[j]);
            }
            if self.txs[i].block_uid <= block_uid {
                kept_txs.push(clone_tx_row(&self.txs[i]));
                proof {
                    assert(kept_txs.deep_view() =~= kept0.push(m0.txs[j]));
                }
            }
            i += 1;
        }
        proof {
            assert(m0.txs.take(m0.txs.len() as int) =~= m0.txs);
        }
        self.blocks = kept_blocks;
        self.txs = kept_txs;
        proof {
            lemma_rollback_inv(m0, block_uid);
        }
        Ok(())
    }

    fn insert_block(&mut self, id: &str, height: u32, timestamp: u64) -> (r: Result<
        i64,
        StoreError,
    >) {
        let ghost m0 = self.store();
        let uid = self.next_uid;
        let row = BlockRow {
            uid,
            id: id.to_owned(),
            height: height as i32,
            time_stamp: timestamp as i64,
        };
        self.blocks.push(row);
        self.next_uid = self.next_uid + 1;
        proof {
            assert(self.blocks.deep_view() =~= m0.blocks.push(
                spec_insert_block(m0, id@, height, timestamp).0.blocks.last(),
            ));
            assert(self.store().blocks =~= spec_insert_block(m0, id@, height, timestamp).0.blocks);
            lemma_insert_block_inv(m0, id@, height, timestamp);
        }
        Ok(uid)
    }

    fn insert_tx(
        &mut self,
        id: &str,
        block_uid: i64,
        sender: &str,
        tx_type: u8,
        operation: Json,
    ) -> (r: Result<(), StoreError>) {
        let ghost m0 = self.store();
        let ghost opv = json_view(operation);
        let row = TxRow {
            uid: self.next_uid,
            id: id.to_owned(),
            block_uid,
            sender: sender.to_owned(),
            tx_type: tx_type as i16,
            op_type: OperationType::InvokeScript,
            operation,
        };
        self.txs.push(row);
        self.next_uid = self.next_uid + 1;
        proof {
            assert(self.txs.deep_view() =~= spec_insert_tx(
                m0,
                id@,
                block_uid,
                sender@,
                tx_type,
                opv,
            ).txs);
            assert(self.store().txs =~= spec_insert_tx(
                m0,
                id@,
                block_uid,
                sender@,
                tx_type,
                opv,
            ).txs);
            lemma_insert_tx_inv(m0, id@, block_uid, sender@, tx_type, opv);
        }
        Ok(())
    }

    #[verifier::loop_isolation(false)]
    fn block_uid(&mut self, block_id: &str) -> (r: Result<i64, StoreError>) {
        let ghost bv = self.blocks.deep_view();
        let mut i: usize = 0;
        proof {
            assert(bv.skip(0) =~= bv);
        }
        while i < self.blocks.len()
            invariant
                i <= self.blocks@.len(),
                spec_block_uid(bv, block_id@) == spec_block_uid(bv.skip(i as int), block_id@),
            decreases self.blocks@.len() - i,
        {
            let ghost j = i as int;
            proof {
                lemma_block_uid_step(bv, block_id@, j);
            }
            if str_eq(self.blocks[i].id.as_str(), block_id) {
                return Ok(self.blocks[i].uid);
            }
            i += 1;
        }
        proof {
            assert(bv.skip(bv.len() as int) =~= Seq::<BlockRowV>::empty());
        }
        Err(StoreError::NotFound)
    }
}

/// A batch inserts a non-negative number of rows.
proof fn lemma_batch_inserts_nonneg(batch: Seq<BlockchainUpdateV>)
    ensures
        spec_batch_inserts(batch) >= 0,
    decreases batch.len(),
{
    if batch.len() > 0 {
        lemma_batch_inserts_nonneg(batch.subrange(1, batch.len() as int));
    }
}

/// Unfolds one step of [`spec_batch_inserts`].
proof fn lemma_batch_inserts_step(batch: Seq<BlockchainUpdateV>, i: int)
    requires
        0 <= i < batch.len(),
    ensures
        spec_batch_inserts(batch.skip(i)) == spec_event_inserts(batch[i]) + spec_batch_inserts(
            batch.skip(i + 1),
        ),
{
    assert(batch.skip(i).len() == batch.len() - i);
    assert(batch.skip(i)[0] == batch[i]);
    assert(batch.skip(i).subrange(1, batch.skip(i).len() as int) =~= batch.skip(i + 1));
}

/// Unfolds one step of [`spec_apply_batch`].
proof fn lemma_apply_batch_step(m: StoreModel, batch: Seq<BlockchainUpdateV>, i: int)
    requires
        0 <= i < batch.len(),
    ensures
        spec_apply_batch(m, batch.skip(i)) == match spec_apply_event(m, batch[i]) {
            Err(e) => Err::<(StoreModel, Option<u32>), StoreError>(e),
            Ok((m1, h0)) => match spec_apply_batch(m1, batch.skip(i + 1)) {
                Err(e) => Err::<(StoreModel, Option<u32>), StoreError>(e),
                Ok((m2, h)) => Ok::<(StoreModel, Option<u32>), StoreError>(
                    (
                        m2,
                        if h is Some {
                            h
                        } else {
                            h0
                        },
                    ),
                ),
            },
        },
{
    assert(batch.skip(i).len() == batch.len() - i);
    assert(batch.skip(i)[0] == batch[i]);
    assert(batch.skip(i).subrange(1, batch.skip(i).len() as int) =~= batch.skip(i + 1));
}

/// Unfolds one step of [`spec_insert_txs`].
proof fn lemma_insert_txs_step(m: StoreModel, block_uid: i64, txs: Seq<TransactionV>, i: int)
    requires
        0 <= i < txs.len(),
    ensures
        spec_insert_txs(m, block_uid, txs.skip(i)) == spec_insert_txs(
            spec_insert_tx(
                m,
                txs[i].id,
                block_uid,
                txs[i].sender,
                txs[i].tx_type.spec_code(),
                spec_tx_json(txs[i]),
            ),
            block_uid,
            txs.skip(i + 1),
        ),
{
    assert(txs.skip(i).len() == txs.len() - i);
    assert(txs.skip(i)[0] == txs[i]);
    assert(txs.skip(i).subrange(1, txs.skip(i).len() as int) =~= txs.skip(i + 1));
}

/// Applies one batch of events, in order, through the given store handle.
///
/// On success the store moved from its old state to exactly
/// [`spec_apply_batch`]'s result, and the returned height is the height of
/// the batch's last append, if any. On failure the error is either the
/// store's own `Unavailable` or the one [`spec_apply_batch`] assigns (an
/// unknown rollback target).
#[verifier::loop_isolation(false)]
pub fn apply_batch<R: Repo>(repo: &mut R, batch: &Vec<BlockchainUpdate>) -> (r: Result<
    Option<u32>,
    StoreError,
>)
    requires
        store_inv(old(repo).store()),
        spec_batch_ok(old(repo).store(), batch.deep_view()),
    ensures
        store_inv(final(repo).store()),
        match r {
            Ok(h) => spec_apply_batch(old(repo).store(), batch.deep_view()) == Ok::<
                (StoreModel, Option<u32>),
                StoreError,
            >((final(repo).store(), h)),
            Err(e) => e == StoreError::Unavailable || spec_apply_batch(
                old(repo).store(),
                batch.deep_view(),
            ) == Err::<(StoreModel, Option<u32>), StoreError>(e),
        },
{
    let ghost m0 = old(repo).store();
    let ghost bv = batch.deep_view();
    let mut last_height: Option<u32> = None;
    let mut i: usize = 0;
    proof {
        assert(bv.skip(0) =~= bv);
    }
    while i < batch.len()
        invariant
            i <= bv.len(),
            store_inv(repo.store()),
            repo.store().next_uid + spec_batch_inserts(bv.skip(i as int)) <= i64::MAX,
            match spec_apply_batch(repo.store(), bv.skip(i as int)) {
                Ok((m2, h)) => spec_apply_batch(m0, bv) == Ok::<
                    (StoreModel, Option<u32>),
                    StoreError,
                >(
                    (
                        m2,
                        if h is Some {
                            h
                        } else {
                            last_height
                        },
                    ),
                ),
                Err(e) => spec_apply_batch(m0, bv) == Err::<
                    (StoreModel, Option<u32>),
                    StoreError,
                >(e),
            },
        decreases bv.len() - i,
    {
        let ghost j = i as int;
        let ghost m_pre = repo.store();
        proof {
            lemma_apply_batch_step(m_pre, bv, j);
            lemma_batch_inserts_step(bv, j);
            lemma_batch_inserts_nonneg(bv.skip(j + 1));
        }
        match &batch[i] {
            BlockchainUpdate::Append(a) => {
                proof {
                    assert(bv[j] == BlockchainUpdateV::Append(a.deep_view()));
                }
                let ts = match a.timestamp {
                    Some(t) => t,
                    None => {
                        proof {
                            assert(false);
                        }
                        0
                    },
                };
                let block_uid = match repo.insert_block(a.block_id.as_str(), a.height, ts) {
                    Ok(u) => u,
                    Err(e) => {
                        return Err(e);
                    },
                };
                proof {
                    lemma_insert_block_inv(m_pre, a.deep_view().block_id, a.height, ts);
                }
                let ghost m_b = repo.store();
                let ghost txv = a.deep_view().transactions;
                proof {
                    assert(txv.skip(0) =~= txv);
                }
                let mut k: usize = 0;
                while k < a.transactions.len()
                    invariant
                        k <= txv.len(),
                        txv.len() == a.transactions@.len(),
                        store_inv(repo.store()),
                        repo.store().blocks == m_b.blocks,
                        repo.store().next_uid == m_b.next_uid + k,
                        spec_insert_txs(m_b, block_uid, txv) == spec_insert_txs(
                            repo.store(),
                            block_uid,
                            txv.skip(k as int),
                        ),
                    decreases txv.len() - k,
                {
                    let ghost kk = k as int;
                    let ghost m_k = repo.store();
                    proof {
                        lemma_insert_txs_step(m_k, block_uid, txv, kk);
                        assert(txv[kk] == a.transactions@[kk].deep_view());
                    }
                    let t = &a.transactions[k];
                    let doc = tx_to_json(t);
                    let code = t.tx_type.code();
                    match repo.insert_tx(t.id.as_str(), block_uid, t.sender.as_str(), code, doc) {
                        Ok(_) => {},
                        Err(e) => {
                            return Err(e);
                        },
                    }
                    k += 1;
                }
                proof {
                    assert(txv.skip(txv.len() as int) =~= Seq::<TransactionV>::empty());
                }
                last_height = Some(a.height);
                i += 1;
            },
            BlockchainUpdate::Rollback(rb) => {
                proof {
                    assert(bv[j] == BlockchainUpdateV::Rollback(rb.deep_view()));
                }
                let uid = match repo.block_uid(rb.block_id.as_str()) {
                    Ok(u) => u,
                    Err(e) => {
                        return Err(e);
                    },
                };
                match repo.rollback_to_block(uid) {
                    Ok(_) => {},
                    Err(e) => {
                        return Err(e);
                    },
                }
                proof {
                    lemma_rollback_inv(m_pre, uid);
                }
                i += 1;
            },
        }
    }
    proof {
        assert(bv.skip(bv.len() as int) =~= Seq::<BlockchainUpdateV>::empty());
    }
    Ok(last_height)
}

fn clone_blocks(v: &Vec<BlockRow>) -> (r: Vec<BlockRow>)
    ensures
        r.deep_view() == v.deep_view(),
{
    let mut out: Vec<BlockRow> = Vec::new();
    let mut i: usize = 0;
    while i < v.len()
        invariant
            i <= v@.len(),
            out@.len() == i,
            forall|j: int| 0 <= j < i ==> out@[j].deep_view() == v@[j].deep_view(),
        decreases v@.len() - i,
    {
        out.push(clone_block_row(&v[i]));
        i += 1;
    }
    proof {
        assert(out.deep_view() =~= v.deep_view());
    }
    out
}

fn clone_txs(v: &Vec<TxRow>) -> (r: Vec<TxRow>)
    ensures
        r.deep_view() == v.deep_view(),
{
    let mut out: Vec<TxRow> = Vec::new();
    let mut i: usize = 0;
    while i < v.len()
        invariant
            i <= v@.len(),
            out@.len() == i,
            forall|j: int| 0 <= j < i ==> out@[j].deep_view() == v@[j].deep_view(),
        decreases v@.len() - i,
    {
        out.push(clone_tx_row(&v[i]));
        i += 1;
    }
    proof {
        assert(out.deep_view() =~= v.deep_view());
    }
    out
}

/// The writer's storage: an in-memory store applied to under an
/// all-or-nothing discipline.
pub struct MemStorage {
    pub repo: MemRepo,
}

impl MemStorage {
    pub fn new() -> (r: MemStorage)
        ensures
            r.repo.wf(),
            r.repo.store().blocks.len() == 0,
            r.repo.store().txs.len() == 0,
            r.repo.store().next_uid == 1,
    {
        MemStorage { repo: MemRepo::new() }
    }

    /// Applies one batch as a transaction: on success the whole batch is
    /// visible; on failure none of it is.
    pub fn write_batch(&mut self, batch: &Vec<BlockchainUpdate>) -> (r: Result<
        Option<u32>,
        StoreError,
    >)
        requires
            old(self).repo.wf(),
            spec_batch_ok(old(self).repo.store(), batch.deep_view()),
        ensures
            final(self).repo.wf(),
            match r {
                Ok(h) => spec_apply_batch(old(self).repo.store(), batch.deep_view()) == Ok::<
                    (StoreModel, Option<u32>),
                    StoreError,
                >((final(self).repo.store(), h)),
                Err(e) => *final(self) == *old(self) && (e == StoreError::Unavailable
                    || spec_apply_batch(old(self).repo.store(), batch.deep_view()) == Err::<
                    (StoreModel, Option<u32>),
                    StoreError,
                >(e)),
            },
    {
        let mut scratch = MemRepo {
            blocks: clone_blocks(&self.repo.blocks),
            txs: clone_txs(&self.repo.txs),
            next_uid: self.repo.next_uid,
        };
        match apply_batch(&mut scratch, batch) {
            Ok(h) => {
                self.repo = scratch;
                Ok(h)
            },
            Err(e) => Err(e),
        }
    }
}

/// Ordering: an all-append batch always applies; it leaves every old row
/// in place and adds one block row per event, in input order, with
/// strictly increasing keys.
pub proof fn lemma_append_ordering(m: StoreModel, batch: Seq<BlockchainUpdateV>)
    requires
        store_inv(m),
        spec_batch_ok(m, batch),
        forall|i: int| 0 <= i < batch.len() ==> (#[trigger] batch[i]) is Append,
    ensures
        spec_apply_batch(m, batch) is Ok,
        ({
            let m2 = spec_apply_batch(m, batch)->Ok_0.0;
            &&& store_inv(m2)
            &&& m2.blocks.len() == m.blocks.len() + batch.len()
            &&& forall|i: int|
                0 <= i < m.blocks.len() ==> #[trigger] m2.blocks[i] == m.blocks[i]
            &&& forall|i: int|
                0 <= i < batch.len() ==> {
                    let a = (#[trigger] batch[i])->Append_0;
                    let row = m2.blocks[m.blocks.len() + i];
                    &&& row.id == a.block_id
                    &&& row.height == a.height as i32
                    &&& row.time_stamp == a.timestamp->Some_0 as i64
                }
        }),
    decreases batch.len(),
{
    lemma_batch_inserts_nonneg(batch);
    if batch.len() > 0 {
        let a = batch[0]->Append_0;
        lemma_batch_inserts_step(batch, 0);
        assert(batch.skip(1) =~= batch.subrange(1, batch.len() as int));
        lemma_batch_inserts_nonneg(batch.skip(1));
        let (mb, block_uid) = spec_insert_block(m, a.block_id, a.height, a.timestamp->Some_0);
        lemma_insert_block_inv(m, a.block_id, a.height, a.timestamp->Some_0);
        lemma_insert_txs_inv(mb, block_uid, a.transactions);
        let m1 = spec_insert_txs(mb, block_uid, a.transactions);
        assert(batch.subrange(1, batch.len() as int) =~= batch.skip(1));
        lemma_append_ordering(m1, batch.skip(1));
        let m2 = spec_apply_batch(m1, batch.skip(1))->Ok_0.0;
        assert forall|i: int| 0 <= i < m.blocks.len() implies #[trigger] m2.blocks[i]
            == m.blocks[i] by {
            assert(m1.blocks[i] == m.blocks[i]);
        }
        assert forall|i: int| 0 <= i < batch.len() implies {
            let aa = (#[trigger] batch[i])->Append_0;
            let row = m2.blocks[m.blocks.len() + i];
            &&& row.id == aa.block_id
            &&& row.height == aa.height as i32
            &&& row.time_stamp == aa.timestamp->Some_0 as i64
        } by {
            if i == 0 {
                assert(m1.blocks[m.blocks.len() as int] == mb.blocks.last());
                assert(m2.blocks[m.blocks.len() as int] == m1.blocks[m.blocks.len() as int]);
            } else {
                assert(batch.skip(1)[i - 1] == batch[i]);
                assert(m2.blocks[m1.blocks.len() + (i - 1)] == m2.blocks[m.blocks.len() + i]);
            }
        }
    }
}

/// Rollback escalation, store side: applying an escalated rollback keeps
/// exactly the rows at or before its target and deletes the suffix after
/// it.
pub proof fn lemma_rollback_deletes_suffix(m: StoreModel, r: RollbackV)
    requires
        store_inv(m),
        spec_block_uid(m.blocks, r.block_id) is Some,
    ensures
        ({
            let x = spec_block_uid(m.blocks, r.block_id)->Some_0;
            let m1 = spec_rollback(m, x);
            &&& spec_apply_event(m, BlockchainUpdateV::Rollback(r)) == Ok::<
                (StoreModel, Option<u32>),
                StoreError,
            >((m1, None))
            &&& store_inv(m1)
            &&& forall|i: int|
                0 <= i < m.blocks.len() && (#[trigger] m.blocks[i]).uid <= x
                    ==> m1.blocks.contains(m.blocks[i])
            &&& forall|k: int|
                0 <= k < m1.blocks.len() ==> (#[trigger] m1.blocks[k]).uid <= x
                    && m.blocks.contains(m1.blocks[k])
            &&& forall|i: int|
                0 <= i < m.txs.len() && (#[trigger] m.txs[i]).block_uid <= x ==> m1.txs.contains(
                    m.txs[i],
                )
            &&& forall|k: int|
                0 <= k < m1.txs.len() ==> (#[trigger] m1.txs[k]).block_uid <= x
                    && m.txs.contains(m1.txs[k])
        }),
{
    broadcast use vstd::seq_lib::group_filter_ensures;

    let x = spec_block_uid(m.blocks, r.block_id)->Some_0;
    lemma_rollback_inv(m, x);
    lemma_blocks_filter(m.blocks, |b: BlockRowV| b.uid <= x);
    lemma_txs_filter(m.txs, |t: TxRowV| t.block_uid <= x);
}

} // verus!
