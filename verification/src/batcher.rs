//! Reorg-absorbing batcher for the pipeline's event stream.
//!
//! The batcher stages events in an ordered buffer. A rollback whose target
//! is still buffered folds in memory: the buffered suffix after the target
//! is discarded and the rollback itself vanishes. A rollback whose target
//! has already left the buffer is enqueued for the writer. The flush policy
//! releases work under size and latency bounds while delaying the most
//! recent microblock by one flush, so that the most common reorganization
//! (a same-height microblock replacement) never reaches the store.
//!
//! The batcher holds no clock: callers pass the milliseconds elapsed since
//! the last flush to [`Batcher::need_flush`].

use vstd::prelude::*;

use crate::updates::AppendBlockV;
use crate::updates::BlockchainUpdate;
use crate::updates::BlockchainUpdateV;
use crate::updates::RollbackV;

verus! {

/// Bounds on batch size and batch latency; an unset bound does not hold
/// work back.
#[derive(Copy, Clone, Default, Debug)]
pub struct BatchingParams {
    pub max_updates: Option<usize>,
    pub max_delay_ms: Option<u64>,
}

/// The staging buffer and the height/timestamp cache used to patch
/// microblock timestamps.
pub struct Batcher {
    pub batching_params: BatchingParams,
    pub buffer: Vec<BlockchainUpdate>,
    pub last_block_timestamp: Option<u64>,
    pub last_block_height: Option<u32>,
}

/// Spec-level image of a [`Batcher`].
pub struct BatcherV {
    pub batching_params: BatchingParams,
    pub buffer: Seq<BlockchainUpdateV>,
    pub last_block_timestamp: Option<u64>,
    pub last_block_height: Option<u32>,
}

impl DeepView for Batcher {
    type V = BatcherV;

    open spec fn deep_view(&self) -> BatcherV {
        BatcherV {
            batching_params: self.batching_params,
            buffer: self.buffer.deep_view(),
            last_block_timestamp: self.last_block_timestamp,
            last_block_height: self.last_block_height,
        }
    }
}

/// True when the event is an append of the named block.
pub open spec fn spec_matches_append(u: BlockchainUpdateV, block_id: Seq<char>) -> bool {
    match u {
        BlockchainUpdateV::Append(a) => a.block_id == block_id,
        BlockchainUpdateV::Rollback(_) => false,
    }
}

/// The greatest buffer index holding an append of the named block.
pub open spec fn spec_rfind_append(buffer: Seq<BlockchainUpdateV>, block_id: Seq<char>) -> Option<
    int,
>
    decreases buffer.len(),
{
    if buffer.len() == 0 {
        None
    } else if spec_matches_append(buffer.last(), block_id) {
        Some(buffer.len() - 1)
    } else {
        spec_rfind_append(buffer.drop_last(), block_id)
    }
}

/// [`spec_rfind_append`] returns the greatest matching index, or `None`
/// when no append of the block is buffered.
pub proof fn lemma_rfind_append(buffer: Seq<BlockchainUpdateV>, block_id: Seq<char>)
    ensures
        match spec_rfind_append(buffer, block_id) {
            Some(i) => {
                &&& 0 <= i < buffer.len()
                &&& spec_matches_append(buffer[i], block_id)
                &&& forall|j: int|
                    i < j < buffer.len() ==> !spec_matches_append(#[trigger] buffer[j], block_id)
            },
            None => forall|j: int|
                0 <= j < buffer.len() ==> !spec_matches_append(#[trigger] buffer[j], block_id),
        },
    decreases buffer.len(),
{
    if buffer.len() > 0 && !spec_matches_append(buffer.last(), block_id) {
        lemma_rfind_append(buffer.drop_last(), block_id);
        match spec_rfind_append(buffer, block_id) {
            Some(i) => {
                assert forall|j: int| i < j < buffer.len() implies !spec_matches_append(
                    #[trigger] buffer[j],
                    block_id,
                ) by {
                    if j < buffer.len() - 1 {
                        assert(buffer.drop_last()[j] == buffer[j]);
                    }
                }
            },
            None => {
                assert forall|j: int| 0 <= j < buffer.len() implies !spec_matches_append(
                    #[trigger] buffer[j],
                    block_id,
                ) by {
                    if j < buffer.len() - 1 {
                        assert(buffer.drop_last()[j] == buffer[j]);
                    }
                }
            },
        }
    }
}

/// Whether ingesting the event cannot hit a programmer-error assertion: a
/// microblock without its own timestamp must extend the cached block at the
/// same height.
pub open spec fn spec_ingest_ok(s: BatcherV, u: BlockchainUpdateV) -> bool {
    match u {
        BlockchainUpdateV::Append(a) => (a.is_microblock && a.timestamp is None) ==> {
            &&& s.last_block_height == Some(a.height)
            &&& s.last_block_timestamp is Some
        },
        BlockchainUpdateV::Rollback(_) => true,
    }
}

/// The batcher's state after ingesting one event.
pub open spec fn spec_ingest(s: BatcherV, u: BlockchainUpdateV) -> BatcherV {
    match u {
        BlockchainUpdateV::Append(a) => {
            if a.is_microblock && a.timestamp is None {
                let patched = AppendBlockV { timestamp: s.last_block_timestamp, ..a };
                BatcherV { buffer: s.buffer.push(BlockchainUpdateV::Append(patched)), ..s }
            } else {
                BatcherV {
                    buffer: s.buffer.push(BlockchainUpdateV::Append(a)),
                    last_block_height: Some(a.height),
                    last_block_timestamp: a.timestamp,
                    ..s
                }
            }
        },
        BlockchainUpdateV::Rollback(r) => {
            match spec_rfind_append(s.buffer, r.block_id) {
                Some(i) => BatcherV { buffer: s.buffer.take(i + 1), ..s },
                None => BatcherV {
                    buffer: s.buffer.push(u),
                    last_block_height: None,
                    last_block_timestamp: None,
                    ..s
                },
            }
        },
    }
}

/// True when any buffered event is a rollback.
pub open spec fn spec_has_rollback(buffer: Seq<BlockchainUpdateV>) -> bool {
    exists|i: int| 0 <= i < buffer.len() && (#[trigger] buffer[i]) is Rollback
}

/// True when the buffer's most recent event is a microblock append.
pub open spec fn spec_tail_is_microblock(buffer: Seq<BlockchainUpdateV>) -> bool {
    buffer.len() > 0 && match buffer.last() {
        BlockchainUpdateV::Append(a) => a.is_microblock,
        BlockchainUpdateV::Rollback(_) => false,
    }
}

/// The flush predicate, checked after each ingest; `elapsed_ms` is the time
/// since the last flush.
pub open spec fn spec_need_flush(s: BatcherV, elapsed_ms: u64) -> bool {
    if s.buffer.len() == 0 {
        false
    } else if s.buffer.last() is Rollback {
        false
    } else if spec_has_rollback(s.buffer) {
        true
    } else if s.buffer.len() > 1 && spec_tail_is_microblock(s.buffer) {
        true
    } else if s.batching_params.max_updates is Some && s.buffer.len()
        >= s.batching_params.max_updates->Some_0 {
        true
    } else if s.batching_params.max_delay_ms is Some && elapsed_ms
        >= s.batching_params.max_delay_ms->Some_0 {
        true
    } else if s.batching_params.max_updates is None && s.batching_params.max_delay_ms is None {
        true
    } else {
        false
    }
}

/// What a flush emits: the whole buffer, minus a delayed microblock tail.
pub open spec fn spec_flush_emitted(s: BatcherV) -> Seq<BlockchainUpdateV> {
    if spec_tail_is_microblock(s.buffer) {
        s.buffer.drop_last()
    } else {
        s.buffer
    }
}

/// What a flush retains: the delayed microblock tail, if any.
pub open spec fn spec_flush_kept(s: BatcherV) -> Seq<BlockchainUpdateV> {
    if spec_tail_is_microblock(s.buffer) {
        seq![s.buffer.last()]
    } else {
        Seq::empty()
    }
}

impl Batcher {
    /// An empty batcher with the given bounds.
    pub fn new(batching_params: BatchingParams) -> (r: Batcher)
        ensures
            r.deep_view() == (BatcherV {
                batching_params,
                buffer: Seq::<BlockchainUpdateV>::empty(),
                last_block_timestamp: None::<u64>,
                last_block_height: None::<u32>,
            }),
    {
        let r = Batcher {
            batching_params,
            buffer: Vec::new(),
            last_block_timestamp: None,
            last_block_height: None,
        };
        proof {
            assert(r.buffer.deep_view() =~= Seq::<BlockchainUpdateV>::empty());
        }
        r
    }

    /// Ingests one event: an append is staged (a bare microblock inherits
    /// the cached timestamp); a rollback folds against the buffer when its
    /// target is present, else it is staged for the writer and the cache is
    /// cleared.
    #[verifier::loop_isolation(false)]
    pub fn push_update(&mut self, update: BlockchainUpdate)
        requires
            spec_ingest_ok(old(self).deep_view(), update.deep_view()),
        ensures
            final(self).deep_view() == spec_ingest(old(self).deep_view(), update.deep_view()),
    {
        let ghost s0 = self.deep_view();
        let ghost uv = update.deep_view();
        match update {
            BlockchainUpdate::Append(mut append) => {
                if append.is_microblock && append.timestamp.is_none() {
                    append.timestamp = self.last_block_timestamp;
                } else {
                    self.last_block_height = Some(append.height);
                    self.last_block_timestamp = append.timestamp;
                }
                let ghost patched = append.deep_view();
                self.buffer.push(BlockchainUpdate::Append(append));
                proof {
                    assert(self.buffer.deep_view() =~= s0.buffer.push(
                        BlockchainUpdateV::Append(patched),
                    ));
                    assert(self.deep_view() == spec_ingest(s0, uv));
                }
            },
            BlockchainUpdate::Rollback(rollback) => {
                let ghost buf0 = s0.buffer;
                let ghost id = rollback.block_id@;
                let mut i: usize = self.buffer.len();
                while i > 0
                    invariant
                        i <= self.buffer@.len(),
                        self.deep_view() == s0,
                        buf0 == s0.buffer,
                        id == rollback.block_id@,
                        uv == BlockchainUpdateV::Rollback(RollbackV { block_id: id }),
                        forall|j: int|
                            i <= j < buf0.len() ==> !spec_matches_append(#[trigger] buf0[j], id),
                    decreases i,
                {
                    i -= 1;
                    let found = match &self.buffer[i] {
                        BlockchainUpdate::Append(a) => a.block_id == rollback.block_id,
                        BlockchainUpdate::Rollback(_) => false,
                    };
                    if found {
                        proof {
                            assert(spec_matches_append(buf0[i as int], id));
                            lemma_rfind_append_some(buf0, id, i as int);
                        }
                        self.buffer.truncate(i + 1);
                        proof {
                            assert(self.buffer.deep_view() =~= buf0.take(i + 1));
                            assert(self.deep_view() == spec_ingest(s0, uv));
                        }
                        return ;
                    }
                }
                proof {
                    lemma_rfind_append_none(buf0, id);
                }
                self.last_block_height = None;
                self.last_block_timestamp = None;
                self.buffer.push(BlockchainUpdate::Rollback(rollback));
                proof {
                    assert(self.buffer.deep_view() =~= buf0.push(
                        BlockchainUpdateV::Rollback(RollbackV { block_id: id }),
                    ));
                    assert(self.deep_view() == spec_ingest(s0, uv));
                }
            },
        }
    }

    /// Evaluates the flush predicate for the given time since the last
    /// flush.
    pub fn need_flush(&self, elapsed_ms: u64) -> (r: bool)
        ensures
            r == spec_need_flush(self.deep_view(), elapsed_ms),
    {
        let n = self.buffer.len();
        if n == 0 {
            return false;
        }
        let tail_is_rollback = match &self.buffer[n - 1] {
            BlockchainUpdate::Rollback(_) => true,
            BlockchainUpdate::Append(_) => false,
        };
        if tail_is_rollback {
            return false;
        }
        let mut i: usize = 0;
        let mut any_rollback = false;
        while i < n
            invariant
                n == self.buffer@.len(),
                i <= n,
                any_rollback ==> spec_has_rollback(self.deep_view().buffer),
                !any_rollback ==> forall|j: int|
                    0 <= j < i ==> !((#[trigger] self.deep_view().buffer[j]) is Rollback),
            decreases n - i,
        {
            match &self.buffer[i] {
                BlockchainUpdate::Rollback(_) => {
                    any_rollback = true;
                    proof {
                        assert((self.deep_view().buffer[i as int]) is Rollback);
                    }
                },
                BlockchainUpdate::Append(_) => {},
            }
            i += 1;
        }
        if any_rollback {
            return true;
        }
        let tail_is_microblock = match &self.buffer[n - 1] {
            BlockchainUpdate::Append(a) => a.is_microblock,
            BlockchainUpdate::Rollback(_) => false,
        };
        if n > 1 && tail_is_microblock {
            return true;
        }
        if let Some(max_updates) = self.batching_params.max_updates {
            if n >= max_updates {
                return true;
            }
        }
        if let Some(max_delay_ms) = self.batching_params.max_delay_ms {
            if elapsed_ms >= max_delay_ms {
                return true;
            }
        }
        if self.batching_params.max_updates.is_none() && self.batching_params.max_delay_ms.is_none() {
            return true;
        }
        false
    }

    /// Drains the buffer into the emitted batch, keeping a delayed
    /// microblock tail behind; the timestamp/height cache is untouched.
    pub fn flush(&mut self) -> (batch: Vec<BlockchainUpdate>)
        ensures
            batch.deep_view() == spec_flush_emitted(old(self).deep_view()),
            final(self).deep_view() == (BatcherV {
                buffer: spec_flush_kept(old(self).deep_view()),
                ..old(self).deep_view()
            }),
    {
        let mut batch: Vec<BlockchainUpdate> = Vec::new();
        core::mem::swap(&mut batch, &mut self.buffer);
        proof {
            assert(self.buffer.deep_view() =~= Seq::<BlockchainUpdateV>::empty());
        }
        let n = batch.len();
        let delayed_tail = n > 0 && match &batch[n - 1] {
            BlockchainUpdate::Append(a) => a.is_microblock,
            BlockchainUpdate::Rollback(_) => false,
        };
        if delayed_tail {
            let ghost batch0 = batch.deep_view();
            match batch.pop() {
                Some(delayed) => {
                    self.buffer.push(delayed);
                    proof {
                        assert(batch.deep_view() =~= batch0.drop_last());
                        assert(self.buffer.deep_view() =~= seq![batch0.last()]);
                    }
                },
                None => {},
            }
        }
        batch
    }
}

/// Rollback absorption: when the rollback's target is the next-to-last
/// buffered event and the tail does not also carry its id, ingesting the
/// rollback discards exactly the tail along with the rollback itself; the
/// timestamp cache and the rest of the buffer are untouched, and nothing is
/// enqueued for the store.
pub proof fn lemma_rollback_absorption(s: BatcherV, r: RollbackV)
    requires
        s.buffer.len() >= 2,
        spec_matches_append(s.buffer[s.buffer.len() - 2], r.block_id),
        !spec_matches_append(s.buffer[s.buffer.len() - 1], r.block_id),
    ensures
        spec_ingest(s, BlockchainUpdateV::Rollback(r)) == (BatcherV {
            buffer: s.buffer.take(s.buffer.len() - 1),
            ..s
        }),
{
    lemma_rfind_append_some(s.buffer, r.block_id, s.buffer.len() - 2);
}

/// Rollback escalation, batcher side: when no buffered append carries the
/// rollback's id, the rollback is enqueued for the writer and the
/// height/timestamp cache is cleared; the flush waits for a replacement
/// event, since the tail is now a rollback.
pub proof fn lemma_rollback_escalation(s: BatcherV, r: RollbackV, elapsed_ms: u64)
    requires
        forall|j: int|
            0 <= j < s.buffer.len() ==> !spec_matches_append(#[trigger] s.buffer[j], r.block_id),
    ensures
        spec_ingest(s, BlockchainUpdateV::Rollback(r)) == (BatcherV {
            buffer: s.buffer.push(BlockchainUpdateV::Rollback(r)),
            last_block_height: None::<u32>,
            last_block_timestamp: None::<u64>,
            ..s
        }),
        spec_has_rollback(spec_ingest(s, BlockchainUpdateV::Rollback(r)).buffer),
        !spec_need_flush(spec_ingest(s, BlockchainUpdateV::Rollback(r)), elapsed_ms),
{
    lemma_rfind_append_none(s.buffer, r.block_id);
    let s1 = spec_ingest(s, BlockchainUpdateV::Rollback(r));
    assert(s1.buffer[s1.buffer.len() - 1] is Rollback);
}

/// Rollback escalation, flush side: once a later event leaves a
/// non-rollback tail above a buffered rollback, the flush predicate fires
/// regardless of the configured bounds or the elapsed time.
pub proof fn lemma_escalated_rollback_flushes(s: BatcherV, elapsed_ms: u64)
    requires
        spec_has_rollback(s.buffer),
        s.buffer.len() > 0,
        !(s.buffer.last() is Rollback),
    ensures
        spec_need_flush(s, elapsed_ms),
{
}

/// Microblock delay: from an empty buffer, a full block followed by its
/// bare microblock causes one flush that emits the parent block alone; the
/// microblock stays buffered and carries the block's timestamp in place of
/// its missing one.
pub proof fn lemma_microblock_delay(s: BatcherV, b: AppendBlockV, m: AppendBlockV, e1: u64, e2: u64)
    requires
        s.buffer.len() == 0,
        !b.is_microblock,
        b.timestamp is Some,
        m.is_microblock,
        m.timestamp is None,
        m.height == b.height,
        s.batching_params.max_updates is Some,
        s.batching_params.max_updates->Some_0 >= 2,
        s.batching_params.max_delay_ms is Some ==> e1 < s.batching_params.max_delay_ms->Some_0,
    ensures
        ({
            let s1 = spec_ingest(s, BlockchainUpdateV::Append(b));
            let s2 = spec_ingest(s1, BlockchainUpdateV::Append(m));
            let patched = AppendBlockV { timestamp: b.timestamp, ..m };
            &&& !spec_need_flush(s1, e1)
            &&& spec_ingest_ok(s1, BlockchainUpdateV::Append(m))
            &&& s2.buffer == seq![
                BlockchainUpdateV::Append(b),
                BlockchainUpdateV::Append(patched),
            ]
            &&& spec_need_flush(s2, e2)
            &&& spec_flush_emitted(s2) == seq![BlockchainUpdateV::Append(b)]
            &&& spec_flush_kept(s2) == seq![BlockchainUpdateV::Append(patched)]
        }),
{
    let s1 = spec_ingest(s, BlockchainUpdateV::Append(b));
    let s2 = spec_ingest(s1, BlockchainUpdateV::Append(m));
    let patched = AppendBlockV { timestamp: b.timestamp, ..m };
    assert(s1.buffer =~= seq![BlockchainUpdateV::Append(b)]);
    assert(!spec_has_rollback(s1.buffer)) by {
        assert forall|i: int| 0 <= i < s1.buffer.len() implies !((#[trigger] s1.buffer[i])
            is Rollback) by {}
    }
    assert(s2.buffer =~= seq![BlockchainUpdateV::Append(b), BlockchainUpdateV::Append(patched)]);
    assert(!spec_has_rollback(s2.buffer)) by {
        assert forall|i: int| 0 <= i < s2.buffer.len() implies !((#[trigger] s2.buffer[i])
            is Rollback) by {}
    }
    assert(spec_tail_is_microblock(s2.buffer));
    assert(spec_flush_emitted(s2) =~= seq![BlockchainUpdateV::Append(b)]);
}

/// The pressure invariant behind the size bound: the buffer never exceeds
/// the configured maximum, and only its most recent event may be an
/// escalated rollback.
pub open spec fn spec_pressure_inv(s: BatcherV, n: usize) -> bool {
    &&& s.buffer.len() <= n
    &&& forall|j: int| 0 <= j < s.buffer.len() - 1 ==> !((#[trigger] s.buffer[j]) is Rollback)
}

/// Bounded pressure: with `max_updates` set to `n`, a state that was left
/// unflushed never grows past `n + 1` events by one ingest (the one extra
/// being the event that triggers the flush), and whatever the flush
/// decision, the invariant is restored.
///
/// The requirement that a rollback only arrives while no earlier rollback
/// is still buffered reflects the upstream's ordering; without it a train
/// of unabsorbable rollbacks could grow the buffer past any bound, since a
/// rollback tail holds flushes back.
pub proof fn lemma_bounded_pressure(s: BatcherV, u: BlockchainUpdateV, n: usize, elapsed_ms: u64)
    requires
        s.batching_params.max_updates == Some(n),
        n >= 1,
        spec_pressure_inv(s, n),
        !spec_need_flush(s, 0),
        u is Rollback ==> !spec_has_rollback(s.buffer),
        u matches BlockchainUpdateV::Append(a) ==> spec_ingest_ok(s, u),
    ensures
        ({
            let s1 = spec_ingest(s, u);
            &&& s1.buffer.len() <= n + 1
            &&& spec_need_flush(s1, elapsed_ms) ==> spec_pressure_inv(
                BatcherV { buffer: spec_flush_kept(s1), ..s1 },
                n,
            )
            &&& !spec_need_flush(s1, elapsed_ms) ==> spec_pressure_inv(s1, n)
        }),
{
    let s1 = spec_ingest(s, u);
    let flushed = BatcherV { buffer: spec_flush_kept(s1), ..s1 };
    assert(flushed.buffer.len() <= 1);
    match u {
        BlockchainUpdateV::Append(_) => {
            if s.buffer.len() == 0 {
                assert(s1.buffer.len() == 1);
            } else if s.buffer.last() is Rollback {
                // A replacement append above an escalated rollback: the
                // flush fires at once, and the flushed state is small.
                assert(s.buffer[s.buffer.len() - 1] is Rollback);
                assert(spec_has_rollback(s1.buffer)) by {
                    assert(s1.buffer[s.buffer.len() - 1] is Rollback);
                }
                assert(!(s1.buffer.last() is Rollback));
                assert(spec_need_flush(s1, elapsed_ms));
            } else {
                // No rollback buffered; the size bound was not yet reached.
                assert(!spec_has_rollback(s.buffer));
                assert(s.buffer.len() < n);
                assert forall|j: int| 0 <= j < s1.buffer.len() - 1 implies !((
                #[trigger] s1.buffer[j]) is Rollback) by {
                    if j < s.buffer.len() - 1 {
                    } else {
                        assert(!spec_has_rollback(s.buffer));
                        assert(!(s.buffer[j] is Rollback));
                    }
                }
            }
        },
        BlockchainUpdateV::Rollback(r) => {
            lemma_rfind_append(s.buffer, r.block_id);
            match spec_rfind_append(s.buffer, r.block_id) {
                Some(i) => {
                    assert(s1.buffer =~= s.buffer.take(i + 1));
                    assert forall|j: int| 0 <= j < s1.buffer.len() - 1 implies !((
                    #[trigger] s1.buffer[j]) is Rollback) by {
                        assert(s1.buffer[j] == s.buffer[j]);
                        if j < s.buffer.len() - 1 {
                        } else {
                            assert(!spec_has_rollback(s.buffer));
                            assert(!(s.buffer[j] is Rollback));
                        }
                    }
                },
                None => {
                    if s.buffer.len() > 0 {
                        if s.buffer.last() is Rollback {
                            assert(spec_has_rollback(s.buffer)) by {
                                assert(s.buffer[s.buffer.len() - 1] is Rollback);
                            }
                            assert(false);
                        }
                        assert(s.buffer.len() < n);
                    }
                    assert forall|j: int| 0 <= j < s1.buffer.len() - 1 implies !((
                    #[trigger] s1.buffer[j]) is Rollback) by {
                        assert(s1.buffer[j] == s.buffer[j]);
                        assert(!(s.buffer[j] is Rollback)) by {
                            assert(!spec_has_rollback(s.buffer));
                        }
                    }
                },
            }
        },
    }
}

/// Helper for the backward scan: a match at `i` with no match after it is
/// the greatest match.
proof fn lemma_rfind_append_some(buffer: Seq<BlockchainUpdateV>, block_id: Seq<char>, i: int)
    requires
        0 <= i < buffer.len(),
        spec_matches_append(buffer[i], block_id),
        forall|j: int| i < j < buffer.len() ==> !spec_matches_append(#[trigger] buffer[j], block_id),
    ensures
        spec_rfind_append(buffer, block_id) == Some(i),
    decreases buffer.len(),
{
    if i == buffer.len() - 1 {
    } else {
        assert(buffer.drop_last()[i] == buffer[i]);
        assert(forall|j: int|
            i < j < buffer.drop_last().len() ==> !spec_matches_append(
                #[trigger] buffer.drop_last()[j],
                block_id,
            ));
        lemma_rfind_append_some(buffer.drop_last(), block_id, i);
    }
}

/// Helper for the backward scan: no match anywhere means no fold target.
proof fn lemma_rfind_append_none(buffer: Seq<BlockchainUpdateV>, block_id: Seq<char>)
    requires
        forall|j: int| 0 <= j < buffer.len() ==> !spec_matches_append(#[trigger] buffer[j], block_id),
    ensures
        spec_rfind_append(buffer, block_id) is None,
    decreases buffer.len(),
{
    if buffer.len() > 0 {
        assert(forall|j: int|
            0 <= j < buffer.drop_last().len() ==> !spec_matches_append(
                #[trigger] buffer.drop_last()[j],
                block_id,
            ));
        lemma_rfind_append_none(buffer.drop_last(), block_id);
    }
}

} // verus!
