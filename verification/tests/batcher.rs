use operations::batcher::Batcher;
use operations::batcher::BatchingParams;
use operations::updates::AppendBlock;
use operations::updates::BlockchainUpdate;
use operations::updates::Rollback;

fn block(id: &str, height: u32, ts: u64) -> BlockchainUpdate {
    BlockchainUpdate::Append(AppendBlock {
        block_id: id.to_owned(),
        height,
        timestamp: Some(ts),
        is_microblock: false,
        transactions: Vec::new(),
    })
}

fn micro(id: &str, height: u32) -> BlockchainUpdate {
    BlockchainUpdate::Append(AppendBlock {
        block_id: id.to_owned(),
        height,
        timestamp: None,
        is_microblock: true,
        transactions: Vec::new(),
    })
}

fn rollback(id: &str) -> BlockchainUpdate {
    BlockchainUpdate::Rollback(Rollback { block_id: id.to_owned() })
}

fn params(max_updates: usize) -> BatchingParams {
    BatchingParams { max_updates: Some(max_updates), max_delay_ms: None }
}

fn drive(batcher: &mut Batcher, events: Vec<BlockchainUpdate>) -> Vec<Vec<BlockchainUpdate>> {
    let mut batches = Vec::new();
    for event in events {
        batcher.push_update(event);
        if batcher.need_flush(0) {
            batches.push(batcher.flush());
        }
    }
    batches
}

fn ids(batch: &[BlockchainUpdate]) -> Vec<String> {
    batch
        .iter()
        .map(|u| match u {
            BlockchainUpdate::Append(a) => a.block_id.clone(),
            BlockchainUpdate::Rollback(r) => format!("rollback:{}", r.block_id),
        })
        .collect()
}

#[test]
fn three_blocks_fill_one_batch() {
    let mut b = Batcher::new(params(3));
    let batches = drive(
        &mut b,
        vec![block("b1", 1, 100), block("b2", 2, 200), block("b3", 3, 300)],
    );
    assert_eq!(batches.len(), 1);
    assert_eq!(ids(&batches[0]), vec!["b1", "b2", "b3"]);
    assert!(b.buffer.is_empty());
}

#[test]
fn microblock_inherits_timestamp_and_is_delayed() {
    let mut b = Batcher::new(params(3));
    let batches = drive(&mut b, vec![block("b1", 1, 100), micro("m1", 1)]);
    // The microblock tail triggers a flush of everything before it; the
    // microblock itself stays behind, carrying the block's timestamp.
    assert_eq!(batches.len(), 1);
    assert_eq!(ids(&batches[0]), vec!["b1"]);
    assert_eq!(b.buffer.len(), 1);
    match &b.buffer[0] {
        BlockchainUpdate::Append(a) => {
            assert_eq!(a.block_id, "m1");
            assert_eq!(a.timestamp, Some(100));
            assert!(a.is_microblock);
        }
        _ => panic!("expected the delayed microblock"),
    }
}

#[test]
fn block_after_delayed_microblock_stays_buffered() {
    let mut b = Batcher::new(params(3));
    let batches = drive(
        &mut b,
        vec![block("b1", 1, 100), micro("m1", 1), block("b2", 2, 200)],
    );
    assert_eq!(batches.len(), 1);
    assert_eq!(ids(&batches[0]), vec!["b1"]);
    assert_eq!(ids(&b.buffer), vec!["m1", "b2"]);
}

#[test]
fn second_microblock_displaces_the_delayed_one() {
    let mut b = Batcher::new(params(3));
    let batches = drive(&mut b, vec![block("b1", 1, 100), micro("m1", 1), micro("m2", 1)]);
    assert_eq!(batches.len(), 2);
    assert_eq!(ids(&batches[0]), vec!["b1"]);
    assert_eq!(ids(&batches[1]), vec!["m1"]);
    assert_eq!(ids(&b.buffer), vec!["m2"]);
}

#[test]
fn rollback_folds_against_buffered_append() {
    let mut b = Batcher::new(params(10));
    let batches = drive(
        &mut b,
        vec![block("b1", 1, 100), block("b2", 2, 200), rollback("b1")],
    );
    // The target is still buffered: its suffix and the rollback vanish,
    // and nothing reaches the writer.
    assert_eq!(batches.len(), 0);
    assert_eq!(ids(&b.buffer), vec!["b1"]);
}

#[test]
fn rollback_of_flushed_block_is_escalated() {
    let mut b = Batcher::new(params(3));
    let batches = drive(&mut b, vec![block("b1", 1, 100), micro("m1", 1), rollback("b1")]);
    // b1 already left the buffer, so the rollback is queued for the
    // writer; the rollback tail holds the flush back.
    assert_eq!(batches.len(), 1);
    assert_eq!(ids(&batches[0]), vec!["b1"]);
    assert_eq!(ids(&b.buffer), vec!["m1", "rollback:b1"]);
    assert_eq!(b.last_block_height, None);
    assert_eq!(b.last_block_timestamp, None);
}

#[test]
fn lone_unknown_rollback_waits_for_a_replacement() {
    let mut b = Batcher::new(params(3));
    let batches = drive(&mut b, vec![rollback("bX")]);
    assert_eq!(batches.len(), 0);
    assert_eq!(ids(&b.buffer), vec!["rollback:bX"]);
    // The next append releases the escalated rollback at once.
    let batches = drive(&mut b, vec![block("b9", 9, 900)]);
    assert_eq!(batches.len(), 1);
    assert_eq!(ids(&batches[0]), vec!["rollback:bX", "b9"]);
}

#[test]
fn flush_size_stays_within_bound_plus_one() {
    let n = 2usize;
    let mut b = Batcher::new(params(n));
    let mut events = vec![
        block("b1", 1, 100),
        block("b2", 2, 200),
        rollback("bX"),
        block("b3", 3, 300),
        micro("m1", 3),
        micro("m2", 3),
        block("b4", 4, 400),
    ];
    let mut batches = Vec::new();
    for event in events.drain(..) {
        b.push_update(event);
        assert!(b.buffer.len() <= n + 1);
        if b.need_flush(0) {
            batches.push(b.flush());
        }
    }
    for batch in &batches {
        assert!(batch.len() <= n + 1);
    }
}

#[test]
fn time_bound_flushes_a_lone_block() {
    let mut b = Batcher::new(BatchingParams { max_updates: Some(100), max_delay_ms: Some(50) });
    b.push_update(block("b1", 1, 100));
    assert!(!b.need_flush(49));
    assert!(b.need_flush(50));
}

#[test]
fn no_bounds_means_flush_every_event() {
    let mut b = Batcher::new(BatchingParams { max_updates: None, max_delay_ms: None });
    let batches = drive(&mut b, vec![block("b1", 1, 100), block("b2", 2, 200)]);
    assert_eq!(batches.len(), 2);
}
