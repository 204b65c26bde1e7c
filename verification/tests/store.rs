use operations::model::Amount;
use operations::model::Arg;
use operations::model::Call;
use operations::model::OperationType;
use operations::model::Transaction;
use operations::model::TransactionType;
use operations::store::apply_batch;
use operations::store::MemRepo;
use operations::store::MemStorage;
use operations::store::Repo;
use operations::store::StoreError;
use operations::updates::AppendBlock;
use operations::updates::BlockchainUpdate;
use operations::updates::Rollback;

fn tx(id: &str) -> Transaction {
    Transaction {
        id: id.to_owned(),
        op_type: OperationType::InvokeScript,
        tx_type: TransactionType::InvokeScript,
        height: 1,
        timestamp: 100,
        fee: Amount { amount: 1, asset_id: "WAVES".to_owned() },
        sender: "sender".to_owned(),
        sender_public_key: "pk".to_owned(),
        proofs: Vec::new(),
        dapp: "dapp".to_owned(),
        payment: Vec::new(),
        call: Call { function: "f".to_owned(), args: vec![Arg::Integer(1)] },
    }
}

fn append(id: &str, height: u32, ts: u64, txs: Vec<Transaction>) -> BlockchainUpdate {
    BlockchainUpdate::Append(AppendBlock {
        block_id: id.to_owned(),
        height,
        timestamp: Some(ts),
        is_microblock: false,
        transactions: txs,
    })
}

fn rollback(id: &str) -> BlockchainUpdate {
    BlockchainUpdate::Rollback(Rollback { block_id: id.to_owned() })
}

#[test]
fn appends_persist_in_input_order_with_increasing_uids() {
    let mut storage = MemStorage::new();
    let batch = vec![
        append("b1", 1, 100, Vec::new()),
        append("b2", 2, 200, Vec::new()),
        append("b3", 3, 300, Vec::new()),
    ];
    let height = storage.write_batch(&batch).expect("applies");
    assert_eq!(height, Some(3));
    let blocks = &storage.repo.blocks;
    assert_eq!(blocks.len(), 3);
    assert_eq!(blocks[0].id, "b1");
    assert_eq!(blocks[1].id, "b2");
    assert_eq!(blocks[2].id, "b3");
    assert!(blocks[0].uid < blocks[1].uid && blocks[1].uid < blocks[2].uid);
    assert_eq!(blocks[0].height, 1);
    assert_eq!(blocks[0].time_stamp, 100);
}

#[test]
fn transactions_follow_their_block() {
    let mut storage = MemStorage::new();
    let batch = vec![append("b1", 1, 100, vec![tx("t1"), tx("t2")])];
    storage.write_batch(&batch).expect("applies");
    assert_eq!(storage.repo.txs.len(), 2);
    let block_uid = storage.repo.blocks[0].uid;
    assert_eq!(storage.repo.txs[0].block_uid, block_uid);
    assert_eq!(storage.repo.txs[1].block_uid, block_uid);
    assert_eq!(storage.repo.txs[0].id, "t1");
    assert_eq!(storage.repo.txs[0].sender, "sender");
    assert_eq!(storage.repo.txs[0].tx_type, 16);
    assert!(storage.repo.txs[0].uid < storage.repo.txs[1].uid);
}

#[test]
fn append_then_rollback_keeps_the_target_and_its_rows() {
    let mut storage = MemStorage::new();
    let batch = vec![append("b1", 1, 100, vec![tx("t1")]), rollback("b1")];
    let height = storage.write_batch(&batch).expect("applies");
    assert_eq!(height, Some(1));
    assert_eq!(storage.repo.blocks.len(), 1);
    assert_eq!(storage.repo.blocks[0].id, "b1");
    assert_eq!(storage.repo.txs.len(), 1);
    assert_eq!(storage.repo.txs[0].id, "t1");
}

#[test]
fn rollback_deletes_the_suffix_after_its_target() {
    let mut storage = MemStorage::new();
    storage
        .write_batch(&vec![
            append("b1", 1, 100, vec![tx("t1")]),
            append("b2", 2, 200, vec![tx("t2")]),
            append("b3", 3, 300, vec![tx("t3")]),
        ])
        .expect("applies");
    storage.write_batch(&vec![rollback("b2")]).expect("applies");
    let ids: Vec<&str> = storage.repo.blocks.iter().map(|b| b.id.as_str()).collect();
    assert_eq!(ids, vec!["b1", "b2"]);
    let tx_ids: Vec<&str> = storage.repo.txs.iter().map(|t| t.id.as_str()).collect();
    assert_eq!(tx_ids, vec!["t1", "t2"]);
}

#[test]
fn failed_batch_leaves_no_trace() {
    let mut storage = MemStorage::new();
    storage
        .write_batch(&vec![append("b1", 1, 100, vec![tx("t1")])])
        .expect("applies");
    let before_blocks = storage.repo.blocks.len();
    let before_txs = storage.repo.txs.len();
    let before_next = storage.repo.next_uid;
    let batch = vec![append("b2", 2, 200, vec![tx("t2")]), rollback("unknown")];
    let result = storage.write_batch(&batch);
    assert_eq!(result, Err(StoreError::NotFound));
    assert_eq!(storage.repo.blocks.len(), before_blocks);
    assert_eq!(storage.repo.txs.len(), before_txs);
    assert_eq!(storage.repo.next_uid, before_next);
}

#[test]
fn apply_batch_reports_the_last_appended_height() {
    let mut repo = MemRepo::new();
    let batch = vec![append("b1", 5, 100, Vec::new()), append("b2", 6, 200, Vec::new())];
    assert_eq!(apply_batch(&mut repo, &batch), Ok(Some(6)));
    let batch = vec![rollback("b1")];
    assert_eq!(apply_batch(&mut repo, &batch), Ok(None));
}

#[test]
fn last_height_reports_the_maximum() {
    let mut repo = MemRepo::new();
    assert_eq!(repo.last_height(), Ok(None));
    apply_batch(
        &mut repo,
        &vec![append("b1", 5, 100, Vec::new()), append("b2", 9, 200, Vec::new())],
    )
    .expect("applies");
    assert_eq!(repo.last_height(), Ok(Some(9)));
}

#[test]
fn rollback_to_height_drops_taller_blocks() {
    let mut repo = MemRepo::new();
    apply_batch(
        &mut repo,
        &vec![
            append("b1", 1, 100, vec![tx("t1")]),
            append("b2", 2, 200, vec![tx("t2")]),
            append("b3", 3, 300, Vec::new()),
        ],
    )
    .expect("applies");
    repo.rollback_to_height(2).expect("rolls back");
    let ids: Vec<&str> = repo.blocks.iter().map(|b| b.id.as_str()).collect();
    assert_eq!(ids, vec!["b1", "b2"]);
    assert_eq!(repo.txs.len(), 2);
}

#[test]
fn block_uid_finds_only_persisted_blocks() {
    let mut repo = MemRepo::new();
    apply_batch(&mut repo, &vec![append("b1", 1, 100, Vec::new())]).expect("applies");
    let uid = repo.block_uid("b1").expect("found");
    assert_eq!(uid, repo.blocks[0].uid);
    assert_eq!(repo.block_uid("nope"), Err(StoreError::NotFound));
}

#[test]
fn store_error_variants_are_distinct() {
    assert_ne!(StoreError::NotFound, StoreError::Unavailable);
}
