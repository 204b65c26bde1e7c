use operations::json::tx_from_json;
use operations::json::tx_to_json;
use operations::json::Json;
use operations::model::Amount;
use operations::model::Arg;
use operations::model::Call;
use operations::model::OperationType;
use operations::model::Transaction;
use operations::model::TransactionType;

fn sample_tx() -> Transaction {
    Transaction {
        id: "9f2k".to_owned(),
        op_type: OperationType::InvokeScript,
        tx_type: TransactionType::InvokeScript,
        height: 1024,
        timestamp: 1700000000000,
        fee: Amount { amount: 500000, asset_id: "WAVES".to_owned() },
        sender: "3PAbc".to_owned(),
        sender_public_key: "Gk7q".to_owned(),
        proofs: vec!["p1".to_owned(), "p2".to_owned()],
        dapp: "3PDapp".to_owned(),
        payment: vec![
            Amount { amount: 1, asset_id: "WAVES".to_owned() },
            Amount { amount: 2, asset_id: "AsSeT".to_owned() },
        ],
        call: Call {
            function: "swap".to_owned(),
            args: vec![
                Arg::Integer(-42),
                Arg::Binary("base64:YWJj".to_owned()),
                Arg::String("hello".to_owned()),
                Arg::Boolean(false),
                Arg::CaseObj("base64:AA==".to_owned()),
                Arg::List(vec![Arg::Integer(1), Arg::List(vec![Arg::Boolean(true)])]),
            ],
        },
    }
}

#[test]
fn transaction_round_trips_through_json() {
    let tx = sample_tx();
    let doc = tx_to_json(&tx);
    let back = tx_from_json(&doc);
    assert_eq!(back, Some(sample_tx()));
}

#[test]
fn foreign_transaction_round_trips_through_json() {
    let mut tx = sample_tx();
    tx.tx_type = TransactionType::EthereumTransaction;
    let doc = tx_to_json(&tx);
    let back = tx_from_json(&doc).expect("parses");
    assert!(matches!(back.tx_type, TransactionType::EthereumTransaction));
}

#[test]
fn document_shape_is_the_tagged_object_form() {
    let tx = sample_tx();
    match tx_to_json(&tx) {
        Json::Obj(fields) => {
            assert_eq!(fields.len(), 12);
            assert_eq!(fields[0].0, "id");
            assert_eq!(fields[0].1, Json::Str("9f2k".to_owned()));
            assert_eq!(fields[1].0, "type");
            assert_eq!(fields[1].1, Json::Str("invoke_script".to_owned()));
            assert_eq!(fields[2].0, "origin_transaction_type");
            assert_eq!(fields[2].1, Json::UInt(16));
            assert_eq!(fields[3].1, Json::UInt(1024));
            match &fields[5].1 {
                Json::Obj(fee) => {
                    assert_eq!(fee[0].0, "amount");
                    assert_eq!(fee[0].1, Json::Int(500000));
                    assert_eq!(fee[1].0, "id");
                    assert_eq!(fee[1].1, Json::Str("WAVES".to_owned()));
                }
                _ => panic!("fee must be an object"),
            }
        }
        _ => panic!("a transaction serializes to an object"),
    }
}

#[test]
fn arguments_carry_their_kind_tags() {
    let tx = sample_tx();
    match tx_to_json(&tx) {
        Json::Obj(fields) => match &fields[11].1 {
            Json::Obj(call) => match &call[1].1 {
                Json::Arr(args) => {
                    match &args[0] {
                        Json::Obj(f) => {
                            assert_eq!(f[0].1, Json::Str("integer".to_owned()));
                            assert_eq!(f[1].1, Json::Int(-42));
                        }
                        _ => panic!("argument must be an object"),
                    }
                    match &args[5] {
                        Json::Obj(f) => {
                            assert_eq!(f[0].1, Json::Str("list".to_owned()));
                            assert!(matches!(f[1].1, Json::Arr(_)));
                        }
                        _ => panic!("argument must be an object"),
                    }
                }
                _ => panic!("args must be an array"),
            },
            _ => panic!("call must be an object"),
        },
        _ => panic!("a transaction serializes to an object"),
    }
}

#[test]
fn foreign_shapes_do_not_parse() {
    assert_eq!(tx_from_json(&Json::Bool(true)), None);
    assert_eq!(tx_from_json(&Json::Obj(Vec::new())), None);
    // An out-of-range height is refused.
    let tx = sample_tx();
    match tx_to_json(&tx) {
        Json::Obj(mut fields) => {
            fields[3].1 = Json::UInt(u64::MAX);
            assert_eq!(tx_from_json(&Json::Obj(fields)), None);
        }
        _ => panic!("a transaction serializes to an object"),
    }
}
