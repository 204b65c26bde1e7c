use operations::envelope::AmountInfo;
use operations::envelope::AppendInfo;
use operations::envelope::ArgValueInfo;
use operations::envelope::ArgumentInfo;
use operations::envelope::BlockInfo;
use operations::envelope::BodyInfo;
use operations::envelope::Envelope;
use operations::envelope::EthActionInfo;
use operations::envelope::EthereumMetaInfo;
use operations::envelope::HeaderInfo;
use operations::envelope::InvokeMetaInfo;
use operations::envelope::InvokeScriptDataInfo;
use operations::envelope::MetadataInfo;
use operations::envelope::MicroBlockInfo;
use operations::envelope::SignedMicroBlockInfo;
use operations::envelope::SignedTransactionInfo;
use operations::envelope::TransactionKindInfo;
use operations::envelope::TransactionMetaInfo;
use operations::envelope::UpdateInfo;
use operations::envelope::WavesDataInfo;
use operations::envelope::WavesTransactionInfo;
use operations::model::Arg;
use operations::model::OperationType;
use operations::model::TransactionType;
use operations::updates::convert_update;
use operations::updates::BlockchainUpdate;
use operations::updates::ConvertError;

fn invoke_meta() -> InvokeMetaInfo {
    InvokeMetaInfo {
        d_app_address: vec![1, 2, 3],
        function_name: "transfer".to_owned(),
        arguments: vec![
            ArgumentInfo { value: Some(ArgValueInfo::IntegerValue(7)) },
            ArgumentInfo { value: Some(ArgValueInfo::BinaryValue(vec![0x61, 0x62, 0x63])) },
            ArgumentInfo { value: Some(ArgValueInfo::StringValue("plain".to_owned())) },
            ArgumentInfo { value: Some(ArgValueInfo::BooleanValue(true)) },
        ],
        payments: vec![AmountInfo { asset_id: Vec::new(), amount: 5 }],
    }
}

fn native_invoke_tx() -> SignedTransactionInfo {
    SignedTransactionInfo {
        transaction: Some(TransactionKindInfo::Waves(WavesTransactionInfo {
            fee: Some(AmountInfo { asset_id: Vec::new(), amount: 900 }),
            timestamp: 1700000000000,
            sender_public_key: vec![0x61, 0x62, 0x63],
            data: Some(WavesDataInfo::InvokeScript(InvokeScriptDataInfo {
                payments: vec![AmountInfo { asset_id: Vec::new(), amount: 5 }],
            })),
        })),
        proofs: vec![vec![0x61, 0x62, 0x63]],
    }
}

fn native_meta() -> TransactionMetaInfo {
    TransactionMetaInfo {
        sender_address: vec![4, 5, 6],
        metadata: Some(MetadataInfo::InvokeScript(invoke_meta())),
    }
}

fn full_block_envelope() -> Envelope {
    Envelope {
        id: vec![0x61, 0x62, 0x63],
        height: 7,
        update: Some(UpdateInfo::Append(AppendInfo {
            body: Some(BodyInfo::Block(Some(BlockInfo {
                header: Some(HeaderInfo { timestamp: 1700000000123 }),
                transactions: vec![native_invoke_tx()],
            }))),
            transaction_ids: vec![vec![0x01]],
            transactions_metadata: vec![native_meta()],
        })),
    }
}

#[test]
fn full_block_normalizes_to_append() {
    let update = convert_update(full_block_envelope()).expect("normalizes");
    match update {
        BlockchainUpdate::Append(a) => {
            // "abc" in base58 (bitcoin alphabet) is "ZiCa".
            assert_eq!(a.block_id, "ZiCa");
            assert_eq!(a.height, 7);
            assert_eq!(a.timestamp, Some(1700000000123));
            assert!(!a.is_microblock);
            assert_eq!(a.transactions.len(), 1);
            let t = &a.transactions[0];
            assert_eq!(t.id, "2");
            assert!(matches!(t.op_type, OperationType::InvokeScript));
            assert!(matches!(t.tx_type, TransactionType::InvokeScript));
            assert_eq!(t.height, 7);
            assert_eq!(t.timestamp, 1700000000000);
            assert_eq!(t.fee.amount, 900);
            assert_eq!(t.fee.asset_id, "WAVES");
            assert_eq!(t.sender_public_key, "ZiCa");
            // "abc" in standard base64 is "YWJj".
            assert_eq!(t.proofs, vec!["ZiCa".to_owned()]);
            assert_eq!(t.payment.len(), 1);
            assert_eq!(t.payment[0].asset_id, "WAVES");
            assert_eq!(t.payment[0].amount, 5);
            assert_eq!(t.call.function, "transfer");
            assert_eq!(t.call.args.len(), 4);
            assert_eq!(t.call.args[0], Arg::Integer(7));
            assert_eq!(t.call.args[1], Arg::Binary("base64:YWJj".to_owned()));
            assert_eq!(t.call.args[2], Arg::String("plain".to_owned()));
            assert_eq!(t.call.args[3], Arg::Boolean(true));
        }
        _ => panic!("expected an append"),
    }
}

#[test]
fn normalization_is_pure() {
    let first = convert_update(full_block_envelope());
    let second = convert_update(full_block_envelope());
    assert_eq!(first, second);
}

#[test]
fn microblock_has_no_timestamp_and_extended_block_id() {
    let envelope = Envelope {
        id: vec![0xFF],
        height: 8,
        update: Some(UpdateInfo::Append(AppendInfo {
            body: Some(BodyInfo::MicroBlock(Some(SignedMicroBlockInfo {
                total_block_id: vec![0x61, 0x62, 0x63],
                micro_block: Some(MicroBlockInfo { transactions: Vec::new() }),
            }))),
            transaction_ids: Vec::new(),
            transactions_metadata: Vec::new(),
        })),
    };
    match convert_update(envelope).expect("normalizes") {
        BlockchainUpdate::Append(a) => {
            assert_eq!(a.block_id, "ZiCa");
            assert_eq!(a.timestamp, None);
            assert!(a.is_microblock);
            assert!(a.transactions.is_empty());
        }
        _ => panic!("expected an append"),
    }
}

#[test]
fn foreign_invoke_takes_metadata_fields() {
    let envelope = Envelope {
        id: vec![0x01],
        height: 9,
        update: Some(UpdateInfo::Append(AppendInfo {
            body: Some(BodyInfo::Block(Some(BlockInfo {
                header: Some(HeaderInfo { timestamp: 1 }),
                transactions: vec![SignedTransactionInfo {
                    transaction: Some(TransactionKindInfo::Ethereum),
                    proofs: Vec::new(),
                }],
            }))),
            transaction_ids: vec![vec![0x02]],
            transactions_metadata: vec![TransactionMetaInfo {
                sender_address: vec![7],
                metadata: Some(MetadataInfo::Ethereum(EthereumMetaInfo {
                    fee: 42,
                    timestamp: 123456,
                    sender_public_key: vec![8],
                    action: Some(EthActionInfo::Invoke(invoke_meta())),
                })),
            }],
        })),
    };
    match convert_update(envelope).expect("normalizes") {
        BlockchainUpdate::Append(a) => {
            let t = &a.transactions[0];
            assert!(matches!(t.tx_type, TransactionType::EthereumTransaction));
            assert_eq!(t.fee.amount, 42);
            assert_eq!(t.fee.asset_id, "WAVES");
            assert_eq!(t.timestamp, 123456);
            assert_eq!(t.payment.len(), 1);
        }
        _ => panic!("expected an append"),
    }
}

#[test]
fn non_invoke_transactions_are_skipped() {
    let envelope = Envelope {
        id: vec![0x01],
        height: 9,
        update: Some(UpdateInfo::Append(AppendInfo {
            body: Some(BodyInfo::Block(Some(BlockInfo {
                header: Some(HeaderInfo { timestamp: 1 }),
                transactions: vec![native_invoke_tx()],
            }))),
            transaction_ids: vec![vec![0x02]],
            transactions_metadata: vec![TransactionMetaInfo {
                sender_address: vec![7],
                metadata: Some(MetadataInfo::Other),
            }],
        })),
    };
    match convert_update(envelope).expect("normalizes") {
        BlockchainUpdate::Append(a) => assert!(a.transactions.is_empty()),
        _ => panic!("expected an append"),
    }
}

#[test]
fn rollback_envelope_normalizes_to_rollback() {
    let envelope = Envelope {
        id: vec![0x61, 0x62, 0x63],
        height: 3,
        update: Some(UpdateInfo::Rollback),
    };
    match convert_update(envelope).expect("normalizes") {
        BlockchainUpdate::Rollback(r) => assert_eq!(r.block_id, "ZiCa"),
        _ => panic!("expected a rollback"),
    }
}

#[test]
fn unsupported_update_is_an_error() {
    let envelope = Envelope { id: Vec::new(), height: 0, update: None };
    assert_eq!(convert_update(envelope), Err(ConvertError::UnsupportedUpdate));
    let envelope = Envelope { id: Vec::new(), height: 0, update: Some(UpdateInfo::Other) };
    assert_eq!(convert_update(envelope), Err(ConvertError::UnsupportedUpdate));
}

#[test]
fn append_error_cases() {
    let missing_body = Envelope {
        id: Vec::new(),
        height: 0,
        update: Some(UpdateInfo::Append(AppendInfo {
            body: None,
            transaction_ids: Vec::new(),
            transactions_metadata: Vec::new(),
        })),
    };
    assert_eq!(convert_update(missing_body), Err(ConvertError::MissingBody));

    let empty_block = Envelope {
        id: Vec::new(),
        height: 0,
        update: Some(UpdateInfo::Append(AppendInfo {
            body: Some(BodyInfo::Block(None)),
            transaction_ids: Vec::new(),
            transactions_metadata: Vec::new(),
        })),
    };
    assert_eq!(convert_update(empty_block), Err(ConvertError::MissingBlockOrMicroBlock));

    let empty_micro = Envelope {
        id: Vec::new(),
        height: 0,
        update: Some(UpdateInfo::Append(AppendInfo {
            body: Some(BodyInfo::MicroBlock(Some(SignedMicroBlockInfo {
                total_block_id: vec![1],
                micro_block: None,
            }))),
            transaction_ids: Vec::new(),
            transactions_metadata: Vec::new(),
        })),
    };
    assert_eq!(convert_update(empty_micro), Err(ConvertError::MissingTransactions));
}

#[test]
fn invoke_metadata_without_payload_is_an_error() {
    let envelope = Envelope {
        id: vec![0x01],
        height: 1,
        update: Some(UpdateInfo::Append(AppendInfo {
            body: Some(BodyInfo::Block(Some(BlockInfo {
                header: Some(HeaderInfo { timestamp: 1 }),
                transactions: vec![SignedTransactionInfo { transaction: None, proofs: Vec::new() }],
            }))),
            transaction_ids: vec![vec![0x02]],
            transactions_metadata: vec![native_meta()],
        })),
    };
    assert_eq!(convert_update(envelope), Err(ConvertError::MissingTxData));
}

#[test]
fn invoke_with_foreign_body_shape_is_an_error() {
    let envelope = Envelope {
        id: vec![0x01],
        height: 1,
        update: Some(UpdateInfo::Append(AppendInfo {
            body: Some(BodyInfo::Block(Some(BlockInfo {
                header: Some(HeaderInfo { timestamp: 1 }),
                transactions: vec![SignedTransactionInfo {
                    transaction: Some(TransactionKindInfo::Waves(WavesTransactionInfo {
                        fee: None,
                        timestamp: 0,
                        sender_public_key: Vec::new(),
                        data: Some(WavesDataInfo::Other),
                    })),
                    proofs: Vec::new(),
                }],
            }))),
            transaction_ids: vec![vec![0x02]],
            transactions_metadata: vec![native_meta()],
        })),
    };
    assert_eq!(convert_update(envelope), Err(ConvertError::UnexpectedInvokeContents));
}

#[test]
fn missing_fee_is_an_error() {
    let envelope = Envelope {
        id: vec![0x01],
        height: 1,
        update: Some(UpdateInfo::Append(AppendInfo {
            body: Some(BodyInfo::Block(Some(BlockInfo {
                header: Some(HeaderInfo { timestamp: 1 }),
                transactions: vec![SignedTransactionInfo {
                    transaction: Some(TransactionKindInfo::Waves(WavesTransactionInfo {
                        fee: None,
                        timestamp: 0,
                        sender_public_key: Vec::new(),
                        data: Some(WavesDataInfo::InvokeScript(InvokeScriptDataInfo {
                            payments: vec![AmountInfo { asset_id: Vec::new(), amount: 5 }],
                        })),
                    })),
                    proofs: Vec::new(),
                }],
            }))),
            transaction_ids: vec![vec![0x02]],
            transactions_metadata: vec![native_meta()],
        })),
    };
    assert_eq!(convert_update(envelope), Err(ConvertError::MissingFee));
}

#[test]
fn missing_argument_payload_is_an_error() {
    let mut meta = invoke_meta();
    meta.arguments = vec![ArgumentInfo { value: None }];
    let envelope = Envelope {
        id: vec![0x01],
        height: 1,
        update: Some(UpdateInfo::Append(AppendInfo {
            body: Some(BodyInfo::Block(Some(BlockInfo {
                header: Some(HeaderInfo { timestamp: 1 }),
                transactions: vec![native_invoke_tx()],
            }))),
            transaction_ids: vec![vec![0x02]],
            transactions_metadata: vec![TransactionMetaInfo {
                sender_address: vec![7],
                metadata: Some(MetadataInfo::InvokeScript(meta)),
            }],
        })),
    };
    assert_eq!(convert_update(envelope), Err(ConvertError::MissingArgument));
}

#[test]
fn nested_list_arguments_are_encoded_recursively() {
    let mut meta = invoke_meta();
    meta.arguments = vec![ArgumentInfo {
        value: Some(ArgValueInfo::List(operations::envelope::ArgListInfo {
            items: vec![
                ArgumentInfo { value: Some(ArgValueInfo::CaseObj(vec![0x61, 0x62, 0x63])) },
                ArgumentInfo { value: Some(ArgValueInfo::IntegerValue(-1)) },
            ],
        })),
    }];
    let envelope = Envelope {
        id: vec![0x01],
        height: 1,
        update: Some(UpdateInfo::Append(AppendInfo {
            body: Some(BodyInfo::Block(Some(BlockInfo {
                header: Some(HeaderInfo { timestamp: 1 }),
                transactions: vec![native_invoke_tx()],
            }))),
            transaction_ids: vec![vec![0x02]],
            transactions_metadata: vec![TransactionMetaInfo {
                sender_address: vec![7],
                metadata: Some(MetadataInfo::InvokeScript(meta)),
            }],
        })),
    };
    match convert_update(envelope).expect("normalizes") {
        BlockchainUpdate::Append(a) => {
            let args = &a.transactions[0].call.args;
            assert_eq!(
                args[0],
                Arg::List(vec![
                    Arg::CaseObj("base64:YWJj".to_owned()),
                    Arg::Integer(-1),
                ])
            );
        }
        _ => panic!("expected an append"),
    }
}

#[test]
fn error_messages_match_their_variants() {
    assert_eq!(ConvertError::UnsupportedUpdate.message(), "failed to parse blockchain update");
    assert_eq!(ConvertError::MissingBody.message(), "append body is None");
    assert_eq!(ConvertError::MissingFee.message(), "fee");
}
