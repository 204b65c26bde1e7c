use operations::json::Json;
use operations::model::OperationType;
use operations::read::fetch_operations;
use operations::read::parse_after;
use operations::read::validate_limit;
use operations::read::GetOperationsError;
use operations::read::Page;
use operations::store::TxRow;

fn row(uid: i64, id: &str, sender: &str) -> TxRow {
    TxRow {
        uid,
        id: id.to_owned(),
        block_uid: 1,
        sender: sender.to_owned(),
        tx_type: 16,
        op_type: OperationType::InvokeScript,
        operation: Json::Str(id.to_owned()),
    }
}

fn table() -> Vec<TxRow> {
    vec![
        row(1, "t1", "alice"),
        row(2, "t2", "bob"),
        row(3, "t3", "alice"),
        row(4, "t4", "alice"),
        row(5, "t5", "carol"),
    ]
}

#[test]
fn paging_reports_the_next_cursor_and_resumes_inclusively() {
    let txs = table();
    let (items, cursor) = fetch_operations(&txs, None, None, Page { start: None, limit: 2 });
    assert_eq!(items.len(), 2);
    assert_eq!(items[0].tx_uid, 1);
    assert_eq!(items[1].tx_uid, 2);
    assert_eq!(cursor, Some(3));
    let (items, cursor) = fetch_operations(&txs, None, None, Page { start: cursor, limit: 2 });
    assert_eq!(items[0].tx_uid, 3);
    assert_eq!(items[1].tx_uid, 4);
    assert_eq!(cursor, Some(5));
    let (items, cursor) = fetch_operations(&txs, None, None, Page { start: cursor, limit: 2 });
    assert_eq!(items.len(), 1);
    assert_eq!(items[0].tx_uid, 5);
    assert_eq!(cursor, None);
}

#[test]
fn sender_filter_selects_matching_rows() {
    let txs = table();
    let (items, cursor) =
        fetch_operations(&txs, None, Some("alice"), Page { start: None, limit: 10 });
    let uids: Vec<i64> = items.iter().map(|o| o.tx_uid).collect();
    assert_eq!(uids, vec![1, 3, 4]);
    assert_eq!(cursor, None);
}

#[test]
fn empty_type_list_matches_everything() {
    let txs = table();
    let empty: Vec<OperationType> = Vec::new();
    let (items, _) = fetch_operations(&txs, Some(&empty), None, Page { start: None, limit: 10 });
    assert_eq!(items.len(), 5);
    let all = vec![OperationType::InvokeScript];
    let (items, _) = fetch_operations(&txs, Some(&all), None, Page { start: None, limit: 10 });
    assert_eq!(items.len(), 5);
}

#[test]
fn items_carry_the_stored_document() {
    let txs = table();
    let (items, _) = fetch_operations(&txs, None, None, Page { start: None, limit: 1 });
    assert_eq!(items[0].body, Json::Str("t1".to_owned()));
}

#[test]
fn limits_above_the_maximum_are_rejected() {
    assert_eq!(validate_limit(Some(101)), Err(GetOperationsError::InvalidLimit));
    assert_eq!(validate_limit(Some(100)), Ok(100));
    assert_eq!(validate_limit(None), Ok(100));
}

#[test]
fn cursors_parse_as_signed_numbers() {
    assert_eq!(parse_after("123"), Ok(123));
    assert_eq!(parse_after("+5"), Ok(5));
    assert_eq!(parse_after("-42"), Ok(-42));
    assert_eq!(parse_after("0"), Ok(0));
    assert_eq!(parse_after("9223372036854775807"), Ok(i64::MAX));
    assert_eq!(parse_after("-9223372036854775808"), Ok(i64::MIN));
}

#[test]
fn malformed_cursors_are_rejected() {
    assert_eq!(parse_after(""), Err(GetOperationsError::InvalidAfter));
    assert_eq!(parse_after("-"), Err(GetOperationsError::InvalidAfter));
    assert_eq!(parse_after("12x"), Err(GetOperationsError::InvalidAfter));
    assert_eq!(parse_after("9223372036854775808"), Err(GetOperationsError::InvalidAfter));
    assert_eq!(parse_after("-9223372036854775809"), Err(GetOperationsError::InvalidAfter));
    assert_eq!(
        parse_after("999999999999999999999999"),
        Err(GetOperationsError::InvalidAfter)
    );
}

#[test]
fn request_errors_map_to_their_statuses() {
    assert_eq!(GetOperationsError::InvalidAfter.status_code(), 400);
    assert_eq!(GetOperationsError::InvalidLimit.status_code(), 400);
    assert_eq!(GetOperationsError::ServerError("boom".to_owned()).status_code(), 500);
}
