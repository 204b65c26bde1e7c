//! The read side: keyset-paginated selection of stored operations.
//!
//! The selector filters transaction rows by operation class and sender,
//! starts at an optional cursor, and returns up to `limit` items; when more
//! rows match, the key of the first row beyond the page comes back as the
//! next cursor, and a later call starting there continues the scan
//! inclusively.

use vstd::prelude::*;
use vstd::utf8::encode_utf8;

use crate::json::Json;
use crate::json::JsonV;
use crate::json::json_clone;
use crate::json::json_view;
use crate::json::str_eq;
use crate::model::OperationType;
use crate::store::TxRow;
use crate::store::TxRowV;
use crate::store::txs_sorted;

verus! {

/// The page window of a read request.
#[derive(Copy, Clone, Debug)]
pub struct Page {
    pub start: Option<i64>,
    pub limit: u32,
}

/// Why a read request is rejected, and with which status.
#[derive(PartialEq, Eq, Debug)]
pub enum GetOperationsError {
    /// The `after` cursor does not parse to a key.
    InvalidAfter,
    /// The requested limit exceeds the allowed maximum.
    InvalidLimit,
    /// The store failed; the message describes how.
    ServerError(String),
}

impl GetOperationsError {
    /// The HTTP status this error maps to.
    pub fn status_code(&self) -> (r: u16)
        ensures
            r == match self {
                GetOperationsError::InvalidAfter => 400u16,
                GetOperationsError::InvalidLimit => 400u16,
                GetOperationsError::ServerError(_) => 500u16,
            },
    {
        match self {
            GetOperationsError::InvalidAfter => 400,
            GetOperationsError::InvalidLimit => 400,
            GetOperationsError::ServerError(_) => 500,
        }
    }
}

/// The most items one request may return.
pub const MAX_QUERY_LIMIT: u32 = 100;

/// Checks a requested limit: absent means the maximum; anything above the
/// maximum is rejected.
pub fn validate_limit(limit: Option<u32>) -> (r: Result<u32, GetOperationsError>)
    ensures
        match limit {
            Some(l) => if l > MAX_QUERY_LIMIT {
                r == Err::<u32, GetOperationsError>(GetOperationsError::InvalidLimit)
            } else {
                r == Ok::<u32, GetOperationsError>(l)
            },
            None => r == Ok::<u32, GetOperationsError>(MAX_QUERY_LIMIT),
        },
{
    match limit {
        Some(l) => {
            if l > MAX_QUERY_LIMIT {
                Err(GetOperationsError::InvalidLimit)
            } else {
                Ok(l)
            }
        },
        None => Ok(MAX_QUERY_LIMIT),
    }
}

/// One returned operation: its key and its stored JSON document.
#[derive(PartialEq, Eq, Debug)]
pub struct Operation {
    pub tx_uid: i64,
    pub body: Json,
}

/// Spec-level image of an [`Operation`].
pub struct OperationV {
    pub tx_uid: i64,
    pub body: JsonV,
}

impl DeepView for Operation {
    type V = OperationV;

    open spec fn deep_view(&self) -> OperationV {
        OperationV { tx_uid: self.tx_uid, body: json_view(self.body) }
    }
}

/// Whether a row passes the request's filters.
pub open spec fn spec_row_selected(
    t: TxRowV,
    op_types: Option<Seq<OperationType>>,
    sender: Option<Seq<char>>,
    start: Option<i64>,
) -> bool {
    &&& match op_types {
        Some(list) => list.len() == 0 || list.contains(t.op_type),
        None => true,
    }
    &&& match sender {
        Some(s) => t.sender == s,
        None => true,
    }
    &&& match start {
        Some(x) => t.uid >= x,
        None => true,
    }
}

/// The rows passing the filters, in stored order.
pub open spec fn spec_selected(
    txs: Seq<TxRowV>,
    op_types: Option<Seq<OperationType>>,
    sender: Option<Seq<char>>,
    start: Option<i64>,
) -> Seq<TxRowV> {
    txs.filter(|t: TxRowV| spec_row_selected(t, op_types, sender, start))
}

/// The returned image of one row.
pub open spec fn spec_row_op(t: TxRowV) -> OperationV {
    OperationV { tx_uid: t.uid, body: t.operation }
}

/// The returned images of a row sequence, elementwise.
pub open spec fn spec_row_ops(s: Seq<TxRowV>) -> Seq<OperationV> {
    Seq::new(s.len(), |k: int| spec_row_op(s[k]))
}

/// What a fetch returns: the first `limit` selected rows, and, when more
/// match, the key of the first row beyond the page.
pub open spec fn spec_fetch(
    txs: Seq<TxRowV>,
    op_types: Option<Seq<OperationType>>,
    sender: Option<Seq<char>>,
    page_start: Option<i64>,
    limit: u32,
) -> (Seq<OperationV>, Option<i64>) {
    let sel = spec_selected(txs, op_types, sender, page_start);
    if sel.len() > limit {
        (spec_row_ops(sel.take(limit as int)), Some(sel[limit as int].uid))
    } else {
        (spec_row_ops(sel), None)
    }
}

fn op_types_contain(list: &Vec<OperationType>, o: OperationType) -> (r: bool)
    ensures
        r == list@.contains(o),
{
    let mut i: usize = 0;
    while i < list.len()
        invariant
            i <= list@.len(),
            forall|j: int| 0 <= j < i ==> list@[j] != o,
        decreases list@.len() - i,
    {
        if list[i] == o {
            return true;
        }
        i += 1;
    }
    false
}

/// Selects stored operations: rows filtered by class, sender, and cursor,
/// in key order, paged by `limit` with look-ahead for the next cursor.
#[verifier::loop_isolation(false)]
pub fn fetch_operations(
    txs: &Vec<TxRow>,
    op_types: Option<&Vec<OperationType>>,
    sender: Option<&str>,
    page: Page,
) -> (r: (Vec<Operation>, Option<i64>))
    ensures
        ({
            let spec = spec_fetch(
                txs.deep_view(),
                match op_types {
                    Some(list) => Some(list@),
                    None => None,
                },
                match sender {
                    Some(s) => Some(s@),
                    None => None,
                },
                page.start,
                page.limit,
            );
            r.0.deep_view() == spec.0 && r.1 == spec.1
        }),
{
    let ghost txv = txs.deep_view();
    let ghost otv: Option<Seq<OperationType>> = match op_types {
        Some(list) => Some(list@),
        None => None,
    };
    let ghost sdv: Option<Seq<char>> = match sender {
        Some(s) => Some(s@),
        None => None,
    };
    let ghost pred = |t: TxRowV| spec_row_selected(t, otv, sdv, page.start);
    let mut out: Vec<Operation> = Vec::new();
    let mut i: usize = 0;
    proof {
        reveal(Seq::filter);
        assert(txv.take(0) =~= Seq::<TxRowV>::empty());
        assert(out.deep_view() =~= spec_row_ops(txv.take(0).filter(pred)));
    }
    while i < txs.len()
        invariant
            i <= txv.len(),
            out.deep_view() == spec_row_ops(txv.take(i as int).filter(pred)),
            out@.len() == txv.take(i as int).filter(pred).len(),
        decreases txv.len() - i,
    {
        let ghost j = i as int;
        let ghost out0 = out.deep_view();
        proof {
            reveal(Seq::filter);
            assert(txv.take(j + 1).drop_last() =~= txv.take(j));
            assert(txv.take(j + 1).last() == txv[j]);
        }
        let row = &txs[i];
        let type_ok = match op_types {
            Some(list) => list.len() == 0 || op_types_contain(list, row.op_type),
            None => true,
        };
        let sender_ok = match sender {
            Some(s) => str_eq(row.sender.as_str(), s),
            None => true,
        };
        let start_ok = match page.start {
            Some(x) => row.uid >= x,
            None => true,
        };
        if type_ok && sender_ok && start_ok {
            out.push(Operation { tx_uid: row.uid, body: json_clone(&row.operation) });
            proof {
                assert(out.deep_view() =~= out0.push(spec_row_op(txv[j])));
                assert(spec_row_ops(txv.take(j + 1).filter(pred)) =~= out0.push(
                    spec_row_op(txv[j]),
                ));
            }
        }
        i += 1;
    }
    proof {
        assert(txv.take(txv.len() as int) =~= txv);
    }
    let limit = page.limit as usize;
    if out.len() > limit {
        let ghost sel = spec_selected(txv, otv, sdv, page.start);
        let cursor = out[limit].tx_uid;
        let ghost out_full = out.deep_view();
        out.truncate(limit);
        proof {
            assert(sel == txv.filter(pred));
            assert(out_full == spec_row_ops(sel));
            assert(out.deep_view() =~= spec_row_ops(sel.take(limit as int))) by {
                assert forall|k: int| 0 <= k < limit implies out.deep_view()[k] == spec_row_op(
                    sel.take(limit as int)[k],
                ) by {
                    assert(out.deep_view()[k] == out_full[k]);
                    assert(sel.take(limit as int)[k] == sel[k]);
                }
            }
            assert(spec_row_ops(sel)[limit as int] == spec_row_op(sel[limit as int]));
        }
        (out, Some(cursor))
    } else {
        (out, None)
    }
}

pub open spec fn is_ascii_digit(b: u8) -> bool {
    48 <= b <= 57
}

/// The number written by a run of decimal digit bytes.
pub open spec fn spec_digits_val(s: Seq<u8>) -> int
    decreases s.len(),
{
    if s.len() == 0 {
        0
    } else {
        spec_digits_val(s.drop_last()) * 10 + (s.last() - 48)
    }
}

pub open spec fn spec_all_digits(s: Seq<u8>) -> bool {
    forall|i: int| 0 <= i < s.len() ==> is_ascii_digit(#[trigger] s[i])
}

/// The signed 64-bit number written by the bytes: an optional sign, then
/// one or more digits, with the value in range; anything else is `None`.
pub open spec fn spec_parse_i64(b: Seq<u8>) -> Option<i64> {
    let signed = b.len() > 0 && (b[0] == 45 || b[0] == 43);
    let neg = b.len() > 0 && b[0] == 45;
    let ds = if signed {
        b.skip(1)
    } else {
        b
    };
    if ds.len() == 0 || !spec_all_digits(ds) {
        None
    } else {
        let v = spec_digits_val(ds);
        let sv = if neg {
            -v
        } else {
            v
        };
        if -0x8000_0000_0000_0000 <= sv <= 0x7FFF_FFFF_FFFF_FFFF {
            Some(sv as i64)
        } else {
            None
        }
    }
}

/// A run of digits names a non-negative number.
proof fn lemma_digits_val_nonneg(s: Seq<u8>)
    requires
        spec_all_digits(s),
    ensures
        spec_digits_val(s) >= 0,
    decreases s.len(),
{
    if s.len() > 0 {
        assert(spec_all_digits(s.drop_last()));
        lemma_digits_val_nonneg(s.drop_last());
    }
}

/// A prefix of a digit run never names more than the whole run.
proof fn lemma_digits_val_extend(s: Seq<u8>, k: int)
    requires
        spec_all_digits(s),
        0 <= k <= s.len(),
    ensures
        spec_digits_val(s.take(k)) <= spec_digits_val(s),
    decreases s.len(),
{
    if k < s.len() {
        assert(spec_all_digits(s.drop_last()));
        assert(s.drop_last().take(k) =~= s.take(k));
        lemma_digits_val_extend(s.drop_last(), k);
        lemma_digits_val_nonneg(s.drop_last());
    } else {
        assert(s.take(k) =~= s);
    }
}

/// Reads an `after` cursor: the text must write a signed 64-bit number.
#[verifier::loop_isolation(false)]
pub fn parse_after(s: &str) -> (r: Result<i64, GetOperationsError>)
    ensures
        match r {
            Ok(v) => spec_parse_i64(encode_utf8(s@)) == Some(v),
            Err(e) => e == GetOperationsError::InvalidAfter && spec_parse_i64(encode_utf8(s@))
                is None,
        },
{
    let bytes = s.as_bytes_vec();
    let ghost bv = bytes@;
    let n = bytes.len();
    let mut start: usize = 0;
    let mut neg = false;
    if n > 0 && bytes[0] == 45 {
        neg = true;
        start = 1;
    } else if n > 0 && bytes[0] == 43 {
        start = 1;
    }
    let ghost ds = if start == 1 {
        bv.skip(1)
    } else {
        bv
    };
    proof {
        if start == 0 {
            assert(ds =~= bv.skip(0));
        }
    }
    if start >= n {
        return Err(GetOperationsError::InvalidAfter);
    }
    let mut acc: i128 = 0;
    let mut i: usize = start;
    proof {
        assert(bv.subrange(start as int, start as int) =~= Seq::<u8>::empty());
    }
    while i < n
        invariant
            start <= i <= n,
            acc == spec_digits_val(bv.subrange(start as int, i as int)),
            0 <= acc <= 0x8000_0000_0000_0000i128,
            forall|j: int| start <= j < i ==> is_ascii_digit(#[trigger] bv[j]),
        decreases n - i,
    {
        let b = bytes[i];
        if b < 48 || b > 57 {
            proof {
                assert(ds[i - start] == bv[i as int]);
                assert(!spec_all_digits(ds));
            }
            return Err(GetOperationsError::InvalidAfter);
        }
        proof {
            assert(bv.subrange(start as int, i + 1).drop_last() =~= bv.subrange(
                start as int,
                i as int,
            ));
            assert(bv.subrange(start as int, i + 1).last() == bv[i as int]);
        }
        acc = acc * 10 + (b - 48) as i128;
        i += 1;
        if acc > 0x8000_0000_0000_0000i128 {
            proof {
                let taken = bv.subrange(start as int, i as int);
                assert(spec_all_digits(taken));
                if spec_all_digits(ds) {
                    assert(ds.take(i - start) =~= taken);
                    lemma_digits_val_extend(ds, i - start);
                }
            }
            return Err(GetOperationsError::InvalidAfter);
        }
    }
    proof {
        assert(bv.subrange(start as int, n as int) =~= ds);
        assert(spec_all_digits(ds));
    }
    if neg {
        Ok((-acc) as i64)
    } else {
        if acc > 0x7FFF_FFFF_FFFF_FFFFi128 {
            return Err(GetOperationsError::InvalidAfter);
        }
        Ok(acc as i64)
    }
}

/// Read paging: over a sorted table with distinct keys, a page of `limit`
/// rows followed by a page that starts at the returned cursor yields the
/// same rows as one unpaged scan, with the cursor's row opening the second
/// page.
pub proof fn lemma_read_paging(txs: Seq<TxRowV>, limit: u32)
    requires
        txs_sorted(txs),
        txs.len() > limit,
        txs.len() < 0x1_0000_0000,
    ensures
        ({
            let first = spec_fetch(txs, None, None, None, limit);
            &&& first.1 == Some(txs[limit as int].uid)
            &&& first.0 == txs.take(limit as int).map_values(|t: TxRowV| spec_row_op(t))
            &&& spec_fetch(txs, None, None, first.1, u32::MAX).0 == txs.skip(
                limit as int,
            ).map_values(|t: TxRowV| spec_row_op(t))
        }),
{
    let all = |t: TxRowV| spec_row_selected(t, None, None, None);
    assert(txs.filter(all) =~= txs) by {
        lemma_filter_all(txs, all);
    }
    let x = txs[limit as int].uid;
    let from = |t: TxRowV| spec_row_selected(t, None, None, Some(x));
    assert(txs.filter(from) =~= txs.skip(limit as int)) by {
        lemma_filter_from(txs, x, limit as int);
    }
    assert(txs.skip(limit as int).len() == txs.len() - limit);
}

/// A filter whose predicate holds everywhere keeps everything.
proof fn lemma_filter_all(txs: Seq<TxRowV>, pred: spec_fn(TxRowV) -> bool)
    requires
        forall|i: int| 0 <= i < txs.len() ==> pred(#[trigger] txs[i]),
    ensures
        txs.filter(pred) =~= txs,
    decreases txs.len(),
{
    reveal(Seq::filter);
    if txs.len() > 0 {
        assert(forall|i: int|
            0 <= i < txs.drop_last().len() ==> pred(#[trigger] txs.drop_last()[i]));
        lemma_filter_all(txs.drop_last(), pred);
    }
}

/// Over a sorted table, keeping the keys at or after row `k`'s key keeps
/// exactly the suffix from `k`.
proof fn lemma_filter_from(txs: Seq<TxRowV>, x: i64, k: int)
    requires
        txs_sorted(txs),
        0 <= k < txs.len(),
        txs[k].uid == x,
    ensures
        txs.filter(|t: TxRowV| spec_row_selected(t, None, None, Some(x))) =~= txs.skip(k),
    decreases txs.len(),
{
    reveal(Seq::filter);
    let pred = |t: TxRowV| spec_row_selected(t, None, None, Some(x));
    if txs.len() > 0 {
        let rest = txs.drop_last();
        assert(txs_sorted(rest));
        if k == txs.len() - 1 {
            lemma_filter_none_before(rest, x);
            assert(txs.filter(pred) =~= txs.skip(k));
        } else {
            assert(rest[k] == txs[k]);
            lemma_filter_from(rest, x, k);
            assert(pred(txs.last()));
            assert(txs.filter(pred) =~= rest.skip(k).push(txs.last()));
            assert(rest.skip(k).push(txs.last()) =~= txs.skip(k));
        }
    }
}

/// Over a sorted table whose keys all lie before `x`, the from-`x` filter
/// keeps nothing.
proof fn lemma_filter_none_before(txs: Seq<TxRowV>, x: i64)
    requires
        forall|i: int| 0 <= i < txs.len() ==> (#[trigger] txs[i]).uid < x,
    ensures
        txs.filter(|t: TxRowV| spec_row_selected(t, None, None, Some(x))) =~= Seq::<
            TxRowV,
        >::empty(),
    decreases txs.len(),
{
    reveal(Seq::filter);
    if txs.len() > 0 {
        assert(forall|i: int|
            0 <= i < txs.drop_last().len() ==> (#[trigger] txs.drop_last()[i]).uid < x);
        lemma_filter_none_before(txs.drop_last(), x);
    }
}

} // verus!
