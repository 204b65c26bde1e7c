//! JSON form of a recorded operation.
//!
//! The store keeps each transaction as a JSON document. [`tx_to_json`]
//! builds that document; [`tx_from_json`] reads one back. The two are
//! inverse: a serialized transaction re-parses to an equal value
//! ([`lemma_tx_json_round_trip`]).

use vstd::prelude::*;

use crate::model::Amount;
use crate::model::AmountV;
use crate::model::Arg;
use crate::model::ArgV;
use crate::model::Call;
use crate::model::OperationType;
use crate::model::Transaction;
use crate::model::TransactionType;
use crate::model::TransactionV;
use crate::model::arg_view;
use crate::model::args_view;
use crate::model::lemma_args_view;
use crate::model::lemma_args_view_push;

verus! {

/// A JSON value, as far as this library writes them.
#[derive(PartialEq, Eq, Debug)]
pub enum Json {
    Bool(bool),
    Int(i64),
    UInt(u64),
    Str(String),
    Arr(Vec<Json>),
    Obj(Vec<(String, Json)>),
}

/// Spec-level image of a [`Json`] value.
pub enum JsonV {
    Bool(bool),
    Int(i64),
    UInt(u64),
    Str(Seq<char>),
    Arr(Seq<JsonV>),
    Obj(Seq<(Seq<char>, JsonV)>),
}

/// Spec-level image of one [`Json`] value, recursing through containers.
pub open spec fn json_view(j: Json) -> JsonV
    decreases j,
{
    match j {
        Json::Bool(b) => JsonV::Bool(b),
        Json::Int(x) => JsonV::Int(x),
        Json::UInt(x) => JsonV::UInt(x),
        Json::Str(s) => JsonV::Str(s@),
        Json::Arr(items) => JsonV::Arr(jsons_view(items@)),
        Json::Obj(fields) => JsonV::Obj(fields_view(fields@)),
    }
}

/// Spec-level image of a sequence of [`Json`] values, elementwise.
pub open spec fn jsons_view(s: Seq<Json>) -> Seq<JsonV>
    decreases s,
{
    if s.len() == 0 {
        Seq::empty()
    } else {
        seq![json_view(s[0])] + jsons_view(s.subrange(1, s.len() as int))
    }
}

/// Spec-level image of a sequence of JSON object fields, elementwise.
pub open spec fn fields_view(s: Seq<(String, Json)>) -> Seq<(Seq<char>, JsonV)>
    decreases s,
{
    if s.len() == 0 {
        Seq::empty()
    } else {
        seq![(s[0].0@, json_view(s[0].1))] + fields_view(s.subrange(1, s.len() as int))
    }
}

impl DeepView for Json {
    type V = JsonV;

    open spec fn deep_view(&self) -> JsonV {
        json_view(*self)
    }
}

/// [`jsons_view`] maps its argument elementwise.
pub proof fn lemma_jsons_view(s: Seq<Json>)
    ensures
        jsons_view(s).len() == s.len(),
        forall|i: int| 0 <= i < s.len() ==> jsons_view(s)[i] == json_view(s[i]),
    decreases s.len(),
{
    if s.len() > 0 {
        lemma_jsons_view(s.subrange(1, s.len() as int));
    }
}

/// [`fields_view`] maps its argument elementwise.
pub proof fn lemma_fields_view(s: Seq<(String, Json)>)
    ensures
        fields_view(s).len() == s.len(),
        forall|i: int| 0 <= i < s.len() ==> fields_view(s)[i] == (s[i].0@, json_view(s[i].1)),
    decreases s.len(),
{
    if s.len() > 0 {
        lemma_fields_view(s.subrange(1, s.len() as int));
    }
}

/// Relies on str's `==`: character-for-character equality.
#[verifier::external_body]
pub(crate) fn str_eq(a: &str, b: &str) -> (r: bool)
    ensures
        r == (a@ == b@),
{
    a == b
}

/// The JSON document of an amount.
pub open spec fn spec_amount_json(a: AmountV) -> JsonV {
    JsonV::Obj(seq![("amount"@, JsonV::Int(a.amount)), ("id"@, JsonV::Str(a.asset_id))])
}

/// The JSON document of one script argument, tagged by kind.
pub open spec fn spec_arg_json(a: ArgV) -> JsonV
    decreases a,
{
    match a {
        ArgV::Integer(x) => JsonV::Obj(
            seq![("type"@, JsonV::Str("integer"@)), ("value"@, JsonV::Int(x))],
        ),
        ArgV::Binary(s) => JsonV::Obj(
            seq![("type"@, JsonV::Str("binary"@)), ("value"@, JsonV::Str(s))],
        ),
        ArgV::String(s) => JsonV::Obj(
            seq![("type"@, JsonV::Str("string"@)), ("value"@, JsonV::Str(s))],
        ),
        ArgV::Boolean(b) => JsonV::Obj(
            seq![("type"@, JsonV::Str("boolean"@)), ("value"@, JsonV::Bool(b))],
        ),
        ArgV::CaseObj(s) => JsonV::Obj(
            seq![("type"@, JsonV::Str("case_obj"@)), ("value"@, JsonV::Str(s))],
        ),
        ArgV::List(items) => JsonV::Obj(
            seq![("type"@, JsonV::Str("list"@)), ("value"@, JsonV::Arr(spec_args_json(items)))],
        ),
    }
}

/// The JSON documents of a sequence of arguments.
pub open spec fn spec_args_json(s: Seq<ArgV>) -> Seq<JsonV>
    decreases s,
{
    if s.len() == 0 {
        Seq::empty()
    } else {
        seq![spec_arg_json(s[0])] + spec_args_json(s.subrange(1, s.len() as int))
    }
}

/// The name under which an operation class is recorded.
pub open spec fn spec_op_type_name(o: OperationType) -> Seq<char> {
    match o {
        OperationType::InvokeScript => "invoke_script"@,
    }
}

/// The JSON document of a whole transaction.
pub open spec fn spec_tx_json(t: TransactionV) -> JsonV {
    JsonV::Obj(
        seq![
            ("id"@, JsonV::Str(t.id)),
            ("type"@, JsonV::Str(spec_op_type_name(t.op_type))),
            ("origin_transaction_type"@, JsonV::UInt(t.tx_type.spec_code() as u64)),
            ("height"@, JsonV::UInt(t.height as u64)),
            ("timestamp"@, JsonV::UInt(t.timestamp)),
            ("fee"@, spec_amount_json(t.fee)),
            ("sender"@, JsonV::Str(t.sender)),
            ("sender_public_key"@, JsonV::Str(t.sender_public_key)),
            ("proofs"@, JsonV::Arr(t.proofs.map_values(|p: Seq<char>| JsonV::Str(p)))),
            ("dapp"@, JsonV::Str(t.dapp)),
            ("payment"@, JsonV::Arr(t.payment.map_values(|a: AmountV| spec_amount_json(a)))),
            (
                "call"@,
                JsonV::Obj(
                    seq![
                        ("function"@, JsonV::Str(t.call.function)),
                        ("args"@, JsonV::Arr(spec_args_json(t.call.args))),
                    ],
                ),
            ),
        ],
    )
}

fn amount_to_json(a: &Amount) -> (r: Json)
    ensures
        json_view(r) == spec_amount_json(a.deep_view()),
{
    let mut fields: Vec<(String, Json)> = Vec::new();
    fields.push(("amount".to_owned(), Json::Int(a.amount)));
    fields.push(("id".to_owned(), Json::Str(a.asset_id.clone())));
    proof {
        lemma_fields_view(fields@);
        assert(fields_view(fields@) =~= seq![
            ("amount"@, JsonV::Int(a.amount)),
            ("id"@, JsonV::Str(a.asset_id@)),
        ]);
    }
    Json::Obj(fields)
}

#[verifier::loop_isolation(false)]
fn arg_to_json(arg: &Arg) -> (r: Json)
    ensures
        json_view(r) == spec_arg_json(arg.deep_view()),
    decreases arg,
{
    let (tag, value) = match arg {
        Arg::Integer(x) => ("integer", Json::Int(*x)),
        Arg::Binary(s) => ("binary", Json::Str(s.clone())),
        Arg::String(s) => ("string", Json::Str(s.clone())),
        Arg::Boolean(b) => ("boolean", Json::Bool(*b)),
        Arg::CaseObj(s) => ("case_obj", Json::Str(s.clone())),
        Arg::List(items) => {
            let mut out: Vec<Json> = Vec::new();
            let mut i: usize = 0;
            proof {
                lemma_args_view(items@);
            }
            while i < items.len()
                invariant
                    i <= items@.len(),
                    out@.len() == i,
                    args_view(items@).len() == items@.len(),
                    forall|j: int|
                        0 <= j < items@.len() ==> args_view(items@)[j] == arg_view(items@[j]),
                    forall|j: int|
                        0 <= j < i ==> json_view(out@[j]) == spec_arg_json(args_view(items@)[j]),
                decreases items@.len() - i,
            {
                proof {
                    assert(decreases_to!(arg => items));
                    assert(decreases_to!(items => items[i as int]));
                }
                let piece = arg_to_json(&items[i]);
                out.push(piece);
                i += 1;
            }
            proof {
                lemma_jsons_view(out@);
                lemma_spec_args_json(args_view(items@));
                assert(jsons_view(out@) =~= spec_args_json(args_view(items@)));
            }
            ("list", Json::Arr(out))
        },
    };
    let mut fields: Vec<(String, Json)> = Vec::new();
    fields.push(("type".to_owned(), Json::Str(tag.to_owned())));
    fields.push(("value".to_owned(), value));
    proof {
        lemma_fields_view(fields@);
        assert(json_view(Json::Obj(fields)) == spec_arg_json(arg.deep_view())) by {
            assert(fields_view(fields@) =~= seq![
                ("type"@, JsonV::Str(tag@)),
                ("value"@, json_view(value)),
            ]);
            match arg.deep_view() {
                ArgV::Integer(_) => {},
                ArgV::Binary(_) => {},
                ArgV::String(_) => {},
                ArgV::Boolean(_) => {},
                ArgV::CaseObj(_) => {},
                ArgV::List(_) => {},
            }
        }
    }
    Json::Obj(fields)
}

/// [`spec_args_json`] maps its argument elementwise.
pub proof fn lemma_spec_args_json(s: Seq<ArgV>)
    ensures
        spec_args_json(s).len() == s.len(),
        forall|i: int| 0 <= i < s.len() ==> spec_args_json(s)[i] == spec_arg_json(s[i]),
    decreases s.len(),
{
    if s.len() > 0 {
        lemma_spec_args_json(s.subrange(1, s.len() as int));
    }
}

/// Serializes one transaction to its JSON document.
pub fn tx_to_json(t: &Transaction) -> (r: Json)
    ensures
        json_view(r) == spec_tx_json(t.deep_view()),
{
    let op_type_name = match t.op_type {
        OperationType::InvokeScript => "invoke_script",
    };
    let mut proofs: Vec<Json> = Vec::new();
    let mut i: usize = 0;
    while i < t.proofs.len()
        invariant
            i <= t.proofs@.len(),
            proofs@.len() == i,
            forall|j: int| 0 <= j < i ==> json_view(proofs@[j]) == JsonV::Str(t.proofs@[j]@),
        decreases t.proofs@.len() - i,
    {
        proofs.push(Json::Str(t.proofs[i].clone()));
        i += 1;
    }
    proof {
        lemma_jsons_view(proofs@);
        assert(jsons_view(proofs@) =~= t.deep_view().proofs.map_values(
            |p: Seq<char>| JsonV::Str(p),
        ));
    }
    let mut payment: Vec<Json> = Vec::new();
    let mut i: usize = 0;
    while i < t.payment.len()
        invariant
            i <= t.payment@.len(),
            payment@.len() == i,
            forall|j: int|
                0 <= j < i ==> json_view(payment@[j]) == spec_amount_json(
                    t.payment@[j].deep_view(),
                ),
        decreases t.payment@.len() - i,
    {
        payment.push(amount_to_json(&t.payment[i]));
        i += 1;
    }
    proof {
        lemma_jsons_view(payment@);
        assert(jsons_view(payment@) =~= t.deep_view().payment.map_values(
            |a: AmountV| spec_amount_json(a),
        ));
    }
    let mut args: Vec<Json> = Vec::new();
    let mut i: usize = 0;
    proof {
        lemma_args_view(t.call.args@);
    }
    while i < t.call.args.len()
        invariant
            i <= t.call.args@.len(),
            args@.len() == i,
            args_view(t.call.args@).len() == t.call.args@.len(),
            forall|j: int|
                0 <= j < t.call.args@.len() ==> args_view(t.call.args@)[j] == arg_view(
                    t.call.args@[j],
                ),
            forall|j: int|
                0 <= j < i ==> json_view(args@[j]) == spec_arg_json(args_view(t.call.args@)[j]),
        decreases t.call.args@.len() - i,
    {
        args.push(arg_to_json(&t.call.args[i]));
        i += 1;
    }
    proof {
        lemma_jsons_view(args@);
        lemma_spec_args_json(args_view(t.call.args@));
        assert(jsons_view(args@) =~= spec_args_json(t.deep_view().call.args));
    }
    let mut call_fields: Vec<(String, Json)> = Vec::new();
    call_fields.push(("function".to_owned(), Json::Str(t.call.function.clone())));
    call_fields.push(("args".to_owned(), Json::Arr(args)));
    let call = Json::Obj(call_fields);
    proof {
        lemma_fields_view(call_fields@);
        assert(fields_view(call_fields@) =~= seq![
            ("function"@, JsonV::Str(t.deep_view().call.function)),
            ("args"@, JsonV::Arr(spec_args_json(t.deep_view().call.args))),
        ]);
    }
    let mut fields: Vec<(String, Json)> = Vec::new();
    fields.push(("id".to_owned(), Json::Str(t.id.clone())));
    fields.push(("type".to_owned(), Json::Str(op_type_name.to_owned())));
    fields.push(("origin_transaction_type".to_owned(), Json::UInt(t.tx_type.code() as u64)));
    fields.push(("height".to_owned(), Json::UInt(t.height as u64)));
    fields.push(("timestamp".to_owned(), Json::UInt(t.timestamp)));
    fields.push(("fee".to_owned(), amount_to_json(&t.fee)));
    fields.push(("sender".to_owned(), Json::Str(t.sender.clone())));
    fields.push(("sender_public_key".to_owned(), Json::Str(t.sender_public_key.clone())));
    fields.push(("proofs".to_owned(), Json::Arr(proofs)));
    fields.push(("dapp".to_owned(), Json::Str(t.dapp.clone())));
    fields.push(("payment".to_owned(), Json::Arr(payment)));
    fields.push(("call".to_owned(), call));
    proof {
        lemma_fields_view(fields@);
        assert(json_view(Json::Obj(fields)) == spec_tx_json(t.deep_view())) by {
            let lhs = fields_view(fields@);
            let rhs = match spec_tx_json(t.deep_view()) {
                JsonV::Obj(f) => f,
                _ => Seq::empty(),
            };
            assert(lhs =~= rhs);
        }
    }
    Json::Obj(fields)
}

/// Reads an amount back from its JSON document.
pub open spec fn spec_amount_from_json(j: JsonV) -> Option<AmountV> {
    match j {
        JsonV::Obj(f) => {
            if f.len() == 2 && f[0].0 == "amount"@ && f[0].1 is Int && f[1].0 == "id"@ && f[1].1
                is Str {
                Some(AmountV { amount: f[0].1->Int_0, asset_id: f[1].1->Str_0 })
            } else {
                None
            }
        },
        _ => None,
    }
}

/// Reads one script argument back from its tagged JSON document.
pub open spec fn spec_arg_from_json(j: JsonV) -> Option<ArgV>
    decreases j,
{
    match j {
        JsonV::Obj(f) => {
            if !(f.len() == 2 && f[0].0 == "type"@ && f[0].1 is Str && f[1].0 == "value"@) {
                None
            } else {
                let tag = f[0].1->Str_0;
                let v = f[1].1;
                if tag == "integer"@ {
                    match v {
                        JsonV::Int(x) => Some(ArgV::Integer(x)),
                        _ => None,
                    }
                } else if tag == "binary"@ {
                    match v {
                        JsonV::Str(s) => Some(ArgV::Binary(s)),
                        _ => None,
                    }
                } else if tag == "string"@ {
                    match v {
                        JsonV::Str(s) => Some(ArgV::String(s)),
                        _ => None,
                    }
                } else if tag == "boolean"@ {
                    match v {
                        JsonV::Bool(b) => Some(ArgV::Boolean(b)),
                        _ => None,
                    }
                } else if tag == "case_obj"@ {
                    match v {
                        JsonV::Str(s) => Some(ArgV::CaseObj(s)),
                        _ => None,
                    }
                } else if tag == "list"@ {
                    match v {
                        JsonV::Arr(items) => match spec_args_from_json(items) {
                            Some(args) => Some(ArgV::List(args)),
                            None => None,
                        },
                        _ => None,
                    }
                } else {
                    None
                }
            }
        },
        _ => None,
    }
}

/// Reads a sequence of script arguments back; any failure fails the whole.
pub open spec fn spec_args_from_json(s: Seq<JsonV>) -> Option<Seq<ArgV>>
    decreases s,
{
    if s.len() == 0 {
        Some(Seq::empty())
    } else {
        match spec_arg_from_json(s[0]) {
            None => None,
            Some(a) => match spec_args_from_json(s.subrange(1, s.len() as int)) {
                None => None,
                Some(rest) => Some(seq![a] + rest),
            },
        }
    }
}

/// Reads a sequence of strings back from JSON string values.
pub open spec fn spec_strs_from_json(s: Seq<JsonV>) -> Option<Seq<Seq<char>>>
    decreases s,
{
    if s.len() == 0 {
        Some(Seq::empty())
    } else if s[0] is Str {
        match spec_strs_from_json(s.subrange(1, s.len() as int)) {
            None => None,
            Some(rest) => Some(seq![s[0]->Str_0] + rest),
        }
    } else {
        None
    }
}

/// Reads a sequence of amounts back from their JSON documents.
pub open spec fn spec_amounts_from_json(s: Seq<JsonV>) -> Option<Seq<AmountV>>
    decreases s,
{
    if s.len() == 0 {
        Some(Seq::empty())
    } else {
        match spec_amount_from_json(s[0]) {
            None => None,
            Some(a) => match spec_amounts_from_json(s.subrange(1, s.len() as int)) {
                None => None,
                Some(rest) => Some(seq![a] + rest),
            },
        }
    }
}

/// Reads a transaction back from its JSON document; the document must have
/// exactly the shape that [`spec_tx_json`] writes.
pub open spec fn spec_tx_from_json(j: JsonV) -> Option<TransactionV> {
    match j {
        JsonV::Obj(f) => {
            if f.len() != 12 {
                None
            } else if !(f[0].0 == "id"@ && f[0].1 is Str) {
                None
            } else if !(f[1].0 == "type"@ && f[1].1 is Str && f[1].1->Str_0
                == "invoke_script"@) {
                None
            } else if !(f[2].0 == "origin_transaction_type"@ && f[2].1 is UInt && (f[2].1->UInt_0
                == 16 || f[2].1->UInt_0 == 18)) {
                None
            } else if !(f[3].0 == "height"@ && f[3].1 is UInt && f[3].1->UInt_0 <= 0xFFFF_FFFFu64) {
                None
            } else if !(f[4].0 == "timestamp"@ && f[4].1 is UInt) {
                None
            } else if !(f[5].0 == "fee"@ && spec_amount_from_json(f[5].1) is Some) {
                None
            } else if !(f[6].0 == "sender"@ && f[6].1 is Str) {
                None
            } else if !(f[7].0 == "sender_public_key"@ && f[7].1 is Str) {
                None
            } else if !(f[8].0 == "proofs"@ && f[8].1 is Arr && spec_strs_from_json(f[8].1->Arr_0)
                is Some) {
                None
            } else if !(f[9].0 == "dapp"@ && f[9].1 is Str) {
                None
            } else if !(f[10].0 == "payment"@ && f[10].1 is Arr && spec_amounts_from_json(
                f[10].1->Arr_0,
            ) is Some) {
                None
            } else if !(f[11].0 == "call"@ && f[11].1 is Obj) {
                None
            } else {
                let g = f[11].1->Obj_0;
                if !(g.len() == 2 && g[0].0 == "function"@ && g[0].1 is Str && g[1].0 == "args"@
                    && g[1].1 is Arr && spec_args_from_json(g[1].1->Arr_0) is Some) {
                    None
                } else {
                    Some(
                        TransactionV {
                            id: f[0].1->Str_0,
                            op_type: OperationType::InvokeScript,
                            tx_type: if f[2].1->UInt_0 == 16 {
                                TransactionType::InvokeScript
                            } else {
                                TransactionType::EthereumTransaction
                            },
                            height: f[3].1->UInt_0 as u32,
                            timestamp: f[4].1->UInt_0,
                            fee: spec_amount_from_json(f[5].1)->Some_0,
                            sender: f[6].1->Str_0,
                            sender_public_key: f[7].1->Str_0,
                            proofs: spec_strs_from_json(f[8].1->Arr_0)->Some_0,
                            dapp: f[9].1->Str_0,
                            payment: spec_amounts_from_json(f[10].1->Arr_0)->Some_0,
                            call: (crate::model::CallV {
                                function: g[0].1->Str_0,
                                args: spec_args_from_json(g[1].1->Arr_0)->Some_0,
                            }),
                        },
                    )
                }
            }
        },
        _ => None,
    }
}

/// Amount documents read back to the amount they were written from.
pub proof fn lemma_amount_json_round_trip(a: AmountV)
    ensures
        spec_amount_from_json(spec_amount_json(a)) == Some(a),
{
}

/// String-array documents read back to the strings they were written from.
pub proof fn lemma_strs_json_round_trip(s: Seq<Seq<char>>)
    ensures
        spec_strs_from_json(s.map_values(|p: Seq<char>| JsonV::Str(p))) == Some(s),
    decreases s.len(),
{
    let m = s.map_values(|p: Seq<char>| JsonV::Str(p));
    if s.len() > 0 {
        lemma_strs_json_round_trip(s.subrange(1, s.len() as int));
        assert(m.subrange(1, m.len() as int) =~= s.subrange(1, s.len() as int).map_values(
            |p: Seq<char>| JsonV::Str(p),
        ));
        assert(seq![s[0]] + s.subrange(1, s.len() as int) =~= s);
    } else {
        assert(m.len() == 0);
    }
}

/// Amount-array documents read back to the amounts they were written from.
pub proof fn lemma_amounts_json_round_trip(s: Seq<AmountV>)
    ensures
        spec_amounts_from_json(s.map_values(|a: AmountV| spec_amount_json(a))) == Some(s),
    decreases s.len(),
{
    let m = s.map_values(|a: AmountV| spec_amount_json(a));
    if s.len() > 0 {
        lemma_amounts_json_round_trip(s.subrange(1, s.len() as int));
        assert(m.subrange(1, m.len() as int) =~= s.subrange(1, s.len() as int).map_values(
            |a: AmountV| spec_amount_json(a),
        ));
        lemma_amount_json_round_trip(s[0]);
        assert(seq![s[0]] + s.subrange(1, s.len() as int) =~= s);
    } else {
        assert(m.len() == 0);
    }
}

/// One argument document reads back to the argument it was written from.
pub proof fn lemma_arg_json_round_trip(a: ArgV)
    ensures
        spec_arg_from_json(spec_arg_json(a)) == Some(a),
    decreases a,
{
    reveal_strlit("integer");
    reveal_strlit("binary");
    reveal_strlit("string");
    reveal_strlit("boolean");
    reveal_strlit("case_obj");
    reveal_strlit("list");
    assert(("integer"@).len() == 7);
    assert(("binary"@).len() == 6);
    assert(("string"@).len() == 6);
    assert(("boolean"@).len() == 7);
    assert(("case_obj"@).len() == 8);
    assert(("list"@).len() == 4);
    assert(("string"@)[0] == 's');
    assert(("binary"@)[0] == 'b');
    assert("string"@ != "binary"@);
    assert(("boolean"@)[0] == 'b');
    assert(("integer"@)[0] == 'i');
    assert("boolean"@ != "integer"@);
    match a {
        ArgV::List(items) => {
            lemma_args_json_round_trip(items);
        },
        _ => {},
    }
}

/// Argument-array documents read back to the arguments they were written
/// from.
pub proof fn lemma_args_json_round_trip(s: Seq<ArgV>)
    ensures
        spec_args_from_json(spec_args_json(s)) == Some(s),
    decreases s,
{
    if s.len() > 0 {
        lemma_arg_json_round_trip(s[0]);
        lemma_args_json_round_trip(s.subrange(1, s.len() as int));
        let m = spec_args_json(s);
        assert(m.subrange(1, m.len() as int) =~= spec_args_json(s.subrange(1, s.len() as int)));
        assert(seq![s[0]] + s.subrange(1, s.len() as int) =~= s);
    }
}

fn amount_from_json(j: &Json) -> (r: Option<Amount>)
    ensures
        match r {
            Some(a) => spec_amount_from_json(json_view(*j)) == Some(a.deep_view()),
            None => spec_amount_from_json(json_view(*j)) is None,
        },
{
    match j {
        Json::Obj(f) => {
            proof {
                lemma_fields_view(f@);
            }
            if f.len() != 2 {
                return None;
            }
            if !str_eq(f[0].0.as_str(), "amount") {
                return None;
            }
            let amount = match &f[0].1 {
                Json::Int(x) => *x,
                _ => {
                    return None;
                },
            };
            if !str_eq(f[1].0.as_str(), "id") {
                return None;
            }
            let asset_id = match &f[1].1 {
                Json::Str(s) => s.clone(),
                _ => {
                    return None;
                },
            };
            Some(Amount { amount, asset_id })
        },
        _ => None,
    }
}

/// Unfolds one step of [`spec_args_from_json`].
proof fn lemma_args_from_json_step(s: Seq<JsonV>, i: int)
    requires
        0 <= i < s.len(),
    ensures
        spec_args_from_json(s.skip(i)) == match spec_arg_from_json(s[i]) {
            None => None::<Seq<ArgV>>,
            Some(a) => match spec_args_from_json(s.skip(i + 1)) {
                None => None::<Seq<ArgV>>,
                Some(rest) => Some(seq![a] + rest),
            },
        },
{
    assert(s.skip(i).len() == s.len() - i);
    assert(s.skip(i)[0] == s[i]);
    assert(s.skip(i).subrange(1, s.skip(i).len() as int) =~= s.skip(i + 1));
}

#[verifier::loop_isolation(false)]
fn args_from_json(items: &Vec<Json>) -> (r: Option<Vec<Arg>>)
    ensures
        match r {
            Some(list) => spec_args_from_json(jsons_view(items@)) == Some(args_view(list@)),
            None => spec_args_from_json(jsons_view(items@)) is None,
        },
    decreases items,
{
    let ghost s = jsons_view(items@);
    let mut out: Vec<Arg> = Vec::new();
    let mut i: usize = 0;
    proof {
        lemma_jsons_view(items@);
        assert(s.skip(0) =~= s);
        if spec_args_from_json(s) is Some {
            assert(args_view(out@) + spec_args_from_json(s)->Some_0 =~= spec_args_from_json(
                s,
            )->Some_0);
        }
    }
    while i < items.len()
        invariant
            i <= items@.len(),
            spec_args_from_json(s) == match spec_args_from_json(s.skip(i as int)) {
                Some(rest) => Some(args_view(out@) + rest),
                None => None::<Seq<ArgV>>,
            },
        decreases items@.len() - i,
    {
        let ghost j = i as int;
        let ghost out0 = out@;
        proof {
            lemma_args_from_json_step(s, j);
            assert(decreases_to!(items => items[j]));
        }
        match arg_from_json(&items[i]) {
            Some(a) => {
                out.push(a);
                i += 1;
                proof {
                    lemma_args_view_push(out0, a);
                    if spec_args_from_json(s.skip(j + 1)) is Some {
                        let rest = spec_args_from_json(s.skip(j + 1))->Some_0;
                        assert(args_view(out0) + (seq![a.deep_view()] + rest) =~= args_view(out@)
                            + rest);
                    }
                }
            },
            None => {
                return None;
            },
        }
    }
    proof {
        assert(s.skip(s.len() as int) =~= Seq::<JsonV>::empty());
        assert(args_view(out@) + Seq::<ArgV>::empty() =~= args_view(out@));
    }
    Some(out)
}

fn arg_from_json(j: &Json) -> (r: Option<Arg>)
    ensures
        match r {
            Some(a) => spec_arg_from_json(json_view(*j)) == Some(a.deep_view()),
            None => spec_arg_from_json(json_view(*j)) is None,
        },
    decreases j,
{
    match j {
        Json::Obj(f) => {
            proof {
                lemma_fields_view(f@);
            }
            if f.len() != 2 {
                return None;
            }
            if !str_eq(f[0].0.as_str(), "type") {
                return None;
            }
            let tag = match &f[0].1 {
                Json::Str(s) => s,
                _ => {
                    return None;
                },
            };
            if !str_eq(f[1].0.as_str(), "value") {
                return None;
            }
            if str_eq(tag.as_str(), "integer") {
                match &f[1].1 {
                    Json::Int(x) => Some(Arg::Integer(*x)),
                    _ => None,
                }
            } else if str_eq(tag.as_str(), "binary") {
                match &f[1].1 {
                    Json::Str(s) => Some(Arg::Binary(s.clone())),
                    _ => None,
                }
            } else if str_eq(tag.as_str(), "string") {
                match &f[1].1 {
                    Json::Str(s) => Some(Arg::String(s.clone())),
                    _ => None,
                }
            } else if str_eq(tag.as_str(), "boolean") {
                match &f[1].1 {
                    Json::Bool(b) => Some(Arg::Boolean(*b)),
                    _ => None,
                }
            } else if str_eq(tag.as_str(), "case_obj") {
                match &f[1].1 {
                    Json::Str(s) => Some(Arg::CaseObj(s.clone())),
                    _ => None,
                }
            } else if str_eq(tag.as_str(), "list") {
                match &f[1].1 {
                    Json::Arr(items) => {
                        proof {
                            assert(decreases_to!(j => f));
                            assert(decreases_to!(f => f[1int]));
                            assert(decreases_to!(f[1int] => f[1int].1));
                            assert(decreases_to!(f[1int].1 => items));
                        }
                        match args_from_json(items) {
                            Some(args) => Some(Arg::List(args)),
                            None => None,
                        }
                    },
                    _ => None,
                }
            } else {
                None
            }
        },
        _ => None,
    }
}

/// Unfolds one step of [`spec_strs_from_json`].
proof fn lemma_strs_from_json_step(s: Seq<JsonV>, i: int)
    requires
        0 <= i < s.len(),
    ensures
        spec_strs_from_json(s.skip(i)) == (if s[i] is Str {
            match spec_strs_from_json(s.skip(i + 1)) {
                None => None::<Seq<Seq<char>>>,
                Some(rest) => Some(seq![s[i]->Str_0] + rest),
            }
        } else {
            None::<Seq<Seq<char>>>
        }),
{
    assert(s.skip(i).len() == s.len() - i);
    assert(s.skip(i)[0] == s[i]);
    assert(s.skip(i).subrange(1, s.skip(i).len() as int) =~= s.skip(i + 1));
}

/// Unfolds one step of [`spec_amounts_from_json`].
proof fn lemma_amounts_from_json_step(s: Seq<JsonV>, i: int)
    requires
        0 <= i < s.len(),
    ensures
        spec_amounts_from_json(s.skip(i)) == match spec_amount_from_json(s[i]) {
            None => None::<Seq<AmountV>>,
            Some(a) => match spec_amounts_from_json(s.skip(i + 1)) {
                None => None::<Seq<AmountV>>,
                Some(rest) => Some(seq![a] + rest),
            },
        },
{
    assert(s.skip(i).len() == s.len() - i);
    assert(s.skip(i)[0] == s[i]);
    assert(s.skip(i).subrange(1, s.skip(i).len() as int) =~= s.skip(i + 1));
}

#[verifier::loop_isolation(false)]
fn strs_from_json(items: &Vec<Json>) -> (r: Option<Vec<String>>)
    ensures
        match r {
            Some(list) => spec_strs_from_json(jsons_view(items@)) == Some(
                Seq::new(list@.len(), |k: int| list@[k]@),
            ),
            None => spec_strs_from_json(jsons_view(items@)) is None,
        },
{
    let ghost s = jsons_view(items@);
    let mut out: Vec<String> = Vec::new();
    let mut i: usize = 0;
    proof {
        lemma_jsons_view(items@);
        assert(s.skip(0) =~= s);
        if spec_strs_from_json(s) is Some {
            assert(Seq::new(out@.len(), |k: int| out@[k]@) + spec_strs_from_json(s)->Some_0
                =~= spec_strs_from_json(s)->Some_0);
        }
    }
    while i < items.len()
        invariant
            i <= items@.len(),
            out@.len() == i,
            spec_strs_from_json(s) == match spec_strs_from_json(s.skip(i as int)) {
                Some(rest) => Some(Seq::new(out@.len(), |k: int| out@[k]@) + rest),
                None => None::<Seq<Seq<char>>>,
            },
        decreases items@.len() - i,
    {
        let ghost j = i as int;
        let ghost out0 = out@;
        proof {
            lemma_strs_from_json_step(s, j);
        }
        match &items[i] {
            Json::Str(p) => {
                out.push(p.clone());
                i += 1;
                proof {
                    if spec_strs_from_json(s.skip(j + 1)) is Some {
                        let rest = spec_strs_from_json(s.skip(j + 1))->Some_0;
                        assert(Seq::new(out0.len(), |k: int| out0[k]@) + (seq![s[j]->Str_0] + rest)
                            =~= Seq::new(out@.len(), |k: int| out@[k]@) + rest);
                    }
                }
            },
            _ => {
                return None;
            },
        }
    }
    proof {
        assert(s.skip(s.len() as int) =~= Seq::<JsonV>::empty());
        assert(Seq::new(out@.len(), |k: int| out@[k]@) + Seq::<Seq<char>>::empty() =~= Seq::new(
            out@.len(),
            |k: int| out@[k]@,
        ));
    }
    Some(out)
}

#[verifier::loop_isolation(false)]
fn amounts_from_json(items: &Vec<Json>) -> (r: Option<Vec<Amount>>)
    ensures
        match r {
            Some(list) => spec_amounts_from_json(jsons_view(items@)) == Some(list.deep_view()),
            None => spec_amounts_from_json(jsons_view(items@)) is None,
        },
{
    let ghost s = jsons_view(items@);
    let mut out: Vec<Amount> = Vec::new();
    let mut i: usize = 0;
    proof {
        lemma_jsons_view(items@);
        assert(s.skip(0) =~= s);
        if spec_amounts_from_json(s) is Some {
            assert(out.deep_view() + spec_amounts_from_json(s)->Some_0 =~= spec_amounts_from_json(
                s,
            )->Some_0);
        }
    }
    while i < items.len()
        invariant
            i <= items@.len(),
            out@.len() == i,
            spec_amounts_from_json(s) == match spec_amounts_from_json(s.skip(i as int)) {
                Some(rest) => Some(out.deep_view() + rest),
                None => None::<Seq<AmountV>>,
            },
        decreases items@.len() - i,
    {
        let ghost j = i as int;
        let ghost out0 = out.deep_view();
        proof {
            lemma_amounts_from_json_step(s, j);
        }
        match amount_from_json(&items[i]) {
            Some(a) => {
                out.push(a);
                i += 1;
                proof {
                    assert(out.deep_view() =~= out0 + seq![a.deep_view()]);
                    if spec_amounts_from_json(s.skip(j + 1)) is Some {
                        let rest = spec_amounts_from_json(s.skip(j + 1))->Some_0;
                        assert(out0 + (seq![a.deep_view()] + rest) =~= out.deep_view() + rest);
                    }
                }
            },
            None => {
                return None;
            },
        }
    }
    proof {
        assert(s.skip(s.len() as int) =~= Seq::<JsonV>::empty());
        assert(out.deep_view() + Seq::<AmountV>::empty() =~= out.deep_view());
    }
    Some(out)
}

/// Reads one transaction back from its JSON document.
pub fn tx_from_json(j: &Json) -> (r: Option<Transaction>)
    ensures
        match r {
            Some(t) => spec_tx_from_json(json_view(*j)) == Some(t.deep_view()),
            None => spec_tx_from_json(json_view(*j)) is None,
        },
{
    match j {
        Json::Obj(f) => {
            proof {
                lemma_fields_view(f@);
            }
            if f.len() != 12 {
                return None;
            }
            if !str_eq(f[0].0.as_str(), "id") {
                return None;
            }
            let id = match &f[0].1 {
                Json::Str(s) => s.clone(),
                _ => {
                    return None;
                },
            };
            if !str_eq(f[1].0.as_str(), "type") {
                return None;
            }
            let op_type = match &f[1].1 {
                Json::Str(s) => {
                    if !str_eq(s.as_str(), "invoke_script") {
                        return None;
                    }
                    OperationType::InvokeScript
                },
                _ => {
                    return None;
                },
            };
            if !str_eq(f[2].0.as_str(), "origin_transaction_type") {
                return None;
            }
            let tx_type = match &f[2].1 {
                Json::UInt(x) => {
                    if *x == 16 {
                        TransactionType::InvokeScript
                    } else if *x == 18 {
                        TransactionType::EthereumTransaction
                    } else {
                        return None;
                    }
                },
                _ => {
                    return None;
                },
            };
            if !str_eq(f[3].0.as_str(), "height") {
                return None;
            }
            let height = match &f[3].1 {
                Json::UInt(x) => {
                    if *x > 0xFFFF_FFFFu64 {
                        return None;
                    }
                    *x as u32
                },
                _ => {
                    return None;
                },
            };
            if !str_eq(f[4].0.as_str(), "timestamp") {
                return None;
            }
            let timestamp = match &f[4].1 {
                Json::UInt(x) => *x,
                _ => {
                    return None;
                },
            };
            if !str_eq(f[5].0.as_str(), "fee") {
                return None;
            }
            let fee = match amount_from_json(&f[5].1) {
                Some(a) => a,
                None => {
                    return None;
                },
            };
            if !str_eq(f[6].0.as_str(), "sender") {
                return None;
            }
            let sender = match &f[6].1 {
                Json::Str(s) => s.clone(),
                _ => {
                    return None;
                },
            };
            if !str_eq(f[7].0.as_str(), "sender_public_key") {
                return None;
            }
            let sender_public_key = match &f[7].1 {
                Json::Str(s) => s.clone(),
                _ => {
                    return None;
                },
            };
            if !str_eq(f[8].0.as_str(), "proofs") {
                return None;
            }
            let proofs = match &f[8].1 {
                Json::Arr(items) => match strs_from_json(items) {
                    Some(list) => list,
                    None => {
                        return None;
                    },
                },
                _ => {
                    return None;
                },
            };
            if !str_eq(f[9].0.as_str(), "dapp") {
                return None;
            }
            let dapp = match &f[9].1 {
                Json::Str(s) => s.clone(),
                _ => {
                    return None;
                },
            };
            if !str_eq(f[10].0.as_str(), "payment") {
                return None;
            }
            let payment = match &f[10].1 {
                Json::Arr(items) => match amounts_from_json(items) {
                    Some(list) => list,
                    None => {
                        return None;
                    },
                },
                _ => {
                    return None;
                },
            };
            if !str_eq(f[11].0.as_str(), "call") {
                return None;
            }
            let call = match &f[11].1 {
                Json::Obj(g) => {
                    proof {
                        lemma_fields_view(g@);
                    }
                    if g.len() != 2 {
                        return None;
                    }
                    if !str_eq(g[0].0.as_str(), "function") {
                        return None;
                    }
                    let function = match &g[0].1 {
                        Json::Str(s) => s.clone(),
                        _ => {
                            return None;
                        },
                    };
                    if !str_eq(g[1].0.as_str(), "args") {
                        return None;
                    }
                    let args = match &g[1].1 {
                        Json::Arr(items) => match args_from_json(items) {
                            Some(list) => list,
                            None => {
                                return None;
                            },
                        },
                        _ => {
                            return None;
                        },
                    };
                    Call { function, args }
                },
                _ => {
                    return None;
                },
            };
            let t = Transaction {
                id,
                op_type,
                tx_type,
                height,
                timestamp,
                fee,
                sender,
                sender_public_key,
                proofs,
                dapp,
                payment,
                call,
            };
            proof {
                assert(t.deep_view().proofs =~= Seq::new(t.proofs@.len(), |k: int| t.proofs@[k]@));
            }
            Some(t)
        },
        _ => None,
    }
}

/// A deep copy with the same image.
#[verifier::loop_isolation(false)]
pub fn json_clone(j: &Json) -> (r: Json)
    ensures
        json_view(r) == json_view(*j),
    decreases j,
{
    match j {
        Json::Bool(b) => Json::Bool(*b),
        Json::Int(x) => Json::Int(*x),
        Json::UInt(x) => Json::UInt(*x),
        Json::Str(s) => Json::Str(s.clone()),
        Json::Arr(items) => {
            let mut out: Vec<Json> = Vec::new();
            let mut i: usize = 0;
            proof {
                lemma_jsons_view(items@);
            }
            while i < items.len()
                invariant
                    i <= items@.len(),
                    out@.len() == i,
                    forall|k: int| 0 <= k < i ==> json_view(out@[k]) == json_view(items@[k]),
                decreases items@.len() - i,
            {
                proof {
                    assert(decreases_to!(j => items));
                    assert(decreases_to!(items => items[i as int]));
                }
                let piece = json_clone(&items[i]);
                out.push(piece);
                i += 1;
            }
            proof {
                lemma_jsons_view(out@);
                assert(jsons_view(out@) =~= jsons_view(items@));
            }
            Json::Arr(out)
        },
        Json::Obj(fields) => {
            let mut out: Vec<(String, Json)> = Vec::new();
            let mut i: usize = 0;
            proof {
                lemma_fields_view(fields@);
            }
            while i < fields.len()
                invariant
                    i <= fields@.len(),
                    out@.len() == i,
                    forall|k: int|
                        0 <= k < i ==> out@[k].0@ == fields@[k].0@ && json_view(out@[k].1)
                            == json_view(fields@[k].1),
                decreases fields@.len() - i,
            {
                proof {
                    assert(decreases_to!(j => fields));
                    assert(decreases_to!(fields => fields[i as int]));
                    assert(decreases_to!(fields[i as int] => fields[i as int].1));
                }
                let value = json_clone(&fields[i].1);
                let key = fields[i].0.clone();
                out.push((key, value));
                i += 1;
            }
            proof {
                lemma_fields_view(out@);
                assert(fields_view(out@) =~= fields_view(fields@));
            }
            Json::Obj(out)
        },
    }
}

/// A serialized transaction re-parses to an equal value.
pub proof fn lemma_tx_json_round_trip(t: TransactionV)
    ensures
        spec_tx_from_json(spec_tx_json(t)) == Some(t),
{
    lemma_amount_json_round_trip(t.fee);
    lemma_strs_json_round_trip(t.proofs);
    lemma_amounts_json_round_trip(t.payment);
    lemma_args_json_round_trip(t.call.args);
    reveal_strlit("invoke_script");
}

} // verus!
