//! Data model of a recorded operation: a normalized script invocation,
//! together with the spec-level views used by the contracts.

use vstd::prelude::*;

verus! {

/// Kind of operation this library records; the store currently holds script
/// invocations only.
#[derive(Copy, Clone, PartialEq, Eq, Debug, Structural)]
pub enum OperationType {
    InvokeScript,
}

/// Upstream flavor of a recorded transaction: a native script invocation or a
/// foreign (ethereum-style) invocation.
#[derive(Copy, Clone, PartialEq, Eq, Debug, Structural)]
pub enum TransactionType {
    InvokeScript,
    EthereumTransaction,
}

impl TransactionType {
    /// Numeric code used in the persisted encoding: native invocations carry
    /// 16, foreign ones 18.
    pub open spec fn spec_code(self) -> u8 {
        match self {
            TransactionType::InvokeScript => 16,
            TransactionType::EthereumTransaction => 18,
        }
    }

    pub fn code(self) -> (r: u8)
        ensures
            r == self.spec_code(),
    {
        match self {
            TransactionType::InvokeScript => 16,
            TransactionType::EthereumTransaction => 18,
        }
    }
}

/// An asset quantity; `asset_id` defaults to `"WAVES"` when the upstream
/// field was empty.
#[derive(PartialEq, Eq, Debug)]
pub struct Amount {
    pub amount: i64,
    pub asset_id: String,
}

/// Spec-level image of an [`Amount`].
pub struct AmountV {
    pub amount: i64,
    pub asset_id: Seq<char>,
}

impl DeepView for Amount {
    type V = AmountV;

    open spec fn deep_view(&self) -> AmountV {
        AmountV { amount: self.amount, asset_id: self.asset_id@ }
    }
}

impl Amount {
    pub fn new(amount: i64, asset_id: Option<String>) -> (r: Amount)
        ensures
            r.amount == amount,
            r.deep_view().asset_id == match asset_id {
                Some(id) => id@,
                None => "WAVES"@,
            },
    {
        match asset_id {
            Some(id) => Amount { amount, asset_id: id },
            None => Amount { amount, asset_id: "WAVES".to_owned() },
        }
    }
}

/// One argument of an invocation; `List` is recursive.
#[derive(PartialEq, Eq, Debug)]
pub enum Arg {
    Integer(i64),
    Binary(String),
    String(String),
    Boolean(bool),
    CaseObj(String),
    List(Vec<Arg>),
}

/// Spec-level image of an [`Arg`].
pub enum ArgV {
    Integer(i64),
    Binary(Seq<char>),
    String(Seq<char>),
    Boolean(bool),
    CaseObj(Seq<char>),
    List(Seq<ArgV>),
}

/// Spec-level image of one [`Arg`], recursing through `List`.
pub open spec fn arg_view(a: Arg) -> ArgV
    decreases a,
{
    match a {
        Arg::Integer(v) => ArgV::Integer(v),
        Arg::Binary(v) => ArgV::Binary(v@),
        Arg::String(v) => ArgV::String(v@),
        Arg::Boolean(v) => ArgV::Boolean(v),
        Arg::CaseObj(v) => ArgV::CaseObj(v@),
        Arg::List(vv) => ArgV::List(args_view(vv@)),
    }
}

/// Spec-level image of a sequence of [`Arg`]s, elementwise.
pub open spec fn args_view(s: Seq<Arg>) -> Seq<ArgV>
    decreases s,
{
    if s.len() == 0 {
        Seq::empty()
    } else {
        seq![arg_view(s[0])] + args_view(s.subrange(1, s.len() as int))
    }
}

impl DeepView for Arg {
    type V = ArgV;

    open spec fn deep_view(&self) -> ArgV {
        arg_view(*self)
    }
}

/// [`args_view`] maps its argument elementwise.
pub proof fn lemma_args_view(s: Seq<Arg>)
    ensures
        args_view(s).len() == s.len(),
        forall|i: int| 0 <= i < s.len() ==> args_view(s)[i] == arg_view(s[i]),
    decreases s.len(),
{
    if s.len() > 0 {
        lemma_args_view(s.subrange(1, s.len() as int));
    }
}

/// Appending one argument appends its image.
pub proof fn lemma_args_view_push(s: Seq<Arg>, a: Arg)
    ensures
        args_view(s.push(a)) == args_view(s) + seq![arg_view(a)],
{
    lemma_args_view(s.push(a));
    lemma_args_view(s);
    assert(args_view(s.push(a)) =~= args_view(s) + seq![arg_view(a)]);
}

/// The function called on the target contract, with its arguments.
#[derive(PartialEq, Eq, Debug)]
pub struct Call {
    pub function: String,
    pub args: Vec<Arg>,
}

/// Spec-level image of a [`Call`].
pub struct CallV {
    pub function: Seq<char>,
    pub args: Seq<ArgV>,
}

impl DeepView for Call {
    type V = CallV;

    open spec fn deep_view(&self) -> CallV {
        CallV { function: self.function@, args: args_view(self.args@) }
    }
}

/// A normalized script invocation.
///
/// Binary upstream fields (ids, addresses, keys, proofs) are base58 strings;
/// `timestamp` is milliseconds since the epoch.
#[derive(PartialEq, Eq, Debug)]
pub struct Transaction {
    pub id: String,
    pub op_type: OperationType,
    pub tx_type: TransactionType,
    pub height: u32,
    pub timestamp: u64,
    pub fee: Amount,
    pub sender: String,
    pub sender_public_key: String,
    pub proofs: Vec<String>,
    pub dapp: String,
    pub payment: Vec<Amount>,
    pub call: Call,
}

/// Spec-level image of a [`Transaction`].
pub struct TransactionV {
    pub id: Seq<char>,
    pub op_type: OperationType,
    pub tx_type: TransactionType,
    pub height: u32,
    pub timestamp: u64,
    pub fee: AmountV,
    pub sender: Seq<char>,
    pub sender_public_key: Seq<char>,
    pub proofs: Seq<Seq<char>>,
    pub dapp: Seq<char>,
    pub payment: Seq<AmountV>,
    pub call: CallV,
}

impl DeepView for Transaction {
    type V = TransactionV;

    open spec fn deep_view(&self) -> TransactionV {
        TransactionV {
            id: self.id@,
            op_type: self.op_type,
            tx_type: self.tx_type,
            height: self.height,
            timestamp: self.timestamp,
            fee: self.fee.deep_view(),
            sender: self.sender@,
            sender_public_key: self.sender_public_key@,
            proofs: self.proofs.deep_view(),
            dapp: self.dapp@,
            payment: self.payment.deep_view(),
            call: self.call.deep_view(),
        }
    }
}

} // verus!
