//! Plain model of one upstream envelope, as delivered by the ledger
//! service's streaming API.
//!
//! The upstream wire schema arrives through a protobuf client; the library
//! holds, as plain values, exactly the fields its normalization logic reads.
//! Optional wire fields stay `Option` so that every malformed-envelope case
//! is represented. The adapter that owns the protobuf client converts each
//! message into an [`Envelope`] field by field.

use vstd::prelude::*;

verus! {

/// Spec-level image of a list of byte strings.
pub open spec fn bytes_list_view(s: Seq<Vec<u8>>) -> Seq<Seq<u8>> {
    Seq::new(s.len(), |i: int| s[i]@)
}

/// An asset quantity on the wire: raw asset id bytes (empty for the chain's
/// native asset) and a signed amount.
#[derive(PartialEq, Eq, Debug)]
pub struct AmountInfo {
    pub asset_id: Vec<u8>,
    pub amount: i64,
}

pub struct AmountInfoV {
    pub asset_id: Seq<u8>,
    pub amount: i64,
}

impl DeepView for AmountInfo {
    type V = AmountInfoV;

    open spec fn deep_view(&self) -> AmountInfoV {
        AmountInfoV { asset_id: self.asset_id@, amount: self.amount }
    }
}

/// One script argument on the wire; a missing payload is an error case.
#[derive(PartialEq, Eq, Debug)]
pub struct ArgumentInfo {
    pub value: Option<ArgValueInfo>,
}

/// The payload of a script argument; `List` is recursive.
#[derive(PartialEq, Eq, Debug)]
pub enum ArgValueInfo {
    IntegerValue(i64),
    BinaryValue(Vec<u8>),
    StringValue(String),
    BooleanValue(bool),
    CaseObj(Vec<u8>),
    List(ArgListInfo),
}

/// A list of script arguments, as nested on the wire.
#[derive(PartialEq, Eq, Debug)]
pub struct ArgListInfo {
    pub items: Vec<ArgumentInfo>,
}

pub struct ArgumentInfoV {
    pub value: Option<ArgValueInfoV>,
}

pub enum ArgValueInfoV {
    IntegerValue(i64),
    BinaryValue(Seq<u8>),
    StringValue(Seq<char>),
    BooleanValue(bool),
    CaseObj(Seq<u8>),
    List(Seq<ArgumentInfoV>),
}

/// Spec-level image of one [`ArgumentInfo`], recursing through `List`.
pub open spec fn argument_info_view(a: ArgumentInfo) -> ArgumentInfoV
    decreases a,
{
    ArgumentInfoV {
        value: match a.value {
            None => None,
            Some(v) => Some(arg_value_info_view(v)),
        },
    }
}

/// Spec-level image of one [`ArgValueInfo`].
pub open spec fn arg_value_info_view(v: ArgValueInfo) -> ArgValueInfoV
    decreases v,
{
    match v {
        ArgValueInfo::IntegerValue(x) => ArgValueInfoV::IntegerValue(x),
        ArgValueInfo::BinaryValue(b) => ArgValueInfoV::BinaryValue(b@),
        ArgValueInfo::StringValue(s) => ArgValueInfoV::StringValue(s@),
        ArgValueInfo::BooleanValue(b) => ArgValueInfoV::BooleanValue(b),
        ArgValueInfo::CaseObj(b) => ArgValueInfoV::CaseObj(b@),
        ArgValueInfo::List(l) => ArgValueInfoV::List(argument_infos_view(l.items@)),
    }
}

/// Spec-level image of a sequence of [`ArgumentInfo`]s, elementwise.
pub open spec fn argument_infos_view(s: Seq<ArgumentInfo>) -> Seq<ArgumentInfoV>
    decreases s,
{
    if s.len() == 0 {
        Seq::empty()
    } else {
        seq![argument_info_view(s[0])] + argument_infos_view(s.subrange(1, s.len() as int))
    }
}

/// [`argument_infos_view`] maps its argument elementwise.
pub proof fn lemma_argument_infos_view(s: Seq<ArgumentInfo>)
    ensures
        argument_infos_view(s).len() == s.len(),
        forall|i: int|
            0 <= i < s.len() ==> argument_infos_view(s)[i] == argument_info_view(s[i]),
    decreases s.len(),
{
    if s.len() > 0 {
        lemma_argument_infos_view(s.subrange(1, s.len() as int));
    }
}

impl DeepView for ArgumentInfo {
    type V = ArgumentInfoV;

    open spec fn deep_view(&self) -> ArgumentInfoV {
        argument_info_view(*self)
    }
}

/// The invoke-script metadata record; it accompanies both native and
/// foreign invocations.
#[derive(PartialEq, Eq, Debug)]
pub struct InvokeMetaInfo {
    pub d_app_address: Vec<u8>,
    pub function_name: String,
    pub arguments: Vec<ArgumentInfo>,
    pub payments: Vec<AmountInfo>,
}

pub struct InvokeMetaInfoV {
    pub d_app_address: Seq<u8>,
    pub function_name: Seq<char>,
    pub arguments: Seq<ArgumentInfoV>,
    pub payments: Seq<AmountInfoV>,
}

impl DeepView for InvokeMetaInfo {
    type V = InvokeMetaInfoV;

    open spec fn deep_view(&self) -> InvokeMetaInfoV {
        InvokeMetaInfoV {
            d_app_address: self.d_app_address@,
            function_name: self.function_name@,
            arguments: argument_infos_view(self.arguments@),
            payments: self.payments.deep_view(),
        }
    }
}

/// The action recorded in foreign-transaction metadata.
#[derive(PartialEq, Eq, Debug)]
pub enum EthActionInfo {
    Invoke(InvokeMetaInfo),
    Other,
}

pub enum EthActionInfoV {
    Invoke(InvokeMetaInfoV),
    Other,
}

impl DeepView for EthActionInfo {
    type V = EthActionInfoV;

    open spec fn deep_view(&self) -> EthActionInfoV {
        match self {
            EthActionInfo::Invoke(m) => EthActionInfoV::Invoke(m.deep_view()),
            EthActionInfo::Other => EthActionInfoV::Other,
        }
    }
}

/// Metadata of a foreign (ethereum-style) transaction.
#[derive(PartialEq, Eq, Debug)]
pub struct EthereumMetaInfo {
    pub fee: i64,
    pub timestamp: i64,
    pub sender_public_key: Vec<u8>,
    pub action: Option<EthActionInfo>,
}

pub struct EthereumMetaInfoV {
    pub fee: i64,
    pub timestamp: i64,
    pub sender_public_key: Seq<u8>,
    pub action: Option<EthActionInfoV>,
}

impl DeepView for EthereumMetaInfo {
    type V = EthereumMetaInfoV;

    open spec fn deep_view(&self) -> EthereumMetaInfoV {
        EthereumMetaInfoV {
            fee: self.fee,
            timestamp: self.timestamp,
            sender_public_key: self.sender_public_key@,
            action: match &self.action {
                None => None,
                Some(a) => Some(a.deep_view()),
            },
        }
    }
}

/// The metadata variant attached to one transaction.
#[derive(PartialEq, Eq, Debug)]
pub enum MetadataInfo {
    InvokeScript(InvokeMetaInfo),
    Ethereum(EthereumMetaInfo),
    Other,
}

pub enum MetadataInfoV {
    InvokeScript(InvokeMetaInfoV),
    Ethereum(EthereumMetaInfoV),
    Other,
}

impl DeepView for MetadataInfo {
    type V = MetadataInfoV;

    open spec fn deep_view(&self) -> MetadataInfoV {
        match self {
            MetadataInfo::InvokeScript(m) => MetadataInfoV::InvokeScript(m.deep_view()),
            MetadataInfo::Ethereum(m) => MetadataInfoV::Ethereum(m.deep_view()),
            MetadataInfo::Other => MetadataInfoV::Other,
        }
    }
}

/// Per-transaction metadata envelope.
#[derive(PartialEq, Eq, Debug)]
pub struct TransactionMetaInfo {
    pub sender_address: Vec<u8>,
    pub metadata: Option<MetadataInfo>,
}

pub struct TransactionMetaInfoV {
    pub sender_address: Seq<u8>,
    pub metadata: Option<MetadataInfoV>,
}

impl DeepView for TransactionMetaInfo {
    type V = TransactionMetaInfoV;

    open spec fn deep_view(&self) -> TransactionMetaInfoV {
        TransactionMetaInfoV {
            sender_address: self.sender_address@,
            metadata: match &self.metadata {
                None => None,
                Some(m) => Some(m.deep_view()),
            },
        }
    }
}

/// The invoke-script payload inside a native transaction body; the logic
/// reads only its payments (the call itself comes from metadata).
#[derive(PartialEq, Eq, Debug)]
pub struct InvokeScriptDataInfo {
    pub payments: Vec<AmountInfo>,
}

pub struct InvokeScriptDataInfoV {
    pub payments: Seq<AmountInfoV>,
}

impl DeepView for InvokeScriptDataInfo {
    type V = InvokeScriptDataInfoV;

    open spec fn deep_view(&self) -> InvokeScriptDataInfoV {
        InvokeScriptDataInfoV { payments: self.payments.deep_view() }
    }
}

/// The typed payload of a native transaction.
#[derive(PartialEq, Eq, Debug)]
pub enum WavesDataInfo {
    InvokeScript(InvokeScriptDataInfo),
    Other,
}

pub enum WavesDataInfoV {
    InvokeScript(InvokeScriptDataInfoV),
    Other,
}

impl DeepView for WavesDataInfo {
    type V = WavesDataInfoV;

    open spec fn deep_view(&self) -> WavesDataInfoV {
        match self {
            WavesDataInfo::InvokeScript(d) => WavesDataInfoV::InvokeScript(d.deep_view()),
            WavesDataInfo::Other => WavesDataInfoV::Other,
        }
    }
}

/// A native transaction body.
#[derive(PartialEq, Eq, Debug)]
pub struct WavesTransactionInfo {
    pub fee: Option<AmountInfo>,
    pub timestamp: i64,
    pub sender_public_key: Vec<u8>,
    pub data: Option<WavesDataInfo>,
}

pub struct WavesTransactionInfoV {
    pub fee: Option<AmountInfoV>,
    pub timestamp: i64,
    pub sender_public_key: Seq<u8>,
    pub data: Option<WavesDataInfoV>,
}

impl DeepView for WavesTransactionInfo {
    type V = WavesTransactionInfoV;

    open spec fn deep_view(&self) -> WavesTransactionInfoV {
        WavesTransactionInfoV {
            fee: match &self.fee {
                None => None,
                Some(f) => Some(f.deep_view()),
            },
            timestamp: self.timestamp,
            sender_public_key: self.sender_public_key@,
            data: match &self.data {
                None => None,
                Some(d) => Some(d.deep_view()),
            },
        }
    }
}

/// The two transaction flavors carried by a signed transaction.
#[derive(PartialEq, Eq, Debug)]
pub enum TransactionKindInfo {
    Waves(WavesTransactionInfo),
    Ethereum,
}

pub enum TransactionKindInfoV {
    Waves(WavesTransactionInfoV),
    Ethereum,
}

impl DeepView for TransactionKindInfo {
    type V = TransactionKindInfoV;

    open spec fn deep_view(&self) -> TransactionKindInfoV {
        match self {
            TransactionKindInfo::Waves(w) => TransactionKindInfoV::Waves(w.deep_view()),
            TransactionKindInfo::Ethereum => TransactionKindInfoV::Ethereum,
        }
    }
}

/// A signed transaction as carried in a block body.
#[derive(PartialEq, Eq, Debug)]
pub struct SignedTransactionInfo {
    pub transaction: Option<TransactionKindInfo>,
    pub proofs: Vec<Vec<u8>>,
}

pub struct SignedTransactionInfoV {
    pub transaction: Option<TransactionKindInfoV>,
    pub proofs: Seq<Seq<u8>>,
}

impl DeepView for SignedTransactionInfo {
    type V = SignedTransactionInfoV;

    open spec fn deep_view(&self) -> SignedTransactionInfoV {
        SignedTransactionInfoV {
            transaction: match &self.transaction {
                None => None,
                Some(t) => Some(t.deep_view()),
            },
            proofs: bytes_list_view(self.proofs@),
        }
    }
}

/// A full block's header; the logic reads only its timestamp.
#[derive(PartialEq, Eq, Debug)]
pub struct HeaderInfo {
    pub timestamp: i64,
}

impl DeepView for HeaderInfo {
    type V = HeaderInfo;

    open spec fn deep_view(&self) -> HeaderInfo {
        *self
    }
}

/// A full block: header plus its transactions.
#[derive(PartialEq, Eq, Debug)]
pub struct BlockInfo {
    pub header: Option<HeaderInfo>,
    pub transactions: Vec<SignedTransactionInfo>,
}

pub struct BlockInfoV {
    pub header: Option<HeaderInfo>,
    pub transactions: Seq<SignedTransactionInfoV>,
}

impl DeepView for BlockInfo {
    type V = BlockInfoV;

    open spec fn deep_view(&self) -> BlockInfoV {
        BlockInfoV { header: self.header, transactions: self.transactions.deep_view() }
    }
}

/// The inner microblock: its transactions.
#[derive(PartialEq, Eq, Debug)]
pub struct MicroBlockInfo {
    pub transactions: Vec<SignedTransactionInfo>,
}

pub struct MicroBlockInfoV {
    pub transactions: Seq<SignedTransactionInfoV>,
}

impl DeepView for MicroBlockInfo {
    type V = MicroBlockInfoV;

    open spec fn deep_view(&self) -> MicroBlockInfoV {
        MicroBlockInfoV { transactions: self.transactions.deep_view() }
    }
}

/// A signed microblock: the id of the block it extends, plus the inner
/// microblock.
#[derive(PartialEq, Eq, Debug)]
pub struct SignedMicroBlockInfo {
    pub total_block_id: Vec<u8>,
    pub micro_block: Option<MicroBlockInfo>,
}

pub struct SignedMicroBlockInfoV {
    pub total_block_id: Seq<u8>,
    pub micro_block: Option<MicroBlockInfoV>,
}

impl DeepView for SignedMicroBlockInfo {
    type V = SignedMicroBlockInfoV;

    open spec fn deep_view(&self) -> SignedMicroBlockInfoV {
        SignedMicroBlockInfoV {
            total_block_id: self.total_block_id@,
            micro_block: match &self.micro_block {
                None => None,
                Some(m) => Some(m.deep_view()),
            },
        }
    }
}

/// The body of an append: a full block or a signed microblock, each again
/// optional on the wire.
#[derive(PartialEq, Eq, Debug)]
pub enum BodyInfo {
    Block(Option<BlockInfo>),
    MicroBlock(Option<SignedMicroBlockInfo>),
}

pub enum BodyInfoV {
    Block(Option<BlockInfoV>),
    MicroBlock(Option<SignedMicroBlockInfoV>),
}

impl DeepView for BodyInfo {
    type V = BodyInfoV;

    open spec fn deep_view(&self) -> BodyInfoV {
        match self {
            BodyInfo::Block(b) => BodyInfoV::Block(
                match b {
                    None => None,
                    Some(x) => Some(x.deep_view()),
                },
            ),
            BodyInfo::MicroBlock(m) => BodyInfoV::MicroBlock(
                match m {
                    None => None,
                    Some(x) => Some(x.deep_view()),
                },
            ),
        }
    }
}

/// An append update: its body and the per-transaction id and metadata lists
/// that run parallel to the body's transactions.
#[derive(PartialEq, Eq, Debug)]
pub struct AppendInfo {
    pub body: Option<BodyInfo>,
    pub transaction_ids: Vec<Vec<u8>>,
    pub transactions_metadata: Vec<TransactionMetaInfo>,
}

pub struct AppendInfoV {
    pub body: Option<BodyInfoV>,
    pub transaction_ids: Seq<Seq<u8>>,
    pub transactions_metadata: Seq<TransactionMetaInfoV>,
}

impl DeepView for AppendInfo {
    type V = AppendInfoV;

    open spec fn deep_view(&self) -> AppendInfoV {
        AppendInfoV {
            body: match &self.body {
                None => None,
                Some(b) => Some(b.deep_view()),
            },
            transaction_ids: bytes_list_view(self.transaction_ids@),
            transactions_metadata: self.transactions_metadata.deep_view(),
        }
    }
}

/// The update variant of one envelope.
#[derive(PartialEq, Eq, Debug)]
pub enum UpdateInfo {
    Append(AppendInfo),
    Rollback,
    Other,
}

pub enum UpdateInfoV {
    Append(AppendInfoV),
    Rollback,
    Other,
}

impl DeepView for UpdateInfo {
    type V = UpdateInfoV;

    open spec fn deep_view(&self) -> UpdateInfoV {
        match self {
            UpdateInfo::Append(a) => UpdateInfoV::Append(a.deep_view()),
            UpdateInfo::Rollback => UpdateInfoV::Rollback,
            UpdateInfo::Other => UpdateInfoV::Other,
        }
    }
}

/// One envelope from the upstream stream: the subject block id, the height,
/// and the update payload.
#[derive(PartialEq, Eq, Debug)]
pub struct Envelope {
    pub id: Vec<u8>,
    pub height: i32,
    pub update: Option<UpdateInfo>,
}

pub struct EnvelopeV {
    pub id: Seq<u8>,
    pub height: i32,
    pub update: Option<UpdateInfoV>,
}

impl DeepView for Envelope {
    type V = EnvelopeV;

    open spec fn deep_view(&self) -> EnvelopeV {
        EnvelopeV {
            id: self.id@,
            height: self.height,
            update: match &self.update {
                None => None,
                Some(u) => Some(u.deep_view()),
            },
        }
    }
}

} // verus!
