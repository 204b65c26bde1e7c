//! Pipeline events and the normalization of upstream envelopes into them.
//!
//! [`convert_update`] turns one [`Envelope`] into one [`BlockchainUpdate`]:
//! an `Append` carrying the block's normalized script invocations, or a
//! `Rollback` naming the block to return to. Binary fields become base58
//! text; binary script arguments become `"base64:"`-prefixed base64; string
//! arguments are passed through the byte-order-mark repair; timestamps stay
//! milliseconds since the epoch.

use vstd::prelude::*;

use crate::encoding::base58;
use crate::encoding::base58_of;
use crate::encoding::base64;
use crate::encoding::base64_of;
use crate::envelope::AmountInfo;
use crate::envelope::AppendInfo;
use crate::envelope::AmountInfoV;
use crate::envelope::ArgValueInfo;
use crate::envelope::ArgValueInfoV;
use crate::envelope::ArgumentInfo;
use crate::envelope::ArgumentInfoV;
use crate::envelope::BodyInfo;
use crate::envelope::BodyInfoV;
use crate::envelope::bytes_list_view;
use crate::envelope::Envelope;
use crate::envelope::EnvelopeV;
use crate::envelope::EthActionInfo;
use crate::envelope::EthActionInfoV;
use crate::envelope::EthereumMetaInfo;
use crate::envelope::EthereumMetaInfoV;
use crate::envelope::InvokeMetaInfo;
use crate::envelope::InvokeMetaInfoV;
use crate::envelope::InvokeScriptDataInfo;
use crate::envelope::InvokeScriptDataInfoV;
use crate::envelope::MetadataInfo;
use crate::envelope::MetadataInfoV;
use crate::envelope::SignedTransactionInfo;
use crate::envelope::SignedTransactionInfoV;
use crate::envelope::TransactionKindInfo;
use crate::envelope::TransactionKindInfoV;
use crate::envelope::TransactionMetaInfo;
use crate::envelope::TransactionMetaInfoV;
use crate::envelope::UpdateInfo;
use crate::envelope::UpdateInfoV;
use crate::envelope::WavesDataInfo;
use crate::envelope::WavesDataInfoV;
use crate::envelope::WavesTransactionInfo;
use crate::envelope::WavesTransactionInfoV;
use crate::envelope::argument_info_view;
use crate::envelope::argument_infos_view;
use crate::envelope::lemma_argument_infos_view;
use crate::model::Amount;
use crate::model::AmountV;
use crate::model::Arg;
use crate::model::ArgV;
use crate::model::args_view;
use crate::model::lemma_args_view_push;
use crate::model::Call;
use crate::model::CallV;
use crate::model::OperationType;
use crate::model::Transaction;
use crate::model::TransactionType;
use crate::model::TransactionV;
use crate::unicode::fix_unicode_string;
use crate::unicode::spec_fix_unicode;

verus! {

/// One event of the pipeline: extend the chain, or return to an earlier
/// block.
#[derive(PartialEq, Eq, Debug)]
pub enum BlockchainUpdate {
    Append(AppendBlock),
    Rollback(Rollback),
}

/// An append event: one block or microblock with its normalized
/// transactions.
#[derive(PartialEq, Eq, Debug)]
pub struct AppendBlock {
    pub block_id: String,
    pub height: u32,
    pub timestamp: Option<u64>,
    pub is_microblock: bool,
    pub transactions: Vec<Transaction>,
}

/// A rollback event: return to the state as of the named block.
#[derive(PartialEq, Eq, Debug)]
pub struct Rollback {
    pub block_id: String,
}

pub enum BlockchainUpdateV {
    Append(AppendBlockV),
    Rollback(RollbackV),
}

pub struct AppendBlockV {
    pub block_id: Seq<char>,
    pub height: u32,
    pub timestamp: Option<u64>,
    pub is_microblock: bool,
    pub transactions: Seq<TransactionV>,
}

pub struct RollbackV {
    pub block_id: Seq<char>,
}

impl DeepView for AppendBlock {
    type V = AppendBlockV;

    open spec fn deep_view(&self) -> AppendBlockV {
        AppendBlockV {
            block_id: self.block_id@,
            height: self.height,
            timestamp: self.timestamp,
            is_microblock: self.is_microblock,
            transactions: self.transactions.deep_view(),
        }
    }
}

impl DeepView for Rollback {
    type V = RollbackV;

    open spec fn deep_view(&self) -> RollbackV {
        RollbackV { block_id: self.block_id@ }
    }
}

impl DeepView for BlockchainUpdate {
    type V = BlockchainUpdateV;

    open spec fn deep_view(&self) -> BlockchainUpdateV {
        match self {
            BlockchainUpdate::Append(a) => BlockchainUpdateV::Append(a.deep_view()),
            BlockchainUpdate::Rollback(r) => BlockchainUpdateV::Rollback(r.deep_view()),
        }
    }
}

/// Why an envelope could not be normalized; fatal to the stream.
#[derive(Copy, Clone, PartialEq, Eq, Debug, Structural)]
pub enum ConvertError {
    /// The append carried no body.
    MissingBody,
    /// The body carried neither a block nor a microblock.
    MissingBlockOrMicroBlock,
    /// No block id could be read from the body.
    MissingBlockId,
    /// The body carried no transaction list.
    MissingTransactions,
    /// The envelope's update is of no supported variant.
    UnsupportedUpdate,
    /// Invoke metadata present but the transaction flavor could not be read.
    MissingTxType,
    /// Neither a native nor a foreign transaction payload was present.
    MissingTxData,
    /// Metadata says invoke, but the transaction body disagrees.
    UnexpectedInvokeContents,
    /// Metadata of an invoke could not be read.
    UnexpectedInvokeMetadata,
    /// The native transaction carried no fee.
    MissingFee,
    /// A script argument carried no payload.
    MissingArgument,
}

impl ConvertError {
    /// A human-readable description of the failure.
    pub fn message(&self) -> &'static str {
        match self {
            ConvertError::MissingBody => "append body is None",
            ConvertError::MissingBlockOrMicroBlock => "failed to extract is_microblock",
            ConvertError::MissingBlockId => "failed to extract block id",
            ConvertError::MissingTransactions => "transactions is None",
            ConvertError::UnsupportedUpdate => "failed to parse blockchain update",
            ConvertError::MissingTxType => "missing tx type",
            ConvertError::MissingTxData => "missing tx data",
            ConvertError::UnexpectedInvokeContents => "unexpected InvokeScript transaction contents",
            ConvertError::UnexpectedInvokeMetadata => "unexpected InvokeScript metadata contents",
            ConvertError::MissingFee => "fee",
            ConvertError::MissingArgument => "missing argument",
        }
    }
}

/// Whether the body is a microblock; `None` when it holds neither kind.
pub open spec fn spec_extract_is_microblock(body: BodyInfoV) -> Option<bool> {
    match body {
        BodyInfoV::Block(Some(_)) => Some(false),
        BodyInfoV::MicroBlock(Some(_)) => Some(true),
        _ => None,
    }
}

/// The subject block id: the envelope's own id for a full block, the
/// extended block's id for a microblock.
pub open spec fn spec_extract_id(body: BodyInfoV, envelope_id: Seq<u8>) -> Option<Seq<u8>> {
    match body {
        BodyInfoV::Block(_) => Some(envelope_id),
        BodyInfoV::MicroBlock(Some(smb)) => Some(smb.total_block_id),
        _ => None,
    }
}

/// The header timestamp of a full block; microblocks have none.
pub open spec fn spec_extract_timestamp(body: BodyInfoV) -> Option<u64> {
    match body {
        BodyInfoV::Block(Some(b)) => match b.header {
            Some(h) => Some(h.timestamp as u64),
            None => None,
        },
        _ => None,
    }
}

/// The transactions carried by the body.
pub open spec fn spec_extract_transactions(body: BodyInfoV) -> Option<
    Seq<SignedTransactionInfoV>,
> {
    match body {
        BodyInfoV::Block(Some(b)) => Some(b.transactions),
        BodyInfoV::MicroBlock(Some(smb)) => match smb.micro_block {
            Some(mb) => Some(mb.transactions),
            None => None,
        },
        _ => None,
    }
}

/// The operation class of a transaction: both native invoke metadata and
/// foreign metadata whose action is an invoke count as script invocations;
/// anything else is skipped.
pub open spec fn spec_extract_op_type(meta: TransactionMetaInfoV) -> Option<OperationType> {
    match meta.metadata {
        Some(MetadataInfoV::InvokeScript(_)) => Some(OperationType::InvokeScript),
        Some(MetadataInfoV::Ethereum(e)) => match e.action {
            Some(EthActionInfoV::Invoke(_)) => Some(OperationType::InvokeScript),
            _ => None,
        },
        _ => None,
    }
}

/// The transaction flavor, by the same shape as [`spec_extract_op_type`].
pub open spec fn spec_extract_tx_type(meta: TransactionMetaInfoV) -> Option<TransactionType> {
    match meta.metadata {
        Some(MetadataInfoV::InvokeScript(_)) => Some(TransactionType::InvokeScript),
        Some(MetadataInfoV::Ethereum(e)) => match e.action {
            Some(EthActionInfoV::Invoke(_)) => Some(TransactionType::EthereumTransaction),
            _ => None,
        },
        _ => None,
    }
}

/// The flavor-uniform projection of a transaction: native payload, or
/// foreign metadata.
pub enum TransactionDataV {
    Waves(WavesTransactionInfoV),
    Ethereum(EthereumMetaInfoV),
}

/// Picks the transaction-data view: the native payload when present, else
/// the foreign metadata record.
pub open spec fn spec_extract_transaction_data(
    tx: SignedTransactionInfoV,
    meta: TransactionMetaInfoV,
) -> Option<TransactionDataV> {
    match tx.transaction {
        Some(TransactionKindInfoV::Waves(w)) => Some(TransactionDataV::Waves(w)),
        Some(TransactionKindInfoV::Ethereum) => match meta.metadata {
            Some(MetadataInfoV::Ethereum(e)) => Some(TransactionDataV::Ethereum(e)),
            _ => None,
        },
        None => None,
    }
}

/// A normalized amount: empty asset id means the native asset.
pub open spec fn spec_convert_amount(a: AmountInfoV) -> AmountV {
    AmountV {
        amount: a.amount,
        asset_id: if a.asset_id.len() == 0 {
            "WAVES"@
        } else {
            base58_of(a.asset_id)
        },
    }
}

/// The invoke-specific view: the optional native payload and the invoke
/// metadata record.
pub struct InvokeScriptDataV {
    pub waves_data: Option<InvokeScriptDataInfoV>,
    pub meta: InvokeMetaInfoV,
}

/// Extracts the invoke-specific view, rejecting structurally inconsistent
/// flavor combinations.
pub open spec fn spec_extract_invoke_script_data(
    tx: SignedTransactionInfoV,
    meta: TransactionMetaInfoV,
) -> Result<InvokeScriptDataV, ConvertError> {
    let waves_data = match tx.transaction {
        Some(TransactionKindInfoV::Waves(w)) => match w.data {
            Some(WavesDataInfoV::InvokeScript(d)) => Ok(Some(d)),
            _ => Err(ConvertError::UnexpectedInvokeContents),
        },
        Some(TransactionKindInfoV::Ethereum) => Ok(None),
        None => Err(ConvertError::UnexpectedInvokeContents),
    };
    match waves_data {
        Err(e) => Err(e),
        Ok(waves_data) => match meta.metadata {
            Some(MetadataInfoV::InvokeScript(m)) => Ok(InvokeScriptDataV { waves_data, meta: m }),
            Some(MetadataInfoV::Ethereum(e)) => match e.action {
                Some(EthActionInfoV::Invoke(m)) => Ok(InvokeScriptDataV { waves_data, meta: m }),
                _ => Err(ConvertError::UnexpectedInvokeMetadata),
            },
            _ => Err(ConvertError::UnexpectedInvokeMetadata),
        },
    }
}

/// The fee under the flavor-uniform projection.
pub open spec fn spec_data_fee(d: TransactionDataV) -> Option<AmountV> {
    match d {
        TransactionDataV::Waves(w) => match w.fee {
            Some(f) => Some(spec_convert_amount(f)),
            None => None,
        },
        TransactionDataV::Ethereum(e) => Some(AmountV { amount: e.fee, asset_id: "WAVES"@ }),
    }
}

/// The sender public key under the flavor-uniform projection.
pub open spec fn spec_data_sender_public_key(d: TransactionDataV) -> Seq<u8> {
    match d {
        TransactionDataV::Waves(w) => w.sender_public_key,
        TransactionDataV::Ethereum(e) => e.sender_public_key,
    }
}

/// The timestamp under the flavor-uniform projection (milliseconds).
pub open spec fn spec_data_timestamp(d: TransactionDataV) -> u64 {
    match d {
        TransactionDataV::Waves(w) => w.timestamp as u64,
        TransactionDataV::Ethereum(e) => e.timestamp as u64,
    }
}

/// The payments of an invocation: from the native payload when present,
/// else from metadata.
pub open spec fn spec_get_payments(isd: InvokeScriptDataV) -> Seq<AmountV> {
    let payments = match isd.waves_data {
        Some(d) => d.payments,
        None => isd.meta.payments,
    };
    payments.map_values(|a: AmountInfoV| spec_convert_amount(a))
}

/// One normalized script argument.
pub open spec fn spec_convert_arg(a: ArgumentInfoV) -> Result<ArgV, ConvertError>
    decreases a,
{
    match a.value {
        None => Err(ConvertError::MissingArgument),
        Some(v) => match v {
            ArgValueInfoV::IntegerValue(x) => Ok(ArgV::Integer(x)),
            ArgValueInfoV::BinaryValue(b) => Ok(ArgV::Binary("base64:"@ + base64_of(b))),
            ArgValueInfoV::StringValue(s) => Ok(ArgV::String(spec_fix_unicode(s))),
            ArgValueInfoV::BooleanValue(b) => Ok(ArgV::Boolean(b)),
            ArgValueInfoV::CaseObj(b) => Ok(ArgV::CaseObj("base64:"@ + base64_of(b))),
            ArgValueInfoV::List(items) => match spec_convert_args(items) {
                Ok(list) => Ok(ArgV::List(list)),
                Err(e) => Err(e),
            },
        },
    }
}

/// A sequence of normalized arguments; the first failure wins.
pub open spec fn spec_convert_args(s: Seq<ArgumentInfoV>) -> Result<Seq<ArgV>, ConvertError>
    decreases s,
{
    if s.len() == 0 {
        Ok(Seq::empty())
    } else {
        match spec_convert_arg(s[0]) {
            Err(e) => Err(e),
            Ok(a) => match spec_convert_args(s.subrange(1, s.len() as int)) {
                Err(e) => Err(e),
                Ok(rest) => Ok(seq![a] + rest),
            },
        }
    }
}

/// The normalized call of an invocation.
pub open spec fn spec_get_call(m: InvokeMetaInfoV) -> Result<CallV, ConvertError> {
    match spec_convert_args(m.arguments) {
        Ok(args) => Ok(CallV { function: m.function_name, args }),
        Err(e) => Err(e),
    }
}

/// One normalized transaction; `None` when the metadata says it is not a
/// script invocation.
pub open spec fn spec_convert_tx(
    id: Seq<u8>,
    tx: SignedTransactionInfoV,
    meta: TransactionMetaInfoV,
    height: u32,
) -> Result<Option<TransactionV>, ConvertError> {
    match spec_extract_op_type(meta) {
        None => Ok(None),
        Some(op_type) => match spec_extract_tx_type(meta) {
            None => Err(ConvertError::MissingTxType),
            Some(tx_type) => match spec_extract_transaction_data(tx, meta) {
                None => Err(ConvertError::MissingTxData),
                Some(tx_data) => match spec_extract_invoke_script_data(tx, meta) {
                    Err(e) => Err(e),
                    Ok(isd) => match spec_data_fee(tx_data) {
                        None => Err(ConvertError::MissingFee),
                        Some(fee) => match spec_get_call(isd.meta) {
                            Err(e) => Err(e),
                            Ok(call) => Ok(
                                Some(
                                    TransactionV {
                                        id: base58_of(id),
                                        op_type,
                                        tx_type,
                                        height,
                                        timestamp: spec_data_timestamp(tx_data),
                                        fee,
                                        sender: base58_of(meta.sender_address),
                                        sender_public_key: base58_of(
                                            spec_data_sender_public_key(tx_data),
                                        ),
                                        proofs: tx.proofs.map_values(
                                            |p: Seq<u8>| base58_of(p),
                                        ),
                                        dapp: base58_of(isd.meta.d_app_address),
                                        payment: spec_get_payments(isd),
                                        call,
                                    },
                                ),
                            ),
                        },
                    },
                },
            },
        },
    }
}

/// The normalized transactions of three parallel lists; skipped
/// transactions leave no trace, and the first failure wins.
pub open spec fn spec_convert_transactions(
    ids: Seq<Seq<u8>>,
    txs: Seq<SignedTransactionInfoV>,
    metas: Seq<TransactionMetaInfoV>,
    height: u32,
) -> Result<Seq<TransactionV>, ConvertError>
    decreases txs.len(),
{
    if txs.len() == 0 {
        Ok(Seq::empty())
    } else {
        match spec_convert_tx(ids[0], txs[0], metas[0], height) {
            Err(e) => Err(e),
            Ok(head) => match spec_convert_transactions(
                ids.subrange(1, ids.len() as int),
                txs.subrange(1, txs.len() as int),
                metas.subrange(1, metas.len() as int),
                height,
            ) {
                Err(e) => Err(e),
                Ok(rest) => match head {
                    Some(t) => Ok(seq![t] + rest),
                    None => Ok(rest),
                },
            },
        }
    }
}

/// What [`convert_update`] returns for one envelope.
pub open spec fn spec_convert_update(env: EnvelopeV) -> Result<BlockchainUpdateV, ConvertError> {
    match env.update {
        Some(UpdateInfoV::Append(append)) => match append.body {
            None => Err(ConvertError::MissingBody),
            Some(body) => match spec_extract_is_microblock(body) {
                None => Err(ConvertError::MissingBlockOrMicroBlock),
                Some(is_microblock) => match spec_extract_id(body, env.id) {
                    None => Err(ConvertError::MissingBlockId),
                    Some(id) => match spec_extract_transactions(body) {
                        None => Err(ConvertError::MissingTransactions),
                        Some(txs) => match spec_convert_transactions(
                            append.transaction_ids,
                            txs,
                            append.transactions_metadata,
                            env.height as u32,
                        ) {
                            Err(e) => Err(e),
                            Ok(transactions) => Ok(
                                BlockchainUpdateV::Append(
                                    AppendBlockV {
                                        block_id: base58_of(id),
                                        height: env.height as u32,
                                        timestamp: spec_extract_timestamp(body),
                                        is_microblock,
                                        transactions,
                                    },
                                ),
                            ),
                        },
                    },
                },
            },
        },
        Some(UpdateInfoV::Rollback) => Ok(
            BlockchainUpdateV::Rollback(RollbackV { block_id: base58_of(env.id) }),
        ),
        _ => Err(ConvertError::UnsupportedUpdate),
    }
}

/// The native payload's payments agree with the metadata's, wherever both
/// views of a script invocation are present.
pub open spec fn spec_payments_consistent(
    tx: SignedTransactionInfoV,
    meta: TransactionMetaInfoV,
) -> bool {
    match spec_extract_invoke_script_data(tx, meta) {
        Ok(isd) => match isd.waves_data {
            Some(d) => d.payments == isd.meta.payments,
            None => true,
        },
        Err(_) => true,
    }
}

/// The upstream ordering invariants that normalization asserts rather than
/// reports: the three per-transaction lists run parallel, and a native
/// invocation's payments agree between body and metadata.
pub open spec fn spec_envelope_consistent(env: EnvelopeV) -> bool {
    match env.update {
        Some(UpdateInfoV::Append(append)) => match append.body {
            Some(body) => match spec_extract_transactions(body) {
                Some(txs) => {
                    &&& append.transaction_ids.len() == txs.len()
                    &&& txs.len() == append.transactions_metadata.len()
                    &&& forall|i: int|
                        0 <= i < txs.len() ==> #[trigger] spec_payments_consistent(
                            txs[i],
                            append.transactions_metadata[i],
                        )
                },
                None => true,
            },
            None => true,
        },
        _ => true,
    }
}

fn extract_is_microblock(body: &BodyInfo) -> (r: Option<bool>)
    ensures
        r == spec_extract_is_microblock(body.deep_view()),
{
    match body {
        BodyInfo::Block(Some(_)) => Some(false),
        BodyInfo::MicroBlock(Some(_)) => Some(true),
        _ => None,
    }
}

fn extract_id<'a>(body: &'a BodyInfo, block_id: &'a Vec<u8>) -> (r: Option<&'a Vec<u8>>)
    ensures
        match r {
            Some(v) => spec_extract_id(body.deep_view(), block_id@) == Some(v@),
            None => spec_extract_id(body.deep_view(), block_id@) is None,
        },
{
    match body {
        BodyInfo::Block(_) => Some(block_id),
        BodyInfo::MicroBlock(Some(smb)) => Some(&smb.total_block_id),
        _ => None,
    }
}

fn extract_timestamp(body: &BodyInfo) -> (r: Option<u64>)
    ensures
        r == spec_extract_timestamp(body.deep_view()),
{
    match body {
        BodyInfo::Block(Some(b)) => match &b.header {
            Some(h) => Some(h.timestamp as u64),
            None => None,
        },
        _ => None,
    }
}

fn extract_transactions(body: BodyInfo) -> (r: Option<Vec<SignedTransactionInfo>>)
    ensures
        match r {
            Some(v) => spec_extract_transactions(body.deep_view()) == Some(v.deep_view()),
            None => spec_extract_transactions(body.deep_view()) is None,
        },
{
    match body {
        BodyInfo::Block(Some(b)) => Some(b.transactions),
        BodyInfo::MicroBlock(Some(smb)) => match smb.micro_block {
            Some(mb) => Some(mb.transactions),
            None => None,
        },
        _ => None,
    }
}

fn extract_op_type(meta: &TransactionMetaInfo) -> (r: Option<OperationType>)
    ensures
        r == spec_extract_op_type(meta.deep_view()),
{
    match &meta.metadata {
        Some(MetadataInfo::InvokeScript(_)) => Some(OperationType::InvokeScript),
        Some(MetadataInfo::Ethereum(e)) => match &e.action {
            Some(EthActionInfo::Invoke(_)) => Some(OperationType::InvokeScript),
            _ => None,
        },
        _ => None,
    }
}

fn extract_tx_type(meta: &TransactionMetaInfo) -> (r: Option<TransactionType>)
    ensures
        r == spec_extract_tx_type(meta.deep_view()),
{
    match &meta.metadata {
        Some(MetadataInfo::InvokeScript(_)) => Some(TransactionType::InvokeScript),
        Some(MetadataInfo::Ethereum(e)) => match &e.action {
            Some(EthActionInfo::Invoke(_)) => Some(TransactionType::EthereumTransaction),
            _ => None,
        },
        _ => None,
    }
}

/// The flavor-uniform projection, borrowing from the envelope.
enum TransactionData<'a> {
    Waves(&'a WavesTransactionInfo),
    Ethereum(&'a EthereumMetaInfo),
}

impl<'a> DeepView for TransactionData<'a> {
    type V = TransactionDataV;

    closed spec fn deep_view(&self) -> TransactionDataV {
        match self {
            TransactionData::Waves(w) => TransactionDataV::Waves(w.deep_view()),
            TransactionData::Ethereum(e) => TransactionDataV::Ethereum(e.deep_view()),
        }
    }
}

fn extract_transaction_data<'a>(
    tx: &'a SignedTransactionInfo,
    meta: &'a TransactionMetaInfo,
) -> (r: Option<TransactionData<'a>>)
    ensures
        match r {
            Some(d) => spec_extract_transaction_data(tx.deep_view(), meta.deep_view()) == Some(
                d.deep_view(),
            ),
            None => spec_extract_transaction_data(tx.deep_view(), meta.deep_view()) is None,
        },
{
    match (&tx.transaction, &meta.metadata) {
        (Some(TransactionKindInfo::Waves(w)), _) => Some(TransactionData::Waves(w)),
        (Some(TransactionKindInfo::Ethereum), Some(MetadataInfo::Ethereum(e))) => Some(
            TransactionData::Ethereum(e),
        ),
        _ => None,
    }
}

fn convert_amount(a: &AmountInfo) -> (r: Amount)
    ensures
        r.deep_view() == spec_convert_amount(a.deep_view()),
{
    let asset_id = if a.asset_id.is_empty() {
        None
    } else {
        Some(base58(a.asset_id.as_slice()))
    };
    Amount::new(a.amount, asset_id)
}

impl<'a> TransactionData<'a> {
    fn get_fee(&self) -> (r: Option<Amount>)
        ensures
            match r {
                Some(f) => spec_data_fee(self.deep_view()) == Some(f.deep_view()),
                None => spec_data_fee(self.deep_view()) is None,
            },
    {
        match self {
            TransactionData::Waves(w) => match &w.fee {
                Some(f) => Some(convert_amount(f)),
                None => None,
            },
            TransactionData::Ethereum(e) => Some(Amount::new(e.fee, None)),
        }
    }

    fn get_sender_public_key(&self) -> (r: &Vec<u8>)
        ensures
            r@ == spec_data_sender_public_key(self.deep_view()),
    {
        match self {
            TransactionData::Waves(w) => &w.sender_public_key,
            TransactionData::Ethereum(e) => &e.sender_public_key,
        }
    }

    fn get_timestamp(&self) -> (r: u64)
        ensures
            r == spec_data_timestamp(self.deep_view()),
    {
        match self {
            TransactionData::Waves(w) => w.timestamp as u64,
            TransactionData::Ethereum(e) => e.timestamp as u64,
        }
    }
}

/// The invoke-specific view, borrowing from the envelope.
struct InvokeScriptData<'a> {
    waves_data: Option<&'a InvokeScriptDataInfo>,
    meta: &'a InvokeMetaInfo,
}

impl<'a> DeepView for InvokeScriptData<'a> {
    type V = InvokeScriptDataV;

    closed spec fn deep_view(&self) -> InvokeScriptDataV {
        InvokeScriptDataV {
            waves_data: match self.waves_data {
                Some(d) => Some(d.deep_view()),
                None => None,
            },
            meta: self.meta.deep_view(),
        }
    }
}

fn extract_invoke_script_data<'a>(
    tx: &'a SignedTransactionInfo,
    meta: &'a TransactionMetaInfo,
) -> (r: Result<InvokeScriptData<'a>, ConvertError>)
    ensures
        match r {
            Ok(d) => spec_extract_invoke_script_data(tx.deep_view(), meta.deep_view()) == Ok::<
                InvokeScriptDataV,
                ConvertError,
            >(d.deep_view()),
            Err(e) => spec_extract_invoke_script_data(tx.deep_view(), meta.deep_view()) == Err::<
                InvokeScriptDataV,
                ConvertError,
            >(e),
        },
{
    let waves_data = match &tx.transaction {
        Some(TransactionKindInfo::Waves(w)) => match &w.data {
            Some(WavesDataInfo::InvokeScript(d)) => Some(d),
            _ => return Err(ConvertError::UnexpectedInvokeContents),
        },
        Some(TransactionKindInfo::Ethereum) => None,
        None => return Err(ConvertError::UnexpectedInvokeContents),
    };
    let meta = match &meta.metadata {
        Some(MetadataInfo::InvokeScript(m)) => m,
        Some(MetadataInfo::Ethereum(e)) => match &e.action {
            Some(EthActionInfo::Invoke(m)) => m,
            _ => return Err(ConvertError::UnexpectedInvokeMetadata),
        },
        _ => return Err(ConvertError::UnexpectedInvokeMetadata),
    };
    Ok(InvokeScriptData { waves_data, meta })
}

/// Unfolds one step of [`spec_convert_args`].
proof fn lemma_convert_args_step(s: Seq<ArgumentInfoV>, i: int)
    requires
        0 <= i < s.len(),
    ensures
        spec_convert_args(s.skip(i)) == match spec_convert_arg(s[i]) {
            Err(e) => Err::<Seq<ArgV>, ConvertError>(e),
            Ok(a) => match spec_convert_args(s.skip(i + 1)) {
                Err(e) => Err::<Seq<ArgV>, ConvertError>(e),
                Ok(rest) => Ok::<Seq<ArgV>, ConvertError>(seq![a] + rest),
            },
        },
{
    assert(s.skip(i).len() == s.len() - i);
    assert(s.skip(i)[0] == s[i]);
    assert(s.skip(i).subrange(1, s.skip(i).len() as int) =~= s.skip(i + 1));
}

fn convert_args(args: &Vec<ArgumentInfo>) -> (r: Result<Vec<Arg>, ConvertError>)
    ensures
        match r {
            Ok(list) => spec_convert_args(argument_infos_view(args@)) == Ok::<
                Seq<ArgV>,
                ConvertError,
            >(args_view(list@)),
            Err(e) => spec_convert_args(argument_infos_view(args@)) == Err::<
                Seq<ArgV>,
                ConvertError,
            >(e),
        },
    decreases args,
{
    let ghost s = argument_infos_view(args@);
    let mut out: Vec<Arg> = Vec::new();
    let mut i: usize = 0;
    proof {
        lemma_argument_infos_view(args@);
        assert(s.skip(0) =~= s);
        assert(args_view(out@) + Seq::<ArgV>::empty() =~= Seq::<ArgV>::empty());
        if spec_convert_args(s) is Ok {
            assert(args_view(out@) + spec_convert_args(s)->Ok_0 =~= spec_convert_args(s)->Ok_0);
        }
    }
    while i < args.len()
        invariant
            s == argument_infos_view(args@),
            s.len() == args@.len(),
            forall|j: int| 0 <= j < args@.len() ==> s[j] == argument_info_view(args@[j]),
            i <= args@.len(),
            spec_convert_args(s) == match spec_convert_args(s.skip(i as int)) {
                Ok(rest) => Ok::<Seq<ArgV>, ConvertError>(args_view(out@) + rest),
                Err(e) => Err::<Seq<ArgV>, ConvertError>(e),
            },
        decreases args@.len() - i,
    {
        let ghost j = i as int;
        let ghost out0 = out@;
        proof {
            lemma_convert_args_step(s, j);
            assert(decreases_to!(args => args[j]));
        }
        match convert_arg(&args[i]) {
            Ok(a) => {
                out.push(a);
                i += 1;
                proof {
                    lemma_args_view_push(out0, a);
                    if spec_convert_args(s.skip(j + 1)) is Ok {
                        let rest = spec_convert_args(s.skip(j + 1))->Ok_0;
                        assert(args_view(out0) + (seq![a.deep_view()] + rest) =~= args_view(out@)
                            + rest);
                    }
                }
            },
            Err(e) => {
                return Err(e);
            },
        }
    }
    proof {
        assert(s.skip(s.len() as int) =~= Seq::<ArgumentInfoV>::empty());
        assert(args_view(out@) + Seq::<ArgV>::empty() =~= args_view(out@));
    }
    Ok(out)
}

fn convert_arg(arg: &ArgumentInfo) -> (r: Result<Arg, ConvertError>)
    ensures
        match r {
            Ok(a) => spec_convert_arg(arg.deep_view()) == Ok::<ArgV, ConvertError>(a.deep_view()),
            Err(e) => spec_convert_arg(arg.deep_view()) == Err::<ArgV, ConvertError>(e),
        },
    decreases arg,
{
    match &arg.value {
        None => Err(ConvertError::MissingArgument),
        Some(v) => match v {
            ArgValueInfo::IntegerValue(x) => Ok(Arg::Integer(*x)),
            ArgValueInfo::BinaryValue(b) => Ok(Arg::Binary(base64(b.as_slice()))),
            ArgValueInfo::StringValue(s) => Ok(Arg::String(fix_unicode_string(s.as_str()))),
            ArgValueInfo::BooleanValue(b) => Ok(Arg::Boolean(*b)),
            ArgValueInfo::CaseObj(b) => Ok(Arg::CaseObj(base64(b.as_slice()))),
            ArgValueInfo::List(l) => {
                proof {
                    assert(decreases_to!(arg => l.items));
                }
                match convert_args(&l.items) {
                    Ok(items) => Ok(Arg::List(items)),
                    Err(e) => Err(e),
                }
            },
        },
    }
}

impl<'a> InvokeScriptData<'a> {
    fn get_payments(&self) -> (r: Vec<Amount>)
        requires
            match self.deep_view().waves_data {
                Some(d) => d.payments == self.deep_view().meta.payments,
                None => true,
            },
        ensures
            r.deep_view() == spec_get_payments(self.deep_view()),
    {
        let payments: &Vec<AmountInfo> = match self.waves_data {
            Some(d) => &d.payments,
            None => &self.meta.payments,
        };
        let mut out: Vec<Amount> = Vec::new();
        let mut i: usize = 0;
        while i < payments.len()
            invariant
                out@.len() == i,
                i <= payments@.len(),
                spec_get_payments(self.deep_view()) == payments.deep_view().map_values(
                    |a: AmountInfoV| spec_convert_amount(a),
                ),
                forall|j: int|
                    0 <= j < i ==> out@[j].deep_view() == spec_convert_amount(
                        payments.deep_view()[j],
                    ),
            decreases payments@.len() - i,
        {
            out.push(convert_amount(&payments[i]));
            i += 1;
        }
        proof {
            assert(out.deep_view() =~= spec_get_payments(self.deep_view()));
        }
        out
    }

    fn get_call(&self) -> (r: Result<Call, ConvertError>)
        ensures
            match r {
                Ok(c) => spec_get_call(self.deep_view().meta) == Ok::<CallV, ConvertError>(
                    c.deep_view(),
                ),
                Err(e) => spec_get_call(self.deep_view().meta) == Err::<CallV, ConvertError>(e),
            },
    {
        let function = self.meta.function_name.clone();
        match convert_args(&self.meta.arguments) {
            Ok(args) => Ok(Call { function, args }),
            Err(e) => Err(e),
        }
    }
}

fn convert_tx(
    id: &Vec<u8>,
    tx: &SignedTransactionInfo,
    meta: &TransactionMetaInfo,
    height: u32,
) -> (r: Result<Option<Transaction>, ConvertError>)
    requires
        spec_payments_consistent(tx.deep_view(), meta.deep_view()),
    ensures
        match r {
            Ok(Some(t)) => spec_convert_tx(id@, tx.deep_view(), meta.deep_view(), height) == Ok::<
                Option<TransactionV>,
                ConvertError,
            >(Some(t.deep_view())),
            Ok(None) => spec_convert_tx(id@, tx.deep_view(), meta.deep_view(), height) == Ok::<
                Option<TransactionV>,
                ConvertError,
            >(None),
            Err(e) => spec_convert_tx(id@, tx.deep_view(), meta.deep_view(), height) == Err::<
                Option<TransactionV>,
                ConvertError,
            >(e),
        },
{
    let op_type = match extract_op_type(meta) {
        Some(o) => o,
        None => {
            return Ok(None);
        },
    };
    let tx_type = match extract_tx_type(meta) {
        Some(t) => t,
        None => {
            return Err(ConvertError::MissingTxType);
        },
    };
    let tx_data = match extract_transaction_data(tx, meta) {
        Some(d) => d,
        None => {
            return Err(ConvertError::MissingTxData);
        },
    };
    let invoke_script_data = match extract_invoke_script_data(tx, meta) {
        Ok(d) => d,
        Err(e) => {
            return Err(e);
        },
    };
    let fee = match tx_data.get_fee() {
        Some(f) => f,
        None => {
            return Err(ConvertError::MissingFee);
        },
    };
    let call = match invoke_script_data.get_call() {
        Ok(c) => c,
        Err(e) => {
            return Err(e);
        },
    };
    let mut proofs: Vec<String> = Vec::new();
    let mut i: usize = 0;
    while i < tx.proofs.len()
        invariant
            proofs@.len() == i,
            i <= tx.proofs@.len(),
            forall|j: int| 0 <= j < i ==> proofs@[j]@ == base58_of(tx.proofs@[j]@),
        decreases tx.proofs@.len() - i,
    {
        proofs.push(base58(tx.proofs[i].as_slice()));
        i += 1;
    }
    let timestamp = tx_data.get_timestamp();
    let sender = base58(meta.sender_address.as_slice());
    let sender_public_key = base58(tx_data.get_sender_public_key().as_slice());
    let dapp = base58(invoke_script_data.meta.d_app_address.as_slice());
    let payment = invoke_script_data.get_payments();
    let t = Transaction {
        id: base58(id.as_slice()),
        op_type,
        tx_type,
        height,
        timestamp,
        fee,
        sender,
        sender_public_key,
        proofs,
        dapp,
        payment,
        call,
    };
    proof {
        let lhs = t.deep_view().proofs;
        let rhs = tx.deep_view().proofs.map_values(|p: Seq<u8>| base58_of(p));
        assert(lhs.len() == rhs.len());
        assert forall|j: int| 0 <= j < lhs.len() implies lhs[j] == rhs[j] by {
            assert(lhs[j] == t.proofs@[j]@);
            assert(rhs[j] == base58_of(tx.proofs@[j]@));
        }
        assert(lhs =~= rhs);
    }
    Ok(Some(t))
}

/// Unfolds one step of [`spec_convert_transactions`].
proof fn lemma_convert_txs_step(
    ids: Seq<Seq<u8>>,
    txs: Seq<SignedTransactionInfoV>,
    metas: Seq<TransactionMetaInfoV>,
    height: u32,
    i: int,
)
    requires
        ids.len() == txs.len(),
        txs.len() == metas.len(),
        0 <= i < txs.len(),
    ensures
        spec_convert_transactions(ids.skip(i), txs.skip(i), metas.skip(i), height) == match
            spec_convert_tx(ids[i], txs[i], metas[i], height) {
            Err(e) => Err::<Seq<TransactionV>, ConvertError>(e),
            Ok(head) => match spec_convert_transactions(
                ids.skip(i + 1),
                txs.skip(i + 1),
                metas.skip(i + 1),
                height,
            ) {
                Err(e) => Err::<Seq<TransactionV>, ConvertError>(e),
                Ok(rest) => match head {
                    Some(t) => Ok::<Seq<TransactionV>, ConvertError>(seq![t] + rest),
                    None => Ok::<Seq<TransactionV>, ConvertError>(rest),
                },
            },
        },
{
    assert(txs.skip(i).len() == txs.len() - i);
    assert(ids.skip(i)[0] == ids[i]);
    assert(txs.skip(i)[0] == txs[i]);
    assert(metas.skip(i)[0] == metas[i]);
    assert(ids.skip(i).subrange(1, ids.skip(i).len() as int) =~= ids.skip(i + 1));
    assert(txs.skip(i).subrange(1, txs.skip(i).len() as int) =~= txs.skip(i + 1));
    assert(metas.skip(i).subrange(1, metas.skip(i).len() as int) =~= metas.skip(i + 1));
}

fn convert_transactions(
    ids: &Vec<Vec<u8>>,
    txs: &Vec<SignedTransactionInfo>,
    metas: &Vec<TransactionMetaInfo>,
    height: u32,
) -> (r: Result<Vec<Transaction>, ConvertError>)
    requires
        ids@.len() == txs@.len(),
        txs@.len() == metas@.len(),
        forall|i: int|
            0 <= i < txs@.len() ==> #[trigger] spec_payments_consistent(
                txs.deep_view()[i],
                metas.deep_view()[i],
            ),
    ensures
        match r {
            Ok(list) => spec_convert_transactions(
                bytes_list_view(ids@),
                txs.deep_view(),
                metas.deep_view(),
                height,
            ) == Ok::<Seq<TransactionV>, ConvertError>(list.deep_view()),
            Err(e) => spec_convert_transactions(
                bytes_list_view(ids@),
                txs.deep_view(),
                metas.deep_view(),
                height,
            ) == Err::<Seq<TransactionV>, ConvertError>(e),
        },
{
    let ghost ids_v = bytes_list_view(ids@);
    let ghost txs_v = txs.deep_view();
    let ghost metas_v = metas.deep_view();
    let mut out: Vec<Transaction> = Vec::new();
    let mut i: usize = 0;
    proof {
        assert(ids_v.skip(0) =~= ids_v);
        assert(txs_v.skip(0) =~= txs_v);
        assert(metas_v.skip(0) =~= metas_v);
        if spec_convert_transactions(ids_v, txs_v, metas_v, height) is Ok {
            let whole = spec_convert_transactions(ids_v, txs_v, metas_v, height)->Ok_0;
            assert(out.deep_view() + whole =~= whole);
        }
    }
    while i < txs.len()
        invariant
            ids_v == bytes_list_view(ids@),
            txs_v == txs.deep_view(),
            metas_v == metas.deep_view(),
            ids_v.len() == txs_v.len(),
            txs_v.len() == metas_v.len(),
            txs_v.len() == txs@.len(),
            i <= txs@.len(),
            forall|k: int|
                0 <= k < txs_v.len() ==> #[trigger] spec_payments_consistent(
                    txs_v[k],
                    metas_v[k],
                ),
            spec_convert_transactions(ids_v, txs_v, metas_v, height) == match
                spec_convert_transactions(
                ids_v.skip(i as int),
                txs_v.skip(i as int),
                metas_v.skip(i as int),
                height,
            ) {
                Ok(rest) => Ok::<Seq<TransactionV>, ConvertError>(out.deep_view() + rest),
                Err(e) => Err::<Seq<TransactionV>, ConvertError>(e),
            },
        decreases txs@.len() - i,
    {
        let ghost j = i as int;
        let ghost out0 = out.deep_view();
        proof {
            lemma_convert_txs_step(ids_v, txs_v, metas_v, height, j);
        }
        match convert_tx(&ids[i], &txs[i], &metas[i], height) {
            Ok(Some(t)) => {
                out.push(t);
                i += 1;
                proof {
                    assert(out.deep_view() =~= out0 + seq![t.deep_view()]);
                    if spec_convert_transactions(
                        ids_v.skip(j + 1),
                        txs_v.skip(j + 1),
                        metas_v.skip(j + 1),
                        height,
                    ) is Ok {
                        let rest = spec_convert_transactions(
                            ids_v.skip(j + 1),
                            txs_v.skip(j + 1),
                            metas_v.skip(j + 1),
                            height,
                        )->Ok_0;
                        assert(out0 + (seq![t.deep_view()] + rest) =~= out.deep_view() + rest);
                    }
                }
            },
            Ok(None) => {
                i += 1;
                proof {
                    assert(spec_convert_tx(ids_v[j], txs_v[j], metas_v[j], height) == Ok::<
                        Option<TransactionV>,
                        ConvertError,
                    >(None));
                }
            },
            Err(e) => {
                return Err(e);
            },
        }
    }
    proof {
        assert(ids_v.skip(ids_v.len() as int) =~= Seq::<Seq<u8>>::empty());
        assert(txs_v.skip(txs_v.len() as int) =~= Seq::<SignedTransactionInfoV>::empty());
        assert(metas_v.skip(metas_v.len() as int) =~= Seq::<TransactionMetaInfoV>::empty());
        assert(out.deep_view() + Seq::<TransactionV>::empty() =~= out.deep_view());
    }
    Ok(out)
}

/// Normalization is pure: any two results that [`convert_update`]'s
/// contract admits for the same envelope value are equal.
pub proof fn lemma_convert_update_deterministic(
    env: EnvelopeV,
    r1: Result<BlockchainUpdateV, ConvertError>,
    r2: Result<BlockchainUpdateV, ConvertError>,
)
    requires
        r1 == spec_convert_update(env),
        r2 == spec_convert_update(env),
    ensures
        r1 == r2,
{
}

/// Normalizes one envelope into one pipeline event.
///
/// Pure and deterministic: the result is pinned by [`spec_convert_update`]
/// over the envelope's value alone.
pub fn convert_update(src: Envelope) -> (r: Result<BlockchainUpdate, ConvertError>)
    requires
        spec_envelope_consistent(src.deep_view()),
    ensures
        match r {
            Ok(u) => spec_convert_update(src.deep_view()) == Ok::<BlockchainUpdateV, ConvertError>(
                u.deep_view(),
            ),
            Err(e) => spec_convert_update(src.deep_view()) == Err::<
                BlockchainUpdateV,
                ConvertError,
            >(e),
        },
{
    let height = src.height as u32;
    match src.update {
        Some(UpdateInfo::Append(append)) => {
            let AppendInfo { body, transaction_ids, transactions_metadata } = append;
            let body = match body {
                Some(b) => b,
                None => {
                    return Err(ConvertError::MissingBody);
                },
            };
            let is_microblock = match extract_is_microblock(&body) {
                Some(b) => b,
                None => {
                    return Err(ConvertError::MissingBlockOrMicroBlock);
                },
            };
            let block_id = match extract_id(&body, &src.id) {
                Some(v) => base58(v.as_slice()),
                None => {
                    return Err(ConvertError::MissingBlockId);
                },
            };
            let timestamp = extract_timestamp(&body);
            let transactions = match extract_transactions(body) {
                Some(t) => t,
                None => {
                    return Err(ConvertError::MissingTransactions);
                },
            };
            let transactions = match convert_transactions(
                &transaction_ids,
                &transactions,
                &transactions_metadata,
                height,
            ) {
                Ok(t) => t,
                Err(e) => {
                    return Err(e);
                },
            };
            Ok(
                BlockchainUpdate::Append(
                    AppendBlock { block_id, height, timestamp, is_microblock, transactions },
                ),
            )
        },
        Some(UpdateInfo::Rollback) => Ok(
            BlockchainUpdate::Rollback(Rollback { block_id: base58(src.id.as_slice()) }),
        ),
        _ => Err(ConvertError::UnsupportedUpdate),
    }
}

} // verus!
