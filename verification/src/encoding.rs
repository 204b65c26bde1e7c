//! Binary-to-text encodings used in normalized records.
//!
//! Binary upstream fields (ids, addresses, keys, proofs) are recorded as
//! base58 text; binary script-argument payloads are recorded as
//! `"base64:"`-prefixed standard base64.

use vstd::prelude::*;

verus! {

/// Base58 image of a byte sequence (bitcoin alphabet).
pub uninterp spec fn base58_of(bytes: Seq<u8>) -> Seq<char>;

/// Base64 image of a byte sequence (standard alphabet, padded).
pub uninterp spec fn base64_of(bytes: Seq<u8>) -> Seq<char>;

/// Relies on bs58's `encode` builder with its default (bitcoin) alphabet:
/// the result is a function of the input bytes alone.
#[verifier::external_body]
pub(crate) fn base58(bytes: &[u8]) -> (r: String)
    ensures
        r@ == base58_of(bytes@),
{
    bs58::encode(bytes).into_string()
}

/// Relies on base64's `Engine::encode` with the standard padded engine:
/// the result is a function of the input bytes alone.
#[verifier::external_body]
fn base64_plain(bytes: &[u8]) -> (r: String)
    ensures
        r@ == base64_of(bytes@),
{
    base64::Engine::encode(&base64::engine::general_purpose::STANDARD, bytes)
}

/// Encodes a binary script-argument payload: standard base64 under a
/// `"base64:"` prefix.
pub(crate) fn base64(bytes: &[u8]) -> (r: String)
    ensures
        r@ == "base64:"@ + base64_of(bytes@),
{
    let mut r = "base64:".to_owned();
    let encoded = base64_plain(bytes);
    r.append(encoded.as_str());
    r
}

} // verus!
