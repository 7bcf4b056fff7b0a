//! The cryptographic primitives the ledger relies on.
//!
//! SHA-256 and ECDSA over secp256k1 are provided by outside crates. Their
//! results are given names here, and the functions in this module are the
//! only places where the ledger's proofs rest on an unproved statement.

use k256::ecdsa::signature::{Signer, Verifier};
use k256::ecdsa::{Signature, SigningKey, VerifyingKey};
use sha2::Digest;
use vstd::prelude::*;

verus! {

/// The SHA-256 digest of `data`.
pub uninterp spec fn sha256_digest(data: Seq<u8>) -> Seq<u8>;

/// The address of the key pair whose secret scalar is `secret`: the JSON
/// encoding of its verifying key. `None` where `secret` is no secret scalar
/// of the curve, or where the key cannot be encoded.
pub uninterp spec fn key_address(secret: Seq<u8>) -> Option<Seq<char>>;

/// The deterministic ECDSA signature over `message` made with `secret`.
/// `None` where `secret` is no secret scalar of the curve, or where signing
/// fails.
pub uninterp spec fn key_signature(secret: Seq<u8>, message: Seq<u8>) -> Option<Seq<u8>>;

/// Whether `signature` is an ECDSA signature over `message` that the
/// verifying key encoded by `address` accepts. False where `address` encodes
/// no verifying key or `signature` is no well-formed signature.
pub uninterp spec fn signature_verifies(
    address: Seq<char>,
    message: Seq<u8>,
    signature: Seq<u8>,
) -> bool;

/// Calls `sha2::Sha256::digest`. Trusted: the 32 bytes returned are the
/// digest that `sha256_digest` names.
#[verifier::external_body]
pub(crate) fn sha256(data: &[u8]) -> (digest: [u8; 32])
    ensures
        digest@ == sha256_digest(data@),
{
    sha2::Sha256::digest(data).into()
}

/// Calls `SigningKey::from_slice`, `VerifyingKey::from` and
/// `serde_json::to_string`. Trusted: the string returned is the address that
/// `key_address` names, and none is returned exactly where that is `None`.
#[verifier::external_body]
pub(crate) fn derive_address(secret: &[u8]) -> (address: Option<String>)
    ensures
        match address {
            Some(a) => key_address(secret@) == Some(a@),
            None => key_address(secret@) is None,
        },
{
    let Ok(key) = SigningKey::from_slice(secret) else {
        return None;
    };
    serde_json::to_string(&VerifyingKey::from(&key)).ok()
}

/// Calls `SigningKey::from_slice` and `Signer::try_sign`. Trusted: the bytes
/// returned are the signature that `key_signature` names; a signature is 64
/// bytes long; and the verifying key of the signing key accepts it, so that
/// it verifies under the key's address where the key has one.
#[verifier::external_body]
pub(crate) fn ecdsa_sign(secret: &[u8], message: &[u8]) -> (signature: Option<Vec<u8>>)
    ensures
        match signature {
            Some(s) => {
                &&& key_signature(secret@, message@) == Some(s@)
                &&& s@.len() == 64
                &&& key_address(secret@) matches Some(a) ==> signature_verifies(a, message@, s@)
            },
            None => key_signature(secret@, message@) is None,
        },
{
    let Ok(key) = SigningKey::from_slice(secret) else {
        return None;
    };
    let made: Result<Signature, _> = key.try_sign(message);
    made.ok().map(|s| s.to_vec())
}

/// Calls `serde_json::from_str`, `Signature::from_slice` and
/// `Verifier::verify`. Trusted: the answer is what `signature_verifies`
/// names; an address or a signature that does not parse verifies nothing.
#[verifier::external_body]
pub(crate) fn ecdsa_verify(address: &str, message: &[u8], signature: &[u8]) -> (ok: bool)
    ensures
        ok == signature_verifies(address@, message@, signature@),
{
    let Ok(key) = serde_json::from_str::<VerifyingKey>(address) else {
        return false;
    };
    let Ok(parsed) = Signature::from_slice(signature) else {
        return false;
    };
    key.verify(message, &parsed).is_ok()
}

} // verus!
