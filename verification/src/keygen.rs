//! Fresh key pairs.

use crate::crypto::key_address;
use crate::keys::PrivateKey;
use elliptic_curve::rand_core::OsRng;
use k256::ecdsa::SigningKey;
use vstd::prelude::*;

verus! {

/// Calls `SigningKey::random` with the operating system's random number
/// generator, and `SigningKey::to_bytes`. Trusted: the bytes returned are 32,
/// the width of a scalar of the curve. Nothing is claimed of what they hold.
#[verifier::external_body]
fn random_secret() -> (secret: Vec<u8>)
    ensures
        secret@.len() == 32,
{
    SigningKey::random(&mut OsRng).to_bytes().to_vec()
}

/// Generates a random private key and derives its address.
///
/// Whatever scalar was drawn, the pair returned is that of
/// [`key_pair_from`] for its 32 bytes: the key with its own address, and
/// `None` only where the scalar drawn has no address.
pub fn gen_key_pair() -> (pair: Option<(PrivateKey, String)>)
    ensures
        match pair {
            Some((key, address)) => key@.len() == 32 && key_address(key@) == Some(address@),
            None => exists|secret: Seq<u8>| secret.len() == 32 && key_address(secret) is None,
        },
{
    key_pair_from(random_secret())
}

/// Pairs the private key whose scalar is held in `secret` with its address.
///
/// Returns the key and the address exactly where the bytes have an address,
/// and `None` where they have none.
pub fn key_pair_from(secret: Vec<u8>) -> (pair: Option<(PrivateKey, String)>)
    ensures
        match pair {
            Some((key, address)) => key@ == secret@ && key_address(secret@) == Some(address@),
            None => key_address(secret@) is None,
        },
{
    let key = PrivateKey::from_bytes(secret);
    match key.address() {
        Some(address) => Some((key, address)),
        None => None,
    }
}

} // verus!
