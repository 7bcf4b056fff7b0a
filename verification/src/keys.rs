//! Private keys as the ledger sees them: the bytes of a secret scalar.

use crate::crypto::{derive_address, key_address};
use vstd::prelude::*;

verus! {

/// The secret half of a key pair, held as the big-endian bytes of its scalar.
///
/// Any bytes may be wrapped. Bytes that are no secret scalar of the curve
/// (zero, the group order or more, fewer than 24 bytes or more than 32) have
/// no address and sign nothing.
pub struct PrivateKey {
    secret: Vec<u8>,
}

impl View for PrivateKey {
    type V = Seq<u8>;

    closed spec fn view(&self) -> Seq<u8> {
        self.secret@
    }
}

impl PrivateKey {
    /// Wraps the bytes of a secret scalar.
    pub fn from_bytes(secret: Vec<u8>) -> (key: Self)
        ensures
            key@ == secret@,
    {
        PrivateKey { secret }
    }

    /// The bytes of the secret scalar.
    pub fn as_bytes(&self) -> (bytes: &[u8])
        ensures
            bytes@ == self@,
    {
        self.secret.as_slice()
    }

    /// The address of this key pair, where it has one.
    pub fn address(&self) -> (address: Option<String>)
        ensures
            match address {
                Some(a) => key_address(self@) == Some(a@),
                None => key_address(self@) is None,
            },
    {
        derive_address(self.secret.as_slice())
    }
}

} // verus!
