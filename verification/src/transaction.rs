//! Signed transfers, loan offers and repayments.

use crate::crypto::{
    ecdsa_sign, ecdsa_verify, key_address, key_signature, sha256, sha256_digest,
    signature_verifies,
};
use crate::encoding::{be_bytes, push_be_bytes, push_bytes};
use crate::keys::PrivateKey;
use vstd::prelude::*;
use vstd::utf8::encode_utf8;

verus! {

/// Why a transaction could not be signed.
#[derive(Debug)]
pub enum TransactionError {
    /// The transaction has no sender, so nobody can sign it.
    NoFromSignError,
    /// The key does not belong to the party that has to sign.
    ForeignPubkey,
    /// Only a loan can be counter-signed.
    NotLoan,
    /// The key matched, but the signing operation itself failed.
    SigningFailed,
}

/// What a transaction does.
#[derive(Debug, Clone, PartialEq, Eq)]
pub enum TransactionKind {
    /// A plain transfer.
    Normal,
    /// A loan offer, with the borrower's counter-signature once given.
    Loan(Option<Vec<u8>>),
    /// A transfer generated by the ledger to settle a loan.
    Repayment,
}

/// The mathematical value of a [`TransactionKind`].
pub enum KindView {
    Normal,
    Loan(Option<Seq<u8>>),
    Repayment,
}

impl KindView {
    /// The byte by which the kind enters a transaction's digest. The
    /// counter-signature of a loan is no part of it.
    pub open spec fn tag(self) -> u8 {
        match self {
            KindView::Normal => 0,
            KindView::Loan(_) => 1,
            KindView::Repayment => 2,
        }
    }

    pub open spec fn is_loan(self) -> bool {
        self is Loan
    }

    /// The counter-signature carried by a loan, if any.
    pub open spec fn countersignature(self) -> Option<Seq<u8>> {
        match self {
            KindView::Loan(signature) => signature,
            _ => None,
        }
    }
}

impl View for TransactionKind {
    type V = KindView;

    open spec fn view(&self) -> KindView {
        match self {
            TransactionKind::Normal => KindView::Normal,
            TransactionKind::Loan(Some(signature)) => KindView::Loan(Some(signature@)),
            TransactionKind::Loan(None) => KindView::Loan(None),
            TransactionKind::Repayment => KindView::Repayment,
        }
    }
}

impl TransactionKind {
    /// The one-byte discriminant that enters the transaction digest.
    pub fn bytes(&self) -> (tag: [u8; 1])
        ensures
            tag@ == seq![self@.tag()],
    {
        let tag: [u8; 1] = match self {
            TransactionKind::Normal => [0u8],
            TransactionKind::Loan(_) => [1u8],
            TransactionKind::Repayment => [2u8],
        };
        assert(tag@ =~= seq![self@.tag()]);
        tag
    }

    pub fn is_loan(&self) -> (loan: bool)
        ensures
            loan == self@.is_loan(),
    {
        match self {
            TransactionKind::Loan(_) => true,
            _ => false,
        }
    }

    /// Whether this is a loan that carries a counter-signature. The signature
    /// is not checked here.
    pub fn loan_signed(&self) -> (signed: bool)
        ensures
            signed == self@.countersignature().is_some(),
    {
        match self {
            TransactionKind::Loan(signature) => signature.is_some(),
            _ => false,
        }
    }
}

/// The bytes that a transaction's digest is taken over: the sender (a single
/// zero byte where there is none), the recipient, the amount in big-endian and
/// the kind's tag.
pub open spec fn transaction_payload(
    from: Option<Seq<char>>,
    to: Seq<char>,
    amount: u64,
    kind: KindView,
) -> Seq<u8> {
    let sender = match from {
        Some(address) => encode_utf8(address),
        None => seq![0u8],
    };
    sender + encode_utf8(to) + be_bytes(amount) + seq![kind.tag()]
}

/// The digest that identifies a transaction and that its parties sign.
pub open spec fn transaction_digest(
    from: Option<Seq<char>>,
    to: Seq<char>,
    amount: u64,
    kind: KindView,
) -> Seq<u8> {
    sha256_digest(transaction_payload(from, to, amount, kind))
}

/// The mathematical value of a [`Transaction`].
pub struct TransactionView {
    pub from: Option<Seq<char>>,
    pub to: Seq<char>,
    pub amount: u64,
    pub kind: KindView,
    pub hash: Seq<u8>,
    pub signature: Seq<u8>,
}

impl TransactionView {
    /// A transaction as it is when created: hashed, not yet signed.
    pub open spec fn unsigned(
        from: Option<Seq<char>>,
        to: Seq<char>,
        amount: u64,
        kind: KindView,
    ) -> TransactionView {
        TransactionView {
            from,
            to,
            amount,
            kind,
            hash: transaction_digest(from, to, amount, kind),
            signature: Seq::empty(),
        }
    }

    /// The hash is the digest of the four logical fields.
    pub open spec fn hash_matches(self) -> bool {
        self.hash == transaction_digest(self.from, self.to, self.amount, self.kind)
    }

    /// A transaction without a sender is issued by the ledger and always
    /// valid. One with a sender is valid when it carries a signature over its
    /// hash that the sender's key accepts.
    pub open spec fn is_valid(self) -> bool {
        match self.from {
            None => true,
            Some(sender) => self.signature.len() > 0 && signature_verifies(
                sender,
                self.hash,
                self.signature,
            ),
        }
    }

    pub open spec fn is_loan(self) -> bool {
        self.kind.is_loan()
    }

    /// A loan counts as signed when the transaction is valid and carries a
    /// counter-signature over its hash that the borrower's key accepts.
    pub open spec fn is_loan_signed(self) -> bool {
        &&& self.is_valid()
        &&& self.kind.countersignature() matches Some(signature)
        &&& signature_verifies(self.to, self.hash, signature)
    }

    /// A loan offer that the borrower has not yet acknowledged.
    pub open spec fn is_unsigned_loan(self) -> bool {
        self.is_loan() && !self.is_loan_signed()
    }

    /// What signing with `secret` does: the error, or the signed transaction.
    pub open spec fn signed_by(self, secret: Seq<u8>) -> Result<TransactionView, TransactionError> {
        match self.from {
            None => Err(TransactionError::NoFromSignError),
            Some(sender) => if key_address(secret) != Some(sender) {
                Err(TransactionError::ForeignPubkey)
            } else {
                match key_signature(secret, self.hash) {
                    None => Err(TransactionError::SigningFailed),
                    Some(signature) => Ok(TransactionView { signature, ..self }),
                }
            },
        }
    }

    /// What counter-signing a loan with `secret` does: the error, or the
    /// transaction carrying the borrower's signature.
    pub open spec fn countersigned_by(self, secret: Seq<u8>) -> Result<
        TransactionView,
        TransactionError,
    > {
        if !self.is_loan() {
            Err(TransactionError::NotLoan)
        } else if key_address(secret) != Some(self.to) {
            Err(TransactionError::ForeignPubkey)
        } else {
            match key_signature(secret, self.hash) {
                None => Err(TransactionError::SigningFailed),
                Some(signature) => Ok(
                    TransactionView { kind: KindView::Loan(Some(signature)), ..self },
                ),
            }
        }
    }
}

/// Signing is the sender's alone: a key with another address, or with none,
/// is refused, and a transaction that carries no signature for its sender
/// is not valid.
pub proof fn lemma_foreign_key_cannot_sign(tx: TransactionView, secret: Seq<u8>)
    requires
        tx.from is Some,
        key_address(secret) != tx.from,
    ensures
        tx.signed_by(secret) == Err::<TransactionView, TransactionError>(
            TransactionError::ForeignPubkey,
        ),
        tx.signature.len() == 0 ==> !tx.is_valid(),
{
}

/// A loan is not signed before the borrower acknowledges it: an offer that
/// carries no counter-signature is not signed, and only the key whose
/// address is the recipient can put one there.
pub proof fn lemma_loan_waits_for_borrower(tx: TransactionView, secret: Seq<u8>)
    requires
        tx.is_loan(),
    ensures
        tx.kind.countersignature() is None ==> !tx.is_loan_signed(),
        key_address(secret) != Some(tx.to) ==> tx.countersigned_by(secret) == Err::<
            TransactionView,
            TransactionError,
        >(TransactionError::ForeignPubkey),
{
}

/// Counter-signing changes nothing but the counter-signature: sender,
/// recipient, amount, hash and the sender's signature stay, and the hash is
/// still the digest of the logical fields.
pub proof fn lemma_countersigning_keeps_identity(tx: TransactionView, secret: Seq<u8>)
    requires
        tx.countersigned_by(secret) is Ok,
    ensures
        ({
            let signed = tx.countersigned_by(secret).unwrap();
            &&& signed.from == tx.from
            &&& signed.to == tx.to
            &&& signed.amount == tx.amount
            &&& signed.hash == tx.hash
            &&& signed.signature == tx.signature
            &&& signed.is_loan()
            &&& signed.is_valid() == tx.is_valid()
            &&& tx.hash_matches() ==> signed.hash_matches()
        }),
{
}

/// A transfer of `amount` from `from` to `to`, identified by its hash.
#[derive(Debug)]
pub struct Transaction {
    from: Option<String>,
    to: String,
    amount: u64,
    hash: [u8; 32],
    signature: Vec<u8>,
    kind: TransactionKind,
}

impl View for Transaction {
    type V = TransactionView;

    closed spec fn view(&self) -> TransactionView {
        TransactionView {
            from: match self.from {
                Some(address) => Some(address@),
                None => None,
            },
            to: self.to@,
            amount: self.amount,
            kind: self.kind@,
            hash: self.hash@,
            signature: self.signature@,
        }
    }
}

impl Transaction {
    #[verifier::type_invariant]
    spec fn hashed(&self) -> bool {
        self@.hash_matches()
    }

    /// Creates an unsigned transaction and computes its hash.
    pub fn new(from: Option<String>, to: String, amount: u64, kind: TransactionKind) -> (tx: Self)
        ensures
            tx@ == TransactionView::unsigned(
                match from {
                    Some(address) => Some(address@),
                    None => None,
                },
                to@,
                amount,
                kind@,
            ),
    {
        let hash = Self::hash_transaction(&from, to.as_str(), amount, &kind);
        Transaction { from, to, amount, hash, signature: Vec::new(), kind }
    }

    /// Whether the transaction is valid and, being a loan, carries a
    /// counter-signature that the borrower's key accepts.
    pub fn loan_signed(&self) -> (signed: bool)
        ensures
            signed == self@.is_loan_signed(),
    {
        if !self.valid() {
            return false;
        }
        match &self.kind {
            TransactionKind::Loan(Some(signature)) => ecdsa_verify(
                self.to.as_str(),
                self.hash.as_slice(),
                signature.as_slice(),
            ),
            _ => false,
        }
    }

    pub fn is_loan(&self) -> (loan: bool)
        ensures
            loan == self@.is_loan(),
    {
        self.kind.is_loan()
    }

    pub fn from(&self) -> (from: &Option<String>)
        ensures
            match from {
                Some(address) => self@.from == Some(address@),
                None => self@.from is None,
            },
    {
        &self.from
    }

    pub fn to(&self) -> (to: &str)
        ensures
            to@ == self@.to,
    {
        self.to.as_str()
    }

    pub fn amount(&self) -> (amount: u64)
        ensures
            amount == self@.amount,
    {
        self.amount
    }

    /// The transaction's identity: the digest of sender, recipient, amount
    /// and kind.
    pub fn hash(&self) -> (hash: [u8; 32])
        ensures
            hash@ == self@.hash,
            self@.hash_matches(),
    {
        proof {
            use_type_invariant(self);
        }
        self.hash
    }

    pub fn kind(&self) -> (kind: &TransactionKind)
        ensures
            kind@ == self@.kind,
    {
        &self.kind
    }

    /// Whether `address` is the sender.
    pub fn sent_by(&self, address: &String) -> (yes: bool)
        ensures
            yes == (self@.from == Some(address@)),
    {
        match &self.from {
            Some(sender) => *sender == *address,
            None => false,
        }
    }

    /// Whether `address` is the recipient.
    pub fn sent_to(&self, address: &String) -> (yes: bool)
        ensures
            yes == (self@.to == address@),
    {
        self.to == *address
    }

    /// The signature of the sender; empty until the transaction is signed.
    pub fn signature(&self) -> (signature: &[u8])
        ensures
            signature@ == self@.signature,
    {
        self.signature.as_slice()
    }

    /// Computes the digest of a transaction's four logical fields.
    pub fn hash_transaction(
        from: &Option<String>,
        to: &str,
        amount: u64,
        kind: &TransactionKind,
    ) -> (hash: [u8; 32])
        ensures
            hash@ == transaction_digest(
                match from {
                    Some(address) => Some(address@),
                    None => None,
                },
                to@,
                amount,
                kind@,
            ),
    {
        let mut bytes: Vec<u8> = Vec::new();
        match from {
            Some(address) => push_bytes(&mut bytes, address.as_str().as_bytes()),
            None => bytes.push(0u8),
        }
        push_bytes(&mut bytes, to.as_bytes());
        push_be_bytes(&mut bytes, amount);
        let tag = kind.bytes();
        push_bytes(&mut bytes, tag.as_slice());
        assert(bytes@ =~= transaction_payload(
            match from {
                Some(address) => Some(address@),
                None => None,
            },
            to@,
            amount,
            kind@,
        ));
        sha256(bytes.as_slice())
    }

    /// Signs the transaction's hash on behalf of the sender.
    ///
    /// Fails, leaving the transaction as it was, where there is no sender,
    /// where the key is not the sender's, or where signing itself fails. A
    /// transaction that was signed here is valid.
    pub fn sign_transaction(&mut self, private_key: &PrivateKey) -> (result: Result<
        (),
        TransactionError,
    >)
        ensures
            match old(self)@.signed_by(private_key@) {
                Ok(signed) => result is Ok && final(self)@ == signed && signed.is_valid(),
                Err(e) => result == Err::<(), TransactionError>(e) && final(self)@ == old(self)@,
            },
    {
        let matches = match &self.from {
            None => {
                return Err(TransactionError::NoFromSignError);
            },
            Some(sender) => match private_key.address() {
                Some(address) => address == *sender,
                None => false,
            },
        };
        if !matches {
            return Err(TransactionError::ForeignPubkey);
        }
        match ecdsa_sign(private_key.as_bytes(), self.hash.as_slice()) {
            None => Err(TransactionError::SigningFailed),
            Some(signature) => {
                proof {
                    use_type_invariant(&*self);
                }
                self.signature = signature;
                Ok(())
            },
        }
    }

    /// Counter-signs a loan on behalf of the borrower.
    ///
    /// Fails, leaving the transaction as it was, where it is no loan, where
    /// the key is not the recipient's, or where signing itself fails. The
    /// counter-signature stored is one that the borrower's key accepts, and
    /// the hash, which does not cover it, stays the same.
    pub fn sign_loan_transaction(&mut self, private_key: &PrivateKey) -> (result: Result<
        (),
        TransactionError,
    >)
        ensures
            match old(self)@.countersigned_by(private_key@) {
                Ok(signed) => {
                    &&& result is Ok
                    &&& final(self)@ == signed
                    &&& signed.kind.countersignature() matches Some(s) && signature_verifies(
                        signed.to,
                        signed.hash,
                        s,
                    )
                    &&& signed.is_loan_signed() == old(self)@.is_valid()
                },
                Err(e) => result == Err::<(), TransactionError>(e) && final(self)@ == old(self)@,
            },
    {
        if !self.is_loan() {
            return Err(TransactionError::NotLoan);
        }
        let matches = match private_key.address() {
            Some(address) => address == self.to,
            None => false,
        };
        if !matches {
            return Err(TransactionError::ForeignPubkey);
        }
        match ecdsa_sign(private_key.as_bytes(), self.hash.as_slice()) {
            None => Err(TransactionError::SigningFailed),
            Some(signature) => {
                proof {
                    use_type_invariant(&*self);
                }
                self.kind = TransactionKind::Loan(Some(signature));
                Ok(())
            },
        }
    }

    /// Whether the transaction is issued by the ledger, or carries a
    /// signature over its hash that the sender's key accepts.
    pub fn valid(&self) -> (valid: bool)
        ensures
            valid == self@.is_valid(),
    {
        match &self.from {
            None => true,
            Some(sender) => {
                if self.signature.len() == 0 {
                    false
                } else {
                    ecdsa_verify(sender.as_str(), self.hash.as_slice(), self.signature.as_slice())
                }
            },
        }
    }
}

} // verus!
