//! Blocks: batches of transactions sealed behind a proof-of-work hash.

use crate::clock::unix_time;
use crate::crypto::{sha256, sha256_digest};
use crate::encoding::{be_bytes, push_be_bytes, push_bytes};
use crate::transaction::{Transaction, TransactionView};
use vstd::prelude::*;

verus! {

/// A SHA-256 digest.
pub type Hash = [u8; 32];

/// How many leading bytes of a block's hash have to be zero.
pub const DIFFICULTY: usize = 2;

/// The values of a sequence of transactions.
pub open spec fn views(transactions: Seq<Transaction>) -> Seq<TransactionView> {
    transactions.map_values(|tx: Transaction| tx@)
}

/// The hashes of `transactions`, one after the other.
pub open spec fn joined_hashes(transactions: Seq<TransactionView>) -> Seq<u8>
    decreases transactions.len(),
{
    if transactions.len() == 0 {
        Seq::empty()
    } else {
        joined_hashes(transactions.drop_last()) + transactions.last().hash
    }
}

/// Joining the hashes of two runs of transactions joins what each run gives.
pub proof fn lemma_joined_hashes_concat(a: Seq<TransactionView>, b: Seq<TransactionView>)
    ensures
        joined_hashes(a + b) == joined_hashes(a) + joined_hashes(b),
    decreases b.len(),
{
    if b.len() == 0 {
        assert(a + b =~= a);
        assert(joined_hashes(a) + joined_hashes(b) =~= joined_hashes(a));
    } else {
        assert((a + b).drop_last() =~= a + b.drop_last());
        lemma_joined_hashes_concat(a, b.drop_last());
        assert(joined_hashes(a + b) =~= joined_hashes(a) + joined_hashes(b));
    }
}

/// The digest of a block whose transactions' hashes, joined, are `joined`:
/// taken over the previous hash, the timestamp and the nonce in big-endian,
/// and the joined hashes.
pub open spec fn sealed_digest(timestamp: u64, nonce: u64, joined: Seq<u8>, prev_hash: Seq<u8>) -> Seq<
    u8,
> {
    sha256_digest(prev_hash + be_bytes(timestamp) + be_bytes(nonce) + joined)
}

/// The digest of a block with the given contents.
pub open spec fn block_digest(
    timestamp: u64,
    nonce: u64,
    transactions: Seq<TransactionView>,
    prev_hash: Seq<u8>,
) -> Seq<u8> {
    sealed_digest(timestamp, nonce, joined_hashes(transactions), prev_hash)
}

/// The proof-of-work constraint: the first `DIFFICULTY` bytes are zero.
pub open spec fn meets_difficulty(hash: Seq<u8>) -> bool {
    &&& hash.len() >= DIFFICULTY
    &&& forall|i: int| 0 <= i < DIFFICULTY ==> hash[i] == 0
}

/// `nonce` is the first nonce, counting from zero, under which the digest
/// meets the proof-of-work constraint.
pub open spec fn is_first_nonce(timestamp: u64, nonce: u64, joined: Seq<u8>, prev_hash: Seq<u8>) -> bool {
    &&& meets_difficulty(sealed_digest(timestamp, nonce, joined, prev_hash))
    &&& forall|n: u64| n < nonce ==> !meets_difficulty(#[trigger] sealed_digest(timestamp, n, joined, prev_hash))
}

/// No nonce at all gives a digest that meets the proof-of-work constraint.
pub open spec fn has_no_nonce(timestamp: u64, joined: Seq<u8>, prev_hash: Seq<u8>) -> bool {
    forall|n: u64| !meets_difficulty(#[trigger] sealed_digest(timestamp, n, joined, prev_hash))
}

/// The mathematical value of a [`Block`].
pub struct BlockView {
    pub timestamp: u64,
    pub transactions: Seq<TransactionView>,
    pub prev_hash: Seq<u8>,
    pub hash: Seq<u8>,
    pub nonce: u64,
}

impl BlockView {
    /// The hash is the digest of the block's contents and meets the
    /// proof-of-work constraint.
    pub open spec fn is_sealed(self) -> bool {
        &&& self.hash == block_digest(
            self.timestamp,
            self.nonce,
            self.transactions,
            self.prev_hash,
        )
        &&& meets_difficulty(self.hash)
    }

    /// Every transaction of the block is valid.
    pub open spec fn transactions_valid(self) -> bool {
        forall|i: int| 0 <= i < self.transactions.len() ==> (#[trigger] self.transactions[i]).is_valid()
    }
}

/// A mined block of the chain.
pub struct Block {
    timestamp: u64,
    transactions: Vec<Transaction>,
    prev_hash: [u8; 32],
    hash: [u8; 32],
    nonce: u64,
}

impl View for Block {
    type V = BlockView;

    closed spec fn view(&self) -> BlockView {
        BlockView {
            timestamp: self.timestamp,
            transactions: views(self.transactions@),
            prev_hash: self.prev_hash@,
            hash: self.hash@,
            nonce: self.nonce,
        }
    }
}

/// Whether the first `DIFFICULTY` bytes of `hash` are zero.
pub fn has_leading_zeros(hash: &[u8; 32]) -> (ok: bool)
    ensures
        ok == meets_difficulty(hash@),
{
    let mut i: usize = 0;
    while i < DIFFICULTY
        invariant
            i <= DIFFICULTY,
            forall|k: int| 0 <= k < i ==> hash@[k] == 0,
        decreases DIFFICULTY - i,
    {
        if hash[i] != 0 {
            return false;
        }
        i += 1;
    }
    true
}

/// Joins the hashes of `transactions`.
pub fn join_hashes(transactions: &[Transaction]) -> (joined: Vec<u8>)
    ensures
        joined@ == joined_hashes(views(transactions@)),
{
    let mut joined: Vec<u8> = Vec::new();
    let mut i: usize = 0;
    while i < transactions.len()
        invariant
            i <= transactions@.len(),
            joined@ == joined_hashes(views(transactions@.take(i as int))),
        decreases transactions@.len() - i,
    {
        let hash = transactions[i].hash();
        push_bytes(&mut joined, hash.as_slice());
        proof {
            let next = views(transactions@.take(i + 1));
            assert(next.drop_last() =~= views(transactions@.take(i as int)));
            assert(next.last() == transactions@[i as int]@);
        }
        i += 1;
    }
    assert(transactions@.take(i as int) =~= transactions@);
    joined
}

/// Computes the digest over the previous hash, the timestamp, the nonce and
/// the joined transaction hashes.
pub fn seal(timestamp: u64, nonce: u64, joined: &[u8], prev_hash: &[u8]) -> (hash: [u8; 32])
    ensures
        hash@ == sealed_digest(timestamp, nonce, joined@, prev_hash@),
{
    let mut bytes: Vec<u8> = Vec::new();
    push_bytes(&mut bytes, prev_hash);
    push_be_bytes(&mut bytes, timestamp);
    push_be_bytes(&mut bytes, nonce);
    push_bytes(&mut bytes, joined);
    assert(bytes@ =~= prev_hash@ + be_bytes(timestamp) + be_bytes(nonce) + joined@);
    sha256(bytes.as_slice())
}

/// Searches the nonces from zero upwards for the first whose digest meets the
/// proof-of-work constraint.
///
/// Returns that nonce with its digest, or `None` where no 64-bit nonce works.
pub fn find_nonce(timestamp: u64, joined: &[u8], prev_hash: &[u8]) -> (found: Option<
    (u64, [u8; 32]),
>)
    ensures
        match found {
            Some((nonce, hash)) => {
                &&& hash@ == sealed_digest(timestamp, nonce, joined@, prev_hash@)
                &&& is_first_nonce(timestamp, nonce, joined@, prev_hash@)
            },
            None => has_no_nonce(timestamp, joined@, prev_hash@),
        },
{
    let mut nonce: u64 = 0;
    loop
        invariant
            forall|n: u64|
                n < nonce ==> !meets_difficulty(
                    #[trigger] sealed_digest(timestamp, n, joined@, prev_hash@),
                ),
        decreases u64::MAX - nonce,
    {
        let hash = seal(timestamp, nonce, joined, prev_hash);
        if has_leading_zeros(&hash) {
            return Some((nonce, hash));
        }
        if nonce == u64::MAX {
            return None;
        }
        nonce += 1;
    }
}

impl Block {
    #[verifier::type_invariant]
    spec fn sealed(&self) -> bool {
        self@.is_sealed()
    }

    /// Mines a block on top of `prev_hash`, stamped with the current time.
    ///
    /// The block returned holds `transactions` and the first nonce that seals
    /// them. `None` is returned only where, for the time that was read, no
    /// nonce does.
    pub fn new(transactions: Vec<Transaction>, prev_hash: [u8; 32]) -> (block: Option<Block>)
        ensures
            match block {
                Some(b) => {
                    &&& b@.transactions == views(transactions@)
                    &&& b@.prev_hash == prev_hash@
                    &&& b@.is_sealed()
                    &&& is_first_nonce(
                        b@.timestamp,
                        b@.nonce,
                        joined_hashes(b@.transactions),
                        prev_hash@,
                    )
                },
                None => exists|timestamp: u64|
                    has_no_nonce(timestamp, joined_hashes(views(transactions@)), prev_hash@),
            },
    {
        let timestamp = unix_time();
        Self::mine(timestamp, transactions, prev_hash)
    }

    /// Mines a block with the given timestamp on top of `prev_hash`.
    ///
    /// The block returned holds `transactions` and the first nonce that seals
    /// them; `None` is returned exactly where no nonce does.
    pub fn mine(timestamp: u64, transactions: Vec<Transaction>, prev_hash: [u8; 32]) -> (block:
        Option<Block>)
        ensures
            match block {
                Some(b) => {
                    &&& b@.timestamp == timestamp
                    &&& b@.transactions == views(transactions@)
                    &&& b@.prev_hash == prev_hash@
                    &&& b@.is_sealed()
                    &&& is_first_nonce(
                        timestamp,
                        b@.nonce,
                        joined_hashes(views(transactions@)),
                        prev_hash@,
                    )
                },
                None => has_no_nonce(timestamp, joined_hashes(views(transactions@)), prev_hash@),
            },
    {
        let joined = join_hashes(transactions.as_slice());
        match find_nonce(timestamp, joined.as_slice(), prev_hash.as_slice()) {
            None => None,
            Some((nonce, hash)) => Some(
                Block { timestamp, transactions, prev_hash, hash, nonce },
            ),
        }
    }

    /// Puts together a block from a nonce that is known to seal it.
    pub(crate) fn assemble(
        timestamp: u64,
        nonce: u64,
        hash: [u8; 32],
        transactions: Vec<Transaction>,
        prev_hash: [u8; 32],
    ) -> (block: Block)
        requires
            hash@ == block_digest(timestamp, nonce, views(transactions@), prev_hash@),
            meets_difficulty(hash@),
        ensures
            block@ == (BlockView {
                timestamp,
                transactions: views(transactions@),
                prev_hash: prev_hash@,
                hash: hash@,
                nonce,
            }),
    {
        Block { timestamp, transactions, prev_hash, hash, nonce }
    }

    /// Whether every transaction of the block is valid.
    pub fn valid_transactions(&self) -> (valid: bool)
        ensures
            valid == self@.transactions_valid(),
    {
        let mut i: usize = 0;
        while i < self.transactions.len()
            invariant
                i <= self.transactions@.len(),
                forall|k: int| 0 <= k < i ==> (#[trigger] self@.transactions[k]).is_valid(),
            decreases self.transactions@.len() - i,
        {
            if !self.transactions[i].valid() {
                assert(!self@.transactions[i as int].is_valid());
                return false;
            }
            i += 1;
        }
        true
    }

    /// Computes the digest of a block with the given contents.
    pub fn calculate_hash(
        timestamp: u64,
        nonce: u64,
        transactions: &[Transaction],
        prev_hash: &[u8],
    ) -> (hash: [u8; 32])
        ensures
            hash@ == block_digest(timestamp, nonce, views(transactions@), prev_hash@),
    {
        let joined = join_hashes(transactions);
        seal(timestamp, nonce, joined.as_slice(), prev_hash)
    }

    /// The block's hash: the digest of its contents, with the leading zero
    /// bytes that the proof of work asks for.
    pub fn hash(&self) -> (hash: [u8; 32])
        ensures
            hash@ == self@.hash,
            self@.is_sealed(),
    {
        proof {
            use_type_invariant(self);
        }
        self.hash
    }

    /// The hash of the block that this one was mined on.
    pub fn prev_hash(&self) -> (prev_hash: [u8; 32])
        ensures
            prev_hash@ == self@.prev_hash,
    {
        self.prev_hash
    }

    pub fn nonce(&self) -> (nonce: u64)
        ensures
            nonce == self@.nonce,
    {
        self.nonce
    }

    pub fn transactions(&self) -> (transactions: &[Transaction])
        ensures
            views(transactions@) == self@.transactions,
    {
        self.transactions.as_slice()
    }

    pub fn timestamp(&self) -> (timestamp: u64)
        ensures
            timestamp == self@.timestamp,
    {
        self.timestamp
    }
}

} // verus!
