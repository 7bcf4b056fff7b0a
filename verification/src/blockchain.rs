//! The chain of blocks with its pool of pending transactions.

use crate::block::{
    block_digest, find_nonce, has_no_nonce, is_first_nonce, join_hashes, joined_hashes,
    lemma_joined_hashes_concat, meets_difficulty, views, Block, BlockView,
};
use crate::clock::unix_time;
use crate::crypto::{key_address, signature_verifies};
use crate::encoding::{push_bytes, same_hash};
use crate::keys::PrivateKey;
use crate::ledger::{
    all_repayments, balance, block_content, deferred, history, lemma_block_content_balance,
    lemma_history_push, lemma_pool_split, lemma_total_concat, lemma_total_single, loans_among,
    narrowed, repayment, repayments, reward_to, settled, total, Flow, REWARD,
};
use crate::loans::{count_loans, empty_loans, loan_at, loan_entries, record_loan};
use crate::tally::Tally;
use crate::transaction::{Transaction, TransactionKind, TransactionView};
use indexmap::IndexMap;
use vstd::prelude::*;

verus! {

/// Why the chain refused an operation.
#[derive(Debug)]
pub enum BlockchainError {
    /// The transaction's signature does not verify.
    InvalidTransaction,
    /// The history leaves the address with less than nothing.
    NegativeBalance,
    /// The sender cannot pay the amount.
    BalanceTooSmall,
    /// The key may not counter-sign the loan.
    InvalidSigner,
    /// No pending transaction has the hash.
    NoTransactionFound,
}

/// The values of a sequence of blocks.
pub open spec fn block_views(blocks: Seq<Block>) -> Seq<BlockView> {
    blocks.map_values(|block: Block| block@)
}

/// The hash that the genesis block is mined on: 32 zero bytes.
pub open spec fn zero_hash() -> Seq<u8> {
    Seq::new(32, |i: int| 0u8)
}

/// `pool[i]` is the first transaction of `pool` with the given hash.
pub open spec fn is_first_with_hash(pool: Seq<TransactionView>, i: int, hash: Seq<u8>) -> bool {
    &&& 0 <= i < pool.len()
    &&& pool[i].hash == hash
    &&& forall|k: int| 0 <= k < i ==> (#[trigger] pool[k]).hash != hash
}

/// The mathematical value of a [`Blockchain`].
pub struct ChainView {
    pub blocks: Seq<BlockView>,
    pub mempool: Seq<TransactionView>,
}

impl ChainView {
    /// Each block but the first names the hash of the block before it.
    pub open spec fn is_linked(self) -> bool {
        forall|i: int|
            1 <= i < self.blocks.len() ==> (#[trigger] self.blocks[i]).prev_hash == self.blocks[i
                - 1].hash
    }

    /// Every block is sealed: its hash is the digest of its contents and
    /// meets the proof-of-work constraint.
    pub open spec fn is_sealed(self) -> bool {
        forall|i: int| 0 <= i < self.blocks.len() ==> (#[trigger] self.blocks[i]).is_sealed()
    }

    /// What holds of every chain: it starts with an empty genesis block mined
    /// on the zero hash, every block is sealed, and the blocks are linked.
    pub open spec fn is_well_formed(self) -> bool {
        &&& self.blocks.len() >= 1
        &&& self.blocks[0].prev_hash == zero_hash()
        &&& self.blocks[0].transactions.len() == 0
        &&& self.is_sealed()
        &&& self.is_linked()
    }

    /// All mined transactions, oldest first.
    pub open spec fn history(self) -> Seq<TransactionView> {
        history(self.blocks)
    }

    /// What a check of the chain finds: in every block but the first the
    /// transactions are valid, the hash is the digest of the contents, and
    /// the previous hash is the hash of the block before.
    pub open spec fn is_valid(self) -> bool {
        forall|i: int|
            1 <= i < self.blocks.len() ==> {
                &&& (#[trigger] self.blocks[i]).transactions_valid()
                &&& self.blocks[i].hash == block_digest(
                    self.blocks[i].timestamp,
                    self.blocks[i].nonce,
                    self.blocks[i].transactions,
                    self.blocks[i].prev_hash,
                )
                &&& self.blocks[i].prev_hash == self.blocks[i - 1].hash
            }
    }

    /// Whether a new transaction is taken into the pool: it has to be valid,
    /// and its sender, if it has one, has to hold the amount in mined funds.
    /// Pending transactions of the same sender are not counted against it.
    pub open spec fn admits(self, tx: TransactionView) -> Result<(), BlockchainError> {
        if !tx.is_valid() {
            Err(BlockchainError::InvalidTransaction)
        } else if tx.from matches Some(sender) && balance(self.history(), sender) < tx.amount {
            Err(BlockchainError::BalanceTooSmall)
        } else {
            Ok(())
        }
    }

    /// The place of the first pending transaction with the given hash.
    pub open spec fn pending_place(self, hash: Seq<u8>) -> Option<int> {
        if exists|i: int| is_first_with_hash(self.mempool, i, hash) {
            Some(choose|i: int| is_first_with_hash(self.mempool, i, hash))
        } else {
            None
        }
    }

    /// The hash that the next block is mined on.
    pub open spec fn tip(self) -> Seq<u8> {
        self.blocks.last().hash
    }

    /// The content of the block that mining would append now.
    pub open spec fn next_content(self, reward_address: Seq<char>) -> Seq<TransactionView> {
        block_content(self.mempool, self.history(), reward_address)
    }

    /// `after` is this chain with one block mined on top: the block holds the
    /// content due, is stamped `timestamp`, names the tip, and is sealed by
    /// the first nonce that works; the pool keeps the deferred loan offers
    /// and nothing else.
    pub open spec fn mined_into(self, after: ChainView, timestamp: u64, reward_address: Seq<char>) -> bool {
        let block = after.blocks.last();
        &&& after.blocks == self.blocks.push(block)
        &&& block.timestamp == timestamp
        &&& block.transactions == self.next_content(reward_address)
        &&& block.prev_hash == self.tip()
        &&& block.is_sealed()
        &&& is_first_nonce(timestamp, block.nonce, joined_hashes(block.transactions), self.tip())
        &&& after.mempool == deferred(self.mempool)
    }

    /// No nonce seals the block that mining would append with `timestamp`.
    pub open spec fn cannot_mine(self, timestamp: u64, reward_address: Seq<char>) -> bool {
        has_no_nonce(timestamp, joined_hashes(self.next_content(reward_address)), self.tip())
    }

    /// What a mining attempt with `timestamp` leaves behind: the chain with
    /// the new block where a nonce exists, the chain as it was where none
    /// does.
    pub open spec fn mining_outcome(
        self,
        after: ChainView,
        mined: bool,
        timestamp: u64,
        reward_address: Seq<char>,
    ) -> bool {
        if mined {
            self.mined_into(after, timestamp, reward_address)
        } else {
            after == self && self.cannot_mine(timestamp, reward_address)
        }
    }

    /// What a balance query answers for `address`.
    pub open spec fn balance_of(self, address: Seq<char>) -> Result<u64, BlockchainError> {
        let held = balance(self.history(), address);
        if held < 0 {
            Err(BlockchainError::NegativeBalance)
        } else {
            Ok(narrowed(held))
        }
    }
}

/// Proof of work: in a well-formed chain the hash of every block starts with
/// the zero bytes that the difficulty asks for, and is the digest of the
/// block's timestamp, nonce, transactions and previous hash.
pub proof fn lemma_blocks_sealed(chain: ChainView, i: int)
    requires
        chain.is_well_formed(),
        0 <= i < chain.blocks.len(),
    ensures
        meets_difficulty(chain.blocks[i].hash),
        chain.blocks[i].hash == block_digest(
            chain.blocks[i].timestamp,
            chain.blocks[i].nonce,
            chain.blocks[i].transactions,
            chain.blocks[i].prev_hash,
        ),
{
}

/// Chain linkage: in a well-formed chain every block but the first names the
/// hash of the block before it.
pub proof fn lemma_chain_linked(chain: ChainView, i: int)
    requires
        chain.is_well_formed(),
        1 <= i < chain.blocks.len(),
    ensures
        chain.blocks[i].prev_hash == chain.blocks[i - 1].hash,
{
}

/// A balance is read off the mined blocks alone: two chains with the same
/// blocks answer alike for every address, whatever is pending. So a query
/// that is repeated while nothing is mined repeats its answer.
pub proof fn lemma_balance_depends_on_blocks_only(a: ChainView, b: ChainView, address: Seq<char>)
    requires
        a.blocks == b.blocks,
    ensures
        a.balance_of(address) == b.balance_of(address),
{
}

/// Mining adds the new block's transactions to the history, and changes each
/// balance by what those transactions pay to the address and take from it.
pub proof fn lemma_balance_after_mining(
    before: ChainView,
    after: ChainView,
    timestamp: u64,
    reward_address: Seq<char>,
    address: Seq<char>,
)
    requires
        before.mined_into(after, timestamp, reward_address),
    ensures
        after.history() == before.history() + before.next_content(reward_address),
        balance(after.history(), address) == balance(before.history(), address) + balance(
            before.next_content(reward_address),
            address,
        ),
{
    let content = before.next_content(reward_address);
    lemma_history_push(before.blocks, after.blocks.last());
    lemma_total_concat(before.history(), content, Flow::Credit { address });
    lemma_total_concat(before.history(), content, Flow::Debit { address });
}

/// Mining pays the reward to the miner and settles the pool: each balance
/// changes by the reward, where the address mined the block, and by what the
/// settled transactions pay to the address and take from it. Repayments and
/// the loan offers that stay pending change no balance.
pub proof fn lemma_mining_settles_balances(
    before: ChainView,
    after: ChainView,
    timestamp: u64,
    reward_address: Seq<char>,
    address: Seq<char>,
)
    requires
        before.mined_into(after, timestamp, reward_address),
    ensures
        balance(after.history(), address) == balance(before.history(), address) + (
        if reward_address == address {
            REWARD as int
        } else {
            0
        }) + balance(settled(before.mempool), address),
{
    lemma_balance_after_mining(before, after, timestamp, reward_address, address);
    lemma_block_content_balance(before.mempool, before.history(), reward_address, address);
}

/// A mined transfer moves its amount: where the pool holds one transfer
/// from `sender` to another address, and that address mines the block, the
/// recipient gains the amount and the reward and the sender loses the amount.
pub proof fn lemma_mined_transfer_moves_funds(
    before: ChainView,
    after: ChainView,
    timestamp: u64,
    tx: TransactionView,
    sender: Seq<char>,
)
    requires
        before.mempool == seq![tx],
        tx.from == Some(sender),
        sender != tx.to,
        !tx.is_loan(),
        before.mined_into(after, timestamp, tx.to),
    ensures
        balance(after.history(), tx.to) == balance(before.history(), tx.to) + tx.amount + REWARD,
        balance(after.history(), sender) == balance(before.history(), sender) - tx.amount,
        after.mempool.len() == 0,
{
    lemma_mining_settles_balances(before, after, timestamp, tx.to, tx.to);
    lemma_mining_settles_balances(before, after, timestamp, tx.to, sender);
    assert(before.mempool.drop_last() =~= Seq::<TransactionView>::empty());
    assert(settled(before.mempool.drop_last()) =~= Seq::<TransactionView>::empty());
    assert(deferred(before.mempool.drop_last()) =~= Seq::<TransactionView>::empty());
    assert(settled(before.mempool) =~= seq![tx]);
    lemma_total_single(tx, Flow::Credit { address: tx.to });
    lemma_total_single(tx, Flow::Debit { address: tx.to });
    lemma_total_single(tx, Flow::Credit { address: sender });
    lemma_total_single(tx, Flow::Debit { address: sender });
}

/// A pending loan can be counter-signed by the borrower alone: with a key
/// whose address is not the recipient of the first pending transaction with
/// the hash, counter-signing that transaction is refused.
pub proof fn lemma_pending_loan_refuses_other_keys(chain: ChainView, hash: Seq<u8>, secret: Seq<u8>)
    requires
        chain.pending_place(hash) matches Some(place) && key_address(secret) != Some(
            chain.mempool[place].to,
        ),
    ensures
        chain.mempool[chain.pending_place(hash).unwrap()].countersigned_by(secret) is Err,
{
}

/// Mining drains the pool: what stays pending are unsigned loan offers that
/// were pending before, and nothing else. The new block opens with the
/// reward, and holds besides it the repayments and as many transactions as
/// left the pool.
pub proof fn lemma_mining_drains_pool(
    before: ChainView,
    after: ChainView,
    timestamp: u64,
    reward_address: Seq<char>,
)
    requires
        before.mined_into(after, timestamp, reward_address),
    ensures
        after.mempool.len() <= before.mempool.len(),
        forall|i: int|
            0 <= i < after.mempool.len() ==> {
                &&& (#[trigger] after.mempool[i]).is_unsigned_loan()
                &&& before.mempool.contains(after.mempool[i])
            },
        after.blocks.last().transactions[0] == reward_to(reward_address),
        after.blocks.last().transactions.len() == 1 + all_repayments(
            before.mempool,
            before.history(),
        ).len() + (before.mempool.len() - after.mempool.len()),
{
    lemma_pool_split(before.mempool);
}

/// Where the pool settles as many transactions as it carries over, the size
/// of the new block can be read off what stays pending: one reward, the
/// repayments, and as many transactions as were carried over.
pub proof fn lemma_block_size_by_carried_over(
    before: ChainView,
    after: ChainView,
    timestamp: u64,
    reward_address: Seq<char>,
)
    requires
        before.mined_into(after, timestamp, reward_address),
        settled(before.mempool).len() == deferred(before.mempool).len(),
    ensures
        after.blocks.last().transactions.len() == 1 + all_repayments(
            before.mempool,
            before.history(),
        ).len() + after.mempool.len(),
{
    lemma_pool_split(before.mempool);
}

/// The chain of mined blocks and the pool of transactions waiting to be
/// mined.
pub struct Blockchain {
    blocks: Vec<Block>,
    mempool: Vec<Transaction>,
}

impl View for Blockchain {
    type V = ChainView;

    closed spec fn view(&self) -> ChainView {
        ChainView { blocks: block_views(self.blocks@), mempool: views(self.mempool@) }
    }
}

/// The flow that a scan of the history adds up, with the addresses held as
/// strings.
enum Scan {
    Credit(String),
    Debit(String),
    Paid(String, String),
    Lent(String, String),
}

impl View for Scan {
    type V = Flow;

    closed spec fn view(&self) -> Flow {
        match self {
            Scan::Credit(address) => Flow::Credit { address: address@ },
            Scan::Debit(address) => Flow::Debit { address: address@ },
            Scan::Paid(from, to) => Flow::Paid { from: from@, to: to@ },
            Scan::Lent(from, to) => Flow::Lent { from: from@, to: to@ },
        }
    }
}

impl Scan {
    fn counts(&self, tx: &Transaction) -> (yes: bool)
        ensures
            yes == self@.counts(tx@),
    {
        match self {
            Scan::Credit(address) => tx.sent_to(address),
            Scan::Debit(address) => tx.sent_by(address),
            Scan::Paid(from, to) => tx.sent_by(from) && tx.sent_to(to),
            Scan::Lent(from, to) => tx.is_loan() && tx.sent_by(from) && tx.sent_to(to),
        }
    }
}

impl Blockchain {
    /// Starts a chain by mining its genesis block, stamped with the current
    /// time. `None` is returned only where no nonce seals that block.
    pub fn new() -> (chain: Option<Blockchain>)
        ensures
            match chain {
                Some(c) => {
                    &&& c@.is_well_formed()
                    &&& c@.blocks.len() == 1
                    &&& c@.mempool.len() == 0
                },
                None => exists|timestamp: u64| has_no_nonce(timestamp, Seq::empty(), zero_hash()),
            },
    {
        Self::genesis_at(unix_time())
    }

    /// Starts a chain by mining its genesis block with the given timestamp.
    /// `None` is returned exactly where no nonce seals that block.
    pub fn genesis_at(timestamp: u64) -> (chain: Option<Blockchain>)
        ensures
            match chain {
                Some(c) => {
                    &&& c@.is_well_formed()
                    &&& c@.blocks.len() == 1
                    &&& c@.blocks[0].timestamp == timestamp
                    &&& is_first_nonce(timestamp, c@.blocks[0].nonce, Seq::empty(), zero_hash())
                    &&& c@.mempool.len() == 0
                },
                None => has_no_nonce(timestamp, Seq::empty(), zero_hash()),
            },
    {
        let origin: [u8; 32] = [0u8; 32];
        assert(origin@ =~= zero_hash());
        match Block::mine(timestamp, Vec::new(), origin) {
            None => None,
            Some(genesis) => {
                let mut blocks: Vec<Block> = Vec::new();
                blocks.push(genesis);
                Some(Blockchain { blocks, mempool: Vec::new() })
            },
        }
    }

    /// The blocks of the chain, genesis first.
    pub fn blocks(&self) -> (blocks: &[Block])
        ensures
            block_views(blocks@) == self@.blocks,
    {
        self.blocks.as_slice()
    }

    /// The block that the next one will be mined on.
    pub fn latest_block(&self) -> (block: &Block)
        requires
            self@.blocks.len() >= 1,
        ensures
            block@ == self@.blocks.last(),
    {
        &self.blocks[self.blocks.len() - 1]
    }

    /// The transactions waiting to be mined, oldest first.
    pub fn mempool(&self) -> (pool: &[Transaction])
        ensures
            views(pool@) == self@.mempool,
    {
        self.mempool.as_slice()
    }

    /// Adds up the amounts of the mined transactions that count towards
    /// `scan`.
    fn volume(&self, scan: &Scan) -> (tally: Tally)
        ensures
            tally@ == total(self@.history(), scan@),
    {
        let mut tally = Tally::zero();
        let mut i: usize = 0;
        while i < self.blocks.len()
            invariant
                i <= self.blocks@.len(),
                tally@ == total(history(self@.blocks.take(i as int)), scan@),
                tally.room() >= u128::MAX - i * 0x1_0000_0000_0000_0000,
            decreases self.blocks@.len() - i,
        {
            let transactions = self.blocks[i].transactions();
            let ghost before = history(self@.blocks.take(i as int));
            let ghost these = self@.blocks[i as int].transactions;
            let mut j: usize = 0;
            while j < transactions.len()
                invariant
                    i < self.blocks@.len(),
                    j <= transactions@.len(),
                    views(transactions@) == these,
                    tally@ == total(before + these.take(j as int), scan@),
                    tally.room() >= u128::MAX - i * 0x1_0000_0000_0000_0000 - j,
                decreases transactions@.len() - j,
            {
                proof {
                    assert((before + these.take(j + 1)).drop_last() =~= before + these.take(
                        j as int,
                    ));
                    assert((before + these.take(j + 1)).last() == transactions@[j as int]@);
                }
                if scan.counts(&transactions[j]) {
                    tally.add(transactions[j].amount());
                }
                j += 1;
            }
            proof {
                assert(these.take(j as int) =~= these);
                assert(self@.blocks.take(i + 1).drop_last() =~= self@.blocks.take(i as int));
                assert(self@.blocks.take(i + 1).last() == self@.blocks[i as int]);
            }
            i += 1;
        }
        assert(self@.blocks.take(i as int) =~= self@.blocks);
        tally
    }

    /// The balance of `address`: what the mined history paid to it less what
    /// it sent.
    ///
    /// Fails with `NegativeBalance` where the address sent more than it
    /// received. A balance beyond 64 bits is reported as `u64::MAX`.
    pub fn balance_of(&self, address: &str) -> (held: Result<u64, BlockchainError>)
        ensures
            held == self@.balance_of(address@),
    {
        let credit = self.volume(&Scan::Credit(address.to_owned()));
        let debit = self.volume(&Scan::Debit(address.to_owned()));
        match credit.surplus(&debit) {
            Some(amount) => Ok(amount),
            None => Err(BlockchainError::NegativeBalance),
        }
    }

    /// What `from` has sent to `to` in mined transactions of any kind; a
    /// total beyond 64 bits is reported as `u64::MAX`.
    pub fn paid_to(&self, from: &str, to: &str) -> (paid: u64)
        ensures
            paid == narrowed(total(self@.history(), Flow::Paid { from: from@, to: to@ }) as int),
    {
        self.volume(&Scan::Paid(from.to_owned(), to.to_owned())).saturated()
    }

    /// What `from` has lent to `to` in mined loans; a total beyond 64 bits
    /// is reported as `u64::MAX`.
    pub fn total_loan_cost(&self, from: &str, to: &str) -> (lent: u64)
        ensures
            lent == narrowed(total(self@.history(), Flow::Lent { from: from@, to: to@ }) as int),
    {
        self.volume(&Scan::Lent(from.to_owned(), to.to_owned())).saturated()
    }
    /// Takes a transaction into the pool of pending transactions.
    ///
    /// Fails with `InvalidTransaction` where the transaction is not valid,
    /// and with `BalanceTooSmall` where its sender's mined balance is less
    /// than the amount or negative. The chain stays as it was in both cases.
    pub fn add_transaction(&mut self, transaction: Transaction) -> (result: Result<
        (),
        BlockchainError,
    >)
        ensures
            old(self)@.is_well_formed() ==> final(self)@.is_well_formed(),
            match old(self)@.admits(transaction@) {
                Ok(()) => {
                    &&& result is Ok
                    &&& final(self)@.blocks == old(self)@.blocks
                    &&& final(self)@.mempool == old(self)@.mempool.push(transaction@)
                },
                Err(e) => result == Err::<(), BlockchainError>(e) && final(self)@ == old(self)@,
            },
    {
        if !transaction.valid() {
            return Err(BlockchainError::InvalidTransaction);
        }
        match transaction.from() {
            Some(sender) => {
                match self.balance_of(sender.as_str()) {
                    Ok(held) => {
                        if transaction.amount() > held {
                            return Err(BlockchainError::BalanceTooSmall);
                        }
                    },
                    Err(_) => {
                        return Err(BlockchainError::BalanceTooSmall);
                    },
                }
            },
            None => {},
        }
        proof {
            assert(views(self.mempool@.push(transaction)) =~= views(self.mempool@).push(
                transaction@,
            ));
        }
        self.mempool.push(transaction);
        Ok(())
    }

    /// The loans made to `address` in the mined history, filed by hash in the
    /// order in which the chain holds them. Each is filed with the borrower's
    /// address, which is `address`, and its amount; a hash that is met again
    /// keeps its first place.
    pub fn all_loans_of(&self, address: &str) -> (loans: IndexMap<[u8; 32], (String, u64)>)
        ensures
            loan_entries(loans) == loans_among(self@.history(), address@, None),
    {
        let borrower = address.to_owned();
        let mut loans = empty_loans();
        let mut i: usize = 0;
        while i < self.blocks.len()
            invariant
                i <= self.blocks@.len(),
                borrower@ == address@,
                loan_entries(loans) == loans_among(
                    history(self@.blocks.take(i as int)),
                    address@,
                    None,
                ),
            decreases self.blocks@.len() - i,
        {
            let transactions = self.blocks[i].transactions();
            let ghost before = history(self@.blocks.take(i as int));
            let ghost these = self@.blocks[i as int].transactions;
            let mut j: usize = 0;
            while j < transactions.len()
                invariant
                    i < self.blocks@.len(),
                    j <= transactions@.len(),
                    borrower@ == address@,
                    views(transactions@) == these,
                    loan_entries(loans) == loans_among(
                        before + these.take(j as int),
                        address@,
                        None,
                    ),
                decreases transactions@.len() - j,
            {
                proof {
                    assert((before + these.take(j + 1)).drop_last() =~= before + these.take(
                        j as int,
                    ));
                    assert((before + these.take(j + 1)).last() == transactions@[j as int]@);
                }
                let tx = &transactions[j];
                if tx.is_loan() && tx.sent_to(&borrower) {
                    record_loan(&mut loans, tx.hash(), tx.to().to_owned(), tx.amount());
                }
                j += 1;
            }
            proof {
                assert(these.take(j as int) =~= these);
                assert(self@.blocks.take(i + 1).drop_last() =~= self@.blocks.take(i as int));
                assert(self@.blocks.take(i + 1).last() == self@.blocks[i as int]);
            }
            i += 1;
        }
        assert(self@.blocks.take(i as int) =~= self@.blocks);
        loans
    }

    /// The pending loans to `address` whose signed state is `signed`, filed
    /// by hash in the order of the pool. Mined loans are not looked at.
    pub fn loans_of(&self, address: &str, signed: bool) -> (loans: IndexMap<
        [u8; 32],
        (String, u64),
    >)
        ensures
            loan_entries(loans) == loans_among(self@.mempool, address@, Some(signed)),
    {
        let borrower = address.to_owned();
        let mut loans = empty_loans();
        let mut j: usize = 0;
        while j < self.mempool.len()
            invariant
                j <= self.mempool@.len(),
                borrower@ == address@,
                loan_entries(loans) == loans_among(
                    self@.mempool.take(j as int),
                    address@,
                    Some(signed),
                ),
            decreases self.mempool@.len() - j,
        {
            proof {
                assert(self@.mempool.take(j + 1).drop_last() =~= self@.mempool.take(j as int));
                assert(self@.mempool.take(j + 1).last() == self.mempool@[j as int]@);
            }
            let tx = &self.mempool[j];
            if tx.is_loan() && tx.loan_signed() == signed && tx.sent_to(&borrower) {
                record_loan(&mut loans, tx.hash(), tx.to().to_owned(), tx.amount());
            }
            j += 1;
        }
        assert(self@.mempool.take(j as int) =~= self@.mempool);
        loans
    }

    /// Counter-signs the first pending transaction with the given hash on
    /// behalf of the borrower.
    ///
    /// Fails with `NoTransactionFound` where no pending transaction has the
    /// hash, and with `InvalidSigner` where that transaction cannot be
    /// counter-signed with the key. The chain stays as it was in both cases.
    pub fn sign_loan(&mut self, payee: &PrivateKey, transaction_hash: [u8; 32]) -> (result: Result<
        (),
        BlockchainError,
    >)
        ensures
            final(self)@.blocks == old(self)@.blocks,
            old(self)@.is_well_formed() ==> final(self)@.is_well_formed(),
            match old(self)@.pending_place(transaction_hash@) {
                None => {
                    &&& result == Err::<(), BlockchainError>(BlockchainError::NoTransactionFound)
                    &&& final(self)@ == old(self)@
                },
                Some(place) => match old(self)@.mempool[place].countersigned_by(payee@) {
                    Ok(signed) => {
                        &&& result is Ok
                        &&& final(self)@.mempool == old(self)@.mempool.update(place, signed)
                        &&& signed.kind.countersignature() matches Some(s) && signature_verifies(
                            signed.to,
                            signed.hash,
                            s,
                        )
                        &&& signed.is_loan_signed() == old(self)@.mempool[place].is_valid()
                    },
                    Err(_) => {
                        &&& result == Err::<(), BlockchainError>(BlockchainError::InvalidSigner)
                        &&& final(self)@ == old(self)@
                    },
                },
            },
    {
        let mut i: usize = 0;
        let mut found = false;
        while !found && i < self.mempool.len()
            invariant
                i <= self.mempool@.len(),
                *self == *old(self),
                forall|k: int| 0 <= k < i ==> (#[trigger] self@.mempool[k]).hash != transaction_hash@,
                found ==> i < self.mempool@.len() && self@.mempool[i as int].hash
                    == transaction_hash@,
            decreases self.mempool@.len() - i + (if found { 0int } else { 1int }),
        {
            let hash = self.mempool[i].hash();
            if same_hash(&hash, &transaction_hash) {
                found = true;
            } else {
                i += 1;
            }
        }
        if !found {
            assert(old(self)@.pending_place(transaction_hash@) is None);
            return Err(BlockchainError::NoTransactionFound);
        }
        proof {
            assert(is_first_with_hash(self@.mempool, i as int, transaction_hash@));
            let chosen = choose|k: int| is_first_with_hash(self@.mempool, k, transaction_hash@);
            assert(chosen == i);
        }
        let outcome = self.mempool[i].sign_loan_transaction(payee);
        proof {
            let pool = old(self)@.mempool;
            let signed = self.mempool@[i as int]@;
            assert(self@.mempool =~= pool.update(i as int, signed));
            if outcome is Err {
                assert(pool.update(i as int, signed) =~= pool);
            }
        }
        match outcome {
            Ok(()) => Ok(()),
            Err(_) => Err(BlockchainError::InvalidSigner),
        }
    }

    /// Checks the chain from the oldest block to the newest: in every block
    /// but the first the transactions have to be valid, the hash has to be
    /// the digest of the contents, and the previous hash has to be the hash
    /// of the block before.
    pub fn valid(&self) -> (valid: bool)
        ensures
            valid == self@.is_valid(),
    {
        let mut i: usize = 1;
        while i < self.blocks.len()
            invariant
                1 <= i,
                forall|k: int|
                    1 <= k < i && k < self.blocks@.len() ==> {
                        &&& (#[trigger] self@.blocks[k]).transactions_valid()
                        &&& self@.blocks[k].hash == block_digest(
                            self@.blocks[k].timestamp,
                            self@.blocks[k].nonce,
                            self@.blocks[k].transactions,
                            self@.blocks[k].prev_hash,
                        )
                        &&& self@.blocks[k].prev_hash == self@.blocks[k - 1].hash
                    },
            decreases self.blocks@.len() - i,
        {
            let current = &self.blocks[i];
            let previous = &self.blocks[i - 1];
            assert(current@ == self@.blocks[i as int]);
            assert(previous@ == self@.blocks[i - 1]);
            if !current.valid_transactions() {
                return false;
            }
            let prev_hash = current.prev_hash();
            let digest = Block::calculate_hash(
                current.timestamp(),
                current.nonce(),
                current.transactions(),
                prev_hash.as_slice(),
            );
            if !same_hash(&current.hash(), &digest) {
                return false;
            }
            if !same_hash(&prev_hash, &previous.hash()) {
                return false;
            }
            i += 1;
        }
        true
    }
    /// The repayments that `tx` triggers on arrival, appended to `out`.
    fn repay(&self, tx: &Transaction, out: &mut Vec<Transaction>)
        ensures
            views(final(out)@) == views(old(out)@) + repayments(
                loans_among(self@.history(), tx@.to, None),
                tx@.to,
                tx@.amount,
            ),
    {
        let loans = self.all_loans_of(tx.to());
        let count = count_loans(&loans);
        let ghost entries = loan_entries(loans);
        let ghost due = views(out@) + repayments(entries, tx@.to, tx@.amount);
        let mut remaining = tx.amount();
        let mut k: usize = 0;
        let mut done = false;
        assert(entries.skip(0) =~= entries);
        while !done && k < count
            invariant
                k <= count == entries.len(),
                entries == loan_entries(loans),
                due == views(out@) + (if done {
                    Seq::<TransactionView>::empty()
                } else {
                    repayments(entries.skip(k as int), tx@.to, remaining)
                }),
            decreases count - k + (if done { 0int } else { 1int }),
        {
            let ghost rest = entries.skip(k as int);
            assert(rest[0] == entries[k as int]);
            assert(rest.drop_first() =~= entries.skip(k + 1));
            match loan_at(&loans, k) {
                Some((_, lender, amount)) => {
                    if remaining < amount {
                        done = true;
                    } else {
                        remaining = remaining - amount;
                        let paid = Transaction::new(
                            Some(tx.to().to_owned()),
                            lender.to_owned(),
                            amount,
                            TransactionKind::Repayment,
                        );
                        proof {
                            assert(paid@ == repayment(tx@.to, entries[k as int]));
                            assert(views(out@.push(paid)) =~= views(out@).push(paid@));
                            assert(views(out@).push(paid@) + repayments(
                                entries.skip(k + 1),
                                tx@.to,
                                remaining,
                            ) =~= views(out@) + (seq![paid@] + repayments(
                                entries.skip(k + 1),
                                tx@.to,
                                remaining,
                            )));
                        }
                        out.push(paid);
                        k += 1;
                    }
                },
                None => {
                    done = true;
                },
            }
        }
        proof {
            if !done {
                assert(entries.skip(k as int).len() == 0);
            }
            assert(views(out@) + Seq::<TransactionView>::empty() =~= views(out@));
        }
    }

    /// The repayments that the pending transactions trigger, in the pool's
    /// order.
    fn collect_repayments(&self) -> (out: Vec<Transaction>)
        ensures
            views(out@) == all_repayments(self@.mempool, self@.history()),
    {
        let mut out: Vec<Transaction> = Vec::new();
        let mut j: usize = 0;
        assert(views(out@) =~= Seq::<TransactionView>::empty());
        while j < self.mempool.len()
            invariant
                j <= self.mempool@.len(),
                views(out@) == all_repayments(self@.mempool.take(j as int), self@.history()),
            decreases self.mempool@.len() - j,
        {
            proof {
                assert(self@.mempool.take(j + 1).drop_last() =~= self@.mempool.take(j as int));
                assert(self@.mempool.take(j + 1).last() == self.mempool@[j as int]@);
            }
            self.repay(&self.mempool[j], &mut out);
            j += 1;
        }
        assert(self@.mempool.take(j as int) =~= self@.mempool);
        out
    }

    /// For each pending transaction, whether it is an unsigned loan offer.
    fn deferral_flags(&self) -> (flags: Vec<bool>)
        ensures
            flags@.len() == self@.mempool.len(),
            forall|j: int|
                0 <= j < flags@.len() ==> flags@[j] == (#[trigger] self@.mempool[j]).is_unsigned_loan(),
    {
        let mut flags: Vec<bool> = Vec::new();
        let mut j: usize = 0;
        while j < self.mempool.len()
            invariant
                j <= self.mempool@.len(),
                flags@.len() == j,
                forall|k: int|
                    0 <= k < j ==> flags@[k] == (#[trigger] self@.mempool[k]).is_unsigned_loan(),
            decreases self.mempool@.len() - j,
        {
            let tx = &self.mempool[j];
            assert(tx@ == self@.mempool[j as int]);
            flags.push(tx.is_loan() && !tx.loan_signed());
            j += 1;
        }
        flags
    }

    /// The joined hashes of the pending transactions that are not deferred.
    fn settled_hashes(&self, flags: &Vec<bool>) -> (joined: Vec<u8>)
        requires
            flags@.len() == self@.mempool.len(),
            forall|j: int|
                0 <= j < flags@.len() ==> flags@[j] == (#[trigger] self@.mempool[j]).is_unsigned_loan(),
        ensures
            joined@ == joined_hashes(settled(self@.mempool)),
    {
        let mut joined: Vec<u8> = Vec::new();
        let mut j: usize = 0;
        while j < self.mempool.len()
            invariant
                j <= self.mempool@.len(),
                flags@.len() == self@.mempool.len(),
                forall|k: int|
                    0 <= k < flags@.len() ==> flags@[k] == (
                    #[trigger] self@.mempool[k]).is_unsigned_loan(),
                joined@ == joined_hashes(settled(self@.mempool.take(j as int))),
            decreases self.mempool@.len() - j,
        {
            proof {
                assert(self@.mempool.take(j + 1).drop_last() =~= self@.mempool.take(j as int));
                assert(self@.mempool.take(j + 1).last() == self@.mempool[j as int]);
                assert(settled(self@.mempool.take(j as int)).push(
                    self@.mempool[j as int],
                ).drop_last() =~= settled(self@.mempool.take(j as int)));
            }
            if !flags[j] {
                let hash = self.mempool[j].hash();
                push_bytes(&mut joined, hash.as_slice());
            }
            j += 1;
        }
        assert(self@.mempool.take(j as int) =~= self@.mempool);
        joined
    }

    /// The joined hashes of the block that would be mined now: those of the
    /// reward, of the repayments, and of the pending transactions that are
    /// not deferred.
    fn next_hashes(&self, reward: &Transaction, repaid: &Vec<Transaction>, flags: &Vec<bool>) -> (joined:
        Vec<u8>)
        requires
            flags@.len() == self@.mempool.len(),
            forall|j: int|
                0 <= j < flags@.len() ==> flags@[j] == (#[trigger] self@.mempool[j]).is_unsigned_loan(),
        ensures
            joined@ == joined_hashes(seq![reward@] + views(repaid@) + settled(self@.mempool)),
    {
        let mut joined: Vec<u8> = Vec::new();
        push_bytes(&mut joined, reward.hash().as_slice());
        let repaid_hashes = join_hashes(repaid.as_slice());
        push_bytes(&mut joined, repaid_hashes.as_slice());
        let kept_hashes = self.settled_hashes(flags);
        push_bytes(&mut joined, kept_hashes.as_slice());
        proof {
            let first = seq![reward@];
            assert(first.drop_last() =~= Seq::<TransactionView>::empty());
            assert(joined_hashes(first.drop_last()) =~= Seq::<u8>::empty());
            assert(first.last() == reward@);
            assert(joined_hashes(first) =~= reward@.hash);
            lemma_joined_hashes_concat(seq![reward@], views(repaid@));
            lemma_joined_hashes_concat(seq![reward@] + views(repaid@), settled(self@.mempool));
            assert(joined@ =~= joined_hashes(seq![reward@]) + joined_hashes(views(repaid@))
                + joined_hashes(settled(self@.mempool)));
        }
        joined
    }

    /// Mines the pending transactions into a new block stamped `timestamp`.
    ///
    /// The block opens with the reward for `reward_address`, followed by the
    /// repayments that the pending transactions trigger and by the pending
    /// transactions themselves, except the loan offers that the borrower has
    /// not signed: those stay in the pool. Returns whether a block was mined;
    /// where no nonce seals the block, the chain stays as it was.
    ///
    /// A repayment names the borrower as its sender and carries no signature,
    /// so it is not a valid transaction: a block that holds one fails
    /// [`Block::valid_transactions`], and the chain fails
    /// [`Blockchain::valid`] from then on.
    pub fn mine_pending_transactions_at(&mut self, timestamp: u64, reward_address: String) -> (mined:
        bool)
        requires
            old(self)@.blocks.len() >= 1,
        ensures
            old(self)@.is_well_formed() ==> final(self)@.is_well_formed(),
            old(self)@.mining_outcome(final(self)@, mined, timestamp, reward_address@),
    {
        let reward = Transaction::new(None, reward_address, REWARD, TransactionKind::Normal);
        let mut repaid = self.collect_repayments();
        let flags = self.deferral_flags();
        let parent = self.latest_block().hash();
        let joined = self.next_hashes(&reward, &repaid, &flags);
        let ghost before = self@;
        let ghost content = before.next_content(reward_address@);
        assert(content == seq![reward@] + views(repaid@) + settled(before.mempool));
        let (nonce, hash) = match find_nonce(timestamp, joined.as_slice(), parent.as_slice()) {
            None => {
                return false;
            },
            Some(found) => found,
        };
        let mut pool: Vec<Transaction> = Vec::new();
        core::mem::swap(&mut self.mempool, &mut pool);
        let ghost repayments_due = views(repaid@);
        let mut transactions: Vec<Transaction> = Vec::new();
        transactions.push(reward);
        transactions.append(&mut repaid);
        assert(views(transactions@) =~= seq![reward@] + repayments_due);
        let (transactions, next) = split_pool(pool, &flags, transactions);
        let block = Block::assemble(timestamp, nonce, hash, transactions, parent);
        self.mempool = next;
        proof {
            assert(block_views(self.blocks@.push(block)) =~= block_views(self.blocks@).push(
                block@,
            ));
        }
        self.blocks.push(block);
        true
    }

    /// Mines the pending transactions into a new block stamped with the
    /// current time; see [`Blockchain::mine_pending_transactions_at`].
    pub fn mine_pending_transactions(&mut self, reward_address: String) -> (mined: bool)
        requires
            old(self)@.blocks.len() >= 1,
        ensures
            old(self)@.is_well_formed() ==> final(self)@.is_well_formed(),
            exists|timestamp: u64|
                old(self)@.mining_outcome(final(self)@, mined, timestamp, reward_address@),
    {
        self.mine_pending_transactions_at(unix_time(), reward_address)
    }
}

/// Moves the transactions of `pool` out in their order: the deferred ones
/// into a new pool, the others behind `head`.
fn split_pool(pool: Vec<Transaction>, flags: &Vec<bool>, head: Vec<Transaction>) -> (parts: (
    Vec<Transaction>,
    Vec<Transaction>,
))
    requires
        flags@.len() == pool@.len(),
        forall|j: int|
            0 <= j < flags@.len() ==> flags@[j] == (#[trigger] views(pool@)[j]).is_unsigned_loan(),
    ensures
        views(parts.0@) == views(head@) + settled(views(pool@)),
        views(parts.1@) == deferred(views(pool@)),
{
    let ghost given = views(pool@);
    let ghost front = views(head@);
    let ghost pool0 = pool@;
    let count = pool.len();
    let mut stack = reversed(pool);
    let mut transactions = head;
    let mut next: Vec<Transaction> = Vec::new();
    assert(views(transactions@) =~= front + settled(given.take(0)));
    assert(views(next@) =~= deferred(given.take(0)));
    let mut k: usize = 0;
    while k < count
        invariant
            k <= count == pool0.len() == flags@.len(),
            given == views(pool0),
            stack@.len() == count - k,
            forall|i: int| 0 <= i < count - k ==> stack@[i] == pool0[count - 1 - i],
            forall|j: int|
                0 <= j < flags@.len() ==> flags@[j] == (#[trigger] given[j]).is_unsigned_loan(),
            views(transactions@) == front + settled(given.take(k as int)),
            views(next@) == deferred(given.take(k as int)),
        decreases count - k,
    {
        let tx = stack.pop().unwrap();
        proof {
            assert(tx == pool0[k as int]);
            assert(tx@ == given[k as int]);
            assert(given.take(k + 1).drop_last() =~= given.take(k as int));
            assert(given.take(k + 1).last() == tx@);
            assert(views(transactions@.push(tx)) =~= views(transactions@).push(tx@));
            assert(views(next@.push(tx)) =~= views(next@).push(tx@));
            assert((front + settled(given.take(k as int))).push(tx@) =~= front + settled(
                given.take(k as int),
            ).push(tx@));
        }
        if flags[k] {
            next.push(tx);
        } else {
            transactions.push(tx);
        }
        k += 1;
    }
    assert(given.take(k as int) =~= given);
    (transactions, next)
}

/// The elements of `items` in the opposite order.
fn reversed(items: Vec<Transaction>) -> (turned: Vec<Transaction>)
    ensures
        turned@.len() == items@.len(),
        forall|i: int| 0 <= i < turned@.len() ==> turned@[i] == items@[items@.len() - 1 - i],
{
    let mut items = items;
    let ghost given = items@;
    let mut turned: Vec<Transaction> = Vec::new();
    while items.len() > 0
        invariant
            items@.len() + turned@.len() == given.len(),
            forall|i: int| 0 <= i < items@.len() ==> items@[i] == given[i],
            forall|i: int| 0 <= i < turned@.len() ==> turned@[i] == given[given.len() - 1 - i],
        decreases items@.len(),
    {
        let item = items.pop().unwrap();
        turned.push(item);
    }
    turned
}

} // verus!
