//! The ledger as a mathematical object: what the mined history says about
//! balances, payments and loans. The contracts of the chain's queries are
//! stated over the functions of this module.

use crate::block::BlockView;
use crate::loans::{holds_hash, place_of, recorded};
use crate::transaction::{KindView, TransactionView};
use vstd::prelude::*;

verus! {

/// What a miner is paid for a block.
pub const REWARD: u64 = 1000;

/// All the transactions of `blocks`, oldest first.
pub open spec fn history(blocks: Seq<BlockView>) -> Seq<TransactionView>
    decreases blocks.len(),
{
    if blocks.len() == 0 {
        Seq::empty()
    } else {
        history(blocks.drop_last()) + blocks.last().transactions
    }
}

/// A question that is answered by adding up amounts over the history.
pub enum Flow {
    /// What `address` received, from itself included.
    Credit { address: Seq<char> },
    /// What `address` sent, to itself included.
    Debit { address: Seq<char> },
    /// What `from` sent to `to`.
    Paid { from: Seq<char>, to: Seq<char> },
    /// What `from` sent to `to` as loans.
    Lent { from: Seq<char>, to: Seq<char> },
}

impl Flow {
    /// Whether the amount of `tx` counts towards the answer.
    pub open spec fn counts(self, tx: TransactionView) -> bool {
        match self {
            Flow::Credit { address } => tx.to == address,
            Flow::Debit { address } => tx.from == Some(address),
            Flow::Paid { from, to } => tx.from == Some(from) && tx.to == to,
            Flow::Lent { from, to } => tx.is_loan() && tx.from == Some(from) && tx.to == to,
        }
    }

    /// What `tx` adds to the answer.
    pub open spec fn weight(self, tx: TransactionView) -> nat {
        if self.counts(tx) {
            tx.amount as nat
        } else {
            0
        }
    }
}

/// The sum of the amounts of the transactions that count towards `flow`.
pub open spec fn total(transactions: Seq<TransactionView>, flow: Flow) -> nat
    decreases transactions.len(),
{
    if transactions.len() == 0 {
        0
    } else {
        total(transactions.drop_last(), flow) + flow.weight(transactions.last())
    }
}

/// What `address` holds after `transactions`: what it received less what it
/// sent. Every kind of transaction counts alike. A transaction from an
/// address to itself counts on both sides, and so changes nothing.
pub open spec fn balance(transactions: Seq<TransactionView>, address: Seq<char>) -> int {
    total(transactions, Flow::Credit { address }) - total(transactions, Flow::Debit { address })
}

/// A total narrowed to the 64 bits in which amounts are handed out.
pub open spec fn narrowed(amount: int) -> u64 {
    if amount <= 0 {
        0
    } else if amount <= u64::MAX {
        amount as u64
    } else {
        u64::MAX
    }
}

/// Whether `tx` is a loan to `address` that a query for loans reports. With
/// `signed` given, only loans whose signed state is `signed` are reported.
pub open spec fn is_reported_loan(tx: TransactionView, address: Seq<char>, signed: Option<bool>) -> bool {
    &&& tx.is_loan()
    &&& tx.to == address
    &&& signed matches Some(state) ==> tx.is_loan_signed() == state
}

/// The table of the loans to `address` among `transactions`, filed by hash in
/// the order in which they are met.
pub open spec fn loans_among(
    transactions: Seq<TransactionView>,
    address: Seq<char>,
    signed: Option<bool>,
) -> Seq<(Seq<u8>, Seq<char>, u64)>
    decreases transactions.len(),
{
    if transactions.len() == 0 {
        Seq::empty()
    } else {
        let earlier = loans_among(transactions.drop_last(), address, signed);
        let tx = transactions.last();
        if is_reported_loan(tx, address, signed) {
            recorded(earlier, tx.hash, tx.to, tx.amount)
        } else {
            earlier
        }
    }
}

/// The reward paid to `address` for mining a block.
pub open spec fn reward_to(address: Seq<char>) -> TransactionView {
    TransactionView::unsigned(None, address, REWARD, KindView::Normal)
}

/// The repayment of one loan by `borrower`: a transfer of the loan's amount
/// from the borrower to the address that the loan table holds for the loan.
/// As the table holds the borrower's own address, a repayment records that
/// the loan was met and leaves every balance as it was.
pub open spec fn repayment(borrower: Seq<char>, loan: (Seq<u8>, Seq<char>, u64)) -> TransactionView {
    TransactionView::unsigned(Some(borrower), loan.1, loan.2, KindView::Repayment)
}

/// The repayments that an incoming amount triggers: the loans are repaid in
/// the table's order, each in full, until one exceeds what is left of the
/// amount.
pub open spec fn repayments(
    loans: Seq<(Seq<u8>, Seq<char>, u64)>,
    borrower: Seq<char>,
    incoming: u64,
) -> Seq<TransactionView>
    decreases loans.len(),
{
    if loans.len() == 0 || incoming < loans[0].2 {
        Seq::empty()
    } else {
        seq![repayment(borrower, loans[0])] + repayments(
            loans.drop_first(),
            borrower,
            (incoming - loans[0].2) as u64,
        )
    }
}

/// The repayments triggered by all the transactions of `pool`, in its order,
/// against the loans that `mined` holds.
pub open spec fn all_repayments(pool: Seq<TransactionView>, mined: Seq<TransactionView>) -> Seq<
    TransactionView,
>
    decreases pool.len(),
{
    if pool.len() == 0 {
        Seq::empty()
    } else {
        let tx = pool.last();
        all_repayments(pool.drop_last(), mined) + repayments(
            loans_among(mined, tx.to, None),
            tx.to,
            tx.amount,
        )
    }
}

/// The transactions of `pool` that are carried over to the next pool: the
/// loan offers that the borrower has not signed.
pub open spec fn deferred(pool: Seq<TransactionView>) -> Seq<TransactionView>
    decreases pool.len(),
{
    if pool.len() == 0 {
        Seq::empty()
    } else if pool.last().is_unsigned_loan() {
        deferred(pool.drop_last()).push(pool.last())
    } else {
        deferred(pool.drop_last())
    }
}

/// The transactions of `pool` that go into the next block: all but the
/// unsigned loan offers.
pub open spec fn settled(pool: Seq<TransactionView>) -> Seq<TransactionView>
    decreases pool.len(),
{
    if pool.len() == 0 {
        Seq::empty()
    } else if pool.last().is_unsigned_loan() {
        settled(pool.drop_last())
    } else {
        settled(pool.drop_last()).push(pool.last())
    }
}

/// The content of the block that is mined from `pool` on top of the history
/// `mined`: the miner's reward, the repayments, and the settled transactions.
pub open spec fn block_content(
    pool: Seq<TransactionView>,
    mined: Seq<TransactionView>,
    reward_address: Seq<char>,
) -> Seq<TransactionView> {
    seq![reward_to(reward_address)] + all_repayments(pool, mined) + settled(pool)
}

/// The history grows by the transactions of each block that is appended.
pub proof fn lemma_history_push(blocks: Seq<BlockView>, block: BlockView)
    ensures
        history(blocks.push(block)) == history(blocks) + block.transactions,
{
    assert(blocks.push(block).drop_last() =~= blocks);
}

/// A total over two runs of transactions is the sum of the totals.
pub proof fn lemma_total_concat(a: Seq<TransactionView>, b: Seq<TransactionView>, flow: Flow)
    ensures
        total(a + b, flow) == total(a, flow) + total(b, flow),
    decreases b.len(),
{
    if b.len() == 0 {
        assert(a + b =~= a);
    } else {
        assert((a + b).drop_last() =~= a + b.drop_last());
        lemma_total_concat(a, b.drop_last(), flow);
    }
}

/// Every loan in a table of the loans to `address` is filed with that
/// address.
pub proof fn lemma_loans_filed_with_borrower(
    transactions: Seq<TransactionView>,
    address: Seq<char>,
    signed: Option<bool>,
)
    ensures
        forall|i: int|
            0 <= i < loans_among(transactions, address, signed).len() ==> (
            #[trigger] loans_among(transactions, address, signed)[i]).1 == address,
    decreases transactions.len(),
{
    if transactions.len() > 0 {
        let earlier = loans_among(transactions.drop_last(), address, signed);
        let tx = transactions.last();
        lemma_loans_filed_with_borrower(transactions.drop_last(), address, signed);
        if is_reported_loan(tx, address, signed) {
            let filed = recorded(earlier, tx.hash, tx.to, tx.amount);
            assert forall|i: int| 0 <= i < filed.len() implies (#[trigger] filed[i]).1
                == address by {
                if holds_hash(earlier, tx.hash) {
                    let place = place_of(earlier, tx.hash);
                    assert(0 <= place < earlier.len());
                    if i != place {
                        assert(filed[i] == earlier[i]);
                    }
                } else if i < earlier.len() {
                    assert(filed[i] == earlier[i]);
                }
            }
        }
    }
}

/// Repayments to the borrower's own address pay to every address what they
/// take from it.
pub proof fn lemma_repayments_move_nothing(
    loans: Seq<(Seq<u8>, Seq<char>, u64)>,
    borrower: Seq<char>,
    incoming: u64,
    address: Seq<char>,
)
    requires
        forall|i: int| 0 <= i < loans.len() ==> (#[trigger] loans[i]).1 == borrower,
    ensures
        balance(repayments(loans, borrower, incoming), address) == 0,
    decreases loans.len(),
{
    if loans.len() > 0 && incoming >= loans[0].2 {
        let first = seq![repayment(borrower, loans[0])];
        let rest = repayments(loans.drop_first(), borrower, (incoming - loans[0].2) as u64);
        lemma_repayments_move_nothing(
            loans.drop_first(),
            borrower,
            (incoming - loans[0].2) as u64,
            address,
        );
        lemma_total_concat(first, rest, Flow::Credit { address });
        lemma_total_concat(first, rest, Flow::Debit { address });
        lemma_total_single(first[0], Flow::Credit { address });
        lemma_total_single(first[0], Flow::Debit { address });
    }
}

/// The repayments of a block leave every balance as it was.
pub proof fn lemma_all_repayments_move_nothing(
    pool: Seq<TransactionView>,
    mined: Seq<TransactionView>,
    address: Seq<char>,
)
    ensures
        balance(all_repayments(pool, mined), address) == 0,
    decreases pool.len(),
{
    if pool.len() > 0 {
        let tx = pool.last();
        let earlier = all_repayments(pool.drop_last(), mined);
        let loans = loans_among(mined, tx.to, None);
        lemma_all_repayments_move_nothing(pool.drop_last(), mined, address);
        lemma_loans_filed_with_borrower(mined, tx.to, None);
        lemma_repayments_move_nothing(loans, tx.to, tx.amount, address);
        lemma_total_concat(earlier, repayments(loans, tx.to, tx.amount), Flow::Credit { address });
        lemma_total_concat(earlier, repayments(loans, tx.to, tx.amount), Flow::Debit { address });
    }
}

/// The total over a single transaction is what that transaction weighs.
pub proof fn lemma_total_single(tx: TransactionView, flow: Flow)
    ensures
        total(seq![tx], flow) == flow.weight(tx),
{
    assert(seq![tx].drop_last() =~= Seq::<TransactionView>::empty());
    assert(total(seq![tx].drop_last(), flow) == 0);
    assert(seq![tx].last() == tx);
}

/// What a block does to a balance: the reward goes to the miner, the
/// repayments move nothing, and the settled transactions pay and take their
/// amounts.
pub proof fn lemma_block_content_balance(
    pool: Seq<TransactionView>,
    mined: Seq<TransactionView>,
    reward_address: Seq<char>,
    address: Seq<char>,
)
    ensures
        balance(block_content(pool, mined, reward_address), address) == (if reward_address
            == address {
            REWARD as int
        } else {
            0
        }) + balance(settled(pool), address),
{
    let first = seq![reward_to(reward_address)];
    let repaid = all_repayments(pool, mined);
    lemma_all_repayments_move_nothing(pool, mined, address);
    lemma_total_single(first[0], Flow::Credit { address });
    lemma_total_single(first[0], Flow::Debit { address });
    lemma_total_concat(first, repaid, Flow::Credit { address });
    lemma_total_concat(first, repaid, Flow::Debit { address });
    lemma_total_concat(first + repaid, settled(pool), Flow::Credit { address });
    lemma_total_concat(first + repaid, settled(pool), Flow::Debit { address });
}

/// Every pending transaction is either settled or deferred, and the deferred
/// ones are exactly unsigned loan offers of the pool.
pub proof fn lemma_pool_split(pool: Seq<TransactionView>)
    ensures
        settled(pool).len() + deferred(pool).len() == pool.len(),
        forall|i: int|
            0 <= i < deferred(pool).len() ==> {
                &&& (#[trigger] deferred(pool)[i]).is_unsigned_loan()
                &&& pool.contains(deferred(pool)[i])
            },
        forall|i: int|
            0 <= i < settled(pool).len() ==> {
                &&& !(#[trigger] settled(pool)[i]).is_unsigned_loan()
                &&& pool.contains(settled(pool)[i])
            },
    decreases pool.len(),
{
    if pool.len() > 0 {
        let rest = pool.drop_last();
        lemma_pool_split(rest);
        assert forall|tx: TransactionView| rest.contains(tx) implies pool.contains(tx) by {
            let k = choose|k: int| 0 <= k < rest.len() && rest[k] == tx;
            assert(pool[k] == tx);
        }
        assert(pool.contains(pool.last())) by {
            assert(pool[pool.len() - 1] == pool.last());
        }
    }
}

} // verus!
