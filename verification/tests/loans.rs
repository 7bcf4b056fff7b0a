use loanchain::blockchain::{Blockchain, BlockchainError};
use loanchain::keys::PrivateKey;
use loanchain::transaction::{Transaction, TransactionKind};

const START: u64 = 1_600_000_000;
const LENDER: u8 = 1;
const BORROWER: u8 = 2;
const MINER: u8 = 3;

fn key(seed: u8) -> PrivateKey {
    PrivateKey::from_bytes(vec![seed; 32])
}

fn address(seed: u8) -> String {
    key(seed).address().unwrap()
}

fn transfer(from: u8, to: u8, amount: u64) -> Transaction {
    let mut tx = Transaction::new(Some(address(from)), address(to), amount, TransactionKind::Normal);
    tx.sign_transaction(&key(from)).unwrap();
    tx
}

fn offer(from: u8, to: u8, amount: u64) -> Transaction {
    let mut tx = Transaction::new(Some(address(from)), address(to), amount, TransactionKind::Loan(None));
    tx.sign_transaction(&key(from)).unwrap();
    tx
}

fn mine(chain: &mut Blockchain, miner: u8) {
    let stamp = START + chain.blocks().len() as u64;
    assert!(chain.mine_pending_transactions_at(stamp, address(miner)));
}

/// A chain on which the lender and the miner each hold one reward.
fn funded() -> Blockchain {
    let mut chain = Blockchain::genesis_at(START).unwrap();
    mine(&mut chain, LENDER);
    mine(&mut chain, MINER);
    chain
}

/// A chain on which a loan of 300 from the lender to the borrower is mined.
fn with_mined_loan() -> (Blockchain, [u8; 32]) {
    let mut chain = funded();
    let loan = offer(LENDER, BORROWER, 300);
    let hash = loan.hash();
    chain.add_transaction(loan).unwrap();
    chain.sign_loan(&key(BORROWER), hash).unwrap();
    mine(&mut chain, MINER);
    (chain, hash)
}

#[test]
fn a_loan_offer_waits_in_the_pool_as_unsigned() {
    let mut chain = funded();
    let loan = offer(LENDER, BORROWER, 300);
    let hash = loan.hash();
    assert!(chain.add_transaction(loan).is_ok());
    let unsigned = chain.loans_of(&address(BORROWER), false);
    assert_eq!(unsigned.len(), 1);
    assert_eq!(unsigned.get_index(0), Some((&hash, &(address(BORROWER), 300))));
    assert!(chain.loans_of(&address(BORROWER), true).is_empty());
    assert!(chain.loans_of(&address(LENDER), false).is_empty());
    assert!(chain.all_loans_of(&address(BORROWER)).is_empty());
}

#[test]
fn a_loan_offer_needs_the_lenders_funds() {
    let mut chain = funded();
    assert!(matches!(
        chain.add_transaction(offer(LENDER, BORROWER, 1001)),
        Err(BlockchainError::BalanceTooSmall)
    ));
    assert!(matches!(
        chain.add_transaction(offer(BORROWER, LENDER, 1)),
        Err(BlockchainError::BalanceTooSmall)
    ));
}

#[test]
fn an_unsigned_loan_offer_is_carried_over_by_mining() {
    let mut chain = funded();
    let loan = offer(LENDER, BORROWER, 300);
    let hash = loan.hash();
    chain.add_transaction(loan).unwrap();
    chain.add_transaction(transfer(LENDER, MINER, 10)).unwrap();
    mine(&mut chain, MINER);
    assert_eq!(chain.mempool().len(), 1);
    assert_eq!(chain.mempool()[0].hash(), hash);
    let block = chain.latest_block();
    assert_eq!(block.transactions().len(), 2);
    assert_eq!(block.transactions()[0].from(), &None);
    assert_eq!(block.transactions()[1].amount(), 10);
    assert!(matches!(chain.balance_of(&address(BORROWER)), Ok(0)));
    assert!(matches!(chain.balance_of(&address(LENDER)), Ok(990)));
    assert!(chain.all_loans_of(&address(BORROWER)).is_empty());
    mine(&mut chain, MINER);
    assert_eq!(chain.mempool().len(), 1);
    assert_eq!(chain.latest_block().transactions().len(), 1);
}

#[test]
fn signing_a_loan_that_is_not_pending_fails() {
    let mut chain = funded();
    chain.add_transaction(offer(LENDER, BORROWER, 300)).unwrap();
    let result = chain.sign_loan(&key(BORROWER), [0u8; 32]);
    assert!(matches!(result, Err(BlockchainError::NoTransactionFound)));
    assert_eq!(chain.loans_of(&address(BORROWER), false).len(), 1);
    let mut empty = Blockchain::genesis_at(START).unwrap();
    assert!(matches!(
        empty.sign_loan(&key(BORROWER), [0u8; 32]),
        Err(BlockchainError::NoTransactionFound)
    ));
}

#[test]
fn only_the_borrower_can_sign_a_pending_loan() {
    let mut chain = funded();
    let loan = offer(LENDER, BORROWER, 300);
    let hash = loan.hash();
    chain.add_transaction(loan).unwrap();
    assert!(matches!(chain.sign_loan(&key(LENDER), hash), Err(BlockchainError::InvalidSigner)));
    assert!(matches!(chain.sign_loan(&key(MINER), hash), Err(BlockchainError::InvalidSigner)));
    assert!(matches!(
        chain.sign_loan(&PrivateKey::from_bytes(vec![0u8; 32]), hash),
        Err(BlockchainError::InvalidSigner)
    ));
    assert_eq!(chain.loans_of(&address(BORROWER), false).len(), 1);
    assert!(chain.loans_of(&address(BORROWER), true).is_empty());
    assert_eq!(chain.mempool()[0].kind(), &TransactionKind::Loan(None));
}

#[test]
fn a_pending_transfer_cannot_be_counter_signed() {
    let mut chain = funded();
    let tx = transfer(LENDER, BORROWER, 5);
    let hash = tx.hash();
    chain.add_transaction(tx).unwrap();
    assert!(matches!(chain.sign_loan(&key(BORROWER), hash), Err(BlockchainError::InvalidSigner)));
    assert_eq!(chain.mempool()[0].kind(), &TransactionKind::Normal);
}

#[test]
fn a_signed_loan_is_reported_as_signed_and_mined() {
    let mut chain = funded();
    let loan = offer(LENDER, BORROWER, 300);
    let hash = loan.hash();
    chain.add_transaction(loan).unwrap();
    assert!(chain.sign_loan(&key(BORROWER), hash).is_ok());
    let signed = chain.loans_of(&address(BORROWER), true);
    assert_eq!(signed.len(), 1);
    assert_eq!(signed.get(&hash), Some(&(address(BORROWER), 300)));
    assert!(chain.loans_of(&address(BORROWER), false).is_empty());
    assert!(chain.mempool()[0].loan_signed());
    assert_eq!(chain.mempool()[0].hash(), hash);

    mine(&mut chain, MINER);
    assert!(chain.mempool().is_empty());
    let block = chain.latest_block();
    assert_eq!(block.transactions().len(), 2);
    assert_eq!(block.transactions()[1].hash(), hash);
    let mined = chain.all_loans_of(&address(BORROWER));
    assert_eq!(mined.len(), 1);
    assert_eq!(mined.get_index(0), Some((&hash, &(address(BORROWER), 300))));
    assert!(chain.all_loans_of(&address(LENDER)).is_empty());
    assert!(chain.loans_of(&address(BORROWER), true).is_empty());
    assert!(matches!(chain.balance_of(&address(BORROWER)), Ok(300)));
    assert!(matches!(chain.balance_of(&address(LENDER)), Ok(700)));
    assert_eq!(chain.total_loan_cost(&address(LENDER), &address(BORROWER)), 300);
    assert_eq!(chain.paid_to(&address(LENDER), &address(BORROWER)), 300);
    assert_eq!(chain.total_loan_cost(&address(BORROWER), &address(LENDER)), 0);
    assert!(chain.valid());
}

#[test]
fn the_first_of_two_pending_loans_with_one_hash_is_signed() {
    let mut chain = funded();
    let hash = offer(LENDER, BORROWER, 300).hash();
    chain.add_transaction(offer(LENDER, BORROWER, 300)).unwrap();
    chain.add_transaction(offer(LENDER, BORROWER, 300)).unwrap();
    assert_eq!(chain.loans_of(&address(BORROWER), false).len(), 1);
    chain.sign_loan(&key(BORROWER), hash).unwrap();
    assert!(chain.mempool()[0].loan_signed());
    assert!(!chain.mempool()[1].loan_signed());
    assert_eq!(chain.loans_of(&address(BORROWER), true).len(), 1);
    assert_eq!(chain.loans_of(&address(BORROWER), false).len(), 1);
}

#[test]
fn an_incoming_payment_triggers_the_repayment_of_a_mined_loan() {
    let (mut chain, _) = with_mined_loan();
    chain.add_transaction(transfer(MINER, BORROWER, 500)).unwrap();
    mine(&mut chain, MINER);
    let block = chain.latest_block();
    assert_eq!(block.transactions().len(), 3);
    assert_eq!(block.transactions()[0].from(), &None);
    let repayment = &block.transactions()[1];
    assert_eq!(repayment.kind(), &TransactionKind::Repayment);
    assert_eq!(repayment.from(), &Some(address(BORROWER)));
    assert_eq!(repayment.to(), address(BORROWER));
    assert_eq!(repayment.amount(), 300);
    assert!(repayment.signature().is_empty());
    assert_eq!(block.transactions()[2].amount(), 500);
    assert!(matches!(chain.balance_of(&address(BORROWER)), Ok(800)));
    assert!(matches!(chain.balance_of(&address(LENDER)), Ok(700)));
    assert!(!block.valid_transactions());
    assert!(!chain.valid());
}

#[test]
fn a_payment_smaller_than_the_loan_triggers_no_repayment() {
    let (mut chain, _) = with_mined_loan();
    chain.add_transaction(transfer(MINER, BORROWER, 299)).unwrap();
    mine(&mut chain, MINER);
    assert_eq!(chain.latest_block().transactions().len(), 2);
    assert!(matches!(chain.balance_of(&address(BORROWER)), Ok(599)));
    assert!(chain.valid());
}

#[test]
fn loans_are_repaid_oldest_first_until_the_payment_is_used_up() {
    let (mut chain, _) = with_mined_loan();
    for amount in [200u64, 400] {
        let loan = offer(LENDER, BORROWER, amount);
        let hash = loan.hash();
        chain.add_transaction(loan).unwrap();
        chain.sign_loan(&key(BORROWER), hash).unwrap();
    }
    mine(&mut chain, MINER);
    let loans = chain.all_loans_of(&address(BORROWER));
    let amounts: Vec<u64> = loans.values().map(|loan| loan.1).collect();
    assert_eq!(amounts, vec![300, 200, 400]);

    chain.add_transaction(transfer(MINER, BORROWER, 600)).unwrap();
    mine(&mut chain, MINER);
    let block = chain.latest_block();
    let kinds: Vec<(&TransactionKind, u64)> =
        block.transactions().iter().map(|tx| (tx.kind(), tx.amount())).collect();
    assert_eq!(
        kinds,
        vec![
            (&TransactionKind::Normal, 1000),
            (&TransactionKind::Repayment, 300),
            (&TransactionKind::Repayment, 200),
            (&TransactionKind::Normal, 600),
        ]
    );
    assert!(matches!(chain.balance_of(&address(BORROWER)), Ok(1500)));
}

#[test]
fn a_deferred_offer_still_triggers_repayments() {
    let (mut chain, _) = with_mined_loan();
    chain.add_transaction(transfer(BORROWER, MINER, 300)).unwrap();
    mine(&mut chain, MINER);
    assert!(matches!(chain.balance_of(&address(BORROWER)), Ok(0)));
    chain.add_transaction(offer(LENDER, BORROWER, 300)).unwrap();
    mine(&mut chain, MINER);
    assert_eq!(chain.mempool().len(), 1);
    let block = chain.latest_block();
    assert_eq!(block.transactions().len(), 2);
    assert_eq!(block.transactions()[1].kind(), &TransactionKind::Repayment);
    assert_eq!(block.transactions()[1].amount(), 300);
    assert!(matches!(chain.balance_of(&address(BORROWER)), Ok(0)));
}

#[test]
fn mining_leaves_only_unsigned_offers_in_the_pool() {
    let mut chain = funded();
    let open = offer(LENDER, BORROWER, 100);
    let open_hash = open.hash();
    let agreed = offer(LENDER, BORROWER, 200);
    let agreed_hash = agreed.hash();
    chain.add_transaction(transfer(LENDER, MINER, 1)).unwrap();
    chain.add_transaction(open).unwrap();
    chain.add_transaction(agreed).unwrap();
    chain.add_transaction(transfer(MINER, LENDER, 2)).unwrap();
    chain.sign_loan(&key(BORROWER), agreed_hash).unwrap();
    mine(&mut chain, MINER);
    assert_eq!(chain.mempool().len(), 1);
    assert_eq!(chain.mempool()[0].hash(), open_hash);
    let block = chain.latest_block();
    let amounts: Vec<u64> = block.transactions().iter().map(|tx| tx.amount()).collect();
    assert_eq!(amounts, vec![1000, 1, 200, 2]);
    assert_eq!(block.transactions()[2].hash(), agreed_hash);
}
