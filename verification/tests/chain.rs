use loanchain::block::Block;
use loanchain::blockchain::{Blockchain, BlockchainError};
use loanchain::keys::PrivateKey;
use loanchain::ledger::REWARD;
use loanchain::transaction::{Transaction, TransactionKind};

const START: u64 = 1_700_000_000;

fn key(seed: u8) -> PrivateKey {
    PrivateKey::from_bytes(vec![seed; 32])
}

fn address(seed: u8) -> String {
    key(seed).address().unwrap()
}

fn fresh() -> Blockchain {
    Blockchain::genesis_at(START).expect("a genesis block can be mined")
}

fn transfer(from: u8, to: u8, amount: u64) -> Transaction {
    let mut tx = Transaction::new(Some(address(from)), address(to), amount, TransactionKind::Normal);
    tx.sign_transaction(&key(from)).unwrap();
    tx
}

fn mine(chain: &mut Blockchain, miner: u8) {
    let stamp = START + chain.blocks().len() as u64;
    assert!(chain.mine_pending_transactions_at(stamp, address(miner)));
}

fn assert_sealed(block: &Block) {
    assert_eq!(&block.hash()[..2], &[0u8, 0]);
    assert_eq!(
        block.hash(),
        Block::calculate_hash(block.timestamp(), block.nonce(), block.transactions(), &block.prev_hash())
    );
}

#[test]
fn reward_is_a_thousand() {
    assert_eq!(REWARD, 1000);
}

#[test]
fn a_new_chain_holds_only_the_genesis_block() {
    let chain = fresh();
    assert_eq!(chain.blocks().len(), 1);
    let genesis = &chain.blocks()[0];
    assert_eq!(genesis.prev_hash(), [0u8; 32]);
    assert_eq!(genesis.timestamp(), START);
    assert!(genesis.transactions().is_empty());
    assert_sealed(genesis);
    assert_eq!(chain.latest_block().hash(), genesis.hash());
    assert!(chain.mempool().is_empty());
    assert!(chain.valid());
}

#[test]
fn a_chain_started_now_is_stamped_with_the_current_time() {
    let chain = Blockchain::new().unwrap();
    assert_eq!(chain.blocks().len(), 1);
    assert!(chain.blocks()[0].timestamp() >= START);
    assert_sealed(&chain.blocks()[0]);
}

#[test]
fn every_balance_is_zero_on_a_new_chain() {
    let chain = fresh();
    assert!(matches!(chain.balance_of("X"), Ok(0)));
    assert!(matches!(chain.balance_of(""), Ok(0)));
    assert!(matches!(chain.balance_of(&address(1)), Ok(0)));
    assert_eq!(chain.paid_to("X", "Y"), 0);
    assert_eq!(chain.total_loan_cost("X", "Y"), 0);
    assert!(chain.all_loans_of("X").is_empty());
    assert!(chain.loans_of("X", true).is_empty());
    assert!(chain.loans_of("X", false).is_empty());
}

#[test]
fn a_transfer_without_funds_is_refused() {
    let mut chain = fresh();
    let result = chain.add_transaction(transfer(1, 2, 100));
    assert!(matches!(result, Err(BlockchainError::BalanceTooSmall)));
    assert!(chain.mempool().is_empty());
    assert_eq!(chain.blocks().len(), 1);
}

#[test]
fn an_unsigned_transfer_is_refused() {
    let mut chain = fresh();
    mine(&mut chain, 1);
    let unsigned = Transaction::new(Some(address(1)), address(2), 100, TransactionKind::Normal);
    assert!(matches!(chain.add_transaction(unsigned), Err(BlockchainError::InvalidTransaction)));
    assert!(chain.mempool().is_empty());
}

#[test]
fn validity_is_checked_before_the_balance() {
    let mut chain = fresh();
    let unsigned = Transaction::new(Some(address(1)), address(2), 100, TransactionKind::Normal);
    assert!(matches!(chain.add_transaction(unsigned), Err(BlockchainError::InvalidTransaction)));
}

#[test]
fn mining_pays_the_reward_in_the_new_block() {
    let mut chain = fresh();
    mine(&mut chain, 1);
    assert_eq!(chain.blocks().len(), 2);
    let block = chain.latest_block();
    assert_eq!(block.transactions().len(), 1);
    let reward = &block.transactions()[0];
    assert_eq!(reward.from(), &None);
    assert_eq!(reward.to(), address(1));
    assert_eq!(reward.amount(), REWARD);
    assert_eq!(reward.kind(), &TransactionKind::Normal);
    assert!(matches!(chain.balance_of(&address(1)), Ok(1000)));
    assert!(chain.mempool().is_empty());
}

#[test]
fn a_transfer_moves_funds_when_it_is_mined() {
    let mut chain = fresh();
    mine(&mut chain, 1);
    assert!(chain.add_transaction(transfer(1, 2, 100)).is_ok());
    assert_eq!(chain.mempool().len(), 1);
    assert!(matches!(chain.balance_of(&address(1)), Ok(1000)));
    assert!(matches!(chain.balance_of(&address(2)), Ok(0)));
    mine(&mut chain, 2);
    assert!(matches!(chain.balance_of(&address(2)), Ok(1100)));
    assert!(matches!(chain.balance_of(&address(1)), Ok(900)));
    assert_eq!(chain.paid_to(&address(1), &address(2)), 100);
    assert_eq!(chain.paid_to(&address(2), &address(1)), 0);
    assert_eq!(chain.total_loan_cost(&address(1), &address(2)), 0);
    let block = chain.latest_block();
    assert_eq!(block.transactions().len(), 2);
    assert_eq!(block.transactions()[0].from(), &None);
    assert_eq!(block.transactions()[1].from(), &Some(address(1)));
    assert!(chain.mempool().is_empty());
}

#[test]
fn a_transfer_of_the_whole_balance_is_accepted_and_one_more_is_not() {
    let mut chain = fresh();
    mine(&mut chain, 1);
    assert!(matches!(
        chain.add_transaction(transfer(1, 2, 1001)),
        Err(BlockchainError::BalanceTooSmall)
    ));
    assert!(chain.add_transaction(transfer(1, 2, 1000)).is_ok());
    mine(&mut chain, 3);
    assert!(matches!(chain.balance_of(&address(1)), Ok(0)));
    assert!(matches!(chain.balance_of(&address(2)), Ok(1000)));
}

#[test]
fn blocks_are_linked_and_sealed() {
    let mut chain = fresh();
    mine(&mut chain, 1);
    chain.add_transaction(transfer(1, 2, 10)).unwrap();
    mine(&mut chain, 2);
    mine(&mut chain, 3);
    let blocks = chain.blocks();
    assert_eq!(blocks.len(), 4);
    for i in 1..blocks.len() {
        assert_eq!(blocks[i].prev_hash(), blocks[i - 1].hash());
        assert_eq!(blocks[i].timestamp(), START + i as u64);
    }
    for block in blocks {
        assert_sealed(block);
        assert!(block.valid_transactions());
    }
    assert!(chain.valid());
    assert_eq!(chain.latest_block().hash(), blocks[3].hash());
}

#[test]
fn asking_for_a_balance_twice_gives_the_same_answer() {
    let mut chain = fresh();
    mine(&mut chain, 1);
    chain.add_transaction(transfer(1, 2, 250)).unwrap();
    mine(&mut chain, 1);
    let first = chain.balance_of(&address(1)).unwrap();
    let second = chain.balance_of(&address(1)).unwrap();
    assert_eq!(first, 1750);
    assert_eq!(first, second);
    chain.add_transaction(transfer(1, 2, 50)).unwrap();
    assert_eq!(chain.balance_of(&address(1)).unwrap(), first);
}

#[test]
fn pending_transactions_are_not_counted_against_the_sender() {
    let mut chain = fresh();
    mine(&mut chain, 1);
    assert!(chain.add_transaction(transfer(1, 2, 600)).is_ok());
    assert!(chain.add_transaction(transfer(1, 3, 600)).is_ok());
    assert_eq!(chain.mempool().len(), 2);
    mine(&mut chain, 4);
    assert!(matches!(chain.balance_of(&address(1)), Err(BlockchainError::NegativeBalance)));
    assert!(matches!(chain.balance_of(&address(2)), Ok(600)));
    assert!(matches!(
        chain.add_transaction(transfer(1, 2, 0)),
        Err(BlockchainError::BalanceTooSmall)
    ));
}

#[test]
fn a_transaction_without_sender_needs_no_funds() {
    let mut chain = fresh();
    let grant = Transaction::new(None, address(2), 77, TransactionKind::Normal);
    assert!(chain.add_transaction(grant).is_ok());
    mine(&mut chain, 1);
    assert!(matches!(chain.balance_of(&address(2)), Ok(77)));
    assert_eq!(chain.latest_block().transactions().len(), 2);
}

#[test]
fn a_balance_beyond_64_bits_is_reported_as_the_largest_amount() {
    let mut chain = fresh();
    chain.add_transaction(Transaction::new(None, address(2), u64::MAX, TransactionKind::Normal)).unwrap();
    chain.add_transaction(Transaction::new(None, address(2), u64::MAX, TransactionKind::Normal)).unwrap();
    mine(&mut chain, 2);
    assert!(matches!(chain.balance_of(&address(2)), Ok(u64::MAX)));
    chain.add_transaction(transfer(2, 3, u64::MAX)).unwrap();
    chain.add_transaction(transfer(2, 3, u64::MAX)).unwrap();
    mine(&mut chain, 1);
    assert_eq!(chain.paid_to(&address(2), &address(3)), u64::MAX);
    assert!(matches!(chain.balance_of(&address(3)), Ok(u64::MAX)));
    assert!(matches!(chain.balance_of(&address(2)), Ok(1000)));
    chain.add_transaction(transfer(2, 3, 1000)).unwrap();
    chain.add_transaction(transfer(2, 3, 1)).unwrap();
    mine(&mut chain, 1);
    assert!(matches!(chain.balance_of(&address(2)), Err(BlockchainError::NegativeBalance)));
}

#[test]
fn a_transfer_to_oneself_leaves_the_balance_as_it_was() {
    let mut chain = fresh();
    mine(&mut chain, 1);
    chain.add_transaction(transfer(1, 1, 300)).unwrap();
    mine(&mut chain, 2);
    assert!(matches!(chain.balance_of(&address(1)), Ok(1000)));
    assert_eq!(chain.paid_to(&address(1), &address(1)), 300);
    chain.add_transaction(transfer(1, 1, 1000)).unwrap();
    chain.add_transaction(transfer(1, 2, 5)).unwrap();
    mine(&mut chain, 2);
    assert!(matches!(chain.balance_of(&address(1)), Ok(995)));
    assert!(matches!(chain.balance_of(&address(2)), Ok(2005)));
}

#[test]
fn mining_with_the_clock_appends_a_block() {
    let mut chain = fresh();
    assert!(chain.mine_pending_transactions(address(1)));
    assert_eq!(chain.blocks().len(), 2);
    assert!(chain.latest_block().timestamp() >= START);
    assert_eq!(chain.latest_block().prev_hash(), chain.blocks()[0].hash());
    assert!(matches!(chain.balance_of(&address(1)), Ok(1000)));
}
