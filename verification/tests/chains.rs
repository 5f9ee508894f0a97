use blockchain::{calculate_block_hash, BlockChain, Timestamp, Transaction};

const GENESIS_HASH: &str = "3973e022e93220f9212c18d0d0c543ae7c309e46640da93a4a0314de999f5112";

fn payment(sender: &str, recipient: &str, amount: u64) -> Transaction {
    Transaction::stamped(
        sender.to_string(),
        recipient.to_string(),
        amount,
        Timestamp { secs: 1_700_000_000, nanos: 0 },
    )
}

#[test]
fn new_chain_holds_the_genesis_block_only() {
    let chain = BlockChain::new();
    assert_eq!(chain.len(), 1);
    let genesis = chain.block(0).unwrap();
    assert_eq!(genesis.previous_hash(), "");
    assert_eq!(genesis.index(), 0);
    assert!(genesis.transactions().is_empty());
    assert_eq!(genesis.hash(), GENESIS_HASH);
    assert!(chain.block(1).is_none());
}

#[test]
fn new_chain_is_valid() {
    let chain = BlockChain::new();
    assert!(chain.validate());
    assert_eq!(chain.first_invalid(), None);
}

#[test]
fn empty_block_after_genesis_has_another_hash() {
    let mut chain = BlockChain::new();
    let index = chain.append_block(Vec::new());
    assert_eq!(index, 1);
    assert_eq!(chain.len(), 2);
    let genesis = chain.block(0).unwrap();
    let block = chain.block(1).unwrap();
    assert!(block.transactions().is_empty());
    assert_ne!(block.hash(), genesis.hash());
    assert_eq!(block.hash(), "d5a09c0df371c11e87b31b45af49fdf78d999f4e714fb8492d3e692ae12a4d4d");
}

#[test]
fn appended_block_names_the_hash_of_the_block_before() {
    let mut chain = BlockChain::new();
    for round in 0..5u64 {
        let index = chain.append_block(vec![payment("w1", "w2", round)]);
        assert_eq!(index, chain.len() - 1);
        let block = chain.block(index).unwrap();
        let before = chain.block(index - 1).unwrap();
        assert_eq!(block.previous_hash(), before.hash());
        assert_eq!(block.index(), index);
        assert_eq!(
            block.hash(),
            &calculate_block_hash(block.previous_hash(), block.transactions())
        );
    }
    assert_eq!(chain.len(), 6);
}

#[test]
fn only_the_genesis_block_carries_the_sentinel() {
    let mut chain = BlockChain::new();
    chain.append_block(Vec::new());
    chain.append_block(vec![payment("w1", "w2", 10)]);
    assert_eq!(chain.block(0).unwrap().previous_hash(), "");
    for index in 1..chain.len() {
        let block = chain.block(index).unwrap();
        assert_ne!(block.previous_hash(), "");
        assert_eq!(block.previous_hash().len(), 64);
    }
    for index in 0..chain.len() {
        assert_ne!(chain.block(index).unwrap().hash(), "");
    }
}

#[test]
fn chain_grown_by_appending_is_valid() {
    let mut chain = BlockChain::new();
    chain.append_block(vec![payment("w1", "w2", 10), payment("w2", "w1", 20), payment("w4", "w2", 14)]);
    assert!(chain.validate());
    chain.append_block(vec![payment("w5", "w1", 18), payment("w2", "w3", 23)]);
    assert!(chain.validate());
    chain.append_block(vec![payment("w5", "w4", 5), payment("w2", "w5", 16)]);
    assert!(chain.validate());
    assert_eq!(chain.first_invalid(), None);
    assert_eq!(
        chain.block(3).unwrap().hash(),
        "20ff4406a1ea9babc82e75657450b1080c5da5915935593b87dbe3b079064882"
    );
}

#[test]
fn transaction_for_the_last_block_keeps_the_chain_valid() {
    let mut chain = BlockChain::new();
    assert!(chain.push_transaction(0, payment("w1", "w2", 10)));
    assert!(chain.validate());
    chain.append_block(Vec::new());
    assert!(chain.create_transaction(1, "w2".to_string(), "w1".to_string(), 20));
    assert!(chain.push_transaction(1, payment("w4", "w2", 14)));
    assert!(chain.validate());
    assert_eq!(chain.block(0).unwrap().transactions().len(), 1);
    assert_eq!(chain.block(1).unwrap().transactions().len(), 2);
    assert_eq!(chain.block(1).unwrap().previous_hash(), chain.block(0).unwrap().hash());
}

#[test]
fn transaction_for_an_earlier_block_breaks_the_link_behind_it() {
    let mut chain = BlockChain::new();
    chain.append_block(vec![payment("w1", "w2", 10)]);
    chain.append_block(vec![payment("w2", "w1", 20)]);
    chain.append_block(vec![payment("w4", "w2", 14)]);
    assert!(chain.validate());
    let old_hash = chain.block(1).unwrap().hash().clone();

    assert!(chain.push_transaction(1, payment("w9", "w9", 1)));

    let changed = chain.block(1).unwrap();
    assert_ne!(changed.hash(), &old_hash);
    assert_eq!(changed.hash(), &calculate_block_hash(changed.previous_hash(), changed.transactions()));
    assert_eq!(chain.block(2).unwrap().previous_hash(), &old_hash);
    assert!(!chain.validate());
    assert_eq!(chain.first_invalid(), Some(2));
}

#[test]
fn first_invalid_names_the_earliest_broken_link() {
    let mut chain = BlockChain::new();
    chain.append_block(Vec::new());
    chain.append_block(Vec::new());
    chain.append_block(Vec::new());
    assert!(chain.create_transaction(2, "a".to_string(), "b".to_string(), 1));
    assert_eq!(chain.first_invalid(), Some(3));
    assert!(chain.create_transaction(0, "a".to_string(), "b".to_string(), 1));
    assert_eq!(chain.first_invalid(), Some(1));
    assert!(!chain.validate());
}

#[test]
fn transaction_for_a_missing_block_changes_nothing() {
    let mut chain = BlockChain::new();
    chain.append_block(vec![payment("w1", "w2", 10)]);
    let hashes = [chain.block(0).unwrap().hash().clone(), chain.block(1).unwrap().hash().clone()];
    assert!(!chain.push_transaction(2, payment("w1", "w2", 10)));
    assert!(!chain.create_transaction(usize::MAX, "w1".to_string(), "w2".to_string(), 10));
    assert_eq!(chain.len(), 2);
    assert_eq!(chain.block(0).unwrap().hash(), &hashes[0]);
    assert_eq!(chain.block(1).unwrap().hash(), &hashes[1]);
    assert_eq!(chain.block(1).unwrap().transactions().len(), 1);
    assert!(chain.validate());
}

#[test]
fn create_transaction_on_the_chain_stores_the_fields() {
    let mut chain = BlockChain::new();
    chain.append_block(Vec::new());
    assert!(chain.create_transaction(1, "w5".to_string(), "w4".to_string(), 5));
    let block = chain.block(1).unwrap();
    assert_eq!(block.transactions().len(), 1);
    assert_eq!(block.transactions()[0].sender_address(), "w5");
    assert_eq!(block.transactions()[0].recipient_address(), "w4");
    assert_eq!(block.transactions()[0].amount(), 5);
    assert_eq!(block.hash(), &sha256::digest(format!("{}-w5-w4-5-", GENESIS_HASH)));
}
