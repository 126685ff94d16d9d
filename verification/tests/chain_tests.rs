use hikmalayer::block::{Block, verify_pow};
use hikmalayer::chain::Blockchain;
use hikmalayer::staking::{Staker, set_hash};

fn hex_chars_only(s: &str) -> bool {
    s.chars().all(|c| c.is_ascii_hexdigit() && !c.is_ascii_uppercase())
}

#[test]
fn test_block_creation() {
    let block = Block::new(1, vec!["Tx".to_string()], "abc".to_string(), 2);
    assert_eq!(block.index, 1);
}

#[test]
fn test_blockchain_addition() {
    let mut chain = Blockchain::default();
    assert_eq!(chain.blocks.len(), 1);

    chain.add_block(vec!["Tx1".to_string()]);
    assert_eq!(chain.blocks.len(), 2);
}

#[test]
fn test_chain_validation() {
    let mut chain = Blockchain::default();
    chain.add_block(vec!["Tx1".to_string()]);
    // Full-chain replay demands the validator fields, commitment, selection
    // and signature of every non-genesis block; a bare mined block has none
    // of them, so the chain is invalid.
    assert!(!chain.is_valid());
}

#[test]
fn genesis_only_chain_is_valid() {
    let chain = Blockchain::new(2);
    assert!(chain.is_valid());
    assert_eq!(chain.blocks.len(), 1);
    assert!(chain.latest_hash().starts_with("00"));
}

#[test]
fn block_hash_recomputes_from_fields() {
    let block = Block::new(0, vec!["x".to_string()], "0".to_string(), 1);
    assert!(verify_pow(&block));
    assert_eq!(block.hash.len(), 64);
    assert!(hex_chars_only(&block.hash));

    let mut tampered = block;
    tampered.nonce = tampered.nonce.wrapping_add(1);
    assert!(!verify_pow(&tampered));
}

#[test]
fn added_blocks_carry_pow_prefix() {
    let mut chain = Blockchain::new(2);
    chain.add_block(vec!["a".to_string()]);
    chain.add_block(vec!["b".to_string()]);
    for block in &chain.blocks {
        assert!(block.hash.starts_with("00"));
        assert!(verify_pow(block));
    }
}

#[test]
fn finality_marker_is_monotonic() {
    let mut chain = Blockchain::new(1);
    for i in 0..7 {
        chain.add_block(vec![format!("tx{}", i)]);
    }
    assert_eq!(chain.blocks.len(), 8);
    assert_eq!(chain.finalized_height, 0);
    chain.apply_finality(2);
    assert_eq!(chain.finalized_height, 5);
    chain.apply_finality(6);
    assert_eq!(chain.finalized_height, 5);
    chain.apply_finality(0);
    assert_eq!(chain.finalized_height, 7);
}

#[test]
fn set_hash_of_empty_snapshot_is_sha256_of_nothing() {
    let snapshot: Vec<Staker> = Vec::new();
    assert_eq!(
        set_hash(&snapshot),
        "e3b0c44298fc1c149afbf4c8996fb92427ae41e4649b934ca495991b7852b855"
    );
}

#[test]
fn set_hash_covers_address_stake_and_key() {
    let a = vec![Staker {
        address: "A".to_string(),
        stake: 10,
        public_key: Some("04ab".to_string()),
        private_key: Some("hidden".to_string()),
    }];
    let b = vec![Staker {
        address: "A".to_string(),
        stake: 11,
        public_key: Some("04ab".to_string()),
        private_key: Some("hidden".to_string()),
    }];
    let c = vec![Staker {
        address: "A".to_string(),
        stake: 10,
        public_key: Some("04ab".to_string()),
        private_key: None,
    }];
    assert_ne!(set_hash(&a), set_hash(&b));
    assert_eq!(set_hash(&a), set_hash(&c));
    assert_eq!(set_hash(&a).len(), 64);
}
