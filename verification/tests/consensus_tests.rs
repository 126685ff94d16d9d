use hikmalayer::block::Block;
use hikmalayer::chain::Blockchain;
use hikmalayer::governance::GovernanceConfig;
use hikmalayer::miner::{mine_next, MineError};
use hikmalayer::p2p::{accepted_message, ingest_blocks};
use hikmalayer::signer::{derive_public_key, sign, verify};
use hikmalayer::staking::{Staker, StakerRegistry};
use hikmalayer::transaction::{Transaction, TransactionType};

const PRIV_A: &str = "0000000000000000000000000000000000000000000000000000000000000001";

fn registry_with_a(stake: u64) -> StakerRegistry {
    let public = derive_public_key(PRIV_A).expect("valid key");
    StakerRegistry {
        stakers: vec![Staker {
            address: "A".to_string(),
            stake,
            public_key: Some(public),
            private_key: Some(PRIV_A.to_string()),
        }],
    }
}

fn clone_staker(s: &Staker) -> Staker {
    Staker {
        address: s.address.clone(),
        stake: s.stake,
        public_key: s.public_key.clone(),
        private_key: s.private_key.clone(),
    }
}

fn clone_block(b: &Block) -> Block {
    Block {
        index: b.index,
        timestamp: b.timestamp,
        transactions: b.transactions.clone(),
        previous_hash: b.previous_hash.clone(),
        difficulty: b.difficulty,
        nonce: b.nonce,
        hash: b.hash.clone(),
        validator: b.validator.clone(),
        validator_public_key: b.validator_public_key.clone(),
        signature: b.signature.clone(),
        staker_set_hash: b.staker_set_hash.clone(),
        staker_snapshot: b.staker_snapshot.as_ref().map(|snap| snap.iter().map(clone_staker).collect()),
    }
}

fn mined_once() -> (Blockchain, StakerRegistry) {
    let mut chain = Blockchain::new(2);
    let registry = registry_with_a(10);
    let mut pending: Vec<Transaction> = Vec::new();
    let index = mine_next(&mut chain, &registry, &mut pending, 1_700_000_000, 6).expect("mines");
    assert_eq!(index, 1);
    (chain, registry)
}

#[test]
fn single_validator_mines_bootstrap_block() {
    let (chain, _registry) = mined_once();
    assert_eq!(chain.blocks.len(), 2);
    assert_eq!(chain.blocks[1].validator.as_deref(), Some("A"));
    assert!(chain.is_valid());
    assert_eq!(
        chain.blocks[1].transactions,
        vec![
            "First mined block - Blockchain is now active!".to_string(),
            "Validator: A".to_string(),
        ]
    );
}

#[test]
fn mined_transactions_are_rendered_descriptors() {
    let (mut chain, registry) = mined_once();
    let mut pending = vec![Transaction::new(
        Some("Alice".to_string()),
        "Bob".to_string(),
        7,
        TransactionType::Transfer,
    )];
    let expected = pending[0].describe();
    let index = mine_next(&mut chain, &registry, &mut pending, 1_700_000_100, 6).expect("mines");
    assert_eq!(index, 2);
    assert!(pending.is_empty());
    assert_eq!(chain.blocks[2].transactions, vec![expected]);
    assert!(chain.is_valid());
}

#[test]
fn tamper_and_validate_and_slash() {
    let (mut chain, _) = mined_once();
    let mut registry = registry_with_a(10);
    chain.blocks[1].hash =
        "abcdef0123456789abcdef0123456789abcdef0123456789abcdef0123456789".to_string();

    let (valid, events, reason) = chain.validate_and_slash(&mut registry, 10);
    assert!(!valid);
    assert_eq!(events, vec![("A".to_string(), 1)]);
    // The signature was made over the block's real hash, so it no longer
    // verifies on the tampered one, and the signature check runs before the
    // proof-of-work recheck.
    assert_eq!(reason.as_deref(), Some("Block 1 failed signature validation"));
    assert_eq!(registry.stakers[0].stake, 9);
}

#[test]
fn untampered_chain_slashes_nothing() {
    let (chain, _) = mined_once();
    let mut registry = registry_with_a(10);
    let (valid, events, reason) = chain.validate_and_slash(&mut registry, 10);
    assert!(valid);
    assert!(events.is_empty());
    assert!(reason.is_none());
    assert_eq!(registry.stakers[0].stake, 10);
}

#[test]
fn evidence_on_genesis_is_rejected() {
    let (chain, _) = mined_once();
    let r = chain.evaluate_evidence(0);
    assert_eq!(r.err().map(|m| m), Some("Cannot slash genesis block".to_string()));
    let r = chain.evaluate_evidence(9);
    assert_eq!(r.err().map(|m| m), Some("Block index out of range".to_string()));
}

#[test]
fn sound_block_is_not_slashable() {
    let (chain, _) = mined_once();
    let r = chain.evaluate_evidence(1);
    assert_eq!(r.err().map(|m| m), Some("Block is not slashable".to_string()));
}

#[test]
fn governance_bounds_and_evidence_slash() {
    let mut governance = GovernanceConfig::default();
    assert_eq!(governance.slash_percent, 10);
    assert_eq!(governance.finality_depth, 6);

    assert!(!governance.update(0, 6));
    assert_eq!(governance.slash_percent, 10);
    assert!(governance.update(50, 3));
    assert_eq!(governance.slash_percent, 50);
    assert_eq!(governance.finality_depth, 3);
    assert!(!governance.update(101, 3));
    assert!(!governance.update(50, 0));
    assert!(!governance.update(50, 10001));

    let (mut chain, _) = mined_once();
    let mut registry = registry_with_a(10);
    chain.blocks[1].hash =
        "00000000000000000000000000000000000000000000000000000000000000ff".to_string();
    let evidence = chain.evaluate_evidence(1).expect("tampered block is slashable");
    assert_eq!(evidence.validator, "A");
    let slashed = registry.slash(&evidence.validator, governance.slash_percent);
    assert_eq!(slashed, 5);
    assert_eq!(registry.stakers[0].stake, 5);
}

#[test]
fn peer_ingest_commits_only_the_valid_prefix() {
    let mut source = Blockchain::new(2);
    let registry = registry_with_a(10);
    let mut pending: Vec<Transaction> = Vec::new();
    mine_next(&mut source, &registry, &mut pending, 1_700_000_000, 6).expect("block one");
    pending.push(Transaction::new(None, "Bob".to_string(), 1, TransactionType::Reward));
    mine_next(&mut source, &registry, &mut pending, 1_700_000_010, 6).expect("block two");

    let b1 = clone_block(&source.blocks[1]);
    let mut b2 = clone_block(&source.blocks[2]);
    b2.previous_hash =
        "1111111111111111111111111111111111111111111111111111111111111111".to_string();
    let b3 = clone_block(&source.blocks[2]);

    let mut receiver = Blockchain {
        blocks: vec![clone_block(&source.blocks[0])],
        difficulty: 2,
        finalized_height: 0,
    };
    let accepted = ingest_blocks(&mut receiver, vec![b1, b2, b3], 6);
    assert_eq!(accepted, 1);
    assert_eq!(receiver.blocks.len(), 2);
    assert_eq!(receiver.blocks[1].hash, source.blocks[1].hash);
    assert_eq!(accepted_message(accepted as u64), "Accepted 1 blocks");
}

#[test]
fn signature_roundtrip_verifies() {
    let hash = "00ab00ab00ab00ab00ab00ab00ab00ab00ab00ab00ab00ab00ab00ab00ab00ab";
    let public = derive_public_key(PRIV_A).expect("valid key");
    let signature = sign(hash, PRIV_A).expect("signs");
    assert_eq!(signature.len(), 128);
    assert!(verify(hash, &public, &signature));

    let other = "11ab00ab00ab00ab00ab00ab00ab00ab00ab00ab00ab00ab00ab00ab00ab00ab";
    assert!(!verify(other, &public, &signature));
    assert!(!verify(hash, &public, "zz"));
}

#[test]
fn mining_without_work_or_stake_reports_why() {
    let (mut chain, registry) = mined_once();
    let mut pending: Vec<Transaction> = Vec::new();
    let r = mine_next(&mut chain, &registry, &mut pending, 1_700_000_000, 6);
    assert!(matches!(r, Err(MineError::NothingToMine)));
    assert_eq!(chain.blocks.len(), 2);

    let mut fresh = Blockchain::new(2);
    let empty = StakerRegistry::new();
    let r = mine_next(&mut fresh, &empty, &mut pending, 1_700_000_000, 6);
    assert!(matches!(r, Err(MineError::NoValidators)));
    assert_eq!(fresh.blocks.len(), 1);
}
