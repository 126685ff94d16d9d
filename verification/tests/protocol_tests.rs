use hikmalayer::p2p::{P2PEnvelope, P2PPayload};
use hikmalayer::transaction::{Transaction, TransactionType};

#[test]
fn validates_fresh_envelope() {
    let env = P2PEnvelope::new("node-a".to_string(), P2PPayload::Ping);
    assert!(env.validate(60).is_ok());
}

#[test]
fn rejects_bad_version() {
    let mut env = P2PEnvelope::new("node-a".to_string(), P2PPayload::Ping);
    env.protocol_version = "bad/0".to_string();
    assert!(env.validate(60).is_err());
}

#[test]
fn envelope_checks_run_in_order() {
    let mut env = P2PEnvelope::new("node-a".to_string(), P2PPayload::Ping);
    env.protocol_version = "bad/0".to_string();
    assert_eq!(
        env.validate(60).err().as_deref(),
        Some("Unsupported P2P protocol version")
    );

    let mut env = P2PEnvelope::new(String::new(), P2PPayload::Ping);
    env.node_id = String::new();
    assert_eq!(
        env.validate(60).err().as_deref(),
        Some("Missing node_id in P2P envelope")
    );

    // Whitespace-only identifiers count as missing too.
    let mut env = P2PEnvelope::new("  \t ".to_string(), P2PPayload::Ping);
    env.node_id = "  \t ".to_string();
    assert_eq!(
        env.validate(60).err().as_deref(),
        Some("Missing node_id in P2P envelope")
    );

    let mut env = P2PEnvelope::new("node-a".to_string(), P2PPayload::Ping);
    env.message_id = " ".to_string();
    assert_eq!(
        env.validate(60).err().as_deref(),
        Some("Missing message_id in P2P envelope")
    );

    let mut env = P2PEnvelope::new("node-a".to_string(), P2PPayload::Ping);
    env.message_id = String::new();
    assert_eq!(
        env.validate(60).err().as_deref(),
        Some("Missing message_id in P2P envelope")
    );
}

#[test]
fn envelope_rejects_clock_skew_both_ways() {
    let mut env = P2PEnvelope::new("node-a".to_string(), P2PPayload::Ping);
    env.timestamp = 1_000;
    assert!(env.validate_at(1_050, 60).is_ok());
    assert_eq!(
        env.validate_at(1_061, 60).err().as_deref(),
        Some("P2P envelope timestamp exceeds allowed skew (60s)")
    );
    // The sender's clock may also run ahead of ours.
    assert!(env.validate_at(950, 60).is_ok());
    assert!(env.validate_at(900, 60).is_err());
}

#[test]
fn test_transaction_creation() {
    let tx = Transaction::new(
        Some("Alice".to_string()),
        "Bob".to_string(),
        100,
        TransactionType::Transfer,
    );
    assert_eq!(tx.amount, 100);
    assert_eq!(tx.to, "Bob");
}

#[test]
fn transaction_descriptor_is_deterministic() {
    let tx = Transaction {
        id: "abc".to_string(),
        from: Some("Alice".to_string()),
        to: "Bob".to_string(),
        amount: 100,
        transaction_type: TransactionType::Transfer,
        timestamp: 5,
    };
    assert_eq!(tx.describe(), "Transfer:Alice->Bob:100@5#abc");

    let reward = Transaction {
        id: "r1".to_string(),
        from: None,
        to: "Carol".to_string(),
        amount: 3,
        transaction_type: TransactionType::Reward,
        timestamp: 12,
    };
    assert_eq!(reward.describe(), "Reward:SYSTEM->Carol:3@12#r1");
}
