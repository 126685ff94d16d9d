use hikmalayer::auth::{recover_address_from_signature, verify_signature, AuthManager};
use sha3::Digest;

#[test]
fn test_signature_format() {
    // Test that we can at least handle the format correctly
    let test_sig = "0x1234567890abcdef1234567890abcdef1234567890abcdef1234567890abcdef1234567890abcdef1234567890abcdef1234567890abcdef1234567890abcdef12";
    assert!(test_sig.len() == 132); // 0x + 130 hex chars = 65 bytes

    let without_prefix = test_sig.strip_prefix("0x").unwrap();
    assert!(without_prefix.len() == 130);
}

#[test]
fn nonce_session_lifecycle() {
    let mut auth = AuthManager::new();
    let nonce = auth.generate_nonce("0xabc");
    assert_eq!(nonce.len(), 36);
    assert!(auth.verify_nonce("0xabc", &nonce));
    assert!(!auth.verify_nonce("0xabc", "wrong"));
    assert!(!auth.verify_nonce("0xdef", &nonce));

    let token = auth.verify_session("missing");
    assert!(token.is_none());

    let token = auth.create_session("0xabc");
    assert_eq!(auth.verify_session(&token).as_deref(), Some("0xabc"));
    // The nonce is consumed when the session opens.
    assert!(!auth.verify_nonce("0xabc", &nonce));

    auth.revoke_session(&token);
    assert!(auth.verify_session(&token).is_none());
}

/// Builds a real `personal_sign`-style signature in the wallet's format:
/// prefix the message, hash with Keccak-256, sign recoverably, and append
/// `recovery id + 27` as the 65th byte.
fn wallet_sign(message: &str, key_bytes: [u8; 32]) -> (String, String) {
    let secret = secp256k1::SecretKey::from_secret_bytes(key_bytes).expect("key in range");
    let prefixed = format!("\x19Ethereum Signed Message:\n{}{}", message.len(), message);
    let digest: [u8; 32] = sha3::Keccak256::digest(prefixed.as_bytes()).into();
    let signature = secp256k1::ecdsa::RecoverableSignature::sign_ecdsa_recoverable(
        secp256k1::Message::from_digest(digest),
        &secret,
    );
    let (recovery_id, compact) = signature.serialize_compact();
    let mut bytes = compact.to_vec();
    bytes.push(recovery_id.to_u8() + 27);
    let signature_hex = format!("0x{}", hex::encode(bytes));

    let public = secp256k1::PublicKey::from_secret_key(&secret);
    let key_hash = sha3::Keccak256::digest(&public.serialize_uncompressed()[1..]);
    let address = format!("0x{}", hex::encode(&key_hash[12..]));
    (signature_hex, address)
}

#[test]
fn recovers_the_signing_address() {
    let (signature, address) = wallet_sign("hello", [7u8; 32]);
    let recovered = recover_address_from_signature("hello", &signature).expect("recovers");
    assert_eq!(recovered, address);
    assert_eq!(recovered.len(), 42);
}

#[test]
fn verify_signature_is_case_insensitive_and_strict() {
    let (signature, address) = wallet_sign("log me in", [9u8; 32]);
    assert!(verify_signature(&address, "log me in", &signature));
    assert!(verify_signature(&address.to_uppercase(), "log me in", &signature));
    // A different message recovers a different key, so the address no longer
    // matches.
    assert!(!verify_signature(&address, "log me out", &signature));
    assert!(!verify_signature(&address, "log me in", "0xnothex"));
    assert!(!verify_signature("0x0000000000000000000000000000000000000000", "log me in", &signature));
}
