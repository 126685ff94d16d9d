//! ECDSA over secp256k1 on block hashes, through the `secp256k1` crate. The
//! hex block hash is interpreted as the 32-byte message digest directly;
//! signatures travel as lowercase hex of the 64-byte compact encoding and
//! public keys as lowercase hex of the 65-byte uncompressed serialization.

use vstd::prelude::*;

verus! {

/// The compact signature (as lowercase hex) that signing `message_hash` with
/// `private_key` produces. Deterministic: the `secp256k1` crate signs with
/// RFC 6979 nonces, so the result depends on the two arguments alone.
pub uninterp spec fn ecdsa_sig_of(message_hash: Seq<char>, private_key: Seq<char>) -> Seq<char>;

/// Whether `signature` is a valid ECDSA signature on `message_hash` under
/// `public_key`, as the `secp256k1` crate judges it (false on any decoding
/// failure). A pure function of the three arguments.
pub uninterp spec fn ecdsa_verifies(
    message_hash: Seq<char>,
    public_key: Seq<char>,
    signature: Seq<char>,
) -> bool;

/// The uncompressed public key (as lowercase hex) derived from a private
/// key, as the `secp256k1` crate computes it.
pub uninterp spec fn pubkey_of(private_key: Seq<char>) -> Seq<char>;

/// Whether signing succeeds on this hash and key: both must decode to 32
/// bytes and the key must lie in the curve's range. A pure function of the
/// two arguments, so signing either always succeeds or always fails on a
/// given pair.
pub uninterp spec fn ecdsa_signable(message_hash: Seq<char>, private_key: Seq<char>) -> bool;

/// Relies on secp256k1::ecdsa::sign (RFC 6979, hence deterministic) plus the
/// hex codec: signing succeeds exactly when the hash and key material admit
/// it, and on success the result is the compact signature of the 32-byte
/// digest under the key, 128 hex characters, and it verifies under the key's
/// own public key, as the crate's documentation shows of sign and verify.
#[verifier::external_body]
pub fn sign(block_hash_hex: &str, private_key_hex: &str) -> (r: Result<String, String>)
    ensures
        r is Ok <==> ecdsa_signable(block_hash_hex@, private_key_hex@),
        match r {
            Ok(s) => {
                &&& s@ == ecdsa_sig_of(block_hash_hex@, private_key_hex@)
                &&& s@.len() == 128
                &&& ecdsa_verifies(block_hash_hex@, pubkey_of(private_key_hex@), s@)
            },
            Err(_) => true,
        },
{
    let hash = hex::decode(block_hash_hex).map_err(|e| e.to_string())?;
    let digest: [u8; 32] = hash.try_into().map_err(|_| "block hash must be 32 bytes")?;
    let raw = hex::decode(private_key_hex).map_err(|e| e.to_string())?;
    let key: [u8; 32] = raw.try_into().map_err(|_| "private key must be 32 bytes")?;
    let sk = secp256k1::SecretKey::from_secret_bytes(key).map_err(|e| e.to_string())?;
    let sig = secp256k1::ecdsa::sign(secp256k1::Message::from_digest(digest), &sk);
    Ok(hex::encode(sig.serialize_compact()))
}

/// Relies on secp256k1::ecdsa::verify plus the hex codec: true exactly when
/// the hash, key and signature decode and the signature is valid for the
/// digest under the key; false on any failure, never an error.
#[verifier::external_body]
pub fn verify(block_hash_hex: &str, public_key_hex: &str, signature_hex: &str) -> (r: bool)
    ensures
        r == ecdsa_verifies(block_hash_hex@, public_key_hex@, signature_hex@),
{
    let digest: Option<[u8; 32]> =
        hex::decode(block_hash_hex).ok().and_then(|d| d.try_into().ok());
    let pk = hex::decode(public_key_hex).ok()
        .and_then(|d| secp256k1::PublicKey::from_slice(&d).ok());
    let sig = hex::decode(signature_hex).ok()
        .and_then(|d| secp256k1::ecdsa::Signature::from_compact(&d).ok());
    match (digest, pk, sig) {
        (Some(digest), Some(pk), Some(sig)) => {
            secp256k1::ecdsa::verify(&sig, secp256k1::Message::from_digest(digest), &pk).is_ok()
        },
        _ => false,
    }
}

/// Relies on secp256k1::PublicKey::from_secret_key plus the hex codec: on
/// success the result is the uncompressed public key of the private key,
/// 130 hex characters beginning with the `04` tag byte.
#[verifier::external_body]
pub fn derive_public_key(private_key_hex: &str) -> (r: Result<String, String>)
    ensures
        match r {
            Ok(p) => p@ == pubkey_of(private_key_hex@) && p@.len() == 130,
            Err(_) => true,
        },
{
    let raw = hex::decode(private_key_hex).map_err(|e| e.to_string())?;
    let key: [u8; 32] = raw.try_into().map_err(|_| "private key must be 32 bytes")?;
    let sk = secp256k1::SecretKey::from_secret_bytes(key).map_err(|e| e.to_string())?;
    let pk = secp256k1::PublicKey::from_secret_key(&sk);
    Ok(hex::encode(pk.serialize_uncompressed()))
}

} // verus!
