//! Wallet authentication: nonce issuance, session tokens, and recovery of an
//! Ethereum-style address from a `personal_sign` signature. The Keccak-256
//! digests and the public-key recovery come from the `sha3` and `secp256k1`
//! crates; everything around them — the signed-message prefix, the hex
//! address rendering, the case-insensitive comparison — is put together here.

use vstd::prelude::*;
use vstd::string::StringExecFns;
use vstd::string::StrSliceExecFns;
use crate::hashing::{append_bytes, bytes_to_hex, dec_bytes_of, hex_of, push_dec_bytes};
use crate::kvmap::StrMap;
use crate::runtime::new_uuid;

verus! {

/// The Keccak-256 digest of a byte sequence, as the `sha3` crate computes
/// it. The digest depends on the input bytes alone.
pub uninterp spec fn keccak_of(data: Seq<u8>) -> Seq<u8>;

/// Relies on sha3::Keccak256::digest: a 32-byte digest that depends on the
/// input bytes alone.
#[verifier::external_body]
pub fn keccak256(data: &[u8]) -> (r: Vec<u8>)
    ensures
        r@ == keccak_of(data@),
        r@.len() == 32,
{
    <sha3::Keccak256 as sha3::Digest>::digest(data).to_vec()
}

/// The 65-byte uncompressed public key that secp256k1 recovery yields from a
/// 32-byte message digest and a 65-byte hex recoverable signature (r, s, and
/// a recovery byte). A pure function of the two arguments.
pub uninterp spec fn recover_of(message_hash: Seq<u8>, signature_hex: Seq<char>) -> Seq<u8>;

/// Whether recovery succeeds on this digest and signature hex: the hex must
/// decode to exactly 65 bytes with a valid recovery byte and the point must
/// recover. A pure function of the two arguments, so recovery either always
/// succeeds or always fails on a given pair.
pub uninterp spec fn ecdsa_recoverable(message_hash: Seq<u8>, signature_hex: Seq<char>) -> bool;

/// Relies on secp256k1's RecoverableSignature::recover plus the hex codec:
/// the body composes the hex decode, the 64+1 split with the recovery byte
/// read as v - 27, and the recovery call itself; the two named results cover
/// exactly that composite. Success requires, among the rest, that the
/// signature hex is 130 characters.
#[verifier::external_body]
pub fn ecdsa_recover(message_hash: &[u8], signature_hex: &str) -> (r: Result<Vec<u8>, String>)
    requires
        message_hash@.len() == 32,
    ensures
        r is Ok <==> ecdsa_recoverable(message_hash@, signature_hex@),
        match r {
            Ok(pk) => {
                &&& pk@ == recover_of(message_hash@, signature_hex@)
                &&& pk@.len() == 65
                &&& signature_hex@.len() == 130
            },
            Err(_) => true,
        },
{
    let bytes = hex::decode(signature_hex).map_err(|e| e.to_string())?;
    if bytes.len() != 65 {
        return Err("Invalid signature length".to_string());
    }
    let mut compact = [0u8; 64];
    compact.copy_from_slice(&bytes[0..64]);
    let id = secp256k1::ecdsa::RecoveryId::try_from((bytes[64] as i32) - 27)
        .map_err(|e| e.to_string())?;
    let sig = secp256k1::ecdsa::RecoverableSignature::from_compact(&compact, id)
        .map_err(|e| e.to_string())?;
    let digest: [u8; 32] = message_hash.try_into().map_err(|_| "bad digest")?;
    let key = sig.recover(secp256k1::Message::from_digest(digest)).map_err(|e| e.to_string())?;
    Ok(key.serialize_uncompressed().to_vec())
}

/// The lowercase form of a string, as str::to_lowercase computes it.
pub uninterp spec fn lower_of(s: Seq<char>) -> Seq<char>;

/// Relies on str::to_lowercase: the result depends on the characters alone,
/// and is itself already lowercase, so lowercasing it again changes nothing.
#[verifier::external_body]
pub fn lowercase(s: &str) -> (r: String)
    ensures
        r@ == lower_of(s@),
        lower_of(r@) == r@,
        s@.len() == 0 ==> r@.len() == 0,
{
    s.to_lowercase()
}

/// The signature hex with a leading `0x` tag stripped, when one is there.
pub open spec fn strip_hex_tag(s: Seq<char>) -> Seq<char> {
    if s.len() >= 2 && s[0] == '0' && s[1] == 'x' {
        s.subrange(2, s.len() as int)
    } else {
        s
    }
}

fn strip_tag<'a>(s: &'a str) -> (r: &'a str)
    ensures
        r@ == strip_hex_tag(s@),
{
    let n = s.unicode_len();
    if n >= 2 && s.get_char(0) == '0' && s.get_char(1) == 'x' {
        s.substring_char(2, n)
    } else {
        s
    }
}

/// The bytes an Ethereum `personal_sign` wallet actually signs: the 0x19
/// prefix, the fixed tag, the decimal byte length of the message, then the
/// message itself.
pub open spec fn eth_signed_payload(message: Seq<char>) -> Seq<u8> {
    seq![25u8] + vstd::utf8::encode_utf8("Ethereum Signed Message:\n"@) + dec_bytes_of(
        vstd::utf8::encode_utf8(message).len(),
    ) + vstd::utf8::encode_utf8(message)
}

/// The address the signature resolves to: the last twenty bytes of the
/// Keccak-256 digest of the recovered public key (tag byte dropped), in hex
/// behind a `0x` tag.
pub open spec fn spec_recovered_address(message: Seq<char>, signature: Seq<char>) -> Seq<char> {
    "0x"@ + hex_of(
        keccak_of(
            recover_of(keccak_of(eth_signed_payload(message)), strip_hex_tag(signature)).subrange(
                1,
                65,
            ),
        ).subrange(12, 32),
    )
}

/// Copies `src[from..to]` into a fresh vector.
fn copy_range(src: &Vec<u8>, from: usize, to: usize) -> (r: Vec<u8>)
    requires
        from <= to <= src@.len(),
    ensures
        r@ == src@.subrange(from as int, to as int),
{
    let mut r: Vec<u8> = Vec::new();
    let mut i: usize = from;
    while i < to
        invariant
            from <= i <= to <= src@.len(),
            r@ =~= src@.subrange(from as int, i as int),
        decreases to - i,
    {
        r.push(src[i]);
        i = i + 1;
        proof {
            assert(r@ =~= src@.subrange(from as int, i as int));
        }
    }
    r
}

/// Recovers the signer's address from a `personal_sign` signature over
/// `message`: it succeeds exactly when the (optionally `0x`-tagged)
/// signature decodes and recovers against the prefixed message's digest, and
/// the address is then exactly the recovered one. In particular the result
/// is a function of the two strings, and a malformed signature always fails.
pub fn recover_address_from_signature(message: &str, signature_hex: &str) -> (r: Result<
    String,
    String,
>)
    ensures
        r is Ok <==> ecdsa_recoverable(
            keccak_of(eth_signed_payload(message@)),
            strip_hex_tag(signature_hex@),
        ),
        match r {
            Ok(a) => a@ == spec_recovered_address(message@, signature_hex@),
            Err(_) => true,
        },
{
    let stripped = strip_tag(signature_hex);
    let message_bytes = message.as_bytes();
    let mut payload: Vec<u8> = Vec::new();
    payload.push(25);
    append_bytes(&mut payload, "Ethereum Signed Message:\n".as_bytes());
    push_dec_bytes(&mut payload, message_bytes.len() as u64);
    append_bytes(&mut payload, message_bytes);
    proof {
        assert(payload@ =~= eth_signed_payload(message@));
    }
    let digest = keccak256(payload.as_slice());
    let public_key = match ecdsa_recover(digest.as_slice(), stripped) {
        Ok(pk) => pk,
        Err(e) => {
            return Err(e);
        },
    };
    let key_body = copy_range(&public_key, 1, 65);
    let key_hash = keccak256(key_body.as_slice());
    let address_bytes = copy_range(&key_hash, 12, 32);
    let mut address = String::from_str("0x");
    let hex = bytes_to_hex(address_bytes.as_slice());
    address.append(hex.as_str());
    Ok(address)
}

/// Whether the claimed address signed the message: the signature must
/// recover and the recovered address must equal the claimed one,
/// case-insensitively; any recovery failure — a malformed signature
/// included — is false, never an error.
pub fn verify_signature(address: &str, message: &str, signature: &str) -> (r: bool)
    ensures
        r == (ecdsa_recoverable(
            keccak_of(eth_signed_payload(message@)),
            strip_hex_tag(signature@),
        ) && lower_of(spec_recovered_address(message@, signature@)) == lower_of(address@)),
{
    match recover_address_from_signature(message, signature) {
        Ok(recovered) => {
            let left = lowercase(recovered.as_str());
            let right = lowercase(address);
            left.eq(&right)
        },
        Err(_) => false,
    }
}

/// Issues login nonces and holds the sessions they open. Both maps key by
/// what the protocol hands back: nonces by wallet address, sessions by
/// bearer token.
pub struct AuthManager {
    pub sessions: StrMap,
    pub nonces: StrMap,
}

impl AuthManager {
    /// Both maps are well formed.
    pub open spec fn wf(&self) -> bool {
        &&& self.sessions.wf()
        &&& self.nonces.wf()
    }

    /// A manager with no nonces and no sessions.
    pub fn new() -> (r: AuthManager)
        ensures
            r.wf(),
            forall|k: Seq<char>| r.sessions.spec_get(k) is None,
            forall|k: Seq<char>| r.nonces.spec_get(k) is None,
    {
        AuthManager { sessions: StrMap::new(), nonces: StrMap::new() }
    }

    /// Draws a fresh nonce for `address` and records it, replacing any
    /// earlier one.
    pub fn generate_nonce(&mut self, address: &str) -> (r: String)
        requires
            old(self).wf(),
        ensures
            final(self).wf(),
            r@.len() == 36,
            final(self).nonces.spec_get(address@) == Some(r@),
            forall|k: Seq<char>|
                k != address@ ==> final(self).nonces.spec_get(k) == old(self).nonces.spec_get(k),
            final(self).sessions == old(self).sessions,
    {
        let nonce = new_uuid();
        self.nonces.insert(address, nonce.clone());
        nonce
    }

    /// Whether `nonce` is the one currently recorded for `address`.
    pub fn verify_nonce(&self, address: &str, nonce: &str) -> (r: bool)
        ensures
            r == (self.nonces.spec_get(address@) == Some(nonce@)),
    {
        match self.nonces.get(address) {
            Some(stored) => {
                let claimed = nonce.to_owned();
                stored.eq(&claimed)
            },
            None => false,
        }
    }

    /// Opens a session for `address`: a fresh bearer token mapping to the
    /// address, with the address's nonce consumed.
    pub fn create_session(&mut self, address: &str) -> (r: String)
        requires
            old(self).wf(),
        ensures
            final(self).wf(),
            final(self).sessions.spec_get(r@) == Some(address@),
            final(self).nonces.spec_get(address@) is None,
            forall|k: Seq<char>|
                k != r@ ==> final(self).sessions.spec_get(k) == old(self).sessions.spec_get(k),
            forall|k: Seq<char>|
                k != address@ ==> final(self).nonces.spec_get(k) == old(self).nonces.spec_get(k),
    {
        let mut token = new_uuid();
        token.append("_");
        token.append(address);
        self.sessions.insert(token.as_str(), address.to_owned());
        self.nonces.remove(address);
        token
    }

    /// The address a session token stands for, if the session is open.
    pub fn verify_session(&self, token: &str) -> (r: Option<String>)
        ensures
            match r {
                Some(a) => self.sessions.spec_get(token@) == Some(a@),
                None => self.sessions.spec_get(token@) is None,
            },
    {
        self.sessions.get(token)
    }

    /// Closes the session under `token`, if any.
    pub fn revoke_session(&mut self, token: &str)
        requires
            old(self).wf(),
        ensures
            final(self).wf(),
            final(self).sessions.spec_get(token@) is None,
            forall|k: Seq<char>|
                k != token@ ==> final(self).sessions.spec_get(k) == old(self).sessions.spec_get(
                    k,
                ),
            final(self).nonces == old(self).nonces,
    {
        self.sessions.remove(token);
    }
}

/// A nonce request names the wallet address asking to log in.
pub struct NonceRequest {
    pub address: String,
}

/// The nonce handed back for the wallet to sign.
pub struct NonceResponse {
    pub nonce: String,
}

/// A login attempt: the claimed address, the signed message, the signature,
/// and the nonce it answers.
pub struct VerifyRequest {
    pub address: String,
    pub message: String,
    pub signature: String,
    pub nonce: String,
}

/// A successful login: the bearer token and the address it stands for.
pub struct VerifyResponse {
    pub token: String,
    pub address: String,
}

/// The outcome of an authentication action.
pub struct AuthResponse {
    pub status: String,
    pub message: String,
}

} // verus!
