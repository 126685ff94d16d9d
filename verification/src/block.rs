//! The block record and its authenticated payload. A block's hash is the
//! SHA-256 of a deterministic byte rendering of (index, transactions,
//! timestamp, validator, validator public key, staker-set hash, previous
//! hash) followed by the decimal proof-of-work nonce; the nonce and the
//! signature are deliberately outside the payload, since the signature signs
//! the finished hash and the nonce is the search variable.

use vstd::prelude::*;
use vstd::string::StrSliceExecFns;
use crate::hashing::{append_bytes, dec_bytes_of, push_dec_bytes};
use crate::pow::{candidate_hash, mine_block, unmineable, zero_prefix};
use crate::runtime::now_unix;
use crate::staking::Staker;

verus! {

/// An immutable chain record. Genesis (index 0) carries none of the optional
/// fields; every mined or ingested block carries them all.
pub struct Block {
    pub index: u64,
    pub timestamp: u64,
    pub transactions: Vec<String>,
    pub previous_hash: String,
    pub difficulty: usize,
    pub nonce: u64,
    pub hash: String,
    pub validator: Option<String>,
    pub validator_public_key: Option<String>,
    pub signature: Option<String>,
    pub staker_set_hash: Option<String>,
    pub staker_snapshot: Option<Vec<Staker>>,
}

/// The payload rendering of the transaction list: each transaction's UTF-8
/// bytes terminated by a line feed, in order.
pub open spec fn txs_bytes(txs: Seq<String>) -> Seq<u8>
    decreases txs.len(),
{
    if txs.len() == 0 {
        Seq::<u8>::empty()
    } else {
        txs_bytes(txs.drop_last()) + vstd::utf8::encode_utf8(txs.last()@) + seq![10u8]
    }
}

/// The payload rendering of an optional field: a `0` marker when absent, a
/// `1` marker followed by the UTF-8 bytes when present.
pub open spec fn opt_bytes(o: Option<String>) -> Seq<u8> {
    match o {
        None => seq![48u8],
        Some(s) => seq![49u8] + vstd::utf8::encode_utf8(s@),
    }
}

/// The authenticated payload bytes of a block's fields, `|`-separated in a
/// fixed order. The nonce and the signature are not part of it.
pub open spec fn payload_of(
    index: u64,
    txs: Seq<String>,
    timestamp: u64,
    validator: Option<String>,
    validator_public_key: Option<String>,
    staker_set_hash: Option<String>,
    previous_hash: Seq<char>,
) -> Seq<u8> {
    dec_bytes_of(index as nat) + seq![124u8] + txs_bytes(txs) + seq![124u8] + dec_bytes_of(
        timestamp as nat,
    ) + seq![124u8] + opt_bytes(validator) + seq![124u8] + opt_bytes(validator_public_key) + seq![
        124u8,
    ] + opt_bytes(staker_set_hash) + seq![124u8] + vstd::utf8::encode_utf8(previous_hash)
}

/// A block's own payload bytes.
pub open spec fn block_payload(b: Block) -> Seq<u8> {
    payload_of(
        b.index,
        b.transactions@,
        b.timestamp,
        b.validator,
        b.validator_public_key,
        b.staker_set_hash,
        b.previous_hash@,
    )
}

/// The hash a block's fields and nonce determine.
pub open spec fn block_hash_of(b: Block) -> Seq<char> {
    candidate_hash(block_payload(b), b.nonce)
}

/// The proof-of-work judgment on a block: its recorded hash is exactly the
/// hash of its fields and nonce, and it carries the required zero prefix.
#[verifier::opaque]
pub open spec fn pow_ok(b: Block) -> bool {
    &&& b.hash@ == block_hash_of(b)
    &&& zero_prefix(b.hash@, b.difficulty as nat)
}

/// Builds the payload bytes for the given block fields.
pub fn build_payload(
    index: u64,
    transactions: &Vec<String>,
    timestamp: u64,
    validator: &Option<String>,
    validator_public_key: &Option<String>,
    staker_set_hash: &Option<String>,
    previous_hash: &str,
) -> (r: Vec<u8>)
    ensures
        r@ == payload_of(
            index,
            transactions@,
            timestamp,
            *validator,
            *validator_public_key,
            *staker_set_hash,
            previous_hash@,
        ),
{
    let mut buf: Vec<u8> = Vec::new();
    push_dec_bytes(&mut buf, index);
    buf.push(124);
    let mut i: usize = 0;
    let ghost head = buf@;
    while i < transactions.len()
        invariant
            i <= transactions@.len(),
            buf@ =~= head + txs_bytes(transactions@.take(i as int)),
        decreases transactions@.len() - i,
    {
        append_bytes(&mut buf, transactions[i].as_str().as_bytes());
        buf.push(10);
        i = i + 1;
        proof {
            assert(transactions@.take(i as int).drop_last() =~= transactions@.take(i - 1));
            assert(transactions@.take(i as int).last() == transactions@[i - 1]);
            assert(buf@ =~= head + txs_bytes(transactions@.take(i as int)));
        }
    }
    proof {
        assert(transactions@.take(transactions@.len() as int) =~= transactions@);
    }
    buf.push(124);
    push_dec_bytes(&mut buf, timestamp);
    buf.push(124);
    push_opt_bytes(&mut buf, validator);
    buf.push(124);
    push_opt_bytes(&mut buf, validator_public_key);
    buf.push(124);
    push_opt_bytes(&mut buf, staker_set_hash);
    buf.push(124);
    append_bytes(&mut buf, previous_hash.as_bytes());
    proof {
        assert(buf@ =~= payload_of(
            index,
            transactions@,
            timestamp,
            *validator,
            *validator_public_key,
            *staker_set_hash,
            previous_hash@,
        ));
    }
    buf
}

fn push_opt_bytes(buf: &mut Vec<u8>, o: &Option<String>)
    ensures
        final(buf)@ == old(buf)@ + opt_bytes(*o),
{
    match o {
        None => {
            buf.push(48);
            proof {
                assert(buf@ =~= old(buf)@ + opt_bytes(None::<String>));
            }
        },
        Some(s) => {
            buf.push(49);
            append_bytes(buf, s.as_str().as_bytes());
            proof {
                assert(buf@ =~= old(buf)@ + opt_bytes(Some(*s)));
            }
        },
    }
}

/// Recomputes a block's hash from its fields and nonce and checks both the
/// equality with the recorded hash and the difficulty prefix.
pub fn verify_pow(b: &Block) -> (r: bool)
    ensures
        r == pow_ok(*b),
{
    proof {
        reveal(pow_ok);
    }
    let payload = build_payload(
        b.index,
        &b.transactions,
        b.timestamp,
        &b.validator,
        &b.validator_public_key,
        &b.staker_set_hash,
        b.previous_hash.as_str(),
    );
    let mut candidate = payload;
    push_dec_bytes(&mut candidate, b.nonce);
    let recomputed = crate::hashing::sha256_hex(candidate.as_slice());
    recomputed.eq(&b.hash) && crate::pow::has_zero_prefix(b.hash.as_str(), b.difficulty)
}

impl Block {
    /// Mines a plain block over the given fields: no validator, key,
    /// signature or snapshot attached; the timestamp is read from the wall
    /// clock. The recorded hash is always the hash of the block's own fields
    /// and nonce, the nonce is the first that qualifies, and the hash
    /// carries the difficulty prefix unless no 64-bit nonce at all can
    /// produce one.
    pub fn new(
        index: u64,
        transactions: Vec<String>,
        previous_hash: String,
        difficulty: usize,
    ) -> (b: Block)
        ensures
            b.index == index,
            b.transactions == transactions,
            b.previous_hash == previous_hash,
            b.difficulty == difficulty,
            b.validator is None,
            b.validator_public_key is None,
            b.signature is None,
            b.staker_set_hash is None,
            b.staker_snapshot is None,
            b.hash@ == block_hash_of(b),
            b.hash@.len() == 64,
            zero_prefix(b.hash@, difficulty as nat) || unmineable(
                block_payload(b),
                difficulty as nat,
            ),
            forall|n: u64|
                n < b.nonce ==> !zero_prefix(candidate_hash(block_payload(b), n), difficulty as nat),
    {
        let timestamp = now_unix();
        let payload = build_payload(
            index,
            &transactions,
            timestamp,
            &None,
            &None,
            &None,
            previous_hash.as_str(),
        );
        let (nonce, hash) = mine_block(payload.as_slice(), difficulty);
        Block {
            index,
            timestamp,
            transactions,
            previous_hash,
            difficulty,
            nonce,
            hash,
            validator: None,
            validator_public_key: None,
            signature: None,
            staker_set_hash: None,
            staker_snapshot: None,
        }
    }
}

} // verus!
