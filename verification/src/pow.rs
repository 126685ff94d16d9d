//! The proof-of-work gate: a block hash must begin with `difficulty` zero
//! hex characters, and the miner searches nonces from zero upward until the
//! candidate hash does.

use vstd::prelude::*;
use vstd::string::StrSliceExecFns;
use crate::hashing::{append_bytes, dec_bytes_of, push_dec_bytes, sha256_hex, sha256_hex_of};

verus! {

/// The first `d` characters of `h` exist and are `'0'`.
pub open spec fn zero_prefix(h: Seq<char>, d: nat) -> bool {
    &&& d <= h.len()
    &&& forall|i: int| 0 <= i < d ==> h[i] == '0'
}

/// The hash a (payload, nonce) candidate produces: the payload bytes
/// followed by the decimal rendering of the nonce, hashed.
pub open spec fn candidate_hash(data: Seq<u8>, nonce: u64) -> Seq<char> {
    sha256_hex_of(data + dec_bytes_of(nonce as nat))
}

/// No 64-bit nonce gives this payload a hash with the required zero prefix.
pub open spec fn unmineable(data: Seq<u8>, difficulty: nat) -> bool {
    forall|n: u64| !zero_prefix(candidate_hash(data, n), difficulty)
}

/// Checks that the first `d` characters of `s` are `'0'`.
pub fn has_zero_prefix(s: &str, d: usize) -> (r: bool)
    ensures
        r == zero_prefix(s@, d as nat),
{
    let n = s.unicode_len();
    if d > n {
        return false;
    }
    let mut i: usize = 0;
    while i < d
        invariant
            i <= d,
            d <= s@.len(),
            forall|k: int| 0 <= k < i ==> s@[k] == '0',
        decreases d - i,
    {
        if s.get_char(i) != '0' {
            return false;
        }
        i = i + 1;
    }
    true
}

/// Searches nonces from zero upward and returns the first whose candidate
/// hash carries the required zero prefix, with that hash. The returned hash
/// is always the candidate hash of the returned nonce; the prefix holds
/// unless no 64-bit nonce at all can satisfy the difficulty.
pub fn mine_block(data: &[u8], difficulty: usize) -> (r: (u64, String))
    ensures
        r.1@ == candidate_hash(data@, r.0),
        r.1@.len() == 64,
        zero_prefix(r.1@, difficulty as nat) || unmineable(data@, difficulty as nat),
        forall|n: u64| n < r.0 ==> !zero_prefix(candidate_hash(data@, n), difficulty as nat),
{
    let mut nonce: u64 = 0;
    while nonce < u64::MAX
        invariant
            forall|n: u64| n < nonce ==> !zero_prefix(candidate_hash(data@, n), difficulty as nat),
        decreases u64::MAX - nonce,
    {
        let mut candidate: Vec<u8> = Vec::new();
        append_bytes(&mut candidate, data);
        push_dec_bytes(&mut candidate, nonce);
        let hash = sha256_hex(candidate.as_slice());
        if has_zero_prefix(hash.as_str(), difficulty) {
            return (nonce, hash);
        }
        nonce = nonce + 1;
    }
    let mut candidate: Vec<u8> = Vec::new();
    append_bytes(&mut candidate, data);
    push_dec_bytes(&mut candidate, nonce);
    let hash = sha256_hex(candidate.as_slice());
    if has_zero_prefix(hash.as_str(), difficulty) {
        return (nonce, hash);
    }
    proof {
        assert forall|n: u64| !zero_prefix(candidate_hash(data@, n), difficulty as nat) by {
            if n < u64::MAX {
            }
        }
    }
    (nonce, hash)
}

} // verus!
