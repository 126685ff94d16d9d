//! The append-only chain store: genesis plus every accepted block, the
//! mining difficulty, and the finality marker. Candidate blocks pass a fixed
//! sequence of checks — index, linkage, field presence, staker-set
//! commitment, leader selection, signature, proof of work — and the first
//! failure wins. Structural failures only reject; consensus failures also
//! slash the named validator.

use vstd::prelude::*;
use vstd::string::StringExecFns;
use vstd::string::StrSliceExecFns;
use crate::block::{Block, block_hash_of, block_payload, build_payload, pow_ok};
use crate::hashing::{dec_chars_of, push_dec_chars};
use crate::pow::{candidate_hash, mine_block, unmineable, zero_prefix};
use crate::runtime::now_unix;
use crate::signer::ecdsa_verifies;
use crate::staking::{Staker, StakerRegistry, set_hash, set_hash_of, spec_select, select_staker,
    slash_amount, stake_of};

verus! {

/// Why a candidate block is rejected, in the order the checks run.
#[derive(Debug, Clone, Copy, PartialEq, Eq, Structural)]
pub enum RejectReason {
    IndexMismatch,
    PreviousHashMismatch,
    MissingFields,
    SetHashMismatch,
    SelectionMismatch,
    BadSignature,
    BadProofOfWork,
}

/// Consensus faults slash the block's validator; structural faults only
/// reject.
pub open spec fn is_consensus_fault(r: RejectReason) -> bool {
    r is SelectionMismatch || r is BadSignature || r is BadProofOfWork
}

/// All five optional fields a non-genesis block must carry are present.
pub open spec fn fields_present(b: Block) -> bool {
    &&& b.validator is Some
    &&& b.validator_public_key is Some
    &&& b.signature is Some
    &&& b.staker_set_hash is Some
    &&& b.staker_snapshot is Some
}

/// The verdict on a block expected to extend a chain at `expected_index`
/// whose tip hash is `expected_prev`: the first failed check, or none.
#[verifier::opaque]
pub open spec fn block_verdict(expected_index: int, expected_prev: Seq<char>, b: Block) -> Option<
    RejectReason,
> {
    if b.index != expected_index {
        Some(RejectReason::IndexMismatch)
    } else if b.previous_hash@ != expected_prev {
        Some(RejectReason::PreviousHashMismatch)
    } else if !fields_present(b) {
        Some(RejectReason::MissingFields)
    } else if set_hash_of(b.staker_snapshot->Some_0@) != b.staker_set_hash->Some_0@ {
        Some(RejectReason::SetHashMismatch)
    } else if spec_select(b.previous_hash@, b.staker_snapshot->Some_0@) != Some(
        b.validator->Some_0@,
    ) {
        Some(RejectReason::SelectionMismatch)
    } else if !ecdsa_verifies(b.hash@, b.validator_public_key->Some_0@, b.signature->Some_0@) {
        Some(RejectReason::BadSignature)
    } else if !pow_ok(b) {
        Some(RejectReason::BadProofOfWork)
    } else {
        None
    }
}

/// The replay verdict on position `i` of a stored chain: genesis must pass
/// proof of work, every later block must pass the full candidate checks
/// against its predecessor.
pub open spec fn replay_verdict(blocks: Seq<Block>, i: int) -> Option<RejectReason>
    recommends
        0 <= i < blocks.len(),
{
    if i == 0 {
        if pow_ok(blocks[0]) {
            None
        } else {
            Some(RejectReason::BadProofOfWork)
        }
    } else {
        block_verdict(i, blocks[i - 1].hash@, blocks[i])
    }
}

/// The first position of a stored chain, from `i` on, whose replay verdict
/// fails.
pub open spec fn first_fault_from(blocks: Seq<Block>, i: int) -> Option<int>
    recommends
        0 <= i <= blocks.len(),
    decreases blocks.len() - i,
{
    if i < 0 || i >= blocks.len() {
        None
    } else if replay_verdict(blocks, i) is Some {
        Some(i)
    } else {
        first_fault_from(blocks, i + 1)
    }
}

/// A stored chain is valid when no position fails its replay verdict.
pub open spec fn chain_valid(blocks: Seq<Block>) -> bool {
    first_fault_from(blocks, 0) is None
}

/// Every later block names its predecessor's hash.
pub open spec fn linked(blocks: Seq<Block>) -> bool {
    forall|i: int| 0 < i < blocks.len() ==> blocks[i].previous_hash@ == blocks[i - 1].hash@
}

/// Every block records its own position.
pub open spec fn indexed(blocks: Seq<Block>) -> bool {
    forall|i: int| 0 <= i < blocks.len() ==> blocks[i].index == i
}

/// The wording a rejection carries in user-visible reports.
pub open spec fn reason_suffix(r: RejectReason) -> Seq<char> {
    match r {
        RejectReason::IndexMismatch => " has an index mismatch"@,
        RejectReason::PreviousHashMismatch => " failed previous hash validation"@,
        RejectReason::MissingFields => " is missing validator fields"@,
        RejectReason::SetHashMismatch => " failed staker set hash validation"@,
        RejectReason::SelectionMismatch => " failed validator selection validation"@,
        RejectReason::BadSignature => " failed signature validation"@,
        RejectReason::BadProofOfWork => " failed PoW validation"@,
    }
}

/// The report line for a rejection of block `i`.
pub open spec fn reason_text(i: nat, r: RejectReason) -> Seq<char> {
    "Block "@ + dec_chars_of(i) + reason_suffix(r)
}

/// Renders the report line for a rejection of block `i`.
pub fn reason_message(i: u64, r: RejectReason) -> (m: String)
    ensures
        m@ == reason_text(i as nat, r),
{
    let mut m = String::from_str("Block ");
    push_dec_chars(&mut m, i);
    match r {
        RejectReason::IndexMismatch => m.append(" has an index mismatch"),
        RejectReason::PreviousHashMismatch => m.append(" failed previous hash validation"),
        RejectReason::MissingFields => m.append(" is missing validator fields"),
        RejectReason::SetHashMismatch => m.append(" failed staker set hash validation"),
        RejectReason::SelectionMismatch => m.append(" failed validator selection validation"),
        RejectReason::BadSignature => m.append(" failed signature validation"),
        RejectReason::BadProofOfWork => m.append(" failed PoW validation"),
    }
    m
}

proof fn lemma_first_fault_shift(blocks: Seq<Block>, j: int, i: int)
    requires
        0 <= j <= i <= blocks.len(),
        forall|k: int| j <= k < i ==> replay_verdict(blocks, k) is None,
    ensures
        first_fault_from(blocks, j) == first_fault_from(blocks, i),
    decreases i - j,
{
    if j < i {
        lemma_first_fault_shift(blocks, j + 1, i);
    }
}

/// The append-only chain store.
pub struct Blockchain {
    pub blocks: Vec<Block>,
    pub difficulty: usize,
    pub finalized_height: u64,
}

impl Blockchain {
    /// Linkage and indexing hold throughout, and the finality marker never
    /// points past the tip.
    pub open spec fn wf(&self) -> bool {
        &&& linked(self.blocks@)
        &&& indexed(self.blocks@)
        &&& (self.blocks@.len() > 0 ==> self.finalized_height < self.blocks@.len())
        &&& (self.blocks@.len() == 0 ==> self.finalized_height == 0)
    }

    /// The tip hash, or `"0"` for an empty store (genesis names `"0"` as its
    /// predecessor).
    pub open spec fn spec_latest_hash(&self) -> Seq<char> {
        if self.blocks@.len() == 0 {
            "0"@
        } else {
            self.blocks@.last().hash@
        }
    }

    /// Opens a fresh chain: a genesis block with no validator fields, its
    /// predecessor named `"0"`, a single bootstrap transaction, and a
    /// first-qualifying mined nonce.
    pub fn new(difficulty: usize) -> (chain: Blockchain)
        ensures
            chain.wf(),
            chain.blocks@.len() == 1,
            chain.difficulty == difficulty,
            chain.finalized_height == 0,
            chain.blocks@[0].index == 0,
            chain.blocks@[0].previous_hash@ == "0"@,
            chain.blocks@[0].transactions@.len() == 1,
            chain.blocks@[0].transactions@[0]@ == "Genesis Block"@,
            chain.blocks@[0].hash@ == block_hash_of(chain.blocks@[0]),
            chain.blocks@[0].hash@.len() == 64,
            chain.blocks@[0].difficulty == difficulty,
            chain.blocks@[0].validator is None,
            chain.blocks@[0].validator_public_key is None,
            chain.blocks@[0].signature is None,
            chain.blocks@[0].staker_set_hash is None,
            chain.blocks@[0].staker_snapshot is None,
            zero_prefix(chain.blocks@[0].hash@, difficulty as nat) || unmineable(
                block_payload(chain.blocks@[0]),
                difficulty as nat,
            ),
            forall|n: u64|
                n < chain.blocks@[0].nonce ==> !zero_prefix(
                    candidate_hash(block_payload(chain.blocks@[0]), n),
                    difficulty as nat,
                ),
    {
        let mut seed_txs: Vec<String> = Vec::new();
        seed_txs.push(String::from_str("Genesis Block"));
        let genesis = Block::new(0, seed_txs, String::from_str("0"), difficulty);
        let mut blocks: Vec<Block> = Vec::new();
        blocks.push(genesis);
        Blockchain { blocks, difficulty, finalized_height: 0 }
    }

    /// The tip hash, or `"0"` when no block is stored.
    pub fn latest_hash(&self) -> (r: String)
        ensures
            r@ == self.spec_latest_hash(),
    {
        if self.blocks.len() == 0 {
            String::from_str("0")
        } else {
            self.blocks[self.blocks.len() - 1].hash.clone()
        }
    }

    /// Mines a plain linked block over the given transactions and appends
    /// it: the tutorial-style write path, with no validator fields attached.
    pub fn add_block(&mut self, transactions: Vec<String>)
        requires
            old(self).wf(),
            old(self).blocks@.len() < u64::MAX,
        ensures
            final(self).wf(),
            final(self).difficulty == old(self).difficulty,
            final(self).finalized_height == old(self).finalized_height,
            final(self).blocks@.len() == old(self).blocks@.len() + 1,
            final(self).blocks@.drop_last() == old(self).blocks@,
            ({
                let b = final(self).blocks@.last();
                &&& b.transactions == transactions
                &&& b.previous_hash@ == old(self).spec_latest_hash()
                &&& b.difficulty == old(self).difficulty
                &&& !fields_present(b)
                &&& b.hash@ == block_hash_of(b)
                &&& b.hash@.len() == 64
                &&& (zero_prefix(b.hash@, b.difficulty as nat) || unmineable(
                    block_payload(b),
                    b.difficulty as nat,
                ))
                &&& forall|n: u64|
                    n < b.nonce ==> !zero_prefix(
                        candidate_hash(block_payload(b), n),
                        b.difficulty as nat,
                    )
            }),
    {
        let index = self.blocks.len() as u64;
        let previous_hash = self.latest_hash();
        let block = Block::new(index, transactions, previous_hash, self.difficulty);
        self.blocks.push(block);
        proof {
            assert(final(self).blocks@.drop_last() =~= old(self).blocks@);
        }
    }

    /// Appends an already validated block. The caller has checked linkage
    /// and indexing, so the store's invariant is kept.
    pub fn append(&mut self, block: Block)
        requires
            old(self).wf(),
            block.index == old(self).blocks@.len(),
            block.previous_hash@ == old(self).spec_latest_hash(),
        ensures
            final(self).wf(),
            final(self).blocks@ == old(self).blocks@.push(block),
            final(self).difficulty == old(self).difficulty,
            final(self).finalized_height == old(self).finalized_height,
    {
        self.blocks.push(block);
    }

    /// Runs the candidate checks on `block` against the given expected
    /// position and predecessor hash, returning the first failure.
    fn check_block(expected_index: u64, expected_prev: &str, block: &Block) -> (r: Option<
        RejectReason,
    >)
        ensures
            r == block_verdict(expected_index as int, expected_prev@, *block),
    {
        proof {
            reveal(block_verdict);
        }
        if block.index != expected_index {
            return Some(RejectReason::IndexMismatch);
        }
        let prev = expected_prev.to_owned();
        if !block.previous_hash.eq(&prev) {
            return Some(RejectReason::PreviousHashMismatch);
        }
        let (validator, public_key, signature, snapshot, committed) = match (
            &block.validator,
            &block.validator_public_key,
            &block.signature,
            &block.staker_snapshot,
            &block.staker_set_hash,
        ) {
            (Some(v), Some(p), Some(s), Some(n), Some(c)) => (v, p, s, n, c),
            _ => {
                return Some(RejectReason::MissingFields);
            },
        };
        let computed = set_hash(snapshot);
        if !computed.eq(committed) {
            return Some(RejectReason::SetHashMismatch);
        }
        match select_staker(block.previous_hash.as_str(), snapshot) {
            Some(selected) => {
                if !selected.eq(validator) {
                    return Some(RejectReason::SelectionMismatch);
                }
            },
            None => {
                return Some(RejectReason::SelectionMismatch);
            },
        }
        if !crate::signer::verify(block.hash.as_str(), public_key.as_str(), signature.as_str()) {
            return Some(RejectReason::BadSignature);
        }
        if !crate::block::verify_pow(block) {
            return Some(RejectReason::BadProofOfWork);
        }
        None
    }

    /// Judges a block proposed to extend the chain at its tip: the checks of
    /// `block_verdict`, in order, first failure wins.
    pub fn validate_candidate(&self, block: &Block) -> (r: Result<(), RejectReason>)
        ensures
            ({
                let v = block_verdict(
                    self.blocks@.len() as int,
                    self.spec_latest_hash(),
                    *block,
                );
                match r {
                    Ok(()) => v is None,
                    Err(e) => v == Some(e),
                }
            }),
    {
        let prev = self.latest_hash();
        match Self::check_block(self.blocks.len() as u64, prev.as_str(), block) {
            None => Ok(()),
            Some(e) => Err(e),
        }
    }

    /// Replays the whole chain: genesis proof of work, then the full
    /// candidate checks on every later block, with no side effect.
    pub fn is_valid(&self) -> (r: bool)
        ensures
            r == chain_valid(self.blocks@),
    {
        if self.blocks.len() == 0 {
            return true;
        }
        if !crate::block::verify_pow(&self.blocks[0]) {
            return false;
        }
        let mut i: usize = 1;
        while i < self.blocks.len()
            invariant
                1 <= i <= self.blocks@.len(),
                self.blocks@.len() > 0,
                forall|k: int| 0 <= k < i ==> replay_verdict(self.blocks@, k) is None,
            decreases self.blocks@.len() - i,
        {
            let verdict = Self::check_block(
                i as u64,
                self.blocks[i - 1].hash.as_str(),
                &self.blocks[i],
            );
            if verdict.is_some() {
                proof {
                    lemma_first_fault_shift(self.blocks@, 0, i as int);
                }
                return false;
            }
            i = i + 1;
        }
        proof {
            lemma_first_fault_shift(self.blocks@, 0, self.blocks@.len() as int);
        }
        true
    }

    /// Builds the unsigned next block: linked to the tip, stamped with the
    /// chain's difficulty, carrying the validator, its public key, the
    /// staker-set commitment and the snapshot, and mined so its hash is the
    /// hash of its own fields and nonce. The signature is left absent for
    /// the caller to attach.
    pub fn create_block(
        &self,
        transactions: Vec<String>,
        validator: String,
        public_key: String,
        staker_set_hash: String,
        snapshot: Vec<Staker>,
        timestamp: u64,
    ) -> (b: Block)
        requires
            self.blocks@.len() < u64::MAX,
        ensures
            b.index == self.blocks@.len(),
            b.previous_hash@ == self.spec_latest_hash(),
            b.difficulty == self.difficulty,
            b.timestamp == timestamp,
            b.transactions == transactions,
            b.validator == Some(validator),
            b.validator_public_key == Some(public_key),
            b.staker_set_hash == Some(staker_set_hash),
            b.staker_snapshot == Some(snapshot),
            b.signature is None,
            b.hash@ == block_hash_of(b),
            b.hash@.len() == 64,
            zero_prefix(b.hash@, self.difficulty as nat) || unmineable(
                block_payload(b),
                self.difficulty as nat,
            ),
            forall|n: u64|
                n < b.nonce ==> !zero_prefix(
                    candidate_hash(block_payload(b), n),
                    self.difficulty as nat,
                ),
    {
        let index = self.blocks.len() as u64;
        let previous_hash = self.latest_hash();
        let validator = Some(validator);
        let public_key = Some(public_key);
        let staker_set_hash = Some(staker_set_hash);
        let payload = build_payload(
            index,
            &transactions,
            timestamp,
            &validator,
            &public_key,
            &staker_set_hash,
            previous_hash.as_str(),
        );
        let (nonce, hash) = mine_block(payload.as_slice(), self.difficulty);
        Block {
            index,
            timestamp,
            transactions,
            previous_hash,
            difficulty: self.difficulty,
            nonce,
            hash,
            validator,
            validator_public_key: public_key,
            signature: None,
            staker_set_hash,
            staker_snapshot: Some(snapshot),
        }
    }

    /// Raises the finality marker to `len - 1 - depth` when the chain is
    /// longer than `depth`, and never lowers it.
    pub fn apply_finality(&mut self, depth: u64)
        requires
            old(self).wf(),
        ensures
            final(self).wf(),
            final(self).blocks@ == old(self).blocks@,
            final(self).difficulty == old(self).difficulty,
            final(self).finalized_height >= old(self).finalized_height,
            final(self).finalized_height == if old(self).blocks@.len() > depth && old(
                self,
            ).blocks@.len() - 1 - depth > old(self).finalized_height {
                (old(self).blocks@.len() - 1 - depth) as u64
            } else {
                old(self).finalized_height
            },
    {
        let len = self.blocks.len() as u64;
        if len > depth {
            let candidate = len - 1 - depth;
            if candidate > self.finalized_height {
                self.finalized_height = candidate;
            }
        }
    }
}


/// A line of the slash log: which block was faulted, why, who reported it,
/// when, and how much stake the slash took.
pub struct SlashEvidence {
    pub block_index: u64,
    pub reason: String,
    pub reporter: String,
    pub timestamp: String,
    pub slashed_amount: u64,
}

/// What the slashing arbiter returns for a misbehaving historical block.
pub struct Evidence {
    pub validator: String,
    pub reason: RejectReason,
    pub timestamp: u64,
}

impl Blockchain {
    /// Replays the chain like `is_valid`, but on the first consensus fault
    /// (wrong selection, bad signature, bad proof of work) slashes the named
    /// validator on the live registry by `slash_percent` and records the
    /// slashed amount. Structural faults (index, linkage, missing fields,
    /// commitment mismatch) only report. Stops at the first failing block.
    pub fn validate_and_slash(
        &self,
        registry: &mut StakerRegistry,
        slash_percent: u64,
    ) -> (r: (bool, Vec<(String, u64)>, Option<String>))
        requires
            old(registry).wf(),
        ensures
            final(registry).wf(),
            r.0 == chain_valid(self.blocks@),
            match first_fault_from(self.blocks@, 0) {
                None => {
                    &&& r.0
                    &&& r.1@.len() == 0
                    &&& r.2 is None
                    &&& *final(registry) == *old(registry)
                },
                Some(i) => {
                    let reason = replay_verdict(self.blocks@, i)->Some_0;
                    &&& !r.0
                    &&& (match r.2 {
                        Some(m) => m@ == reason_text(i as nat, reason),
                        None => false,
                    })
                    &&& (if 0 < i && is_consensus_fault(reason) {
                        let v = self.blocks@[i].validator->Some_0@;
                        let slashed = slash_amount(
                            stake_of(old(registry).stakers@, v),
                            slash_percent,
                        );
                        &&& r.1@.len() == 1
                        &&& r.1@[0].0@ == v
                        &&& r.1@[0].1 == slashed
                        &&& final(registry).spec_stake_of(v) == old(registry).spec_stake_of(v)
                            - slashed
                        &&& forall|a: Seq<char>|
                            a != v ==> final(registry).spec_staker_at(a) == old(
                                registry,
                            ).spec_staker_at(a)
                    } else {
                        &&& r.1@.len() == 0
                        &&& *final(registry) == *old(registry)
                    })
                },
            },
    {
        proof {
            reveal(block_verdict);
        }
        if self.blocks.len() == 0 {
            return (true, Vec::new(), None);
        }
        if !crate::block::verify_pow(&self.blocks[0]) {
            return (false, Vec::new(), Some(reason_message(0, RejectReason::BadProofOfWork)));
        }
        let mut i: usize = 1;
        while i < self.blocks.len()
            invariant
                1 <= i <= self.blocks@.len(),
                self.blocks@.len() > 0,
                forall|k: int| 0 <= k < i ==> replay_verdict(self.blocks@, k) is None,
                *registry == *old(registry),
                old(registry).wf(),
            decreases self.blocks@.len() - i,
        {
            match Self::check_block(i as u64, self.blocks[i - 1].hash.as_str(), &self.blocks[i]) {
                None => {
                    i = i + 1;
                },
                Some(reason) => {
                    proof {
                        reveal(block_verdict);
                        lemma_first_fault_shift(self.blocks@, 0, i as int);
                    }
                    let message = reason_message(i as u64, reason);
                    let consensus = match reason {
                        RejectReason::SelectionMismatch => true,
                        RejectReason::BadSignature => true,
                        RejectReason::BadProofOfWork => true,
                        _ => false,
                    };
                    if consensus {
                        let validator = match &self.blocks[i].validator {
                            Some(v) => v.clone(),
                            None => {
                                proof {
                                    assert(false);
                                }
                                return (false, Vec::new(), None);
                            },
                        };
                        let slashed = registry.slash(validator.as_str(), slash_percent);
                        let mut events: Vec<(String, u64)> = Vec::new();
                        events.push((validator, slashed));
                        return (false, events, Some(message));
                    }
                    return (false, Vec::new(), Some(message));
                },
            }
        }
        proof {
            lemma_first_fault_shift(self.blocks@, 0, self.blocks@.len() as int);
        }
        (true, Vec::new(), None)
    }

    /// Judges the evidence against one historical block: genesis and
    /// out-of-range indices are rejected outright; otherwise the block is
    /// re-validated against its stored predecessor and the first failure, if
    /// any, becomes evidence naming the block's validator. A well-formed
    /// block is not slashable.
    pub fn evaluate_evidence(&self, block_index: u64) -> (r: Result<Evidence, String>)
        requires
            self.wf(),
        ensures
            block_index == 0 ==> (match r {
                Err(m) => m@ == "Cannot slash genesis block"@,
                Ok(_) => false,
            }),
            block_index > 0 && block_index >= self.blocks@.len() ==> (match r {
                Err(m) => m@ == "Block index out of range"@,
                Ok(_) => false,
            }),
            0 < block_index < self.blocks@.len() ==> ({
                let v = block_verdict(
                    block_index as int,
                    self.blocks@[block_index as int - 1].hash@,
                    self.blocks@[block_index as int],
                );
                match r {
                    Ok(e) => {
                        &&& v == Some(e.reason)
                        &&& e.validator@ == (match self.blocks@[block_index as int].validator {
                            Some(x) => x@,
                            None => Seq::<char>::empty(),
                        })
                    },
                    Err(m) => v is None && m@ == "Block is not slashable"@,
                }
            }),
    {
        if block_index == 0 {
            return Err(String::from_str("Cannot slash genesis block"));
        }
        if block_index >= self.blocks.len() as u64 {
            return Err(String::from_str("Block index out of range"));
        }
        let i = block_index as usize;
        let verdict = Self::check_block(
            block_index,
            self.blocks[i - 1].hash.as_str(),
            &self.blocks[i],
        );
        match verdict {
            None => Err(String::from_str("Block is not slashable")),
            Some(reason) => {
                let validator = match &self.blocks[i].validator {
                    Some(v) => v.clone(),
                    None => String::new(),
                };
                Ok(Evidence { validator, reason, timestamp: now_unix() })
            },
        }
    }
}


impl Default for Blockchain {
    /// A fresh chain at difficulty two.
    fn default() -> (r: Blockchain)
        ensures
            r.wf(),
            r.blocks@.len() == 1,
            r.difficulty == 2,
            r.finalized_height == 0,
            r.blocks@[0].previous_hash@ == "0"@,
            r.blocks@[0].transactions@.len() == 1,
            r.blocks@[0].transactions@[0]@ == "Genesis Block"@,
            r.blocks@[0].hash@ == block_hash_of(r.blocks@[0]),
            r.blocks@[0].validator is None,
            r.blocks@[0].validator_public_key is None,
            r.blocks@[0].signature is None,
            r.blocks@[0].staker_set_hash is None,
            r.blocks@[0].staker_snapshot is None,
    {
        Blockchain::new(2)
    }
}

} // verus!
