//! The mining coordinator: reads the chain tip as the selection seed, takes
//! a private-key-free snapshot of the registry with its commitment hash,
//! runs the stake-weighted selection, renders the pending transactions,
//! mines and signs the next block, validates it like any candidate, appends
//! it, and applies finality. Any failure leaves the chain and the pending
//! queue untouched, and every failure names a condition that actually held
//! of the very candidate the coordinator built.

use vstd::prelude::*;
use vstd::string::StringExecFns;
use vstd::string::StrSliceExecFns;
use crate::block::{Block, block_hash_of, block_payload};
use crate::chain::{Blockchain, RejectReason, block_verdict};
use crate::pow::{candidate_hash, unmineable, zero_prefix};
use crate::signer::{ecdsa_sig_of, ecdsa_signable, ecdsa_verifies, pubkey_of};
use crate::staking::{Staker, StakerRegistry, opt_str_view, set_hash, set_hash_of, select_staker,
    staker_at, spec_select, sum_stakes, pick_staker, seed_value, lemma_select_pointwise,
    lemma_set_hash_pointwise, lemma_pick_member, lemma_staker_at_absent_converse};
use crate::transaction::{Transaction, describe_tx};

verus! {

/// Why no block was produced.
#[derive(Debug)]
pub enum MineError {
    /// The pending queue is empty and the chain has more than the genesis
    /// block: an informational outcome, not a fault.
    NothingToMine,
    /// The staker set carries no usable stake.
    NoValidators,
    /// The selected staker lacks a public or private key.
    MissingKeys,
    /// The signing library rejected the key material; the message is its own.
    SigningFailed(String),
    /// The finished block did not pass the candidate checks.
    Rejected(RejectReason),
}

/// There is something to put in a block: pending transactions, or a
/// genesis-only chain owed its bootstrap block.
pub open spec fn work_available(pending: Seq<Transaction>, chain_len: int) -> bool {
    pending.len() > 0 || chain_len == 1
}

/// The staker registered under `addr` carries both of its keys.
pub open spec fn keys_complete(s: Seq<Staker>, addr: Seq<char>) -> bool {
    match staker_at(s, addr) {
        Some(e) => e.public_key is Some && e.private_key is Some,
        None => false,
    }
}

/// The block the coordinator builds before signing it, short of nothing but
/// the signature: position and linkage at the tip, the given timestamp and
/// difficulty, the selected validator with its registered key and the
/// registry's commitment, the bootstrap or rendered transactions, its own
/// recomputable hash, and the first-qualifying nonce.
pub open spec fn coordinator_candidate(
    b: Block,
    expected_index: int,
    previous_hash: Seq<char>,
    timestamp: u64,
    difficulty: usize,
    validator: Seq<char>,
    public_key: Seq<char>,
    commitment: Seq<char>,
    pending: Seq<Transaction>,
) -> bool {
    &&& b.index == expected_index
    &&& b.previous_hash@ == previous_hash
    &&& b.timestamp == timestamp
    &&& b.difficulty == difficulty
    &&& b.validator is Some && b.validator->0@ == validator
    &&& b.validator_public_key is Some && b.validator_public_key->0@ == public_key
    &&& b.staker_set_hash is Some && b.staker_set_hash->0@ == commitment
    &&& (if pending.len() == 0 {
        &&& b.transactions@.len() == 2
        &&& b.transactions@[0]@ == "First mined block - Blockchain is now active!"@
        &&& b.transactions@[1]@ == "Validator: "@ + validator
    } else {
        &&& b.transactions@.len() == pending.len()
        &&& forall|i: int|
            0 <= i < pending.len() ==> b.transactions@[i]@ == describe_tx(pending[i])
    })
    &&& b.hash@ == block_hash_of(b)
    &&& b.hash@.len() == 64
    &&& forall|m: u64|
        m < b.nonce ==> !zero_prefix(candidate_hash(block_payload(b), m), difficulty as nat)
}

/// Produces, signs, appends and finalizes the next block. On success the
/// result is the new block's index; the appended block passes the full
/// candidate verdict against the old tip, names the selected validator,
/// embeds a private-key-free copy of the registry, carries the bootstrap
/// transactions on a genesis-only chain and the rendered pending
/// transactions otherwise, and the pending queue is cleared. Each error
/// comes exactly on its own condition: no work, no selectable stake, a
/// selected staker without keys, or — over the coordinator's own pinned
/// candidate — key material the signer rejects, a registered public key
/// under which the key's deterministic signature does not verify, or an
/// unmineable payload. On any error nothing changes.
pub fn mine_next(
    chain: &mut Blockchain,
    registry: &StakerRegistry,
    pending: &mut Vec<Transaction>,
    now: u64,
    finality_depth: u64,
) -> (r: Result<u64, MineError>)
    requires
        old(chain).wf(),
        old(chain).blocks@.len() < u64::MAX,
    ensures
        final(chain).wf(),
        final(chain).difficulty == old(chain).difficulty,
        final(chain).finalized_height >= old(chain).finalized_height,
        r is Err ==> *final(chain) == *old(chain) && *final(pending) == *old(pending),
        ({
            let work = work_available(old(pending)@, old(chain).blocks@.len() as int);
            let selection = spec_select(old(chain).spec_latest_hash(), registry.stakers@);
            &&& (!work ==> (r matches Err(MineError::NothingToMine)))
            &&& (work && selection is None ==> (r matches Err(MineError::NoValidators)))
            &&& ((work && selection is Some && !keys_complete(
                registry.stakers@,
                selection->Some_0,
            )) ==> (r matches Err(MineError::MissingKeys)))
            &&& match r {
                Ok(index) => {
                    let b = final(chain).blocks@.last();
                    &&& work
                    &&& selection == Some(b.validator->Some_0@)
                    &&& keys_complete(registry.stakers@, b.validator->Some_0@)
                    &&& index == old(chain).blocks@.len()
                    &&& final(chain).blocks@.len() == old(chain).blocks@.len() + 1
                    &&& final(chain).blocks@.drop_last() == old(chain).blocks@
                    &&& block_verdict(
                        old(chain).blocks@.len() as int,
                        old(chain).spec_latest_hash(),
                        b,
                    ) is None
                    &&& b.timestamp == now
                    &&& b.difficulty == old(chain).difficulty
                    &&& (match b.staker_snapshot {
                        Some(sn) => {
                            &&& sn@.len() == registry.stakers@.len()
                            &&& forall|i: int|
                                0 <= i < sn@.len() ==> {
                                    &&& sn@[i].address@ == registry.stakers@[i].address@
                                    &&& sn@[i].stake == registry.stakers@[i].stake
                                    &&& opt_str_view(sn@[i].public_key) == opt_str_view(
                                        registry.stakers@[i].public_key,
                                    )
                                    &&& sn@[i].private_key is None
                                }
                        },
                        None => false,
                    })
                    &&& (if old(pending)@.len() == 0 {
                        &&& old(chain).blocks@.len() == 1
                        &&& b.transactions@.len() == 2
                        &&& b.transactions@[0]@
                            == "First mined block - Blockchain is now active!"@
                        &&& b.transactions@[1]@ == "Validator: "@ + b.validator->Some_0@
                    } else {
                        &&& b.transactions@.len() == old(pending)@.len()
                        &&& forall|i: int|
                            0 <= i < b.transactions@.len() ==> b.transactions@[i]@ == describe_tx(
                                old(pending)@[i],
                            )
                    })
                    &&& final(pending)@.len() == 0
                    &&& final(chain).finalized_height == if final(chain).blocks@.len()
                        > finality_depth && final(chain).blocks@.len() - 1 - finality_depth > old(
                        chain,
                    ).finalized_height {
                        (final(chain).blocks@.len() - 1 - finality_depth) as u64
                    } else {
                        old(chain).finalized_height
                    }
                },
                Err(e) => match e {
                    MineError::NothingToMine => !work,
                    MineError::NoValidators => work && selection is None,
                    MineError::MissingKeys => {
                        &&& work
                        &&& selection is Some
                        &&& !keys_complete(registry.stakers@, selection->Some_0)
                    },
                    MineError::SigningFailed(_) => {
                        &&& work
                        &&& selection is Some
                        &&& keys_complete(registry.stakers@, selection->Some_0)
                        &&& (match staker_at(registry.stakers@, selection->Some_0) {
                            Some(entry) => exists|b: Block|
                                #[trigger] coordinator_candidate(
                                    b,
                                    old(chain).blocks@.len() as int,
                                    old(chain).spec_latest_hash(),
                                    now,
                                    old(chain).difficulty,
                                    selection->Some_0,
                                    entry.public_key->0@,
                                    set_hash_of(registry.stakers@),
                                    old(pending)@,
                                ) && !ecdsa_signable(b.hash@, entry.private_key->0@),
                            None => false,
                        })
                    },
                    MineError::Rejected(reason) => {
                        &&& work
                        &&& selection is Some
                        &&& keys_complete(registry.stakers@, selection->Some_0)
                        &&& (reason is BadSignature || reason is BadProofOfWork)
                        &&& (match staker_at(registry.stakers@, selection->Some_0) {
                            Some(entry) => exists|b: Block|
                                #[trigger] coordinator_candidate(
                                    b,
                                    old(chain).blocks@.len() as int,
                                    old(chain).spec_latest_hash(),
                                    now,
                                    old(chain).difficulty,
                                    selection->Some_0,
                                    entry.public_key->0@,
                                    set_hash_of(registry.stakers@),
                                    old(pending)@,
                                ) && ecdsa_signable(b.hash@, entry.private_key->0@) && (
                                reason is BadSignature ==> !ecdsa_verifies(
                                    b.hash@,
                                    entry.public_key->0@,
                                    ecdsa_sig_of(b.hash@, entry.private_key->0@),
                                )) && (reason is BadProofOfWork ==> unmineable(
                                    block_payload(b),
                                    old(chain).difficulty as nat,
                                )),
                            None => false,
                        })
                        &&& (reason is BadSignature ==> (match staker_at(
                            registry.stakers@,
                            selection->Some_0,
                        ) {
                            Some(entry) => opt_str_view(entry.public_key) != Some(
                                pubkey_of(entry.private_key->0@),
                            ),
                            None => false,
                        }))
                    },
                },
            }
        }),
{
    if pending.len() == 0 && chain.blocks.len() != 1 {
        return Err(MineError::NothingToMine);
    }
    let seed = chain.latest_hash();
    let snapshot = registry.snapshot();
    let commitment = set_hash(&snapshot);
    let ghost commitment_view = commitment@;
    proof {
        assert forall|i: int| 0 <= i < snapshot@.len() implies snapshot@[i].address@
            == registry.stakers@[i].address@ && snapshot@[i].stake == registry.stakers@[i].stake
            && opt_str_view(snapshot@[i].public_key) == opt_str_view(
            registry.stakers@[i].public_key,
        ) by {}
        lemma_select_pointwise(seed@, snapshot@, registry.stakers@);
        lemma_set_hash_pointwise(snapshot@, registry.stakers@);
    }
    let selected = match select_staker(seed.as_str(), &snapshot) {
        Some(a) => a,
        None => {
            return Err(MineError::NoValidators);
        },
    };
    let ghost sel = selected@;
    proof {
        assert(spec_select(seed@, registry.stakers@) == Some(sel));
        let total = sum_stakes(registry.stakers@);
        let point = (seed_value(seed@) as int) % total;
        assert(pick_staker(registry.stakers@, point) == Some(sel));
        lemma_pick_member(registry.stakers@, point);
    }
    let (public_key, private_key) = match registry.get_staker(selected.as_str()) {
        Some(staker) => match (&staker.public_key, &staker.private_key) {
            (Some(p), Some(k)) => (p.clone(), k.clone()),
            _ => {
                return Err(MineError::MissingKeys);
            },
        },
        None => {
            proof {
                lemma_staker_at_absent_converse(registry.stakers@, sel);
                assert(false);
            }
            return Err(MineError::MissingKeys);
        },
    };
    let ghost entry = staker_at(registry.stakers@, sel)->Some_0;
    let ghost public_key_view = public_key@;
    let mut transactions: Vec<String> = Vec::new();
    if pending.len() == 0 {
        transactions.push(String::from_str("First mined block - Blockchain is now active!"));
        let mut tagged = String::from_str("Validator: ");
        tagged.append(selected.as_str());
        transactions.push(tagged);
    } else {
        let mut i: usize = 0;
        while i < pending.len()
            invariant
                i <= pending@.len(),
                transactions@.len() == i,
                forall|k: int|
                    0 <= k < i ==> transactions@[k]@ == describe_tx(pending@[k]),
                *pending == *old(pending),
            decreases pending@.len() - i,
        {
            transactions.push(pending[i].describe());
            i = i + 1;
        }
    }
    let ghost txs = transactions@;
    let mut block = chain.create_block(
        transactions,
        selected,
        public_key,
        commitment,
        snapshot,
        now,
    );
    proof {
        assert(coordinator_candidate(
            block,
            old(chain).blocks@.len() as int,
            old(chain).spec_latest_hash(),
            now,
            old(chain).difficulty,
            sel,
            entry.public_key->0@,
            set_hash_of(registry.stakers@),
            old(pending)@,
        ));
    }
    let signature = match crate::signer::sign(block.hash.as_str(), private_key.as_str()) {
        Ok(s) => s,
        Err(e) => {
            proof {
                assert(entry.private_key->0@ == private_key@);
                assert(!ecdsa_signable(block.hash@, entry.private_key->0@));
            }
            return Err(MineError::SigningFailed(e));
        },
    };
    let ghost unsigned = block;
    block.signature = Some(signature);
    proof {
        assert(block_payload(block) == block_payload(unsigned));
        assert(coordinator_candidate(
            block,
            old(chain).blocks@.len() as int,
            old(chain).spec_latest_hash(),
            now,
            old(chain).difficulty,
            sel,
            entry.public_key->0@,
            set_hash_of(registry.stakers@),
            old(pending)@,
        ));
    }
    match chain.validate_candidate(&block) {
        Ok(()) => {
            proof {
                reveal(block_verdict);
            }
        },
        Err(reason) => {
            proof {
                reveal(block_verdict);
                reveal(crate::block::pow_ok);
                assert(reason is BadSignature || reason is BadProofOfWork);
                assert(ecdsa_signable(block.hash@, entry.private_key->0@));
                if reason is BadProofOfWork {
                    assert(!zero_prefix(block.hash@, chain.difficulty as nat));
                    assert(unmineable(block_payload(block), chain.difficulty as nat));
                }
                if reason is BadSignature {
                    assert(block.signature->0@ == ecdsa_sig_of(
                        block.hash@,
                        entry.private_key->0@,
                    ));
                    assert(!ecdsa_verifies(
                        block.hash@,
                        entry.public_key->0@,
                        ecdsa_sig_of(block.hash@, entry.private_key->0@),
                    ));
                    assert(ecdsa_verifies(
                        block.hash@,
                        pubkey_of(private_key@),
                        block.signature->0@,
                    ));
                    assert(opt_str_view(entry.public_key) != Some(
                        pubkey_of(entry.private_key->0@),
                    ));
                }
            }
            return Err(MineError::Rejected(reason));
        },
    }
    let index = chain.blocks.len() as u64;
    chain.append(block);
    pending.clear();
    chain.apply_finality(finality_depth);
    proof {
        assert(final(chain).blocks@.drop_last() =~= old(chain).blocks@);
    }
    Ok(index)
}

} // verus!
