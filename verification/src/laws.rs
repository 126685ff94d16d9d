//! The library's standing guarantees, each proved once and for all: what a
//! valid chain says about every block it holds, how the stake-weighted draw
//! distributes over the stakers, and what a slash takes.

use vstd::prelude::*;
use crate::block::{Block, block_hash_of, pow_ok};
use crate::chain::{block_verdict, chain_valid, first_fault_from, replay_verdict};
use crate::pow::zero_prefix;
use crate::signer::ecdsa_verifies;
use crate::staking::{Staker, pick_staker, seed_value, set_hash_of, spec_select, sum_stakes,
    lemma_pick_in_range, lemma_sum_stakes_nonneg};

verus! {

proof fn lemma_valid_replay(blocks: Seq<Block>, j: int, i: int)
    requires
        first_fault_from(blocks, j) is None,
        0 <= j <= i < blocks.len(),
    ensures
        replay_verdict(blocks, i) is None,
    decreases i - j,
{
    if j < i {
        lemma_valid_replay(blocks, j + 1, i);
    }
}

/// Hash determinism: in a valid chain, every block's recorded hash is
/// exactly the hash its fields and nonce determine.
pub proof fn law_hash_determinism(blocks: Seq<Block>, i: int)
    requires
        chain_valid(blocks),
        0 <= i < blocks.len(),
    ensures
        blocks[i].hash@ == block_hash_of(blocks[i]),
{
    reveal(block_verdict);
    reveal(pow_ok);
    lemma_valid_replay(blocks, 0, i);
}

/// Proof-of-work prefix: in a valid chain, every block's hash starts with
/// its difficulty's worth of zero characters.
pub proof fn law_pow_prefix(blocks: Seq<Block>, i: int)
    requires
        chain_valid(blocks),
        0 <= i < blocks.len(),
    ensures
        zero_prefix(blocks[i].hash@, blocks[i].difficulty as nat),
{
    reveal(block_verdict);
    reveal(pow_ok);
    lemma_valid_replay(blocks, 0, i);
}

/// Chain linkage: in a valid chain, every non-genesis block names its
/// predecessor's hash.
pub proof fn law_chain_linkage(blocks: Seq<Block>, i: int)
    requires
        chain_valid(blocks),
        0 < i < blocks.len(),
    ensures
        blocks[i].previous_hash@ == blocks[i - 1].hash@,
        blocks[i].index == i,
{
    reveal(block_verdict);
    lemma_valid_replay(blocks, 0, i);
}

/// Commitment soundness: in a valid chain, every non-genesis block's
/// staker-set hash is exactly the commitment of its embedded snapshot.
pub proof fn law_commitment_soundness(blocks: Seq<Block>, i: int)
    requires
        chain_valid(blocks),
        0 < i < blocks.len(),
    ensures
        blocks[i].staker_snapshot is Some,
        blocks[i].staker_set_hash is Some,
        set_hash_of(blocks[i].staker_snapshot->Some_0@) == blocks[i].staker_set_hash->Some_0@,
{
    reveal(block_verdict);
    lemma_valid_replay(blocks, 0, i);
}

/// Signature validity: in a valid chain, every non-genesis block carries a
/// signature on its own hash that verifies under its recorded public key.
pub proof fn law_signature_validity(blocks: Seq<Block>, i: int)
    requires
        chain_valid(blocks),
        0 < i < blocks.len(),
    ensures
        blocks[i].validator_public_key is Some,
        blocks[i].signature is Some,
        ecdsa_verifies(
            blocks[i].hash@,
            blocks[i].validator_public_key->Some_0@,
            blocks[i].signature->Some_0@,
        ),
{
    reveal(block_verdict);
    lemma_valid_replay(blocks, 0, i);
}

/// The total stake standing before position `i` of a snapshot.
pub open spec fn stakes_before(s: Seq<Staker>, i: int) -> int {
    sum_stakes(s.take(i))
}

/// Selection weight: a draw lands on the staker at position `i` exactly on
/// the `stake` many points from the prefix sum before `i` up to the prefix
/// sum through `i` — so each entry wins with weight proportional to its
/// stake.
pub proof fn law_selection_weight(s: Seq<Staker>, i: int, point: int)
    requires
        0 <= i < s.len(),
        stakes_before(s, i) <= point < stakes_before(s, i) + s[i].stake,
    ensures
        pick_staker(s, point) == Some(s[i].address@),
    decreases i,
{
    assert(s.take(i + 1).drop_last() =~= s.take(i));
    assert(s.take(i + 1).last() == s[i]);
    if i == 0 {
        assert(s.take(0) =~= Seq::<Staker>::empty());
        assert(sum_stakes(s.take(0)) == 0);
    } else {
        let rest = s.drop_first();
        assert(s.take(1) =~= seq![s[0]]);
        assert(s.take(1).drop_last() =~= Seq::<Staker>::empty());
        assert(sum_stakes(s.take(1).drop_last()) == 0);
        assert(s.take(1).last() == s[0]);
        assert(sum_stakes(s.take(1)) == s[0].stake);
        lemma_take_stakes_split(s, i);
        lemma_sum_stakes_nonneg(rest.take(i - 1));
        assert(point >= s[0].stake);
        assert(rest.take(i - 1) =~= s.take(i).drop_first());
        law_selection_weight(rest, i - 1, point - s[0].stake);
        assert(rest[i - 1] == s[i]);
    }
}

proof fn lemma_take_stakes_split(s: Seq<Staker>, i: int)
    requires
        1 <= i <= s.len(),
    ensures
        sum_stakes(s.take(i)) == s[0].stake + sum_stakes(s.drop_first().take(i - 1)),
    decreases i,
{
    if i == 1 {
        assert(s.take(1).drop_last() =~= Seq::<Staker>::empty());
        assert(s.take(1).last() == s[0]);
        assert(s.drop_first().take(0) =~= Seq::<Staker>::empty());
    } else {
        lemma_take_stakes_split(s, i - 1);
        assert(s.take(i).drop_last() =~= s.take(i - 1));
        assert(s.take(i).last() == s[i - 1]);
        assert(s.drop_first().take(i - 1).drop_last() =~= s.drop_first().take(i - 2));
        assert(s.drop_first().take(i - 1).last() == s[i - 1]);
    }
}

/// Selection totality: whenever the snapshot carries usable stake, the
/// stake-weighted selection names a validator, for every seed.
pub proof fn law_selection_totality(seed: Seq<char>, s: Seq<Staker>)
    requires
        0 < sum_stakes(s) <= u64::MAX,
    ensures
        spec_select(seed, s) is Some,
{
    lemma_pick_in_range(s, (seed_value(seed) as int) % sum_stakes(s));
}

/// Slash arithmetic: with the percentage inside its governed range, a slash
/// takes exactly the rounded-down percentage of the stake and never more
/// than the stake itself, so twice-applied slashes compound on the reduced
/// stake.
pub proof fn law_slash_amount_exact(stake: u64, percent: u64)
    requires
        percent <= 100,
    ensures
        crate::staking::slash_amount(stake, percent) == (stake * percent) / 100,
        crate::staking::slash_amount(stake, percent) <= stake,
{
    assert((stake * percent) / 100 <= stake) by (nonlinear_arith)
        requires
            percent <= 100,
            stake >= 0,
    ;
}

} // verus!
