//! The staker registry: an ordered set of validators with stake and keys.
//! Deposits move tokens into a distinguished staking-pool account and
//! withdrawals move them back, so the stakes always sum to the pool balance.
//! The registry's order is part of the staker-set commitment hash and drives
//! the deterministic stake-weighted leader selection.

use vstd::prelude::*;
use vstd::string::StrSliceExecFns;
use crate::hashing::{append_bytes, be_bytes_of, push_be_bytes, be64_of, be64_from, sha256,
    sha256_of, sha256_hex, sha256_hex_of};
use crate::token::Token;

verus! {

/// A registered validator: address, staked units, and the optional key pair.
/// The private key is held only locally and never enters a commitment.
pub struct Staker {
    pub address: String,
    pub stake: u64,
    pub public_key: Option<String>,
    pub private_key: Option<String>,
}

/// The distinguished account that holds all staked tokens.
pub open spec fn staking_pool() -> Seq<char> {
    "staking_pool"@
}

/// The staking-pool account name.
pub fn staking_pool_address() -> (r: &'static str)
    ensures
        r@ == staking_pool(),
{
    "staking_pool"
}

/// The sum of all stakes in a snapshot.
pub open spec fn sum_stakes(s: Seq<Staker>) -> int
    decreases s.len(),
{
    if s.len() == 0 {
        0
    } else {
        sum_stakes(s.drop_last()) + s.last().stake
    }
}

/// No two stakers share an address.
pub open spec fn unique_staker_addrs(s: Seq<Staker>) -> bool {
    forall|i: int, j: int| 0 <= i < j < s.len() ==> s[i].address@ != s[j].address@
}

/// Whether an entry for `addr` exists.
pub open spec fn has_staker(s: Seq<Staker>, addr: Seq<char>) -> bool {
    exists|i: int| 0 <= i < s.len() && s[i].address@ == addr
}

/// The first entry recorded for `addr`, scanning front to back.
pub open spec fn staker_at(s: Seq<Staker>, addr: Seq<char>) -> Option<Staker>
    decreases s.len(),
{
    if s.len() == 0 {
        None
    } else if s[0].address@ == addr {
        Some(s[0])
    } else {
        staker_at(s.drop_first(), addr)
    }
}

/// The stake recorded for `addr`; zero when absent.
pub open spec fn stake_of(s: Seq<Staker>, addr: Seq<char>) -> u64 {
    match staker_at(s, addr) {
        Some(e) => e.stake,
        None => 0u64,
    }
}

/// The view of an optional string.
pub open spec fn opt_str_view(o: Option<String>) -> Option<Seq<char>> {
    match o {
        Some(p) => Some(p@),
        None => None,
    }
}

pub proof fn lemma_sum_stakes_nonneg(s: Seq<Staker>)
    ensures
        sum_stakes(s) >= 0,
    decreases s.len(),
{
    if s.len() > 0 {
        lemma_sum_stakes_nonneg(s.drop_last());
    }
}

proof fn lemma_sum_stakes_drop_first(s: Seq<Staker>)
    requires
        s.len() > 0,
    ensures
        sum_stakes(s) == s[0].stake + sum_stakes(s.drop_first()),
    decreases s.len(),
{
    if s.len() == 1 {
        assert(s.drop_first() =~= Seq::<Staker>::empty());
        assert(s.drop_last() =~= Seq::<Staker>::empty());
        assert(sum_stakes(s.drop_first()) == 0);
        assert(sum_stakes(s.drop_last()) == 0);
        assert(s.last() == s[0]);
    } else {
        lemma_sum_stakes_drop_first(s.drop_last());
        assert(s.drop_last().drop_first() =~= s.drop_first().drop_last());
        assert(s.drop_first().last() == s.last());
        assert(s.drop_last()[0] == s[0]);
    }
}

/// No single stake exceeds the sum of all of them.
pub proof fn lemma_stake_le_sum(s: Seq<Staker>, addr: Seq<char>)
    ensures
        stake_of(s, addr) <= sum_stakes(s),
    decreases s.len(),
{
    if s.len() > 0 {
        lemma_sum_stakes_drop_first(s);
        if s[0].address@ == addr {
            lemma_sum_stakes_nonneg(s.drop_first());
        } else {
            lemma_stake_le_sum(s.drop_first(), addr);
            lemma_sum_stakes_nonneg(s.drop_first());
        }
    }
}

proof fn lemma_sum_stakes_update(s: Seq<Staker>, i: int, e: Staker)
    requires
        0 <= i < s.len(),
    ensures
        sum_stakes(s.update(i, e)) == sum_stakes(s) - s[i].stake + e.stake,
    decreases s.len(),
{
    if i == s.len() - 1 {
        assert(s.update(i, e).drop_last() =~= s.drop_last());
        assert(s.update(i, e).last() == e);
    } else {
        lemma_sum_stakes_update(s.drop_last(), i, e);
        assert(s.update(i, e).drop_last() =~= s.drop_last().update(i, e));
        assert(s.update(i, e).last() == s.last());
    }
}

proof fn lemma_sum_stakes_remove(s: Seq<Staker>, i: int)
    requires
        0 <= i < s.len(),
    ensures
        sum_stakes(s.remove(i)) == sum_stakes(s) - s[i].stake,
    decreases s.len(),
{
    if i == s.len() - 1 {
        assert(s.remove(i) =~= s.drop_last());
    } else {
        lemma_sum_stakes_remove(s.drop_last(), i);
        assert(s.remove(i).drop_last() =~= s.drop_last().remove(i));
        assert(s.remove(i).last() == s.last());
    }
}

proof fn lemma_staker_at_at(s: Seq<Staker>, i: int, addr: Seq<char>)
    requires
        0 <= i < s.len(),
        s[i].address@ == addr,
        forall|k: int| 0 <= k < i ==> s[k].address@ != addr,
    ensures
        staker_at(s, addr) == Some(s[i]),
    decreases i,
{
    if i > 0 {
        assert(forall|k: int|
            0 <= k < s.drop_first().len() ==> s.drop_first()[k] == s[k + 1]);
        lemma_staker_at_at(s.drop_first(), i - 1, addr);
    }
}

proof fn lemma_staker_at_absent(s: Seq<Staker>, addr: Seq<char>)
    requires
        !has_staker(s, addr),
    ensures
        staker_at(s, addr) is None,
    decreases s.len(),
{
    if s.len() > 0 {
        assert(forall|k: int|
            0 <= k < s.drop_first().len() ==> s.drop_first()[k] == s[k + 1]);
        lemma_staker_at_absent(s.drop_first(), addr);
    }
}

proof fn lemma_staker_at_update(s: Seq<Staker>, i: int, e: Staker, addr: Seq<char>)
    requires
        unique_staker_addrs(s),
        0 <= i < s.len(),
        e.address@ == s[i].address@,
    ensures
        staker_at(s.update(i, e), addr) == if addr == s[i].address@ {
            Some(e)
        } else {
            staker_at(s, addr)
        },
    decreases s.len(),
{
    let updated = s.update(i, e);
    if i == 0 {
        assert(updated[0] == e);
        assert(updated.drop_first() =~= s.drop_first());
    } else {
        assert(updated[0] == s[0]);
        assert(updated.drop_first() =~= s.drop_first().update(i - 1, e));
        if addr == s[0].address@ {
            assert(s[i].address@ != s[0].address@);
        } else {
            lemma_staker_at_update(s.drop_first(), i - 1, e, addr);
        }
    }
}

proof fn lemma_staker_at_push(s: Seq<Staker>, e: Staker, addr: Seq<char>)
    requires
        !has_staker(s, e.address@),
    ensures
        staker_at(s.push(e), addr) == if addr == e.address@ {
            Some(e)
        } else {
            staker_at(s, addr)
        },
    decreases s.len(),
{
    let pushed = s.push(e);
    if s.len() == 0 {
        assert(pushed[0] == e);
        assert(pushed.drop_first() =~= Seq::<Staker>::empty());
        assert(staker_at(pushed.drop_first(), addr) is None);
        assert(staker_at(s, addr) is None);
    } else {
        assert(pushed[0] == s[0]);
        assert(pushed.drop_first() =~= s.drop_first().push(e));
        assert(!has_staker(s.drop_first(), e.address@)) by {
            assert(forall|k: int|
                0 <= k < s.drop_first().len() ==> s.drop_first()[k] == s[k + 1]);
        }
        if addr == s[0].address@ {
            assert(s[0].address@ != e.address@);
        } else {
            lemma_staker_at_push(s.drop_first(), e, addr);
        }
    }
}

/// The committed bytes of one snapshot entry: the address bytes, the eight
/// big-endian bytes of the stake, then the public-key bytes when present.
/// The private key never enters the commitment.
pub open spec fn entry_bytes(e: Staker) -> Seq<u8> {
    vstd::utf8::encode_utf8(e.address@) + be_bytes_of(e.stake) + match e.public_key {
        Some(p) => vstd::utf8::encode_utf8(p@),
        None => Seq::<u8>::empty(),
    }
}

/// The concatenated commitment preimage of a snapshot, in registry order.
pub open spec fn commit_bytes(s: Seq<Staker>) -> Seq<u8>
    decreases s.len(),
{
    if s.len() == 0 {
        Seq::<u8>::empty()
    } else {
        commit_bytes(s.drop_last()) + entry_bytes(s.last())
    }
}

/// The staker-set commitment: the hex SHA-256 hash of the snapshot's
/// commitment preimage.
pub open spec fn set_hash_of(s: Seq<Staker>) -> Seq<char> {
    sha256_hex_of(commit_bytes(s))
}

/// Computes the staker-set commitment hash of a snapshot.
pub fn set_hash(snapshot: &Vec<Staker>) -> (r: String)
    ensures
        r@ == set_hash_of(snapshot@),
        r@.len() == 64,
{
    let mut preimage: Vec<u8> = Vec::new();
    let mut i: usize = 0;
    while i < snapshot.len()
        invariant
            i <= snapshot@.len(),
            preimage@ =~= commit_bytes(snapshot@.take(i as int)),
        decreases snapshot@.len() - i,
    {
        let entry = &snapshot[i];
        append_bytes(&mut preimage, entry.address.as_str().as_bytes());
        push_be_bytes(&mut preimage, entry.stake);
        match &entry.public_key {
            Some(p) => {
                append_bytes(&mut preimage, p.as_str().as_bytes());
            },
            None => {},
        }
        i = i + 1;
        proof {
            assert(snapshot@.take(i as int).drop_last() =~= snapshot@.take(i - 1));
            assert(snapshot@.take(i as int).last() == snapshot@[i - 1]);
            assert(preimage@ =~= commit_bytes(snapshot@.take(i as int)));
        }
    }
    proof {
        assert(snapshot@.take(snapshot@.len() as int) =~= snapshot@);
    }
    sha256_hex(preimage.as_slice())
}

proof fn lemma_staker_at_remove(s: Seq<Staker>, i: int, addr: Seq<char>)
    requires
        unique_staker_addrs(s),
        0 <= i < s.len(),
    ensures
        staker_at(s.remove(i), addr) == if addr == s[i].address@ {
            None::<Staker>
        } else {
            staker_at(s, addr)
        },
    decreases s.len(),
{
    let removed = s.remove(i);
    if i == 0 {
        assert(removed =~= s.drop_first());
        if addr == s[0].address@ {
            assert(!has_staker(s.drop_first(), addr)) by {
                assert(forall|k: int|
                    0 <= k < s.drop_first().len() ==> s.drop_first()[k] == s[k + 1]);
            }
            lemma_staker_at_absent(s.drop_first(), addr);
        }
    } else {
        assert(removed[0] == s[0]);
        assert(removed.drop_first() =~= s.drop_first().remove(i - 1));
        if addr == s[0].address@ {
            assert(s[i].address@ != s[0].address@);
        } else {
            lemma_staker_at_remove(s.drop_first(), i - 1, addr);
        }
    }
}


/// Errors the staking operations surface.
#[derive(Debug, Clone, Copy, PartialEq, Eq, Structural)]
pub enum StakeError {
    ZeroAmount,
    InvalidAddress,
    MissingKeys,
    InsufficientBalance,
    NoSuchStaker,
    InsufficientStake,
}

/// Copies an optional string.
pub fn clone_opt_string(o: &Option<String>) -> (r: Option<String>)
    ensures
        r == *o,
{
    match o {
        Some(p) => Some(p.clone()),
        None => None,
    }
}

/// The amount a slash of `percent` takes from `stake`:
/// `stake * percent / 100`, rounded down and capped at the stake itself.
pub open spec fn slash_amount(stake: u64, percent: u64) -> u64 {
    if (stake * percent) / 100 > stake {
        stake
    } else {
        ((stake * percent) / 100) as u64
    }
}

/// The ordered set of validators.
pub struct StakerRegistry {
    pub stakers: Vec<Staker>,
}

/// The stakes sum to the balance of the staking-pool account. It holds of a
/// fresh system and deposits and withdrawals preserve it; a slash burns
/// stake without touching the pool, after which only coverage still holds.
pub open spec fn conserved(reg: &StakerRegistry, token: &Token) -> bool {
    sum_stakes(reg.stakers@) == token.spec_balance_of(staking_pool())
}

/// The staking pool covers the stakes: their sum never exceeds its balance.
/// This is what every deposit and withdrawal needs and keeps, and it
/// survives slashing.
pub open spec fn covered(reg: &StakerRegistry, token: &Token) -> bool {
    sum_stakes(reg.stakers@) <= token.spec_balance_of(staking_pool())
}

impl StakerRegistry {
    /// Addresses are unique and the pool account itself never stakes.
    pub open spec fn wf(&self) -> bool {
        &&& unique_staker_addrs(self.stakers@)
        &&& !has_staker(self.stakers@, staking_pool())
    }

    /// The entry recorded for `addr`.
    pub open spec fn spec_staker_at(&self, addr: Seq<char>) -> Option<Staker> {
        staker_at(self.stakers@, addr)
    }

    /// The stake recorded for `addr`; zero when absent.
    pub open spec fn spec_stake_of(&self, addr: Seq<char>) -> u64 {
        stake_of(self.stakers@, addr)
    }

    /// An empty registry.
    pub fn new() -> (r: StakerRegistry)
        ensures
            r.wf(),
            r.stakers@.len() == 0,
            sum_stakes(r.stakers@) == 0,
    {
        StakerRegistry { stakers: Vec::new() }
    }

    /// Finds the entry index for `addr`, if one exists.
    fn find_staker(&self, addr: &String) -> (r: Option<usize>)
        ensures
            match r {
                Some(i) => {
                    &&& i < self.stakers@.len()
                    &&& self.stakers@[i as int].address@ == addr@
                    &&& forall|k: int| 0 <= k < i ==> self.stakers@[k].address@ != addr@
                    &&& self.spec_staker_at(addr@) == Some(self.stakers@[i as int])
                },
                None => !has_staker(self.stakers@, addr@) && self.spec_staker_at(addr@) is None,
            },
    {
        let mut i: usize = 0;
        while i < self.stakers.len()
            invariant
                i <= self.stakers@.len(),
                forall|k: int| 0 <= k < i ==> self.stakers@[k].address@ != addr@,
            decreases self.stakers@.len() - i,
        {
            if self.stakers[i].address.eq(addr) {
                proof {
                    lemma_staker_at_at(self.stakers@, i as int, addr@);
                }
                return Some(i);
            }
            i = i + 1;
        }
        proof {
            lemma_staker_at_absent(self.stakers@, addr@);
        }
        None
    }

    /// Stakes `amount` for `address`: moves the tokens into the pool, then
    /// adds to an existing entry (overwriting keys where new ones are given)
    /// or registers a new staker, who must bring both keys. Fails on a zero
    /// amount, on the pool account itself, on a new staker without keys, and
    /// on an insufficient token balance; a failure changes nothing.
    pub fn deposit(
        &mut self,
        token: &mut Token,
        address: &str,
        amount: u64,
        public_key: Option<String>,
        private_key: Option<String>,
    ) -> (r: Result<(), StakeError>)
        requires
            old(self).wf(),
            old(token).wf(),
            covered(old(self), old(token)),
        ensures
            final(self).wf(),
            final(token).wf(),
            covered(final(self), final(token)),
            conserved(old(self), old(token)) ==> conserved(final(self), final(token)),
            final(token).total_supply == old(token).total_supply,
            match r {
                Err(StakeError::ZeroAmount) => amount == 0,
                Err(StakeError::InvalidAddress) => amount > 0 && address@ == staking_pool(),
                Err(StakeError::MissingKeys) => {
                    &&& amount > 0
                    &&& address@ != staking_pool()
                    &&& !has_staker(old(self).stakers@, address@)
                    &&& (public_key is None || private_key is None)
                },
                Err(StakeError::InsufficientBalance) => {
                    &&& amount > 0
                    &&& address@ != staking_pool()
                    &&& (has_staker(old(self).stakers@, address@) || (public_key is Some
                        && private_key is Some))
                    &&& old(token).spec_balance_of(address@) < amount
                },
                Ok(()) => {
                    &&& amount > 0
                    &&& address@ != staking_pool()
                    &&& old(token).spec_balance_of(address@) >= amount
                    &&& final(token).spec_balance_of(address@) == old(token).spec_balance_of(
                        address@,
                    ) - amount
                    &&& final(token).spec_balance_of(staking_pool()) == old(
                        token,
                    ).spec_balance_of(staking_pool()) + amount
                    &&& final(self).spec_stake_of(address@) == old(self).spec_stake_of(address@)
                        + amount
                    &&& has_staker(final(self).stakers@, address@)
                    &&& (match final(self).spec_staker_at(address@) {
                        Some(e) => {
                            &&& opt_str_view(e.public_key) == (if public_key is Some {
                                opt_str_view(public_key)
                            } else {
                                match old(self).spec_staker_at(address@) {
                                    Some(o) => opt_str_view(o.public_key),
                                    None => None,
                                }
                            })
                            &&& opt_str_view(e.private_key) == (if private_key is Some {
                                opt_str_view(private_key)
                            } else {
                                match old(self).spec_staker_at(address@) {
                                    Some(o) => opt_str_view(o.private_key),
                                    None => None,
                                }
                            })
                        },
                        None => false,
                    })
                    &&& forall|a: Seq<char>|
                        a != address@ ==> final(self).spec_staker_at(a) == old(
                            self,
                        ).spec_staker_at(a)
                },
                _ => false,
            },
            r is Err ==> *final(self) == *old(self) && *final(token) == *old(token),
    {
        if amount == 0 {
            return Err(StakeError::ZeroAmount);
        }
        let key = address.to_owned();
        let pool = staking_pool_address().to_owned();
        if key == pool {
            return Err(StakeError::InvalidAddress);
        }
        let found = self.find_staker(&key);
        if found.is_none() && (public_key.is_none() || private_key.is_none()) {
            return Err(StakeError::MissingKeys);
        }
        if !token.transfer(address, staking_pool_address(), amount) {
            return Err(StakeError::InsufficientBalance);
        }
        proof {
            lemma_stake_le_sum(self.stakers@, key@);
        }
        match found {
            Some(i) => {
                let ghost stakers = self.stakers@;
                let old_entry = &self.stakers[i];
                let new_stake = old_entry.stake + amount;
                let new_public = match public_key {
                    Some(p) => Some(p),
                    None => clone_opt_string(&old_entry.public_key),
                };
                let new_private = match private_key {
                    Some(p) => Some(p),
                    None => clone_opt_string(&old_entry.private_key),
                };
                let entry = Staker {
                    address: key,
                    stake: new_stake,
                    public_key: new_public,
                    private_key: new_private,
                };
                self.stakers.set(i, entry);
                proof {
                    let e = self.stakers@[i as int];
                    assert(self.stakers@ =~= stakers.update(i as int, e));
                    lemma_sum_stakes_update(stakers, i as int, e);
                    assert forall|a: Seq<char>|
                        staker_at(self.stakers@, a) == if a == address@ {
                            Some(e)
                        } else {
                            staker_at(stakers, a)
                        } by {
                        lemma_staker_at_update(stakers, i as int, e, a);
                    }
                    assert(unique_staker_addrs(self.stakers@));
                }
            },
            None => {
                let ghost stakers = self.stakers@;
                let entry = Staker {
                    address: key,
                    stake: amount,
                    public_key,
                    private_key,
                };
                self.stakers.push(entry);
                proof {
                    let e = self.stakers@.last();
                    assert(self.stakers@ =~= stakers.push(e));
                    assert(self.stakers@.drop_last() =~= stakers);
                    assert forall|a: Seq<char>|
                        staker_at(self.stakers@, a) == if a == address@ {
                            Some(e)
                        } else {
                            staker_at(stakers, a)
                        } by {
                        lemma_staker_at_push(stakers, e, a);
                    }
                    assert(unique_staker_addrs(self.stakers@));
                }
            },
        }
        Ok(())
    }

    /// Unstakes `amount` for `address`: moves the tokens back out of the
    /// pool, decrements the stake, and removes the entry when it reaches
    /// zero. Fails on a zero amount, an unknown staker, or a stake smaller
    /// than the amount; a failure changes nothing.
    pub fn withdraw(&mut self, token: &mut Token, address: &str, amount: u64) -> (r: Result<
        (),
        StakeError,
    >)
        requires
            old(self).wf(),
            old(token).wf(),
            covered(old(self), old(token)),
        ensures
            final(self).wf(),
            final(token).wf(),
            covered(final(self), final(token)),
            conserved(old(self), old(token)) ==> conserved(final(self), final(token)),
            final(token).total_supply == old(token).total_supply,
            match r {
                Err(StakeError::ZeroAmount) => amount == 0,
                Err(StakeError::NoSuchStaker) => amount > 0 && !has_staker(
                    old(self).stakers@,
                    address@,
                ),
                Err(StakeError::InsufficientStake) => {
                    &&& amount > 0
                    &&& has_staker(old(self).stakers@, address@)
                    &&& old(self).spec_stake_of(address@) < amount
                },
                Ok(()) => {
                    &&& amount > 0
                    &&& old(self).spec_stake_of(address@) >= amount
                    &&& final(self).spec_stake_of(address@) == old(self).spec_stake_of(address@)
                        - amount
                    &&& final(token).spec_balance_of(address@) == old(token).spec_balance_of(
                        address@,
                    ) + amount
                    &&& final(token).spec_balance_of(staking_pool()) == old(
                        token,
                    ).spec_balance_of(staking_pool()) - amount
                    &&& (old(self).spec_stake_of(address@) == amount ==> !has_staker(
                        final(self).stakers@,
                        address@,
                    ))
                    &&& (old(self).spec_stake_of(address@) > amount ==> has_staker(
                        final(self).stakers@,
                        address@,
                    ))
                    &&& forall|a: Seq<char>|
                        a != address@ ==> final(self).spec_staker_at(a) == old(
                            self,
                        ).spec_staker_at(a)
                },
                _ => false,
            },
            r is Err ==> *final(self) == *old(self) && *final(token) == *old(token),
    {
        if amount == 0 {
            return Err(StakeError::ZeroAmount);
        }
        let key = address.to_owned();
        let found = self.find_staker(&key);
        match found {
            None => Err(StakeError::NoSuchStaker),
            Some(i) => {
                let entry_stake = self.stakers[i].stake;
                if entry_stake < amount {
                    return Err(StakeError::InsufficientStake);
                }
                proof {
                    lemma_stake_le_sum(self.stakers@, key@);
                    assert(address@ != staking_pool());
                }
                let moved = token.transfer(staking_pool_address(), address, amount);
                proof {
                    assert(moved);
                }
                let ghost stakers = self.stakers@;
                if entry_stake == amount {
                    self.stakers.remove(i);
                    proof {
                        assert(self.stakers@ =~= stakers.remove(i as int));
                        lemma_sum_stakes_remove(stakers, i as int);
                        assert forall|a: Seq<char>|
                            staker_at(self.stakers@, a) == if a == address@ {
                                None::<Staker>
                            } else {
                                staker_at(stakers, a)
                            } by {
                            lemma_staker_at_remove(stakers, i as int, a);
                        }
                        assert(unique_staker_addrs(self.stakers@)) by {
                            assert(forall|k: int|
                                0 <= k < self.stakers@.len() ==> self.stakers@[k] == (if k < i {
                                    stakers[k]
                                } else {
                                    stakers[k + 1]
                                }));
                        }
                        assert(!has_staker(self.stakers@, address@)) by {
                            lemma_staker_at_absent_converse(self.stakers@, address@);
                        }
                    }
                } else {
                    let old_entry = &self.stakers[i];
                    let entry = Staker {
                        address: key,
                        stake: entry_stake - amount,
                        public_key: clone_opt_string(&old_entry.public_key),
                        private_key: clone_opt_string(&old_entry.private_key),
                    };
                    self.stakers.set(i, entry);
                    proof {
                        let e = self.stakers@[i as int];
                        assert(self.stakers@ =~= stakers.update(i as int, e));
                        lemma_sum_stakes_update(stakers, i as int, e);
                        assert forall|a: Seq<char>|
                            staker_at(self.stakers@, a) == if a == address@ {
                                Some(e)
                            } else {
                                staker_at(stakers, a)
                            } by {
                            lemma_staker_at_update(stakers, i as int, e, a);
                        }
                        assert(unique_staker_addrs(self.stakers@));
                    }
                }
                Ok(())
            },
        }
    }

    /// Slashes `address` by `percent`: the stake drops by
    /// `slash_amount(stake, percent)` and the amount is returned; an unknown
    /// address is slashed for zero. The tokens in the pool are untouched, so
    /// slashing burns the stake from this address's point of view. The entry
    /// stays even at stake zero.
    pub fn slash(&mut self, address: &str, percent: u64) -> (slashed: u64)
        requires
            old(self).wf(),
        ensures
            final(self).wf(),
            slashed == slash_amount(old(self).spec_stake_of(address@), percent),
            !has_staker(old(self).stakers@, address@) ==> slashed == 0 && *final(self) == *old(
                self,
            ),
            final(self).spec_stake_of(address@) == old(self).spec_stake_of(address@) - slashed,
            has_staker(final(self).stakers@, address@) == has_staker(
                old(self).stakers@,
                address@,
            ),
            forall|a: Seq<char>|
                a != address@ ==> final(self).spec_staker_at(a) == old(self).spec_staker_at(a),
            sum_stakes(final(self).stakers@) == sum_stakes(old(self).stakers@) - slashed,
    {
        let key = address.to_owned();
        match self.find_staker(&key) {
            None => {
                proof {
                    assert(stake_of(self.stakers@, address@) == 0);
                    assert((0u64 * percent) / 100 == 0) by (nonlinear_arith);
                }
                0
            },
            Some(i) => {
                let ghost stakers = self.stakers@;
                let old_entry = &self.stakers[i];
                let stake = old_entry.stake;
                proof {
                    assert((stake as int) * (percent as int) <= 0xffff_ffff_ffff_ffff
                        * 0xffff_ffff_ffff_ffff) by (nonlinear_arith)
                        requires
                            stake <= 0xffff_ffff_ffff_ffffu64,
                            percent <= 0xffff_ffff_ffff_ffffu64,
                    ;
                }
                let product = (stake as u128) * (percent as u128);
                let quotient = product / 100;
                let slashed = if quotient > (stake as u128) {
                    stake
                } else {
                    quotient as u64
                };
                proof {
                    assert(slashed == slash_amount(stake, percent));
                }
                let entry = Staker {
                    address: key,
                    stake: stake - slashed,
                    public_key: clone_opt_string(&old_entry.public_key),
                    private_key: clone_opt_string(&old_entry.private_key),
                };
                self.stakers.set(i, entry);
                proof {
                    let e = self.stakers@[i as int];
                    assert(self.stakers@ =~= stakers.update(i as int, e));
                    lemma_sum_stakes_update(stakers, i as int, e);
                    assert forall|a: Seq<char>|
                        staker_at(self.stakers@, a) == if a == address@ {
                            Some(e)
                        } else {
                            staker_at(stakers, a)
                        } by {
                        lemma_staker_at_update(stakers, i as int, e, a);
                    }
                    assert(unique_staker_addrs(self.stakers@));
                }
                slashed
            },
        }
    }

    /// The live entry for `address`, if one is registered.
    pub fn get_staker(&self, address: &str) -> (r: Option<&Staker>)
        ensures
            match r {
                Some(e) => self.spec_staker_at(address@) == Some(*e),
                None => self.spec_staker_at(address@) is None,
            },
    {
        let key = address.to_owned();
        match self.find_staker(&key) {
            Some(i) => Some(&self.stakers[i]),
            None => None,
        }
    }

    /// An ordered copy of the registry with the private keys elided: what a
    /// mined block embeds as its staker snapshot.
    pub fn snapshot(&self) -> (snap: Vec<Staker>)
        ensures
            snap@.len() == self.stakers@.len(),
            forall|i: int|
                0 <= i < snap@.len() ==> {
                    &&& snap@[i].address@ == self.stakers@[i].address@
                    &&& snap@[i].stake == self.stakers@[i].stake
                    &&& opt_str_view(snap@[i].public_key) == opt_str_view(
                        self.stakers@[i].public_key,
                    )
                    &&& snap@[i].private_key is None
                },
    {
        let mut snap: Vec<Staker> = Vec::new();
        let mut i: usize = 0;
        while i < self.stakers.len()
            invariant
                i <= self.stakers@.len(),
                snap@.len() == i,
                forall|k: int|
                    0 <= k < i ==> {
                        &&& snap@[k].address@ == self.stakers@[k].address@
                        &&& snap@[k].stake == self.stakers@[k].stake
                        &&& opt_str_view(snap@[k].public_key) == opt_str_view(
                            self.stakers@[k].public_key,
                        )
                        &&& snap@[k].private_key is None
                    },
            decreases self.stakers@.len() - i,
        {
            let entry = &self.stakers[i];
            snap.push(
                Staker {
                    address: entry.address.clone(),
                    stake: entry.stake,
                    public_key: clone_opt_string(&entry.public_key),
                    private_key: None,
                },
            );
            i = i + 1;
        }
        snap
    }
}

/// The registered entry exists whenever the address does.
pub proof fn lemma_staker_at_absent_converse(s: Seq<Staker>, addr: Seq<char>)
    requires
        staker_at(s, addr) is None,
    ensures
        !has_staker(s, addr),
    decreases s.len(),
{
    if s.len() > 0 {
        assert(forall|k: int|
            0 <= k < s.drop_first().len() ==> s.drop_first()[k] == s[k + 1]);
        lemma_staker_at_absent_converse(s.drop_first(), addr);
        if has_staker(s, addr) {
            let i = choose|i: int| 0 <= i < s.len() && s[i].address@ == addr;
            if i > 0 {
                assert(s.drop_first()[i - 1].address@ == addr);
            }
            assert(false);
        }
    }
}


/// The staker a draw of `point` lands on: walk the snapshot in order and
/// take the first entry whose stake still exceeds the remaining point.
pub open spec fn pick_staker(s: Seq<Staker>, point: int) -> Option<Seq<char>>
    decreases s.len(),
{
    if s.len() == 0 {
        None
    } else if point < s[0].stake {
        Some(s[0].address@)
    } else {
        pick_staker(s.drop_first(), point - s[0].stake)
    }
}

/// The 64-bit draw a seed determines: the first eight bytes of the seed's
/// SHA-256 digest, read big-endian.
pub open spec fn seed_value(seed: Seq<char>) -> u64 {
    be64_of(sha256_of(vstd::utf8::encode_utf8(seed)))
}

/// Deterministic stake-weighted selection: none when the total stake is zero
/// (or exceeds the 64-bit range), else the staker on whom the seed's draw,
/// reduced modulo the total stake, lands.
pub open spec fn spec_select(seed: Seq<char>, s: Seq<Staker>) -> Option<Seq<char>> {
    let total = sum_stakes(s);
    if total == 0 || total > u64::MAX {
        None
    } else {
        pick_staker(s, (seed_value(seed) as int) % total)
    }
}

proof fn lemma_commit_pointwise(a: Seq<Staker>, b: Seq<Staker>)
    requires
        a.len() == b.len(),
        forall|i: int|
            0 <= i < a.len() ==> {
                &&& a[i].address@ == b[i].address@
                &&& a[i].stake == b[i].stake
                &&& opt_str_view(a[i].public_key) == opt_str_view(b[i].public_key)
            },
    ensures
        commit_bytes(a) == commit_bytes(b),
    decreases a.len(),
{
    if a.len() > 0 {
        lemma_commit_pointwise(a.drop_last(), b.drop_last());
        let x = a.last();
        let y = b.last();
        if x.public_key is Some {
            assert(y.public_key is Some && y.public_key->0@ == x.public_key->0@);
        } else {
            assert(y.public_key is None);
        }
        assert(entry_bytes(x) == entry_bytes(y));
    }
}

/// The commitment reads only the addresses, stakes and public keys: two
/// snapshots that agree on them entry for entry commit to the same hash.
pub proof fn lemma_set_hash_pointwise(a: Seq<Staker>, b: Seq<Staker>)
    requires
        a.len() == b.len(),
        forall|i: int|
            0 <= i < a.len() ==> {
                &&& a[i].address@ == b[i].address@
                &&& a[i].stake == b[i].stake
                &&& opt_str_view(a[i].public_key) == opt_str_view(b[i].public_key)
            },
    ensures
        set_hash_of(a) == set_hash_of(b),
{
    lemma_commit_pointwise(a, b);
}

/// A draw below the total stake always lands on some staker.
pub proof fn lemma_pick_in_range(s: Seq<Staker>, point: int)
    requires
        0 <= point < sum_stakes(s),
    ensures
        pick_staker(s, point) is Some,
    decreases s.len(),
{
    if s.len() == 0 {
    } else {
        lemma_sum_stakes_drop_first(s);
        if point >= s[0].stake {
            lemma_pick_in_range(s.drop_first(), point - s[0].stake);
        }
    }
}

/// A successful draw names an address the snapshot holds.
pub proof fn lemma_pick_member(s: Seq<Staker>, point: int)
    requires
        pick_staker(s, point) is Some,
    ensures
        has_staker(s, pick_staker(s, point)->Some_0),
    decreases s.len(),
{
    if s.len() > 0 && point >= s[0].stake {
        lemma_pick_member(s.drop_first(), point - s[0].stake);
        let a = pick_staker(s.drop_first(), point - s[0].stake)->Some_0;
        let i = choose|i: int| 0 <= i < s.drop_first().len() && s.drop_first()[i].address@ == a;
        assert(s[i + 1].address@ == a);
    }
}

proof fn lemma_pick_pointwise(a: Seq<Staker>, b: Seq<Staker>, point: int)
    requires
        a.len() == b.len(),
        forall|i: int|
            0 <= i < a.len() ==> a[i].address@ == b[i].address@ && a[i].stake == b[i].stake,
    ensures
        pick_staker(a, point) == pick_staker(b, point),
    decreases a.len(),
{
    if a.len() > 0 && point >= a[0].stake {
        assert(forall|i: int|
            0 <= i < a.drop_first().len() ==> a.drop_first()[i] == a[i + 1] && b.drop_first()[i]
                == b[i + 1]);
        lemma_pick_pointwise(a.drop_first(), b.drop_first(), point - a[0].stake);
    }
}

/// Selection reads only the addresses and stakes: two snapshots that agree
/// on them entry for entry select the same validator for every seed.
pub proof fn lemma_select_pointwise(seed: Seq<char>, a: Seq<Staker>, b: Seq<Staker>)
    requires
        a.len() == b.len(),
        forall|i: int|
            0 <= i < a.len() ==> a[i].address@ == b[i].address@ && a[i].stake == b[i].stake,
    ensures
        spec_select(seed, a) == spec_select(seed, b),
{
    lemma_sum_stakes_pointwise(a, b);
    let total = sum_stakes(a);
    if !(total == 0 || total > u64::MAX) {
        lemma_pick_pointwise(a, b, (seed_value(seed) as int) % total);
    }
}

proof fn lemma_sum_stakes_take_le(s: Seq<Staker>, i: int)
    requires
        0 <= i <= s.len(),
    ensures
        sum_stakes(s.take(i)) <= sum_stakes(s),
    decreases s.len(),
{
    if i == s.len() {
        assert(s.take(i) =~= s);
    } else {
        assert(s.drop_last().take(i) =~= s.take(i));
        lemma_sum_stakes_take_le(s.drop_last(), i);
    }
}

/// Selects the validator entitled to propose the next block: every staker
/// wins with weight proportional to its stake, and the choice is a function
/// of the seed and the snapshot (order included) alone.
pub fn select_staker(seed: &str, stakers: &Vec<Staker>) -> (r: Option<String>)
    ensures
        match r {
            Some(a) => spec_select(seed@, stakers@) == Some(a@),
            None => spec_select(seed@, stakers@) is None,
        },
{
    let mut total: u64 = 0;
    let mut i: usize = 0;
    while i < stakers.len()
        invariant
            i <= stakers@.len(),
            total == sum_stakes(stakers@.take(i as int)),
        decreases stakers@.len() - i,
    {
        let st = stakers[i].stake;
        proof {
            assert(stakers@.take(i + 1).drop_last() =~= stakers@.take(i as int));
            assert(stakers@.take(i + 1).last() == stakers@[i as int]);
        }
        if total > u64::MAX - st {
            proof {
                lemma_sum_stakes_take_le(stakers@, i + 1);
            }
            return None;
        }
        total = total + st;
        i = i + 1;
    }
    proof {
        assert(stakers@.take(stakers@.len() as int) =~= stakers@);
    }
    if total == 0 {
        return None;
    }
    let digest = sha256(seed.as_bytes());
    let value = be64_from(digest.as_slice());
    let ghost point0 = (seed_value(seed@) as int) % (sum_stakes(stakers@) as int);
    let mut point: u64 = value % total;
    let mut j: usize = 0;
    proof {
        assert(stakers@.skip(0) =~= stakers@);
    }
    while j < stakers.len()
        invariant
            j <= stakers@.len(),
            pick_staker(stakers@.skip(j as int), point as int) == pick_staker(stakers@, point0),
            point < sum_stakes(stakers@.skip(j as int)),
            spec_select(seed@, stakers@) == pick_staker(stakers@, point0),
        decreases stakers@.len() - j,
    {
        let st = stakers[j].stake;
        proof {
            assert(stakers@.skip(j as int)[0] == stakers@[j as int]);
            assert(stakers@.skip(j as int).drop_first() =~= stakers@.skip(j + 1));
            lemma_sum_stakes_drop_first(stakers@.skip(j as int));
        }
        if point < st {
            return Some(stakers[j].address.clone());
        }
        point = point - st;
        j = j + 1;
    }
    proof {
        assert(stakers@.skip(stakers@.len() as int) =~= Seq::<Staker>::empty());
        assert(false);
    }
    None
}


/// Two snapshots that agree stake-for-stake have the same total.
pub proof fn lemma_sum_stakes_pointwise(a: Seq<Staker>, b: Seq<Staker>)
    requires
        a.len() == b.len(),
        forall|i: int| 0 <= i < a.len() ==> a[i].stake == b[i].stake,
    ensures
        sum_stakes(a) == sum_stakes(b),
    decreases a.len(),
{
    if a.len() > 0 {
        lemma_sum_stakes_pointwise(a.drop_last(), b.drop_last());
    }
}

} // verus!
