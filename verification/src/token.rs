//! The fungible token ledger: named accounts with unsigned balances. The
//! ledger's invariant is conservation — the balances always sum to the total
//! supply — which also rules out overflow on transfers.

use vstd::prelude::*;

verus! {

/// The balance recorded for `addr`, scanning the entries front to back;
/// absent accounts hold zero.
pub open spec fn lookup_balance(entries: Seq<(String, u64)>, addr: Seq<char>) -> u64
    decreases entries.len(),
{
    if entries.len() == 0 {
        0u64
    } else if entries[0].0@ == addr {
        entries[0].1
    } else {
        lookup_balance(entries.drop_first(), addr)
    }
}

/// Whether an entry for `addr` exists.
pub open spec fn has_account(entries: Seq<(String, u64)>, addr: Seq<char>) -> bool {
    exists|i: int| 0 <= i < entries.len() && entries[i].0@ == addr
}

/// The sum of all recorded balances.
pub open spec fn sum_balances(entries: Seq<(String, u64)>) -> int
    decreases entries.len(),
{
    if entries.len() == 0 {
        0
    } else {
        sum_balances(entries.drop_last()) + entries.last().1
    }
}

/// No two entries share an address.
pub open spec fn unique_addrs(entries: Seq<(String, u64)>) -> bool {
    forall|i: int, j: int| 0 <= i < j < entries.len() ==> entries[i].0@ != entries[j].0@
}

proof fn lemma_sum_drop_first(entries: Seq<(String, u64)>)
    requires
        entries.len() > 0,
    ensures
        sum_balances(entries) == entries[0].1 + sum_balances(entries.drop_first()),
    decreases entries.len(),
{
    if entries.len() == 1 {
        assert(entries.drop_first() =~= Seq::<(String, u64)>::empty());
        assert(entries.drop_last() =~= Seq::<(String, u64)>::empty());
        assert(sum_balances(entries.drop_first()) == 0);
        assert(sum_balances(entries.drop_last()) == 0);
        assert(entries.last() == entries[0]);
    } else {
        lemma_sum_drop_first(entries.drop_last());
        assert(entries.drop_last().drop_first() =~= entries.drop_first().drop_last());
        assert(entries.drop_first().last() == entries.last());
        assert(entries.drop_last()[0] == entries[0]);
    }
}

proof fn lemma_sum_nonneg(entries: Seq<(String, u64)>)
    ensures
        sum_balances(entries) >= 0,
    decreases entries.len(),
{
    if entries.len() > 0 {
        lemma_sum_nonneg(entries.drop_last());
    }
}

/// No single balance exceeds the sum of all of them.
pub proof fn lemma_lookup_le_sum(entries: Seq<(String, u64)>, addr: Seq<char>)
    ensures
        lookup_balance(entries, addr) <= sum_balances(entries),
    decreases entries.len(),
{
    if entries.len() == 0 {
    } else {
        lemma_sum_drop_first(entries);
        if entries[0].0@ == addr {
            lemma_sum_nonneg(entries.drop_first());
        } else {
            lemma_lookup_le_sum(entries.drop_first(), addr);
        }
    }
}

proof fn lemma_sum_update(entries: Seq<(String, u64)>, i: int, e: (String, u64))
    requires
        0 <= i < entries.len(),
    ensures
        sum_balances(entries.update(i, e)) == sum_balances(entries) - entries[i].1 + e.1,
    decreases entries.len(),
{
    if i == entries.len() - 1 {
        assert(entries.update(i, e).drop_last() =~= entries.drop_last());
        assert(entries.update(i, e).last() == e);
    } else {
        lemma_sum_update(entries.drop_last(), i, e);
        assert(entries.update(i, e).drop_last() =~= entries.drop_last().update(i, e));
        assert(entries.update(i, e).last() == entries.last());
    }
}

proof fn lemma_lookup_update_one(
    entries: Seq<(String, u64)>,
    i: int,
    e: (String, u64),
    addr: Seq<char>,
)
    requires
        unique_addrs(entries),
        0 <= i < entries.len(),
        e.0@ == entries[i].0@,
    ensures
        lookup_balance(entries.update(i, e), addr) == if addr == entries[i].0@ {
            e.1
        } else {
            lookup_balance(entries, addr)
        },
    decreases entries.len(),
{
    let updated = entries.update(i, e);
    if i == 0 {
        assert(updated[0] == e);
        assert(updated.drop_first() =~= entries.drop_first());
    } else {
        assert(updated[0] == entries[0]);
        assert(updated.drop_first() =~= entries.drop_first().update(i - 1, e));
        if addr == entries[0].0@ {
            assert(entries[i].0@ != entries[0].0@);
        } else {
            lemma_lookup_update_one(entries.drop_first(), i - 1, e, addr);
        }
    }
}

proof fn lemma_lookup_push_one(
    entries: Seq<(String, u64)>,
    e: (String, u64),
    addr: Seq<char>,
)
    requires
        !has_account(entries, e.0@),
    ensures
        lookup_balance(entries.push(e), addr) == if addr == e.0@ {
            e.1
        } else {
            lookup_balance(entries, addr)
        },
    decreases entries.len(),
{
    let pushed = entries.push(e);
    if entries.len() == 0 {
        assert(pushed[0] == e);
        assert(pushed.drop_first() =~= Seq::<(String, u64)>::empty());
        assert(lookup_balance(pushed.drop_first(), addr) == 0);
        assert(lookup_balance(entries, addr) == 0);
    } else {
        assert(pushed[0] == entries[0]);
        assert(pushed.drop_first() =~= entries.drop_first().push(e));
        assert(!has_account(entries.drop_first(), e.0@)) by {
            assert(forall|k: int|
                0 <= k < entries.drop_first().len() ==> entries.drop_first()[k] == entries[k + 1]);
        }
        if addr == entries[0].0@ {
            assert(entries[0].0@ != e.0@);
        } else {
            lemma_lookup_push_one(entries.drop_first(), e, addr);
        }
    }
}

/// A fungible token ledger with named accounts.
pub struct Token {
    pub name: String,
    pub symbol: String,
    pub total_supply: u64,
    pub balances: Vec<(String, u64)>,
}

impl Token {
    /// Addresses are unique and the balances sum to the total supply.
    pub open spec fn wf(&self) -> bool {
        &&& unique_addrs(self.balances@)
        &&& sum_balances(self.balances@) == self.total_supply
    }

    /// The balance the ledger holds for `addr`.
    pub open spec fn spec_balance_of(&self, addr: Seq<char>) -> u64 {
        lookup_balance(self.balances@, addr)
    }

    /// Opens the ledger with the whole supply on the owner's account.
    pub fn new(name: &str, symbol: &str, initial_supply: u64, owner: &str) -> (t: Token)
        ensures
            t.wf(),
            t.name@ == name@,
            t.symbol@ == symbol@,
            t.total_supply == initial_supply,
            t.spec_balance_of(owner@) == initial_supply,
            forall|a: Seq<char>| a != owner@ ==> t.spec_balance_of(a) == 0,
    {
        let mut balances: Vec<(String, u64)> = Vec::new();
        balances.push((owner.to_owned(), initial_supply));
        let t = Token { name: name.to_owned(), symbol: symbol.to_owned(), total_supply: initial_supply, balances };
        proof {
            assert(t.balances@.drop_last() =~= Seq::<(String, u64)>::empty());
            assert(sum_balances(t.balances@.drop_last()) == 0);
            assert forall|a: Seq<char>| a != owner@ implies t.spec_balance_of(a) == 0 by {
                assert(t.balances@.drop_first() =~= Seq::<(String, u64)>::empty());
                assert(lookup_balance(t.balances@.drop_first(), a) == 0);
            }
        }
        t
    }

    /// Finds the entry index for `addr`, if one exists.
    fn find_account(&self, addr: &String) -> (r: Option<usize>)
        ensures
            match r {
                Some(i) => {
                    &&& i < self.balances@.len()
                    &&& self.balances@[i as int].0@ == addr@
                    &&& forall|k: int| 0 <= k < i ==> self.balances@[k].0@ != addr@
                },
                None => !has_account(self.balances@, addr@),
            },
    {
        let mut i: usize = 0;
        while i < self.balances.len()
            invariant
                i <= self.balances@.len(),
                forall|k: int| 0 <= k < i ==> self.balances@[k].0@ != addr@,
            decreases self.balances@.len() - i,
        {
            if self.balances[i].0.eq(addr) {
                return Some(i);
            }
            i = i + 1;
        }
        None
    }

    proof fn lemma_absent_is_zero(entries: Seq<(String, u64)>, addr: Seq<char>)
        requires
            !has_account(entries, addr),
        ensures
            lookup_balance(entries, addr) == 0,
        decreases entries.len(),
    {
        if entries.len() > 0 {
            assert(forall|k: int|
                0 <= k < entries.drop_first().len() ==> entries.drop_first()[k] == entries[k + 1]);
            Self::lemma_absent_is_zero(entries.drop_first(), addr);
        }
    }

    /// The recorded balance of `address`; zero for unknown accounts.
    pub fn balance_of(&self, address: &str) -> (r: u64)
        ensures
            r == self.spec_balance_of(address@),
    {
        let key = address.to_owned();
        match self.find_account(&key) {
            Some(i) => {
                proof {
                    Self::lemma_lookup_at(self.balances@, i as int, address@);
                }
                self.balances[i].1
            },
            None => {
                proof {
                    Self::lemma_absent_is_zero(self.balances@, address@);
                }
                0
            },
        }
    }

    proof fn lemma_lookup_at(entries: Seq<(String, u64)>, i: int, addr: Seq<char>)
        requires
            0 <= i < entries.len(),
            entries[i].0@ == addr,
            forall|k: int| 0 <= k < i ==> entries[k].0@ != addr,
        ensures
            lookup_balance(entries, addr) == entries[i].1,
        decreases i,
    {
        if i > 0 {
            assert(forall|k: int|
                0 <= k < entries.drop_first().len() ==> entries.drop_first()[k] == entries[k + 1]);
            Self::lemma_lookup_at(entries.drop_first(), i - 1, addr);
        }
    }

    /// Writes `v` as the balance of `addr`, inserting the account if new.
    /// Every other account keeps its balance.
    fn set_balance(&mut self, addr: &String, v: u64)
        requires
            unique_addrs(old(self).balances@),
        ensures
            unique_addrs(final(self).balances@),
            final(self).spec_balance_of(addr@) == v,
            forall|a: Seq<char>|
                a != addr@ ==> final(self).spec_balance_of(a) == old(self).spec_balance_of(a),
            sum_balances(final(self).balances@) == sum_balances(old(self).balances@) - old(
                self,
            ).spec_balance_of(addr@) + v,
            final(self).name@ == old(self).name@,
            final(self).symbol@ == old(self).symbol@,
            final(self).total_supply == old(self).total_supply,
    {
        match self.find_account(addr) {
            Some(i) => {
                let ghost entries = self.balances@;
                let key = addr.clone();
                self.balances.set(i, (key, v));
                proof {
                    let e = self.balances@[i as int];
                    assert(self.balances@ =~= entries.update(i as int, e));
                    lemma_sum_update(entries, i as int, e);
                    assert(forall|k: int| 0 <= k < i ==> entries[k].0@ != entries[i as int].0@);
                    Self::lemma_lookup_at(entries, i as int, addr@);
                    assert forall|a: Seq<char>|
                        lookup_balance(self.balances@, a) == if a == addr@ {
                            v
                        } else {
                            lookup_balance(entries, a)
                        } by {
                        lemma_lookup_update_one(entries, i as int, e, a);
                    }
                    assert(unique_addrs(self.balances@));
                }
            },
            None => {
                let ghost entries = self.balances@;
                let key = addr.clone();
                self.balances.push((key, v));
                proof {
                    let e = self.balances@.last();
                    assert(self.balances@ =~= entries.push(e));
                    assert(self.balances@.drop_last() =~= entries);
                    Self::lemma_absent_is_zero(entries, addr@);
                    assert forall|a: Seq<char>|
                        lookup_balance(self.balances@, a) == if a == addr@ {
                            v
                        } else {
                            lookup_balance(entries, a)
                        } by {
                        lemma_lookup_push_one(entries, e, a);
                    }
                    assert(unique_addrs(self.balances@));
                }
            },
        }
    }

    /// Moves `amount` from one account to another. Succeeds exactly when the
    /// source balance covers the amount; a transfer to the same account
    /// leaves the ledger unchanged.
    pub fn transfer(&mut self, from: &str, to: &str, amount: u64) -> (r: bool)
        requires
            old(self).wf(),
        ensures
            final(self).wf(),
            r == (old(self).spec_balance_of(from@) >= amount),
            final(self).total_supply == old(self).total_supply,
            final(self).name@ == old(self).name@,
            final(self).symbol@ == old(self).symbol@,
            !r ==> *final(self) == *old(self),
            r && from@ == to@ ==> final(self).balances@ == old(self).balances@,
            r && from@ != to@ ==> {
                &&& final(self).spec_balance_of(from@) == old(self).spec_balance_of(from@)
                    - amount
                &&& final(self).spec_balance_of(to@) == old(self).spec_balance_of(to@) + amount
                &&& forall|a: Seq<char>|
                    a != from@ && a != to@ ==> final(self).spec_balance_of(a) == old(
                        self,
                    ).spec_balance_of(a)
            },
    {
        let from_balance = self.balance_of(from);
        if from_balance < amount {
            return false;
        }
        let from_key = from.to_owned();
        let to_key = to.to_owned();
        if from_key == to_key {
            return true;
        }
        self.set_balance(&from_key, from_balance - amount);
        let to_balance = self.balance_of(to);
        proof {
            lemma_lookup_le_sum(self.balances@, to@);
        }
        self.set_balance(&to_key, to_balance + amount);
        true
    }

    /// Creates `amount` new tokens on `to`'s account, growing the supply.
    /// The caller keeps the supply within the 64-bit range.
    pub fn mint(&mut self, to: &str, amount: u64)
        requires
            old(self).wf(),
            old(self).total_supply + amount <= u64::MAX,
        ensures
            final(self).wf(),
            final(self).total_supply == old(self).total_supply + amount,
            final(self).spec_balance_of(to@) == old(self).spec_balance_of(to@) + amount,
            forall|a: Seq<char>|
                a != to@ ==> final(self).spec_balance_of(a) == old(self).spec_balance_of(a),
            final(self).name@ == old(self).name@,
            final(self).symbol@ == old(self).symbol@,
    {
        let to_key = to.to_owned();
        let to_balance = self.balance_of(to);
        proof {
            lemma_lookup_le_sum(self.balances@, to@);
            lemma_sum_nonneg(self.balances@);
        }
        self.set_balance(&to_key, to_balance + amount);
        self.total_supply = self.total_supply + amount;
    }
}

} // verus!
