//! A small string-keyed map over an association vector, with exact contracts
//! for insert, lookup and removal. The authentication manager keeps its
//! nonces and sessions in two of these.

use vstd::prelude::*;

verus! {

/// The first value recorded for `key`, scanning front to back.
pub open spec fn kv_at(entries: Seq<(String, String)>, key: Seq<char>) -> Option<Seq<char>>
    decreases entries.len(),
{
    if entries.len() == 0 {
        None
    } else if entries[0].0@ == key {
        Some(entries[0].1@)
    } else {
        kv_at(entries.drop_first(), key)
    }
}

/// Whether an entry for `key` exists.
pub open spec fn kv_has(entries: Seq<(String, String)>, key: Seq<char>) -> bool {
    exists|i: int| 0 <= i < entries.len() && entries[i].0@ == key
}

/// No two entries share a key.
pub open spec fn kv_unique(entries: Seq<(String, String)>) -> bool {
    forall|i: int, j: int| 0 <= i < j < entries.len() ==> entries[i].0@ != entries[j].0@
}

proof fn lemma_kv_at_at(entries: Seq<(String, String)>, i: int, key: Seq<char>)
    requires
        0 <= i < entries.len(),
        entries[i].0@ == key,
        forall|k: int| 0 <= k < i ==> entries[k].0@ != key,
    ensures
        kv_at(entries, key) == Some(entries[i].1@),
    decreases i,
{
    if i > 0 {
        assert(forall|k: int|
            0 <= k < entries.drop_first().len() ==> entries.drop_first()[k] == entries[k + 1]);
        lemma_kv_at_at(entries.drop_first(), i - 1, key);
    }
}

proof fn lemma_kv_at_absent(entries: Seq<(String, String)>, key: Seq<char>)
    requires
        !kv_has(entries, key),
    ensures
        kv_at(entries, key) is None,
    decreases entries.len(),
{
    if entries.len() > 0 {
        assert(forall|k: int|
            0 <= k < entries.drop_first().len() ==> entries.drop_first()[k] == entries[k + 1]);
        lemma_kv_at_absent(entries.drop_first(), key);
    }
}

proof fn lemma_kv_at_update(entries: Seq<(String, String)>, i: int, e: (String, String), key: Seq<
    char,
>)
    requires
        kv_unique(entries),
        0 <= i < entries.len(),
        e.0@ == entries[i].0@,
    ensures
        kv_at(entries.update(i, e), key) == if key == entries[i].0@ {
            Some(e.1@)
        } else {
            kv_at(entries, key)
        },
    decreases entries.len(),
{
    let updated = entries.update(i, e);
    if i == 0 {
        assert(updated[0] == e);
        assert(updated.drop_first() =~= entries.drop_first());
    } else {
        assert(updated[0] == entries[0]);
        assert(updated.drop_first() =~= entries.drop_first().update(i - 1, e));
        if key == entries[0].0@ {
            assert(entries[i].0@ != entries[0].0@);
        } else {
            lemma_kv_at_update(entries.drop_first(), i - 1, e, key);
        }
    }
}

proof fn lemma_kv_at_push(entries: Seq<(String, String)>, e: (String, String), key: Seq<char>)
    requires
        !kv_has(entries, e.0@),
    ensures
        kv_at(entries.push(e), key) == if key == e.0@ {
            Some(e.1@)
        } else {
            kv_at(entries, key)
        },
    decreases entries.len(),
{
    let pushed = entries.push(e);
    if entries.len() == 0 {
        assert(pushed[0] == e);
        assert(pushed.drop_first() =~= Seq::<(String, String)>::empty());
        assert(kv_at(pushed.drop_first(), key) is None);
        assert(kv_at(entries, key) is None);
    } else {
        assert(pushed[0] == entries[0]);
        assert(pushed.drop_first() =~= entries.drop_first().push(e));
        assert(!kv_has(entries.drop_first(), e.0@)) by {
            assert(forall|k: int|
                0 <= k < entries.drop_first().len() ==> entries.drop_first()[k] == entries[k + 1]);
        }
        if key == entries[0].0@ {
            assert(entries[0].0@ != e.0@);
        } else {
            lemma_kv_at_push(entries.drop_first(), e, key);
        }
    }
}

proof fn lemma_kv_at_remove(entries: Seq<(String, String)>, i: int, key: Seq<char>)
    requires
        kv_unique(entries),
        0 <= i < entries.len(),
    ensures
        kv_at(entries.remove(i), key) == if key == entries[i].0@ {
            None::<Seq<char>>
        } else {
            kv_at(entries, key)
        },
    decreases entries.len(),
{
    let removed = entries.remove(i);
    if i == 0 {
        assert(removed =~= entries.drop_first());
        if key == entries[0].0@ {
            assert(!kv_has(entries.drop_first(), key)) by {
                assert(forall|k: int|
                    0 <= k < entries.drop_first().len() ==> entries.drop_first()[k] == entries[k + 1]);
            }
            lemma_kv_at_absent(entries.drop_first(), key);
        }
    } else {
        assert(removed[0] == entries[0]);
        assert(removed.drop_first() =~= entries.drop_first().remove(i - 1));
        if key == entries[0].0@ {
            assert(entries[i].0@ != entries[0].0@);
        } else {
            lemma_kv_at_remove(entries.drop_first(), i - 1, key);
        }
    }
}

/// A string-keyed map kept as an insertion-ordered vector of pairs.
pub struct StrMap {
    pub entries: Vec<(String, String)>,
}

impl StrMap {
    /// Keys are unique.
    pub open spec fn wf(&self) -> bool {
        kv_unique(self.entries@)
    }

    /// The value stored under `key`.
    pub open spec fn spec_get(&self, key: Seq<char>) -> Option<Seq<char>> {
        kv_at(self.entries@, key)
    }

    /// An empty map.
    pub fn new() -> (r: StrMap)
        ensures
            r.wf(),
            r.entries@.len() == 0,
            forall|k: Seq<char>| r.spec_get(k) is None,
    {
        let r = StrMap { entries: Vec::new() };
        proof {
            assert(forall|k: Seq<char>| kv_at(r.entries@, k) is None);
        }
        r
    }

    fn find(&self, key: &String) -> (r: Option<usize>)
        ensures
            match r {
                Some(i) => {
                    &&& i < self.entries@.len()
                    &&& self.entries@[i as int].0@ == key@
                    &&& forall|k: int| 0 <= k < i ==> self.entries@[k].0@ != key@
                },
                None => !kv_has(self.entries@, key@),
            },
    {
        let mut i: usize = 0;
        while i < self.entries.len()
            invariant
                i <= self.entries@.len(),
                forall|k: int| 0 <= k < i ==> self.entries@[k].0@ != key@,
            decreases self.entries@.len() - i,
        {
            if self.entries[i].0.eq(key) {
                return Some(i);
            }
            i = i + 1;
        }
        None
    }

    /// The value stored under `key`, copied out.
    pub fn get(&self, key: &str) -> (r: Option<String>)
        ensures
            match r {
                Some(v) => self.spec_get(key@) == Some(v@),
                None => self.spec_get(key@) is None,
            },
    {
        let owned = key.to_owned();
        match self.find(&owned) {
            Some(i) => {
                proof {
                    lemma_kv_at_at(self.entries@, i as int, key@);
                }
                Some(self.entries[i].1.clone())
            },
            None => {
                proof {
                    lemma_kv_at_absent(self.entries@, key@);
                }
                None
            },
        }
    }

    /// Stores `value` under `key`, replacing any earlier value.
    pub fn insert(&mut self, key: &str, value: String)
        requires
            old(self).wf(),
        ensures
            final(self).wf(),
            final(self).spec_get(key@) == Some(value@),
            forall|k: Seq<char>| k != key@ ==> final(self).spec_get(k) == old(self).spec_get(k),
    {
        let owned = key.to_owned();
        match self.find(&owned) {
            Some(i) => {
                let ghost entries = self.entries@;
                self.entries.set(i, (owned, value));
                proof {
                    let e = self.entries@[i as int];
                    assert(self.entries@ =~= entries.update(i as int, e));
                    assert forall|k: Seq<char>|
                        kv_at(self.entries@, k) == if k == key@ {
                            Some(e.1@)
                        } else {
                            kv_at(entries, k)
                        } by {
                        lemma_kv_at_update(entries, i as int, e, k);
                    }
                    assert(kv_unique(self.entries@));
                }
            },
            None => {
                let ghost entries = self.entries@;
                self.entries.push((owned, value));
                proof {
                    let e = self.entries@.last();
                    assert(self.entries@ =~= entries.push(e));
                    assert forall|k: Seq<char>|
                        kv_at(self.entries@, k) == if k == key@ {
                            Some(e.1@)
                        } else {
                            kv_at(entries, k)
                        } by {
                        lemma_kv_at_push(entries, e, k);
                    }
                    assert(kv_unique(self.entries@));
                }
            },
        }
    }

    /// Drops the entry under `key`, if any.
    pub fn remove(&mut self, key: &str)
        requires
            old(self).wf(),
        ensures
            final(self).wf(),
            final(self).spec_get(key@) is None,
            forall|k: Seq<char>| k != key@ ==> final(self).spec_get(k) == old(self).spec_get(k),
    {
        let owned = key.to_owned();
        match self.find(&owned) {
            Some(i) => {
                let ghost entries = self.entries@;
                self.entries.remove(i);
                proof {
                    assert(self.entries@ =~= entries.remove(i as int));
                    assert forall|k: Seq<char>|
                        kv_at(self.entries@, k) == if k == key@ {
                            None::<Seq<char>>
                        } else {
                            kv_at(entries, k)
                        } by {
                        lemma_kv_at_remove(entries, i as int, k);
                    }
                    assert(kv_unique(self.entries@)) by {
                        assert(forall|j: int|
                            0 <= j < self.entries@.len() ==> self.entries@[j] == (if j < i {
                                entries[j]
                            } else {
                                entries[j + 1]
                            }));
                    }
                }
            },
            None => {
                proof {
                    lemma_kv_at_absent(self.entries@, key@);
                }
            },
        }
    }
}

} // verus!
