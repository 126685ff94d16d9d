//! The on-chain certificate registry and its executor: certificates are
//! issued, verified, and rewarded with minted tokens.

use vstd::prelude::*;
use crate::token::Token;

verus! {

/// A simple on-chain certificate.
pub struct Certificate {
    pub id: String,
    pub issued_to: String,
    pub description: String,
    pub verified: bool,
}

/// The first certificate recorded for `id`, scanning front to back.
pub open spec fn cert_at(certs: Seq<Certificate>, id: Seq<char>) -> Option<Certificate>
    decreases certs.len(),
{
    if certs.len() == 0 {
        None
    } else if certs[0].id@ == id {
        Some(certs[0])
    } else {
        cert_at(certs.drop_first(), id)
    }
}

/// Whether a certificate for `id` exists.
pub open spec fn has_cert(certs: Seq<Certificate>, id: Seq<char>) -> bool {
    exists|i: int| 0 <= i < certs.len() && certs[i].id@ == id
}

/// No two certificates share an identifier.
pub open spec fn unique_cert_ids(certs: Seq<Certificate>) -> bool {
    forall|i: int, j: int| 0 <= i < j < certs.len() ==> certs[i].id@ != certs[j].id@
}

proof fn lemma_cert_at_at(certs: Seq<Certificate>, i: int, id: Seq<char>)
    requires
        0 <= i < certs.len(),
        certs[i].id@ == id,
        forall|k: int| 0 <= k < i ==> certs[k].id@ != id,
    ensures
        cert_at(certs, id) == Some(certs[i]),
    decreases i,
{
    if i > 0 {
        assert(forall|k: int|
            0 <= k < certs.drop_first().len() ==> certs.drop_first()[k] == certs[k + 1]);
        lemma_cert_at_at(certs.drop_first(), i - 1, id);
    }
}

proof fn lemma_cert_at_absent(certs: Seq<Certificate>, id: Seq<char>)
    requires
        !has_cert(certs, id),
    ensures
        cert_at(certs, id) is None,
    decreases certs.len(),
{
    if certs.len() > 0 {
        assert(forall|k: int|
            0 <= k < certs.drop_first().len() ==> certs.drop_first()[k] == certs[k + 1]);
        lemma_cert_at_absent(certs.drop_first(), id);
    }
}

proof fn lemma_cert_at_update(certs: Seq<Certificate>, i: int, e: Certificate, id: Seq<char>)
    requires
        unique_cert_ids(certs),
        0 <= i < certs.len(),
        e.id@ == certs[i].id@,
    ensures
        cert_at(certs.update(i, e), id) == if id == certs[i].id@ {
            Some(e)
        } else {
            cert_at(certs, id)
        },
    decreases certs.len(),
{
    let updated = certs.update(i, e);
    if i == 0 {
        assert(updated[0] == e);
        assert(updated.drop_first() =~= certs.drop_first());
    } else {
        assert(updated[0] == certs[0]);
        assert(updated.drop_first() =~= certs.drop_first().update(i - 1, e));
        if id == certs[0].id@ {
            assert(certs[i].id@ != certs[0].id@);
        } else {
            lemma_cert_at_update(certs.drop_first(), i - 1, e, id);
        }
    }
}

proof fn lemma_cert_at_push(certs: Seq<Certificate>, e: Certificate, id: Seq<char>)
    requires
        !has_cert(certs, e.id@),
    ensures
        cert_at(certs.push(e), id) == if id == e.id@ {
            Some(e)
        } else {
            cert_at(certs, id)
        },
    decreases certs.len(),
{
    let pushed = certs.push(e);
    if certs.len() == 0 {
        assert(pushed[0] == e);
        assert(pushed.drop_first() =~= Seq::<Certificate>::empty());
        assert(cert_at(pushed.drop_first(), id) is None);
        assert(cert_at(certs, id) is None);
    } else {
        assert(pushed[0] == certs[0]);
        assert(pushed.drop_first() =~= certs.drop_first().push(e));
        assert(!has_cert(certs.drop_first(), e.id@)) by {
            assert(forall|k: int|
                0 <= k < certs.drop_first().len() ==> certs.drop_first()[k] == certs[k + 1]);
        }
        if id == certs[0].id@ {
            assert(certs[0].id@ != e.id@);
        } else {
            lemma_cert_at_push(certs.drop_first(), e, id);
        }
    }
}

/// Manages certificates and the token rewards they earn.
pub struct ContractExecutor {
    pub certificates: Vec<Certificate>,
}

impl ContractExecutor {
    /// Identifiers are unique.
    pub open spec fn wf(&self) -> bool {
        unique_cert_ids(self.certificates@)
    }

    /// The certificate recorded under `id`.
    pub open spec fn spec_cert_at(&self, id: Seq<char>) -> Option<Certificate> {
        cert_at(self.certificates@, id)
    }

    /// An executor with no certificates.
    pub fn new() -> (r: ContractExecutor)
        ensures
            r.wf(),
            r.certificates@.len() == 0,
    {
        ContractExecutor { certificates: Vec::new() }
    }

    fn find_certificate(&self, id: &String) -> (r: Option<usize>)
        ensures
            match r {
                Some(i) => {
                    &&& i < self.certificates@.len()
                    &&& self.certificates@[i as int].id@ == id@
                    &&& forall|k: int| 0 <= k < i ==> self.certificates@[k].id@ != id@
                    &&& self.spec_cert_at(id@) == Some(self.certificates@[i as int])
                },
                None => !has_cert(self.certificates@, id@) && self.spec_cert_at(id@) is None,
            },
    {
        let mut i: usize = 0;
        while i < self.certificates.len()
            invariant
                i <= self.certificates@.len(),
                forall|k: int| 0 <= k < i ==> self.certificates@[k].id@ != id@,
            decreases self.certificates@.len() - i,
        {
            if self.certificates[i].id.eq(id) {
                proof {
                    lemma_cert_at_at(self.certificates@, i as int, id@);
                }
                return Some(i);
            }
            i = i + 1;
        }
        proof {
            lemma_cert_at_absent(self.certificates@, id@);
        }
        None
    }

    /// Records a new, unverified certificate under `id`, replacing any
    /// earlier one with the same identifier.
    pub fn issue_certificate(&mut self, id: &str, issued_to: &str, description: &str)
        requires
            old(self).wf(),
        ensures
            final(self).wf(),
            (match final(self).spec_cert_at(id@) {
                Some(c) => {
                    &&& c.id@ == id@
                    &&& c.issued_to@ == issued_to@
                    &&& c.description@ == description@
                    &&& !c.verified
                },
                None => false,
            }),
            forall|other: Seq<char>|
                other != id@ ==> final(self).spec_cert_at(other) == old(self).spec_cert_at(other),
    {
        let key = id.to_owned();
        let cert = Certificate {
            id: key.clone(),
            issued_to: issued_to.to_owned(),
            description: description.to_owned(),
            verified: false,
        };
        match self.find_certificate(&key) {
            Some(i) => {
                let ghost certs = self.certificates@;
                self.certificates.set(i, cert);
                proof {
                    let e = self.certificates@[i as int];
                    assert(self.certificates@ =~= certs.update(i as int, e));
                    assert forall|other: Seq<char>|
                        cert_at(self.certificates@, other) == if other == id@ {
                            Some(e)
                        } else {
                            cert_at(certs, other)
                        } by {
                        lemma_cert_at_update(certs, i as int, e, other);
                    }
                    assert(unique_cert_ids(self.certificates@));
                }
            },
            None => {
                let ghost certs = self.certificates@;
                self.certificates.push(cert);
                proof {
                    let e = self.certificates@.last();
                    assert(self.certificates@ =~= certs.push(e));
                    assert forall|other: Seq<char>|
                        cert_at(self.certificates@, other) == if other == id@ {
                            Some(e)
                        } else {
                            cert_at(certs, other)
                        } by {
                        lemma_cert_at_push(certs, e, other);
                    }
                    assert(unique_cert_ids(self.certificates@));
                }
            },
        }
    }

    /// Marks the certificate under `id` as verified; false when none exists.
    pub fn verify_certificate(&mut self, id: &str) -> (r: bool)
        requires
            old(self).wf(),
        ensures
            final(self).wf(),
            r == has_cert(old(self).certificates@, id@),
            (match old(self).spec_cert_at(id@) {
                Some(c) => final(self).spec_cert_at(id@) == Some(
                    Certificate {
                        id: c.id,
                        issued_to: c.issued_to,
                        description: c.description,
                        verified: true,
                    },
                ),
                None => *final(self) == *old(self),
            }),
            forall|other: Seq<char>|
                other != id@ ==> final(self).spec_cert_at(other) == old(self).spec_cert_at(other),
    {
        let key = id.to_owned();
        match self.find_certificate(&key) {
            Some(i) => {
                let ghost certs = self.certificates@;
                let old_cert = &self.certificates[i];
                let cert = Certificate {
                    id: old_cert.id.clone(),
                    issued_to: old_cert.issued_to.clone(),
                    description: old_cert.description.clone(),
                    verified: true,
                };
                self.certificates.set(i, cert);
                proof {
                    let e = self.certificates@[i as int];
                    assert(self.certificates@ =~= certs.update(i as int, e));
                    assert forall|other: Seq<char>|
                        cert_at(self.certificates@, other) == if other == id@ {
                            Some(e)
                        } else {
                            cert_at(certs, other)
                        } by {
                        lemma_cert_at_update(certs, i as int, e, other);
                    }
                    assert(unique_cert_ids(self.certificates@));
                }
                true
            },
            None => false,
        }
    }

    /// Mints `amount` tokens to the holder of a verified certificate; false
    /// (and no mutation) when the certificate is missing or unverified. The
    /// caller keeps the supply within the 64-bit range.
    pub fn reward_certificate_holder(&self, token: &mut Token, cert_id: &str, amount: u64) -> (r:
        bool)
        requires
            old(token).wf(),
            old(token).total_supply + amount <= u64::MAX,
        ensures
            final(token).wf(),
            r == (match self.spec_cert_at(cert_id@) {
                Some(c) => c.verified,
                None => false,
            }),
            (match self.spec_cert_at(cert_id@) {
                Some(c) => {
                    if c.verified {
                        &&& final(token).spec_balance_of(c.issued_to@) == old(
                            token,
                        ).spec_balance_of(c.issued_to@) + amount
                        &&& final(token).total_supply == old(token).total_supply + amount
                        &&& forall|a: Seq<char>|
                            a != c.issued_to@ ==> final(token).spec_balance_of(a) == old(
                                token,
                            ).spec_balance_of(a)
                    } else {
                        *final(token) == *old(token)
                    }
                },
                None => *final(token) == *old(token),
            }),
    {
        let key = cert_id.to_owned();
        match self.find_certificate(&key) {
            Some(i) => {
                let cert = &self.certificates[i];
                if cert.verified {
                    token.mint(cert.issued_to.as_str(), amount);
                    true
                } else {
                    false
                }
            },
            None => false,
        }
    }
}

} // verus!
