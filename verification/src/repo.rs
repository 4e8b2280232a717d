//! The account repository: a durable store of accounts keyed by normalized
//! email. Email uniqueness is enforced here, at the storage boundary — the
//! flows' read-then-decide check is a courtesy, this is the guard — and
//! identifiers are generated at creation, never reused.

use vstd::prelude::*;
use crate::model::{NewUser, User, user_eqv};

verus! {

/// Why an insert was refused.
#[derive(Clone, Copy, Debug, PartialEq, Eq, Structural)]
pub enum RepoError {
    /// An account with the same email is already stored.
    UniquenessViolation,
    /// Any other storage failure; here, the identifier space is used up.
    Other,
}

pub struct Repo {
    users: Vec<User>,
    next_id: u64,
}

impl Repo {
    /// The stored account records, oldest first.
    pub closed spec fn accounts(self) -> Seq<User> {
        self.users@
    }

    /// The identifier the next created account will receive.
    pub closed spec fn next_id_spec(self) -> u64 {
        self.next_id
    }

    /// Well-formed store: emails unique, identifiers unique and below the
    /// generator's next value, and no record updated before it was created.
    pub open spec fn wf(self) -> bool {
        &&& forall|i: int, j: int|
            0 <= i < j < self.accounts().len()
                ==> (#[trigger] self.accounts()[i]).email@ != (#[trigger] self.accounts()[j]).email@
        &&& forall|i: int, j: int|
            0 <= i < j < self.accounts().len()
                ==> (#[trigger] self.accounts()[i]).id != (#[trigger] self.accounts()[j]).id
        &&& forall|i: int|
            0 <= i < self.accounts().len() ==> (#[trigger] self.accounts()[i]).id
                < self.next_id_spec()
        &&& forall|i: int|
            0 <= i < self.accounts().len()
                ==> (#[trigger] self.accounts()[i]).created_at <= self.accounts()[i].updated_at
    }

    /// Whether some record holds exactly the email `e`.
    pub open spec fn contains_email(self, e: Seq<char>) -> bool {
        exists|i: int| 0 <= i < self.accounts().len() && (#[trigger] self.accounts()[i]).email@ == e
    }

    /// Whether some record holds the identifier `id`.
    pub open spec fn contains_id(self, id: u64) -> bool {
        exists|i: int| 0 <= i < self.accounts().len() && (#[trigger] self.accounts()[i]).id == id
    }

    /// The record holding the email `e`; unique in a well-formed store.
    pub open spec fn account_by_email(self, e: Seq<char>) -> User {
        self.accounts()[choose|i: int|
            0 <= i < self.accounts().len() && (#[trigger] self.accounts()[i]).email@ == e]
    }

    /// The record holding the identifier `id`; unique in a well-formed store.
    pub open spec fn account_by_id(self, id: u64) -> User {
        self.accounts()[choose|i: int|
            0 <= i < self.accounts().len() && (#[trigger] self.accounts()[i]).id == id]
    }

    /// An empty store.
    pub fn new() -> (r: Repo)
        ensures
            r.wf(),
            r.accounts().len() == 0,
            r.next_id_spec() == 0,
    {
        Repo { users: Vec::new(), next_id: 0 }
    }

    /// Looks up the account stored under exactly the email `e`.
    pub fn find_by_email(&self, e: &String) -> (r: Option<User>)
        requires
            self.wf(),
        ensures
            match r {
                Some(u) => self.contains_email(e@) && user_eqv(u, self.account_by_email(e@)),
                None => !self.contains_email(e@),
            },
    {
        let n = self.users.len();
        let mut i: usize = 0;
        while i < n
            invariant
                n == self.users@.len(),
                0 <= i <= n,
                self.wf(),
                forall|j: int| 0 <= j < i ==> (#[trigger] self.users@[j]).email@ != e@,
            decreases n - i,
        {
            if self.users[i].email == *e {
                let u = self.users[i].duplicate();
                proof {
                    assert(self.accounts()[i as int].email@ == e@);
                    assert(self.contains_email(e@));
                    let k = choose|k: int|
                        0 <= k < self.accounts().len() && (#[trigger] self.accounts()[k]).email@
                            == e@;
                    if k < i as int {
                        assert(self.users@[k].email@ != self.users@[i as int].email@);
                    }
                    if (i as int) < k {
                        assert(self.users@[i as int].email@ != self.users@[k].email@);
                    }
                    assert(k == i as int);
                }
                return Some(u);
            }
            i = i + 1;
        }
        None
    }

    /// Looks up the account stored under the identifier `id`.
    pub fn find_by_id(&self, id: u64) -> (r: Option<User>)
        requires
            self.wf(),
        ensures
            match r {
                Some(u) => u.id == id && self.contains_id(id) && user_eqv(
                    u,
                    self.account_by_id(id),
                ),
                None => !self.contains_id(id),
            },
    {
        let n = self.users.len();
        let mut i: usize = 0;
        while i < n
            invariant
                n == self.users@.len(),
                0 <= i <= n,
                self.wf(),
                forall|j: int| 0 <= j < i ==> (#[trigger] self.users@[j]).id != id,
            decreases n - i,
        {
            if self.users[i].id == id {
                let u = self.users[i].duplicate();
                proof {
                    assert(self.accounts()[i as int].id == id);
                    assert(self.contains_id(id));
                    let k = choose|k: int|
                        0 <= k < self.accounts().len() && (#[trigger] self.accounts()[k]).id == id;
                    if k < i as int {
                        assert(self.users@[k].id != self.users@[i as int].id);
                    }
                    if (i as int) < k {
                        assert(self.users@[i as int].id != self.users@[k].id);
                    }
                    assert(k == i as int);
                }
                return Some(u);
            }
            i = i + 1;
        }
        None
    }

    /// Creates an account from `nu`: a fresh identifier, the default role
    /// "user", the unverified flag, and both timestamps at `now`. Refused
    /// with `UniquenessViolation` exactly when the email is already stored,
    /// and with `Other` exactly when the identifier space is used up.
    pub fn insert(&mut self, nu: NewUser, now: u64) -> (r: Result<User, RepoError>)
        requires
            old(self).wf(),
        ensures
            final(self).wf(),
            match r {
                Ok(u) => {
                    &&& !old(self).contains_email(nu.email@)
                    &&& old(self).next_id_spec() < u64::MAX
                    &&& u.id == old(self).next_id_spec()
                    &&& u.name@ == nu.name@
                    &&& u.email@ == nu.email@
                    &&& u.password@ == nu.password@
                    &&& u.role@ == "user"@
                    &&& u.verified == false
                    &&& u.created_at == now
                    &&& u.updated_at == now
                    &&& final(self).accounts() == old(self).accounts().push(
                        final(self).accounts().last(),
                    )
                    &&& user_eqv(final(self).accounts().last(), u)
                    &&& final(self).next_id_spec() == old(self).next_id_spec() + 1
                },
                Err(RepoError::UniquenessViolation) => old(self).contains_email(nu.email@)
                    && *final(self) == *old(self),
                Err(RepoError::Other) => !old(self).contains_email(nu.email@) && old(
                    self,
                ).next_id_spec() == u64::MAX && *final(self) == *old(self),
            },
    {
        let n = self.users.len();
        let mut i: usize = 0;
        while i < n
            invariant
                n == self.users@.len(),
                0 <= i <= n,
                *self == *old(self),
                self.wf(),
                forall|j: int| 0 <= j < i ==> (#[trigger] self.users@[j]).email@ != nu.email@,
            decreases n - i,
        {
            if self.users[i].email == nu.email {
                proof {
                    assert(self.accounts()[i as int].email@ == nu.email@);
                    assert(self.contains_email(nu.email@));
                    assert(*self == *old(self));
                    assert(self.wf());
                }
                return Err(RepoError::UniquenessViolation);
            }
            i = i + 1;
        }
        if self.next_id == u64::MAX {
            return Err(RepoError::Other);
        }
        let id = self.next_id;
        self.next_id = id + 1;
        let u = User {
            id,
            name: nu.name,
            email: nu.email,
            password: nu.password,
            role: String::from_str("user"),
            verified: false,
            created_at: now,
            updated_at: now,
        };
        let record = u.duplicate();
        self.users.push(record);
        proof {
            let s0 = old(self).accounts();
            let s1 = self.accounts();
            assert(s1 == s0.push(s1.last()));
            assert(s1.last().email@ == nu.email@ && s1.last().id == old(self).next_id_spec());
            assert(forall|j: int| 0 <= j < s0.len() ==> (#[trigger] s0[j]).email@ != nu.email@);
            assert forall|a: int, b: int| 0 <= a < b < s1.len() implies (#[trigger] s1[a]).email@
                != (#[trigger] s1[b]).email@ by {
                if b < s0.len() {
                    assert(s1[a] == s0[a] && s1[b] == s0[b]);
                } else {
                    assert(s1[a] == s0[a] && s0[a].email@ != nu.email@ && s1[b] == s1.last());
                }
            }
            assert forall|a: int, b: int| 0 <= a < b < s1.len() implies (#[trigger] s1[a]).id
                != (#[trigger] s1[b]).id by {
                if b < s0.len() {
                    assert(s1[a] == s0[a] && s1[b] == s0[b]);
                } else {
                    assert(s1[a] == s0[a] && s0[a].id < old(self).next_id_spec() && s1[b]
                        == s1.last());
                }
            }
            assert forall|a: int| 0 <= a < s1.len() implies (#[trigger] s1[a]).id
                < self.next_id_spec() by {
                if a < s0.len() {
                    assert(s1[a] == s0[a] && s0[a].id < old(self).next_id_spec());
                } else {
                    assert(s1[a] == s1.last());
                }
            }
            assert forall|a: int| 0 <= a < s1.len() implies (#[trigger] s1[a]).created_at
                <= s1[a].updated_at by {
                if a < s0.len() {
                    assert(s1[a] == s0[a] && s0[a].created_at <= s0[a].updated_at);
                } else {
                    assert(s1[a] == s1.last());
                }
            }
        }
        Ok(u)
    }
}

} // verus!
