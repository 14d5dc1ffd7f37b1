//! The durable user directory, queried by lower-cased username or email.
//! Insertion assigns the identifier and is the final arbiter of uniqueness:
//! whatever pre-checks ran, a duplicate username or email is refused here.

use vstd::prelude::*;

use crate::primitives::{User, UserView};
use crate::strings::{lower_of, lowercase, str_eq};

verus! {

/// A registration lost to an account that already holds the username or
/// the email.
#[derive(Clone, Copy, Debug, PartialEq, Eq, Structural)]
pub struct ConflictError;

/// Whether a stored account answers to `ident` (already lower-cased) by
/// username or by email.
pub open spec fn ident_matches(u: UserView, ident: Seq<char>) -> bool {
    u.username == ident || u.email == ident
}

/// The account found for an identifier: the latest matching one.
pub open spec fn spec_find(s: Seq<UserView>, ident: Seq<char>) -> Option<UserView>
    decreases s.len(),
{
    if s.len() == 0 {
        None
    } else if ident_matches(s.last(), ident) {
        Some(s.last())
    } else {
        spec_find(s.drop_last(), ident)
    }
}

/// The account holding a given identifier number: the latest matching one.
pub open spec fn spec_find_id(s: Seq<UserView>, id: u64) -> Option<UserView>
    decreases s.len(),
{
    if s.len() == 0 {
        None
    } else if s.last().id == id {
        Some(s.last())
    } else {
        spec_find_id(s.drop_last(), id)
    }
}

/// Whether some stored account already holds this username or this email
/// (both already lower-cased).
pub open spec fn identifier_taken(s: Seq<UserView>, username: Seq<char>, email: Seq<char>) -> bool {
    exists|i: int|
        #![trigger s[i]]
        0 <= i < s.len() && (s[i].username == username || s[i].email == email)
}

/// The stored account with the store-assigned identifier written in.
pub open spec fn with_id(u: UserView, id: u64) -> UserView {
    UserView { id: id, ..u }
}

/// Identifier numbers are exactly the positions: the account at index `i`
/// holds id `i + 1`. Ids are therefore unique, and the next one is assigned
/// by the store itself, never computed by a caller.
pub open spec fn ids_assigned(s: Seq<UserView>) -> bool {
    forall|i: int| #![trigger s[i]] 0 <= i < s.len() ==> s[i].id == i + 1
}

/// Usernames and emails are unique across the directory.
pub open spec fn unique_identifiers(s: Seq<UserView>) -> bool {
    forall|i: int, j: int|
        #![trigger s[i], s[j]]
        0 <= i < j < s.len() ==> s[i].username != s[j].username && s[i].email != s[j].email
}

pub struct CredentialStore {
    users: Vec<User>,
}

impl View for CredentialStore {
    type V = Seq<UserView>;

    closed spec fn view(&self) -> Seq<UserView> {
        Seq::new(self.users@.len(), |i: int| self.users@[i]@)
    }
}

impl CredentialStore {
    pub fn new() -> (r: CredentialStore)
        ensures
            r@ =~= Seq::<UserView>::empty(),
    {
        CredentialStore { users: Vec::new() }
    }

    pub fn len(&self) -> (r: usize)
        ensures
            r == self@.len(),
    {
        self.users.len()
    }

    /// Look an account up by exact match on lower-cased username or email.
    pub fn find_by_identifier(&self, ident: &str) -> (r: Option<User>)
        ensures
            r matches Some(u) ==> spec_find(self@, lower_of(ident@)) == Some(u@),
            r is None ==> spec_find(self@, lower_of(ident@)) is None,
    {
        let li = lowercase(ident);
        let n = self.users.len();
        proof {
            assert(self@.subrange(0, n as int) =~= self@);
        }
        let mut i = n;
        while i > 0
            invariant
                0 <= i <= n,
                n == self.users@.len(),
                li@ == lower_of(ident@),
                spec_find(self@, li@) == spec_find(self@.subrange(0, i as int), li@),
            decreases i,
        {
            i = i - 1;
            let u = &self.users[i];
            proof {
                let sub = self@.subrange(0, (i + 1) as int);
                assert(sub.drop_last() =~= self@.subrange(0, i as int));
                assert(sub.last() == self@[i as int]);
            }
            if str_eq(u.username.as_str(), li.as_str()) || str_eq(u.email.as_str(), li.as_str()) {
                return Some(u.duplicate());
            }
        }
        proof {
            assert(spec_find(self@.subrange(0, 0), li@) is None);
        }
        None
    }

    /// Whether an account already answers to this identifier.
    pub fn identifier_exists(&self, username_or_email: &str) -> (r: bool)
        ensures
            r == (spec_find(self@, lower_of(username_or_email@)) is Some),
    {
        match self.find_by_identifier(username_or_email) {
            Some(_) => true,
            None => false,
        }
    }

    /// Whether an account already holds this username or this email (both
    /// already lower-cased).
    pub fn is_taken(&self, username: &str, email: &str) -> (r: bool)
        ensures
            r == identifier_taken(self@, username@, email@),
    {
        let n = self.users.len();
        let mut i: usize = 0;
        while i < n
            invariant
                0 <= i <= n,
                n == self.users@.len(),
                forall|j: int|
                    #![trigger self@[j]]
                    0 <= j < i ==> !(self@[j].username == username@ || self@[j].email == email@),
            decreases n - i,
        {
            let u = &self.users[i];
            proof {
                assert(self@[i as int] == self.users@[i as int]@);
            }
            if str_eq(u.username.as_str(), username) || str_eq(u.email.as_str(), email) {
                proof {
                    assert(self@[i as int].username == username@ || self@[i as int].email
                        == email@);
                }
                return true;
            }
            i = i + 1;
        }
        false
    }

    /// Look an account up by its identifier number.
    pub fn find_by_id(&self, id: u64) -> (r: Option<User>)
        ensures
            r matches Some(u) ==> spec_find_id(self@, id) == Some(u@),
            r is None ==> spec_find_id(self@, id) is None,
    {
        let n = self.users.len();
        proof {
            assert(self@.subrange(0, n as int) =~= self@);
        }
        let mut i = n;
        while i > 0
            invariant
                0 <= i <= n,
                n == self.users@.len(),
                spec_find_id(self@, id) == spec_find_id(self@.subrange(0, i as int), id),
            decreases i,
        {
            i = i - 1;
            let u = &self.users[i];
            proof {
                let sub = self@.subrange(0, (i + 1) as int);
                assert(sub.drop_last() =~= self@.subrange(0, i as int));
                assert(sub.last() == self@[i as int]);
            }
            if u.id == id {
                return Some(u.duplicate());
            }
        }
        proof {
            assert(spec_find_id(self@.subrange(0, 0), id) is None);
        }
        None
    }

    /// Insert a new account unless its username or email is already held.
    /// The store assigns the identifier number; uniqueness is decided here,
    /// atomically, whatever pre-checks the caller ran.
    pub fn insert(&mut self, user: User) -> (r: Result<u64, ConflictError>)
        requires
            old(self)@.len() < u64::MAX,
            unique_identifiers(old(self)@),
            ids_assigned(old(self)@),
        ensures
            unique_identifiers(final(self)@),
            ids_assigned(final(self)@),
            identifier_taken(old(self)@, user@.username, user@.email) ==> r == Err::<
                u64,
                ConflictError,
            >(ConflictError) && final(self)@ == old(self)@,
            !identifier_taken(old(self)@, user@.username, user@.email) ==> r == Ok::<
                u64,
                ConflictError,
            >((old(self)@.len() + 1) as u64) && final(self)@ == old(self)@.push(
                with_id(user@, (old(self)@.len() + 1) as u64),
            ),
    {
        let n = self.users.len();
        let mut i: usize = 0;
        while i < n
            invariant
                0 <= i <= n,
                n == self.users@.len(),
                self@ == old(self)@,
                unique_identifiers(old(self)@),
                ids_assigned(old(self)@),
                forall|j: int|
                    #![trigger self@[j]]
                    0 <= j < i ==> !(self@[j].username == user@.username || self@[j].email
                        == user@.email),
            decreases n - i,
        {
            let u = &self.users[i];
            proof {
                assert(self@[i as int] == self.users@[i as int]@);
            }
            if str_eq(u.username.as_str(), user.username.as_str()) || str_eq(
                u.email.as_str(),
                user.email.as_str(),
            ) {
                proof {
                    assert(u.username@ == user.username@ || u.email@ == user.email@);
                    assert(*u == self.users@[i as int]);
                    assert(self@[i as int].username == u.username@ && self@[i as int].email
                        == u.email@);
                    assert(old(self)@[i as int].username == user@.username || old(
                        self,
                    )@[i as int].email == user@.email);
                    assert(identifier_taken(old(self)@, user@.username, user@.email));
                }
                return Err(ConflictError);
            }
            i = i + 1;
        }
        proof {
            assert forall|k: int|
                0 <= k < old(self)@.len() implies !((#[trigger] old(self)@[k]).username
                == user@.username || old(self)@[k].email == user@.email) by {
                assert(self@[k] == old(self)@[k]);
                assert(!(self@[k].username == user@.username || self@[k].email == user@.email));
            }
            assert(!identifier_taken(old(self)@, user@.username, user@.email));
        }
        let id = (self.users.len() as u64) + 1;
        let fresh = User {
            id,
            username: user.username,
            email: user.email,
            password: user.password,
            backup_security_codes: user.backup_security_codes,
            currency: user.currency,
            gender: user.gender,
            preferences: user.preferences,
            created_at: user.created_at,
        };
        proof {
            assert(fresh@ =~= with_id(user@, id));
        }
        self.users.push(fresh);
        proof {
            let newv = self@;
            let pushed = old(self)@.push(with_id(user@, id));
            assert(newv =~= pushed);
            assert forall|a: int, b: int|
                #![trigger newv[a], newv[b]]
                0 <= a < b < newv.len() implies newv[a].username != newv[b].username && newv[a].email
                != newv[b].email by {
                assert(newv[a] == pushed[a] && pushed[a] == old(self)@[a]);
                if b == newv.len() - 1 {
                    assert(newv[b] == pushed[b] && pushed[b] == with_id(user@, id));
                    assert(!(old(self)@[a].username == user@.username || old(self)@[a].email
                        == user@.email));
                } else {
                    assert(newv[b] == pushed[b] && pushed[b] == old(self)@[b]);
                }
            }
            assert forall|a: int| 0 <= a < newv.len() implies (#[trigger] newv[a]).id == a
                + 1 by {
                if a < newv.len() - 1 {
                    assert(newv[a] == pushed[a] && pushed[a] == old(self)@[a]);
                } else {
                    assert(newv[a] == pushed[a] && pushed[a] == with_id(user@, id));
                }
            }
        }
        Ok(id)
    }
}

/// Under store-assigned identifiers, looking a member's id up finds exactly
/// that member: ids are unique, so the id written into a fresh account
/// resolves to it and to nothing else.
pub proof fn lemma_member_found_by_id(s: Seq<UserView>, i: int)
    requires
        ids_assigned(s),
        0 <= i < s.len(),
    ensures
        spec_find_id(s, s[i].id) == Some(s[i]),
    decreases s.len(),
{
    assert(s[s.len() - 1].id == s.len());
    if i == s.len() - 1 {
    } else {
        let d = s.drop_last();
        assert(ids_assigned(d)) by {
            assert forall|j: int| 0 <= j < d.len() implies (#[trigger] d[j]).id == j + 1 by {
                assert(d[j] == s[j]);
            }
        }
        assert(d[i] == s[i]);
        lemma_member_found_by_id(d, i);
    }
}

/// An account found by identifier is a member of the directory.
pub proof fn lemma_found_is_member(s: Seq<UserView>, ident: Seq<char>)
    ensures
        spec_find(s, ident) matches Some(u) ==> exists|i: int|
            0 <= i < s.len() && #[trigger] s[i] == u,
    decreases s.len(),
{
    if s.len() > 0 {
        if ident_matches(s.last(), ident) {
            assert(s[s.len() - 1] == s.last());
        } else {
            let d = s.drop_last();
            lemma_found_is_member(d, ident);
            if spec_find(d, ident) is Some {
                let u = spec_find(d, ident)->0;
                let i = choose|i: int| 0 <= i < d.len() && #[trigger] d[i] == u;
                assert(s[i] == u);
            }
        }
    }
}

/// Of two registrations claiming the same username (or the same email),
/// the store admits at most one: once the first is in, the second meets a
/// taken identifier whichever order they arrived in.
pub proof fn lemma_second_registration_conflicts(
    s: Seq<UserView>,
    first: UserView,
    second: UserView,
)
    requires
        first.username == second.username || first.email == second.email,
    ensures
        identifier_taken(s.push(first), second.username, second.email),
{
    let t = s.push(first);
    assert(t[s.len() as int] == first);
}

} // verus!
