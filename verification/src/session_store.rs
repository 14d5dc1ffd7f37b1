//! The revocable session store: token-keyed records with a time-to-live.
//! The store, not the token, is the authority for "is this token still
//! honored": deleting a record revokes the token however fresh its
//! signature still is.

use vstd::prelude::*;

use crate::strings::str_eq;

verus! {

#[verifier::ext_equal]
pub ghost struct SessionEntryView {
    pub token: Seq<char>,
    pub user_id: u64,
    pub expires_at: u64,
}

pub struct SessionEntry {
    pub token: String,
    pub user_id: u64,
    pub expires_at: u64,
}

impl View for SessionEntry {
    type V = SessionEntryView;

    open spec fn view(&self) -> SessionEntryView {
        SessionEntryView {
            token: self.token@,
            user_id: self.user_id,
            expires_at: self.expires_at,
        }
    }
}

/// The record stored under `t`, if any: its user and its expiry instant.
/// A later record for the same token shadows an earlier one.
pub open spec fn spec_get(s: Seq<SessionEntryView>, t: Seq<char>) -> Option<(u64, u64)>
    decreases s.len(),
{
    if s.len() == 0 {
        None
    } else if s.last().token == t {
        Some((s.last().user_id, s.last().expires_at))
    } else {
        spec_get(s.drop_last(), t)
    }
}

/// The user a token still maps to at `now`: present and not yet expired.
pub open spec fn live_get(s: Seq<SessionEntryView>, t: Seq<char>, now: u64) -> Option<u64> {
    match spec_get(s, t) {
        Some((uid, exp)) => if now < exp {
            Some(uid)
        } else {
            None
        },
        None => None,
    }
}

pub struct SessionStore {
    entries: Vec<SessionEntry>,
}

impl View for SessionStore {
    type V = Seq<SessionEntryView>;

    closed spec fn view(&self) -> Seq<SessionEntryView> {
        Seq::new(self.entries@.len(), |i: int| self.entries@[i]@)
    }
}

impl SessionStore {
    pub fn new() -> (r: SessionStore)
        ensures
            r@ =~= Seq::<SessionEntryView>::empty(),
    {
        SessionStore { entries: Vec::new() }
    }

    /// Look a token up; a record past its expiry counts as absent.
    pub fn get(&self, token: &str, now: u64) -> (r: Option<u64>)
        ensures
            r == live_get(self@, token@, now),
    {
        let n = self.entries.len();
        proof {
            assert(self@.subrange(0, n as int) =~= self@);
        }
        let mut i = n;
        while i > 0
            invariant
                0 <= i <= n,
                n == self.entries@.len(),
                spec_get(self@, token@) == spec_get(self@.subrange(0, i as int), token@),
            decreases i,
        {
            i = i - 1;
            let e = &self.entries[i];
            proof {
                let sub = self@.subrange(0, (i + 1) as int);
                assert(sub.drop_last() =~= self@.subrange(0, i as int));
                assert(sub.last() == self@[i as int]);
            }
            if str_eq(e.token.as_str(), token) {
                if now < e.expires_at {
                    return Some(e.user_id);
                } else {
                    return None;
                }
            }
        }
        proof {
            assert(spec_get(self@.subrange(0, 0), token@) is None);
        }
        None
    }

    /// Revoke every record held under `token`; all other records stay.
    pub fn delete(&mut self, token: &str)
        ensures
            spec_get(final(self)@, token@) is None,
            forall|t: Seq<char>|
                t != token@ ==> spec_get(final(self)@, t) == spec_get(old(self)@, t),
    {
        let n = self.entries.len();
        let mut out: Vec<SessionEntry> = Vec::new();
        let mut i: usize = 0;
        while i < n
            invariant
                0 <= i <= n,
                n == self.entries@.len(),
                self@ == old(self)@,
                spec_get(Seq::new(out@.len(), |k: int| out@[k]@), token@) is None,
                forall|t: Seq<char>|
                    t != token@ ==> spec_get(Seq::new(out@.len(), |k: int| out@[k]@), t)
                        == spec_get(self@.subrange(0, i as int), t),
            decreases n - i,
        {
            let ghost pre = self@.subrange(0, i as int);
            let ghost nxt = self@.subrange(0, (i + 1) as int);
            let ghost prev = Seq::new(out@.len(), |k: int| out@[k]@);
            proof {
                assert(nxt.drop_last() =~= pre);
                assert(nxt.last() == self@[i as int]);
            }
            let e = &self.entries[i];
            if str_eq(e.token.as_str(), token) {
                proof {
                    assert forall|t: Seq<char>| t != token@ implies spec_get(prev, t)
                        == spec_get(nxt, t) by {
                        assert(spec_get(nxt, t) == spec_get(pre, t));
                    }
                }
            } else {
                let copy = SessionEntry {
                    token: e.token.clone(),
                    user_id: e.user_id,
                    expires_at: e.expires_at,
                };
                proof {
                    assert(copy@ =~= self@[i as int]);
                }
                out.push(copy);
                proof {
                    let cur = Seq::new(out@.len(), |k: int| out@[k]@);
                    assert(cur.drop_last() =~= prev);
                    assert(cur.last() == self@[i as int]);
                    assert(spec_get(cur, token@) is None);
                    assert forall|t: Seq<char>| t != token@ implies spec_get(cur, t)
                        == spec_get(nxt, t) by {
                        if t != self@[i as int].token {
                            assert(spec_get(cur, t) == spec_get(prev, t));
                            assert(spec_get(nxt, t) == spec_get(pre, t));
                        }
                    }
                }
            }
            i = i + 1;
        }
        proof {
            assert(self@.subrange(0, n as int) =~= self@);
        }
        self.entries = out;
    }

    /// Store `token -> user_id`, expiring `ttl` seconds after `now`; an
    /// existing record under the same token is replaced.
    pub fn put(&mut self, token: &str, user_id: u64, now: u64, ttl: u64)
        requires
            now + ttl <= u64::MAX,
        ensures
            spec_get(final(self)@, token@) == Some((user_id, (now + ttl) as u64)),
            forall|t: Seq<char>|
                t != token@ ==> spec_get(final(self)@, t) == spec_get(old(self)@, t),
    {
        self.delete(token);
        let ghost mid = self@;
        let entry = SessionEntry { token: token.to_owned(), user_id, expires_at: now + ttl };
        self.entries.push(entry);
        proof {
            assert(self@.drop_last() =~= mid);
            assert(self@.last() == entry@);
        }
    }

    /// How many records the store holds, live or expired.
    pub fn len(&self) -> (r: usize)
        ensures
            r == self@.len(),
    {
        self.entries.len()
    }
}

} // verus!
