//! The session store: it issues and revokes opaque session tokens, keeping a
//! bidirectional association between tokens and identities.
//!
//! The store is modelled by two maps: `tokens`, from each active token to
//! the identity it grants, and `latest_tokens`, from each identity to the
//! token most recently issued to it.  Issuing a new token for an identity
//! does not revoke an earlier one, so several tokens may grant the same
//! identity at once.

use vstd::prelude::*;

use crate::ids::fresh_uuid;

verus! {

/// The associations of `s`, as a map from first to second component.
pub open spec fn pair_map_of(s: Seq<(String, String)>) -> Map<Seq<char>, Seq<char>>
    decreases s.len(),
{
    if s.len() == 0 {
        Map::empty()
    } else {
        pair_map_of(s.drop_last()).insert(s.last().0@, s.last().1@)
    }
}

/// No two associations of `s` share a key.
pub open spec fn pair_keys_unique(s: Seq<(String, String)>) -> bool {
    forall|i: int, j: int| 0 <= i < j < s.len() ==> s[i].0@ != s[j].0@
}

/// One issuance: exactly the association of the token `t` with the identity
/// `i` was added to the token map.
pub open spec fn issued(
    pre: Map<Seq<char>, Seq<char>>,
    post: Map<Seq<char>, Seq<char>>,
    t: Seq<char>,
    i: Seq<char>,
) -> bool {
    post == pre.insert(t, i)
}

/// One revocation of the token `t`: its association is gone if it was held,
/// and nothing happened otherwise.
pub open spec fn revoked(
    pre: Map<Seq<char>, Seq<char>>,
    post: Map<Seq<char>, Seq<char>>,
    t: Seq<char>,
) -> bool {
    if pre.contains_key(t) {
        post == pre.remove(t)
    } else {
        post == pre
    }
}

/// A token issued for an identity grants that identity; one revocation
/// removes the grant; and a second revocation of the same token is a no-op
/// that leaves the store exactly as the first left it.
pub proof fn lemma_session_round_trip(
    pre: Map<Seq<char>, Seq<char>>,
    after_create: Map<Seq<char>, Seq<char>>,
    after_revoke: Map<Seq<char>, Seq<char>>,
    after_second_revoke: Map<Seq<char>, Seq<char>>,
    t: Seq<char>,
    i: Seq<char>,
)
    requires
        issued(pre, after_create, t, i),
        revoked(after_create, after_revoke, t),
        revoked(after_revoke, after_second_revoke, t),
    ensures
        after_create.contains_key(t) && after_create[t] == i,
        !after_revoke.contains_key(t),
        after_second_revoke == after_revoke,
{
}

proof fn lemma_pair_map_contains(s: Seq<(String, String)>, k: Seq<char>)
    ensures
        pair_map_of(s).contains_key(k) <==> exists|i: int| 0 <= i < s.len() && s[i].0@ == k,
    decreases s.len(),
{
    if s.len() > 0 {
        lemma_pair_map_contains(s.drop_last(), k);
        if s.last().0@ == k {
            assert(s[s.len() - 1].0@ == k);
        } else {
            if exists|i: int| 0 <= i < s.len() && s[i].0@ == k {
                let i = choose|i: int| 0 <= i < s.len() && s[i].0@ == k;
                assert(s.drop_last()[i] == s[i]);
            }
            if pair_map_of(s).contains_key(k) {
                let i = choose|i: int| 0 <= i < s.drop_last().len() && s.drop_last()[i].0@ == k;
                assert(s[i] == s.drop_last()[i]);
            }
        }
    }
}

proof fn lemma_pair_map_index(s: Seq<(String, String)>, i: int)
    requires
        pair_keys_unique(s),
        0 <= i < s.len(),
    ensures
        pair_map_of(s).contains_key(s[i].0@),
        pair_map_of(s)[s[i].0@] == s[i].1@,
    decreases s.len(),
{
    if i < s.len() - 1 {
        assert(pair_keys_unique(s.drop_last())) by {
            assert(forall|a: int, b: int|
                0 <= a < b < s.drop_last().len() ==> s.drop_last()[a] == s[a] && s.drop_last()[b]
                    == s[b]);
        }
        lemma_pair_map_index(s.drop_last(), i);
        assert(s.drop_last()[i] == s[i]);
        assert(s.last().0@ != s[i].0@);
    }
}

proof fn lemma_pair_map_len(s: Seq<(String, String)>)
    requires
        pair_keys_unique(s),
    ensures
        pair_map_of(s).dom().finite(),
        pair_map_of(s).dom().len() == s.len(),
    decreases s.len(),
{
    if s.len() == 0 {
        assert(pair_map_of(s).dom() =~= Set::<Seq<char>>::empty());
    } else {
        assert(pair_keys_unique(s.drop_last())) by {
            assert(forall|a: int, b: int|
                0 <= a < b < s.drop_last().len() ==> s.drop_last()[a] == s[a] && s.drop_last()[b]
                    == s[b]);
        }
        lemma_pair_map_len(s.drop_last());
        lemma_pair_map_contains(s.drop_last(), s.last().0@);
        assert(forall|j: int|
            0 <= j < s.drop_last().len() ==> #[trigger] s.drop_last()[j].0@ != s.last().0@) by {
            assert(forall|j: int| 0 <= j < s.drop_last().len() ==> s.drop_last()[j] == s[j]);
        }
        assert(!pair_map_of(s.drop_last()).contains_key(s.last().0@));
        assert(pair_map_of(s).dom() =~= pair_map_of(s.drop_last()).dom().insert(s.last().0@));
    }
}

proof fn lemma_pair_map_remove_idx(s: Seq<(String, String)>, i: int)
    requires
        pair_keys_unique(s),
        0 <= i < s.len(),
    ensures
        pair_keys_unique(s.remove(i)),
        pair_map_of(s.remove(i)) == pair_map_of(s).remove(s[i].0@),
    decreases s.len(),
{
    let t = s.remove(i);
    assert(forall|a: int| 0 <= a < i ==> #[trigger] t[a] == s[a]);
    assert(forall|a: int| i <= a < t.len() ==> #[trigger] t[a] == s[a + 1]);
    assert(pair_keys_unique(t)) by {
        assert forall|a: int, b: int| 0 <= a < b < t.len() implies t[a].0@ != t[b].0@ by {
            if a < i {
                assert(t[a] == s[a]);
            } else {
                assert(t[a] == s[a + 1]);
            }
            if b < i {
                assert(t[b] == s[b]);
            } else {
                assert(t[b] == s[b + 1]);
            }
        }
    }
    if i == s.len() - 1 {
        assert(t =~= s.drop_last());
        lemma_pair_map_contains(s.drop_last(), s[i].0@);
        assert(forall|j: int|
            0 <= j < s.drop_last().len() ==> #[trigger] s.drop_last()[j].0@ != s[i].0@) by {
            assert(forall|j: int| 0 <= j < s.drop_last().len() ==> s.drop_last()[j] == s[j]);
        }
        assert(!pair_map_of(s.drop_last()).contains_key(s[i].0@));
        assert(pair_map_of(s).remove(s[i].0@) =~= pair_map_of(s.drop_last()));
    } else {
        assert(pair_keys_unique(s.drop_last())) by {
            assert(forall|a: int, b: int|
                0 <= a < b < s.drop_last().len() ==> s.drop_last()[a] == s[a] && s.drop_last()[b]
                    == s[b]);
        }
        lemma_pair_map_remove_idx(s.drop_last(), i);
        assert(t.drop_last() =~= s.drop_last().remove(i));
        assert(t.last() == s.last());
        assert(s.drop_last()[i] == s[i]);
        assert(s.last().0@ != s[i].0@);
        assert(pair_map_of(t) == pair_map_of(s.drop_last()).remove(s[i].0@).insert(
            s.last().0@,
            s.last().1@,
        ));
        assert(pair_map_of(s).remove(s[i].0@) =~= pair_map_of(s.drop_last()).remove(
            s[i].0@,
        ).insert(s.last().0@, s.last().1@));
    }
}

fn assoc_find(v: &Vec<(String, String)>, k: &String) -> (r: Option<usize>)
    ensures
        match r {
            Some(i) => i < v@.len() && v@[i as int].0@ == k@,
            None => forall|j: int| 0 <= j < v@.len() ==> v@[j].0@ != k@,
        },
{
    let mut i: usize = 0;
    while i < v.len()
        invariant
            i <= v@.len(),
            forall|j: int| 0 <= j < i ==> v@[j].0@ != k@,
        decreases v@.len() - i,
    {
        if v[i].0 == *k {
            return Some(i);
        }
        i = i + 1;
    }
    None
}

/// Put the association `k -> val` into `v`, replacing any association `k`
/// already had.
fn assoc_insert(v: &mut Vec<(String, String)>, k: String, val: String)
    requires
        pair_keys_unique(old(v)@),
    ensures
        pair_keys_unique(final(v)@),
        pair_map_of(final(v)@) == pair_map_of(old(v)@).insert(k@, val@),
{
    let ghost pre = v@;
    match assoc_find(v, &k) {
        Some(i) => {
            proof {
                lemma_pair_map_remove_idx(v@, i as int);
            }
            v.remove(i);
        },
        None => {
            proof {
                assert(pair_map_of(v@).remove(k@) =~= pair_map_of(v@)) by {
                    lemma_pair_map_contains(v@, k@);
                }
            }
        },
    }
    let ghost mid = v@;
    proof {
        assert(pair_map_of(mid) == pair_map_of(pre).remove(k@));
        assert forall|j: int| 0 <= j < mid.len() implies #[trigger] mid[j].0@ != k@ by {
            lemma_pair_map_index(mid, j);
            assert(!pair_map_of(pre).remove(k@).contains_key(k@));
        }
    }
    v.push((k, val));
    proof {
        assert(forall|j: int| 0 <= j < mid.len() ==> #[trigger] v@[j] == mid[j]);
        assert(pair_keys_unique(v@));
        assert(v@.drop_last() =~= mid);
        assert(pair_map_of(v@) =~= pair_map_of(pre).insert(v@.last().0@, v@.last().1@));
    }
}

/// Take the association of `k` out of `v`, if it holds one.
fn assoc_remove(v: &mut Vec<(String, String)>, k: &String)
    requires
        pair_keys_unique(old(v)@),
    ensures
        pair_keys_unique(final(v)@),
        pair_map_of(final(v)@) == pair_map_of(old(v)@).remove(k@),
{
    match assoc_find(v, k) {
        Some(i) => {
            proof {
                lemma_pair_map_remove_idx(v@, i as int);
            }
            v.remove(i);
        },
        None => {
            proof {
                assert(pair_map_of(v@).remove(k@) =~= pair_map_of(v@)) by {
                    lemma_pair_map_contains(v@, k@);
                }
            }
        },
    }
}

/// The association of `k` in `v`, if it holds one.
fn assoc_get<'a>(v: &'a Vec<(String, String)>, k: &String) -> (r: Option<&'a String>)
    requires
        pair_keys_unique(v@),
    ensures
        match r {
            Some(val) => pair_map_of(v@).contains_key(k@) && val@ == pair_map_of(v@)[k@],
            None => !pair_map_of(v@).contains_key(k@),
        },
{
    proof {
        lemma_pair_map_contains(v@, k@);
    }
    match assoc_find(v, k) {
        Some(i) => {
            proof {
                lemma_pair_map_index(v@, i as int);
            }
            Some(&v[i].1)
        },
        None => None,
    }
}

/// The capability set of a session store.
pub trait Sessions {
    /// The active grants, as a map from token to identity.
    spec fn tokens(&self) -> Map<Seq<char>, Seq<char>>;

    /// The token most recently issued to each identity.
    spec fn latest_tokens(&self) -> Map<Seq<char>, Seq<char>>;

    /// Issue a fresh unguessable token granting `user_uuid`; a token already
    /// held by that identity is not revoked.
    fn create_session(&mut self, user_uuid: &str) -> (r: String)
        ensures
            r@.len() == 36,
            issued(old(self).tokens(), final(self).tokens(), r@, user_uuid@),
            final(self).latest_tokens() == old(self).latest_tokens().insert(user_uuid@, r@),
    ;

    /// Revoke `session_token`: its grant goes, together with the
    /// latest-token entry of the identity it granted (even where a newer
    /// token had overwritten that entry); revoking an unknown token is a
    /// silent no-op.
    fn delete_session(&mut self, session_token: &str)
        ensures
            revoked(old(self).tokens(), final(self).tokens(), session_token@),
            final(self).latest_tokens() == if old(self).tokens().contains_key(session_token@) {
                old(self).latest_tokens().remove(old(self).tokens()[session_token@])
            } else {
                old(self).latest_tokens()
            },
    ;
}

/// The in-memory session store.
pub struct SessionsImpl {
    uuid_to_session: Vec<(String, String)>,
    session_to_uuid: Vec<(String, String)>,
}

impl SessionsImpl {
    #[verifier::type_invariant]
    closed spec fn inv(&self) -> bool {
        pair_keys_unique(self.uuid_to_session@) && pair_keys_unique(self.session_to_uuid@)
    }

    /// How many identities currently hold a session.
    pub fn session_count(&self) -> (r: usize)
        ensures
            r == self.latest_tokens().dom().len(),
    {
        proof {
            use_type_invariant(&*self);
            lemma_pair_map_len(self.uuid_to_session@);
        }
        self.uuid_to_session.len()
    }

    /// The token most recently issued to `user_uuid`, if any.
    pub fn latest_token(&self, user_uuid: &str) -> (r: Option<&String>)
        ensures
            match r {
                Some(t) => self.latest_tokens().contains_key(user_uuid@) && t@
                    == self.latest_tokens()[user_uuid@],
                None => !self.latest_tokens().contains_key(user_uuid@),
            },
    {
        proof {
            use_type_invariant(&*self);
        }
        let key = user_uuid.to_owned();
        assoc_get(&self.uuid_to_session, &key)
    }
}

impl Default for SessionsImpl {
    /// An empty session store.
    fn default() -> (s: Self)
        ensures
            s.tokens() == Map::<Seq<char>, Seq<char>>::empty(),
            s.latest_tokens() == Map::<Seq<char>, Seq<char>>::empty(),
    {
        SessionsImpl { uuid_to_session: Vec::new(), session_to_uuid: Vec::new() }
    }
}

impl Sessions for SessionsImpl {
    closed spec fn tokens(&self) -> Map<Seq<char>, Seq<char>> {
        pair_map_of(self.session_to_uuid@)
    }

    closed spec fn latest_tokens(&self) -> Map<Seq<char>, Seq<char>> {
        pair_map_of(self.uuid_to_session@)
    }

    fn create_session(&mut self, user_uuid: &str) -> (r: String) {
        proof {
            use_type_invariant(&*self);
        }
        let session = fresh_uuid();
        let owner = user_uuid.to_owned();
        let mut fwd: Vec<(String, String)> = Vec::new();
        core::mem::swap(&mut fwd, &mut self.uuid_to_session);
        assoc_insert(&mut fwd, owner, session.clone());
        self.uuid_to_session = fwd;
        let owner2 = user_uuid.to_owned();
        let mut rev: Vec<(String, String)> = Vec::new();
        core::mem::swap(&mut rev, &mut self.session_to_uuid);
        assoc_insert(&mut rev, session.clone(), owner2);
        self.session_to_uuid = rev;
        session
    }

    fn delete_session(&mut self, session_token: &str) {
        proof {
            use_type_invariant(&*self);
        }
        let key = session_token.to_owned();
        let owner = match assoc_get(&self.session_to_uuid, &key) {
            Some(u) => Some(u.clone()),
            None => None,
        };
        match owner {
            Some(u) => {
                let mut fwd: Vec<(String, String)> = Vec::new();
                core::mem::swap(&mut fwd, &mut self.uuid_to_session);
                assoc_remove(&mut fwd, &u);
                self.uuid_to_session = fwd;
                let mut rev: Vec<(String, String)> = Vec::new();
                core::mem::swap(&mut rev, &mut self.session_to_uuid);
                assoc_remove(&mut rev, &key);
                self.session_to_uuid = rev;
            },
            None => {},
        }
    }
}

} // verus!
