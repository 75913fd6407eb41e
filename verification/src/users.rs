//! The credential store: it owns the set of registered users, hashes and
//! verifies passwords, and maps usernames to identities.
//!
//! The store is modelled as a map from username to record, so the invariant
//! that at most one record exists per username is built into the model; the
//! executable store keeps the records in a vector whose usernames are
//! pairwise distinct.

use vstd::prelude::*;

use crate::hashing::{derive_password_hash, password_matches, verifies_against};
use crate::ids::fresh_uuid;

verus! {

/// Why a registration was refused.
#[derive(Clone, Copy, Debug, PartialEq, Eq, Structural)]
pub enum CredentialError {
    /// A record with the requested username already exists.
    DuplicateUsername,
    /// Deriving the salted hash of the password failed.
    HashFailure,
}

/// Mathematical image of one user record.
pub struct UserView {
    pub user_uuid: Seq<char>,
    pub username: Seq<char>,
    pub password: Seq<char>,
}

/// One stored user record: the identity, the username, and the salted hash
/// of the password (never the password itself).
pub struct User {
    user_uuid: String,
    username: String,
    password: String,
}

impl View for User {
    type V = UserView;

    closed spec fn view(&self) -> UserView {
        UserView {
            user_uuid: self.user_uuid@,
            username: self.username@,
            password: self.password@,
        }
    }
}

/// The records of `s`, as a map from username to record.
pub open spec fn user_map_of(s: Seq<User>) -> Map<Seq<char>, UserView>
    decreases s.len(),
{
    if s.len() == 0 {
        Map::empty()
    } else {
        user_map_of(s.drop_last()).insert(s.last()@.username, s.last()@)
    }
}

/// No two records of `s` share a username.
pub open spec fn usernames_unique(s: Seq<User>) -> bool {
    forall|i: int, j: int| 0 <= i < j < s.len() ==> s[i]@.username != s[j]@.username
}

/// The view of an optional owned string.
pub open spec fn opt_string_view(o: Option<String>) -> Option<Seq<char>> {
    match o {
        Some(s) => Some(s@),
        None => None,
    }
}

/// What a credential check returns on the store `m`: the identity of the
/// record under `username`, and only when `password` verifies against its
/// stored salted hash.  An unknown username and a wrong password are
/// indistinguishable.
pub open spec fn credential_lookup(
    m: Map<Seq<char>, UserView>,
    username: Seq<char>,
    password: Seq<char>,
) -> Option<Seq<char>> {
    if m.contains_key(username) && verifies_against(password, m[username].password) {
        Some(m[username].user_uuid)
    } else {
        None
    }
}

/// One successful registration: `username` was free, and exactly one new
/// record was added, under that username.
pub open spec fn registered(
    pre: Map<Seq<char>, UserView>,
    post: Map<Seq<char>, UserView>,
    username: Seq<char>,
    user_uuid: Seq<char>,
    password_hash: Seq<char>,
) -> bool {
    &&& !pre.contains_key(username)
    &&& post == pre.insert(
        username,
        UserView { user_uuid, username, password: password_hash },
    )
}

/// One removal by identity: exactly the records owned by `user_uuid` are
/// gone, and every other record is untouched.
pub open spec fn removed_by_identity(
    pre: Map<Seq<char>, UserView>,
    post: Map<Seq<char>, UserView>,
    user_uuid: Seq<char>,
) -> bool {
    &&& forall|k: Seq<char>|
        #![trigger post.contains_key(k)]
        #![trigger pre.contains_key(k)]
        post.contains_key(k) <==> (pre.contains_key(k) && pre[k].user_uuid != user_uuid)
    &&& forall|k: Seq<char>| #[trigger] post.contains_key(k) ==> post[k] == pre[k]
}

/// The capability set of a credential store.
pub trait Users {
    /// The registered records, as a map from username to record.
    spec fn users_view(&self) -> Map<Seq<char>, UserView>;

    /// Resolve `username` and verify `password` against the stored salted
    /// hash; the identity comes back only on a cryptographic match.
    fn get_user_uuid(&self, username: String, password: String) -> (r: Option<String>)
        ensures
            opt_string_view(r) == credential_lookup(self.users_view(), username@, password@),
    ;

    /// Register `username` with a fresh identity and a salted hash of
    /// `password`; refused exactly when the username is taken, and failing
    /// only when the hash cannot be derived.
    fn create_user(&mut self, username: String, password: String) -> (r: Result<
        (),
        CredentialError,
    >)
        ensures
            (r == Err::<(), CredentialError>(CredentialError::DuplicateUsername))
                <==> old(self).users_view().contains_key(username@),
            r matches Err(_) ==> final(self).users_view() == old(self).users_view(),
            r matches Ok(_) ==> exists|id: Seq<char>, h: Seq<char>|
                {
                    &&& #[trigger] registered(
                        old(self).users_view(),
                        final(self).users_view(),
                        username@,
                        id,
                        h,
                    )
                    &&& id.len() == 36
                    &&& verifies_against(password@, h)
                },
    ;

    /// Remove the record owned by the identity `user_uuid`; a no-op when the
    /// identity is unknown.
    fn delete_user(&mut self, user_uuid: String)
        ensures
            removed_by_identity(old(self).users_view(), final(self).users_view(), user_uuid@),
    ;
}

/// After a successful registration of `username` the username is taken, so
/// by `create_user`'s contract any further registration of it must fail with
/// `DuplicateUsername`; once the record is removed by its identity the
/// username is free again.
pub proof fn lemma_username_uniqueness(
    pre: Map<Seq<char>, UserView>,
    post: Map<Seq<char>, UserView>,
    after_remove: Map<Seq<char>, UserView>,
    username: Seq<char>,
    user_uuid: Seq<char>,
    password_hash: Seq<char>,
)
    requires
        registered(pre, post, username, user_uuid, password_hash),
        removed_by_identity(post, after_remove, user_uuid),
    ensures
        post.contains_key(username),
        !after_remove.contains_key(username),
{
}

/// A successful registration stores a record whose identity the credential
/// lookup returns for any password that verifies against the stored hash;
/// in particular, by `create_user`'s contract, for the password that was
/// registered.
pub proof fn lemma_credential_round_trip(
    pre: Map<Seq<char>, UserView>,
    post: Map<Seq<char>, UserView>,
    username: Seq<char>,
    user_uuid: Seq<char>,
    password_hash: Seq<char>,
    password: Seq<char>,
)
    requires
        registered(pre, post, username, user_uuid, password_hash),
        verifies_against(password, password_hash),
    ensures
        credential_lookup(post, username, password) == Some(user_uuid),
{
}

/// After a registration, the credential lookup under that username rejects
/// every password that does not verify against the stored salted hash — by
/// the hashing contract, any password but the registered one, short of a
/// collision of the underlying derivation.
pub proof fn lemma_wrong_password_rejected(
    pre: Map<Seq<char>, UserView>,
    post: Map<Seq<char>, UserView>,
    username: Seq<char>,
    user_uuid: Seq<char>,
    password_hash: Seq<char>,
    other_password: Seq<char>,
)
    requires
        registered(pre, post, username, user_uuid, password_hash),
        !verifies_against(other_password, password_hash),
    ensures
        credential_lookup(post, username, other_password) is None,
{
}

proof fn lemma_user_map_contains(s: Seq<User>, k: Seq<char>)
    ensures
        user_map_of(s).contains_key(k) <==> exists|i: int|
            0 <= i < s.len() && s[i]@.username == k,
    decreases s.len(),
{
    if s.len() > 0 {
        lemma_user_map_contains(s.drop_last(), k);
        if s.last()@.username == k {
            assert(s[s.len() - 1]@.username == k);
        } else {
            if exists|i: int| 0 <= i < s.len() && s[i]@.username == k {
                let i = choose|i: int| 0 <= i < s.len() && s[i]@.username == k;
                assert(s.drop_last()[i] == s[i]);
            }
            if user_map_of(s).contains_key(k) {
                let i = choose|i: int|
                    0 <= i < s.drop_last().len() && s.drop_last()[i]@.username == k;
                assert(s[i] == s.drop_last()[i]);
            }
        }
    }
}

proof fn lemma_user_map_index(s: Seq<User>, i: int)
    requires
        usernames_unique(s),
        0 <= i < s.len(),
    ensures
        user_map_of(s).contains_key(s[i]@.username),
        user_map_of(s)[s[i]@.username] == s[i]@,
    decreases s.len(),
{
    if i < s.len() - 1 {
        assert(usernames_unique(s.drop_last())) by {
            assert(forall|a: int, b: int|
                0 <= a < b < s.drop_last().len() ==> s.drop_last()[a] == s[a]
                    && s.drop_last()[b] == s[b]);
        }
        lemma_user_map_index(s.drop_last(), i);
        assert(s.drop_last()[i] == s[i]);
        assert(s.last()@.username != s[i]@.username);
    }
}

proof fn lemma_user_map_len(s: Seq<User>)
    requires
        usernames_unique(s),
    ensures
        user_map_of(s).dom().finite(),
        user_map_of(s).dom().len() == s.len(),
    decreases s.len(),
{
    if s.len() == 0 {
        assert(user_map_of(s).dom() =~= Set::<Seq<char>>::empty());
    } else {
        assert(usernames_unique(s.drop_last())) by {
            assert(forall|a: int, b: int|
                0 <= a < b < s.drop_last().len() ==> s.drop_last()[a] == s[a]
                    && s.drop_last()[b] == s[b]);
        }
        lemma_user_map_len(s.drop_last());
        lemma_user_map_contains(s.drop_last(), s.last()@.username);
        assert(forall|j: int|
            0 <= j < s.drop_last().len() ==> #[trigger] s.drop_last()[j]@.username
                != s.last()@.username) by {
            assert(forall|j: int|
                0 <= j < s.drop_last().len() ==> s.drop_last()[j] == s[j]);
        }
        assert(!user_map_of(s.drop_last()).contains_key(s.last()@.username));
        assert(user_map_of(s).dom() =~= user_map_of(s.drop_last()).dom().insert(
            s.last()@.username,
        ));
    }
}

proof fn lemma_user_map_remove_idx(s: Seq<User>, i: int)
    requires
        usernames_unique(s),
        0 <= i < s.len(),
    ensures
        usernames_unique(s.remove(i)),
        user_map_of(s.remove(i)) == user_map_of(s).remove(s[i]@.username),
    decreases s.len(),
{
    let t = s.remove(i);
    assert(forall|a: int| 0 <= a < i ==> #[trigger] t[a] == s[a]);
    assert(forall|a: int| i <= a < t.len() ==> #[trigger] t[a] == s[a + 1]);
    assert(usernames_unique(t)) by {
        assert forall|a: int, b: int| 0 <= a < b < t.len() implies t[a]@.username
            != t[b]@.username by {
            if a < i {
                assert(t[a] == s[a]);
            } else {
                assert(t[a] == s[a + 1]);
            }
            if b < i {
                assert(t[b] == s[b]);
            } else {
                assert(t[b] == s[b + 1]);
            }
        }
    }
    if i == s.len() - 1 {
        assert(t =~= s.drop_last());
        lemma_user_map_contains(s.drop_last(), s[i]@.username);
        assert(forall|j: int|
            0 <= j < s.drop_last().len() ==> #[trigger] s.drop_last()[j]@.username
                != s[i]@.username) by {
            assert(forall|j: int|
                0 <= j < s.drop_last().len() ==> s.drop_last()[j] == s[j]);
        }
        assert(!user_map_of(s.drop_last()).contains_key(s[i]@.username));
        assert(user_map_of(s).remove(s[i]@.username) =~= user_map_of(s.drop_last()));
    } else {
        assert(usernames_unique(s.drop_last())) by {
            assert(forall|a: int, b: int|
                0 <= a < b < s.drop_last().len() ==> s.drop_last()[a] == s[a]
                    && s.drop_last()[b] == s[b]);
        }
        lemma_user_map_remove_idx(s.drop_last(), i);
        assert(t.drop_last() =~= s.drop_last().remove(i));
        assert(t.last() == s.last());
        assert(s.drop_last()[i] == s[i]);
        assert(s.last()@.username != s[i]@.username);
        assert(user_map_of(t) == user_map_of(s.drop_last()).remove(s[i]@.username).insert(
            s.last()@.username,
            s.last()@,
        ));
        assert(user_map_of(s).remove(s[i]@.username) =~= user_map_of(s.drop_last()).remove(
            s[i]@.username,
        ).insert(s.last()@.username, s.last()@));
    }
}

/// The in-memory credential store.
pub struct UsersImpl {
    users: Vec<User>,
}

fn find_by_username(users: &Vec<User>, username: &String) -> (r: Option<usize>)
    ensures
        match r {
            Some(i) => i < users@.len() && users@[i as int]@.username == username@,
            None => forall|j: int| 0 <= j < users@.len() ==> users@[j]@.username != username@,
        },
{
    let mut i: usize = 0;
    while i < users.len()
        invariant
            i <= users@.len(),
            forall|j: int| 0 <= j < i ==> users@[j]@.username != username@,
        decreases users@.len() - i,
    {
        if users[i].username == *username {
            return Some(i);
        }
        i = i + 1;
    }
    None
}

fn find_by_uuid(users: &Vec<User>, user_uuid: &String) -> (r: Option<usize>)
    ensures
        match r {
            Some(i) => i < users@.len() && users@[i as int]@.user_uuid == user_uuid@,
            None => forall|j: int| 0 <= j < users@.len() ==> users@[j]@.user_uuid != user_uuid@,
        },
{
    let mut i: usize = 0;
    while i < users.len()
        invariant
            i <= users@.len(),
            forall|j: int| 0 <= j < i ==> users@[j]@.user_uuid != user_uuid@,
        decreases users@.len() - i,
    {
        if users[i].user_uuid == *user_uuid {
            return Some(i);
        }
        i = i + 1;
    }
    None
}

impl UsersImpl {
    #[verifier::type_invariant]
    closed spec fn inv(&self) -> bool {
        usernames_unique(self.users@)
    }

    /// How many users are registered.
    pub fn user_count(&self) -> (r: usize)
        ensures
            r == self.users_view().dom().len(),
    {
        proof {
            use_type_invariant(&*self);
            lemma_user_map_len(self.users@);
        }
        self.users.len()
    }
}

impl Default for UsersImpl {
    /// An empty credential store.
    fn default() -> (s: Self)
        ensures
            s.users_view() == Map::<Seq<char>, UserView>::empty(),
    {
        UsersImpl { users: Vec::new() }
    }
}

impl Users for UsersImpl {
    closed spec fn users_view(&self) -> Map<Seq<char>, UserView> {
        user_map_of(self.users@)
    }

    fn get_user_uuid(&self, username: String, password: String) -> (r: Option<String>) {
        proof {
            use_type_invariant(&*self);
        }
        match find_by_username(&self.users, &username) {
            Some(i) => {
                proof {
                    lemma_user_map_index(self.users@, i as int);
                }
                if password_matches(password.as_str(), self.users[i].password.as_str()) {
                    Some(self.users[i].user_uuid.clone())
                } else {
                    None
                }
            },
            None => {
                proof {
                    lemma_user_map_contains(self.users@, username@);
                }
                None
            },
        }
    }

    fn create_user(&mut self, username: String, password: String) -> (r: Result<
        (),
        CredentialError,
    >) {
        proof {
            use_type_invariant(&*self);
        }
        let taken = find_by_username(&self.users, &username).is_some();
        proof {
            lemma_user_map_contains(self.users@, username@);
        }
        if taken {
            return Err(CredentialError::DuplicateUsername);
        }
        let hashed = match derive_password_hash(password.as_str()) {
            Some(h) => h,
            None => {
                return Err(CredentialError::HashFailure);
            },
        };
        let uuid = fresh_uuid();
        let ghost id = uuid@;
        let ghost hv = hashed@;
        let ghost pre = self.users@;
        let user = User { user_uuid: uuid, username, password: hashed };
        let mut list: Vec<User> = Vec::new();
        core::mem::swap(&mut list, &mut self.users);
        list.push(user);
        proof {
            assert(forall|j: int| 0 <= j < pre.len() ==> #[trigger] list@[j] == pre[j]);
            assert(usernames_unique(list@));
            assert(list@.drop_last() =~= pre);
            assert(registered(user_map_of(pre), user_map_of(list@), user@.username, id, hv));
        }
        self.users = list;
        proof {
            assert(exists|id2: Seq<char>, h2: Seq<char>|
                {
                    &&& #[trigger] registered(
                        user_map_of(pre),
                        self.users_view(),
                        user@.username,
                        id2,
                        h2,
                    )
                    &&& id2.len() == 36
                    &&& verifies_against(password@, h2)
                }) by {
                assert(registered(user_map_of(pre), self.users_view(), user@.username, id, hv));
            }
        }
        Ok(())
    }

    fn delete_user(&mut self, user_uuid: String) {
        proof {
            use_type_invariant(&*self);
        }
        let ghost orig = user_map_of(self.users@);
        let mut list: Vec<User> = Vec::new();
        core::mem::swap(&mut list, &mut self.users);
        let mut done = false;
        while !done
            invariant
                usernames_unique(list@),
                forall|k: Seq<char>| #[trigger]
                    user_map_of(list@).contains_key(k) ==> orig.contains_key(k)
                        && user_map_of(list@)[k] == orig[k],
                forall|k: Seq<char>| #[trigger]
                    orig.contains_key(k) && orig[k].user_uuid != user_uuid@ ==> user_map_of(
                        list@,
                    ).contains_key(k),
                done ==> forall|k: Seq<char>| #[trigger]
                    user_map_of(list@).contains_key(k) ==> user_map_of(
                        list@,
                    )[k].user_uuid != user_uuid@,
            decreases list@.len() + (if done { 0int } else { 1 }),
        {
            match find_by_uuid(&list, &user_uuid) {
                Some(i) => {
                    proof {
                        lemma_user_map_index(list@, i as int);
                        lemma_user_map_remove_idx(list@, i as int);
                    }
                    list.remove(i);
                },
                None => {
                    proof {
                        assert forall|k: Seq<char>| #[trigger]
                            user_map_of(list@).contains_key(k) implies user_map_of(
                            list@,
                        )[k].user_uuid != user_uuid@ by {
                            lemma_user_map_contains(list@, k);
                            let j = choose|j: int|
                                0 <= j < list@.len() && list@[j]@.username == k;
                            lemma_user_map_index(list@, j);
                        }
                    }
                    done = true;
                },
            }
        }
        self.users = list;
    }
}

} // verus!
