//! The authentication orchestrator: the only component with access to both
//! stores.  It owns no data of its own; each operation is a strict
//! composition of store operations, and every business-logic failure is
//! converted into a typed status value here, so a caller only ever sees a
//! well-formed response.

use vstd::prelude::*;

use crate::StatusCode;
use crate::hashing::verifies_against;
use crate::sessions::{issued, revoked, Sessions};
use crate::users::{credential_lookup, registered, UserView, Users};

verus! {

/// Response to a sign-up request.
#[derive(Debug)]
pub struct SignUpResponse {
    pub status_code: StatusCode,
}

/// Response to a sign-in request.
#[derive(Debug)]
pub struct SignInResponse {
    pub status_code: StatusCode,
    pub user_uuid: String,
    pub session_token: String,
}

/// Response to a sign-out request.
#[derive(Debug)]
pub struct SignOutResponse {
    pub status_code: StatusCode,
}

/// The orchestrator over a credential store and a session store, injected at
/// construction.  It is stateless itself: each operation depends only on the
/// stores' accumulated contents.
pub struct AuthService<U: Users, S: Sessions> {
    users_service: U,
    sessions_service: S,
}

impl<U: Users, S: Sessions> AuthService<U, S> {
    /// The registered records of the credential store.
    pub closed spec fn users(&self) -> Map<Seq<char>, UserView> {
        self.users_service.users_view()
    }

    /// The active grants of the session store.
    pub closed spec fn session_tokens(&self) -> Map<Seq<char>, Seq<char>> {
        self.sessions_service.tokens()
    }

    /// The token most recently issued to each identity.
    pub closed spec fn session_latest(&self) -> Map<Seq<char>, Seq<char>> {
        self.sessions_service.latest_tokens()
    }

    /// Wire the orchestrator to its two stores.
    pub fn new(users_service: U, sessions_service: S) -> (s: Self)
        ensures
            s.users() == users_service.users_view(),
            s.session_tokens() == sessions_service.tokens(),
            s.session_latest() == sessions_service.latest_tokens(),
    {
        AuthService { users_service, sessions_service }
    }

    /// Sign-in: resolve the credentials; on failure answer `Failure` with
    /// empty identity and token and leave both stores untouched; on success
    /// issue a fresh session and answer `Success` with the identity produced
    /// at registration and the new token.  An unknown username and a wrong
    /// password are indistinguishable.
    pub fn sign_in(&mut self, username: String, password: String) -> (r: SignInResponse)
        ensures
            final(self).users() == old(self).users(),
            match credential_lookup(old(self).users(), username@, password@) {
                Some(id) => {
                    &&& r.status_code == StatusCode::Success
                    &&& r.user_uuid@ == id
                    &&& r.session_token@.len() == 36
                    &&& issued(
                        old(self).session_tokens(),
                        final(self).session_tokens(),
                        r.session_token@,
                        id,
                    )
                    &&& final(self).session_latest() == old(self).session_latest().insert(
                        id,
                        r.session_token@,
                    )
                },
                None => {
                    &&& r.status_code == StatusCode::Failure
                    &&& r.user_uuid@ == Seq::<char>::empty()
                    &&& r.session_token@ == Seq::<char>::empty()
                    &&& final(self).session_tokens() == old(self).session_tokens()
                    &&& final(self).session_latest() == old(self).session_latest()
                },
            },
    {
        match self.users_service.get_user_uuid(username, password) {
            None => SignInResponse {
                status_code: StatusCode::Failure,
                user_uuid: String::new(),
                session_token: String::new(),
            },
            Some(user_uuid) => {
                let session_token = self.sessions_service.create_session(user_uuid.as_str());
                SignInResponse { status_code: StatusCode::Success, user_uuid, session_token }
            },
        }
    }

    /// Sign-up: delegate to the credential store; success becomes `Success`,
    /// any failure (a duplicate username, or a hashing failure) becomes
    /// `Failure` with no partial effect on either store.
    pub fn sign_up(&mut self, username: String, password: String) -> (r: SignUpResponse)
        ensures
            final(self).session_tokens() == old(self).session_tokens(),
            final(self).session_latest() == old(self).session_latest(),
            old(self).users().contains_key(username@) ==> r.status_code == StatusCode::Failure,
            r.status_code == StatusCode::Failure ==> final(self).users() == old(self).users(),
            r.status_code == StatusCode::Success ==> !old(self).users().contains_key(username@)
                && exists|id: Seq<char>, h: Seq<char>|
                {
                    &&& #[trigger] registered(
                        old(self).users(),
                        final(self).users(),
                        username@,
                        id,
                        h,
                    )
                    &&& id.len() == 36
                    &&& verifies_against(password@, h)
                },
    {
        let ghost pre = self.users();
        match self.users_service.create_user(username, password) {
            Ok(_) => {
                proof {
                    let (id, h) = choose|id: Seq<char>, h: Seq<char>|
                        {
                            &&& #[trigger] registered(pre, self.users(), username@, id, h)
                            &&& id.len() == 36
                            &&& verifies_against(password@, h)
                        };
                    assert(registered(pre, self.users(), username@, id, h));
                }
                SignUpResponse { status_code: StatusCode::Success }
            },
            Err(_) => SignUpResponse { status_code: StatusCode::Failure },
        }
    }

    /// Sign-out: revoke the token and always answer `Success`, whether or
    /// not a session existed; the credential store is untouched.
    pub fn sign_out(&mut self, session_token: String) -> (r: SignOutResponse)
        ensures
            r.status_code == StatusCode::Success,
            final(self).users() == old(self).users(),
            revoked(
                old(self).session_tokens(),
                final(self).session_tokens(),
                session_token@,
            ),
            final(self).session_latest() == if old(self).session_tokens().contains_key(
                session_token@,
            ) {
                old(self).session_latest().remove(
                    old(self).session_tokens()[session_token@],
                )
            } else {
                old(self).session_latest()
            },
    {
        self.sessions_service.delete_session(session_token.as_str());
        SignOutResponse { status_code: StatusCode::Success }
    }
}

} // verus!
