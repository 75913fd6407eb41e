//! A minimal in-memory identity service: a credential store that registers
//! and verifies salted password hashes, a session store that issues and
//! revokes opaque tokens, and an orchestrator that composes the two behind
//! sign-up, sign-in and sign-out.

pub mod auth;
pub mod hashing;
mod ids;
pub mod sessions;
pub mod users;

use vstd::prelude::*;

verus! {

/// Outcome of an orchestrated authentication operation.
#[derive(Clone, Copy, Debug, PartialEq, Eq, Structural)]
pub enum StatusCode {
    Success,
    Failure,
}

} // verus!
