//! Salted password hashing, delegated to the pbkdf2 crate.
//!
//! A stored credential is a PHC-formatted string that embeds the algorithm
//! parameters and the per-record random salt.  Whether a candidate password
//! matches such a string is decided by recomputing the derivation with the
//! embedded salt and parameters and comparing the outputs, so the outcome is
//! a function of the two strings alone; `verifies_against` names it.

use pbkdf2::password_hash::{PasswordHash, PasswordHasher, PasswordVerifier, SaltString};
use vstd::prelude::*;

verus! {

/// Whether `password` matches the PHC-formatted salted hash `phc_hash`:
/// the outcome of parsing `phc_hash` and recomputing the derivation it
/// describes.  An unparseable hash string matches no password.
pub uninterp spec fn verifies_against(password: Seq<char>, phc_hash: Seq<char>) -> bool;

/// Relies on password_hash::SaltString::generate (a fresh random salt drawn
/// from rand_core::OsRng) and on pbkdf2::Pbkdf2's PasswordHasher::hash_password.
/// On success the returned PHC string verifies against the password it was
/// derived from: PasswordVerifier::verify_password recomputes the derivation
/// with the salt and parameters embedded in the string and compares the
/// outputs.  Nothing else is promised of the result: the salt is random.
#[verifier::external_body]
pub(crate) fn derive_password_hash(password: &str) -> (r: Option<String>)
    ensures
        r matches Some(h) ==> verifies_against(password@, h@),
{
    let salt = SaltString::generate(&mut rand_core::OsRng);
    match pbkdf2::Pbkdf2.hash_password(password.as_bytes(), &salt) {
        Ok(h) => Some(h.to_string()),
        Err(_) => None,
    }
}

/// Relies on password_hash::PasswordHash::new (parsing the PHC string) and
/// on pbkdf2::Pbkdf2's PasswordVerifier::verify_password, which recomputes
/// the derivation using the parsed salt and parameters and compares the
/// outputs; the result is therefore the function of the two strings that
/// `verifies_against` names.
#[verifier::external_body]
pub(crate) fn password_matches(password: &str, phc_hash: &str) -> (r: bool)
    ensures
        r == verifies_against(password@, phc_hash@),
{
    match PasswordHash::new(phc_hash) {
        Ok(parsed) => pbkdf2::Pbkdf2.verify_password(password.as_bytes(), &parsed).is_ok(),
        Err(_) => false,
    }
}

} // verus!
