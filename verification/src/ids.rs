//! Random opaque identifiers, delegated to the uuid crate.

use vstd::prelude::*;

verus! {

/// Relies on uuid::Uuid::new_v4 and its Display rendering: a fresh random
/// version-4 UUID formatted in the hyphenated form, which is always exactly
/// 36 characters long.  Nothing further is promised: the value is random.
#[verifier::external_body]
pub(crate) fn fresh_uuid() -> (r: String)
    ensures
        r@.len() == 36,
{
    uuid::Uuid::new_v4().to_string()
}

} // verus!
