//! Fresh random identifiers for sessions and job names.

use vstd::prelude::*;

verus! {

/// Relies on uuid::Uuid::new_v4 and its hyphenated `Display`: a fresh
/// random 128-bit identifier rendered as a lower-case hyphenated string
/// of exactly 36 characters. The value is random, so nothing more is
/// stated of it.
#[verifier::external_body]
pub(crate) fn fresh_uuid() -> (r: String)
    ensures
        r@.len() == 36,
{
    uuid::Uuid::new_v4().to_string()
}

} // verus!
