//! Trusted boundary to the random session-token generator.

use vstd::prelude::*;

verus! {

/// Relies on uuid::Uuid::new_v4 and its Display impl: a freshly drawn
/// random version-4 UUID rendered in hyphenated form, which is always 36
/// characters.  Nothing can be promised about which token comes back.
#[verifier::external_body]
pub fn new_session_token() -> (r: String)
    ensures
        r@.len() == 36,
{
    uuid::Uuid::new_v4().to_string()
}

} // verus!
