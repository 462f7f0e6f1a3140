//! Trusted boundary to the password-hashing primitive.  The service never
//! stores a plaintext password; it stores what `hash_password` returns and
//! later checks candidates with `password_accepted`.

use vstd::prelude::*;

verus! {

/// Whether the bcrypt check accepts `password` against the stored `hashed`
/// string.  This names what `bcrypt::verify` computes: a deterministic
/// function of the two arguments alone, with a verification error (for
/// example a malformed stored hash) counting as rejection.
pub uninterp spec fn bcrypt_accepts(password: Seq<char>, hashed: Seq<char>) -> bool;

/// Relies on bcrypt::verify: checks a password against a stored bcrypt hash
/// string; the result depends only on the two strings, and an error outcome
/// is treated as a failed match.
#[verifier::external_body]
pub fn password_accepted(password: &String, hashed: &String) -> (r: bool)
    ensures
        r == bcrypt_accepts(password@, hashed@),
{
    bcrypt::verify(password, hashed).unwrap_or(false)
}

/// Relies on bcrypt::hash: produces a salted hash string at the crate's
/// default cost which bcrypt::verify accepts for the hashed password; a
/// full bcrypt hash string is always exactly 60 characters.
#[verifier::external_body]
pub fn hash_password(password: &String) -> (r: Option<String>)
    ensures
        r matches Some(h) ==> bcrypt_accepts(password@, h@) && h@.len() == 60,
{
    bcrypt::hash(password, bcrypt::DEFAULT_COST).ok()
}

} // verus!
