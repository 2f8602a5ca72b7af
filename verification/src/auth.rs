use vstd::prelude::*;

verus! {

/// Whether bcrypt accepts `password` against the stored `hash` string.
/// This is a function of the two arguments alone: `bcrypt::verify` reads the
/// cost and the salt back out of the hash string, re-derives the hash of the
/// password with them, and compares.
pub uninterp spec fn verifies(password: Seq<char>, hash: Seq<char>) -> bool;

/// Relies on `bcrypt::hash` with bcrypt's default cost.  On success the
/// result is a hash string that `bcrypt::verify` accepts for the same
/// password, since verification re-derives the hash from the password and
/// the salt and cost stored in the hash string itself.
#[verifier::external_body]
pub(crate) fn hash_password(password: &str) -> (r: Option<String>)
    ensures
        r matches Some(h) ==> verifies(password@, h@),
{
    match bcrypt::hash(password, bcrypt::DEFAULT_COST) {
        Ok(h) => Some(h),
        Err(_) => None,
    }
}

/// Relies on `bcrypt::verify`: decides whether `password` matches the
/// stored `hash` string; `None` when the hash string cannot be parsed.
#[verifier::external_body]
pub(crate) fn verify_password(password: &str, hash: &str) -> (r: Option<bool>)
    ensures
        r matches Some(b) ==> b == verifies(password@, hash@),
{
    match bcrypt::verify(password, hash) {
        Ok(b) => Some(b),
        Err(_) => None,
    }
}

} // verus!
