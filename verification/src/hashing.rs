//! One-way password hashing through bcrypt: adaptive, salted, fixed work
//! factor. The hash string is self-describing (salt and parameters ride
//! along), so verification is a function of the hash and the password alone.

use vstd::prelude::*;

verus! {

/// What `bcrypt::verify` returns for a stored hash and a candidate
/// password; it depends on the two arguments alone, the salt being part of
/// the hash string.
pub uninterp spec fn bcrypt_matches(hash: Seq<char>, password: Seq<char>) -> bool;

/// Whether `bcrypt::verify` can check candidates against this stored hash
/// at all: whether the string parses as a bcrypt hash with an admissible
/// cost. Its source errs only on what it reads out of the hash, so this is
/// a function of the hash alone.
pub uninterp spec fn bcrypt_checkable(hash: Seq<char>) -> bool;

/// Relies on `bcrypt::hash` with `bcrypt::DEFAULT_COST`: a fresh salted
/// hash of the password. The salt is random, so the string varies from call
/// to call; what bcrypt promises of every outcome is that the result is a
/// well-formed hash (sixty bytes, version and cost fields in range) which
/// `bcrypt::verify` parses and accepts the password against.
#[verifier::external_body]
pub fn hash_password(password: &str) -> (r: Result<String, ()>)
    ensures
        r matches Ok(h) ==> bcrypt_matches(h@, password@) && bcrypt_checkable(h@),
{
    match bcrypt::hash(password, bcrypt::DEFAULT_COST) {
        Ok(h) => Ok(h),
        Err(_) => Err(()),
    }
}

/// Relies on `bcrypt::verify`: recomputes the hash of `password` under the
/// salt and parameters carried in `hashed` and compares in constant time.
/// It returns `Ok` exactly when the stored hash parses — a condition of the
/// hash alone — and errs only on a malformed one.
#[verifier::external_body]
pub fn verify_password(password: &str, hashed: &str) -> (r: Result<bool, ()>)
    ensures
        r is Ok <==> bcrypt_checkable(hashed@),
        r matches Ok(b) ==> b == bcrypt_matches(hashed@, password@),
{
    match bcrypt::verify(password, hashed) {
        Ok(b) => Ok(b),
        Err(_) => Err(()),
    }
}

} // verus!
