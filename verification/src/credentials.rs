//! One-way credential hashing and verification of a secret against a
//! stored hash.

use vstd::prelude::*;

verus! {

/// What verification answers for a password and a stored hash: `Some(b)`
/// when the stored hash is well-formed, with `b` saying whether the
/// password matches it; `None` when the stored hash is malformed. A
/// function of its two arguments alone — the salt is carried inside the
/// stored hash.
pub uninterp spec fn bcrypt_check(password: Seq<char>, hash: Seq<char>) -> Option<bool>;

/// Fixed work factor for the one-way hash.
pub const HASH_COST: u32 = 10;

/// Why a credential operation failed. Neither case reveals anything about
/// the secret.
#[derive(Clone, Copy, PartialEq, Eq, Structural, Debug)]
pub enum CredentialError {
    /// Internal hashing failure; a fatal path, reported generically.
    HashingFailed,
    /// The stored hash is malformed or corrupt.
    StoredHashInvalid,
}

/// Relies on `bcrypt::hash` with the fixed cost: on success the result is
/// a well-formed salted hash that `bcrypt::verify` accepts against exactly
/// the password it was made from.
#[verifier::external_body]
fn bcrypt_hash_raw(password: &str) -> (r: Result<String, ()>)
    ensures
        r matches Ok(h) ==> bcrypt_check(password@, h@) == Some(true),
{
    match bcrypt::hash(password, HASH_COST) {
        Ok(h) => Ok(h),
        Err(_) => Err(()),
    }
}

/// Relies on `bcrypt::verify`: `Ok` with the comparison outcome for a
/// well-formed stored hash, `Err` only for a malformed one; deterministic
/// in the password and the stored hash.
#[verifier::external_body]
fn bcrypt_verify_raw(password: &str, hash: &str) -> (r: Result<bool, ()>)
    ensures
        match r {
            Ok(b) => bcrypt_check(password@, hash@) == Some(b),
            Err(_) => bcrypt_check(password@, hash@) is None,
        },
{
    match bcrypt::verify(password, hash) {
        Ok(b) => Ok(b),
        Err(_) => Err(()),
    }
}

/// Hash a secret with the fixed work factor. Fails only on internal
/// failure, never on the shape of the input; the result verifies against
/// the secret it was made from.
pub fn hash_password(password: &str) -> (r: Result<String, CredentialError>)
    ensures
        r matches Ok(h) ==> bcrypt_check(password@, h@) == Some(true),
        r matches Err(e) ==> e == CredentialError::HashingFailed,
{
    match bcrypt_hash_raw(password) {
        Ok(h) => Ok(h),
        Err(_) => Err(CredentialError::HashingFailed),
    }
}

/// Verify a secret against a stored hash. `Ok(false)` is the designed
/// result for a wrong secret; only a malformed stored hash is an error.
pub fn verify_password(password: &str, hash: &str) -> (r: Result<bool, CredentialError>)
    ensures
        match r {
            Ok(b) => bcrypt_check(password@, hash@) == Some(b),
            Err(e) => bcrypt_check(password@, hash@) is None && e
                == CredentialError::StoredHashInvalid,
        },
{
    match bcrypt_verify_raw(password, hash) {
        Ok(b) => Ok(b),
        Err(_) => Err(CredentialError::StoredHashInvalid),
    }
}

} // verus!
