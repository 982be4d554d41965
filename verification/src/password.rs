//! Credential store: one-way password hashing and verification.
//!
//! Digests are self-describing PHC strings carrying the algorithm parameters
//! and a freshly drawn random salt, so a caller never manages salts.  The
//! relation between a plaintext and a digest is abstracted by
//! [`digest_matches`]: hashing promises that the fresh digest matches the
//! hashed password, and verification decides that same relation.

use vstd::prelude::*;

use argon2::password_hash::PasswordHash;
use argon2::password_hash::PasswordHasher;
use argon2::password_hash::PasswordVerifier;
use argon2::password_hash::SaltString;

verus! {

/// Whether `digest` is a well-formed digest whose recorded parameters and
/// salt, applied to `password`, reproduce the digest's hash output.
/// This is the relation that argon2's verifier decides: it is a function of
/// the two strings alone, since a digest carries its own salt and parameters.
pub uninterp spec fn digest_matches(password: Seq<char>, digest: Seq<char>) -> bool;

/// Hash a password into a self-describing digest string.
///
/// Relies on `argon2::Argon2::hash_password` (via `password_hash`): the
/// returned PHC string records algorithm, parameters and the random salt
/// drawn here, and verifying it against the same password succeeds.
/// Hashing fails only if the hash computation itself reports an error.
#[verifier::external_body]
pub fn hash_password(password: &str) -> (r: Result<String, String>)
    ensures
        r matches Ok(digest) ==> digest_matches(password@, digest@),
{
    let salt = SaltString::generate(&mut rand_core::OsRng);
    argon2::Argon2::default()
        .hash_password(password.as_bytes(), &salt)
        .map(|hash| hash.to_string())
        .map_err(|e| e.to_string())
}

/// Check a password against a stored digest; malformed digests simply fail.
///
/// Relies on `argon2::Argon2::verify_password` (via `password_hash`): it
/// re-runs the hash with the parameters and salt recorded in the digest and
/// compares in constant time, so the outcome depends only on the password
/// and the digest string.
#[verifier::external_body]
pub fn verify_password(password: &str, password_hash: &str) -> (r: bool)
    ensures
        r == digest_matches(password@, password_hash@),
{
    let parsed_hash = match PasswordHash::new(password_hash) {
        Ok(h) => h,
        Err(_) => return false,
    };
    argon2::Argon2::default().verify_password(password.as_bytes(), &parsed_hash).is_ok()
}

/// A password always verifies against a digest freshly hashed from it:
/// hashing and then checking the same password is proved to answer `true`
/// whenever hashing succeeded, for every password.
pub fn fresh_digest_verifies(password: &str) -> (r: Result<bool, String>)
    ensures
        r matches Ok(accepted) ==> accepted,
{
    match hash_password(password) {
        Ok(digest) => Ok(verify_password(password, digest.as_str())),
        Err(e) => Err(e),
    }
}

} // verus!
