//! One-way, salted credential hashing and verification.
//!
//! The memory-hard hashing itself is Argon2's; this module pins down how the
//! two operations relate: whatever `get_password_hash` produces, and only a
//! matching password, satisfies `verify_password`.

use argon2::PasswordHasher;
use argon2::PasswordVerifier;
use vstd::prelude::*;

verus! {

/// Whether `password` matches the self-describing encoded hash `stored`:
/// the outcome of Argon2 verification, a function of the two strings alone.
pub uninterp spec fn hash_matches(password: Seq<char>, stored: Seq<char>) -> bool;

/// Hashes a password with a fresh random salt into a self-describing
/// encoded string (algorithm, parameters, salt and digest).
///
/// Relies on argon2's `Argon2::hash_password` and password-hash's
/// `SaltString::generate`: the salt is drawn from the operating system's
/// entropy source, so the encoding is not a function of the password alone,
/// but every hash produced here verifies against the password it was made
/// from. The encoding is a PHC string and so begins with '$' — it is never
/// the raw password, unless that itself starts with '$'. With a generated
/// salt the one failing input is a password of four gibibytes or more;
/// every shorter password hashes.
#[verifier::external_body]
pub fn get_password_hash(password: &String) -> (r: Option<String>)
    ensures
        r matches Some(h) ==> hash_matches(password@, h@) && h@.len() >= 1 && h@[0] == '$',
        password@.len() < 0x4000_0000 ==> r is Some,
{
    let salt = argon2::password_hash::SaltString::generate(&mut rand_core::OsRng);
    argon2::Argon2::default().hash_password(password.as_bytes(), &salt).ok().map(|h| h.to_string())
}

/// Relies on argon2's `Argon2::verify_password` and password-hash's
/// `PasswordHash::new`: recomputes with the salt and parameters embedded in
/// `stored` and compares in constant time; a stored value that does not
/// parse as a hash is treated as not matching.
#[verifier::external_body]
fn argon2_verify(password: &String, stored: &String) -> (r: bool)
    ensures
        r == hash_matches(password@, stored@),
{
    match argon2::password_hash::PasswordHash::new(stored.as_str()) {
        Ok(parsed) => argon2::Argon2::default().verify_password(password.as_bytes(), &parsed).is_ok(),
        Err(_) => false,
    }
}

/// Whether `password` matches the stored credential hash.
///
/// Never fails to answer: a corrupt stored hash simply does not match, so
/// the login flow can respond uniformly.
pub fn verify_password(password: &String, stored: &String) -> (r: bool)
    ensures
        r == hash_matches(password@, stored@),
{
    argon2_verify(password, stored)
}

} // verus!
