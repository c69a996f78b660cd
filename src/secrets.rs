//! The cryptographic primitives the stores rely on: random identifiers,
//! salted PBKDF2 password hashes and their verification.

use pbkdf2::password_hash::{PasswordHash, PasswordHasher, PasswordVerifier, SaltString};
use pbkdf2::Pbkdf2;
use rand_core::OsRng;
use uuid::Uuid;
use vstd::prelude::*;

verus! {

#[verifier::external_type_specification]
#[verifier::external_body]
pub struct ExSaltString(SaltString);

#[verifier::external_type_specification]
#[verifier::external_body]
pub struct ExHashError(pbkdf2::password_hash::Error);

/// Whether `password` verifies against the PHC-format PBKDF2 hash string `hash`.
/// This depends on the two strings alone.
pub uninterp spec fn password_matches(password: Seq<char>, hash: Seq<char>) -> bool;

/// Relies on uuid's `Uuid::new_v4` (random version-4 UUID) and its `Display`,
/// which writes the hyphenated form: always 36 characters.
#[verifier::external_body]
pub(crate) fn random_uuid() -> (r: String)
    ensures
        r@.len() == 36,
{
    Uuid::new_v4().to_string()
}

/// Relies on password-hash's `SaltString::generate`, drawing from rand_core's
/// `OsRng`: a fresh random salt, of which nothing more is promised.
#[verifier::external_body]
pub(crate) fn fresh_salt() -> (r: SaltString) {
    SaltString::generate(&mut OsRng)
}

/// Relies on `PasswordHasher::hash_password` for `Pbkdf2`: the PHC string it
/// returns embeds the salt and parameters, so verifying the same password
/// against it (`PasswordVerifier::verify_password`) succeeds.
#[verifier::external_body]
pub(crate) fn hash_password(
    password: &str,
    salt: &SaltString,
) -> (r: Result<String, pbkdf2::password_hash::Error>)
    ensures
        r is Ok ==> password_matches(password@, r->Ok_0@),
{
    Pbkdf2.hash_password(password.as_bytes(), salt).map(|h| h.to_string())
}

/// Relies on `PasswordHash::new` (parsing a PHC string) and on
/// `PasswordVerifier::verify_password` for `Pbkdf2`, which recomputes the hash
/// with the embedded salt and compares in constant time. A string that does
/// not parse verifies nothing.
#[verifier::external_body]
pub(crate) fn verify_password(password: &str, hash: &str) -> (r: bool)
    ensures
        r == password_matches(password@, hash@),
{
    match PasswordHash::new(hash) {
        Ok(parsed) => Pbkdf2.verify_password(password.as_bytes(), &parsed).is_ok(),
        Err(_) => false,
    }
}

} // verus!
