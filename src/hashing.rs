//! Salted password hashing through the `pbkdf2` crate.
//!
//! A stored hash is a PHC string (`$pbkdf2-sha256$i=..,l=..$salt$hash`): it
//! names its algorithm, iteration count and salt, so checking a password
//! against it needs nothing else.

use vstd::prelude::*;

use pbkdf2::password_hash::{Error as HashError, PasswordHash, PasswordHasher, PasswordVerifier, SaltString};
use pbkdf2::Pbkdf2;
use rand_core::OsRng;

verus! {

#[verifier::external_type_specification]
#[verifier::external_body]
pub struct ExSaltString(SaltString);

#[verifier::external_type_specification]
#[verifier::external_body]
pub struct ExHashError(HashError);

/// Whether `password` checks out against the PHC string `phc`: the string
/// parses, and re-deriving with its algorithm, parameters and salt gives its
/// hash. False for a string that does not parse.
pub uninterp spec fn password_verifies(password: Seq<char>, phc: Seq<char>) -> bool;

/// Relies on `SaltString::generate` over `rand_core::OsRng`: a fresh salt
/// from the operating system's secure generator. Nothing is known of its value.
/// It panics where that generator fails, which no argument can rule out.
#[verifier::external_body]
pub(crate) fn new_salt() -> SaltString {
    SaltString::generate(&mut OsRng)
}

/// Relies on `PasswordHasher::hash_password` of `Pbkdf2` and on `Display` for
/// `PasswordHash`: the PHC string of the derived hash. The verifier re-derives
/// with the parameters and salt that this string carries, so the same
/// password checks out against it.
#[verifier::external_body]
pub(crate) fn hash_with_salt(password: &str, salt: &SaltString) -> (r: Result<String, HashError>)
    ensures
        r matches Ok(phc) ==> password_verifies(password@, phc@),
{
    match Pbkdf2.hash_password(password.as_bytes(), salt) {
        Ok(hash) => Ok(hash.to_string()),
        Err(e) => Err(e),
    }
}

/// Relies on `PasswordHash::new` and `PasswordVerifier::verify_password` of
/// `Pbkdf2`: parses the PHC string and compares, in constant time, the hash
/// re-derived from `password`. A string that does not parse fails.
#[verifier::external_body]
pub(crate) fn check_password(password: &str, phc: &str) -> (r: bool)
    ensures
        r == password_verifies(password@, phc@),
{
    match PasswordHash::new(phc) {
        Ok(parsed) => Pbkdf2.verify_password(password.as_bytes(), &parsed).is_ok(),
        Err(_) => false,
    }
}

} // verus!
