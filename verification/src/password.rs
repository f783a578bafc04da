//! Password hashing and checking, done by the `argon2` crate.

use vstd::prelude::*;
use vstd::utf8::encode_utf8;
use argon2::password_hash::{PasswordHash, PasswordHasher, PasswordVerifier, SaltString};
use argon2::Argon2;
use rand::rngs::OsRng;

verus! {

/// Whether `password` checks out against the argon2 PHC string `hash`: the
/// string parses as a password hash, and hashing `password` with the
/// algorithm, parameters and salt that it names gives its hash value again.
pub uninterp spec fn password_matches(password: Seq<char>, hash: Seq<char>) -> bool;

/// How a PHC string made with `Argon2::default()` begins.
pub open spec fn default_phc_prefix() -> Seq<char> {
    "$argon2id$v=19$m=19456,t=2,p=1$"@
}

/// Hashes `password` with `Argon2::default()` and a salt that
/// `SaltString::generate` draws from the operating system's random source, and
/// returns the PHC string. The salt, and so the string, differs from call to
/// call; what is stated holds of every outcome: the string starts with the
/// algorithm, version and cost parameters of `Argon2::default()`
/// (`$argon2id$v=19$m=19456,t=2,p=1$`, then the salt and the hash), and, as
/// argon2's documentation shows, `verify_password` accepts the password
/// against it. The hashing fails, and `unwrap`
/// panics, only for a password over `u32::MAX` bytes, which `requires` rules out.
#[verifier::external_body]
pub(crate) fn hash_password(password: &str) -> (r: String)
    requires
        encode_utf8(password@).len() <= 0xFFFF_FFFF,
    ensures
        password_matches(password@, r@),
        r@.len() >= default_phc_prefix().len(),
        r@.subrange(0, default_phc_prefix().len() as int) == default_phc_prefix(),
{
    let salt = SaltString::generate(OsRng);
    Argon2::default().hash_password(password.as_bytes(), &salt).unwrap().to_string()
}

/// Parses `hash` with `PasswordHash::new` and checks `password` against it
/// with `Argon2::default().verify_password`; a string that does not parse
/// gives `false`, as does any error from the check. The outcome depends on the
/// two strings alone, and is named `password_matches`. Checking recomputes the
/// hash with the cost parameters that `hash` names, so a string naming huge
/// costs takes that much time and memory; nothing here bounds them.
#[verifier::external_body]
pub(crate) fn verify_password(password: &str, hash: &str) -> (r: bool)
    ensures
        r == password_matches(password@, hash@),
{
    let parsed_hash = match PasswordHash::new(hash) {
        Ok(h) => h,
        Err(_) => return false,
    };
    Argon2::default().verify_password(password.as_bytes(), &parsed_hash).is_ok()
}

} // verus!
