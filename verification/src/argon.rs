//! Argon2id password hashing as the `argon2` crate provides it. Nothing in
//! this module is proved: each item states what the crate's code does.

use argon2::password_hash::{PasswordHash, PasswordHasher, PasswordVerifier, SaltString};
use argon2::Argon2;
use vstd::prelude::*;
use vstd::utf8::encode_utf8;

verus! {

/// Argon2 rejects a salt of fewer bytes than this.
pub const MIN_SALT_LEN: usize = 8;

/// The longest salt whose Base64 text still fits the 64 characters of a PHC
/// salt string.
pub const MAX_SALT_LEN: usize = 48;

/// The longest password, in bytes, that Argon2 hashes.
pub const MAX_PASSWORD_LEN: usize = 0xFFFF_FFFF;

/// Length in bytes of the digest that Argon2 computes with the crate's
/// default parameters.
pub const DIGEST_LEN: usize = 32;

/// The error type of the `password-hash` crate, carried through unread.
#[verifier::external_type_specification]
#[verifier::external_body]
pub struct ExPasswordHashError(argon2::password_hash::Error);

/// What one run of Argon2id hands back: the raw digest, where the hash holds
/// one, and the self-describing PHC string.
pub struct PasswordDigest {
    pub raw: Option<Vec<u8>>,
    pub encoded: String,
}

/// How a password compares to a PHC hash string.
#[derive(Clone, Copy, Debug, PartialEq, Eq, Structural)]
pub enum HashCheck {
    /// The password produces the digest stored in the string.
    Match,
    /// The string is well formed and the password produces another digest.
    Mismatch,
    /// The string is not a PHC hash string.
    Malformed,
    /// The string parses, and hashing with its parameters failed.
    Failed,
}

/// The raw digest and the PHC string that Argon2id with the crate's default
/// parameters computes for a password and a salt, or `None` where it reports
/// an error.
pub uninterp spec fn argon2id(password: Seq<char>, salt: Seq<u8>) -> Option<
    (Option<Seq<u8>>, Seq<char>),
>;

/// The verdict of the crate's verifier on a password and a PHC hash string.
pub uninterp spec fn argon2id_check(password: Seq<char>, encoded: Seq<char>) -> HashCheck;

/// Hashes `password` with `salt` by `Argon2::default().hash_password`, after
/// `SaltString::encode_b64` has put the salt into text form.
///
/// The contract claims that the outcome depends on the two arguments alone;
/// that the call fails exactly on a password longer than Argon2 takes, the
/// salt being within its bounds; that the hash holds a digest of
/// `DIGEST_LEN` bytes; and that a hash string produced here is accepted by
/// the verifier for the same password: the verifier recomputes the digest
/// from the parameters and the salt in the string. The salt bounds keep out
/// the lengths on which the salt string cannot be built or borrowed.
#[verifier::external_body]
pub(crate) fn argon2id_hash(password: &str, salt: &[u8]) -> (r: Result<
    PasswordDigest,
    argon2::password_hash::Error,
>)
    requires
        MIN_SALT_LEN <= salt@.len() <= MAX_SALT_LEN,
    ensures
        r is Ok <==> encode_utf8(password@).len() <= MAX_PASSWORD_LEN,
        match r {
            Ok(digest) => {
                &&& digest.raw matches Some(raw) && raw@.len() == DIGEST_LEN
                &&& argon2id(password@, salt@) == Some(
                    (
                        match digest.raw {
                            Some(raw) => Some(raw@),
                            None => None,
                        },
                        digest.encoded@,
                    ),
                )
                &&& argon2id_check(password@, digest.encoded@) == HashCheck::Match
            },
            Err(_) => argon2id(password@, salt@) is None,
        },
{
    let salt_string = SaltString::encode_b64(salt)?;
    let hash = Argon2::default().hash_password(password.as_bytes(), &salt_string)?;
    let raw = match hash.hash {
        Some(output) => Some(output.as_bytes().to_vec()),
        None => None,
    };
    Ok(PasswordDigest { raw, encoded: hash.to_string() })
}

/// Checks `password` against a PHC hash string by `PasswordHash::new` and
/// `Argon2::default().verify_password`.
///
/// The contract claims only that the verdict depends on the two arguments
/// alone. A string that does not parse is `Malformed`; of the verifier's
/// errors, `Error::Password` is `Mismatch` and any other is `Failed`. The
/// verifier hashes with the cost parameters that the string names, and
/// takes as much memory as they ask for.
#[verifier::external_body]
pub(crate) fn argon2id_verify(password: &str, encoded: &str) -> (verdict: HashCheck)
    ensures
        verdict == argon2id_check(password@, encoded@),
{
    let parsed = match PasswordHash::new(encoded) {
        Ok(parsed) => parsed,
        Err(_) => return HashCheck::Malformed,
    };
    match Argon2::default().verify_password(password.as_bytes(), &parsed) {
        Ok(()) => HashCheck::Match,
        Err(argon2::password_hash::Error::Password) => HashCheck::Mismatch,
        Err(_) => HashCheck::Failed,
    }
}

} // verus!
