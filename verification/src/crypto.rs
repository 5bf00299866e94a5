//! Master key handling and authenticated encryption of byte payloads.
//!
//! The master password is turned into two things: a self-describing hash
//! string that authenticates the user, and a symmetric key that encrypts
//! the entries. Both come from Argon2id, under different salts: the hash
//! string under the vault's salt as it is, the key under that salt with
//! `KEY_SALT_TAG` appended. So the digest that the hash string holds in the
//! unencrypted header is not the key. Encrypted blobs are laid out as
//! `nonce || ciphertext || tag`.

use crate::aead::{
    aes256gcm_decrypt, aes256gcm_encrypt, aes256gcm_opened, aes256gcm_sealed, fresh_nonce,
    AEAD_MAX_PLAINTEXT, AEAD_TAG_LEN,
};
use crate::entropy::fresh_salt;
use crate::wipe::wipe_bytes;
use crate::argon::{
    argon2id, argon2id_check, argon2id_hash, argon2id_verify, HashCheck, PasswordDigest,
    MAX_PASSWORD_LEN, MIN_SALT_LEN,
};
use vstd::prelude::*;
use vstd::slice::{slice_subrange, slice_to_vec};
use vstd::utf8::encode_utf8;

verus! {

/// Length in bytes of the salt stored in the vault header.
pub const SALT_LEN: usize = 32;

/// Length in bytes of the AES-GCM nonce that starts every encrypted blob.
pub const NONCE_LEN: usize = 12;

/// Length in bytes of the symmetric master key.
pub const KEY_LEN: usize = 32;

/// The byte that is appended to a salt before a key is derived under it.
/// It sets key derivation apart from the hashing of the master password
/// under the same salt.
pub const KEY_SALT_TAG: u8 = 0x4B;

/// The longest salt, in bytes, that a key is derived under: one byte less
/// than Argon2id takes, for the tag.
pub const MAX_KEY_SALT_LEN: usize = 47;

/// Why a cryptographic operation was refused.
#[derive(Clone, Copy, Debug, PartialEq, Eq, Structural)]
pub enum CryptoError {
    /// The salt is too long to be put into a salt string.
    SaltEncoding,
    /// The password hashing function reported an error.
    Hashing,
    /// The password hash holds no digest to take a key from.
    HashMissing,
    /// The stored hash string is not a well-formed password hash.
    InvalidHashFormat,
    /// Verification failed for another reason than a wrong password.
    Verification,
    /// The cipher refused to encrypt the payload.
    Encryption,
    /// The encrypted data is shorter than a nonce.
    InvalidLength,
    /// The tag did not verify: wrong key or modified data.
    Decryption,
}

impl CryptoError {
    /// A human-readable description. A failed decryption reads the same
    /// whether the key was wrong or the data was modified.
    pub fn message(&self) -> (text: String)
        ensures
            text@ == match *self {
                CryptoError::SaltEncoding => "Failed to encode salt"@,
                CryptoError::Hashing => "Failed to hash password"@,
                CryptoError::HashMissing => "Failed to extract hash"@,
                CryptoError::InvalidHashFormat => "Invalid hash format"@,
                CryptoError::Verification => "Password verification error"@,
                CryptoError::Encryption => "Encryption failed"@,
                CryptoError::InvalidLength => "Invalid encrypted data length"@,
                CryptoError::Decryption => "Decryption failed"@,
            },
    {
        match self {
            CryptoError::SaltEncoding => "Failed to encode salt".to_owned(),
            CryptoError::Hashing => "Failed to hash password".to_owned(),
            CryptoError::HashMissing => "Failed to extract hash".to_owned(),
            CryptoError::InvalidHashFormat => "Invalid hash format".to_owned(),
            CryptoError::Verification => "Password verification error".to_owned(),
            CryptoError::Encryption => "Encryption failed".to_owned(),
            CryptoError::InvalidLength => "Invalid encrypted data length".to_owned(),
            CryptoError::Decryption => "Decryption failed".to_owned(),
        }
    }
}

/// The symmetric secret that protects the entries of one vault. It lives in
/// memory only, and its bytes are overwritten when it is dropped.
pub struct MasterKey {
    key: [u8; KEY_LEN],
}

impl View for MasterKey {
    type V = Seq<u8>;

    closed spec fn view(&self) -> Seq<u8> {
        self.key@
    }
}

impl Clone for MasterKey {
    fn clone(&self) -> (copy: Self)
        ensures
            copy@ == self@,
    {
        MasterKey { key: self.key }
    }
}

impl Drop for MasterKey {
    fn drop(&mut self)
        opens_invariants none
        no_unwind
    {
        wipe_bytes(&mut self.key);
    }
}

/// The key that a hashing outcome yields: the first `KEY_LEN` bytes of the
/// raw digest.
pub open spec fn spec_key_of_digest(raw: Option<Seq<u8>>) -> Result<Seq<u8>, CryptoError> {
    match raw {
        None => Err(CryptoError::HashMissing),
        Some(bytes) => if bytes.len() < KEY_LEN {
            Err(CryptoError::Hashing)
        } else {
            Ok(bytes.take(KEY_LEN as int))
        },
    }
}

/// The key derived from a password and a salt, or the reason why there is
/// none.
pub open spec fn spec_derive_key(password: Seq<char>, salt: Seq<u8>) -> Result<
    Seq<u8>,
    CryptoError,
> {
    if salt.len() > MAX_KEY_SALT_LEN {
        Err(CryptoError::SaltEncoding)
    } else if salt.len() < MIN_SALT_LEN {
        Err(CryptoError::Hashing)
    } else {
        match argon2id(password, spec_key_salt(salt)) {
            None => Err(CryptoError::Hashing),
            Some(outcome) => spec_key_of_digest(outcome.0),
        }
    }
}

/// The salt that Argon2id is run under to derive a key for `salt`: `salt`
/// with `KEY_SALT_TAG` appended.
pub open spec fn spec_key_salt(salt: Seq<u8>) -> Seq<u8> {
    salt.push(KEY_SALT_TAG)
}

/// A password and a salt for which key derivation is owed: the salt has
/// room for the tag and is as long as Argon2id asks, and the password is
/// no longer than it takes.
pub open spec fn spec_derivable(password: Seq<char>, salt: Seq<u8>) -> bool {
    &&& MIN_SALT_LEN <= salt.len() <= MAX_KEY_SALT_LEN
    &&& encode_utf8(password).len() <= MAX_PASSWORD_LEN
}

impl MasterKey {
    /// Every key is `KEY_LEN` bytes long.
    pub proof fn lemma_len(&self)
        ensures
            self@.len() == KEY_LEN,
    {
    }

    /// The key bytes.
    pub fn as_bytes(&self) -> (bytes: &[u8])
        ensures
            bytes@ == self@,
            bytes@.len() == KEY_LEN,
    {
        self.key.as_slice()
    }

    /// Takes the key out of a computed password digest.
    pub fn from_digest(digest: &PasswordDigest) -> (r: Result<MasterKey, CryptoError>)
        ensures
            match r {
                Ok(key) => spec_key_of_digest(
                    match digest.raw {
                        Some(raw) => Some(raw@),
                        None => None,
                    },
                ) == Ok::<Seq<u8>, CryptoError>(key@),
                Err(e) => spec_key_of_digest(
                    match digest.raw {
                        Some(raw) => Some(raw@),
                        None => None,
                    },
                ) == Err::<Seq<u8>, CryptoError>(e),
            },
    {
        match &digest.raw {
            None => Err(CryptoError::HashMissing),
            Some(raw) => {
                if raw.len() < KEY_LEN {
                    return Err(CryptoError::Hashing);
                }
                let mut key = [0u8;KEY_LEN];
                let mut i: usize = 0;
                while i < KEY_LEN
                    invariant
                        i <= KEY_LEN,
                        raw@.len() >= KEY_LEN,
                        forall|j: int| 0 <= j < i ==> key@[j] == raw@[j],
                    decreases KEY_LEN - i,
                {
                    key[i] = raw[i];
                    i = i + 1;
                }
                assert(key@ =~= raw@.take(KEY_LEN as int));
                Ok(MasterKey { key })
            },
        }
    }

    /// Derives the key for `password` and `salt`: the first `KEY_LEN`
    /// bytes of the Argon2id digest of the password under the salt with
    /// `KEY_SALT_TAG` appended. The same password and salt always give the
    /// same key, and a key is owed wherever the two are `spec_derivable`.
    pub fn from_password(password: &str, salt: &[u8]) -> (r: Result<MasterKey, CryptoError>)
        ensures
            spec_derivable(password@, salt@) ==> r is Ok,
            match r {
                Ok(key) => spec_derive_key(password@, salt@) == Ok::<Seq<u8>, CryptoError>(key@),
                Err(e) => spec_derive_key(password@, salt@) == Err::<Seq<u8>, CryptoError>(e),
            },
    {
        if salt.len() > MAX_KEY_SALT_LEN {
            return Err(CryptoError::SaltEncoding);
        }
        if salt.len() < MIN_SALT_LEN {
            return Err(CryptoError::Hashing);
        }
        let mut key_salt = slice_to_vec(salt);
        key_salt.push(KEY_SALT_TAG);
        match argon2id_hash(password, key_salt.as_slice()) {
            Ok(digest) => MasterKey::from_digest(&digest),
            Err(_) => Err(CryptoError::Hashing),
        }
    }
}

/// Derives the symmetric key for `password` and `salt`. The same password
/// and salt always give the same key, and a key is owed wherever the two
/// are `spec_derivable`.
pub fn derive_key(password: &str, salt: &[u8]) -> (r: Result<MasterKey, CryptoError>)
    ensures
        spec_derivable(password@, salt@) ==> r is Ok,
        match r {
            Ok(key) => spec_derive_key(password@, salt@) == Ok::<Seq<u8>, CryptoError>(key@),
            Err(e) => spec_derive_key(password@, salt@) == Err::<Seq<u8>, CryptoError>(e),
        },
{
    MasterKey::from_password(password, salt)
}

/// The master password is never hashed for authentication and for the key
/// under one salt: the hash string for `salt` is computed under `salt`, the
/// key for `salt` under another salt.
pub proof fn lemma_key_is_set_apart(password: Seq<char>, salt: Seq<u8>)
    ensures
        spec_key_salt(salt) != salt,
        spec_hash_master_password(password, salt) matches Ok(hashed) ==> argon2id(password, salt)
            matches Some(outcome) && outcome.1 == hashed.0,
        spec_derive_key(password, salt) matches Ok(key) ==> argon2id(
            password,
            spec_key_salt(salt),
        ) matches Some(outcome) && spec_key_of_digest(outcome.0) == Ok::<Seq<u8>, CryptoError>(key),
{
    assert(spec_key_salt(salt).len() == salt.len() + 1);
}

/// Key derivation is a function of the password and the salt: equal inputs
/// have equal outcomes.
pub proof fn lemma_derive_key_deterministic(
    password_a: Seq<char>,
    salt_a: Seq<u8>,
    password_b: Seq<char>,
    salt_b: Seq<u8>,
)
    requires
        password_a == password_b,
        salt_a == salt_b,
    ensures
        spec_derive_key(password_a, salt_a) == spec_derive_key(password_b, salt_b),
{
}

/// The hash string and salt that hashing `password` under `salt` yields.
pub open spec fn spec_hash_master_password(password: Seq<char>, salt: Seq<u8>) -> Result<
    (Seq<char>, Seq<u8>),
    CryptoError,
> {
    match argon2id(password, salt) {
        None => Err(CryptoError::Hashing),
        Some(outcome) => Ok((outcome.1, salt)),
    }
}

/// What verifying `password` against `hash` returns.
pub open spec fn spec_verify_master_password(password: Seq<char>, hash: Seq<char>) -> Result<
    bool,
    CryptoError,
> {
    spec_check_result(argon2id_check(password, hash))
}

/// How a verdict of the verifier is reported: a wrong password is `false`,
/// not an error.
pub open spec fn spec_check_result(check: HashCheck) -> Result<bool, CryptoError> {
    match check {
        HashCheck::Match => Ok(true),
        HashCheck::Mismatch => Ok(false),
        HashCheck::Malformed => Err(CryptoError::InvalidHashFormat),
        HashCheck::Failed => Err(CryptoError::Verification),
    }
}

/// Hashes the master password under a given salt. It fails only on a
/// password longer than Argon2id takes. The hash string that comes out
/// verifies the same password.
pub fn hash_master_password_with_salt(password: &str, salt: &[u8; SALT_LEN]) -> (r: Result<
    (String, Vec<u8>),
    CryptoError,
>)
    ensures
        r is Ok <==> encode_utf8(password@).len() <= MAX_PASSWORD_LEN,
        match r {
            Ok(pair) => {
                &&& spec_hash_master_password(password@, salt@) == Ok::<
                    (Seq<char>, Seq<u8>),
                    CryptoError,
                >((pair.0@, pair.1@))
                &&& spec_verify_master_password(password@, pair.0@) == Ok::<bool, CryptoError>(true)
            },
            Err(e) => spec_hash_master_password(password@, salt@) == Err::<
                (Seq<char>, Seq<u8>),
                CryptoError,
            >(e),
        },
{
    match argon2id_hash(password, salt.as_slice()) {
        Ok(digest) => {
            let PasswordDigest { raw: _, encoded } = digest;
            Ok((encoded, slice_to_vec(salt.as_slice())))
        },
        Err(_) => Err(CryptoError::Hashing),
    }
}

/// Hashes the master password under a fresh random salt of `SALT_LEN`
/// bytes, and returns the hash string with that salt. It fails only on a
/// password longer than Argon2id takes. The hash string that comes out
/// verifies the same password.
pub fn hash_master_password(password: &str) -> (r: Result<(String, Vec<u8>), CryptoError>)
    ensures
        r is Ok <==> encode_utf8(password@).len() <= MAX_PASSWORD_LEN,
        match r {
            Ok(pair) => {
                &&& pair.1@.len() == SALT_LEN
                &&& spec_hash_master_password(password@, pair.1@) == Ok::<
                    (Seq<char>, Seq<u8>),
                    CryptoError,
                >((pair.0@, pair.1@))
                &&& spec_verify_master_password(password@, pair.0@) == Ok::<bool, CryptoError>(true)
            },
            Err(e) => exists|salt: Seq<u8>|
                salt.len() == SALT_LEN && #[trigger] spec_hash_master_password(password@, salt)
                    == Err::<(Seq<char>, Seq<u8>), CryptoError>(e),
        },
{
    let salt = fresh_salt();
    hash_master_password_with_salt(password, &salt)
}

/// Reports a verdict of the verifier as the result of a verification.
pub fn check_result(check: HashCheck) -> (r: Result<bool, CryptoError>)
    ensures
        r == spec_check_result(check),
{
    match check {
        HashCheck::Match => Ok(true),
        HashCheck::Mismatch => Ok(false),
        HashCheck::Malformed => Err(CryptoError::InvalidHashFormat),
        HashCheck::Failed => Err(CryptoError::Verification),
    }
}

/// Verifies `password` against a stored hash string. A wrong password is
/// `Ok(false)`; only a malformed hash string or a failure of the hash
/// function is an error.
pub fn verify_master_password(password: &str, hash_str: &str) -> (r: Result<bool, CryptoError>)
    ensures
        r == spec_verify_master_password(password@, hash_str@),
{
    check_result(argon2id_verify(password, hash_str))
}

/// The blob that encrypting `data` under `key` with `nonce` yields:
/// the nonce, then ciphertext and tag.
pub open spec fn spec_encrypt(data: Seq<u8>, key: Seq<u8>, nonce: Seq<u8>) -> Result<
    Seq<u8>,
    CryptoError,
> {
    if data.len() > AEAD_MAX_PLAINTEXT {
        Err(CryptoError::Encryption)
    } else {
        match aes256gcm_sealed(key, nonce, data) {
            Some(sealed) => Ok(nonce + sealed),
            None => Err(CryptoError::Encryption),
        }
    }
}

/// What decrypting `blob` under `key` returns.
pub open spec fn spec_decrypt(blob: Seq<u8>, key: Seq<u8>) -> Result<Seq<u8>, CryptoError> {
    if blob.len() < NONCE_LEN {
        Err(CryptoError::InvalidLength)
    } else {
        match aes256gcm_opened(key, blob.take(NONCE_LEN as int), blob.skip(NONCE_LEN as int)) {
            Some(plain) => Ok(plain),
            None => Err(CryptoError::Decryption),
        }
    }
}

/// `blob` is the encryption of `data` under `key` with the nonce that the
/// blob starts with.
pub open spec fn spec_is_encryption_of(blob: Seq<u8>, key: Seq<u8>, data: Seq<u8>) -> bool {
    &&& blob.len() >= NONCE_LEN
    &&& spec_encrypt(data, key, blob.take(NONCE_LEN as int)) == Ok::<Seq<u8>, CryptoError>(blob)
}

/// Encrypts `data` under `key` with the given nonce. Decrypting the blob
/// under the same key gives `data` back.
pub fn encrypt_with_nonce(data: &[u8], key: &MasterKey, nonce: &[u8; NONCE_LEN]) -> (r: Result<
    Vec<u8>,
    CryptoError,
>)
    ensures
        r is Ok <==> data@.len() <= AEAD_MAX_PLAINTEXT,
        match r {
            Ok(blob) => {
                &&& spec_encrypt(data@, key@, nonce@) == Ok::<Seq<u8>, CryptoError>(blob@)
                &&& blob@.len() == NONCE_LEN + data@.len() + AEAD_TAG_LEN
                &&& spec_is_encryption_of(blob@, key@, data@)
                &&& spec_decrypt(blob@, key@) == Ok::<Seq<u8>, CryptoError>(data@)
            },
            Err(e) => spec_encrypt(data@, key@, nonce@) == Err::<Seq<u8>, CryptoError>(e),
        },
{
    match aes256gcm_encrypt(key.as_bytes(), nonce.as_slice(), data) {
        Ok(sealed) => {
            let mut blob = slice_to_vec(nonce.as_slice());
            let mut sealed = sealed;
            let ghost body = sealed@;
            blob.append(&mut sealed);
            assert(blob@ =~= nonce@ + body);
            assert(blob@.take(NONCE_LEN as int) =~= nonce@);
            assert(blob@.skip(NONCE_LEN as int) =~= body);
            Ok(blob)
        },
        Err(_) => Err(CryptoError::Encryption),
    }
}

/// Encrypts `data` under `key` with a fresh random nonce and returns
/// `nonce || ciphertext || tag`. Decrypting the blob under the same key
/// gives `data` back.
pub fn encrypt_data(data: &[u8], key: &MasterKey) -> (r: Result<Vec<u8>, CryptoError>)
    ensures
        r is Ok <==> data@.len() <= AEAD_MAX_PLAINTEXT,
        match r {
            Ok(blob) => {
                &&& blob@.len() == NONCE_LEN + data@.len() + AEAD_TAG_LEN
                &&& spec_is_encryption_of(blob@, key@, data@)
                &&& spec_decrypt(blob@, key@) == Ok::<Seq<u8>, CryptoError>(data@)
            },
            Err(e) => e == CryptoError::Encryption,
        },
{
    let nonce = fresh_nonce();
    encrypt_with_nonce(data, key, &nonce)
}

/// Decrypts a blob of the form `nonce || ciphertext || tag`. A blob that is
/// accepted is the encryption, under the nonce it starts with, of the
/// plaintext returned. Whether a modified blob is rejected is the cipher's
/// to decide and is not stated here.
pub fn decrypt_data(encrypted_data: &[u8], key: &MasterKey) -> (r: Result<Vec<u8>, CryptoError>)
    ensures
        match r {
            Ok(plain) => {
                &&& spec_decrypt(encrypted_data@, key@) == Ok::<Seq<u8>, CryptoError>(plain@)
                &&& plain@.len() + NONCE_LEN + AEAD_TAG_LEN == encrypted_data@.len()
                &&& plain@.len() <= AEAD_MAX_PLAINTEXT ==> spec_is_encryption_of(
                    encrypted_data@,
                    key@,
                    plain@,
                )
            },
            Err(e) => spec_decrypt(encrypted_data@, key@) == Err::<Seq<u8>, CryptoError>(e),
        },
        encrypted_data@.len() < NONCE_LEN + AEAD_TAG_LEN ==> r is Err,
{
    if encrypted_data.len() < NONCE_LEN {
        return Err(CryptoError::InvalidLength);
    }
    let nonce = slice_subrange(encrypted_data, 0, NONCE_LEN);
    let ciphertext = slice_subrange(encrypted_data, NONCE_LEN, encrypted_data.len());
    assert(nonce@ =~= encrypted_data@.take(NONCE_LEN as int));
    assert(ciphertext@ =~= encrypted_data@.skip(NONCE_LEN as int));
    match aes256gcm_decrypt(key.as_bytes(), nonce, ciphertext) {
        Ok(plain) => {
            assert(nonce@ + ciphertext@ =~= encrypted_data@);
            Ok(plain)
        },
        Err(_) => Err(CryptoError::Decryption),
    }
}

/// A blob that differs from a genuine encryption of `data` after the nonce,
/// in ciphertext or tag, and is still the encryption of something, is the
/// encryption of other data than `data`.
pub proof fn lemma_modified_blob_holds_other_data(
    genuine: Seq<u8>,
    modified: Seq<u8>,
    key: Seq<u8>,
    data: Seq<u8>,
    other: Seq<u8>,
)
    requires
        spec_is_encryption_of(genuine, key, data),
        spec_is_encryption_of(modified, key, other),
        modified.take(NONCE_LEN as int) == genuine.take(NONCE_LEN as int),
        modified != genuine,
    ensures
        other != data,
{
}

/// Blobs made from one payload under one key with different nonces differ.
pub proof fn lemma_distinct_nonces_distinct_blobs(
    data: Seq<u8>,
    key: Seq<u8>,
    nonce_a: Seq<u8>,
    nonce_b: Seq<u8>,
    blob_a: Seq<u8>,
    blob_b: Seq<u8>,
)
    requires
        nonce_a.len() == NONCE_LEN,
        nonce_b.len() == NONCE_LEN,
        nonce_a != nonce_b,
        spec_encrypt(data, key, nonce_a) == Ok::<Seq<u8>, CryptoError>(blob_a),
        spec_encrypt(data, key, nonce_b) == Ok::<Seq<u8>, CryptoError>(blob_b),
    ensures
        blob_a != blob_b,
{
    let sealed_a = aes256gcm_sealed(key, nonce_a, data)->Some_0;
    let sealed_b = aes256gcm_sealed(key, nonce_b, data)->Some_0;
    assert((nonce_a + sealed_a).take(NONCE_LEN as int) =~= nonce_a);
    assert((nonce_b + sealed_b).take(NONCE_LEN as int) =~= nonce_b);
}

} // verus!
