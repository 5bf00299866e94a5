//! AES-256-GCM as the `aes-gcm` crate provides it. Nothing in this module
//! is proved: each item states what the crate's code does.

use aes_gcm::aead::{Aead, AeadCore, KeyInit};
use aes_gcm::{Aes256Gcm, Key, Nonce};
use rand::rngs::OsRng;
use vstd::prelude::*;

verus! {

/// Length in bytes of an AES-256 key.
pub const AEAD_KEY_LEN: usize = 32;

/// Length in bytes of the nonce of one AES-GCM operation.
pub const AEAD_NONCE_LEN: usize = 12;

/// Length in bytes of the authentication tag that ends a ciphertext.
pub const AEAD_TAG_LEN: usize = 16;

/// The longest plaintext, in bytes, that AES-GCM encrypts.
pub const AEAD_MAX_PLAINTEXT: u64 = 0x10_0000_0000;

/// The error type of the `aes-gcm` crate; it holds no detail.
#[verifier::external_type_specification]
#[verifier::external_body]
pub struct ExAeadError(aes_gcm::Error);

/// Ciphertext and tag that AES-256-GCM computes for a key, a nonce and a
/// plaintext with no associated data, or `None` where it refuses.
pub uninterp spec fn aes256gcm_sealed(key: Seq<u8>, nonce: Seq<u8>, plaintext: Seq<u8>) -> Option<
    Seq<u8>,
>;

/// The plaintext that AES-256-GCM recovers from ciphertext and tag under a
/// key and a nonce, or `None` where it rejects them.
pub uninterp spec fn aes256gcm_opened(key: Seq<u8>, nonce: Seq<u8>, ciphertext: Seq<u8>) -> Option<
    Seq<u8>,
>;

/// Encrypts by `Aes256Gcm::encrypt` under a key made by `Key::from_slice`
/// and a nonce made by `Nonce::from_slice`.
///
/// The contract claims: the call fails exactly on a plaintext above the
/// cipher's length limit; the result depends on the three arguments alone;
/// it is the plaintext's length plus one tag long; and decrypting it under
/// the same key and nonce gives the plaintext back. The length demands keep
/// out the slices on which `from_slice` panics.
#[verifier::external_body]
pub(crate) fn aes256gcm_encrypt(key: &[u8], nonce: &[u8], plaintext: &[u8]) -> (r: Result<
    Vec<u8>,
    aes_gcm::Error,
>)
    requires
        key@.len() == AEAD_KEY_LEN,
        nonce@.len() == AEAD_NONCE_LEN,
    ensures
        r is Ok <==> plaintext@.len() <= AEAD_MAX_PLAINTEXT,
        match r {
            Ok(sealed) => {
                &&& aes256gcm_sealed(key@, nonce@, plaintext@) == Some(sealed@)
                &&& sealed@.len() == plaintext@.len() + AEAD_TAG_LEN
                &&& aes256gcm_opened(key@, nonce@, sealed@) == Some(plaintext@)
            },
            Err(_) => aes256gcm_sealed(key@, nonce@, plaintext@) is None,
        },
{
    Aes256Gcm::new(Key::<Aes256Gcm>::from_slice(key)).encrypt(Nonce::from_slice(nonce), plaintext)
}

/// Decrypts by `Aes256Gcm::decrypt` under a key made by `Key::from_slice`
/// and a nonce made by `Nonce::from_slice`.
///
/// The contract claims: the result depends on the three arguments alone; an
/// input shorter than one tag is rejected; a plaintext that comes out is one
/// tag shorter than the input; and, where it is within the cipher's length
/// limit, encrypting it under the same key and nonce gives exactly the
/// input, since the tag is recomputed over the ciphertext and compared
/// before the key stream is applied.
#[verifier::external_body]
pub(crate) fn aes256gcm_decrypt(key: &[u8], nonce: &[u8], ciphertext: &[u8]) -> (r: Result<
    Vec<u8>,
    aes_gcm::Error,
>)
    requires
        key@.len() == AEAD_KEY_LEN,
        nonce@.len() == AEAD_NONCE_LEN,
    ensures
        ciphertext@.len() < AEAD_TAG_LEN ==> r is Err,
        match r {
            Ok(plaintext) => {
                &&& aes256gcm_opened(key@, nonce@, ciphertext@) == Some(plaintext@)
                &&& plaintext@.len() + AEAD_TAG_LEN == ciphertext@.len()
                &&& plaintext@.len() <= AEAD_MAX_PLAINTEXT ==> aes256gcm_sealed(
                    key@,
                    nonce@,
                    plaintext@,
                ) == Some(ciphertext@)
            },
            Err(_) => aes256gcm_opened(key@, nonce@, ciphertext@) is None,
        },
{
    Aes256Gcm::new(Key::<Aes256Gcm>::from_slice(key)).decrypt(Nonce::from_slice(nonce), ciphertext)
}

/// A nonce from `Aes256Gcm::generate_nonce` over `OsRng`. Nothing is claimed
/// of its bytes: they are random.
#[verifier::external_body]
pub(crate) fn fresh_nonce() -> (nonce: [u8; AEAD_NONCE_LEN]) {
    Aes256Gcm::generate_nonce(&mut OsRng).into()
}

} // verus!
