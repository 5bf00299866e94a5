use aes_gcm::aead::{Aead, KeyInit};
use aes_gcm::{Aes256Gcm, Key, Nonce};
use argon2::password_hash::{PasswordHash, PasswordHasher, SaltString};
use argon2::Argon2;
use secure_password_manager::argon::{HashCheck, PasswordDigest};
use secure_password_manager::crypto::{
    check_result, decrypt_data, derive_key, encrypt_data, encrypt_with_nonce,
    hash_master_password, hash_master_password_with_salt, verify_master_password, CryptoError,
    MasterKey, KEY_LEN, KEY_SALT_TAG, MAX_KEY_SALT_LEN, NONCE_LEN, SALT_LEN,
};

fn sample_key() -> MasterKey {
    let raw: Vec<u8> = (0u8..32).collect();
    MasterKey::from_digest(&PasswordDigest { raw: Some(raw), encoded: String::new() }).unwrap()
}

fn other_key() -> MasterKey {
    let raw: Vec<u8> = (100u8..132).collect();
    MasterKey::from_digest(&PasswordDigest { raw: Some(raw), encoded: String::new() }).unwrap()
}

#[test]
fn constants_have_the_documented_sizes() {
    assert_eq!(SALT_LEN, 32);
    assert_eq!(NONCE_LEN, 12);
    assert_eq!(KEY_LEN, 32);
}

#[test]
fn derive_key_is_deterministic() {
    let salt = [7u8; 32];
    let a = derive_key("correct horse", &salt).unwrap();
    let b = derive_key("correct horse", &salt).unwrap();
    assert_eq!(a.as_bytes(), b.as_bytes());
    assert_eq!(a.as_bytes().len(), 32);
}

#[test]
fn derive_key_differs_for_different_salts_and_passwords() {
    let a = derive_key("correct horse", &[7u8; 32]).unwrap();
    let b = derive_key("correct horse", &[8u8; 32]).unwrap();
    let c = derive_key("correct horsf", &[7u8; 32]).unwrap();
    assert_ne!(a.as_bytes(), b.as_bytes());
    assert_ne!(a.as_bytes(), c.as_bytes());
}

#[test]
fn derive_key_is_the_argon2id_digest_under_the_tagged_salt() {
    let salt = [3u8; 32];
    let key = derive_key("longpassword1", &salt).unwrap();
    let mut tagged = salt.to_vec();
    tagged.push(KEY_SALT_TAG);
    assert_eq!(KEY_SALT_TAG, 0x4B);
    let mut expected = [0u8; 32];
    Argon2::default().hash_password_into(b"longpassword1", &tagged, &mut expected).unwrap();
    assert_eq!(key.as_bytes(), &expected[..]);
    let mut untagged = [0u8; 32];
    Argon2::default().hash_password_into(b"longpassword1", &salt, &mut untagged).unwrap();
    assert_ne!(key.as_bytes(), &untagged[..]);
    assert_ne!(key.as_bytes(), &salt[..]);
}

#[test]
fn the_key_is_not_the_digest_in_the_hash_string() {
    let (hash, salt) = hash_master_password("longpassword1").unwrap();
    let key = derive_key("longpassword1", &salt).unwrap();
    let parsed = PasswordHash::new(&hash).unwrap();
    let digest = parsed.hash.unwrap();
    assert_eq!(digest.as_bytes().len(), 32);
    assert_ne!(key.as_bytes(), digest.as_bytes());
    let mut stored_salt = [0u8; 64];
    let hash_salt = parsed.salt.unwrap().decode_b64(&mut stored_salt).unwrap().to_vec();
    assert_eq!(hash_salt, salt);
}

#[test]
fn the_key_is_not_the_digest_for_a_given_salt_either() {
    let salt = [9u8; 32];
    let (hash, _) = hash_master_password_with_salt("longpassword1", &salt).unwrap();
    let key = derive_key("longpassword1", &salt).unwrap();
    let parsed = PasswordHash::new(&hash).unwrap();
    assert_ne!(key.as_bytes(), parsed.hash.unwrap().as_bytes());
}

#[test]
fn derive_key_accepts_salts_of_eight_to_forty_seven_bytes() {
    assert_eq!(MAX_KEY_SALT_LEN, 47);
    assert!(derive_key("pw", &[1u8; 8]).is_ok());
    assert!(derive_key("pw", &[1u8; 47]).is_ok());
    assert!(derive_key("", &[1u8; 32]).is_ok());
}

#[test]
fn derive_key_rejects_a_salt_that_is_too_short() {
    assert_eq!(derive_key("pw", &[1u8; 7]).err(), Some(CryptoError::Hashing));
    assert_eq!(derive_key("pw", &[]).err(), Some(CryptoError::Hashing));
    assert_eq!(MasterKey::from_password("pw", &[1u8; 2]).err(), Some(CryptoError::Hashing));
}

#[test]
fn derive_key_rejects_a_salt_that_is_too_long() {
    assert_eq!(derive_key("pw", &[1u8; 48]).err(), Some(CryptoError::SaltEncoding));
    assert_eq!(derive_key("pw", &[1u8; 49]).err(), Some(CryptoError::SaltEncoding));
}

#[test]
fn from_digest_takes_the_first_thirty_two_bytes() {
    let raw: Vec<u8> = (0u8..40).collect();
    let key = MasterKey::from_digest(&PasswordDigest { raw: Some(raw.clone()), encoded: String::new() })
        .unwrap();
    assert_eq!(key.as_bytes(), &raw[..32]);
    let copy = key.clone();
    assert_eq!(copy.as_bytes(), key.as_bytes());
}

#[test]
fn from_digest_rejects_a_missing_or_short_digest() {
    let missing = PasswordDigest { raw: None, encoded: String::new() };
    assert_eq!(MasterKey::from_digest(&missing).err(), Some(CryptoError::HashMissing));
    let short = PasswordDigest { raw: Some(vec![1u8; 31]), encoded: String::new() };
    assert_eq!(MasterKey::from_digest(&short).err(), Some(CryptoError::Hashing));
}

#[test]
fn hash_master_password_returns_a_phc_string_and_a_fresh_salt() {
    let (hash, salt) = hash_master_password("longpassword1").unwrap();
    assert_eq!(salt.len(), 32);
    assert!(hash.starts_with("$argon2id$v=19$m=19456,t=2,p=1$"));
    let (hash2, salt2) = hash_master_password("longpassword1").unwrap();
    assert_ne!(salt, salt2);
    assert_ne!(hash, hash2);
}

#[test]
fn hash_with_salt_is_the_phc_string_of_the_hasher() {
    let salt = [9u8; 32];
    let (hash, returned) = hash_master_password_with_salt("longpassword1", &salt).unwrap();
    assert_eq!(returned, salt.to_vec());
    let salt_string = SaltString::encode_b64(&salt).unwrap();
    let expected =
        Argon2::default().hash_password(b"longpassword1", &salt_string).unwrap().to_string();
    assert_eq!(hash, expected);
}

#[test]
fn verify_accepts_the_password_that_was_hashed() {
    let (hash, _) = hash_master_password("longpassword1").unwrap();
    assert_eq!(verify_master_password("longpassword1", &hash), Ok(true));
}

#[test]
fn verify_rejects_another_password_without_error() {
    let (hash, _) = hash_master_password("longpassword1").unwrap();
    assert_eq!(verify_master_password("longpassword2", &hash), Ok(false));
    assert_eq!(verify_master_password("", &hash), Ok(false));
}

#[test]
fn verify_reports_a_malformed_hash_as_error() {
    assert_eq!(
        verify_master_password("longpassword1", "not a hash"),
        Err(CryptoError::InvalidHashFormat)
    );
    assert_eq!(verify_master_password("longpassword1", ""), Err(CryptoError::InvalidHashFormat));
}

#[test]
fn verify_reports_an_unusable_hash_as_error() {
    let short_salt = "$argon2id$v=19$m=19456,t=2,p=1$c2FsdA$AAAAAAAAAAAAAAAAAAAAAA";
    assert_eq!(verify_master_password("pw", short_salt), Err(CryptoError::Verification));
}

#[test]
fn check_result_maps_each_verdict() {
    assert_eq!(check_result(HashCheck::Match), Ok(true));
    assert_eq!(check_result(HashCheck::Mismatch), Ok(false));
    assert_eq!(check_result(HashCheck::Malformed), Err(CryptoError::InvalidHashFormat));
    assert_eq!(check_result(HashCheck::Failed), Err(CryptoError::Verification));
}

#[test]
fn encrypt_then_decrypt_gives_the_payload_back() {
    let key = sample_key();
    let payloads: Vec<Vec<u8>> = vec![vec![], vec![0], b"hello vault".to_vec(), vec![0xAB; 1000]];
    for payload in payloads {
        let blob = encrypt_data(&payload, &key).unwrap();
        assert_eq!(blob.len(), 12 + payload.len() + 16);
        assert_eq!(decrypt_data(&blob, &key), Ok(payload));
    }
}

#[test]
fn encrypt_with_nonce_is_nonce_then_aes_gcm_output() {
    let key = sample_key();
    let nonce = [5u8; 12];
    let blob = encrypt_with_nonce(b"attack at dawn", &key, &nonce).unwrap();
    assert_eq!(&blob[..12], &nonce[..]);
    let cipher = Aes256Gcm::new(Key::<Aes256Gcm>::from_slice(key.as_bytes()));
    let expected = cipher.encrypt(Nonce::from_slice(&nonce), &b"attack at dawn"[..]).unwrap();
    assert_eq!(&blob[12..], &expected[..]);
    assert_ne!(&blob[12..26], &b"attack at dawn"[..]);
    assert_eq!(decrypt_data(&blob, &key), Ok(b"attack at dawn".to_vec()));
}

#[test]
fn flipping_any_bit_after_the_nonce_makes_decryption_fail() {
    let key = sample_key();
    let blob = encrypt_data(b"secret entries", &key).unwrap();
    for position in 12..blob.len() {
        for bit in 0..8 {
            let mut tampered = blob.clone();
            tampered[position] ^= 1 << bit;
            assert_eq!(decrypt_data(&tampered, &key), Err(CryptoError::Decryption));
        }
    }
}

#[test]
fn flipping_a_bit_of_the_nonce_makes_decryption_fail() {
    let key = sample_key();
    let blob = encrypt_data(b"secret entries", &key).unwrap();
    let mut tampered = blob.clone();
    tampered[0] ^= 1;
    assert_eq!(decrypt_data(&tampered, &key), Err(CryptoError::Decryption));
}

#[test]
fn two_encryptions_of_one_payload_differ() {
    let key = sample_key();
    let a = encrypt_data(b"same input", &key).unwrap();
    let b = encrypt_data(b"same input", &key).unwrap();
    assert_ne!(&a[..12], &b[..12]);
    assert_ne!(a, b);
    assert_ne!(&a[12..], &b[12..]);
}

#[test]
fn decrypt_under_another_key_fails_like_tampering() {
    let blob = encrypt_data(b"secret entries", &sample_key()).unwrap();
    let wrong = decrypt_data(&blob, &other_key()).unwrap_err();
    let mut tampered = blob.clone();
    let last = tampered.len() - 1;
    tampered[last] ^= 0x80;
    let modified = decrypt_data(&tampered, &sample_key()).unwrap_err();
    assert_eq!(wrong, CryptoError::Decryption);
    assert_eq!(wrong, modified);
    assert_eq!(wrong.message(), modified.message());
}

#[test]
fn decrypt_rejects_a_blob_shorter_than_a_nonce() {
    let key = sample_key();
    assert_eq!(decrypt_data(&[], &key), Err(CryptoError::InvalidLength));
    assert_eq!(decrypt_data(&[0u8; 11], &key), Err(CryptoError::InvalidLength));
}

#[test]
fn decrypt_rejects_a_blob_without_room_for_a_tag() {
    let key = sample_key();
    assert_eq!(decrypt_data(&[0u8; 12], &key), Err(CryptoError::Decryption));
    assert_eq!(decrypt_data(&[0u8; 27], &key), Err(CryptoError::Decryption));
    assert_eq!(decrypt_data(&[0u8; 28], &key), Err(CryptoError::Decryption));
}

#[test]
fn crypto_errors_have_their_messages() {
    assert_eq!(CryptoError::SaltEncoding.message(), "Failed to encode salt");
    assert_eq!(CryptoError::Hashing.message(), "Failed to hash password");
    assert_eq!(CryptoError::HashMissing.message(), "Failed to extract hash");
    assert_eq!(CryptoError::InvalidHashFormat.message(), "Invalid hash format");
    assert_eq!(CryptoError::Verification.message(), "Password verification error");
    assert_eq!(CryptoError::Encryption.message(), "Encryption failed");
    assert_eq!(CryptoError::InvalidLength.message(), "Invalid encrypted data length");
    assert_eq!(CryptoError::Decryption.message(), "Decryption failed");
}
