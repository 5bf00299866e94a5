//! What the entry store reports when it refuses an operation.

use crate::crypto::CryptoError;
use crate::layout::LayoutError;
use vstd::prelude::*;

verus! {

/// Why an operation of the entry store was refused.
#[derive(Clone, Copy, Debug, PartialEq, Eq, Structural)]
pub enum StoreError {
    /// No vault exists yet: there is no header to authenticate against.
    NotInitialized,
    /// The vault exists already; it is not overwritten.
    AlreadyInitialized,
    /// The master password is shorter than the minimum.
    PasswordTooShort,
    /// The store holds no header to write.
    HeaderNotAvailable,
    /// The store is locked: it holds no master key.
    MasterKeyNotAvailable,
    /// The vault file ends inside its length prefix or its header.
    TruncatedFile,
    /// The serialized header is longer than the length prefix can say.
    HeaderTooLarge,
    /// The header names a format version that this store does not read.
    UnsupportedVersion,
    /// The header bytes are not a serialized header.
    MalformedHeader,
    /// The decrypted payload is not a serialized set of entries.
    MalformedEntries,
    /// The header or the entries could not be serialized.
    Serialization,
    /// A cryptographic operation failed.
    Crypto(CryptoError),
}

impl StoreError {
    /// The store's error for a file that is not laid out as a vault file.
    pub open spec fn spec_of_layout(e: LayoutError) -> StoreError {
        match e {
            LayoutError::Truncated => StoreError::TruncatedFile,
            LayoutError::HeaderTooLarge => StoreError::HeaderTooLarge,
        }
    }

    /// The store's error for a file that is not laid out as a vault file.
    pub fn of_layout(e: LayoutError) -> (error: StoreError)
        ensures
            error == StoreError::spec_of_layout(e),
    {
        match e {
            LayoutError::Truncated => StoreError::TruncatedFile,
            LayoutError::HeaderTooLarge => StoreError::HeaderTooLarge,
        }
    }

    /// A human-readable description.
    pub fn message(&self) -> (text: String)
        ensures
            text@ == match *self {
                StoreError::NotInitialized => "Database not initialized"@,
                StoreError::AlreadyInitialized => "Database already initialized"@,
                StoreError::PasswordTooShort =>
                    "Master password must be at least 8 characters long!"@,
                StoreError::HeaderNotAvailable => "Header not available"@,
                StoreError::MasterKeyNotAvailable => "Master key not available"@,
                StoreError::TruncatedFile => "Database file is truncated"@,
                StoreError::HeaderTooLarge => "Database header is too large"@,
                StoreError::UnsupportedVersion => "Unsupported database version"@,
                StoreError::MalformedHeader => "Malformed database header"@,
                StoreError::MalformedEntries => "Malformed database entries"@,
                StoreError::Serialization => "Serialization failed"@,
                StoreError::Crypto(e) => match e {
                    CryptoError::SaltEncoding => "Failed to encode salt"@,
                    CryptoError::Hashing => "Failed to hash password"@,
                    CryptoError::HashMissing => "Failed to extract hash"@,
                    CryptoError::InvalidHashFormat => "Invalid hash format"@,
                    CryptoError::Verification => "Password verification error"@,
                    CryptoError::Encryption => "Encryption failed"@,
                    CryptoError::InvalidLength => "Invalid encrypted data length"@,
                    CryptoError::Decryption => "Decryption failed"@,
                },
            },
    {
        match self {
            StoreError::NotInitialized => "Database not initialized".to_owned(),
            StoreError::AlreadyInitialized => "Database already initialized".to_owned(),
            StoreError::PasswordTooShort =>
                "Master password must be at least 8 characters long!".to_owned(),
            StoreError::HeaderNotAvailable => "Header not available".to_owned(),
            StoreError::MasterKeyNotAvailable => "Master key not available".to_owned(),
            StoreError::TruncatedFile => "Database file is truncated".to_owned(),
            StoreError::HeaderTooLarge => "Database header is too large".to_owned(),
            StoreError::UnsupportedVersion => "Unsupported database version".to_owned(),
            StoreError::MalformedHeader => "Malformed database header".to_owned(),
            StoreError::MalformedEntries => "Malformed database entries".to_owned(),
            StoreError::Serialization => "Serialization failed".to_owned(),
            StoreError::Crypto(e) => e.message(),
        }
    }
}

} // verus!
