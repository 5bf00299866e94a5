//! Reading and writing a whole vault file: the header, which is readable
//! without the key, and the entries, which are one encrypted blob.

use crate::aead::AEAD_MAX_PLAINTEXT;
use crate::collection::{spec_distinct, spec_views};
use crate::crypto::{
    decrypt_data, encrypt_with_nonce, spec_decrypt, spec_encrypt, CryptoError, MasterKey,
    NONCE_LEN,
};
use crate::error::StoreError;
use crate::layout::{
    frame_file, lemma_parts_of_image, spec_file_image, spec_file_parts, split_file,
};
use crate::password_entry::{EntryView, PasswordEntry};
use crate::records::{decode_entries, encode_entries, spec_decode_entries, spec_encode_entries};
use crate::wire::{decode_header, encode_header, header_decoding, header_encoding};
use vstd::prelude::*;

verus! {

/// The format version that this store writes and reads.
pub const FORMAT_VERSION: u32 = 1;

/// The unencrypted metadata at the start of a vault file.
pub struct DatabaseHeader {
    pub version: u32,
    pub master_hash: String,
    pub salt: Vec<u8>,
}

/// What a header holds, as mathematical values.
pub struct HeaderView {
    pub version: u32,
    pub master_hash: Seq<char>,
    pub salt: Seq<u8>,
}

impl View for DatabaseHeader {
    type V = HeaderView;

    open spec fn view(&self) -> HeaderView {
        HeaderView { version: self.version, master_hash: self.master_hash@, salt: self.salt@ }
    }
}

impl Clone for DatabaseHeader {
    fn clone(&self) -> (copy: Self)
        ensures
            copy@ == self@,
    {
        DatabaseHeader {
            version: self.version,
            master_hash: self.master_hash.clone(),
            salt: self.salt.clone(),
        }
    }
}

/// The bytes that a header is written as.
pub open spec fn spec_encode_header(header: HeaderView) -> Result<Seq<u8>, StoreError> {
    match header_encoding(header.version, header.master_hash, header.salt) {
        None => Err(StoreError::Serialization),
        Some(bytes) => if bytes.len() > u32::MAX {
            Err(StoreError::HeaderTooLarge)
        } else {
            Ok(bytes)
        },
    }
}

/// The header that bytes are read as. A header of another format version
/// is refused and not interpreted.
pub open spec fn spec_decode_header(bytes: Seq<u8>) -> Result<HeaderView, StoreError> {
    match header_decoding(bytes) {
        None => Err(StoreError::MalformedHeader),
        Some(fields) => if fields.0 != FORMAT_VERSION {
            Err(StoreError::UnsupportedVersion)
        } else {
            Ok(HeaderView { version: fields.0, master_hash: fields.1, salt: fields.2 })
        },
    }
}

/// The header that a vault file holds.
pub open spec fn spec_read_header(file: Seq<u8>) -> Result<HeaderView, StoreError> {
    match spec_file_parts(file) {
        Err(e) => Err(StoreError::spec_of_layout(e)),
        Ok(parts) => spec_decode_header(parts.0),
    }
}

/// The entries that a vault file holds under `key`. A file that ends with
/// its header holds none.
pub open spec fn spec_read_entries(file: Seq<u8>, key: Seq<u8>) -> Result<
    Seq<EntryView>,
    StoreError,
> {
    match spec_file_parts(file) {
        Err(e) => Err(StoreError::spec_of_layout(e)),
        Ok(parts) => if parts.1.len() == 0 {
            Ok(Seq::empty())
        } else {
            match spec_decrypt(parts.1, key) {
                Err(e) => Err(StoreError::Crypto(e)),
                Ok(plain) => spec_decode_entries(plain),
            }
        },
    }
}

/// The vault file that holds `header` and, encrypted under `key` with
/// `nonce`, `entries`.
pub open spec fn spec_write_all(
    header: HeaderView,
    entries: Seq<EntryView>,
    key: Seq<u8>,
    nonce: Seq<u8>,
) -> Result<Seq<u8>, StoreError> {
    match spec_encode_header(header) {
        Err(e) => Err(e),
        Ok(header_bytes) => match spec_encode_entries(entries) {
            Err(e) => Err(e),
            Ok(plain) => match spec_encrypt(plain, key, nonce) {
                Err(e) => Err(StoreError::Crypto(e)),
                Ok(blob) => Ok(spec_file_image(header_bytes, blob)->Ok_0),
            },
        },
    }
}

/// Why `header` and `entries` cannot be written, whatever the nonce, or
/// `None` where they can.
pub open spec fn spec_write_failure(header: HeaderView, entries: Seq<EntryView>) -> Option<
    StoreError,
> {
    match spec_encode_header(header) {
        Err(e) => Some(e),
        Ok(_) => match spec_encode_entries(entries) {
            Err(e) => Some(e),
            Ok(plain) => if plain.len() > AEAD_MAX_PLAINTEXT {
                Some(StoreError::Crypto(CryptoError::Encryption))
            } else {
                None
            },
        },
    }
}

/// `file` holds `header` and, encrypted under `key` with some nonce,
/// `entries`.
pub open spec fn spec_is_written(
    file: Seq<u8>,
    header: HeaderView,
    entries: Seq<EntryView>,
    key: Seq<u8>,
) -> bool {
    exists|nonce: Seq<u8>|
        nonce.len() == NONCE_LEN && #[trigger] spec_write_all(header, entries, key, nonce) == Ok::<
            Seq<u8>,
            StoreError,
        >(file)
}

/// Reads the header of a vault file. No key is needed.
pub fn read_header(file: &[u8]) -> (r: Result<DatabaseHeader, StoreError>)
    ensures
        match r {
            Ok(header) => spec_read_header(file@) == Ok::<HeaderView, StoreError>(header@),
            Err(e) => spec_read_header(file@) == Err::<HeaderView, StoreError>(e),
        },
{
    let parts = match split_file(file) {
        Ok(parts) => parts,
        Err(e) => return Err(StoreError::of_layout(e)),
    };
    match decode_header(parts.0) {
        Err(_) => Err(StoreError::MalformedHeader),
        Ok(fields) => {
            let (version, master_hash, salt) = fields;
            if version != FORMAT_VERSION {
                Err(StoreError::UnsupportedVersion)
            } else {
                Ok(DatabaseHeader { version, master_hash, salt })
            }
        },
    }
}

/// Reads the entries of a vault file: skips the header, decrypts what
/// follows under `key` and reads it as entries. A file that ends with its
/// header holds no entries. No service name occurs twice in what is
/// returned.
pub fn read_entries(file: &[u8], key: &MasterKey) -> (r: Result<Vec<PasswordEntry>, StoreError>)
    ensures
        match r {
            Ok(entries) => {
                &&& spec_read_entries(file@, key@) == Ok::<Seq<EntryView>, StoreError>(
                    spec_views(entries@),
                )
                &&& spec_distinct(spec_views(entries@))
            },
            Err(e) => spec_read_entries(file@, key@) == Err::<Seq<EntryView>, StoreError>(e),
        },
{
    let parts = match split_file(file) {
        Ok(parts) => parts,
        Err(e) => return Err(StoreError::of_layout(e)),
    };
    if parts.1.len() == 0 {
        let entries: Vec<PasswordEntry> = Vec::new();
        assert(spec_views(entries@) =~= Seq::empty());
        return Ok(entries);
    }
    match decrypt_data(parts.1, key) {
        Err(e) => Err(StoreError::Crypto(e)),
        Ok(plain) => decode_entries(plain.as_slice()),
    }
}

/// Builds the vault file that holds `header` and, encrypted under `key`
/// with `nonce`, `entries`. Where the header is of this format version and
/// no service name occurs twice, reading the file gives header and entries
/// back.
pub fn write_all(
    header: &DatabaseHeader,
    entries: &Vec<PasswordEntry>,
    key: &MasterKey,
    nonce: &[u8; NONCE_LEN],
) -> (r: Result<Vec<u8>, StoreError>)
    ensures
        match r {
            Ok(file) => {
                &&& spec_write_all(header@, spec_views(entries@), key@, nonce@) == Ok::<
                    Seq<u8>,
                    StoreError,
                >(file@)
                &&& spec_write_failure(header@, spec_views(entries@)) is None
                &&& header.version == FORMAT_VERSION ==> spec_read_header(file@) == Ok::<
                    HeaderView,
                    StoreError,
                >(header@)
                &&& spec_distinct(spec_views(entries@)) ==> spec_read_entries(file@, key@) == Ok::<
                    Seq<EntryView>,
                    StoreError,
                >(spec_views(entries@))
            },
            Err(e) => {
                &&& spec_write_all(header@, spec_views(entries@), key@, nonce@) == Err::<
                    Seq<u8>,
                    StoreError,
                >(e)
                &&& spec_write_failure(header@, spec_views(entries@)) == Some(e)
            },
        },
{
    let header_bytes = match encode_header(header.version, &header.master_hash, &header.salt) {
        Ok(bytes) => bytes,
        Err(_) => return Err(StoreError::Serialization),
    };
    if header_bytes.len() > u32::MAX as usize {
        return Err(StoreError::HeaderTooLarge);
    }
    let plain = match encode_entries(entries) {
        Ok(plain) => plain,
        Err(e) => return Err(e),
    };
    let blob = match encrypt_with_nonce(plain.as_slice(), key, nonce) {
        Ok(blob) => blob,
        Err(e) => return Err(StoreError::Crypto(e)),
    };
    proof {
        lemma_parts_of_image(header_bytes@, blob@);
    }
    match frame_file(header_bytes.as_slice(), blob.as_slice()) {
        Ok(file) => Ok(file),
        Err(e) => Err(StoreError::of_layout(e)),
    }
}

} // verus!
