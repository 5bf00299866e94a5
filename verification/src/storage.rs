//! The entry store: the state of one vault in memory and the operations on
//! it. The store does no file access itself. It is given the bytes of the
//! vault file where it needs them, and every operation that changes the
//! vault returns the bytes of the whole new file for the caller to write.
//!
//! A store is uninitialized while it has no header, locked while it has a
//! header and no key, and unlocked once it has both. Entries are in memory
//! only while it is unlocked.

use crate::aead::fresh_nonce;
use crate::clock::{now, Timestamp};
use crate::collection::{
    find, lemma_position_means, lemma_remove, lemma_replace_password, lemma_upsert, remove,
    spec_distinct, spec_lookup, spec_remove, spec_replace_password, spec_upsert, spec_views,
    upsert,
};
use crate::crypto::{
    derive_key, hash_master_password_with_salt, spec_derive_key, spec_hash_master_password,
    spec_verify_master_password, verify_master_password, CryptoError, MasterKey, KEY_LEN,
    NONCE_LEN, SALT_LEN,
};
use crate::entropy::fresh_salt;
use crate::error::StoreError;
use crate::password_entry::{EntryView, PasswordEntry};
use crate::persistence::{
    read_entries, read_header, spec_is_written, spec_read_entries, spec_read_header,
    spec_write_all, spec_write_failure, write_all, DatabaseHeader, HeaderView, FORMAT_VERSION,
};
use vstd::prelude::*;
use vstd::utf8::encode_utf8;

verus! {

/// The shortest master password, in bytes, that a vault is made with.
pub const MIN_MASTER_PASSWORD_LEN: usize = 8;

/// The state of a vault in memory.
pub struct PasswordStore {
    file_path: String,
    entries: Vec<PasswordEntry>,
    master_key: Option<MasterKey>,
    header: Option<DatabaseHeader>,
}

/// What a store holds, as mathematical values.
pub struct StoreView {
    pub path: Seq<char>,
    pub entries: Seq<EntryView>,
    pub header: Option<HeaderView>,
    pub key: Option<Seq<u8>>,
}

impl View for PasswordStore {
    type V = StoreView;

    closed spec fn view(&self) -> StoreView {
        StoreView {
            path: self.file_path@,
            entries: spec_views(self.entries@),
            header: match self.header {
                Some(header) => Some(header@),
                None => None,
            },
            key: match self.master_key {
                Some(key) => Some(key@),
                None => None,
            },
        }
    }
}

/// What holds of every store: no service name occurs twice; a store
/// without a key holds no entries; a store with a key has a header; and
/// its header is of the format version that is written.
pub open spec fn spec_valid(store: StoreView) -> bool {
    &&& spec_distinct(store.entries)
    &&& store.key is None ==> store.entries.len() == 0
    &&& store.key is Some ==> store.header is Some
    &&& store.key matches Some(key) ==> key.len() == KEY_LEN
    &&& store.header matches Some(header) ==> header.version == FORMAT_VERSION
}

/// Why a store cannot be written whatever it holds: it has no header, or
/// no key.
pub open spec fn spec_lock_error(store: StoreView) -> Option<StoreError> {
    if store.header is None {
        Some(StoreError::HeaderNotAvailable)
    } else if store.key is None {
        Some(StoreError::MasterKeyNotAvailable)
    } else {
        None
    }
}

/// The vault file that a store is written as with `nonce`.
pub open spec fn spec_save(store: StoreView, nonce: Seq<u8>) -> Result<Seq<u8>, StoreError> {
    match spec_lock_error(store) {
        Some(e) => Err(e),
        None => spec_write_all(store.header->Some_0, store.entries, store.key->Some_0, nonce),
    }
}

/// Why a store cannot be written, whatever the nonce, or `None` where it
/// can.
pub open spec fn spec_save_failure(store: StoreView) -> Option<StoreError> {
    match spec_lock_error(store) {
        Some(e) => Some(e),
        None => spec_write_failure(store.header->Some_0, store.entries),
    }
}

/// `file` is the store written with some nonce, and reading it gives the
/// store's header and, under the store's key, its entries back.
pub open spec fn spec_is_saved(file: Seq<u8>, store: StoreView) -> bool {
    &&& store.header is Some
    &&& store.key is Some
    &&& spec_is_written(file, store.header->Some_0, store.entries, store.key->Some_0)
    &&& spec_read_header(file) == Ok::<HeaderView, StoreError>(store.header->Some_0)
    &&& spec_read_entries(file, store.key->Some_0) == Ok::<Seq<EntryView>, StoreError>(
        store.entries,
    )
}

/// Header, key and file of a vault newly made for `password` with `salt`
/// and `nonce`. The hash string in the header is computed under `salt`,
/// which the header holds too; the key is derived under that salt with the
/// key tag appended (`spec_key_salt`). So the digest in the unencrypted
/// header is that of another hashing than the key's.
pub open spec fn spec_initialize(password: Seq<char>, salt: Seq<u8>, nonce: Seq<u8>) -> Result<
    (HeaderView, Seq<u8>, Seq<u8>),
    StoreError,
> {
    if encode_utf8(password).len() < MIN_MASTER_PASSWORD_LEN {
        Err(StoreError::PasswordTooShort)
    } else {
        match spec_hash_master_password(password, salt) {
            Err(e) => Err(StoreError::Crypto(e)),
            Ok(hashed) => match spec_derive_key(password, hashed.1) {
                Err(e) => Err(StoreError::Crypto(e)),
                Ok(key) => {
                    let header = HeaderView {
                        version: FORMAT_VERSION,
                        master_hash: hashed.0,
                        salt: hashed.1,
                    };
                    match spec_write_all(header, Seq::empty(), key, nonce) {
                        Err(e) => Err(e),
                        Ok(file) => Ok((header, key, file)),
                    }
                },
            },
        }
    }
}

/// What authenticating with `password` against `header` and the vault file
/// `file` gives: `None` for a wrong password, else the key and the entries.
/// The password is verified against the hash string; the key is derived
/// under the header's salt with the key tag appended (`spec_key_salt`),
/// never under the header's salt itself.
pub open spec fn spec_authenticate(
    header: Option<HeaderView>,
    password: Seq<char>,
    file: Seq<u8>,
) -> Result<Option<(Seq<u8>, Seq<EntryView>)>, StoreError> {
    match header {
        None => Err(StoreError::NotInitialized),
        Some(header) => match spec_verify_master_password(password, header.master_hash) {
            Err(e) => Err(StoreError::Crypto(e)),
            Ok(false) => Ok(None),
            Ok(true) => match spec_derive_key(password, header.salt) {
                Err(e) => Err(StoreError::Crypto(e)),
                Ok(key) => match spec_read_entries(file, key) {
                    Err(e) => Err(e),
                    Ok(entries) => Ok(Some((key, entries))),
                },
            },
        },
    }
}

impl PasswordStore {
    #[verifier::type_invariant]
    spec fn well_formed(self) -> bool {
        spec_valid(self@)
    }

    /// Moves the entries out of the store, which holds none until they
    /// are put back.
    fn take_entries(&mut self) -> (entries: Vec<PasswordEntry>)
        ensures
            spec_views(entries@) == old(self)@.entries,
            final(self)@ == (StoreView { entries: Seq::empty(), ..old(self)@ }),
    {
        proof {
            use_type_invariant(&*self);
        }
        let mut entries: Vec<PasswordEntry> = Vec::new();
        assert(spec_views(entries@) =~= Seq::empty());
        core::mem::swap(&mut self.entries, &mut entries);
        entries
    }

    /// Does nothing; its contract makes known what holds of every store.
    pub fn check_valid(&self)
        ensures
            spec_valid(self@),
    {
        proof {
            use_type_invariant(self);
        }
    }

    /// The path of the vault file, as given to `new`.
    pub fn file_path(&self) -> (path: &str)
        ensures
            path@ == self@.path,
    {
        self.file_path.as_str()
    }

    /// The store for the vault file at `file_path`. `existing` is the
    /// content of that file, or `None` where there is no such file yet;
    /// the header is read from it. The store starts without key and
    /// entries.
    pub fn new(file_path: &str, existing: Option<&[u8]>) -> (r: Result<Self, StoreError>)
        ensures
            match r {
                Ok(store) => {
                    &&& spec_valid(store@)
                    &&& store@.path == file_path@
                    &&& store@.entries == Seq::<EntryView>::empty()
                    &&& store@.key is None
                    &&& match existing {
                        Some(file) => spec_read_header(file@) == Ok::<HeaderView, StoreError>(
                            store@.header->Some_0,
                        ) && store@.header is Some,
                        None => store@.header is None,
                    }
                },
                Err(e) => existing matches Some(file) && spec_read_header(file@) == Err::<
                    HeaderView,
                    StoreError,
                >(e),
            },
    {
        let header = match existing {
            Some(file) => match read_header(file) {
                Ok(header) => Some(header),
                Err(e) => return Err(e),
            },
            None => None,
        };
        let entries: Vec<PasswordEntry> = Vec::new();
        assert(spec_views(entries@) =~= Seq::empty());
        Ok(PasswordStore { file_path: file_path.to_owned(), entries, master_key: None, header })
    }

    /// Whether a vault exists: whether the store has a header.
    pub fn is_initialized(&self) -> (r: Result<bool, StoreError>)
        ensures
            r == Ok::<bool, StoreError>(self@.header is Some),
    {
        Ok(self.header.is_some())
    }

    /// Whether the store holds the key, and with it the entries.
    pub fn is_unlocked(&self) -> (unlocked: bool)
        ensures
            unlocked == self@.key is Some,
    {
        self.master_key.is_some()
    }

    /// Reads the header from the bytes of the vault file and keeps it. A
    /// store that has a header keeps the one it has: a header is written
    /// once and never replaced.
    pub fn load_header(&mut self, file: &[u8]) -> (r: Result<(), StoreError>)
        ensures
            spec_valid(final(self)@),
            match r {
                Ok(_) => {
                    &&& old(self)@.header is None
                    &&& spec_read_header(file@) == Ok::<HeaderView, StoreError>(
                        final(self)@.header->Some_0,
                    )
                    &&& final(self)@ == (StoreView {
                        header: final(self)@.header,
                        ..old(self)@
                    })
                    &&& final(self)@.header is Some
                },
                Err(e) => {
                    &&& final(self)@ == old(self)@
                    &&& if old(self)@.header is Some {
                        e == StoreError::AlreadyInitialized
                    } else {
                        spec_read_header(file@) == Err::<HeaderView, StoreError>(e)
                    }
                },
            },
    {
        proof {
            use_type_invariant(&*self);
        }
        if self.header.is_some() {
            return Err(StoreError::AlreadyInitialized);
        }
        let header = match read_header(file) {
            Ok(header) => header,
            Err(e) => return Err(e),
        };
        self.header = Some(header);
        Ok(())
    }

    /// Reads the entries from the bytes of the vault file under the
    /// store's key and puts them in place of those in memory.
    pub fn load_entries(&mut self, file: &[u8]) -> (r: Result<(), StoreError>)
        ensures
            spec_valid(final(self)@),
            match r {
                Ok(_) => {
                    &&& old(self)@.key is Some
                    &&& spec_read_entries(file@, old(self)@.key->Some_0) == Ok::<
                        Seq<EntryView>,
                        StoreError,
                    >(final(self)@.entries)
                    &&& final(self)@ == (StoreView {
                        entries: final(self)@.entries,
                        ..old(self)@
                    })
                },
                Err(e) => {
                    &&& final(self)@ == old(self)@
                    &&& match old(self)@.key {
                        None => e == StoreError::MasterKeyNotAvailable,
                        Some(key) => spec_read_entries(file@, key) == Err::<
                            Seq<EntryView>,
                            StoreError,
                        >(e),
                    }
                },
            },
    {
        proof {
            use_type_invariant(&*self);
        }
        let entries = match &self.master_key {
            None => return Err(StoreError::MasterKeyNotAvailable),
            Some(key) => match read_entries(file, key) {
                Ok(entries) => entries,
                Err(e) => return Err(e),
            },
        };
        self.entries = entries;
        Ok(())
    }

    /// Builds the vault file for what the store holds, the entries
    /// encrypted with `nonce`. Reading the file gives header and entries
    /// back.
    pub fn save_with_nonce(&self, nonce: &[u8; NONCE_LEN]) -> (r: Result<Vec<u8>, StoreError>)
        ensures
            match r {
                Ok(file) => {
                    &&& spec_save(self@, nonce@) == Ok::<Seq<u8>, StoreError>(file@)
                    &&& spec_save_failure(self@) is None
                    &&& spec_is_saved(file@, self@)
                },
                Err(e) => {
                    &&& spec_save(self@, nonce@) == Err::<Seq<u8>, StoreError>(e)
                    &&& spec_save_failure(self@) == Some(e)
                },
            },
    {
        proof {
            use_type_invariant(self);
        }
        let header = match &self.header {
            Some(header) => header,
            None => return Err(StoreError::HeaderNotAvailable),
        };
        let key = match &self.master_key {
            Some(key) => key,
            None => return Err(StoreError::MasterKeyNotAvailable),
        };
        let r = write_all(header, &self.entries, key, nonce);
        proof {
            if r is Ok {
                assert(spec_write_all(header@, self@.entries, key@, nonce@) == Ok::<
                    Seq<u8>,
                    StoreError,
                >(r->Ok_0@));
            }
        }
        r
    }

    /// Builds the vault file for what the store holds, the entries
    /// encrypted with a fresh random nonce. Reading the file gives header
    /// and entries back.
    pub fn save_to_file(&self) -> (r: Result<Vec<u8>, StoreError>)
        ensures
            match r {
                Ok(file) => spec_save_failure(self@) is None && spec_is_saved(file@, self@),
                Err(e) => spec_save_failure(self@) == Some(e),
            },
    {
        let nonce = fresh_nonce();
        self.save_with_nonce(&nonce)
    }

    /// Makes the vault for `master_password` with the given salt and
    /// nonce: hashes the password, derives the key, and builds the file of
    /// a vault without entries. An initialized store is left as it is, and
    /// so is the store where anything fails.
    pub fn initialize_with(
        &mut self,
        master_password: &str,
        salt: &[u8; SALT_LEN],
        nonce: &[u8; NONCE_LEN],
    ) -> (r: Result<Vec<u8>, StoreError>)
        ensures
            spec_valid(final(self)@),
            old(self)@.header is Some ==> final(self)@ == old(self)@ && r == Err::<
                Vec<u8>,
                StoreError,
            >(StoreError::AlreadyInitialized),
            old(self)@.header is None ==> match r {
                Ok(file) => {
                    &&& spec_initialize(master_password@, salt@, nonce@) == Ok::<
                        (HeaderView, Seq<u8>, Seq<u8>),
                        StoreError,
                    >((final(self)@.header->Some_0, final(self)@.key->Some_0, file@))
                    &&& final(self)@ == (StoreView {
                        header: final(self)@.header,
                        key: final(self)@.key,
                        ..old(self)@
                    })
                    &&& final(self)@.entries == Seq::<EntryView>::empty()
                    &&& spec_is_saved(file@, final(self)@)
                    &&& spec_verify_master_password(
                        master_password@,
                        final(self)@.header->Some_0.master_hash,
                    ) == Ok::<bool, CryptoError>(true)
                    &&& spec_derive_key(master_password@, final(self)@.header->Some_0.salt) == Ok::<
                        Seq<u8>,
                        CryptoError,
                    >(final(self)@.key->Some_0)
                },
                Err(e) => {
                    &&& spec_initialize(master_password@, salt@, nonce@) == Err::<
                        (HeaderView, Seq<u8>, Seq<u8>),
                        StoreError,
                    >(e)
                    &&& final(self)@ == old(self)@
                },
            },
    {
        proof {
            use_type_invariant(&*self);
        }
        if self.header.is_some() {
            return Err(StoreError::AlreadyInitialized);
        }
        if master_password.as_bytes().len() < MIN_MASTER_PASSWORD_LEN {
            return Err(StoreError::PasswordTooShort);
        }
        let (master_hash, salt) = match hash_master_password_with_salt(master_password, salt) {
            Ok(hashed) => hashed,
            Err(e) => return Err(StoreError::Crypto(e)),
        };
        let key = match derive_key(master_password, salt.as_slice()) {
            Ok(key) => key,
            Err(e) => return Err(StoreError::Crypto(e)),
        };
        let header = DatabaseHeader { version: FORMAT_VERSION, master_hash, salt };
        let file = match write_all(&header, &self.entries, &key, nonce) {
            Ok(file) => file,
            Err(e) => return Err(e),
        };
        proof {
            key.lemma_len();
        }
        self.header = Some(header);
        self.master_key = Some(key);
        Ok(file)
    }

    /// Makes the vault for `master_password` with a fresh random salt and
    /// nonce, and returns the file of a vault without entries. The store
    /// is unlocked afterwards. An initialized store is left as it is; a
    /// master password of fewer than `MIN_MASTER_PASSWORD_LEN` bytes is
    /// refused.
    pub fn initialize(&mut self, master_password: &str) -> (r: Result<Vec<u8>, StoreError>)
        ensures
            spec_valid(final(self)@),
            old(self)@.header is Some ==> final(self)@ == old(self)@ && r == Err::<
                Vec<u8>,
                StoreError,
            >(StoreError::AlreadyInitialized),
            old(self)@.header is None && encode_utf8(master_password@).len()
                < MIN_MASTER_PASSWORD_LEN ==> final(self)@ == old(self)@ && r == Err::<
                Vec<u8>,
                StoreError,
            >(StoreError::PasswordTooShort),
            old(self)@.header is None ==> match r {
                Ok(file) => {
                    &&& encode_utf8(master_password@).len() >= MIN_MASTER_PASSWORD_LEN
                    &&& exists|salt: Seq<u8>, nonce: Seq<u8>|
                        salt.len() == SALT_LEN && nonce.len() == NONCE_LEN
                            && #[trigger] spec_initialize(master_password@, salt, nonce) == Ok::<
                            (HeaderView, Seq<u8>, Seq<u8>),
                            StoreError,
                        >((final(self)@.header->Some_0, final(self)@.key->Some_0, file@))
                    &&& final(self)@ == (StoreView {
                        header: final(self)@.header,
                        key: final(self)@.key,
                        ..old(self)@
                    })
                    &&& final(self)@.entries == Seq::<EntryView>::empty()
                    &&& final(self)@.header->Some_0.salt.len() == SALT_LEN
                    &&& spec_is_saved(file@, final(self)@)
                    &&& spec_verify_master_password(
                        master_password@,
                        final(self)@.header->Some_0.master_hash,
                    ) == Ok::<bool, CryptoError>(true)
                    &&& spec_derive_key(master_password@, final(self)@.header->Some_0.salt) == Ok::<
                        Seq<u8>,
                        CryptoError,
                    >(final(self)@.key->Some_0)
                },
                Err(e) => {
                    &&& final(self)@ == old(self)@
                    &&& exists|salt: Seq<u8>, nonce: Seq<u8>|
                        salt.len() == SALT_LEN && nonce.len() == NONCE_LEN
                            && #[trigger] spec_initialize(master_password@, salt, nonce) == Err::<
                            (HeaderView, Seq<u8>, Seq<u8>),
                            StoreError,
                        >(e)
                },
            },
    {
        let salt = fresh_salt();
        let nonce = fresh_nonce();
        self.initialize_with(master_password, &salt, &nonce)
    }

    /// Authenticates with `password` against the stored hash and, where it
    /// is the right one, derives the key and loads the entries from the
    /// bytes of the vault file. A wrong password is `Ok(false)` and leaves
    /// the store as it is, and so does any failure.
    pub fn verify_master_password(&mut self, password: &str, file: &[u8]) -> (r: Result<
        bool,
        StoreError,
    >)
        ensures
            spec_valid(final(self)@),
            match r {
                Ok(true) => {
                    &&& spec_authenticate(old(self)@.header, password@, file@) == Ok::<
                        Option<(Seq<u8>, Seq<EntryView>)>,
                        StoreError,
                    >(Some((final(self)@.key->Some_0, final(self)@.entries)))
                    &&& final(self)@.key is Some
                    &&& final(self)@.path == old(self)@.path
                    &&& final(self)@.header == old(self)@.header
                },
                Ok(false) => {
                    &&& spec_authenticate(old(self)@.header, password@, file@) == Ok::<
                        Option<(Seq<u8>, Seq<EntryView>)>,
                        StoreError,
                    >(None)
                    &&& final(self)@ == old(self)@
                },
                Err(e) => {
                    &&& spec_authenticate(old(self)@.header, password@, file@) == Err::<
                        Option<(Seq<u8>, Seq<EntryView>)>,
                        StoreError,
                    >(e)
                    &&& final(self)@ == old(self)@
                },
            },
    {
        proof {
            use_type_invariant(&*self);
        }
        let header = match &self.header {
            Some(header) => header,
            None => return Err(StoreError::NotInitialized),
        };
        match verify_master_password(password, header.master_hash.as_str()) {
            Err(e) => Err(StoreError::Crypto(e)),
            Ok(false) => Ok(false),
            Ok(true) => {
                let key = match derive_key(password, header.salt.as_slice()) {
                    Ok(key) => key,
                    Err(e) => return Err(StoreError::Crypto(e)),
                };
                let entries = match read_entries(file, &key) {
                    Ok(entries) => entries,
                    Err(e) => return Err(e),
                };
                proof {
                    key.lemma_len();
                }
                self.master_key = Some(key);
                self.entries = entries;
                Ok(true)
            },
        }
    }

    /// Files `entry` in memory: it takes the place of the entry with its
    /// service name, or is added where there was none. A store that is
    /// not unlocked is left as it is.
    pub fn insert(&mut self, entry: PasswordEntry) -> (r: Result<(), StoreError>)
        ensures
            spec_valid(final(self)@),
            match r {
                Ok(_) => {
                    &&& spec_lock_error(old(self)@) is None
                    &&& final(self)@ == (StoreView {
                        entries: spec_upsert(old(self)@.entries, entry@),
                        ..old(self)@
                    })
                },
                Err(e) => {
                    &&& spec_lock_error(old(self)@) == Some(e)
                    &&& final(self)@ == old(self)@
                },
            },
    {
        proof {
            use_type_invariant(&*self);
            lemma_upsert(self@.entries, entry@);
        }
        if self.header.is_none() {
            return Err(StoreError::HeaderNotAvailable);
        }
        if self.master_key.is_none() {
            return Err(StoreError::MasterKeyNotAvailable);
        }
        let mut entries = self.take_entries();
        upsert(&mut entries, entry);
        self.entries = entries;
        Ok(())
    }

    /// Takes the entry filed under `service` out of memory and says
    /// whether there was one.
    pub fn remove(&mut self, service: &str) -> (removed: bool)
        ensures
            spec_valid(final(self)@),
            final(self)@ == (StoreView {
                entries: spec_remove(old(self)@.entries, service@),
                ..old(self)@
            }),
            removed == spec_lookup(old(self)@.entries, service@) is Some,
    {
        proof {
            use_type_invariant(&*self);
            lemma_remove(self@.entries, service@);
            lemma_position_means(self@.entries, service@);
        }
        let mut entries = self.take_entries();
        let removed = remove(&mut entries, service);
        self.entries = entries;
        removed
    }

    /// Replaces in memory the password of the entry filed under `service`
    /// at the time `at`, and says whether there is such an entry. The old
    /// password is overwritten; `created_at` and the identifier stay; the
    /// time of change advances to `at`, or by one step where `at` is not
    /// after it.
    pub fn replace_password_at(
        &mut self,
        service: &str,
        new_password: &str,
        at: Timestamp,
    ) -> (replaced: bool)
        ensures
            spec_valid(final(self)@),
            final(self)@ == (StoreView {
                entries: spec_replace_password(old(self)@.entries, service@, new_password@, at),
                ..old(self)@
            }),
            replaced == spec_lookup(old(self)@.entries, service@) is Some,
    {
        proof {
            use_type_invariant(&*self);
            lemma_replace_password(self@.entries, service@, new_password@, at);
            lemma_position_means(self@.entries, service@);
        }
        match find(&self.entries, service) {
            None => false,
            Some(i) => {
                let ghost before = spec_views(self.entries@);
                let mut entry = self.entries[i].clone();
                entry.update_password_at(new_password.to_owned(), at);
                proof {
                    lemma_upsert(before, entry@);
                }
                let mut entries = self.take_entries();
                upsert(&mut entries, entry);
                self.entries = entries;
                true
            },
        }
    }

    /// Adds an entry for `service`, made now with a fresh identifier, in
    /// place of any entry with that service name, and returns the new
    /// vault file. A store that is not unlocked is left as it is. Where
    /// building the file fails, the entry is in memory all the same.
    pub fn add_entry(&mut self, service: &str, username: &str, password: &str) -> (r: Result<
        Vec<u8>,
        StoreError,
    >)
        ensures
            spec_valid(final(self)@),
            match spec_lock_error(old(self)@) {
                Some(e) => final(self)@ == old(self)@ && r == Err::<Vec<u8>, StoreError>(e),
                None => {
                    &&& spec_lookup(final(self)@.entries, service@) matches Some(entry)
                    &&& final(self)@ == (StoreView {
                        entries: spec_upsert(old(self)@.entries, entry),
                        ..old(self)@
                    })
                    &&& entry.service == service@
                    &&& entry.username == username@
                    &&& entry.password == password@
                    &&& entry.created_at == entry.updated_at
                    &&& PasswordEntry::spec_is_random_id(entry.id)
                    &&& match r {
                        Ok(file) => spec_is_saved(file@, final(self)@),
                        Err(e) => spec_save_failure(final(self)@) == Some(e),
                    }
                },
            },
    {
        proof {
            use_type_invariant(&*self);
        }
        if self.header.is_none() {
            return Err(StoreError::HeaderNotAvailable);
        }
        if self.master_key.is_none() {
            return Err(StoreError::MasterKeyNotAvailable);
        }
        let entry = PasswordEntry::new(service.to_owned(), username.to_owned(), password.to_owned());
        proof {
            lemma_upsert(self@.entries, entry@);
        }
        let r = self.insert(entry);
        self.save_to_file()
    }

    /// The entry filed under `service`, if there is one. A store that is
    /// not unlocked has none.
    pub fn get_entry(&self, service: &str) -> (r: Result<Option<PasswordEntry>, StoreError>)
        ensures
            r matches Ok(found) && match found {
                Some(entry) => spec_lookup(self@.entries, service@) == Some(entry@),
                None => spec_lookup(self@.entries, service@) is None,
            },
    {
        match find(&self.entries, service) {
            Some(i) => Ok(Some(self.entries[i].clone())),
            None => Ok(None),
        }
    }

    /// All entries. No service name occurs twice among them; their order
    /// means nothing.
    pub fn list_entries(&self) -> (r: Result<Vec<PasswordEntry>, StoreError>)
        ensures
            r matches Ok(entries) && spec_views(entries@) == self@.entries,
    {
        let mut copies: Vec<PasswordEntry> = Vec::new();
        let mut i: usize = 0;
        while i < self.entries.len()
            invariant
                i <= self.entries@.len(),
                copies@.len() == i,
                forall|k: int| 0 <= k < i ==> (#[trigger] copies@[k])@ == self.entries@[k]@,
            decreases self.entries@.len() - i,
        {
            copies.push(self.entries[i].clone());
            i = i + 1;
        }
        assert(spec_views(copies@) =~= spec_views(self.entries@));
        Ok(copies)
    }

    /// Removes the entry filed under `service`, if there is one, and
    /// returns the new vault file, whether or not anything was removed. A
    /// store that is not unlocked cannot be written and is left as it is.
    pub fn delete_entry(&mut self, service: &str) -> (r: Result<Vec<u8>, StoreError>)
        ensures
            spec_valid(final(self)@),
            final(self)@ == (StoreView {
                entries: spec_remove(old(self)@.entries, service@),
                ..old(self)@
            }),
            spec_lookup(final(self)@.entries, service@) is None,
            match r {
                Ok(file) => spec_is_saved(file@, final(self)@),
                Err(e) => spec_save_failure(final(self)@) == Some(e),
            },
    {
        proof {
            use_type_invariant(&*self);
            lemma_remove(self@.entries, service@);
        }
        let _ = self.remove(service);
        self.save_to_file()
    }

    /// Replaces the password of the entry filed under `service` now and
    /// returns the new vault file. The entry's time of change advances
    /// strictly: to the time of the clock where that is later, and else by
    /// one step. Where there is no such entry, nothing changes and there is
    /// no file to write.
    pub fn update_password(&mut self, service: &str, new_password: &str) -> (r: Result<
        Option<Vec<u8>>,
        StoreError,
    >)
        ensures
            spec_valid(final(self)@),
            match spec_lookup(old(self)@.entries, service@) {
                None => final(self)@ == old(self)@ && r matches Ok(None),
                Some(before) => {
                    &&& spec_lookup(final(self)@.entries, service@) matches Some(after)
                    &&& after == (EntryView {
                        password: new_password@,
                        updated_at: after.updated_at,
                        ..before
                    })
                    &&& exists|at: Timestamp|
                        after.updated_at == #[trigger] before.updated_at.spec_advanced_to(at)
                    &&& before.updated_at != Timestamp::spec_last()
                        ==> before.updated_at.spec_is_before(after.updated_at)
                    &&& final(self)@ == (StoreView {
                        entries: spec_upsert(old(self)@.entries, after),
                        ..old(self)@
                    })
                    &&& match r {
                        Ok(written) => written matches Some(file) && spec_is_saved(
                            file@,
                            final(self)@,
                        ),
                        Err(e) => spec_save_failure(final(self)@) == Some(e),
                    }
                },
            },
    {
        let at = now();
        proof {
            use_type_invariant(&*self);
            lemma_replace_password(self@.entries, service@, new_password@, at);
            lemma_position_means(self@.entries, service@);
            if spec_lookup(self@.entries, service@) is Some {
                let before = spec_lookup(self@.entries, service@)->Some_0;
                lemma_upsert(
                    self@.entries,
                    EntryView {
                        password: new_password@,
                        updated_at: before.updated_at.spec_advanced_to(at),
                        ..before
                    },
                );
                if before.updated_at != Timestamp::spec_last() {
                    before.updated_at.lemma_advances(at);
                }
            }
        }
        if self.replace_password_at(service, new_password, at) {
            match self.save_to_file() {
                Ok(file) => Ok(Some(file)),
                Err(e) => Err(e),
            }
        } else {
            Ok(None)
        }
    }
}

} // verus!
