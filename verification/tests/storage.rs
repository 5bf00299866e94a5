use secure_password_manager::clock::Timestamp;
use secure_password_manager::crypto::{derive_key, verify_master_password};
use secure_password_manager::error::StoreError;
use secure_password_manager::password_entry::PasswordEntry;
use secure_password_manager::persistence::{read_entries, read_header};
use secure_password_manager::storage::PasswordStore;

const MASTER: &str = "longpassword1";

fn fresh() -> PasswordStore {
    PasswordStore::new("vault.db", None).unwrap()
}

fn unlocked() -> (PasswordStore, Vec<u8>) {
    let mut store = fresh();
    let file = store.initialize(MASTER).unwrap();
    (store, file)
}

#[test]
fn a_new_store_without_file_is_uninitialized() {
    let store = fresh();
    assert_eq!(store.file_path(), "vault.db");
    assert_eq!(store.is_initialized(), Ok(false));
    assert!(!store.is_unlocked());
    assert!(store.list_entries().unwrap().is_empty());
    store.check_valid();
}

#[test]
fn initialize_makes_an_unlocked_empty_vault() {
    let (store, file) = unlocked();
    assert_eq!(store.is_initialized(), Ok(true));
    assert!(store.is_unlocked());
    assert!(store.list_entries().unwrap().is_empty());
    let header = read_header(&file).unwrap();
    assert_eq!(header.version, 1);
    assert_eq!(header.salt.len(), 32);
    assert_eq!(verify_master_password(MASTER, &header.master_hash), Ok(true));
    let key = derive_key(MASTER, &header.salt).unwrap();
    assert!(read_entries(&file, &key).unwrap().is_empty());
}

#[test]
fn initialize_with_fixed_salt_and_nonce_is_reproducible() {
    let mut a = fresh();
    let mut b = fresh();
    let fa = a.initialize_with(MASTER, &[1u8; 32], &[2u8; 12]).unwrap();
    let fb = b.initialize_with(MASTER, &[1u8; 32], &[2u8; 12]).unwrap();
    assert_eq!(fa, fb);
    let mut c = fresh();
    let fc = c.initialize_with(MASTER, &[1u8; 32], &[3u8; 12]).unwrap();
    assert_ne!(fa, fc);
    assert_eq!(read_header(&fa).unwrap().salt, vec![1u8; 32]);
}

#[test]
fn initialize_accepts_eight_bytes_and_rejects_seven() {
    let mut short = fresh();
    assert_eq!(short.initialize("1234567").err(), Some(StoreError::PasswordTooShort));
    assert_eq!(short.is_initialized(), Ok(false));
    assert!(!short.is_unlocked());
    let mut exact = fresh();
    assert!(exact.initialize("12345678").is_ok());
    assert_eq!(exact.is_initialized(), Ok(true));
    let mut empty = fresh();
    assert_eq!(empty.initialize("").err(), Some(StoreError::PasswordTooShort));
}

#[test]
fn initialize_twice_is_rejected_and_changes_nothing() {
    let (mut store, file) = unlocked();
    store.add_entry("github", "alice", "p@ss1").unwrap();
    assert_eq!(store.initialize("anotherpassword").err(), Some(StoreError::AlreadyInitialized));
    assert_eq!(store.initialize("short").err(), Some(StoreError::AlreadyInitialized));
    assert!(store.is_unlocked());
    assert_eq!(store.get_entry("github").unwrap().unwrap().password, "p@ss1");
    let mut reopened = PasswordStore::new("vault.db", Some(&file)).unwrap();
    assert_eq!(reopened.initialize(MASTER).err(), Some(StoreError::AlreadyInitialized));
    assert_eq!(reopened.verify_master_password(MASTER, &file), Ok(true));
}

#[test]
fn add_then_get_returns_the_entry() {
    let (mut store, _) = unlocked();
    store.add_entry("github", "alice", "p@ss1").unwrap();
    let entry = store.get_entry("github").unwrap().unwrap();
    assert_eq!(entry.service, "github");
    assert_eq!(entry.username, "alice");
    assert_eq!(entry.password, "p@ss1");
    assert_eq!(entry.created_at, entry.updated_at);
    assert!(store.get_entry("gitlab").unwrap().is_none());
    assert!(store.get_entry("").unwrap().is_none());
}

#[test]
fn add_under_an_existing_service_replaces_the_entry() {
    let (mut store, _) = unlocked();
    store.add_entry("github", "alice", "first").unwrap();
    let before = store.get_entry("github").unwrap().unwrap();
    store.add_entry("github", "bob", "second").unwrap();
    let after = store.get_entry("github").unwrap().unwrap();
    assert_eq!(store.list_entries().unwrap().len(), 1);
    assert_eq!(after.username, "bob");
    assert_eq!(after.password, "second");
    assert_ne!(after.id, before.id);
}

#[test]
fn update_password_changes_password_and_updated_at_only() {
    let (mut store, _) = unlocked();
    store.add_entry("github", "alice", "p@ss1").unwrap();
    let before = store.get_entry("github").unwrap().unwrap();
    let file = store.update_password("github", "newpw").unwrap();
    assert!(file.is_some());
    let after = store.get_entry("github").unwrap().unwrap();
    assert_eq!(after.password, "newpw");
    assert!(before.updated_at.is_before(after.updated_at));
    assert_eq!(after.created_at, before.created_at);
    assert_eq!(after.id, before.id);
    assert_eq!(after.username, "alice");
    assert_eq!(after.service, "github");
}

#[test]
fn update_of_an_absent_service_changes_nothing() {
    let (mut store, _) = unlocked();
    store.add_entry("github", "alice", "p@ss1").unwrap();
    assert_eq!(store.update_password("gitlab", "newpw"), Ok(None));
    assert_eq!(store.list_entries().unwrap().len(), 1);
    assert_eq!(store.get_entry("github").unwrap().unwrap().password, "p@ss1");
    let mut locked = fresh();
    assert_eq!(locked.update_password("github", "x"), Ok(None));
}

#[test]
fn replace_password_at_sets_the_given_time() {
    let (mut store, _) = unlocked();
    store.add_entry("github", "alice", "p@ss1").unwrap();
    let at = Timestamp { secs: 4_000_000_000, nanos: 7 };
    assert!(store.replace_password_at("github", "newpw", at));
    assert!(!store.replace_password_at("gitlab", "newpw", at));
    let after = store.get_entry("github").unwrap().unwrap();
    assert_eq!(after.updated_at, at);
    assert_eq!(after.password, "newpw");
}

#[test]
fn delete_then_get_returns_nothing() {
    let (mut store, _) = unlocked();
    store.add_entry("github", "alice", "p@ss1").unwrap();
    store.add_entry("mail", "bob", "pw").unwrap();
    let file = store.delete_entry("github").unwrap();
    assert!(store.get_entry("github").unwrap().is_none());
    assert!(store.get_entry("mail").unwrap().is_some());
    let mut reopened = PasswordStore::new("vault.db", Some(&file)).unwrap();
    assert_eq!(reopened.verify_master_password(MASTER, &file), Ok(true));
    assert!(reopened.get_entry("github").unwrap().is_none());
    assert_eq!(reopened.list_entries().unwrap().len(), 1);
}

#[test]
fn delete_of_an_absent_service_is_no_error() {
    let (mut store, _) = unlocked();
    store.add_entry("github", "alice", "p@ss1").unwrap();
    assert!(store.delete_entry("nonexistent").is_ok());
    assert_eq!(store.list_entries().unwrap().len(), 1);
    assert!(!store.remove("nonexistent"));
    assert!(store.remove("github"));
    assert!(store.list_entries().unwrap().is_empty());
}

#[test]
fn list_returns_every_entry_once() {
    let (mut store, _) = unlocked();
    store.add_entry("github", "alice", "a").unwrap();
    store.add_entry("mail", "bob", "b").unwrap();
    store.add_entry("bank", "carol", "c").unwrap();
    let mut services: Vec<String> =
        store.list_entries().unwrap().iter().map(|e| e.service.clone()).collect();
    services.sort();
    assert_eq!(services, vec!["bank", "github", "mail"]);
}

#[test]
fn reopening_with_the_right_password_reproduces_the_entries() {
    let (mut store, _) = unlocked();
    store.add_entry("github", "alice", "p@ss1").unwrap();
    store.add_entry("mail", "bob", "hunter2").unwrap();
    let file = store.update_password("mail", "hunter3").unwrap().unwrap();
    let before = store.list_entries().unwrap();

    let mut reopened = PasswordStore::new("vault.db", Some(&file)).unwrap();
    assert_eq!(reopened.is_initialized(), Ok(true));
    assert!(!reopened.is_unlocked());
    assert!(reopened.list_entries().unwrap().is_empty());
    assert_eq!(reopened.verify_master_password(MASTER, &file), Ok(true));
    assert!(reopened.is_unlocked());
    let after = reopened.list_entries().unwrap();
    assert_eq!(after.len(), before.len());
    for (a, b) in before.iter().zip(after.iter()) {
        assert_eq!(a.id, b.id);
        assert_eq!(a.service, b.service);
        assert_eq!(a.username, b.username);
        assert_eq!(a.password, b.password);
        assert_eq!(a.created_at, b.created_at);
        assert_eq!(a.updated_at, b.updated_at);
    }
    let next = reopened.add_entry("bank", "carol", "pw").unwrap();
    let mut third = PasswordStore::new("vault.db", Some(&next)).unwrap();
    assert_eq!(third.verify_master_password(MASTER, &next), Ok(true));
    assert_eq!(third.list_entries().unwrap().len(), 3);
}

#[test]
fn a_wrong_password_returns_false_and_loads_nothing() {
    let (mut store, _) = unlocked();
    let file = store.add_entry("github", "alice", "p@ss1").unwrap();
    let mut reopened = PasswordStore::new("vault.db", Some(&file)).unwrap();
    assert_eq!(reopened.verify_master_password("longpassword2", &file), Ok(false));
    assert!(!reopened.is_unlocked());
    assert!(reopened.list_entries().unwrap().is_empty());
    assert!(reopened.get_entry("github").unwrap().is_none());
    assert_eq!(
        reopened.add_entry("x", "y", "z").err(),
        Some(StoreError::MasterKeyNotAvailable)
    );
    assert_eq!(reopened.verify_master_password(MASTER, &file), Ok(true));
    assert_eq!(reopened.list_entries().unwrap().len(), 1);
}

#[test]
fn authenticating_before_initializing_is_an_error() {
    let mut store = fresh();
    assert_eq!(store.verify_master_password(MASTER, &[]).err(), Some(StoreError::NotInitialized));
}

#[test]
fn authenticating_against_a_damaged_file_fails_and_leaves_the_store_locked() {
    let (mut store, _) = unlocked();
    let file = store.add_entry("github", "alice", "p@ss1").unwrap();
    let mut damaged = file.clone();
    let last = damaged.len() - 1;
    damaged[last] ^= 0x10;
    let mut reopened = PasswordStore::new("vault.db", Some(&damaged)).unwrap();
    assert!(reopened.verify_master_password(MASTER, &damaged).is_err());
    assert!(!reopened.is_unlocked());
    assert!(reopened.list_entries().unwrap().is_empty());
}

#[test]
fn a_store_that_is_not_unlocked_cannot_be_written() {
    let mut store = fresh();
    assert_eq!(store.add_entry("a", "b", "c").err(), Some(StoreError::HeaderNotAvailable));
    assert_eq!(store.delete_entry("a").err(), Some(StoreError::HeaderNotAvailable));
    assert_eq!(store.save_to_file().err(), Some(StoreError::HeaderNotAvailable));
    assert_eq!(store.save_with_nonce(&[0u8; 12]).err(), Some(StoreError::HeaderNotAvailable));
    assert_eq!(store.load_entries(&[]).err(), Some(StoreError::MasterKeyNotAvailable));
    let entry = PasswordEntry::new("a".to_string(), "b".to_string(), "c".to_string());
    assert_eq!(store.insert(entry).err(), Some(StoreError::HeaderNotAvailable));
    assert!(store.list_entries().unwrap().is_empty());

    let (_, file) = unlocked();
    let mut locked = PasswordStore::new("vault.db", Some(&file)).unwrap();
    assert_eq!(locked.add_entry("a", "b", "c").err(), Some(StoreError::MasterKeyNotAvailable));
    assert_eq!(locked.delete_entry("a").err(), Some(StoreError::MasterKeyNotAvailable));
    assert_eq!(locked.save_to_file().err(), Some(StoreError::MasterKeyNotAvailable));
    assert!(locked.list_entries().unwrap().is_empty());
}

#[test]
fn opening_a_file_that_is_no_vault_fails() {
    assert_eq!(PasswordStore::new("vault.db", Some(&[])).err(), Some(StoreError::TruncatedFile));
    assert_eq!(
        PasswordStore::new("vault.db", Some(&[2, 0, 0, 0, 1, 2])).err(),
        Some(StoreError::MalformedHeader)
    );
}

#[test]
fn load_header_and_load_entries_read_a_file_into_the_store() {
    let (mut store, _) = unlocked();
    let file = store.add_entry("github", "alice", "p@ss1").unwrap();
    let later = store.add_entry("mail", "bob", "pw").unwrap();
    assert_eq!(store.load_entries(&file), Ok(()));
    assert_eq!(store.list_entries().unwrap().len(), 1);
    assert_eq!(store.load_entries(&later), Ok(()));
    assert_eq!(store.list_entries().unwrap().len(), 2);
    assert!(store.load_entries(&[1, 2]).is_err());
    assert_eq!(store.list_entries().unwrap().len(), 2);

    let mut other = fresh();
    assert_eq!(other.load_header(&[]).err(), Some(StoreError::TruncatedFile));
    assert_eq!(other.is_initialized(), Ok(false));
    assert_eq!(other.load_header(&file), Ok(()));
    assert_eq!(other.is_initialized(), Ok(true));
    assert_eq!(other.verify_master_password(MASTER, &later), Ok(true));
    assert_eq!(other.list_entries().unwrap().len(), 2);
}

#[test]
fn a_header_is_never_replaced() {
    let (mut store, file) = unlocked();
    let mut second = fresh();
    let other_file = second.initialize("anotherpassword").unwrap();
    assert_eq!(store.load_header(&other_file).err(), Some(StoreError::AlreadyInitialized));
    assert_eq!(store.load_header(&[]).err(), Some(StoreError::AlreadyInitialized));
    let saved = store.add_entry("github", "alice", "p@ss1").unwrap();
    let mut reopened = PasswordStore::new("vault.db", Some(&saved)).unwrap();
    assert_eq!(reopened.verify_master_password(MASTER, &saved), Ok(true));
    assert_eq!(reopened.list_entries().unwrap().len(), 1);
    let mut locked = PasswordStore::new("vault.db", Some(&file)).unwrap();
    assert_eq!(locked.load_header(&other_file).err(), Some(StoreError::AlreadyInitialized));
    assert_eq!(locked.verify_master_password(MASTER, &file), Ok(true));
}

#[test]
fn the_key_of_a_vault_is_not_the_digest_in_its_header() {
    let (_, file) = unlocked();
    let header = read_header(&file).unwrap();
    let key = derive_key(MASTER, &header.salt).unwrap();
    let parsed = argon2::password_hash::PasswordHash::new(&header.master_hash).unwrap();
    let digest = parsed.hash.unwrap();
    assert_ne!(key.as_bytes(), digest.as_bytes());
    assert_ne!(key.as_bytes(), &digest.as_bytes()[..32]);
}

#[test]
fn update_password_advances_updated_at_even_when_the_clock_does_not() {
    let (mut store, _) = unlocked();
    let far = Timestamp { secs: 4_000_000_000, nanos: 999_999_999 };
    let entry = PasswordEntry::with_identity(
        [8u8; 16],
        far,
        "github".to_string(),
        "alice".to_string(),
        "pw".to_string(),
    );
    store.insert(entry).unwrap();
    store.update_password("github", "pw").unwrap();
    let after = store.get_entry("github").unwrap().unwrap();
    assert_eq!(after.updated_at, Timestamp { secs: 4_000_000_001, nanos: 0 });
    assert_eq!(after.created_at, far);
    assert!(store.replace_password_at("github", "pw", Timestamp { secs: 0, nanos: 0 }));
    let again = store.get_entry("github").unwrap().unwrap();
    assert_eq!(again.updated_at, Timestamp { secs: 4_000_000_001, nanos: 1 });
    assert!(after.updated_at.is_before(again.updated_at));
}

#[test]
fn save_with_nonce_is_reproducible_and_save_to_file_is_not() {
    let (mut store, _) = unlocked();
    store.add_entry("github", "alice", "p@ss1").unwrap();
    let a = store.save_with_nonce(&[5u8; 12]).unwrap();
    let b = store.save_with_nonce(&[5u8; 12]).unwrap();
    assert_eq!(a, b);
    let c = store.save_to_file().unwrap();
    let d = store.save_to_file().unwrap();
    assert_ne!(c, d);
    assert_eq!(c.len(), d.len());
    assert_eq!(a.len(), c.len());
}

#[test]
fn insert_files_a_given_entry() {
    let (mut store, _) = unlocked();
    let entry = PasswordEntry::with_identity(
        [8u8; 16],
        Timestamp { secs: 10, nanos: 0 },
        "github".to_string(),
        "alice".to_string(),
        "pw".to_string(),
    );
    assert_eq!(store.insert(entry), Ok(()));
    let found = store.get_entry("github").unwrap().unwrap();
    assert_eq!(found.id, [8u8; 16]);
    assert_eq!(found.created_at, Timestamp { secs: 10, nanos: 0 });
}
