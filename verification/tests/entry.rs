use secure_password_manager::clock::Timestamp;
use secure_password_manager::password_entry::{PasswordEntry, ID_LEN};

fn at(secs: i64, nanos: u32) -> Timestamp {
    Timestamp { secs, nanos }
}

#[test]
fn new_entry_holds_what_it_was_given() {
    let entry = PasswordEntry::new("github".to_string(), "alice".to_string(), "p@ss1".to_string());
    assert_eq!(entry.service, "github");
    assert_eq!(entry.username, "alice");
    assert_eq!(entry.password, "p@ss1");
    assert_eq!(entry.created_at, entry.updated_at);
    assert!(entry.created_at.secs > 1_600_000_000);
    assert!(entry.created_at.nanos < 2_000_000_000);
}

#[test]
fn new_entries_get_random_version_four_identifiers() {
    let a = PasswordEntry::new("a".to_string(), "u".to_string(), "p".to_string());
    let b = PasswordEntry::new("a".to_string(), "u".to_string(), "p".to_string());
    assert_eq!(ID_LEN, 16);
    assert_ne!(a.id, b.id);
    for id in [a.id, b.id] {
        assert_eq!(id[6] >> 4, 4);
        assert_eq!(id[8] >> 6, 2);
        assert_eq!(uuid::Uuid::from_bytes(id).get_version_num(), 4);
    }
}

#[test]
fn with_identity_sets_both_times() {
    let entry = PasswordEntry::with_identity(
        [7u8; 16],
        at(1_700_000_000, 5),
        "mail".to_string(),
        "bob".to_string(),
        "secret".to_string(),
    );
    assert_eq!(entry.id, [7u8; 16]);
    assert_eq!(entry.created_at, at(1_700_000_000, 5));
    assert_eq!(entry.updated_at, at(1_700_000_000, 5));
    assert_eq!(entry.service, "mail");
    assert_eq!(entry.username, "bob");
    assert_eq!(entry.password, "secret");
}

#[test]
fn update_password_at_changes_password_and_updated_at_only() {
    let mut entry = PasswordEntry::with_identity(
        [7u8; 16],
        at(100, 0),
        "mail".to_string(),
        "bob".to_string(),
        "old".to_string(),
    );
    entry.update_password_at("new".to_string(), at(200, 1));
    assert_eq!(entry.password, "new");
    assert_eq!(entry.updated_at, at(200, 1));
    assert_eq!(entry.created_at, at(100, 0));
    assert_eq!(entry.id, [7u8; 16]);
    assert_eq!(entry.service, "mail");
    assert_eq!(entry.username, "bob");
}

#[test]
fn update_password_sets_updated_at_to_now() {
    let mut entry = PasswordEntry::with_identity(
        [7u8; 16],
        at(100, 0),
        "mail".to_string(),
        "bob".to_string(),
        "old".to_string(),
    );
    entry.update_password("newpw".to_string());
    assert_eq!(entry.password, "newpw");
    assert_eq!(entry.created_at, at(100, 0));
    assert!(entry.created_at.is_before(entry.updated_at));
    assert!(entry.updated_at.secs > 1_600_000_000);
    assert_eq!(entry.id, [7u8; 16]);
}

#[test]
fn update_password_at_an_earlier_time_advances_by_one_step() {
    let mut entry = PasswordEntry::with_identity(
        [7u8; 16],
        at(100, 5),
        "mail".to_string(),
        "bob".to_string(),
        "old".to_string(),
    );
    entry.update_password_at("new".to_string(), at(100, 5));
    assert_eq!(entry.updated_at, at(100, 6));
    entry.update_password_at("newer".to_string(), at(1, 0));
    assert_eq!(entry.updated_at, at(100, 7));
    assert_eq!(entry.created_at, at(100, 5));
    assert_eq!(entry.password, "newer");
}

#[test]
fn next_is_one_nanosecond_later_or_the_following_second() {
    assert_eq!(at(5, 0).next(), at(5, 1));
    assert_eq!(at(5, 999_999_998).next(), at(5, 999_999_999));
    assert_eq!(at(5, 999_999_999).next(), at(6, 0));
    assert_eq!(at(59, 1_500_000_000).next(), at(60, 0));
    assert_eq!(at(-1, 999_999_999).next(), at(0, 0));
    assert_eq!(at(i64::MAX, 999_999_999).next(), at(i64::MAX, 1_000_000_000));
    assert_eq!(at(i64::MAX, u32::MAX).next(), at(i64::MAX, u32::MAX));
    assert_eq!(at(i64::MAX, u32::MAX - 1).next(), at(i64::MAX, u32::MAX));
}

#[test]
fn advanced_to_takes_the_later_time_or_the_next() {
    assert_eq!(at(5, 0).advanced_to(at(9, 3)), at(9, 3));
    assert_eq!(at(5, 0).advanced_to(at(5, 0)), at(5, 1));
    assert_eq!(at(5, 0).advanced_to(at(4, 999)), at(5, 1));
    assert_eq!(at(5, 999_999_999).advanced_to(at(0, 0)), at(6, 0));
}

#[test]
fn clone_copies_every_field() {
    let entry = PasswordEntry::with_identity(
        [9u8; 16],
        at(100, 3),
        "mail".to_string(),
        "bob".to_string(),
        "pw".to_string(),
    );
    let copy = entry.clone();
    assert_eq!(copy.id, entry.id);
    assert_eq!(copy.service, entry.service);
    assert_eq!(copy.username, entry.username);
    assert_eq!(copy.password, entry.password);
    assert_eq!(copy.created_at, entry.created_at);
    assert_eq!(copy.updated_at, entry.updated_at);
}

#[test]
fn timestamps_are_ordered_by_seconds_then_nanoseconds() {
    assert!(at(1, 999).is_before(at(2, 0)));
    assert!(at(1, 1).is_before(at(1, 2)));
    assert!(!at(1, 2).is_before(at(1, 2)));
    assert!(!at(2, 0).is_before(at(1, 999)));
    assert!(at(-5, 0).is_before(at(0, 0)));
}
