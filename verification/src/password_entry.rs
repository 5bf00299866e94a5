//! One stored credential.

use crate::clock::{now, Timestamp};
use crate::entropy::fresh_entry_id;
use crate::wipe::wipe_string;
use vstd::prelude::*;

verus! {

/// Length in bytes of an entry's identifier.
pub const ID_LEN: usize = 16;

/// A credential record: who logs in where, with what, and when the record
/// was made and last changed. Service, user name and password are
/// overwritten in memory when the entry is dropped.
pub struct PasswordEntry {
    pub id: [u8; ID_LEN],
    pub service: String,
    pub username: String,
    pub password: String,
    pub created_at: Timestamp,
    pub updated_at: Timestamp,
}

/// What an entry holds, as mathematical values.
pub struct EntryView {
    pub id: Seq<u8>,
    pub service: Seq<char>,
    pub username: Seq<char>,
    pub password: Seq<char>,
    pub created_at: Timestamp,
    pub updated_at: Timestamp,
}

impl View for PasswordEntry {
    type V = EntryView;

    open spec fn view(&self) -> EntryView {
        EntryView {
            id: self.id@,
            service: self.service@,
            username: self.username@,
            password: self.password@,
            created_at: self.created_at,
            updated_at: self.updated_at,
        }
    }
}

impl Clone for PasswordEntry {
    fn clone(&self) -> (copy: Self)
        ensures
            copy@ == self@,
    {
        PasswordEntry {
            id: self.id,
            service: self.service.clone(),
            username: self.username.clone(),
            password: self.password.clone(),
            created_at: self.created_at,
            updated_at: self.updated_at,
        }
    }
}

impl Drop for PasswordEntry {
    fn drop(&mut self)
        opens_invariants none
        no_unwind
    {
        wipe_string(&mut self.service);
        wipe_string(&mut self.username);
        wipe_string(&mut self.password);
    }
}

impl PasswordEntry {
    /// An entry with the given identifier, made at `at`.
    pub fn with_identity(
        id: [u8; ID_LEN],
        at: Timestamp,
        service: String,
        username: String,
        password: String,
    ) -> (entry: Self)
        ensures
            entry@ == (EntryView {
                id: id@,
                service: service@,
                username: username@,
                password: password@,
                created_at: at,
                updated_at: at,
            }),
    {
        PasswordEntry { id, service, username, password, created_at: at, updated_at: at }
    }

    /// `id` bears the marks of a random identifier: version 4 and the
    /// variant of RFC 4122.
    pub open spec fn spec_is_random_id(id: Seq<u8>) -> bool {
        &&& id.len() == ID_LEN
        &&& id[6] / 16 == 4
        &&& id[8] / 64 == 2
    }

    /// A new entry with a fresh random identifier, made now.
    pub fn new(service: String, username: String, password: String) -> (entry: Self)
        ensures
            entry@.service == service@,
            entry@.username == username@,
            entry@.password == password@,
            entry@.created_at == entry@.updated_at,
            Self::spec_is_random_id(entry@.id),
    {
        PasswordEntry::with_identity(fresh_entry_id(), now(), service, username, password)
    }

    /// Replaces the password at the time `at`. The old password is
    /// overwritten before it is let go; nothing else changes but
    /// `updated_at`, which advances: to `at` where that is later, and else
    /// by one step.
    pub fn update_password_at(&mut self, new_password: String, at: Timestamp)
        ensures
            final(self)@ == (EntryView {
                password: new_password@,
                updated_at: old(self)@.updated_at.spec_advanced_to(at),
                ..old(self)@
            }),
            old(self)@.updated_at != Timestamp::spec_last() ==> old(self)@.updated_at.spec_is_before(
                final(self)@.updated_at,
            ),
    {
        wipe_string(&mut self.password);
        self.password = new_password;
        self.updated_at = self.updated_at.advanced_to(at);
    }

    /// Replaces the password now. The old password is overwritten before it
    /// is let go; nothing else changes but `updated_at`, which advances
    /// strictly: to the time of the clock where that is later, and else by
    /// one step.
    pub fn update_password(&mut self, new_password: String)
        ensures
            final(self)@ == (EntryView {
                password: new_password@,
                updated_at: final(self)@.updated_at,
                ..old(self)@
            }),
            exists|at: Timestamp|
                final(self)@.updated_at == #[trigger] old(self)@.updated_at.spec_advanced_to(at),
            old(self)@.updated_at != Timestamp::spec_last() ==> old(self)@.updated_at.spec_is_before(
                final(self)@.updated_at,
            ),
    {
        self.update_password_at(new_password, now());
    }
}

} // verus!
