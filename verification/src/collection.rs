//! The entries of a vault in memory: a list in which no service name
//! occurs twice, read as a map from service name to entry.

use crate::clock::Timestamp;
use crate::password_entry::{EntryView, PasswordEntry};
use crate::text::same_text;
use vstd::prelude::*;

verus! {

/// The views of a sequence of entries.
pub open spec fn spec_views(entries: Seq<PasswordEntry>) -> Seq<EntryView> {
    entries.map_values(|e: PasswordEntry| e@)
}

/// No service name occurs twice.
pub open spec fn spec_distinct(entries: Seq<EntryView>) -> bool {
    forall|i: int, j: int|
        0 <= i < j < entries.len() ==> (#[trigger] entries[i]).service != (
        #[trigger] entries[j]).service
}

/// `i` is the first place at which `service` is filed.
pub open spec fn spec_is_first_at(entries: Seq<EntryView>, service: Seq<char>, i: int) -> bool {
    &&& 0 <= i < entries.len()
    &&& entries[i].service == service
    &&& forall|j: int| 0 <= j < i ==> (#[trigger] entries[j]).service != service
}

/// The first place at which `service` is filed, if it is filed at all.
pub open spec fn spec_position(entries: Seq<EntryView>, service: Seq<char>) -> Option<int> {
    if exists|i: int| spec_is_first_at(entries, service, i) {
        Some(choose|i: int| spec_is_first_at(entries, service, i))
    } else {
        None
    }
}

/// The entry filed under `service`, if there is one.
pub open spec fn spec_lookup(entries: Seq<EntryView>, service: Seq<char>) -> Option<EntryView> {
    match spec_position(entries, service) {
        Some(i) => Some(entries[i]),
        None => None,
    }
}

/// The entries after `entry` was filed: it takes the place of the entry
/// with its service name, or comes last where there was none.
pub open spec fn spec_upsert(entries: Seq<EntryView>, entry: EntryView) -> Seq<EntryView> {
    match spec_position(entries, entry.service) {
        Some(i) => entries.update(i, entry),
        None => entries.push(entry),
    }
}

/// The entries after the one filed under `service` was taken out.
pub open spec fn spec_remove(entries: Seq<EntryView>, service: Seq<char>) -> Seq<EntryView> {
    match spec_position(entries, service) {
        Some(i) => entries.remove(i),
        None => entries,
    }
}

/// The entries after the password filed under `service` was replaced at
/// the time `at`: the entry's time of change advances to `at`, or by one
/// step where `at` is not after it.
pub open spec fn spec_replace_password(
    entries: Seq<EntryView>,
    service: Seq<char>,
    new_password: Seq<char>,
    at: Timestamp,
) -> Seq<EntryView> {
    match spec_position(entries, service) {
        Some(i) => entries.update(
            i,
            EntryView {
                password: new_password,
                updated_at: entries[i].updated_at.spec_advanced_to(at),
                ..entries[i]
            },
        ),
        None => entries,
    }
}

/// The entries as a map from service name to entry.
pub open spec fn spec_entry_map(entries: Seq<EntryView>) -> Map<Seq<char>, EntryView> {
    Map::new(
        |service: Seq<char>| spec_position(entries, service) is Some,
        |service: Seq<char>| entries[spec_position(entries, service)->Some_0],
    )
}

/// A place at which `service` is filed with no earlier such place is its
/// position.
pub proof fn lemma_position_is(entries: Seq<EntryView>, service: Seq<char>, i: int)
    requires
        spec_is_first_at(entries, service, i),
    ensures
        spec_position(entries, service) == Some(i),
{
    let c = choose|c: int| spec_is_first_at(entries, service, c);
    if c < i {
        assert(entries[c].service != service);
    } else if i < c {
        assert(entries[i].service != service);
    }
}

/// A service that is filed nowhere has no position.
pub proof fn lemma_position_none(entries: Seq<EntryView>, service: Seq<char>)
    requires
        forall|j: int| 0 <= j < entries.len() ==> (#[trigger] entries[j]).service != service,
    ensures
        spec_position(entries, service) is None,
{
    if exists|i: int| spec_is_first_at(entries, service, i) {
        let c = choose|c: int| spec_is_first_at(entries, service, c);
        assert(entries[c].service != service);
    }
}

/// What a position says: the service is filed there and nowhere before;
/// and where there is no position, it is filed nowhere.
pub proof fn lemma_position_means(entries: Seq<EntryView>, service: Seq<char>)
    ensures
        match spec_position(entries, service) {
            Some(i) => spec_is_first_at(entries, service, i),
            None => forall|j: int|
                0 <= j < entries.len() ==> (#[trigger] entries[j]).service != service,
        },
{
    if spec_position(entries, service) is None {
        assert forall|j: int| 0 <= j < entries.len() implies (
        #[trigger] entries[j]).service != service by {
            if entries[j].service == service {
                lemma_first_exists(entries, service, j);
            }
        }
    }
}

/// Where `service` is filed at `at`, it has a first place.
proof fn lemma_first_exists(entries: Seq<EntryView>, service: Seq<char>, at: int)
    requires
        0 <= at < entries.len(),
        entries[at].service == service,
    ensures
        exists|i: int| spec_is_first_at(entries, service, i),
    decreases at,
{
    if forall|j: int| 0 <= j < at ==> (#[trigger] entries[j]).service != service {
        assert(spec_is_first_at(entries, service, at));
    } else {
        let j = choose|j: int| 0 <= j < at && (#[trigger] entries[j]).service == service;
        lemma_first_exists(entries, service, j);
    }
}

/// In a list without a repeated service name, every entry sits at the
/// position of its service.
pub proof fn lemma_position_of_member(entries: Seq<EntryView>, i: int)
    requires
        spec_distinct(entries),
        0 <= i < entries.len(),
    ensures
        spec_position(entries, entries[i].service) == Some(i),
{
    assert forall|j: int| 0 <= j < i implies (#[trigger] entries[j]).service
        != entries[i].service by {
        assert(entries[j].service != entries[i].service);
    }
    lemma_position_is(entries, entries[i].service, i);
}

/// Filing an entry keeps the list free of repeated service names, and, read
/// as a map, sets the entry's service name to the entry.
pub proof fn lemma_upsert(entries: Seq<EntryView>, entry: EntryView)
    requires
        spec_distinct(entries),
    ensures
        spec_distinct(spec_upsert(entries, entry)),
        spec_entry_map(spec_upsert(entries, entry)) == spec_entry_map(entries).insert(
            entry.service,
            entry,
        ),
        spec_lookup(spec_upsert(entries, entry), entry.service) == Some(entry),
{
    let after = spec_upsert(entries, entry);
    lemma_position_means(entries, entry.service);
    let at = match spec_position(entries, entry.service) {
        Some(i) => i,
        None => entries.len() as int,
    };
    assert(after[at] == entry);
    assert forall|i: int, j: int| 0 <= i < j < after.len() implies (#[trigger] after[i]).service
        != (#[trigger] after[j]).service by {
        if i != at && j != at {
            assert(after[i] == entries[i] && after[j] == entries[j]);
        } else if i == at {
            if j < entries.len() {
                assert(after[j] == entries[j]);
                assert(entries[i].service != entries[j].service);
            }
        } else {
            assert(after[i] == entries[i]);
            if at < entries.len() {
                assert(entries[i].service != entries[j].service);
            }
        }
    }
    lemma_position_of_member(after, at);
    let map_after = spec_entry_map(after);
    let map_wanted = spec_entry_map(entries).insert(entry.service, entry);
    assert forall|service: Seq<char>| #[trigger]
        map_after.dom().contains(service) == map_wanted.dom().contains(service) && (
        map_after.dom().contains(service) ==> map_after[service] == map_wanted[service]) by {
        if service != entry.service {
            lemma_position_means(entries, service);
            match spec_position(entries, service) {
                Some(i) => {
                    assert(after[i] == entries[i]);
                    assert forall|j: int| 0 <= j < i implies (#[trigger] after[j]).service
                        != service by {
                        if j != at {
                            assert(after[j] == entries[j]);
                        }
                    }
                    lemma_position_is(after, service, i);
                },
                None => {
                    assert forall|j: int| 0 <= j < after.len() implies (
                    #[trigger] after[j]).service != service by {
                        if j != at {
                            assert(after[j] == entries[j]);
                        }
                    }
                    lemma_position_none(after, service);
                },
            }
        }
    }
    assert(map_after =~= map_wanted);
}

/// Taking an entry out keeps the list free of repeated service names, and,
/// read as a map, removes the service name.
pub proof fn lemma_remove(entries: Seq<EntryView>, service: Seq<char>)
    requires
        spec_distinct(entries),
    ensures
        spec_distinct(spec_remove(entries, service)),
        spec_entry_map(spec_remove(entries, service)) == spec_entry_map(entries).remove(service),
        spec_lookup(spec_remove(entries, service), service) is None,
{
    let after = spec_remove(entries, service);
    lemma_position_means(entries, service);
    match spec_position(entries, service) {
        None => {
            assert(spec_entry_map(entries).remove(service) =~= spec_entry_map(entries));
        },
        Some(at) => {
            assert forall|i: int| 0 <= i < after.len() implies #[trigger] after[i] == entries[if i
                < at {
                i
            } else {
                i + 1
            }] by {}
            assert forall|i: int, j: int| 0 <= i < j < after.len() implies (
            #[trigger] after[i]).service != (#[trigger] after[j]).service by {
                let from_i = if i < at {
                    i
                } else {
                    i + 1
                };
                let from_j = if j < at {
                    j
                } else {
                    j + 1
                };
                assert(entries[from_i].service != entries[from_j].service);
            }
            assert forall|j: int| 0 <= j < after.len() implies (#[trigger] after[j]).service
                != service by {
                let from = if j < at {
                    j
                } else {
                    j + 1
                };
                if from < at {
                    assert(entries[from].service != entries[at].service);
                } else {
                    assert(entries[at].service != entries[from].service);
                }
            }
            lemma_position_none(after, service);
            let map_after = spec_entry_map(after);
            let map_wanted = spec_entry_map(entries).remove(service);
            assert forall|other: Seq<char>| #[trigger]
                map_after.dom().contains(other) == map_wanted.dom().contains(other) && (
                map_after.dom().contains(other) ==> map_after[other] == map_wanted[other]) by {
                if other != service {
                    lemma_position_means(entries, other);
                    lemma_position_means(after, other);
                    match spec_position(entries, other) {
                        Some(i) => {
                            let to = if i < at {
                                i
                            } else {
                                i - 1
                            };
                            assert(after[to] == entries[i]);
                            lemma_position_of_member(after, to);
                        },
                        None => {
                            if spec_position(after, other) is Some {
                                let k = spec_position(after, other)->Some_0;
                                let from = if k < at {
                                    k
                                } else {
                                    k + 1
                                };
                                assert(entries[from].service == other);
                            }
                        },
                    }
                }
            }
            assert(map_after =~= map_wanted);
        },
    }
}

/// Replacing a password keeps every service name in its place.
pub proof fn lemma_replace_password(
    entries: Seq<EntryView>,
    service: Seq<char>,
    new_password: Seq<char>,
    at: Timestamp,
)
    requires
        spec_distinct(entries),
    ensures
        spec_distinct(spec_replace_password(entries, service, new_password, at)),
        match spec_lookup(entries, service) {
            Some(entry) => spec_replace_password(entries, service, new_password, at)
                == spec_upsert(
                entries,
                EntryView {
                    password: new_password,
                    updated_at: entry.updated_at.spec_advanced_to(at),
                    ..entry
                },
            ),
            None => spec_replace_password(entries, service, new_password, at) == entries,
        },
{
    lemma_position_means(entries, service);
    match spec_position(entries, service) {
        Some(i) => {
            lemma_upsert(
                entries,
                EntryView {
                    password: new_password,
                    updated_at: entries[i].updated_at.spec_advanced_to(at),
                    ..entries[i]
                },
            );
        },
        None => {},
    }
}

/// The place of the first entry filed under `service`.
pub fn find(entries: &Vec<PasswordEntry>, service: &str) -> (place: Option<usize>)
    ensures
        match place {
            Some(i) => spec_position(spec_views(entries@), service@) == Some(i as int),
            None => spec_position(spec_views(entries@), service@) is None,
        },
{
    let mut i: usize = 0;
    while i < entries.len()
        invariant
            i <= entries@.len(),
            forall|j: int| 0 <= j < i ==> (#[trigger] spec_views(entries@)[j]).service != service@,
        decreases entries@.len() - i,
    {
        if same_text(entries[i].service.as_str(), service) {
            proof {
                assert(spec_views(entries@)[i as int].service == service@);
                lemma_position_is(spec_views(entries@), service@, i as int);
            }
            return Some(i);
        }
        assert(spec_views(entries@)[i as int].service != service@);
        i = i + 1;
    }
    proof {
        lemma_position_none(spec_views(entries@), service@);
    }
    None
}

/// Files `entry`: it takes the place of the entry with its service name, or
/// comes last where there was none.
pub fn upsert(entries: &mut Vec<PasswordEntry>, entry: PasswordEntry)
    ensures
        spec_views(final(entries)@) == spec_upsert(spec_views(old(entries)@), entry@),
{
    let ghost before = spec_views(entries@);
    match find(entries, entry.service.as_str()) {
        Some(i) => {
            entries[i] = entry;
            assert(spec_views(entries@) =~= before.update(i as int, entry@));
        },
        None => {
            entries.push(entry);
            assert(spec_views(entries@) =~= before.push(entry@));
        },
    }
}

/// Takes out the entry filed under `service` and says whether there was
/// one.
pub fn remove(entries: &mut Vec<PasswordEntry>, service: &str) -> (removed: bool)
    ensures
        spec_views(final(entries)@) == spec_remove(spec_views(old(entries)@), service@),
        removed == spec_position(spec_views(old(entries)@), service@) is Some,
{
    let ghost before = spec_views(entries@);
    match find(entries, service) {
        Some(i) => {
            let _ = entries.remove(i);
            assert(spec_views(entries@) =~= before.remove(i as int));
            true
        },
        None => false,
    }
}

} // verus!
