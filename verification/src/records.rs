//! Entries on their way to and from bytes: each entry is written as a
//! record filed under its service name, and a set of entries as the
//! sequence of its records.

use crate::clock::{rfc3339_format, rfc3339_instant, rfc3339_parse, rfc3339_text, Timestamp};
use crate::collection::{
    lemma_position_none, lemma_upsert, spec_distinct, spec_upsert, spec_views, upsert,
};
use crate::error::StoreError;
use crate::password_entry::{EntryView, PasswordEntry, ID_LEN};
use crate::wire::{
    decode_records, encode_records, records_decoding, records_encoding, spec_record_views,
    EntryRecord, RecordView,
};
use vstd::prelude::*;
use vstd::slice::slice_to_vec;

verus! {

/// The record that an entry is written as, or `None` where one of its
/// points in time cannot be written.
pub open spec fn spec_record_of(entry: EntryView) -> Option<RecordView> {
    match (
        rfc3339_text(entry.created_at.secs, entry.created_at.nanos),
        rfc3339_text(entry.updated_at.secs, entry.updated_at.nanos),
    ) {
        (Some(created_at), Some(updated_at)) => Some(
            RecordView {
                key: entry.service,
                id: entry.id,
                service: entry.service,
                username: entry.username,
                password: entry.password,
                created_at,
                updated_at,
            },
        ),
        _ => None,
    }
}

/// The entry that a record stands for, or `None` where the record is
/// filed under another name than its service, its identifier has the wrong
/// length, or one of its points in time cannot be read.
pub open spec fn spec_entry_of(record: RecordView) -> Option<EntryView> {
    if record.key != record.service || record.id.len() != ID_LEN {
        None
    } else {
        match (rfc3339_instant(record.created_at), rfc3339_instant(record.updated_at)) {
            (Some(created_at), Some(updated_at)) => Some(
                EntryView {
                    id: record.id,
                    service: record.service,
                    username: record.username,
                    password: record.password,
                    created_at: Timestamp { secs: created_at.0, nanos: created_at.1 },
                    updated_at: Timestamp { secs: updated_at.0, nanos: updated_at.1 },
                },
            ),
            _ => None,
        }
    }
}

/// The records of a sequence of entries, in the same order, or `None`
/// where one of the entries has no record.
pub open spec fn spec_records_of(entries: Seq<EntryView>) -> Option<Seq<RecordView>> {
    if forall|i: int| 0 <= i < entries.len() ==> spec_record_of(#[trigger] entries[i]) is Some {
        Some(Seq::new(entries.len(), |i: int| spec_record_of(entries[i])->Some_0))
    } else {
        None
    }
}

/// The entries that a sequence of records stands for: each record filed in
/// turn, a later one taking the place of an earlier one with its service
/// name. `None` where one of the records stands for no entry.
pub open spec fn spec_collect(records: Seq<RecordView>) -> Option<Seq<EntryView>>
    decreases records.len(),
{
    if records.len() == 0 {
        Some(Seq::empty())
    } else {
        match (spec_collect(records.drop_last()), spec_entry_of(records.last())) {
            (Some(entries), Some(entry)) => Some(spec_upsert(entries, entry)),
            _ => None,
        }
    }
}

/// The bytes that a sequence of entries is written as.
pub open spec fn spec_encode_entries(entries: Seq<EntryView>) -> Result<Seq<u8>, StoreError> {
    match spec_records_of(entries) {
        None => Err(StoreError::Serialization),
        Some(records) => match records_encoding(records) {
            None => Err(StoreError::Serialization),
            Some(bytes) => Ok(bytes),
        },
    }
}

/// The entries that bytes are read as.
pub open spec fn spec_decode_entries(bytes: Seq<u8>) -> Result<Seq<EntryView>, StoreError> {
    match records_decoding(bytes) {
        None => Err(StoreError::MalformedEntries),
        Some(records) => match spec_collect(records) {
            None => Err(StoreError::MalformedEntries),
            Some(entries) => Ok(entries),
        },
    }
}

/// Records that do not all stand for entries up to some point do not all
/// stand for entries as a whole.
pub proof fn lemma_collect_prefix(records: Seq<RecordView>, n: int)
    requires
        0 <= n <= records.len(),
        spec_collect(records.take(n)) is None,
    ensures
        spec_collect(records) is None,
    decreases records.len(),
{
    if n < records.len() {
        assert(records.drop_last().take(n) =~= records.take(n));
        lemma_collect_prefix(records.drop_last(), n);
    } else {
        assert(records.take(n) =~= records);
    }
}

/// What the records up to and with the one at `n` stand for, given what
/// the records before it stand for.
pub proof fn lemma_collect_step(records: Seq<RecordView>, n: int)
    requires
        0 <= n < records.len(),
    ensures
        spec_collect(records.take(n + 1)) == match (
            spec_collect(records.take(n)),
            spec_entry_of(records[n]),
        ) {
            (Some(entries), Some(entry)) => Some(spec_upsert(entries, entry)),
            _ => None,
        },
{
    assert(records.take(n + 1).drop_last() =~= records.take(n));
    assert(records.take(n + 1).last() == records[n]);
}

/// Records that stand, one for one, for entries with no repeated service
/// name stand as a whole for exactly these entries.
pub proof fn lemma_collect_of_distinct(records: Seq<RecordView>, entries: Seq<EntryView>)
    requires
        records.len() == entries.len(),
        forall|i: int|
            0 <= i < records.len() ==> spec_entry_of(#[trigger] records[i]) == Some(entries[i]),
        spec_distinct(entries),
    ensures
        spec_collect(records) == Some(entries),
    decreases records.len(),
{
    if records.len() == 0 {
        assert(entries =~= Seq::empty());
    } else {
        let front = entries.drop_last();
        assert forall|i: int, j: int| 0 <= i < j < front.len() implies (
        #[trigger] front[i]).service != (#[trigger] front[j]).service by {
            assert(entries[i].service != entries[j].service);
        }
        lemma_collect_of_distinct(records.drop_last(), front);
        assert forall|j: int| 0 <= j < front.len() implies (#[trigger] front[j]).service
            != entries.last().service by {
            assert(entries[j].service != entries[entries.len() - 1].service);
        }
        lemma_position_none(front, entries.last().service);
        assert(front.push(entries.last()) =~= entries);
    }
}

/// Writes one entry as a record. Reading the record gives the entry back.
pub fn to_record(entry: &PasswordEntry) -> (r: Option<EntryRecord>)
    ensures
        match r {
            Some(record) => {
                &&& spec_record_of(entry@) == Some(record@)
                &&& spec_entry_of(record@) == Some(entry@)
            },
            None => spec_record_of(entry@) is None,
        },
{
    let created_at = match rfc3339_format(entry.created_at) {
        Some(text) => text,
        None => return None,
    };
    let updated_at = match rfc3339_format(entry.updated_at) {
        Some(text) => text,
        None => return None,
    };
    let record = EntryRecord {
        key: entry.service.clone(),
        id: slice_to_vec(entry.id.as_slice()),
        service: entry.service.clone(),
        username: entry.username.clone(),
        password: entry.password.clone(),
        created_at,
        updated_at,
    };
    assert(spec_entry_of(record@)->Some_0 == entry@);
    Some(record)
}

/// Reads one record as an entry.
pub fn from_record(record: &EntryRecord) -> (r: Option<PasswordEntry>)
    ensures
        match r {
            Some(entry) => spec_entry_of(record@) == Some(entry@),
            None => spec_entry_of(record@) is None,
        },
{
    if record.key != record.service || record.id.len() != ID_LEN {
        return None;
    }
    let created_at = match rfc3339_parse(record.created_at.as_str()) {
        Some(at) => at,
        None => return None,
    };
    let updated_at = match rfc3339_parse(record.updated_at.as_str()) {
        Some(at) => at,
        None => return None,
    };
    let mut id = [0u8;ID_LEN];
    let mut i: usize = 0;
    while i < ID_LEN
        invariant
            i <= ID_LEN,
            record.id@.len() == ID_LEN,
            forall|j: int| 0 <= j < i ==> id@[j] == record.id@[j],
        decreases ID_LEN - i,
    {
        id[i] = record.id[i];
        i = i + 1;
    }
    assert(id@ =~= record.id@);
    Some(
        PasswordEntry {
            id,
            service: record.service.clone(),
            username: record.username.clone(),
            password: record.password.clone(),
            created_at,
            updated_at,
        },
    )
}

/// Writes entries as bytes, in their order. Where no service name occurs
/// twice among them, reading the bytes gives the same entries back.
pub fn encode_entries(entries: &Vec<PasswordEntry>) -> (r: Result<Vec<u8>, StoreError>)
    ensures
        match r {
            Ok(bytes) => {
                &&& spec_encode_entries(spec_views(entries@)) == Ok::<Seq<u8>, StoreError>(bytes@)
                &&& spec_distinct(spec_views(entries@)) ==> spec_decode_entries(bytes@) == Ok::<
                    Seq<EntryView>,
                    StoreError,
                >(spec_views(entries@))
            },
            Err(e) => spec_encode_entries(spec_views(entries@)) == Err::<Seq<u8>, StoreError>(e),
        },
{
    let ghost views = spec_views(entries@);
    let mut records: Vec<EntryRecord> = Vec::new();
    let mut i: usize = 0;
    while i < entries.len()
        invariant
            i <= entries@.len(),
            views == spec_views(entries@),
            records@.len() == i,
            forall|k: int|
                0 <= k < i ==> spec_record_of(#[trigger] views[k]) == Some(records@[k]@),
            forall|k: int|
                0 <= k < i ==> spec_entry_of((#[trigger] records@[k])@) == Some(views[k]),
        decreases entries@.len() - i,
    {
        match to_record(&entries[i]) {
            Some(record) => {
                records.push(record);
            },
            None => {
                assert(spec_record_of(views[i as int]) is None);
                return Err(StoreError::Serialization);
            },
        }
        i = i + 1;
    }
    let ghost written = spec_record_views(records@);
    assert(spec_records_of(views) == Some(written)) by {
        assert(spec_records_of(views)->Some_0 =~= written);
    }
    match encode_records(&records) {
        Ok(bytes) => {
            proof {
                if spec_distinct(views) {
                    assert forall|k: int| 0 <= k < written.len() implies spec_entry_of(
                        #[trigger] written[k],
                    ) == Some(views[k]) by {
                        assert(written[k] == records@[k]@);
                    }
                    lemma_collect_of_distinct(written, views);
                }
            }
            Ok(bytes)
        },
        Err(_) => Err(StoreError::Serialization),
    }
}

/// Reads entries from bytes: the records in the order in which they were
/// written, a later one taking the place of an earlier one with its
/// service name. No service name occurs twice in what is returned.
pub fn decode_entries(bytes: &[u8]) -> (r: Result<Vec<PasswordEntry>, StoreError>)
    ensures
        match r {
            Ok(entries) => {
                &&& spec_decode_entries(bytes@) == Ok::<Seq<EntryView>, StoreError>(
                    spec_views(entries@),
                )
                &&& spec_distinct(spec_views(entries@))
            },
            Err(e) => spec_decode_entries(bytes@) == Err::<Seq<EntryView>, StoreError>(e),
        },
{
    let records = match decode_records(bytes) {
        Ok(records) => records,
        Err(_) => return Err(StoreError::MalformedEntries),
    };
    let ghost read = spec_record_views(records@);
    let mut entries: Vec<PasswordEntry> = Vec::new();
    assert(read.take(0) =~= Seq::empty());
    assert(spec_views(entries@) =~= Seq::empty());
    let mut i: usize = 0;
    while i < records.len()
        invariant
            i <= records@.len(),
            read == spec_record_views(records@),
            records_decoding(bytes@) == Some(read),
            spec_collect(read.take(i as int)) == Some(spec_views(entries@)),
            spec_distinct(spec_views(entries@)),
        decreases records@.len() - i,
    {
        proof {
            lemma_collect_step(read, i as int);
            assert(read[i as int] == records@[i as int]@);
        }
        match from_record(&records[i]) {
            Some(entry) => {
                proof {
                    lemma_upsert(spec_views(entries@), entry@);
                }
                upsert(&mut entries, entry);
            },
            None => {
                proof {
                    lemma_collect_prefix(read, i + 1);
                }
                return Err(StoreError::MalformedEntries);
            },
        }
        i = i + 1;
    }
    assert(read.take(i as int) =~= read);
    Ok(entries)
}

} // verus!
