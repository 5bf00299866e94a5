//! The byte form of the vault header and of the entry records, written and
//! read with the `bincode` crate. The functions that call the crate are not
//! proved: each states what its code does.

use crate::wipe::wipe_string;
use vstd::prelude::*;

verus! {

/// The kinds of error of the `bincode` crate, carried through unread.
#[verifier::external_type_specification]
#[verifier::external_body]
pub struct ExBincodeErrorKind(bincode::ErrorKind);

/// One entry as it is written: the key it is filed under, the identifier as
/// bytes, and the two points in time as RFC 3339 text. Its texts are
/// overwritten in memory when the record is dropped.
pub struct EntryRecord {
    pub key: String,
    pub id: Vec<u8>,
    pub service: String,
    pub username: String,
    pub password: String,
    pub created_at: String,
    pub updated_at: String,
}

/// What a record holds, as mathematical values.
pub struct RecordView {
    pub key: Seq<char>,
    pub id: Seq<u8>,
    pub service: Seq<char>,
    pub username: Seq<char>,
    pub password: Seq<char>,
    pub created_at: Seq<char>,
    pub updated_at: Seq<char>,
}

impl View for EntryRecord {
    type V = RecordView;

    open spec fn view(&self) -> RecordView {
        RecordView {
            key: self.key@,
            id: self.id@,
            service: self.service@,
            username: self.username@,
            password: self.password@,
            created_at: self.created_at@,
            updated_at: self.updated_at@,
        }
    }
}

impl Drop for EntryRecord {
    fn drop(&mut self)
        opens_invariants none
        no_unwind
    {
        wipe_string(&mut self.key);
        wipe_string(&mut self.service);
        wipe_string(&mut self.username);
        wipe_string(&mut self.password);
    }
}

/// The views of a sequence of records.
pub open spec fn spec_record_views(records: Seq<EntryRecord>) -> Seq<RecordView> {
    records.map_values(|r: EntryRecord| r@)
}

/// The bytes that `bincode::serialize` writes for a header, or `None`
/// where it reports an error.
pub uninterp spec fn header_encoding(version: u32, master_hash: Seq<char>, salt: Seq<u8>) -> Option<
    Seq<u8>,
>;

/// The header that `bincode::deserialize` reads from the start of `bytes`,
/// or `None` where it reports an error.
pub uninterp spec fn header_decoding(bytes: Seq<u8>) -> Option<(u32, Seq<char>, Seq<u8>)>;

/// The bytes that `bincode::serialize` writes for a sequence of records, or
/// `None` where it reports an error.
pub uninterp spec fn records_encoding(records: Seq<RecordView>) -> Option<Seq<u8>>;

/// The records that `bincode::deserialize` reads from the start of `bytes`,
/// or `None` where it reports an error.
pub uninterp spec fn records_decoding(bytes: Seq<u8>) -> Option<Seq<RecordView>>;

/// Writes a header by `bincode::serialize` on the tuple of its three
/// fields, which has the bytes of a struct with these fields.
///
/// The contract claims that the bytes depend on the three values alone and
/// that reading them gives the same values back.
#[verifier::external_body]
pub(crate) fn encode_header(version: u32, master_hash: &String, salt: &Vec<u8>) -> (r: Result<
    Vec<u8>,
    bincode::Error,
>)
    ensures
        match r {
            Ok(bytes) => {
                &&& header_encoding(version, master_hash@, salt@) == Some(bytes@)
                &&& header_decoding(bytes@) == Some((version, master_hash@, salt@))
            },
            Err(_) => header_encoding(version, master_hash@, salt@) is None,
        },
{
    bincode::serialize(&(version, master_hash, salt))
}

/// Reads a header by `bincode::deserialize` as the tuple of its three
/// fields. Bytes after the header are not looked at.
///
/// The contract claims only that the outcome depends on the bytes alone.
#[verifier::external_body]
pub(crate) fn decode_header(bytes: &[u8]) -> (r: Result<(u32, String, Vec<u8>), bincode::Error>)
    ensures
        match r {
            Ok(fields) => header_decoding(bytes@) == Some((fields.0, fields.1@, fields.2@)),
            Err(_) => header_decoding(bytes@) is None,
        },
{
    bincode::deserialize(bytes)
}

/// Writes records by `bincode::serialize` on a sequence of pairs of key and
/// six-field tuple, which has the bytes of a map from keys to entries.
///
/// The contract claims that the bytes depend on the records alone and that
/// reading them gives the same records back.
#[verifier::external_body]
pub(crate) fn encode_records(records: &Vec<EntryRecord>) -> (r: Result<Vec<u8>, bincode::Error>)
    ensures
        match r {
            Ok(bytes) => {
                &&& records_encoding(spec_record_views(records@)) == Some(bytes@)
                &&& records_decoding(bytes@) == Some(spec_record_views(records@))
            },
            Err(_) => records_encoding(spec_record_views(records@)) is None,
        },
{
    let wire: Vec<(&String, (&Vec<u8>, &String, &String, &String, &String, &String))> =
        records.iter().map(
        |r| (&r.key, (&r.id, &r.service, &r.username, &r.password, &r.created_at, &r.updated_at)),
    ).collect();
    bincode::serialize(&wire)
}

/// Reads records by `bincode::deserialize` as a sequence of pairs of key
/// and six-field tuple, in the order in which they are written. Bytes after
/// the records are not looked at.
///
/// The contract claims only that the outcome depends on the bytes alone.
#[verifier::external_body]
pub(crate) fn decode_records(bytes: &[u8]) -> (r: Result<Vec<EntryRecord>, bincode::Error>)
    ensures
        match r {
            Ok(records) => records_decoding(bytes@) == Some(spec_record_views(records@)),
            Err(_) => records_decoding(bytes@) is None,
        },
{
    let wire: Vec<(String, (Vec<u8>, String, String, String, String, String))> =
        bincode::deserialize(bytes)?;
    Ok(
        wire.into_iter().map(
            |(key, (id, service, username, password, created_at, updated_at))| EntryRecord {
                key, id, service, username, password, created_at, updated_at,
            },
        ).collect(),
    )
}

} // verus!
