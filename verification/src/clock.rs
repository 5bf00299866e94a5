//! Points in time, read and written with the `chrono` crate. The functions
//! that call the crate are not proved: each states what its code does.

use chrono::{DateTime, FixedOffset, SecondsFormat, Utc};
use vstd::prelude::*;

verus! {

/// The last nanosecond of an ordinary second.
pub const LAST_NANOSECOND: u32 = 999_999_999;

/// A point in time: whole seconds since 1970-01-01T00:00:00Z and the
/// nanoseconds past that second. During a leap second the nanoseconds run
/// from 1,000,000,000 up.
#[derive(Clone, Copy, Debug, PartialEq, Eq, Structural)]
pub struct Timestamp {
    pub secs: i64,
    pub nanos: u32,
}

impl Timestamp {
    /// `self` comes strictly before `other`.
    pub open spec fn spec_is_before(self, other: Timestamp) -> bool {
        self.secs < other.secs || (self.secs == other.secs && self.nanos < other.nanos)
    }

    /// Whether `self` comes strictly before `other`.
    #[verifier::when_used_as_spec(spec_is_before)]
    pub fn is_before(self, other: Timestamp) -> (before: bool)
        ensures
            before == self.spec_is_before(other),
    {
        self.secs < other.secs || (self.secs == other.secs && self.nanos < other.nanos)
    }

    /// The last point in time that the two numbers can hold.
    pub open spec fn spec_last() -> Timestamp {
        Timestamp { secs: i64::MAX, nanos: u32::MAX }
    }

    /// The point in time one nanosecond after `self`, in an ordinary
    /// second; the start of the following second where `self` is the last
    /// nanosecond of a second or lies in a leap second. The last point in
    /// time has none after it and stays.
    pub open spec fn spec_next(self) -> Timestamp {
        if self.nanos < LAST_NANOSECOND {
            Timestamp { secs: self.secs, nanos: (self.nanos + 1) as u32 }
        } else if self.secs < i64::MAX {
            Timestamp { secs: (self.secs + 1) as i64, nanos: 0 }
        } else if self.nanos < u32::MAX {
            Timestamp { secs: self.secs, nanos: (self.nanos + 1) as u32 }
        } else {
            self
        }
    }

    /// The point in time that follows `self`.
    #[verifier::when_used_as_spec(spec_next)]
    pub fn next(self) -> (following: Timestamp)
        ensures
            following == self.spec_next(),
            self != Timestamp::spec_last() ==> self.spec_is_before(following),
    {
        if self.nanos < LAST_NANOSECOND {
            Timestamp { secs: self.secs, nanos: self.nanos + 1 }
        } else if self.secs < i64::MAX {
            Timestamp { secs: self.secs + 1, nanos: 0 }
        } else if self.nanos < u32::MAX {
            Timestamp { secs: self.secs, nanos: self.nanos + 1 }
        } else {
            self
        }
    }

    /// The time of a change that is made at `at` to what was last changed
    /// at `self`: `at` where it is after `self`, and else the point in time
    /// that follows `self`, so that the time of change always advances.
    pub open spec fn spec_advanced_to(self, at: Timestamp) -> Timestamp {
        if self.spec_is_before(at) {
            at
        } else {
            self.spec_next()
        }
    }

    /// The time of a change that is made at `at` to what was last changed
    /// at `self`. It is strictly after `self`, unless `self` is the last
    /// point in time.
    #[verifier::when_used_as_spec(spec_advanced_to)]
    pub fn advanced_to(self, at: Timestamp) -> (changed: Timestamp)
        ensures
            changed == self.spec_advanced_to(at),
            self != Timestamp::spec_last() ==> self.spec_is_before(changed),
    {
        if self.is_before(at) {
            at
        } else {
            self.next()
        }
    }

    /// The time of change advances strictly, whatever the clock says.
    pub proof fn lemma_advances(self, at: Timestamp)
        requires
            self != Timestamp::spec_last(),
        ensures
            self.spec_is_before(self.spec_advanced_to(at)),
            self.spec_is_before(at) ==> self.spec_advanced_to(at) == at,
    {
    }
}

/// The RFC 3339 text of the instant `secs` and `nanos` in UTC, or `None`
/// where the instant is outside the range of dates that can be written.
pub uninterp spec fn rfc3339_text(secs: i64, nanos: u32) -> Option<Seq<char>>;

/// The instant that an RFC 3339 text denotes, or `None` where the text is
/// none.
pub uninterp spec fn rfc3339_instant(text: Seq<char>) -> Option<(i64, u32)>;

/// The current time by `Utc::now()`, taken apart by `DateTime::timestamp`
/// and `DateTime::timestamp_subsec_nanos`. Of the value only the range of
/// the nanoseconds is claimed.
#[verifier::external_body]
pub(crate) fn now() -> (t: Timestamp)
    ensures
        t.nanos < 2_000_000_000,
{
    let t = Utc::now();
    Timestamp { secs: t.timestamp(), nanos: t.timestamp_subsec_nanos() }
}

/// Writes an instant as text by `DateTime::from_timestamp` and
/// `to_rfc3339_opts(SecondsFormat::AutoSi, true)`, the form in which a
/// `DateTime<Utc>` is serialized.
///
/// The contract claims that the text depends on the instant alone and that
/// reading it gives the instant back.
#[verifier::external_body]
pub(crate) fn rfc3339_format(t: Timestamp) -> (text: Option<String>)
    ensures
        match text {
            Some(s) => rfc3339_text(t.secs, t.nanos) == Some(s@) && rfc3339_instant(s@) == Some(
                (t.secs, t.nanos),
            ),
            None => rfc3339_text(t.secs, t.nanos) is None,
        },
{
    match DateTime::<Utc>::from_timestamp(t.secs, t.nanos) {
        Some(at) => Some(at.to_rfc3339_opts(SecondsFormat::AutoSi, true)),
        None => None,
    }
}

/// Reads an instant from text by `str::parse::<DateTime<FixedOffset>>`, as
/// a `DateTime<Utc>` is deserialized, and takes it apart by
/// `DateTime::timestamp` and `DateTime::timestamp_subsec_nanos`.
///
/// The contract claims only that the outcome depends on the text alone.
#[verifier::external_body]
pub(crate) fn rfc3339_parse(text: &str) -> (t: Option<Timestamp>)
    ensures
        match t {
            Some(at) => rfc3339_instant(text@) == Some((at.secs, at.nanos)),
            None => rfc3339_instant(text@) is None,
        },
{
    match text.parse::<DateTime<FixedOffset>>() {
        Ok(at) => Some(Timestamp { secs: at.timestamp(), nanos: at.timestamp_subsec_nanos() }),
        Err(_) => None,
    }
}

} // verus!
