//! Moments and lengths of time.

use vstd::prelude::*;
use crate::lists::read_as;

verus! {

/// A moment: seconds since the beginning of 1970 in UTC, and nanoseconds.
#[derive(Debug, Clone, Copy, PartialEq, Eq, Structural)]
pub struct Timestamp {
    pub secs: i64,
    pub nanos: u32,
}

/// A length of time.
#[derive(Debug, Clone, Copy, PartialEq, Eq, Structural)]
pub struct Duration {
    pub secs: u64,
    pub nanos: u32,
}

impl Timestamp {
    /// Nanoseconds since the beginning of 1970.
    pub open spec fn ns(self) -> int {
        self.secs * 1_000_000_000 + self.nanos
    }

    /// Nanoseconds since the beginning of 1970.
    pub fn as_nanos(self) -> (r: i128)
        ensures
            r == self.ns(),
    {
        (self.secs as i128) * 1_000_000_000 + (self.nanos as i128)
    }
}

impl Duration {
    /// The length in nanoseconds.
    pub open spec fn ns(self) -> int {
        self.secs * 1_000_000_000 + self.nanos
    }

    /// The length in nanoseconds.
    pub fn as_nanos(self) -> (r: i128)
        ensures
            r == self.ns(),
    {
        (self.secs as i128) * 1_000_000_000 + (self.nanos as i128)
    }

    /// Some seconds.
    #[verifier::allow_in_spec]
    pub fn from_secs(secs: u64) -> Duration
        returns
            (Duration { secs, nanos: 0 }),
    {
        Duration { secs, nanos: 0 }
    }

    /// Some milliseconds.
    pub fn from_millis(millis: u64) -> (r: Duration)
        ensures
            r.ns() == millis * 1_000_000,
            r.nanos < 1_000_000_000,
    {
        Duration { secs: millis / 1000, nanos: ((millis % 1000) as u32) * 1_000_000 }
    }
}

/// The time of the system clock, from `chrono::Utc::now`. Nothing is claimed of it.
#[verifier::external_body]
pub(crate) fn now() -> Timestamp {
    let t = chrono::Utc::now();
    Timestamp { secs: t.timestamp(), nanos: t.timestamp_subsec_nanos() }
}

/// A random identifier, from `uuid::Uuid::new_v4`. Nothing is claimed of it.
#[verifier::external_body]
pub(crate) fn new_id() -> u128 {
    uuid::Uuid::new_v4().as_u128()
}

/// The text of an identifier, in groups of hexadecimal digits.
pub uninterp spec fn id_text(id: u128) -> Seq<char>;

/// The identifier that a text stands for, or what is wrong with it.
pub uninterp spec fn id_read(text: Seq<char>) -> Result<u128, Seq<char>>;

/// `uuid::Uuid::to_string`: it depends on the identifier alone, and `uuid::Uuid::parse_str` gives
/// the identifier back.
#[verifier::external_body]
pub(crate) fn id_to_text(id: u128) -> (r: String)
    ensures
        r@ == id_text(id),
        read_as(id_read(r@), id),
{
    uuid::Uuid::from_u128(id).to_string()
}

/// `uuid::Uuid::parse_str`: it depends on the text alone. An error is taken as the text that it
/// shows.
#[verifier::external_body]
pub(crate) fn read_id(text: &str) -> (r: Result<u128, String>)
    ensures
        match r {
            Ok(id) => id_read(text@) == Ok::<u128, Seq<char>>(id),
            Err(e) => id_read(text@) == Err::<u128, Seq<char>>(e@),
        },
{
    match uuid::Uuid::parse_str(text) {
        Ok(id) => Ok(id.as_u128()),
        Err(e) => Err(e.to_string()),
    }
}

/// The text of a moment, such as `2024-05-01T12:00:00+00:00`.
pub uninterp spec fn time_text(t: Timestamp) -> Seq<char>;

/// The moment that a text stands for, or what is wrong with it.
pub uninterp spec fn time_read(text: Seq<char>) -> Result<Timestamp, Seq<char>>;

/// A moment in the years from 0 to 9999, outside leap seconds.
pub open spec fn is_common(t: Timestamp) -> bool {
    -62_167_219_200 <= t.secs <= 253_402_300_799 && t.nanos < 1_000_000_000
}

/// `chrono::DateTime::to_rfc3339` on the moment in UTC: it depends on the moment alone, and
/// `chrono::DateTime::parse_from_rfc3339` gives a moment of a year with four digits back. A moment
/// that is outside the calendar has an empty text.
#[verifier::external_body]
pub(crate) fn write_time(t: Timestamp) -> (r: String)
    ensures
        r@ == time_text(t),
        is_common(t) ==> read_as(time_read(r@), t),
{
    chrono::DateTime::from_timestamp(t.secs, t.nanos).map(|t| t.to_rfc3339()).unwrap_or_default()
}

/// `chrono::DateTime::parse_from_rfc3339`, with the moment taken in UTC: it depends on the text
/// alone. An error is taken as the text that it shows.
#[verifier::external_body]
pub(crate) fn read_time(text: &str) -> (r: Result<Timestamp, String>)
    ensures
        match r {
            Ok(t) => time_read(text@) == Ok::<Timestamp, Seq<char>>(t),
            Err(e) => time_read(text@) == Err::<Timestamp, Seq<char>>(e@),
        },
{
    match chrono::DateTime::parse_from_rfc3339(text) {
        Ok(t) => Ok(Timestamp { secs: t.timestamp(), nanos: t.timestamp_subsec_nanos() }),
        Err(e) => Err(e.to_string()),
    }
}

/// A second has a thousand million nanoseconds, and of two times the later has the more.
pub proof fn seconds_have_their_nanoseconds(a: Timestamp, b: Timestamp, d: Duration)
    ensures
        a.ns() - b.ns() == (a.secs - b.secs) * 1_000_000_000 + (a.nanos - b.nanos),
        d.ns() == d.secs * 1_000_000_000 + d.nanos,
        a.nanos < 1_000_000_000 && b.nanos < 1_000_000_000 ==> (a.ns() < b.ns() <==> a.secs < b.secs
            || (a.secs == b.secs && a.nanos < b.nanos)),
{
}

} // verus!
