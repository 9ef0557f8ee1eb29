use chrono::{Datelike, Timelike};
use vstd::prelude::*;

verus! {

/// A redirect as the store returns it for listing.
#[derive(Debug)]
pub struct Entry {
    pub path: String,
    pub url: String,
    pub created: String,
}

/// The body of a create request.
#[derive(Debug)]
pub struct NewEntryRequest {
    pub path: String,
    pub url: String,
}

/// A date and time of day, in UTC.
#[derive(Clone, Copy, Debug, PartialEq, Eq, Structural)]
pub struct Timestamp {
    pub year: i32,
    pub month: u32,
    pub day: u32,
    pub hour: u32,
    pub minute: u32,
    pub second: u32,
}

impl Timestamp {
    pub open spec fn wf(&self) -> bool {
        &&& 1 <= self.month <= 12
        &&& 1 <= self.day <= 31
        &&& self.hour < 24
        &&& self.minute < 60
        &&& self.second < 60
    }

    pub open spec fn parts(&self) -> (i32, u32, u32, u32, u32, u32) {
        (self.year, self.month, self.day, self.hour, self.minute, self.second)
    }
}

/// A redirect as a listing shows it.
#[derive(Debug)]
pub struct EntryResponse {
    pub path: String,
    pub url: String,
    pub created: Timestamp,
}

/// The date and time that `s` spells in the chrono format `fmt`, as year,
/// month, day, hour, minute and second.
pub uninterp spec fn parsed_datetime(s: Seq<char>, fmt: Seq<char>) -> Option<
    (i32, u32, u32, u32, u32, u32),
>;

/// Relies on `chrono::NaiveDateTime::parse_from_str`, and on the ranges that
/// chrono documents for the parts of a date and time.
#[verifier::external_body]
fn parse_datetime(s: &str, fmt: &str) -> (r: Option<Timestamp>)
    ensures
        r is Some <==> parsed_datetime(s@, fmt@) is Some,
        r matches Some(t) ==> t.parts() == parsed_datetime(s@, fmt@)->0 && t.wf(),
{
    match chrono::NaiveDateTime::parse_from_str(s, fmt) {
        Ok(d) => Some(
            Timestamp {
                year: d.year(),
                month: d.month(),
                day: d.day(),
                hour: d.hour(),
                minute: d.minute(),
                second: d.second(),
            },
        ),
        Err(_) => None,
    }
}

/// The format in which the store writes creation times.
pub open spec fn created_format() -> Seq<char> {
    "%Y-%m-%d %H:%M:%S"@
}

/// Midnight on the first of January of year 0: the creation time shown when
/// the stored one does not parse.
pub open spec fn epoch_sentinel() -> Timestamp {
    Timestamp { year: 0, month: 1, day: 1, hour: 0, minute: 0, second: 0 }
}

/// The creation time that a stored text stands for.
pub open spec fn created_of(s: Seq<char>) -> Timestamp {
    match parsed_datetime(s, created_format()) {
        Some(t) => Timestamp {
            year: t.0,
            month: t.1,
            day: t.2,
            hour: t.3,
            minute: t.4,
            second: t.5,
        },
        None => epoch_sentinel(),
    }
}

/// Reads a stored creation time; one that does not parse becomes the
/// sentinel rather than an error.
pub fn parse_created(s: &str) -> (r: Timestamp)
    ensures
        r == created_of(s@),
        r.wf(),
{
    let fmt = "%Y-%m-%d %H:%M:%S";
    match parse_datetime(s, fmt) {
        Some(t) => t,
        None => Timestamp { year: 0, month: 1, day: 1, hour: 0, minute: 0, second: 0 },
    }
}

impl EntryResponse {
    pub open spec fn shows(&self, e: Entry) -> bool {
        &&& self.path@ == e.path@
        &&& self.url@ == e.url@
        &&& self.created == created_of(e.created@)
    }

    /// The listing form of a stored entry.
    pub fn from_entry(entry: Entry) -> (r: EntryResponse)
        ensures
            r.shows(entry),
    {
        let created = parse_created(entry.created.as_str());
        EntryResponse { path: entry.path, url: entry.url, created }
    }
}

} // verus!
