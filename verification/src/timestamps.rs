//! Reading and writing instants as text, through `chrono`.

use std::fmt::Write;
use vstd::prelude::*;
use crate::models::Timestamp;
use crate::text::{chars_of, remove_all, string_of, trim, trimmed, without};

verus! {

/// The instant that `chrono` reads from `text` by the `strftime` pattern
/// `format`, taken as UTC; `None` where the text does not fit the pattern.
pub uninterp spec fn naive_datetime(text: Seq<char>, format: Seq<char>) -> Option<Timestamp>;

/// The instant that `chrono` reads from an RFC 3339 text; `None` where the
/// text is not of that form.
pub uninterp spec fn rfc3339_instant(text: Seq<char>) -> Option<Timestamp>;

/// The text that `chrono` writes for an instant by the `strftime` pattern
/// `format`; `None` where the instant is out of its range or the pattern is
/// not valid.
pub uninterp spec fn formatted_instant(at: Timestamp, format: Seq<char>) -> Option<Seq<char>>;

/// `chrono::NaiveDateTime::parse_from_str`, its result taken as UTC
/// (`and_utc`) and handed out as seconds and nanoseconds (`timestamp`,
/// `timestamp_subsec_nanos`). The outcome is a function of the two texts.
#[verifier::external_body]
fn parse_naive_utc(text: &str, format: &str) -> (r: Option<Timestamp>)
    ensures
        r == naive_datetime(text@, format@),
{
    match chrono::NaiveDateTime::parse_from_str(text, format) {
        Ok(naive) => {
            let utc = naive.and_utc();
            Some(Timestamp { secs: utc.timestamp(), nanos: utc.timestamp_subsec_nanos() })
        },
        Err(_) => None,
    }
}

/// `chrono::DateTime::parse_from_rfc3339`, its result handed out as seconds
/// and nanoseconds. The outcome is a function of the text.
#[verifier::external_body]
fn parse_rfc3339_utc(text: &str) -> (r: Option<Timestamp>)
    ensures
        r == rfc3339_instant(text@),
{
    match chrono::DateTime::parse_from_rfc3339(text) {
        Ok(at) => Some(Timestamp { secs: at.timestamp(), nanos: at.timestamp_subsec_nanos() }),
        Err(_) => None,
    }
}

/// `chrono::DateTime::from_timestamp` and `DateTime::format`: the instant
/// written by a `strftime` pattern. The outcome is a function of the
/// instant and the pattern.
#[verifier::external_body]
fn format_utc(at: Timestamp, format: &str) -> (r: Option<String>)
    ensures
        r.deep_view() == formatted_instant(at, format@),
{
    let utc = chrono::DateTime::from_timestamp(at.secs, at.nanos)?;
    let mut out = String::new();
    match write!(out, "{}", utc.format(format)) {
        Ok(()) => Some(out),
        Err(_) => None,
    }
}

/// The value that stands for a stored instant that cannot be read: the
/// earliest instant that the store can hold.
pub open spec fn sentinel() -> Timestamp {
    Timestamp { secs: -8_334_601_228_800i64, nanos: 0 }
}

/// The text of an instant as the parsers see it: without the whitespace
/// around it and without any ` UTC` in it.
pub open spec fn timestamp_text(text: Seq<char>) -> Seq<char> {
    without(trimmed(text), " UTC"@)
}

/// The first of `a` and `b` that holds a value.
pub open spec fn or_else(a: Option<Timestamp>, b: Option<Timestamp>) -> Option<Timestamp> {
    if a is Some {
        a
    } else {
        b
    }
}

/// The instant of a transcript or history timestamp: the text is tried
/// against `YYYY-MM-DD HH:MM:SS`, `MMM DD, YYYY HH:MM:SS` and
/// `MM/DD/YYYY HH:MM:SS`, in that order, and read as UTC.
pub open spec fn parsed_timestamp(text: Seq<char>) -> Option<Timestamp> {
    let t = timestamp_text(text);
    or_else(
        naive_datetime(t, "%Y-%m-%d %H:%M:%S"@),
        or_else(naive_datetime(t, "%b %d, %Y %H:%M:%S"@), naive_datetime(t, "%m/%d/%Y %H:%M:%S"@)),
    )
}

/// The instant of a memory's date: only `YYYY-MM-DD HH:MM:SS` is accepted.
pub open spec fn parsed_memory_timestamp(text: Seq<char>) -> Option<Timestamp> {
    naive_datetime(timestamp_text(text), "%Y-%m-%d %H:%M:%S"@)
}

/// The instant that a stored text stands for: what it reads as RFC 3339,
/// or the sentinel where it cannot be read.
pub open spec fn stored_instant(text: Seq<char>) -> Timestamp {
    match rfc3339_instant(text) {
        Some(at) => at,
        None => sentinel(),
    }
}

/// Strips the text of a timestamp down to what the patterns are tried on.
fn clean_timestamp_text(text: &str) -> (r: String)
    ensures
        r@ == timestamp_text(text@),
{
    proof {
        reveal_strlit(" UTC");
    }
    let chars = chars_of(text);
    let stripped = trim(&chars);
    let pattern = chars_of(" UTC");
    let cleaned = remove_all(&stripped, &pattern);
    string_of(&cleaned)
}

/// Reads a transcript or history timestamp.
pub fn parse_timestamp(text: &str) -> (r: Option<Timestamp>)
    ensures
        r == parsed_timestamp(text@),
{
    let cleaned = clean_timestamp_text(text);
    let first = parse_naive_utc(cleaned.as_str(), "%Y-%m-%d %H:%M:%S");
    if first.is_some() {
        return first;
    }
    let second = parse_naive_utc(cleaned.as_str(), "%b %d, %Y %H:%M:%S");
    if second.is_some() {
        return second;
    }
    parse_naive_utc(cleaned.as_str(), "%m/%d/%Y %H:%M:%S")
}

/// Reads the date of a memory.
pub fn parse_memory_timestamp(text: &str) -> (r: Option<Timestamp>)
    ensures
        r == parsed_memory_timestamp(text@),
{
    let cleaned = clean_timestamp_text(text);
    parse_naive_utc(cleaned.as_str(), "%Y-%m-%d %H:%M:%S")
}

/// Reads an instant in RFC 3339 form.
pub fn parse_rfc3339(text: &str) -> (r: Option<Timestamp>)
    ensures
        r == rfc3339_instant(text@),
{
    parse_rfc3339_utc(text)
}

/// Reads a stored instant, repairing what cannot be read to the sentinel.
pub fn read_stored_instant(text: &str) -> (r: Timestamp)
    ensures
        r == stored_instant(text@),
{
    match parse_rfc3339_utc(text) {
        Some(at) => at,
        None => Timestamp { secs: -8_334_601_228_800i64, nanos: 0 },
    }
}

/// Writes an instant by a `strftime` pattern.
pub fn format_timestamp(at: Timestamp, format: &str) -> (r: Option<String>)
    ensures
        r.deep_view() == formatted_instant(at, format@),
{
    format_utc(at, format)
}

} // verus!
