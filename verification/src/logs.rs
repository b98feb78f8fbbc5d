//! Parsing of raw container log lines into timestamped entries.
//!
//! A raw line looks like `2025-10-28T12:34:56.789Z message`: an RFC 3339
//! instant, one separating space, and the message. A line without a space,
//! or whose prefix is not a valid instant, is dropped.

use vstd::prelude::*;
use vstd::string::*;
use chrono::{Datelike, Timelike};
use crate::strutil::{find_char, spec_find_char, spec_trim, trim};

verus! {

/// A UTC instant, split into its calendar and clock fields.
#[derive(Clone, Copy, Debug, PartialEq, Eq, Structural)]
pub struct Timestamp {
    pub year: i32,
    pub month: u8,
    pub day: u8,
    pub hour: u8,
    pub minute: u8,
    pub second: u8,
    pub nanosecond: u32,
}

/// A parsed log entry: when the runtime emitted the line, and its text.
#[derive(Clone, Debug)]
pub struct LogEntry {
    pub timestamp: Timestamp,
    pub message: String,
}

impl LogEntry {
    /// A copy provably equal to this value.
    pub fn duplicate(&self) -> (r: Self)
        ensures
            r == *self,
    {
        LogEntry { timestamp: self.timestamp, message: self.message.clone() }
    }

    /// Parse one raw log line: the text before the first space must be an
    /// RFC 3339 instant; the rest, trimmed, is the message. A line without
    /// a space, or with an invalid instant, yields nothing.
    pub fn parse(log_line: &str) -> (r: Option<LogEntry>)
        ensures
            match r {
                Option::Some(e) => spec_parse(log_line@) == Option::Some(
                    (e.timestamp, e.message@),
                ),
                Option::None => spec_parse(log_line@) is None,
            },
    {
        let space_idx = match find_char(log_line, ' ') {
            Option::Some(i) => i,
            Option::None => {
                return Option::None;
            },
        };
        proof {
            crate::strutil::lemma_spec_find_char(log_line@, ' ');
        }
        let len = log_line.unicode_len();
        let prefix = log_line.substring_char(0, space_idx);
        let timestamp = match parse_rfc3339_utc(prefix) {
            Option::Some(t) => t,
            Option::None => {
                return Option::None;
            },
        };
        let rest = log_line.substring_char(space_idx, len);
        let message = trim(rest);
        Option::Some(LogEntry { timestamp, message })
    }
}

/// What the instant parser finds in a string: `None` when the string is
/// not a valid RFC 3339 instant, else its UTC calendar and clock fields.
/// The result depends on the characters alone.
pub uninterp spec fn rfc3339_instant(s: Seq<char>) -> Option<Timestamp>;

/// Relies on chrono's `DateTime::parse_from_rfc3339` and its conversion to
/// UTC: whether a string is a valid RFC 3339 instant, and which UTC fields
/// it names, are functions of the characters alone.
#[verifier::external_body]
fn parse_rfc3339_utc(s: &str) -> (r: Option<Timestamp>)
    ensures
        r == rfc3339_instant(s@),
{
    match chrono::DateTime::parse_from_rfc3339(s) {
        Ok(t) => {
            let t = t.with_timezone(&chrono::Utc);
            Some(Timestamp {
                year: t.year(),
                month: t.month() as u8,
                day: t.day() as u8,
                hour: t.hour() as u8,
                minute: t.minute() as u8,
                second: t.second() as u8,
                nanosecond: t.nanosecond(),
            })
        },
        Err(_) => None,
    }
}

/// The parse of one raw line: split at the first space, read the prefix as
/// an RFC 3339 instant, trim the remainder.
pub open spec fn spec_parse(s: Seq<char>) -> Option<(Timestamp, Seq<char>)> {
    match spec_find_char(s, ' ') {
        Option::Some(i) => match rfc3339_instant(s.subrange(0, i)) {
            Option::Some(ts) => Option::Some((ts, spec_trim(s.subrange(i, s.len() as int)))),
            Option::None => Option::None,
        },
        Option::None => Option::None,
    }
}

} // verus!
