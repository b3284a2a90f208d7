//! The record of one log entry, and the reading of its time.

use crate::level::Level;
use vstd::prelude::*;

verus! {

/// What `chrono::DateTime::parse_from_str` makes of a text under a layout:
/// the instant in milliseconds since the Unix epoch, or `None` where the
/// text does not follow the layout.
pub uninterp spec fn parsed_instant(text: Seq<char>, layout: Seq<char>) -> Option<i64>;

/// The one layout of a record's time: date, `T`, time of day, an optional
/// fraction of three digits, and a numeric offset from UTC.
pub open spec fn time_layout() -> Seq<char> {
    "%Y-%m-%dT%H:%M:%S%.3f%z"@
}

/// The instant that a record gets from the outcome of parsing its time: the
/// parsed one, or the epoch where parsing failed.
pub open spec fn instant_or_epoch(parsed: Option<i64>) -> i64 {
    match parsed {
        Some(millis) => millis,
        None => 0i64,
    }
}

/// Calls `chrono::DateTime::parse_from_str` and, on success,
/// `DateTime::timestamp_millis`. Trusted: the outcome depends on the text
/// and the layout alone.
#[verifier::external_body]
fn parse_instant(text: &str, layout: &str) -> (r: Option<i64>)
    ensures
        r == parsed_instant(text@, layout@),
{
    match chrono::DateTime::parse_from_str(text, layout) {
        Ok(at) => Some(at.timestamp_millis()),
        Err(_) => None,
    }
}

/// One decoded log entry.
#[derive(Debug)]
pub struct Log {
    /// Milliseconds since the Unix epoch; 0 where the time could not be read.
    pub time: i64,
    pub level: Level,
    pub message: String,
    pub caller: String,
    /// The extra fields as one JSON object with its keys in order, or the
    /// empty text where there are none.
    pub payload: String,
}

/// A `Log` as plain values.
pub struct LogView {
    pub time: i64,
    pub level: Level,
    pub message: Seq<char>,
    pub caller: Seq<char>,
    pub payload: Seq<char>,
}

impl View for Log {
    type V = LogView;

    open spec fn view(&self) -> LogView {
        LogView {
            time: self.time,
            level: self.level,
            message: self.message@,
            caller: self.caller@,
            payload: self.payload@,
        }
    }
}

impl Clone for Log {
    fn clone(&self) -> (r: Self)
        ensures
            r == *self,
    {
        Log {
            time: self.time,
            level: self.level,
            message: self.message.clone(),
            caller: self.caller.clone(),
            payload: self.payload.clone(),
        }
    }
}

impl Log {
    /// Settles a record's instant once its time has been parsed.
    pub fn time_from_parsed(parsed: Option<i64>) -> (r: i64)
        ensures
            r == instant_or_epoch(parsed),
    {
        match parsed {
            Some(millis) => millis,
            None => 0,
        }
    }

    /// Reads a record's time. A text that does not follow the layout gives
    /// the epoch.
    pub fn time_from_string(time_string: String) -> (r: i64)
        ensures
            r == instant_or_epoch(parsed_instant(time_string@, time_layout())),
    {
        Log::time_from_parsed(parse_instant(time_string.as_str(), "%Y-%m-%dT%H:%M:%S%.3f%z"))
    }
}

} // verus!
