//! One tracked time interval: optional start and end stamps and the tags
//! attached to it.

use vstd::prelude::*;

use crate::datetime::DateTime;
use crate::datetime::duration_minutes;
use crate::datetime::duration_minutes_spec;
use crate::datetime::parse_compact_spec;
use crate::datetime::tw_date_parser;

verus! {

/// A tracked start/stop span with its tags. A stamp that was absent or
/// unparseable in the source text is `None`.
#[derive(Debug, Clone)]
pub struct TWEntry {
    pub start: Option<DateTime>,
    pub end: Option<DateTime>,
    pub tags: Vec<String>,
}

/// An interval's billable length in whole minutes: zero when either stamp
/// is absent, otherwise the minutes from start to end.
pub open spec fn duration_spec(start: Option<DateTime>, end: Option<DateTime>) -> int {
    match (start, end) {
        (Some(s), Some(e)) => duration_minutes_spec(s, e),
        _ => 0,
    }
}

/// What a stamp text yields: absent text stays absent, present text is
/// parsed, and an unparseable stamp becomes absent rather than an error.
pub open spec fn stamp_spec(text: Option<&str>) -> Option<DateTime> {
    match text {
        None => None,
        Some(t) => parse_compact_spec(t@),
    }
}

impl TWEntry {
    /// Build an interval from its two stamp texts and its tags.
    pub fn new(start_text: Option<&str>, end_text: Option<&str>, tags: Vec<String>) -> (e: TWEntry)
        ensures
            e.start == stamp_spec(start_text),
            e.end == stamp_spec(end_text),
            e.tags == tags,
    {
        let start = match start_text {
            None => None,
            Some(t) => tw_date_parser(t),
        };
        let end = match end_text {
            None => None,
            Some(t) => tw_date_parser(t),
        };
        TWEntry { start, end, tags }
    }

    /// The interval's length in whole minutes.
    pub fn get_duration(&self) -> (d: i64)
        ensures
            d == duration_spec(self.start, self.end),
    {
        match (self.start, self.end) {
            (Some(s), Some(e)) => duration_minutes(&s, &e),
            _ => 0,
        }
    }
}

} // verus!
