//! Reading the date text of a result as a moment in time.
//!
//! A moment is the number of seconds since the epoch (1 January 1970, 00:00
//! UTC). The date text carries no time zone and is read as UTC. Two formats
//! are known and tried in order:
//!
//! 1. day, abbreviated month name, year, hour:minute (`15 Jan 2025 13:45`);
//! 2. day/month/year, hour:minute (`15/01/2025 13:45`).
//!
//! Both formats end at the minute, so two date texts that were read differ by
//! whole minutes or not at all: to order them by their seconds is to order
//! them by the moments they name. A text that neither format reads stands for
//! the epoch itself, and so ranks with the dates of 1 January 1970, 00:00.

use vstd::prelude::*;
use chrono::NaiveDateTime;

verus! {

/// Seconds since the epoch.
pub type Timestamp = i64;

/// The moment that stands for a date that could not be read.
pub const EPOCH: Timestamp = 0i64;

/// What `chrono` reads from `text` under the strftime pattern `format`, in
/// seconds since the epoch; `None` where `text` does not follow the pattern.
pub uninterp spec fn parsed_timestamp(text: Seq<char>, format: Seq<char>) -> Option<Timestamp>;

/// The pattern of the first known format: day, abbreviated month name, year,
/// hour:minute.
pub const NAMED_MONTH_FORMAT: &'static str = "%d %b %Y %H:%M";

/// The pattern of the second known format: day/month/year, hour:minute.
pub const NUMERIC_FORMAT: &'static str = "%d/%m/%Y %H:%M";

/// The first of two readings that succeeded, or the epoch where none did.
pub open spec fn first_reading(first: Option<Timestamp>, second: Option<Timestamp>) -> Timestamp {
    match first {
        Some(moment) => moment,
        None => match second {
            Some(moment) => moment,
            None => EPOCH,
        },
    }
}

/// The moment by which a result with the date text `raw` is ranked.
pub open spec fn date_key(raw: Seq<char>) -> Timestamp {
    first_reading(
        parsed_timestamp(raw, NAMED_MONTH_FORMAT@),
        parsed_timestamp(raw, NUMERIC_FORMAT@),
    )
}

/// Reads `text` under the strftime pattern `format`.
///
/// Trusted: `NaiveDateTime::parse_from_str` returns `Ok` or `Err` for every
/// text and pattern, by these two alone (no locale, no time zone, no clock),
/// and `and_utc().timestamp()` turns the moment it read into seconds since the
/// epoch.
#[verifier::external_body]
pub(crate) fn parse_timestamp(text: &str, format: &str) -> (seconds: Option<Timestamp>)
    ensures
        seconds == parsed_timestamp(text@, format@),
{
    match NaiveDateTime::parse_from_str(text, format) {
        Ok(moment) => Some(moment.and_utc().timestamp()),
        Err(_) => None,
    }
}

/// Settles on one moment, given what each of the two formats read.
pub fn settle_timestamp(first: Option<Timestamp>, second: Option<Timestamp>) -> (moment: Timestamp)
    ensures
        moment == first_reading(first, second),
{
    match first {
        Some(moment) => moment,
        None => match second {
            Some(moment) => moment,
            None => EPOCH,
        },
    }
}

} // verus!
