//! A civil-calendar date and time arithmetic core.
//!
//! The crate models proleptic-Gregorian calendar dates ([`Date`]), times of
//! day ([`Time`]), calendar-relative intervals ([`Interval`]) and timezone
//! offsets ([`UtcOffset`], the [`TimeZone`] capability), and provides
//! arithmetic and comparison across all of them, including across differing
//! timezones. Every operation is specified against a mathematical model of
//! the calendar (the [`gregorian`] module) and proved correct.

use vstd::prelude::*;

pub mod clock;
pub mod date;
pub mod datetime;
pub mod error;
pub mod gregorian;
pub mod interval;
pub mod time;
pub mod timezone;

pub use date::{Date, IsoWeekDate, Weekday};
pub use datetime::DateTime;
pub use error::Error;
pub use interval::Interval;
pub use time::{Duration, Time};
pub use timezone::{DateTimeResolution, DateTimeResolutionKind, Local, TimeZone, Utc, UtcOffset};

verus! {

/// The current date and time in the given timezone.
pub fn now_in<Tz: TimeZone>(zone: Tz) -> (r: DateTime<Tz>)
    ensures
        r.wf(),
        r.timezone == zone,
        r.time.nanosecond < 1_000_000_000,
{
    DateTime::utc_now().in_timezone(zone)
}

} // verus!
