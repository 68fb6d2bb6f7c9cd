//! Reading the current instant from the environment's clock.

use vstd::prelude::*;
use std::time::SystemTime;
use crate::date::Date;
use crate::datetime::DateTime;
use crate::gregorian::{max_epoch_day, min_epoch_day};
use crate::time::{Duration, Time};
use crate::timezone::{TimeZone, Utc};

verus! {

/// Relies on `std::time::SystemTime::now` and
/// `SystemTime::duration_since(UNIX_EPOCH)`: the current instant, as a
/// duration from the Unix epoch with a flag that is true when the instant
/// lies before the epoch. The clock can return anything; only the documented
/// normalization of the sub-second part (below one second) is assumed.
#[verifier::external_body]
fn clock_now() -> (r: (bool, u64, u32))
    ensures
        r.2 < 1_000_000_000,
{
    match SystemTime::now().duration_since(SystemTime::UNIX_EPOCH) {
        Ok(d) => (false, d.as_secs(), d.subsec_nanos()),
        Err(e) => (true, e.duration().as_secs(), e.duration().subsec_nanos()),
    }
}

impl DateTime<Utc> {
    /// The current date and time in UTC, read from the system clock. An
    /// instant outside the representable range (hundreds of millennia away)
    /// is clamped to the nearest representable year boundary.
    pub fn utc_now() -> (r: DateTime<Utc>)
        ensures
            r.wf(),
            r.time.nanosecond < 1_000_000_000,
            min_epoch_day() * 86_400_000_000_000 + 500_000_000_000_000 <= r.instant_nanos(),
            r.instant_nanos()
                < (max_epoch_day() + 1) * 86_400_000_000_000 - 500_000_000_000_000,
    {
        let (before_epoch, secs, nanos) = clock_now();
        let epoch = DateTime::unix_epoch();
        if before_epoch {
            if secs <= 1_000_000_000_000 {
                epoch.sub_duration(Duration::new(secs, nanos))
            } else {
                let date = Date { year: -32767, month: 1, day: 1 };
                DateTime { date, time: Time::midnight(), timezone: Utc }
            }
        } else {
            if secs <= 900_000_000_000 {
                epoch.add_duration(Duration::new(secs, nanos))
            } else {
                let date = Date { year: 32766, month: 12, day: 31 };
                DateTime { date, time: Time::midnight(), timezone: Utc }
            }
        }
    }
}

impl<Tz: TimeZone> DateTime<Tz> {
    /// The current day in the given zone, at midnight local time.
    pub fn today(timezone: Tz) -> (r: DateTime<Tz>)
        ensures
            r.wf(),
            r.timezone == timezone,
            r.time == (Time { hour: 0u8, minute: 0u8, second: 0u8, nanosecond: 0u32 }),
    {
        DateTime::utc_now().in_timezone(timezone).with_time(Time::midnight())
    }
}

} // verus!
