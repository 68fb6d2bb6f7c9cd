//! Combined date, time and timezone values.

use vstd::prelude::*;
use core::cmp::Ordering;
use crate::date::{Date, IsoWeekDate, Weekday};
use crate::error::Error;
use vstd::arithmetic::div_mod::{lemma_fundamental_div_mod, lemma_fundamental_div_mod_converse};
use crate::gregorian::{
    add_months_year, add_months_month, add_months_day, days_in_month, days_in_year,
    epoch_after_months, iso_year_of, iso_week_of, min_epoch_day, max_epoch_day,
    next_weekday_delta, prev_weekday_delta, valid_ymd, weekday_num_of_epoch, lemma_div_shift,
    lemma_epoch_of_in_range,
};
use crate::interval::Interval;
use crate::time::{Duration, Time, MAX_ARITHMETIC_SECS};
use crate::timezone::{TimeZone, Utc, UtcOffset, MAX_OFFSET_SECONDS};

verus! {

/// An ISO 8601 combined date and time carrying a timezone value.
///
/// The date and the time are the *local* (wall-clock) representation; the
/// zone supplies the UTC offset that fixes the physical instant the value
/// denotes. All "mutators" return new values.
#[derive(Debug, Clone, Copy, Hash)]
pub struct DateTime<Tz = Utc> where Tz: TimeZone {
    pub date: Date,
    pub time: Time,
    pub timezone: Tz,
}

impl<Tz: TimeZone> DateTime<Tz> {
    /// The date and the time are individually valid.
    pub open spec fn wf(self) -> bool {
        &&& self.date.wf()
        &&& self.time.wf()
    }

    /// The UTC offset, in seconds, the zone assigns to this local date-time.
    pub open spec fn offset_sec(self) -> int {
        self.timezone.spec_offset_seconds(self.date, self.time)
    }

    /// The local wall-clock value as whole seconds from the epoch, ignoring
    /// the zone (the nanosecond field is kept separate).
    pub open spec fn wall_sec(self) -> int {
        self.date.epoch() * 86400 + self.time.total_seconds_spec()
    }

    /// The local wall-clock value as nanoseconds from the epoch, ignoring the
    /// zone.
    pub open spec fn wall_nanos(self) -> int {
        self.date.epoch() * 86_400_000_000_000 + self.time.total_nanos_spec()
    }

    /// The physical instant the value denotes, as whole seconds from the
    /// epoch: the wall clock corrected by the zone's offset.
    pub open spec fn instant_sec(self) -> int {
        self.wall_sec() - self.offset_sec()
    }

    /// The physical instant as nanoseconds from the epoch.
    pub open spec fn instant_nanos(self) -> int {
        self.wall_nanos() - self.offset_sec() * 1_000_000_000
    }
}

impl DateTime<Utc> {
    /// The Unix epoch, 1970-01-01 00:00:00 UTC.
    pub fn unix_epoch() -> (r: DateTime<Utc>)
        ensures
            r.wf(),
            r.instant_nanos() == 0,
            r.wall_nanos() == 0,
            r.date == (Date { year: 1970i16, month: 1u8, day: 1u8 }),
            r.time.total_nanos_spec() == 0,
    {
        DateTime { date: Date::unix_epoch(), time: Time::midnight(), timezone: Utc }
    }

    /// Shifts the wall clock by the given offset, in place, without touching
    /// the zone. Offered only on UTC values: it converts a UTC instant into
    /// an offset's local frame without a round trip through a zone lookup.
    pub fn shift(&mut self, offset: UtcOffset)
        requires
            old(self).wf(),
            -MAX_OFFSET_SECONDS < offset.total_seconds_spec() < MAX_OFFSET_SECONDS,
            min_epoch_day() * 86_400_000_000_000
                <= old(self).wall_nanos() + offset.total_seconds_spec() * 1_000_000_000,
            old(self).wall_nanos() + offset.total_seconds_spec() * 1_000_000_000
                < (max_epoch_day() + 1) * 86_400_000_000_000,
        ensures
            final(self).wf(),
            final(self).time.nanosecond < 1_000_000_000,
            final(self).wall_nanos()
                == old(self).wall_nanos() + offset.total_seconds_spec() * 1_000_000_000,
    {
        let secs: i32 = offset.total_seconds();
        shift_in_place(self, secs as i64);
    }
}

/// Shifts the wall clock of a date-time by a bounded count of seconds,
/// carrying whole days into the date.
fn shift_in_place<Tz: TimeZone>(dt: &mut DateTime<Tz>, secs: i64)
    requires
        old(dt).wf(),
        -MAX_OFFSET_SECONDS < secs < MAX_OFFSET_SECONDS,
        min_epoch_day() * 86_400_000_000_000
            <= old(dt).wall_nanos() + secs * 1_000_000_000,
        old(dt).wall_nanos() + secs * 1_000_000_000
            < (max_epoch_day() + 1) * 86_400_000_000_000,
    ensures
        final(dt).wf(),
        final(dt).time.nanosecond < 1_000_000_000,
        final(dt).wall_nanos() == old(dt).wall_nanos() + secs * 1_000_000_000,
        final(dt).timezone == old(dt).timezone,
{
    let nanos: i64 = dt.time.total_nanos() as i64 + secs * 1_000_000_000;
    let (days, time) = Time::adjust_from_nanos(nanos);
    dt.date = dt.date.add_days(days);
    dt.time = time;
}

impl<Tz: TimeZone + Default> DateTime<Tz> {
    /// Creates a date-time at midnight of the given date, validating the
    /// date; the zone is the type's default value.
    pub fn new(year: i16, month: u8, day: u8) -> (r: Result<DateTime<Tz>, Error>)
        ensures
            r is Ok <==> valid_ymd(year as int, month as int, day as int),
            match r {
                Ok(dt) => {
                    &&& dt.wf()
                    &&& dt.date == (Date { year, month, day })
                    &&& dt.time == (Time { hour: 0u8, minute: 0u8, second: 0u8, nanosecond: 0u32 })
                },
                Err(e) => e == Error::DateOutOfRange,
            },
    {
        let date = Date::new(year, month, day)?;
        Ok(DateTime { date, time: Time::midnight(), timezone: Tz::default() })
    }
}

impl<Tz: TimeZone> DateTime<Tz> {
    /// Creates a date-time at midnight from a year, a 1-based ordinal day of
    /// that year, and a zone.
    pub fn from_ordinal(year: i16, ordinal: u16, timezone: Tz) -> (r: Result<DateTime<Tz>, Error>)
        ensures
            r is Ok <==> 1 <= ordinal <= days_in_year(year as int),
            match r {
                Ok(dt) => {
                    &&& dt.wf()
                    &&& dt.date.year == year
                    &&& dt.date.ordinal_spec() == ordinal
                    &&& dt.time == (Time { hour: 0u8, minute: 0u8, second: 0u8, nanosecond: 0u32 })
                    &&& dt.timezone == timezone
                },
                Err(e) => e == Error::DateOutOfRange,
            },
    {
        let date = Date::from_ordinal(year, ordinal)?;
        Ok(DateTime { date, time: Time::midnight(), timezone })
    }

    /// A reference to the time component.
    pub fn time(&self) -> (r: &Time)
        ensures
            r == self.time,
    {
        &self.time
    }

    /// A reference to the date component.
    pub fn date(&self) -> (r: &Date)
        ensures
            r == self.date,
    {
        &self.date
    }

    /// A mutable reference to the time component: what the caller writes
    /// through it becomes the new time; date and zone are untouched.
    pub fn time_mut(&mut self) -> (r: &mut Time)
        ensures
            *r == old(self).time,
            final(self).time == *final(r),
            final(self).date == old(self).date,
            final(self).timezone == old(self).timezone,
    {
        &mut self.time
    }

    /// A mutable reference to the date component: what the caller writes
    /// through it becomes the new date; time and zone are untouched.
    pub fn date_mut(&mut self) -> (r: &mut Date)
        ensures
            *r == old(self).date,
            final(self).date == *final(r),
            final(self).time == old(self).time,
            final(self).timezone == old(self).timezone,
    {
        &mut self.date
    }

    /// A mutable reference to the timezone value: what the caller writes
    /// through it becomes the new zone; date and time are untouched.
    pub fn timezone_mut(&mut self) -> (r: &mut Tz)
        ensures
            *r == old(self).timezone,
            final(self).timezone == *final(r),
            final(self).date == old(self).date,
            final(self).time == old(self).time,
    {
        &mut self.timezone
    }

    /// A reference to the timezone value.
    pub fn timezone(&self) -> (r: &Tz)
        ensures
            r == self.timezone,
    {
        &self.timezone
    }

    /// Replaces the time component. No timezone conversion happens.
    pub fn with_time(self, time: Time) -> (r: Self)
        ensures
            r == (DateTime { time, ..self }),
    {
        DateTime { time, ..self }
    }

    /// Replaces the date component. No timezone conversion happens.
    pub fn with_date(self, date: Date) -> (r: Self)
        ensures
            r == (DateTime { date, ..self }),
    {
        DateTime { date, ..self }
    }

    /// Relabels the zone only: the date and time fields are untouched, so the
    /// physical instant generally changes. Use [`DateTime::in_timezone`] to
    /// convert while preserving the instant.
    pub fn with_timezone<OtherTz: TimeZone>(self, timezone: OtherTz) -> (r: DateTime<OtherTz>)
        ensures
            r.date == self.date,
            r.time == self.time,
            r.timezone == timezone,
    {
        DateTime { date: self.date, time: self.time, timezone }
    }

    /// Compares two date-times by their local wall clocks alone, ignoring
    /// both zones: lexicographic on (date, time).
    pub fn cmp_without_tz<OtherTz: TimeZone>(&self, other: &DateTime<OtherTz>) -> (r: Ordering)
        requires
            self.wf(),
            other.wf(),
        ensures
            r == Ordering::Less <==> (self.wall_sec() < other.wall_sec()
                || (self.wall_sec() == other.wall_sec()
                    && self.time.nanosecond < other.time.nanosecond)),
            r == Ordering::Equal <==> (self.wall_sec() == other.wall_sec()
                && self.time.nanosecond == other.time.nanosecond),
    {
        let e1: i32 = self.date.epoch_days();
        let e2: i32 = other.date.epoch_days();
        let t1: u32 = self.time.total_seconds();
        let t2: u32 = other.time.total_seconds();
        let n1: u32 = self.time.nanosecond();
        let n2: u32 = other.time.nanosecond();
        if e1 < e2 {
            Ordering::Less
        } else if e1 > e2 {
            Ordering::Greater
        } else if t1 < t2 {
            Ordering::Less
        } else if t1 > t2 {
            Ordering::Greater
        } else if n1 < n2 {
            Ordering::Less
        } else if n1 > n2 {
            Ordering::Greater
        } else {
            Ordering::Equal
        }
    }

    /// Compares two date-times, of possibly different zone types, by the
    /// physical instant each denotes, without materializing UTC values.
    ///
    /// When the two offsets are equal the order is fully lexicographic, the
    /// nanosecond field included. When they differ, whole instant seconds
    /// decide; two values whose instants agree to the second but whose
    /// nanosecond fields differ compare `Greater` in either direction.
    pub fn cmp_cross_timezone<OtherTz: TimeZone>(&self, other: &DateTime<OtherTz>) -> (r: Ordering)
        requires
            self.wf(),
            other.wf(),
        ensures
            r == Ordering::Less <==> (self.instant_sec() < other.instant_sec()
                || (self.instant_sec() == other.instant_sec()
                    && self.offset_sec() == other.offset_sec()
                    && self.time.nanosecond < other.time.nanosecond)),
            r == Ordering::Equal <==> (self.instant_sec() == other.instant_sec()
                && self.time.nanosecond == other.time.nanosecond),
    {
        proof {
            self.timezone.offset_bounded(self.date, self.time);
            other.timezone.offset_bounded(other.date, other.time);
        }
        let o1: i32 = self.timezone.offset(&self.date, &self.time).total_seconds();
        let o2: i32 = other.timezone.offset(&other.date, &other.time).total_seconds();
        if o1 == o2 {
            return self.cmp_without_tz(other);
        }
        // The dates differ by whole days; fold the time and offset difference
        // (strictly less than a day times a small factor) into that count by
        // one floored division.
        let days: i64 = self.date.epoch_days() as i64 - other.date.epoch_days() as i64;
        let seconds: i64 = self.time.total_seconds() as i64 - other.time.total_seconds() as i64
            + (o2 as i64 - o1 as i64);
        proof {
            lemma_div_shift(seconds as int, 86400, 13);
        }
        let ss: u64 = (seconds + 1_123_200) as u64;
        let d: i64 = (ss / 86400) as i64 - 13;
        let rem: u64 = ss % 86400;
        let total_days: i64 = days + d;
        proof {
            lemma_fundamental_div_mod(seconds as int, 86400);
            assert(self.instant_sec() - other.instant_sec() == 86400 * total_days + rem);
        }
        if total_days < 0 {
            Ordering::Less
        } else if total_days == 0 && rem == 0 && self.time.nanosecond() == other.time.nanosecond() {
            Ordering::Equal
        } else {
            Ordering::Greater
        }
    }

    /// The same instant expressed in UTC: queries the zone's offset at the
    /// local time and shifts it out.
    pub fn into_utc(self) -> (r: DateTime<Utc>)
        requires
            self.wf(),
            min_epoch_day() * 86_400_000_000_000 <= self.instant_nanos(),
            self.instant_nanos() < (max_epoch_day() + 1) * 86_400_000_000_000,
        ensures
            r.wf(),
            r.time.nanosecond < 1_000_000_000,
            r.instant_nanos() == self.instant_nanos(),
            r.wall_nanos() == self.instant_nanos(),
    {
        proof {
            self.timezone.offset_bounded(self.date, self.time);
        }
        let off: i32 = self.timezone.offset(&self.date, &self.time).total_seconds();
        let mut utc: DateTime<Utc> = DateTime {
            date: self.date,
            time: self.time,
            timezone: Utc,
        };
        let neg: i64 = 0 - off as i64;
        shift_in_place(&mut utc, neg);
        utc
    }

    /// The same instant expressed in the given zone's local frame.
    pub fn in_timezone<OtherTz: TimeZone>(self, timezone: OtherTz) -> (r: DateTime<OtherTz>)
        requires
            self.wf(),
            min_epoch_day() * 86_400_000_000_000 + 500_000_000_000_000 <= self.instant_nanos(),
            self.instant_nanos()
                < (max_epoch_day() + 1) * 86_400_000_000_000 - 500_000_000_000_000,
        ensures
            r.wf(),
            r.time.nanosecond < 1_000_000_000,
            r.timezone == timezone,
            r.instant_nanos() == self.instant_nanos(),
    {
        let utc = self.into_utc();
        let off = timezone.offset_at_utc(&utc.date, &utc.time);
        let mut shifted: DateTime<Utc> = utc;
        let offs: i32 = off.total_seconds();
        shift_in_place(&mut shifted, offs as i64);
        let r = DateTime { date: shifted.date, time: shifted.time, timezone };
        proof {
            assert(timezone.spec_offset_seconds(r.date, r.time) == off.total_seconds_spec());
        }
        r
    }

    /// Adds a fixed physical duration to the wall clock, carrying across the
    /// day boundary; the zone label is kept and not re-resolved.
    pub fn add_duration(self, duration: Duration) -> (r: Self)
        requires
            self.wf(),
            duration.wf(),
            duration.secs <= MAX_ARITHMETIC_SECS,
            min_epoch_day() * 86_400_000_000_000
                <= self.wall_nanos() + duration.total_nanos(),
            self.wall_nanos() + duration.total_nanos()
                < (max_epoch_day() + 1) * 86_400_000_000_000,
        ensures
            r.wf(),
            r.time.nanosecond < 1_000_000_000,
            r.timezone == self.timezone,
            r.wall_nanos() == self.wall_nanos() + duration.total_nanos(),
    {
        let (days, time) = self.time.add_with_duration(duration);
        DateTime { date: self.date.add_days(days), time, timezone: self.timezone }
    }

    /// Subtracts a fixed physical duration from the wall clock, borrowing
    /// across the day boundary; the zone label is kept.
    pub fn sub_duration(self, duration: Duration) -> (r: Self)
        requires
            self.wf(),
            duration.wf(),
            duration.secs <= MAX_ARITHMETIC_SECS,
            min_epoch_day() * 86_400_000_000_000
                <= self.wall_nanos() - duration.total_nanos(),
            self.wall_nanos() - duration.total_nanos()
                < (max_epoch_day() + 1) * 86_400_000_000_000,
        ensures
            r.wf(),
            r.time.nanosecond < 1_000_000_000,
            r.timezone == self.timezone,
            r.wall_nanos() == self.wall_nanos() - duration.total_nanos(),
    {
        let (days, time) = self.time.sub_with_duration(duration);
        DateTime { date: self.date.add_days(days), time, timezone: self.timezone }
    }
}

impl<Tz: TimeZone> DateTime<Tz> {
    /// The wall clock, in nanoseconds from the epoch, reached by adding an
    /// interval: the month shift (with day clamping) first, then the whole
    /// days, then the signed sub-day duration.
    pub open spec fn wall_after_interval(self, interval: Interval) -> int {
        epoch_after_months(
            self.date.year as int,
            self.date.month as int,
            self.date.day as int,
            interval.months as int,
        ) * 86_400_000_000_000 + interval.days * 86_400_000_000_000
            + self.time.total_nanos_spec() + interval.signed_dur_nanos()
    }

    /// The wall clock reached by subtracting an interval: each component is
    /// applied with its sign reversed.
    pub open spec fn wall_after_interval_neg(self, interval: Interval) -> int {
        epoch_after_months(
            self.date.year as int,
            self.date.month as int,
            self.date.day as int,
            -(interval.months as int),
        ) * 86_400_000_000_000 - interval.days * 86_400_000_000_000
            + self.time.total_nanos_spec() - interval.signed_dur_nanos()
    }

    /// Adds a calendar-relative interval: the month component moves the date
    /// (clamping the day to the target month), then the day component and the
    /// signed sub-day duration shift the wall clock with carry. The zone
    /// label is kept.
    pub fn add_interval(self, interval: Interval) -> (r: Self)
        requires
            self.wf(),
            interval.duration.wf(),
            interval.duration.secs <= MAX_ARITHMETIC_SECS,
            -32768 <= add_months_year(
                self.date.year as int,
                self.date.month as int,
                interval.months as int,
            ) <= 32767,
            min_epoch_day() * 86_400_000_000_000 <= self.wall_after_interval(interval),
            self.wall_after_interval(interval) < (max_epoch_day() + 1) * 86_400_000_000_000,
        ensures
            r.wf(),
            r.time.nanosecond < 1_000_000_000,
            r.timezone == self.timezone,
            r.wall_nanos() == self.wall_after_interval(interval),
    {
        let (sub, duration) = interval.get_time_duration();
        let (carry, time) = if sub {
            self.time.sub_with_duration(duration)
        } else {
            self.time.add_with_duration(duration)
        };
        let shifted: Date = self.date.add_months(interval.months);
        proof {
            lemma_epoch_of_in_range(
                shifted.year as int, shifted.month as int, shifted.day as int,
            );
        }
        let days: i32 = interval.days + carry;
        DateTime { date: shifted.add_days(days), time, timezone: self.timezone }
    }

    /// Subtracts a calendar-relative interval: each component is applied with
    /// its sign reversed, the month shift (with day clamping from the current
    /// date) first. Because of the clamping, subtraction does not always undo
    /// an addition of the same interval when a month shift clamped the day.
    pub fn sub_interval(self, interval: Interval) -> (r: Self)
        requires
            self.wf(),
            interval.duration.wf(),
            interval.duration.secs <= MAX_ARITHMETIC_SECS,
            interval.months > i32::MIN,
            interval.days > i32::MIN,
            -32768 <= add_months_year(
                self.date.year as int,
                self.date.month as int,
                -(interval.months as int),
            ) <= 32767,
            min_epoch_day() * 86_400_000_000_000 <= self.wall_after_interval_neg(interval),
            self.wall_after_interval_neg(interval) < (max_epoch_day() + 1) * 86_400_000_000_000,
        ensures
            r.wf(),
            r.time.nanosecond < 1_000_000_000,
            r.timezone == self.timezone,
            r.wall_nanos() == self.wall_after_interval_neg(interval),
    {
        let (sub, duration) = interval.get_time_duration();
        let (carry, time) = if sub {
            self.time.add_with_duration(duration)
        } else {
            self.time.sub_with_duration(duration)
        };
        let shifted: Date = self.date.add_months(-interval.months);
        proof {
            lemma_epoch_of_in_range(
                shifted.year as int, shifted.month as int, shifted.day as int,
            );
        }
        let days: i32 = -interval.days + carry;
        DateTime { date: shifted.add_days(days), time, timezone: self.timezone }
    }

    /// Creates a date-time from a POSIX timestamp in seconds, a nanosecond
    /// part, and a zone: the instant is built in UTC and then expressed in
    /// the zone's local frame.
    pub fn from_timestamp(secs: i64, nanos: u32, timezone: Tz) -> (r: Result<DateTime<Tz>, Error>)
        requires
            min_epoch_day() * 86_400_000_000_000 + 500_000_000_000_000 <= secs * 1_000_000_000,
            secs * 1_000_000_000 + 2_000_000_000
                < (max_epoch_day() + 1) * 86_400_000_000_000 - 500_000_000_000_000,
        ensures
            r is Ok <==> nanos < 2_000_000_000,
            match r {
                Ok(dt) => {
                    &&& dt.wf()
                    &&& dt.timezone == timezone
                    &&& dt.instant_nanos() == secs * 1_000_000_000 + nanos
                },
                Err(e) => e == Error::TimeOutOfRange,
            },
    {
        let epoch = DateTime::unix_epoch();
        let base = epoch.add_interval(Interval::from_seconds(secs));
        proof {
            lemma_fundamental_div_mod_converse(
                base.wall_nanos(),
                1_000_000_000,
                base.date.epoch() * 86400 + base.time.total_seconds_spec(),
                base.time.nanosecond as int,
            );
            lemma_fundamental_div_mod_converse(secs * 1_000_000_000, 1_000_000_000, secs as int, 0);
            assert(base.time.nanosecond == 0);
        }
        let with_ns = base.with_nanosecond(nanos)?;
        Ok(with_ns.in_timezone(timezone))
    }

    /// The physical instant as signed nanoseconds since the Unix epoch.
    pub fn timestamp_nanos(&self) -> (r: i128)
        requires
            self.wf(),
        ensures
            r == self.instant_nanos(),
    {
        proof {
            self.timezone.offset_bounded(self.date, self.time);
        }
        let off: i32 = self.timezone.offset(&self.date, &self.time).total_seconds();
        self.date.epoch_days() as i128 * 86_400_000_000_000 + self.time.total_nanos() as i128
            - off as i128 * 1_000_000_000
    }

    /// The POSIX timestamp in whole seconds (the sub-second part is truncated
    /// toward zero).
    pub fn timestamp(&self) -> (r: i64)
        requires
            self.wf(),
        ensures
            self.instant_nanos() >= 0 ==> r == self.instant_nanos() / 1_000_000_000,
            self.instant_nanos() < 0 ==> r == -((-self.instant_nanos()) / 1_000_000_000),
    {
        let epoch = DateTime::unix_epoch();
        let interval = crate::interval::Interval::days_between(&epoch, self);
        let r = interval.total_seconds_from_days();
        proof {
            let d = self.instant_nanos();
            let sd = interval.signed_dur_nanos();
            let dur = interval.duration;
            lemma_fundamental_div_mod(dur.total_nanos(), 1_000_000_000);
            if d >= 0 {
                lemma_fundamental_div_mod_converse(
                    d,
                    1_000_000_000,
                    interval.days * 86400 + dur.secs,
                    dur.nanos as int,
                );
            } else {
                lemma_fundamental_div_mod_converse(
                    -d,
                    1_000_000_000,
                    -(interval.days * 86400) + dur.secs,
                    dur.nanos as int,
                );
            }
        }
        r
    }

    /// The POSIX timestamp in whole milliseconds (the sub-millisecond part is
    /// truncated toward zero).
    pub fn timestamp_millis(&self) -> (r: i64)
        requires
            self.wf(),
        ensures
            self.instant_nanos() >= 0 ==> r == self.instant_nanos() / 1_000_000,
            self.instant_nanos() < 0 ==> r == -((-self.instant_nanos()) / 1_000_000),
    {
        let epoch = DateTime::unix_epoch();
        let interval = crate::interval::Interval::days_between(&epoch, self);
        let r = interval.total_milliseconds_from_days();
        proof {
            let d = self.instant_nanos();
            let dur = interval.duration;
            lemma_fundamental_div_mod(dur.total_nanos(), 1_000_000);
            lemma_fundamental_div_mod(dur.nanos as int, 1_000_000);
            assert(dur.total_nanos() / 1_000_000 == dur.secs * 1000 + dur.nanos as int
                / 1_000_000) by {
                lemma_fundamental_div_mod_converse(
                    dur.total_nanos(),
                    1_000_000,
                    dur.secs * 1000 + dur.nanos as int / 1_000_000,
                    dur.nanos as int % 1_000_000,
                );
            }
            if d >= 0 {
                lemma_fundamental_div_mod_converse(
                    d,
                    1_000_000,
                    interval.days * 86_400_000 + dur.total_nanos() / 1_000_000,
                    dur.nanos as int % 1_000_000,
                );
            } else {
                lemma_fundamental_div_mod_converse(
                    -d,
                    1_000_000,
                    -(interval.days * 86_400_000) + dur.total_nanos() / 1_000_000,
                    dur.nanos as int % 1_000_000,
                );
            }
        }
        r
    }

    /// Moves the date component by whole months, clamping the day to the
    /// target month's length.
    fn add_months(self, months: i32) -> (r: Self)
        requires
            self.wf(),
            -32768 <= add_months_year(
                self.date.year as int,
                self.date.month as int,
                months as int,
            ) <= 32767,
        ensures
            r.wf(),
            r.time == self.time,
            r.timezone == self.timezone,
            r.date.year == add_months_year(self.date.year as int, self.date.month as int, months as int),
            r.date.month == add_months_month(self.date.year as int, self.date.month as int, months as int),
            r.date.day == add_months_day(
                self.date.year as int,
                self.date.month as int,
                self.date.day as int,
                months as int,
            ),
    {
        DateTime { date: self.date.add_months(months), ..self }
    }

    /// The year; year 0 is 1 BCE.
    pub fn year(&self) -> (r: i16)
        ensures
            r == self.date.year,
    {
        self.date.year
    }

    /// The month, within `1..=12`.
    pub fn month(&self) -> (r: u8)
        ensures
            r == self.date.month,
    {
        self.date.month
    }

    /// The day of the month, within `1..=31`.
    pub fn day(&self) -> (r: u8)
        ensures
            r == self.date.day,
    {
        self.date.day
    }

    /// The day of the year, 1-based.
    pub fn ordinal(&self) -> (r: u16)
        requires
            self.wf(),
        ensures
            r == self.date.ordinal_spec(),
    {
        self.date.ordinal()
    }

    /// The day of the week.
    pub fn weekday(&self) -> (r: Weekday)
        requires
            self.wf(),
        ensures
            r.monday_index() == weekday_num_of_epoch(self.date.epoch()),
    {
        self.date.weekday()
    }

    /// Moves to the next date that falls on the given weekday, keeping the
    /// time; a date already on that weekday advances a full week.
    pub fn next_weekday(self, weekday: Weekday) -> (r: Self)
        requires
            self.wf(),
            self.date.epoch() + 7 <= max_epoch_day(),
        ensures
            r.wf(),
            r.time == self.time,
            r.timezone == self.timezone,
            r.date.epoch() == self.date.epoch()
                + next_weekday_delta(self.date.epoch(), weekday.monday_index()),
            weekday_num_of_epoch(r.date.epoch()) == weekday.monday_index(),
    {
        DateTime { date: self.date.next_weekday(weekday), ..self }
    }

    /// Moves to the previous date that fell on the given weekday, keeping the
    /// time; a date already on that weekday goes back a full week.
    pub fn prev_weekday(self, weekday: Weekday) -> (r: Self)
        requires
            self.wf(),
            min_epoch_day() <= self.date.epoch() - 7,
        ensures
            r.wf(),
            r.time == self.time,
            r.timezone == self.timezone,
            r.date.epoch() == self.date.epoch()
                - prev_weekday_delta(self.date.epoch(), weekday.monday_index()),
            weekday_num_of_epoch(r.date.epoch()) == weekday.monday_index(),
    {
        DateTime { date: self.date.prev_weekday(weekday), ..self }
    }

    /// The ISO 8601 week date of the date component.
    pub fn iso_week(&self) -> (r: IsoWeekDate)
        requires
            self.wf(),
            -32768 <= iso_year_of(
                self.date.year as int,
                self.date.month as int,
                self.date.day as int,
            ) <= 32767,
        ensures
            r.year == iso_year_of(self.date.year as int, self.date.month as int, self.date.day as int),
            r.week == iso_week_of(self.date.year as int, self.date.month as int, self.date.day as int),
            r.weekday.monday_index() == weekday_num_of_epoch(self.date.epoch()),
    {
        self.date.iso_week()
    }

    /// Replaces the year of the date component, clamping February 29th to
    /// February 28th when the target year is not a leap year.
    pub fn with_year(self, year: i16) -> (r: Self)
        requires
            self.wf(),
        ensures
            r.wf(),
            r.time == self.time,
            r.timezone == self.timezone,
            r.date.year == year,
            r.date.month == self.date.month,
            r.date.day == if self.date.day <= days_in_month(year as int, self.date.month as int) {
                self.date.day as int
            } else {
                days_in_month(year as int, self.date.month as int)
            },
    {
        DateTime { date: self.date.with_year(year), ..self }
    }

    /// Replaces the month, validating that the current day exists in it.
    pub fn with_month(self, month: u8) -> (r: Result<Self, Error>)
        requires
            self.wf(),
        ensures
            r is Ok <==> (1 <= month <= 12
                && self.date.day <= days_in_month(self.date.year as int, month as int)),
            match r {
                Ok(dt) => dt == (DateTime { date: Date { month, ..self.date }, ..self }),
                Err(e) => e == Error::DateOutOfRange,
            },
    {
        let date = self.date.with_month(month)?;
        Ok(DateTime { date, ..self })
    }

    /// Replaces the day of month, validating it against the current month.
    pub fn with_day(self, day: u8) -> (r: Result<Self, Error>)
        requires
            self.wf(),
        ensures
            r is Ok <==> 1 <= day <= days_in_month(self.date.year as int, self.date.month as int),
            match r {
                Ok(dt) => dt == (DateTime { date: Date { day, ..self.date }, ..self }),
                Err(e) => e == Error::DateOutOfRange,
            },
    {
        let date = self.date.with_day(day)?;
        Ok(DateTime { date, ..self })
    }

    /// The hour, within `0..24`.
    pub fn hour(&self) -> (r: u8)
        ensures
            r == self.time.hour,
    {
        self.time.hour
    }

    /// The minute, within `0..60`.
    pub fn minute(&self) -> (r: u8)
        ensures
            r == self.time.minute,
    {
        self.time.minute
    }

    /// The second, within `0..60`.
    pub fn second(&self) -> (r: u8)
        ensures
            r == self.time.second,
    {
        self.time.second
    }

    /// The millisecond part of the sub-second field.
    pub fn millisecond(&self) -> (r: u16)
        requires
            self.wf(),
        ensures
            r == self.time.nanosecond as int / 1_000_000,
    {
        self.time.millisecond()
    }

    /// The microsecond part of the sub-second field.
    pub fn microsecond(&self) -> (r: u32)
        requires
            self.wf(),
        ensures
            r == self.time.nanosecond as int / 1_000,
    {
        self.time.microsecond()
    }

    /// The nanosecond within the second, within `0..2_000_000_000`.
    pub fn nanosecond(&self) -> (r: u32)
        ensures
            r == self.time.nanosecond,
    {
        self.time.nanosecond
    }

    /// Replaces the hour, validating its bound. No timezone conversion.
    pub fn with_hour(self, hour: u8) -> (r: Result<Self, Error>)
        ensures
            r is Ok <==> hour < 24,
            match r {
                Ok(dt) => dt == (DateTime { time: Time { hour, ..self.time }, ..self }),
                Err(e) => e == Error::TimeOutOfRange,
            },
    {
        let time = self.time.with_hour(hour)?;
        Ok(DateTime { time, ..self })
    }

    /// Replaces the minute, validating its bound. No timezone conversion.
    pub fn with_minute(self, minute: u8) -> (r: Result<Self, Error>)
        ensures
            r is Ok <==> minute < 60,
            match r {
                Ok(dt) => dt == (DateTime { time: Time { minute, ..self.time }, ..self }),
                Err(e) => e == Error::TimeOutOfRange,
            },
    {
        let time = self.time.with_minute(minute)?;
        Ok(DateTime { time, ..self })
    }

    /// Replaces the second, validating its bound. No timezone conversion.
    pub fn with_second(self, second: u8) -> (r: Result<Self, Error>)
        ensures
            r is Ok <==> second < 60,
            match r {
                Ok(dt) => dt == (DateTime { time: Time { second, ..self.time }, ..self }),
                Err(e) => e == Error::TimeOutOfRange,
            },
    {
        let time = self.time.with_second(second)?;
        Ok(DateTime { time, ..self })
    }

    /// Replaces the sub-second field with a millisecond count.
    pub fn with_millisecond(self, millisecond: u16) -> (r: Result<Self, Error>)
        ensures
            r is Ok <==> millisecond < 1000,
            match r {
                Ok(dt) => dt == (DateTime {
                    time: Time { nanosecond: (millisecond * 1_000_000) as u32, ..self.time },
                    ..self
                }),
                Err(e) => e == Error::TimeOutOfRange,
            },
    {
        let time = self.time.with_millisecond(millisecond)?;
        Ok(DateTime { time, ..self })
    }

    /// Replaces the sub-second field with a microsecond count.
    pub fn with_microsecond(self, microsecond: u32) -> (r: Result<Self, Error>)
        ensures
            r is Ok <==> microsecond < 1_000_000,
            match r {
                Ok(dt) => dt == (DateTime {
                    time: Time { nanosecond: (microsecond * 1_000) as u32, ..self.time },
                    ..self
                }),
                Err(e) => e == Error::TimeOutOfRange,
            },
    {
        let time = self.time.with_microsecond(microsecond)?;
        Ok(DateTime { time, ..self })
    }

    /// Replaces the nanosecond field, validating its bound.
    pub fn with_nanosecond(self, nanosecond: u32) -> (r: Result<Self, Error>)
        ensures
            r is Ok <==> nanosecond < 2_000_000_000,
            match r {
                Ok(dt) => dt == (DateTime {
                    time: Time { nanosecond, ..self.time },
                    ..self
                }),
                Err(e) => e == Error::TimeOutOfRange,
            },
    {
        let time = self.time.with_nanosecond(nanosecond)?;
        Ok(DateTime { time, ..self })
    }
}

/// Interval arithmetic round-trips for intervals without a month component:
/// adding such an interval and then subtracting the same interval returns the
/// original value, for values whose sub-second field is normalized below one
/// second. (With a month component the round trip can fail when the month
/// shift clamps the day of month; the leap-second representation likewise
/// does not survive the normalization the arithmetic performs.)
pub proof fn lemma_add_sub_interval_round_trip<Tz: TimeZone>(
    dt: DateTime<Tz>,
    interval: Interval,
    r1: DateTime<Tz>,
    r2: DateTime<Tz>,
)
    requires
        dt.wf(),
        r1.wf(),
        r2.wf(),
        dt.time.nanosecond < 1_000_000_000,
        r1.time.nanosecond < 1_000_000_000,
        r2.time.nanosecond < 1_000_000_000,
        interval.months == 0,
        r1.wall_nanos() == dt.wall_after_interval(interval),
        r2.wall_nanos() == r1.wall_after_interval_neg(interval),
        r1.timezone == dt.timezone,
        r2.timezone == r1.timezone,
    ensures
        r2 == dt,
{
    crate::gregorian::lemma_add_months_zero(
        dt.date.year as int, dt.date.month as int, dt.date.day as int,
    );
    crate::gregorian::lemma_add_months_zero(
        r1.date.year as int, r1.date.month as int, r1.date.day as int,
    );
    assert(r2.wall_nanos() == dt.wall_nanos());
    lemma_fundamental_div_mod_converse(
        dt.wall_nanos(),
        86_400_000_000_000,
        dt.date.epoch(),
        dt.time.total_nanos_spec(),
    );
    lemma_fundamental_div_mod_converse(
        r2.wall_nanos(),
        86_400_000_000_000,
        r2.date.epoch(),
        r2.time.total_nanos_spec(),
    );
    crate::date::lemma_epoch_days_round_trip(r2.date, dt.date);
    crate::time::lemma_time_total_nanos_injective(r2.time, dt.time);
}

} // verus!
