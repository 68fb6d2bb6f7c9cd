//! Proleptic-Gregorian calendar dates.

use vstd::prelude::*;
use vstd::arithmetic::div_mod::lemma_fundamental_div_mod;
use crate::error::Error;
use crate::gregorian::{
    is_leap_year, days_in_year, days_in_month, days_before_month, ordinal_of, leap_count,
    days_before_year, epoch_of, valid_ymd, min_epoch_day, max_epoch_day, weekday_num_of_epoch,
    add_months_year, add_months_month, add_months_day,
    next_weekday_delta, prev_weekday_delta, iso_weeks_in_year, iso_year_of, iso_week_of,
    lemma_div_shift, lemma_leap_count_shift, lemma_days_before_year_step,
    lemma_days_before_year_mono, lemma_days_before_month_step, lemma_ordinal_bounds,
    lemma_ordinal_injective, lemma_epoch_of_injective, lemma_epoch_of_in_range,
    lemma_next_weekday_delta, lemma_prev_weekday_delta,
};

verus! {

/// A day of the week.
#[derive(Debug, Clone, Copy, PartialEq, Eq, Structural, Hash)]
pub enum Weekday {
    Monday,
    Tuesday,
    Wednesday,
    Thursday,
    Friday,
    Saturday,
    Sunday,
}

impl Weekday {
    /// The zero-based index of the weekday, Monday = 0 .. Sunday = 6.
    pub open spec fn monday_index(self) -> int {
        match self {
            Weekday::Monday => 0,
            Weekday::Tuesday => 1,
            Weekday::Wednesday => 2,
            Weekday::Thursday => 3,
            Weekday::Friday => 4,
            Weekday::Saturday => 5,
            Weekday::Sunday => 6,
        }
    }

    /// The ISO weekday number, Monday = 1 .. Sunday = 7.
    pub fn number_from_monday(self) -> (r: u8)
        ensures
            r == self.monday_index() + 1,
    {
        match self {
            Weekday::Monday => 1,
            Weekday::Tuesday => 2,
            Weekday::Wednesday => 3,
            Weekday::Thursday => 4,
            Weekday::Friday => 5,
            Weekday::Saturday => 6,
            Weekday::Sunday => 7,
        }
    }

    /// The weekday number counted from Sunday, Sunday = 1 .. Saturday = 7.
    pub fn number_from_sunday(self) -> (r: u8)
        ensures
            r == (self.monday_index() + 1) % 7 + 1,
    {
        match self {
            Weekday::Monday => 2,
            Weekday::Tuesday => 3,
            Weekday::Wednesday => 4,
            Weekday::Thursday => 5,
            Weekday::Friday => 6,
            Weekday::Saturday => 7,
            Weekday::Sunday => 1,
        }
    }
}

/// The weekday with the given Monday-based index.
fn weekday_from_num(n: u64) -> (r: Weekday)
    requires
        n < 7,
    ensures
        r.monday_index() == n,
{
    if n == 0 { Weekday::Monday }
    else if n == 1 { Weekday::Tuesday }
    else if n == 2 { Weekday::Wednesday }
    else if n == 3 { Weekday::Thursday }
    else if n == 4 { Weekday::Friday }
    else if n == 5 { Weekday::Saturday }
    else { Weekday::Sunday }
}

/// An ISO 8601 week date: week-numbering year, week number and weekday.
///
/// The ISO year of a date can differ from its Gregorian year when the date
/// falls in the first or the last ISO week of a year (first-Thursday rule).
#[derive(Debug, Clone, Copy, PartialEq, Eq, Structural, Hash)]
pub struct IsoWeekDate {
    pub year: i16,
    pub week: u8,
    pub weekday: Weekday,
}

impl IsoWeekDate {
    /// The ISO week-numbering year.
    pub fn year(&self) -> (r: i16)
        ensures
            r == self.year,
    {
        self.year
    }

    /// The ISO week number, within `1..=53`.
    pub fn week(&self) -> (r: u8)
        ensures
            r == self.week,
    {
        self.week
    }

    /// The day of the week.
    pub fn weekday(&self) -> (r: Weekday)
        ensures
            r == self.weekday,
    {
        self.weekday
    }
}

/// A calendar date in the proleptic Gregorian calendar.
///
/// Every function of the crate that consumes a `Date` requires it to be
/// well-formed ([`Date::wf`]): the date exists in the calendar. The validated
/// constructors establish this and every operation preserves it.
#[derive(Debug, Clone, Copy, PartialEq, Eq, Structural, Hash)]
pub struct Date {
    pub year: i16,
    pub month: u8,
    pub day: u8,
}

impl Date {
    /// The date exists in the proleptic Gregorian calendar.
    pub open spec fn wf(self) -> bool {
        valid_ymd(self.year as int, self.month as int, self.day as int)
    }

    /// The signed count of days between this date and 1970-01-01.
    pub open spec fn epoch(self) -> int {
        epoch_of(self.year as int, self.month as int, self.day as int)
    }

    /// The day of the year, 1-based.
    pub open spec fn ordinal_spec(self) -> int {
        ordinal_of(self.year as int, self.month as int, self.day as int)
    }
}

/// Whether `y` is a leap year.
fn leap_year_i64(y: i64) -> (r: bool)
    requires
        -40000 <= y <= 100000,
    ensures
        r == is_leap_year(y as int),
{
    proof {
        lemma_div_shift(y as int, 4, 10000);
        lemma_div_shift(y as int, 100, 400);
        lemma_div_shift(y as int, 400, 100);
    }
    let y0: u64 = (y + 40000) as u64;
    (y0 % 4 == 0 && y0 % 100 != 0) || y0 % 400 == 0
}

/// Days of year `y` before the first of month `m`; `m == 13` gives the year
/// length.
fn days_before_month_of(y: i64, m: u8) -> (r: u16)
    requires
        -40000 <= y <= 100000,
        1 <= m <= 13,
    ensures
        r == days_before_month(y as int, m as int),
{
    let leap: bool = leap_year_i64(y);
    let base: u16 = if m <= 1 { 0 }
        else if m == 2 { 31 }
        else if m == 3 { 59 }
        else if m == 4 { 90 }
        else if m == 5 { 120 }
        else if m == 6 { 151 }
        else if m == 7 { 181 }
        else if m == 8 { 212 }
        else if m == 9 { 243 }
        else if m == 10 { 273 }
        else if m == 11 { 304 }
        else if m == 12 { 334 }
        else { 365 };
    if m > 2 && leap { base + 1 } else { base }
}

/// The number of days in month `m` of year `y`.
fn days_in_month_of(y: i64, m: u8) -> (r: u8)
    requires
        -40000 <= y <= 100000,
        1 <= m <= 12,
    ensures
        r == days_in_month(y as int, m as int),
{
    if m == 2 {
        if leap_year_i64(y) { 29 } else { 28 }
    } else if m == 4 || m == 6 || m == 9 || m == 11 {
        30
    } else {
        31
    }
}

/// The number of days in year `y`.
fn days_in_year_of(y: i64) -> (r: u64)
    requires
        -40000 <= y <= 100000,
    ensures
        r == days_in_year(y as int),
{
    if leap_year_i64(y) { 366 } else { 365 }
}

/// The epoch day number of January 1st of year `y`.
fn days_before_year_of(y: i64) -> (r: i64)
    requires
        -33000 <= y <= 33000,
    ensures
        r == days_before_year(y as int),
{
    proof {
        lemma_leap_count_shift(y as int, 100);
    }
    let y0: u64 = (y + 40000) as u64;
    let lc: i64 = ((y0 + 3) / 4) as i64 - ((y0 + 99) / 100) as i64 + ((y0 + 399) / 400) as i64
        - 9700;
    assert(lc == leap_count(y as int));
    365 * y + lc - 719528
}

impl Date {
    /// Creates a date from a year, month and day, validating that the
    /// combination exists in the calendar (month within `1..=12`, day within
    /// the month's length for that year, leap years accounted for).
    pub fn new(year: i16, month: u8, day: u8) -> (r: Result<Date, Error>)
        ensures
            r is Ok <==> valid_ymd(year as int, month as int, day as int),
            match r {
                Ok(d) => d == (Date { year, month, day }),
                Err(e) => e == Error::DateOutOfRange,
            },
    {
        if 1 <= month && month <= 12 && 1 <= day
            && day <= days_in_month_of(year as i64, month)
        {
            Ok(Date { year, month, day })
        } else {
            Err(Error::DateOutOfRange)
        }
    }

    /// The date of the Unix epoch, 1970-01-01.
    pub fn unix_epoch() -> (r: Date)
        ensures
            r.wf(),
            r.epoch() == 0,
            r == (Date { year: 1970i16, month: 1u8, day: 1u8 }),
    {
        Date { year: 1970, month: 1, day: 1 }
    }

    /// Creates a date from a year and a 1-based day of that year.
    pub fn from_ordinal(year: i16, ordinal: u16) -> (r: Result<Date, Error>)
        ensures
            r is Ok <==> 1 <= ordinal <= days_in_year(year as int),
            match r {
                Ok(d) => {
                    &&& d.wf()
                    &&& d.year == year
                    &&& d.ordinal_spec() == ordinal
                },
                Err(e) => e == Error::DateOutOfRange,
            },
    {
        if ordinal < 1 || ordinal > days_before_month_of(year as i64, 13) {
            return Err(Error::DateOutOfRange);
        }
        let mut m: u8 = 1;
        while m < 12 && ordinal > days_before_month_of(year as i64, m + 1)
            invariant
                1 <= m <= 12,
                1 <= ordinal <= days_in_year(year as int),
                ordinal > days_before_month(year as int, m as int),
            decreases 12 - m,
        {
            m = m + 1;
        }
        proof {
            lemma_days_before_month_step(year as int, m as int);
        }
        let day: u8 = (ordinal - days_before_month_of(year as i64, m)) as u8;
        Ok(Date { year, month: m, day })
    }

    /// The signed count of days between this date and 1970-01-01.
    pub fn epoch_days(&self) -> (r: i32)
        requires
            self.wf(),
        ensures
            r == self.epoch(),
            min_epoch_day() <= r <= max_epoch_day(),
    {
        proof {
            lemma_epoch_of_in_range(self.year as int, self.month as int, self.day as int);
        }
        let dby: i64 = days_before_year_of(self.year as i64);
        let dbm: u16 = days_before_month_of(self.year as i64, self.month);
        (dby + dbm as i64 + self.day as i64 - 1) as i32
    }

    /// The day of the year, 1-based: January 1st is 1 and December 31st is
    /// 365 or 366 depending on leap year.
    pub fn ordinal(&self) -> (r: u16)
        requires
            self.wf(),
        ensures
            r == self.ordinal_spec(),
            1 <= r <= days_in_year(self.year as int),
    {
        proof {
            lemma_ordinal_bounds(self.year as int, self.month as int, self.day as int);
        }
        days_before_month_of(self.year as i64, self.month) + self.day as u16
    }

    /// Recovers the unique valid date with the given epoch day number.
    pub fn from_epoch_days(n: i32) -> (r: Date)
        requires
            min_epoch_day() <= n <= max_epoch_day(),
        ensures
            r.wf(),
            r.epoch() == n,
    {
        // Shift into the positive range: 15329228 == -days_before_year(-40000),
        // a whole number of 400-year cycles below every representable date.
        let n1: u64 = (n as i64 + 15329228) as u64;
        let era: u64 = n1 / 146097;
        let mut rem: u64 = n1 % 146097;
        let ghost rem0: int = rem as int;
        let mut y: i64 = 400 * (era as i64) - 40000;
        proof {
            lemma_leap_count_shift(0, era as int - 100);
            assert(days_before_year(y as int) == 146097 * (era as int) - 15329228) by {
                assert(leap_count(400 * (era as int - 100)) == 97 * (era as int - 100));
                assert(365 * (400 * (era as int - 100)) == 146000 * (era as int - 100))
                    by (nonlinear_arith);
                assert(146000 * (era as int - 100) + 97 * (era as int - 100)
                    == 146097 * (era as int) - 14609700) by (nonlinear_arith);
            }
            assert(146097 * (era as int) + rem == n1) by {
                lemma_fundamental_div_mod(n1 as int, 146097);
            }
        }
        while rem >= days_in_year_of(y)
            invariant
                days_before_year(y as int) == n - rem,
                rem <= rem0 < 146097,
                400 * (era as int) - 40000 <= y,
                365 * (y - (400 * (era as int) - 40000)) + rem <= rem0,
                min_epoch_day() <= n <= max_epoch_day(),
            decreases rem,
        {
            proof {
                lemma_days_before_year_step(y as int);
            }
            rem = rem - days_in_year_of(y);
            y = y + 1;
        }
        proof {
            // The year found carries an in-range epoch day, so it fits in i16.
            assert(n - rem < days_before_year(y as int + 1)) by {
                lemma_days_before_year_step(y as int);
            }
            if y < -32768 {
                lemma_days_before_year_mono(y as int + 1, -32768);
                assert(false);
            }
            if y > 32767 {
                lemma_days_before_year_mono(32768, y as int);
                lemma_days_before_year_step(32767);
                lemma_ordinal_bounds(32767, 12, 31);
                assert(false);
            }
        }
        let ordinal: u16 = (rem + 1) as u16;
        let d = match Date::from_ordinal(y as i16, ordinal) {
            Ok(d) => d,
            Err(_) => {
                proof {
                    lemma_days_before_year_step(y as int);
                }
                assert(false);
                Date { year: 1970, month: 1, day: 1 }
            },
        };
        d
    }

    /// Moves the date by `n` days (negative `n` moves backwards). Total on
    /// every date whose target stays representable.
    pub fn add_days(self, n: i32) -> (r: Date)
        requires
            self.wf(),
            min_epoch_day() <= self.epoch() + n <= max_epoch_day(),
        ensures
            r.wf(),
            r.epoch() == self.epoch() + n,
    {
        let e: i32 = self.epoch_days();
        Date::from_epoch_days(e + n)
    }

    /// Moves the date by `n` months. When the target month is shorter than
    /// the current day of month, the day is clamped to the last valid day of
    /// the target month (it never rolls into the following month).
    pub fn add_months(self, n: i32) -> (r: Date)
        requires
            self.wf(),
            -32768 <= add_months_year(self.year as int, self.month as int, n as int) <= 32767,
        ensures
            r.wf(),
            r.year == add_months_year(self.year as int, self.month as int, n as int),
            r.month == add_months_month(self.year as int, self.month as int, n as int),
            r.day == add_months_day(self.year as int, self.month as int, self.day as int, n as int),
    {
        let k: i64 = 12 * (self.year as i64) + (self.month as i64 - 1) + n as i64;
        proof {
            lemma_fundamental_div_mod(k as int, 12);
            lemma_div_shift(k as int, 12, 32768);
        }
        let k0: u64 = (k + 393216) as u64;
        let yy: i64 = (k0 / 12) as i64 - 32768;
        let mm: u8 = (k0 % 12 + 1) as u8;
        let dim: u8 = days_in_month_of(yy, mm);
        let dd: u8 = if self.day <= dim { self.day } else { dim };
        Date { year: yy as i16, month: mm, day: dd }
    }

    /// The day of the week, derived from the epoch day count.
    pub fn weekday(&self) -> (r: Weekday)
        requires
            self.wf(),
        ensures
            r.monday_index() == weekday_num_of_epoch(self.epoch()),
    {
        let ed: i32 = self.epoch_days();
        weekday_from_num(weekday_num_of(ed as i64))
    }

    /// The next date, strictly after this one, that falls on the given
    /// weekday. A date already on that weekday advances a full week.
    pub fn next_weekday(self, weekday: Weekday) -> (r: Date)
        requires
            self.wf(),
            self.epoch() + 7 <= max_epoch_day(),
        ensures
            r.wf(),
            r.epoch() == self.epoch() + next_weekday_delta(self.epoch(), weekday.monday_index()),
            weekday_num_of_epoch(r.epoch()) == weekday.monday_index(),
    {
        let ed: i32 = self.epoch_days();
        let c: u64 = weekday_num_of(ed as i64);
        let t: u64 = (weekday.number_from_monday() - 1) as u64;
        let delta: u64 = (t + 6 - c) % 7 + 1;
        proof {
            lemma_next_weekday_delta(self.epoch(), t as int);
        }
        self.add_days(delta as i32)
    }

    /// The previous date, strictly before this one, that fell on the given
    /// weekday. A date already on that weekday goes back a full week.
    pub fn prev_weekday(self, weekday: Weekday) -> (r: Date)
        requires
            self.wf(),
            min_epoch_day() <= self.epoch() - 7,
        ensures
            r.wf(),
            r.epoch() == self.epoch() - prev_weekday_delta(self.epoch(), weekday.monday_index()),
            weekday_num_of_epoch(r.epoch()) == weekday.monday_index(),
    {
        let ed: i32 = self.epoch_days();
        let c: u64 = weekday_num_of(ed as i64);
        let t: u64 = (weekday.number_from_monday() - 1) as u64;
        let delta: u64 = (c + 6 - t) % 7 + 1;
        proof {
            lemma_prev_weekday_delta(self.epoch(), t as int);
        }
        let nd: i32 = 0 - (delta as i32);
        self.add_days(nd)
    }

    /// The ISO 8601 week date of this date.
    pub fn iso_week(&self) -> (r: IsoWeekDate)
        requires
            self.wf(),
            -32768 <= iso_year_of(self.year as int, self.month as int, self.day as int) <= 32767,
        ensures
            r.year == iso_year_of(self.year as int, self.month as int, self.day as int),
            r.week == iso_week_of(self.year as int, self.month as int, self.day as int),
            r.weekday.monday_index() == weekday_num_of_epoch(self.epoch()),
    {
        let ed: i32 = self.epoch_days();
        let dow: u64 = weekday_num_of(ed as i64);
        let ord: u16 = self.ordinal();
        let w: u64 = (ord as u64 + 9 - dow) / 7;
        let wd: Weekday = weekday_from_num(dow);
        if w < 1 {
            let week: u8 = iso_weeks_in_year_of(self.year as i64 - 1);
            IsoWeekDate { year: self.year - 1, week, weekday: wd }
        } else {
            let wiy: u8 = iso_weeks_in_year_of(self.year as i64);
            if w > wiy as u64 {
                IsoWeekDate { year: self.year + 1, week: 1, weekday: wd }
            } else {
                IsoWeekDate { year: self.year, week: w as u8, weekday: wd }
            }
        }
    }

    /// Replaces the year, clamping February 29th to February 28th when the
    /// target year is not a leap year.
    pub fn with_year(self, year: i16) -> (r: Date)
        requires
            self.wf(),
        ensures
            r.wf(),
            r.year == year,
            r.month == self.month,
            r.day == if self.day <= days_in_month(year as int, self.month as int) {
                self.day as int
            } else {
                days_in_month(year as int, self.month as int)
            },
    {
        let dim: u8 = days_in_month_of(year as i64, self.month);
        let dd: u8 = if self.day <= dim { self.day } else { dim };
        Date { year, month: self.month, day: dd }
    }

    /// Replaces the month, validating that the current day exists in the
    /// target month of this year.
    pub fn with_month(self, month: u8) -> (r: Result<Date, Error>)
        requires
            self.wf(),
        ensures
            r is Ok <==> (1 <= month <= 12
                && self.day <= days_in_month(self.year as int, month as int)),
            match r {
                Ok(d) => d == (Date { month, ..self }),
                Err(e) => e == Error::DateOutOfRange,
            },
    {
        if 1 <= month && month <= 12 && self.day <= days_in_month_of(self.year as i64, month) {
            Ok(Date { month, ..self })
        } else {
            Err(Error::DateOutOfRange)
        }
    }

    /// Replaces the day of month, validating it against the length of the
    /// current month.
    pub fn with_day(self, day: u8) -> (r: Result<Date, Error>)
        requires
            self.wf(),
        ensures
            r is Ok <==> 1 <= day <= days_in_month(self.year as int, self.month as int),
            match r {
                Ok(d) => d == (Date { day, ..self }),
                Err(e) => e == Error::DateOutOfRange,
            },
    {
        if 1 <= day && day <= days_in_month_of(self.year as i64, self.month) {
            Ok(Date { day, ..self })
        } else {
            Err(Error::DateOutOfRange)
        }
    }
}

/// The Monday-based weekday number of epoch day `ed`.
fn weekday_num_of(ed: i64) -> (r: u64)
    requires
        -14000000 <= ed <= 14000000,
    ensures
        r == weekday_num_of_epoch(ed as int),
        r < 7,
{
    proof {
        lemma_div_shift(ed as int + 3, 7, 2087100);
    }
    ((ed + 14609703) as u64) % 7
}

/// The number of ISO weeks in ISO year `y`.
fn iso_weeks_in_year_of(y: i64) -> (r: u8)
    requires
        -33000 <= y <= 33000,
    ensures
        r == iso_weeks_in_year(y as int),
{
    let dby: i64 = days_before_year_of(y);
    proof {
        lemma_days_before_year_mono(-33000, y as int);
        lemma_days_before_year_mono(y as int, 33000);
    }
    let j: u64 = weekday_num_of(dby);
    if j == 3 || (leap_year_i64(y) && j == 2) {
        53
    } else {
        52
    }
}

/// A date is determined by its epoch day number: distinct valid dates have
/// distinct epoch day counts, so converting a date to its epoch day count and
/// back is the identity.
pub proof fn lemma_epoch_days_round_trip(d1: Date, d2: Date)
    requires
        d1.wf(),
        d2.wf(),
        d1.epoch() == d2.epoch(),
    ensures
        d1 == d2,
{
    lemma_epoch_of_injective(
        d1.year as int, d1.month as int, d1.day as int,
        d2.year as int, d2.month as int, d2.day as int,
    );
}

/// Within one year, a date is determined by its ordinal: converting a date to
/// `(year, ordinal)` and back is the identity.
pub proof fn lemma_ordinal_round_trip(d1: Date, d2: Date)
    requires
        d1.wf(),
        d2.wf(),
        d1.year == d2.year,
        d1.ordinal_spec() == d2.ordinal_spec(),
    ensures
        d1 == d2,
{
    lemma_ordinal_injective(
        d1.year as int, d1.month as int, d1.day as int, d2.month as int, d2.day as int,
    );
}

/// Day arithmetic round-trips: adding `n` days and then `-n` days returns the
/// original date.
pub proof fn lemma_add_days_round_trip(d: Date, n: int, d1: Date, d2: Date)
    requires
        d.wf(),
        d1.wf(),
        d2.wf(),
        d1.epoch() == d.epoch() + n,
        d2.epoch() == d1.epoch() - n,
    ensures
        d2 == d,
{
    lemma_epoch_days_round_trip(d, d2);
}

} // verus!
