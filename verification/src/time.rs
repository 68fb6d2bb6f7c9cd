//! Times of day and fixed physical durations.

use vstd::prelude::*;
use vstd::arithmetic::div_mod::lemma_fundamental_div_mod;
use crate::error::Error;
use crate::gregorian::lemma_div_shift;

verus! {

/// Nanoseconds in one civil day.
pub const NANOS_PER_DAY: u64 = 86_400_000_000_000;

/// The largest duration, in seconds, accepted by the carry-producing time
/// arithmetic; it keeps the day carry within `i32`.
pub const MAX_ARITHMETIC_SECS: u64 = 172_800_000_000_000;

/// A fixed physical duration: a whole number of seconds plus a sub-second
/// nanosecond part. Unlike [`crate::interval::Interval`], a `Duration` has no
/// calendar-relative component: it always denotes the same physical span.
#[derive(Debug, Clone, Copy, PartialEq, Eq, Structural, Hash)]
pub struct Duration {
    pub secs: u64,
    pub nanos: u32,
}

impl Duration {
    /// The sub-second part is normalized below one second.
    pub open spec fn wf(self) -> bool {
        self.nanos < 1_000_000_000
    }

    /// The duration as a total count of nanoseconds.
    pub open spec fn total_nanos(self) -> int {
        self.secs * 1_000_000_000 + self.nanos
    }

    /// Creates a duration from seconds and a normalized sub-second part.
    pub fn new(secs: u64, nanos: u32) -> (r: Duration)
        requires
            nanos < 1_000_000_000,
        ensures
            r.wf(),
            r.secs == secs,
            r.nanos == nanos,
    {
        Duration { secs, nanos }
    }

    /// Creates a duration of whole seconds.
    pub fn from_secs(secs: u64) -> (r: Duration)
        ensures
            r.wf(),
            r.secs == secs,
            r.nanos == 0,
    {
        Duration { secs, nanos: 0 }
    }

    /// The zero duration.
    pub fn zero() -> (r: Duration)
        ensures
            r.wf(),
            r.total_nanos() == 0,
    {
        Duration { secs: 0, nanos: 0 }
    }

    /// The whole-second part.
    pub fn as_secs(&self) -> (r: u64)
        ensures
            r == self.secs,
    {
        self.secs
    }

    /// The sub-second part, in nanoseconds.
    pub fn subsec_nanos(&self) -> (r: u32)
        ensures
            r == self.nanos,
    {
        self.nanos
    }
}

/// A time of day: hour, minute, second and nanosecond within the second.
///
/// The nanosecond field ranges over `0..2_000_000_000`; the upper half is
/// reserved for representing a leap second. Values produced by the arithmetic
/// of this crate always keep it below one second.
#[derive(Debug, Clone, Copy, PartialEq, Eq, Structural, Hash)]
pub struct Time {
    pub hour: u8,
    pub minute: u8,
    pub second: u8,
    pub nanosecond: u32,
}

impl Time {
    /// Every field is within its bound.
    pub open spec fn wf(self) -> bool {
        &&& self.hour < 24
        &&& self.minute < 60
        &&& self.second < 60
        &&& self.nanosecond < 2_000_000_000
    }

    /// The whole seconds elapsed since midnight.
    pub open spec fn total_seconds_spec(self) -> int {
        3600 * self.hour + 60 * self.minute + self.second
    }

    /// The nanoseconds elapsed since midnight (including a leap-second
    /// nanosecond part, which can push the value past one day).
    pub open spec fn total_nanos_spec(self) -> int {
        self.total_seconds_spec() * 1_000_000_000 + self.nanosecond
    }

    /// Midnight, 00:00:00.
    pub fn midnight() -> (r: Time)
        ensures
            r.wf(),
            r.total_nanos_spec() == 0,
            r == (Time { hour: 0u8, minute: 0u8, second: 0u8, nanosecond: 0u32 }),
    {
        Time { hour: 0, minute: 0, second: 0, nanosecond: 0 }
    }

    /// Creates a time of day from validated components.
    pub fn new(hour: u8, minute: u8, second: u8) -> (r: Result<Time, Error>)
        ensures
            r is Ok <==> (hour < 24 && minute < 60 && second < 60),
            match r {
                Ok(t) => t == (Time { hour, minute, second, nanosecond: 0u32 }),
                Err(e) => e == Error::TimeOutOfRange,
            },
    {
        if hour < 24 && minute < 60 && second < 60 {
            Ok(Time { hour, minute, second, nanosecond: 0 })
        } else {
            Err(Error::TimeOutOfRange)
        }
    }

    /// The hour, within `0..24`.
    pub fn hour(&self) -> (r: u8)
        ensures
            r == self.hour,
    {
        self.hour
    }

    /// The minute within the hour, within `0..60`.
    pub fn minute(&self) -> (r: u8)
        ensures
            r == self.minute,
    {
        self.minute
    }

    /// The second within the minute, within `0..60`.
    pub fn second(&self) -> (r: u8)
        ensures
            r == self.second,
    {
        self.second
    }

    /// The millisecond part of the nanosecond field.
    pub fn millisecond(&self) -> (r: u16)
        requires
            self.wf(),
        ensures
            r == self.nanosecond as int / 1_000_000,
    {
        (self.nanosecond / 1_000_000) as u16
    }

    /// The microsecond part of the nanosecond field.
    pub fn microsecond(&self) -> (r: u32)
        requires
            self.wf(),
        ensures
            r == self.nanosecond as int / 1_000,
    {
        self.nanosecond / 1_000
    }

    /// The nanosecond within the second, within `0..2_000_000_000`.
    pub fn nanosecond(&self) -> (r: u32)
        ensures
            r == self.nanosecond,
    {
        self.nanosecond
    }

    /// The whole seconds elapsed since midnight.
    pub fn total_seconds(&self) -> (r: u32)
        requires
            self.wf(),
        ensures
            r == self.total_seconds_spec(),
            r < 86400,
    {
        3600 * self.hour as u32 + 60 * self.minute as u32 + self.second as u32
    }

    /// The nanoseconds elapsed since midnight.
    pub fn total_nanos(&self) -> (r: u64)
        requires
            self.wf(),
        ensures
            r == self.total_nanos_spec(),
    {
        self.total_seconds() as u64 * 1_000_000_000 + self.nanosecond as u64
    }

    /// Replaces the hour, validating its bound.
    pub fn with_hour(self, hour: u8) -> (r: Result<Time, Error>)
        ensures
            r is Ok <==> hour < 24,
            match r {
                Ok(t) => t == (Time { hour, ..self }),
                Err(e) => e == Error::TimeOutOfRange,
            },
    {
        if hour < 24 {
            Ok(Time { hour, ..self })
        } else {
            Err(Error::TimeOutOfRange)
        }
    }

    /// Replaces the minute, validating its bound.
    pub fn with_minute(self, minute: u8) -> (r: Result<Time, Error>)
        ensures
            r is Ok <==> minute < 60,
            match r {
                Ok(t) => t == (Time { minute, ..self }),
                Err(e) => e == Error::TimeOutOfRange,
            },
    {
        if minute < 60 {
            Ok(Time { minute, ..self })
        } else {
            Err(Error::TimeOutOfRange)
        }
    }

    /// Replaces the second, validating its bound.
    pub fn with_second(self, second: u8) -> (r: Result<Time, Error>)
        ensures
            r is Ok <==> second < 60,
            match r {
                Ok(t) => t == (Time { second, ..self }),
                Err(e) => e == Error::TimeOutOfRange,
            },
    {
        if second < 60 {
            Ok(Time { second, ..self })
        } else {
            Err(Error::TimeOutOfRange)
        }
    }

    /// Replaces the whole sub-second field with a millisecond count.
    pub fn with_millisecond(self, millisecond: u16) -> (r: Result<Time, Error>)
        ensures
            r is Ok <==> millisecond < 1000,
            match r {
                Ok(t) => t == (Time { nanosecond: (millisecond * 1_000_000) as u32, ..self }),
                Err(e) => e == Error::TimeOutOfRange,
            },
    {
        if millisecond < 1000 {
            Ok(Time { nanosecond: millisecond as u32 * 1_000_000, ..self })
        } else {
            Err(Error::TimeOutOfRange)
        }
    }

    /// Replaces the whole sub-second field with a microsecond count.
    pub fn with_microsecond(self, microsecond: u32) -> (r: Result<Time, Error>)
        ensures
            r is Ok <==> microsecond < 1_000_000,
            match r {
                Ok(t) => t == (Time { nanosecond: (microsecond * 1_000) as u32, ..self }),
                Err(e) => e == Error::TimeOutOfRange,
            },
    {
        if microsecond < 1_000_000 {
            Ok(Time { nanosecond: microsecond * 1_000, ..self })
        } else {
            Err(Error::TimeOutOfRange)
        }
    }

    /// Replaces the nanosecond field, validating its bound (values of one
    /// second and above represent a leap second).
    pub fn with_nanosecond(self, nanosecond: u32) -> (r: Result<Time, Error>)
        ensures
            r is Ok <==> nanosecond < 2_000_000_000,
            match r {
                Ok(t) => t == (Time { nanosecond, ..self }),
                Err(e) => e == Error::TimeOutOfRange,
            },
    {
        if nanosecond < 2_000_000_000 {
            Ok(Time { nanosecond, ..self })
        } else {
            Err(Error::TimeOutOfRange)
        }
    }

    /// Reconstructs a time of day from a nanosecond-of-day count.
    pub fn from_day_nanos(r: u64) -> (t: Time)
        requires
            r < 86_400_000_000_000,
        ensures
            t.wf(),
            t.nanosecond < 1_000_000_000,
            t.total_nanos_spec() == r,
    {
        proof {
            lemma_fundamental_div_mod(r as int, 1_000_000_000);
            lemma_fundamental_div_mod(r as int / 1_000_000_000, 60);
            lemma_fundamental_div_mod(r as int / 1_000_000_000 / 60, 60);
        }
        let ns: u32 = (r % 1_000_000_000) as u32;
        let q1: u64 = r / 1_000_000_000;
        let s: u8 = (q1 % 60) as u8;
        let q2: u64 = q1 / 60;
        let m: u8 = (q2 % 60) as u8;
        let h: u8 = (q2 / 60) as u8;
        Time { hour: h, minute: m, second: s, nanosecond: ns }
    }

    /// The shared carry-producing primitive: splits an arbitrary signed
    /// nanosecond count into a signed day count and a time of day, by floored
    /// division, so the time always lands within the day.
    pub fn adjust_from_nanos(n: i64) -> (r: (i32, Time))
        ensures
            r.1.wf(),
            r.1.nanosecond < 1_000_000_000,
            86_400_000_000_000 * r.0 + r.1.total_nanos_spec() == n,
            r.0 == n as int / 86_400_000_000_000,
    {
        let (days, rem) = divmod_day_nanos(n as i128);
        proof {
            lemma_fundamental_div_mod(n as int, 86_400_000_000_000);
        }
        (days as i32, Time::from_day_nanos(rem))
    }

    /// Adds a fixed duration, returning the day carry and the wrapped time.
    pub fn add_with_duration(self, d: Duration) -> (r: (i32, Time))
        requires
            self.wf(),
            d.wf(),
            d.secs <= MAX_ARITHMETIC_SECS,
        ensures
            r.1.wf(),
            r.1.nanosecond < 1_000_000_000,
            86_400_000_000_000 * r.0 + r.1.total_nanos_spec()
                == self.total_nanos_spec() + d.total_nanos(),
    {
        let total: u64 = self.total_nanos();
        let dn: u128 = d.secs as u128 * 1_000_000_000 + d.nanos as u128;
        let (days, rem) = divmod_day_nanos(total as i128 + dn as i128);
        (days as i32, Time::from_day_nanos(rem))
    }

    /// Subtracts a fixed duration, returning the (negative or zero) day carry
    /// and the wrapped time; floored division keeps the time within the day.
    pub fn sub_with_duration(self, d: Duration) -> (r: (i32, Time))
        requires
            self.wf(),
            d.wf(),
            d.secs <= MAX_ARITHMETIC_SECS,
        ensures
            r.1.wf(),
            r.1.nanosecond < 1_000_000_000,
            86_400_000_000_000 * r.0 + r.1.total_nanos_spec()
                == self.total_nanos_spec() - d.total_nanos(),
    {
        let total: u64 = self.total_nanos();
        let dn: u128 = d.secs as u128 * 1_000_000_000 + d.nanos as u128;
        let (days, rem) = divmod_day_nanos(total as i128 - dn as i128);
        (days as i32, Time::from_day_nanos(rem))
    }
}

/// A normalized time of day is determined by its nanosecond-of-day count:
/// two well-formed times with sub-second fields below one second and equal
/// counts are equal.
pub proof fn lemma_time_total_nanos_injective(t1: Time, t2: Time)
    requires
        t1.wf(),
        t2.wf(),
        t1.nanosecond < 1_000_000_000,
        t2.nanosecond < 1_000_000_000,
        t1.total_nanos_spec() == t2.total_nanos_spec(),
    ensures
        t1 == t2,
{
    let n = t1.total_nanos_spec();
    vstd::arithmetic::div_mod::lemma_fundamental_div_mod_converse(
        n, 1_000_000_000, t1.total_seconds_spec(), t1.nanosecond as int,
    );
    vstd::arithmetic::div_mod::lemma_fundamental_div_mod_converse(
        n, 1_000_000_000, t2.total_seconds_spec(), t2.nanosecond as int,
    );
    let s = t1.total_seconds_spec();
    vstd::arithmetic::div_mod::lemma_fundamental_div_mod_converse(
        s, 3600, t1.hour as int, 60 * t1.minute + t1.second,
    );
    vstd::arithmetic::div_mod::lemma_fundamental_div_mod_converse(
        s, 3600, t2.hour as int, 60 * t2.minute + t2.second,
    );
    let rest = 60 * t1.minute + t1.second;
    vstd::arithmetic::div_mod::lemma_fundamental_div_mod_converse(
        rest, 60, t1.minute as int, t1.second as int,
    );
    vstd::arithmetic::div_mod::lemma_fundamental_div_mod_converse(
        rest, 60, t2.minute as int, t2.second as int,
    );
}

/// Floored division of a signed nanosecond count by the length of a day.
fn divmod_day_nanos(n: i128) -> (r: (i64, u64))
    requires
        -345_600_000_000_000_000_000_000 < n < 345_600_000_000_000_000_000_000,
    ensures
        r.0 == n as int / 86_400_000_000_000,
        r.1 == n as int % 86_400_000_000_000,
        86_400_000_000_000 * r.0 + r.1 == n,
        0 <= r.1 < 86_400_000_000_000,
{
    proof {
        lemma_div_shift(n as int, 86_400_000_000_000, 4_000_000_000);
        lemma_fundamental_div_mod(n as int, 86_400_000_000_000);
    }
    let nn: u128 = (n + 345_600_000_000_000_000_000_000) as u128;
    let q: u64 = (nn / 86_400_000_000_000) as u64;
    let rem: u64 = (nn % 86_400_000_000_000) as u64;
    (q as i64 - 4_000_000_000, rem)
}

} // verus!
