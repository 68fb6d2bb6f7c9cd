//! The timezone capability: offset lookup for naive local date-times.

use vstd::prelude::*;
use crate::date::Date;
use crate::error::Error;
use crate::time::Time;

verus! {

/// A fixed UTC offset, stored as signed hour, minute and second components
/// that share a sign. The component types bound every representable offset
/// well below [`MAX_OFFSET_SECONDS`] seconds in magnitude.
#[derive(Debug, Clone, Copy, PartialEq, Eq, Structural, Hash)]
pub struct UtcOffset {
    pub hours: i8,
    pub minutes: i8,
    pub seconds: i8,
}

/// Every offset value, even an unvalidated one, is strictly within this many
/// seconds of zero; validated offsets are strictly within one day (86400).
pub const MAX_OFFSET_SECONDS: i64 = 500_000;

impl UtcOffset {
    /// The offset in signed seconds east of UTC.
    pub open spec fn total_seconds_spec(self) -> int {
        3600 * self.hours + 60 * self.minutes + self.seconds
    }

    /// A validated offset: components within a day and sharing a sign.
    pub open spec fn wf(self) -> bool {
        &&& -24 < self.hours < 24
        &&& -60 < self.minutes < 60
        &&& -60 < self.seconds < 60
        &&& (self.hours >= 0 && self.minutes >= 0 && self.seconds >= 0
            || self.hours <= 0 && self.minutes <= 0 && self.seconds <= 0)
    }

    /// The zero offset.
    pub fn utc() -> (r: UtcOffset)
        ensures
            r.wf(),
            r.total_seconds_spec() == 0,
    {
        UtcOffset { hours: 0, minutes: 0, seconds: 0 }
    }

    /// Creates an offset from hour, minute and second components, validating
    /// their bounds and that they share a sign.
    pub fn from_hms(hours: i8, minutes: i8, seconds: i8) -> (r: Result<UtcOffset, Error>)
        ensures
            r is Ok <==> (UtcOffset { hours, minutes, seconds }).wf(),
            match r {
                Ok(o) => o == (UtcOffset { hours, minutes, seconds }),
                Err(e) => e == Error::TimeOutOfRange,
            },
    {
        if -24 < hours && hours < 24 && -60 < minutes && minutes < 60 && -60 < seconds
            && seconds < 60
            && (hours >= 0 && minutes >= 0 && seconds >= 0
                || hours <= 0 && minutes <= 0 && seconds <= 0)
        {
            Ok(UtcOffset { hours, minutes, seconds })
        } else {
            Err(Error::TimeOutOfRange)
        }
    }

    /// Creates an offset from a signed count of seconds, strictly bounded
    /// within one day.
    pub fn from_seconds(seconds: i32) -> (r: Result<UtcOffset, Error>)
        ensures
            r is Ok <==> -86400 < seconds < 86400,
            match r {
                Ok(o) => o.wf() && o.total_seconds_spec() == seconds,
                Err(e) => e == Error::TimeOutOfRange,
            },
    {
        if -86400 < seconds && seconds < 86400 {
            let p: u32 = if seconds >= 0 { seconds as u32 } else { (-seconds) as u32 };
            proof {
                vstd::arithmetic::div_mod::lemma_fundamental_div_mod(p as int, 60);
                vstd::arithmetic::div_mod::lemma_fundamental_div_mod(p as int / 60, 60);
                vstd::arithmetic::div_mod::lemma_fundamental_div_mod(p as int, 3600);
                vstd::arithmetic::div_mod::lemma_div_denominator(p as int, 60, 60);
            }
            let h: i8 = (p / 3600) as i8;
            let m: i8 = ((p / 60) % 60) as i8;
            let s: i8 = (p % 60) as i8;
            if seconds >= 0 {
                Ok(UtcOffset { hours: h, minutes: m, seconds: s })
            } else {
                Ok(UtcOffset { hours: -h, minutes: -m, seconds: -s })
            }
        } else {
            Err(Error::TimeOutOfRange)
        }
    }

    /// The offset as signed seconds east of UTC.
    pub fn total_seconds(&self) -> (r: i32)
        ensures
            r == self.total_seconds_spec(),
    {
        3600 * self.hours as i32 + 60 * self.minutes as i32 + self.seconds as i32
    }

    /// The offset of the same magnitude in the opposite direction.
    pub fn negated(&self) -> (r: UtcOffset)
        requires
            self.wf(),
        ensures
            r.total_seconds_spec() == -self.total_seconds_spec(),
            r.wf(),
    {
        UtcOffset { hours: -self.hours, minutes: -self.minutes, seconds: -self.seconds }
    }

    /// Whether the offset is exactly zero seconds.
    pub fn is_utc(&self) -> (r: bool)
        ensures
            r == (self.total_seconds_spec() == 0),
    {
        self.total_seconds() == 0
    }
}

/// How a rule-based zone resolved a naive local time.
#[derive(Debug, Clone, Copy, PartialEq, Eq, Structural, Hash)]
pub enum DateTimeResolutionKind {
    /// The local time maps to exactly one instant.
    Unambiguous,
    /// The local time maps to two instants (a fall-back transition).
    Ambiguous,
    /// The local time maps to no instant (a spring-forward transition).
    Skipped,
}

/// The outcome an external rule-based zone reports for a naive local time:
/// the kind of resolution together with the earlier and the later candidate
/// offset (equal for an unambiguous resolution). The core consumes whichever
/// single offset a disambiguation policy picks from it.
#[derive(Debug, Clone, Copy, PartialEq, Eq, Structural, Hash)]
pub struct DateTimeResolution {
    pub kind: DateTimeResolutionKind,
    pub earlier: UtcOffset,
    pub later: UtcOffset,
}

impl DateTimeResolution {
    /// The kind of resolution.
    pub fn kind(&self) -> (r: DateTimeResolutionKind)
        ensures
            r == self.kind,
    {
        self.kind
    }

    /// The earlier candidate offset.
    pub fn earlier(&self) -> (r: UtcOffset)
        ensures
            r == self.earlier,
    {
        self.earlier
    }

    /// The later candidate offset.
    pub fn later(&self) -> (r: UtcOffset)
        ensures
            r == self.later,
    {
        self.later
    }

    /// The single offset, when the resolution is unambiguous; the error
    /// otherwise, rather than a silently chosen candidate.
    pub fn exact(&self) -> (r: Result<UtcOffset, Error>)
        ensures
            r is Ok <==> self.kind == DateTimeResolutionKind::Unambiguous,
            match r {
                Ok(o) => o == self.earlier,
                Err(e) => e == Error::TimeOutOfRange,
            },
    {
        match self.kind {
            DateTimeResolutionKind::Unambiguous => Ok(self.earlier),
            _ => Err(Error::TimeOutOfRange),
        }
    }

    /// A lenient disambiguation policy: the earlier offset for an existing
    /// local time, the later one for a skipped local time (moving the clock
    /// forward across the gap).
    pub fn lenient(&self) -> (r: UtcOffset)
        ensures
            r == if self.kind == DateTimeResolutionKind::Skipped {
                self.later
            } else {
                self.earlier
            },
    {
        match self.kind {
            DateTimeResolutionKind::Skipped => self.later,
            _ => self.earlier,
        }
    }
}

/// The capability a timezone provides: a UTC offset for any naive (zone-less)
/// local date and time. The offset is queried with the local representation
/// so that rule-based zones can resolve calendar-dependent offsets; this core
/// consumes whichever single offset the zone yields.
pub trait TimeZone: Copy + Sized {
    /// The offset, in signed seconds east of UTC, that this zone assigns to
    /// the naive local date and time.
    spec fn spec_offset_seconds(self, date: Date, time: Time) -> int;

    /// Every offset a zone yields is bounded in magnitude.
    proof fn offset_bounded(self, date: Date, time: Time)
        ensures
            -MAX_OFFSET_SECONDS < self.spec_offset_seconds(date, time) < MAX_OFFSET_SECONDS,
    ;

    /// Resolves the offset for a naive local date and time.
    fn offset(&self, date: &Date, time: &Time) -> (r: UtcOffset)
        ensures
            r.total_seconds_spec() == self.spec_offset_seconds(*date, *time),
    ;

    /// Resolves the offset to apply to a UTC instant to express it in this
    /// zone's local frame. The returned offset is consistent: at the local
    /// date and time obtained by shifting the instant by it, the zone
    /// resolves that same offset (so conversion lands on a fixed point).
    fn offset_at_utc(&self, date: &Date, time: &Time) -> (r: UtcOffset)
        ensures
            forall|d2: Date, t2: Time|
                d2.epoch() * 86_400_000_000_000 + t2.total_nanos_spec()
                    == date.epoch() * 86_400_000_000_000 + time.total_nanos_spec()
                        + r.total_seconds_spec() * 1_000_000_000
                    ==> #[trigger] self.spec_offset_seconds(d2, t2) == r.total_seconds_spec(),
            -MAX_OFFSET_SECONDS < r.total_seconds_spec() < MAX_OFFSET_SECONDS,
    ;
}

/// The UTC timezone: the offset is always zero.
#[derive(Debug, Clone, Copy, PartialEq, Eq, Structural, Hash)]
pub struct Utc;

impl TimeZone for Utc {
    open spec fn spec_offset_seconds(self, date: Date, time: Time) -> int {
        0
    }

    proof fn offset_bounded(self, date: Date, time: Time) {
    }

    fn offset(&self, date: &Date, time: &Time) -> (r: UtcOffset) {
        UtcOffset::utc()
    }

    fn offset_at_utc(&self, date: &Date, time: &Time) -> (r: UtcOffset) {
        UtcOffset::utc()
    }
}

impl Default for Utc {
    fn default() -> (r: Self)
        ensures
            r == Utc,
    {
        Utc
    }
}

impl TimeZone for UtcOffset {
    open spec fn spec_offset_seconds(self, date: Date, time: Time) -> int {
        self.total_seconds_spec()
    }

    proof fn offset_bounded(self, date: Date, time: Time) {
    }

    fn offset(&self, date: &Date, time: &Time) -> (r: UtcOffset) {
        *self
    }

    fn offset_at_utc(&self, date: &Date, time: &Time) -> (r: UtcOffset) {
        *self
    }
}

impl Default for UtcOffset {
    fn default() -> (r: Self)
        ensures
            r == (UtcOffset { hours: 0i8, minutes: 0i8, seconds: 0i8 }),
    {
        UtcOffset { hours: 0, minutes: 0, seconds: 0 }
    }
}

/// The machine-local timezone: a fixed offset resolved once, outside this
/// core, from the operating environment (an external collaborator), and
/// carried as a value.
#[derive(Debug, Clone, Copy, PartialEq, Eq, Structural, Hash)]
pub struct Local(pub UtcOffset);

impl TimeZone for Local {
    open spec fn spec_offset_seconds(self, date: Date, time: Time) -> int {
        self.0.total_seconds_spec()
    }

    proof fn offset_bounded(self, date: Date, time: Time) {
    }

    fn offset(&self, date: &Date, time: &Time) -> (r: UtcOffset) {
        self.0
    }

    fn offset_at_utc(&self, date: &Date, time: &Time) -> (r: UtcOffset) {
        self.0
    }
}

} // verus!
