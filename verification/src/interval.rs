//! Calendar-relative intervals.

use vstd::prelude::*;
use vstd::arithmetic::div_mod::{lemma_fundamental_div_mod, lemma_fundamental_div_mod_converse};
use crate::date::Date;
use crate::datetime::DateTime;
use crate::gregorian::{
    add_months_year, add_months_month, add_months_day, epoch_after_months, min_epoch_day,
    max_epoch_day, month_index, lemma_add_months_zero, lemma_epoch_of_in_range,
    lemma_month_index_epoch_order,
};
use crate::time::{Duration, Time};
use crate::timezone::{TimeZone, Utc};

verus! {

/// The wall clock, in nanoseconds from the epoch, reached from the date `ad`
/// at time-of-day `at` by moving `k` whole months (with day clamping).
pub open spec fn wall_after_months_of(ad: Date, at: Time, k: int) -> int {
    epoch_after_months(ad.year as int, ad.month as int, ad.day as int, k)
        * 86_400_000_000_000 + at.total_nanos_spec()
}

/// The greedy forward decomposition of the span from `(ad, at)` to the wall
/// clock `wb`: as many whole months as fit without overshooting, then whole
/// days, then a sub-day nanosecond remainder.
#[verifier::opaque]
pub open spec fn greedy_decomp(
    ad: Date, at: Time, wb: int, months: int, days: int, dur_nanos: int,
) -> bool {
    &&& 0 <= months
    &&& wall_after_months_of(ad, at, months) <= wb
    &&& wall_after_months_of(ad, at, months + 1) > wb
    &&& days == (wb - wall_after_months_of(ad, at, months)) / 86_400_000_000_000
    &&& dur_nanos == (wb - wall_after_months_of(ad, at, months)) % 86_400_000_000_000
}

/// A signed calendar-relative duration: whole months, whole days, and a
/// fixed sub-day physical duration with its own sign.
///
/// Months and days are calendar-relative (their physical length depends on
/// the date they are applied to), so two intervals are compared only
/// component-wise; there is no canonical "total seconds" magnitude. The
/// sub-day part carries a separate subtraction flag because the calendar part
/// and the time part can have independent signs ("one month minus three
/// hours").
#[derive(Debug, Clone, Copy, PartialEq, Eq, Structural, Hash)]
pub struct Interval {
    pub months: i32,
    pub days: i32,
    pub negative_duration: bool,
    pub duration: Duration,
}

impl Interval {
    /// The sub-day component as signed nanoseconds.
    pub open spec fn signed_dur_nanos(self) -> int {
        if self.negative_duration {
            -self.duration.total_nanos()
        } else {
            self.duration.total_nanos()
        }
    }

    /// The empty interval.
    pub fn zero() -> (r: Interval)
        ensures
            r.months == 0,
            r.days == 0,
            r.signed_dur_nanos() == 0,
            r.duration.wf(),
    {
        Interval { months: 0, days: 0, negative_duration: false, duration: Duration::zero() }
    }

    /// An interval of whole seconds (the sub-day component alone).
    pub fn from_seconds(seconds: i64) -> (r: Interval)
        ensures
            r.months == 0,
            r.days == 0,
            r.duration.wf(),
            r.signed_dur_nanos() == seconds * 1_000_000_000,
            r.negative_duration == (seconds < 0),
            r.duration.nanos == 0,
            r.duration.secs == (if seconds >= 0 { seconds as int } else { -(seconds as int) }),
    {
        if seconds >= 0 {
            Interval {
                months: 0,
                days: 0,
                negative_duration: false,
                duration: Duration::from_secs(seconds as u64),
            }
        } else {
            let mag: u64 = ((-(seconds + 1)) as u64) + 1;
            Interval {
                months: 0,
                days: 0,
                negative_duration: true,
                duration: Duration::from_secs(mag),
            }
        }
    }

    /// An interval of whole days.
    pub fn from_days(days: i32) -> (r: Interval)
        ensures
            r.months == 0,
            r.days == days,
            r.signed_dur_nanos() == 0,
            r.duration.wf(),
    {
        Interval { months: 0, days, negative_duration: false, duration: Duration::zero() }
    }

    /// An interval of whole months.
    pub fn from_months(months: i32) -> (r: Interval)
        ensures
            r.months == months,
            r.days == 0,
            r.signed_dur_nanos() == 0,
            r.duration.wf(),
    {
        Interval { months, days: 0, negative_duration: false, duration: Duration::zero() }
    }

    /// The whole-month component.
    pub fn total_months(&self) -> (r: i32)
        ensures
            r == self.months,
    {
        self.months
    }

    /// The whole-day component.
    pub fn days(&self) -> (r: i32)
        ensures
            r == self.days,
    {
        self.days
    }

    /// The sub-day component, as a subtraction flag and a magnitude.
    pub fn get_time_duration(&self) -> (r: (bool, Duration))
        ensures
            r.0 == self.negative_duration,
            r.1 == self.duration,
    {
        (self.negative_duration, self.duration)
    }

    /// The instant difference `b - a`, decomposed into whole days and a
    /// sub-day remainder that share a sign; the month component is zero.
    #[verifier::rlimit(50)]
    pub fn days_between<A: TimeZone, B: TimeZone>(a: &DateTime<A>, b: &DateTime<B>) -> (r:
        Interval)
        requires
            a.wf(),
            b.wf(),
        ensures
            r.months == 0,
            r.duration.wf(),
            r.duration.total_nanos() < 86_400_000_000_000,
            r.days * 86_400_000_000_000 + r.signed_dur_nanos()
                == b.instant_nanos() - a.instant_nanos(),
            r.negative_duration == (b.instant_nanos() < a.instant_nanos()),
            b.instant_nanos() >= a.instant_nanos() ==> r.days >= 0,
            b.instant_nanos() < a.instant_nanos() ==> r.days <= 0,
    {
        proof {
            crate::gregorian::lemma_epoch_of_in_range(
                a.date.year as int, a.date.month as int, a.date.day as int,
            );
            crate::gregorian::lemma_epoch_of_in_range(
                b.date.year as int, b.date.month as int, b.date.day as int,
            );
            a.timezone.offset_bounded(a.date, a.time);
            b.timezone.offset_bounded(b.date, b.time);
        }
        let ia: i128 = a.timestamp_nanos();
        let ib: i128 = b.timestamp_nanos();
        if ib >= ia {
            let diff: u128 = (ib - ia) as u128;
            proof {
                lemma_fundamental_div_mod(diff as int, 86_400_000_000_000);
                lemma_fundamental_div_mod(diff as int % 86_400_000_000_000, 1_000_000_000);
            }
            let days: i32 = (diff / 86_400_000_000_000) as i32;
            let rem: u64 = (diff % 86_400_000_000_000) as u64;
            let duration = Duration {
                secs: rem / 1_000_000_000,
                nanos: (rem % 1_000_000_000) as u32,
            };
            Interval { months: 0, days, negative_duration: false, duration }
        } else {
            let diff: u128 = (ia - ib) as u128;
            proof {
                lemma_fundamental_div_mod(diff as int, 86_400_000_000_000);
                lemma_fundamental_div_mod(diff as int % 86_400_000_000_000, 1_000_000_000);
            }
            let pd: i32 = (diff / 86_400_000_000_000) as i32;
            let days: i32 = 0 - pd;
            let rem: u64 = (diff % 86_400_000_000_000) as u64;
            let duration = Duration {
                secs: rem / 1_000_000_000,
                nanos: (rem % 1_000_000_000) as u32,
            };
            Interval { months: 0, days, negative_duration: true, duration }
        }
    }

    /// The calendar-aware difference `b - a`: on the UTC representations of
    /// the two instants, whole months are walked greedily from `a` toward `b`
    /// (month-end days clamp), then the remainder is split into whole days
    /// and a sub-day duration. When `a` is the later one, the decomposition
    /// is computed from `b` toward `a` and every component is negated.
    #[verifier::rlimit(100)]
    #[verifier::spinoff_prover]
    pub fn between<A: TimeZone, B: TimeZone>(a: &DateTime<A>, b: &DateTime<B>) -> (r: Interval)
        requires
            a.wf(),
            b.wf(),
            min_epoch_day() * 86_400_000_000_000 + 500_000_000_000_000 <= a.instant_nanos(),
            a.instant_nanos() < (max_epoch_day() + 1) * 86_400_000_000_000 - 500_000_000_000_000,
            min_epoch_day() * 86_400_000_000_000 + 500_000_000_000_000 <= b.instant_nanos(),
            b.instant_nanos() < (max_epoch_day() + 1) * 86_400_000_000_000 - 500_000_000_000_000,
        ensures
            r.duration.wf(),
            r.duration.total_nanos() < 86_400_000_000_000,
            a.instant_nanos() <= b.instant_nanos() ==> {
                &&& !r.negative_duration
                &&& r.months >= 0
                &&& r.days >= 0
                &&& exists|ad: Date, at: Time|
                    {
                        &&& ad.wf()
                        &&& at.wf()
                        &&& at.nanosecond < 1_000_000_000
                        &&& ad.epoch() * 86_400_000_000_000 + at.total_nanos_spec()
                            == a.instant_nanos()
                        &&& #[trigger] greedy_decomp(
                            ad, at, b.instant_nanos(),
                            r.months as int, r.days as int, r.duration.total_nanos(),
                        )
                    }
            },
            a.instant_nanos() > b.instant_nanos() ==> {
                &&& r.negative_duration
                &&& r.months <= 0
                &&& r.days <= 0
                &&& exists|bd: Date, bt: Time|
                    {
                        &&& bd.wf()
                        &&& bt.wf()
                        &&& bt.nanosecond < 1_000_000_000
                        &&& bd.epoch() * 86_400_000_000_000 + bt.total_nanos_spec()
                            == b.instant_nanos()
                        &&& #[trigger] greedy_decomp(
                            bd, bt, a.instant_nanos(),
                            -(r.months as int), -(r.days as int), r.duration.total_nanos(),
                        )
                    }
            },
    {
        let au = a.into_utc();
        let bu = b.into_utc();
        let wa: i128 = au.timestamp_nanos();
        let wb: i128 = bu.timestamp_nanos();
        if wa <= wb {
            let (months, days, duration) = forward_decompose(&au, &bu);
            let iv = Interval { months, days, negative_duration: false, duration };
            proof {
                assert(greedy_decomp(
                    au.date, au.time, b.instant_nanos(),
                    iv.months as int, iv.days as int, iv.duration.total_nanos(),
                ));
            }
            iv
        } else {
            let (months, days, duration) = forward_decompose(&bu, &au);
            let iv = Interval { months: -months, days: -days, negative_duration: true, duration };
            proof {
                assert(-(iv.months as int) == months as int);
                assert(-(iv.days as int) == days as int);
                assert(greedy_decomp(
                    bu.date, bu.time, a.instant_nanos(),
                    -(iv.months as int), -(iv.days as int), iv.duration.total_nanos(),
                ));
            }
            iv
        }
    }

    /// The interval's day and time components as signed whole seconds
    /// (the month component, having no fixed length, is ignored; the
    /// sub-second part is truncated).
    pub fn total_seconds_from_days(&self) -> (r: i64)
        requires
            self.duration.secs <= 200_000_000_000_000,
        ensures
            r == self.days * 86400 + if self.negative_duration {
                -(self.duration.secs as int)
            } else {
                self.duration.secs as int
            },
    {
        let base: i64 = self.days as i64 * 86400;
        if self.negative_duration {
            base - self.duration.secs as i64
        } else {
            base + self.duration.secs as i64
        }
    }

    /// The interval's day and time components as signed whole milliseconds.
    pub fn total_milliseconds_from_days(&self) -> (r: i64)
        requires
            self.duration.secs <= 200_000_000_000_000,
            self.duration.wf(),
        ensures
            r == self.days * 86_400_000 + if self.negative_duration {
                -(self.duration.secs * 1000 + self.duration.nanos as int / 1_000_000)
            } else {
                self.duration.secs * 1000 + self.duration.nanos as int / 1_000_000
            },
    {
        let base: i64 = self.days as i64 * 86_400_000;
        let dur_millis: i64 = self.duration.secs as i64 * 1000
            + (self.duration.nanos / 1_000_000) as i64;
        if self.negative_duration {
            base - dur_millis
        } else {
            base + dur_millis
        }
    }
}

/// A greedy decomposition reconstructs its target exactly: the month shift,
/// then the whole days, then the sub-day remainder add up to the target wall
/// clock, so adding the difference of two values to the earlier one lands on
/// the later one.
pub proof fn lemma_greedy_decomp_reconstructs(
    ad: Date, at: Time, wb: int, months: int, days: int, dur_nanos: int,
)
    requires
        greedy_decomp(ad, at, wb, months, days, dur_nanos),
    ensures
        wall_after_months_of(ad, at, months) + days * 86_400_000_000_000 + dur_nanos == wb,
        0 <= dur_nanos < 86_400_000_000_000,
        0 <= days,
{
    reveal(greedy_decomp);
    lemma_fundamental_div_mod(wb - wall_after_months_of(ad, at, months), 86_400_000_000_000);
    vstd::arithmetic::div_mod::lemma_div_pos_is_pos(
        wb - wall_after_months_of(ad, at, months), 86_400_000_000_000,
    );
}

/// The wall clock reached from `base`'s date by a month shift, carrying
/// `base`'s time of day.
fn month_shift_wall(base: &DateTime<Utc>, k: i64) -> (w: i128)
    requires
        base.wf(),
        base.time.nanosecond < 1_000_000_000,
        -2_000_000 <= k <= 2_000_000,
        -32768 <= add_months_year(base.date.year as int, base.date.month as int, k as int)
            <= 32767,
    ensures
        w == wall_after_months_of(base.date, base.time, k as int),
        min_epoch_day() * 86_400_000_000_000 <= w,
        w < (max_epoch_day() + 1) * 86_400_000_000_000,
{
    let dk: Date = base.date.add_months(k as i32);
    proof {
        lemma_epoch_of_in_range(dk.year as int, dk.month as int, dk.day as int);
    }
    dk.epoch_days() as i128 * 86_400_000_000_000 + base.time.total_nanos() as i128
}

/// Walks whole months greedily from `base` toward `target` (both UTC, with
/// `base` not later), then splits the remainder into whole days and a sub-day
/// duration.
#[verifier::loop_isolation(false)]
#[verifier::rlimit(100)]
fn forward_decompose(base: &DateTime<Utc>, target: &DateTime<Utc>) -> (r: (i32, i32, Duration))
    requires
        base.wf(),
        target.wf(),
        base.time.nanosecond < 1_000_000_000,
        target.time.nanosecond < 1_000_000_000,
        base.wall_nanos() <= target.wall_nanos(),
    ensures
        r.0 >= 0,
        r.1 >= 0,
        r.2.wf(),
        r.2.total_nanos() < 86_400_000_000_000,
        greedy_decomp(
            base.date, base.time, target.wall_nanos(),
            r.0 as int, r.1 as int, r.2.total_nanos(),
        ),
{
    proof {
        reveal(greedy_decomp);
        lemma_epoch_of_in_range(
            base.date.year as int, base.date.month as int, base.date.day as int,
        );
        lemma_epoch_of_in_range(
            target.date.year as int, target.date.month as int, target.date.day as int,
        );
        lemma_add_months_zero(
            base.date.year as int, base.date.month as int, base.date.day as int,
        );
        if month_index(target.date.year as int, target.date.month as int)
            < month_index(base.date.year as int, base.date.month as int) {
            lemma_month_index_epoch_order(
                target.date.year as int, target.date.month as int, target.date.day as int,
                base.date.year as int, base.date.month as int, base.date.day as int,
            );
            assert(false);
        }
    }
    let ia: i64 = 12 * (base.date.year as i64) + (base.date.month as i64) - 1;
    let ib: i64 = 12 * (target.date.year as i64) + (target.date.month as i64) - 1;
    let k0: i64 = ib - ia;
    proof {
        assert forall|j: int| 0 <= j <= k0 implies -32768 <= #[trigger] add_months_year(
            base.date.year as int, base.date.month as int, j,
        ) <= 32767 by {
            vstd::arithmetic::div_mod::lemma_div_is_ordered(ia as int, ia + j, 12);
            vstd::arithmetic::div_mod::lemma_div_is_ordered(ia + j, ib as int, 12);
            lemma_fundamental_div_mod_converse(
                ia as int, 12, base.date.year as int, base.date.month - 1,
            );
            lemma_fundamental_div_mod_converse(
                ib as int, 12, target.date.year as int, target.date.month - 1,
            );
        }
    }
    let wbx: i128 = target.date.epoch_days() as i128 * 86_400_000_000_000
        + target.time.total_nanos() as i128;
    let ghost wbg: int = target.wall_nanos();
    let mut k: i64 = k0;
    while month_shift_wall(base, k) > wbx
        invariant
            0 <= k <= k0,
            forall|j: int| k < j <= k0
                ==> wall_after_months_of(base.date, base.time, j) > wbg,
        decreases k,
    {
        proof {
            if k == 0 {
                assert(wall_after_months_of(base.date, base.time, 0) <= wbg);
                assert(false);
            }
        }
        k = k - 1;
    }
    proof {
        if k == k0 {
            let y1 = add_months_year(base.date.year as int, base.date.month as int, k0 + 1);
            let m1 = add_months_month(base.date.year as int, base.date.month as int, k0 + 1);
            let d1 = add_months_day(
                base.date.year as int, base.date.month as int, base.date.day as int, k0 + 1,
            );
            lemma_fundamental_div_mod(ia + k0 + 1, 12);
            assert(month_index(y1, m1) == ia + k0 + 1);
            lemma_month_index_epoch_order(
                target.date.year as int, target.date.month as int, target.date.day as int,
                y1, m1, d1,
            );
        }
        assert(wall_after_months_of(base.date, base.time, k + 1) > wbg);
    }
    let wk: i128 = month_shift_wall(base, k);
    let rem: u128 = (wbx - wk) as u128;
    proof {
        lemma_fundamental_div_mod(rem as int, 86_400_000_000_000);
        lemma_fundamental_div_mod(rem as int % 86_400_000_000_000, 1_000_000_000);
    }
    let days: i32 = (rem / 86_400_000_000_000) as i32;
    let subday: u64 = (rem % 86_400_000_000_000) as u64;
    let duration = Duration {
        secs: subday / 1_000_000_000,
        nanos: (subday % 1_000_000_000) as u32,
    };
    (k as i32, days, duration)
}

} // verus!
