//! The mathematical model of the proleptic Gregorian calendar.
//!
//! Dates are modelled by three integers `(year, month, day)`; the central
//! quantity is the epoch day number: the signed count of days since
//! 1970-01-01. All calendar functions of the crate are specified against the
//! definitions here, and the lemmas relate them (one day per step, strict
//! monotonicity, and injectivity of the epoch day number on valid dates).

use vstd::prelude::*;
use vstd::arithmetic::div_mod::{
    lemma_fundamental_div_mod, lemma_fundamental_div_mod_converse,
};
use vstd::arithmetic::mul::{lemma_mul_is_distributive_add, lemma_mul_is_distributive_sub};

verus! {

/// A year is a leap year iff it is divisible by 4 but not by 100, or by 400.
/// Year 0 (1 BCE) is a leap year.
pub open spec fn is_leap_year(y: int) -> bool {
    (y % 4 == 0 && y % 100 != 0) || y % 400 == 0
}

pub open spec fn days_in_year(y: int) -> int {
    if is_leap_year(y) { 366 } else { 365 }
}

/// Number of days in month `m` (1-based) of year `y`.
pub open spec fn days_in_month(y: int, m: int) -> int {
    if m == 2 {
        if is_leap_year(y) { 29 } else { 28 }
    } else if m == 4 || m == 6 || m == 9 || m == 11 {
        30
    } else {
        31
    }
}

/// Days of year `y` that precede the first day of month `m`; defined for
/// `1 <= m <= 13`, where `m == 13` yields the length of the year.
pub open spec fn days_before_month(y: int, m: int) -> int {
    let base: int = if m <= 1 { 0 }
        else if m == 2 { 31 }
        else if m == 3 { 59 }
        else if m == 4 { 90 }
        else if m == 5 { 120 }
        else if m == 6 { 151 }
        else if m == 7 { 181 }
        else if m == 8 { 212 }
        else if m == 9 { 243 }
        else if m == 10 { 273 }
        else if m == 11 { 304 }
        else if m == 12 { 334 }
        else { 365 };
    base + if m > 2 && is_leap_year(y) { 1int } else { 0int }
}

/// The ordinal (day of year, 1-based) of the date `(y, m, d)`.
pub open spec fn ordinal_of(y: int, m: int, d: int) -> int {
    days_before_month(y, m) + d
}

/// Number of leap years `k` with `0 <= k < y` (extended to negative `y` by
/// floor division, counting negated leap years in `[y, 0)`).
pub open spec fn leap_count(y: int) -> int {
    (y + 3) / 4 - (y + 99) / 100 + (y + 399) / 400
}

/// The epoch day number of January 1st of year `y`: days since 1970-01-01.
pub open spec fn days_before_year(y: int) -> int {
    365 * y + leap_count(y) - 719528
}

/// The epoch day number of the date `(y, m, d)`.
pub open spec fn epoch_of(y: int, m: int, d: int) -> int {
    days_before_year(y) + days_before_month(y, m) + d - 1
}

/// The dates representable by this crate: years limited to `i16`.
pub open spec fn valid_ymd(y: int, m: int, d: int) -> bool {
    &&& -32768 <= y <= 32767
    &&& 1 <= m <= 12
    &&& 1 <= d <= days_in_month(y, m)
}

/// The smallest representable epoch day number (January 1st of year -32768).
pub open spec fn min_epoch_day() -> int {
    epoch_of(-32768, 1, 1)
}

/// The largest representable epoch day number (December 31st of year 32767).
pub open spec fn max_epoch_day() -> int {
    epoch_of(32767, 12, 31)
}

/// Day of the week of epoch day `ed`, numbered Monday = 0 .. Sunday = 6.
/// Epoch day 0 (1970-01-01) is a Thursday (number 3).
pub open spec fn weekday_num_of_epoch(ed: int) -> int {
    (ed + 3) % 7
}

/// The zero-based month counter of `(y, m)`: months since January of year 0.
pub open spec fn month_index(y: int, m: int) -> int {
    12 * y + m - 1
}

/// The year component after moving `(y, m)` by `n` months.
pub open spec fn add_months_year(y: int, m: int, n: int) -> int {
    (month_index(y, m) + n) / 12
}

/// The month component after moving `(y, m)` by `n` months.
pub open spec fn add_months_month(y: int, m: int, n: int) -> int {
    (month_index(y, m) + n) % 12 + 1
}

/// The day component after moving `(y, m, d)` by `n` months: the day is kept,
/// clamped to the length of the target month.
pub open spec fn add_months_day(y: int, m: int, d: int, n: int) -> int {
    let dim = days_in_month(add_months_year(y, m, n), add_months_month(y, m, n));
    if d <= dim { d } else { dim }
}

/// The epoch day number reached by moving the date `(y, m, d)` by `n` months
/// (with day clamping).
pub open spec fn epoch_after_months(y: int, m: int, d: int, n: int) -> int {
    epoch_of(
        add_months_year(y, m, n),
        add_months_month(y, m, n),
        add_months_day(y, m, d, n),
    )
}

/// The number of days to the next strictly-future date with weekday `t`
/// (Monday = 0), starting from epoch day `ed`; always within `1..=7`.
pub open spec fn next_weekday_delta(ed: int, t: int) -> int {
    (t - weekday_num_of_epoch(ed) + 6) % 7 + 1
}

/// The number of days back to the previous strictly-past date with weekday
/// `t` (Monday = 0), starting from epoch day `ed`; always within `1..=7`.
pub open spec fn prev_weekday_delta(ed: int, t: int) -> int {
    (weekday_num_of_epoch(ed) - t + 6) % 7 + 1
}

/// The number of ISO 8601 weeks in ISO year `y`: 53 when January 1st falls
/// on a Thursday, or on a Wednesday of a leap year; otherwise 52.
pub open spec fn iso_weeks_in_year(y: int) -> int {
    let j = weekday_num_of_epoch(days_before_year(y));
    52 + if j == 3 || (is_leap_year(y) && j == 2) { 1int } else { 0int }
}

/// The raw ISO week count of a date: the week containing it, counted within
/// its Gregorian year by the first-Thursday rule. A value of 0 or of
/// `iso_weeks_in_year(y) + 1` spills into the neighbouring ISO year.
pub open spec fn iso_week_raw(y: int, m: int, d: int) -> int {
    (ordinal_of(y, m, d) - (weekday_num_of_epoch(epoch_of(y, m, d)) + 1) + 10) / 7
}

/// The ISO 8601 week-numbering year of a date; it can differ from the
/// Gregorian year in the first and last days of the year.
pub open spec fn iso_year_of(y: int, m: int, d: int) -> int {
    let w = iso_week_raw(y, m, d);
    if w < 1 { y - 1 } else if w > iso_weeks_in_year(y) { y + 1 } else { y }
}

/// The ISO 8601 week number of a date within its ISO year.
pub open spec fn iso_week_of(y: int, m: int, d: int) -> int {
    let w = iso_week_raw(y, m, d);
    if w < 1 { iso_weeks_in_year(y - 1) } else if w > iso_weeks_in_year(y) { 1int } else { w }
}

/// Shifting the numerator of a Euclidean division by a multiple of the
/// divisor shifts the quotient and fixes the remainder.
pub proof fn lemma_div_shift(a: int, d: int, k: int)
    requires
        d > 0,
    ensures
        (a + d * k) / d == a / d + k,
        (a + d * k) % d == a % d,
{
    lemma_fundamental_div_mod(a, d);
    assert(a + d * k == (a / d + k) * d + a % d) by {
        lemma_mul_is_distributive_add(d, a / d, k);
        assert(d * (a / d + k) == d * (a / d) + d * k);
        assert((a / d + k) * d == d * (a / d + k)) by (nonlinear_arith);
    }
    lemma_fundamental_div_mod_converse(a + d * k, d, a / d + k, a % d);
}

/// `(y + d) / d` exceeds `(y + d - 1) / d` exactly when `d` divides `y`.
proof fn lemma_div_succ_multiple(y: int, d: int)
    requires
        d > 0,
    ensures
        (y + d) / d - (y + d - 1) / d == if y % d == 0 { 1int } else { 0int },
{
    lemma_fundamental_div_mod(y, d);
    let q = y / d;
    let r = y % d;
    assert(y + d == (q + 1) * d + r) by {
        lemma_mul_is_distributive_add(d, q, 1);
        assert((q + 1) * d == d * (q + 1)) by (nonlinear_arith);
    }
    lemma_fundamental_div_mod_converse(y + d, d, q + 1, r);
    if r == 0 {
        assert(y + d - 1 == q * d + (d - 1)) by {
            assert(q * d == d * q) by (nonlinear_arith);
        }
        lemma_fundamental_div_mod_converse(y + d - 1, d, q, d - 1);
    } else {
        assert(y + d - 1 == (q + 1) * d + (r - 1)) by {
            lemma_mul_is_distributive_add(d, q, 1);
            assert((q + 1) * d == d * (q + 1)) by (nonlinear_arith);
        }
        lemma_fundamental_div_mod_converse(y + d - 1, d, q + 1, r - 1);
    }
}

/// If `b` divides `a` and `c` divides `b`, then `c` divides `a`
/// (stated for the concrete divisor pairs the calendar needs).
proof fn lemma_mod_divides_chain(y: int, c: int, d: int)
    requires
        c > 0,
        d > 0,
        (d * c) > 0,
        y % (d * c) == 0,
    ensures
        y % d == 0,
{
    lemma_fundamental_div_mod(y, d * c);
    let q = y / (d * c);
    assert(y == (d * c) * q);
    assert(y == (c * q) * d + 0) by (nonlinear_arith)
        requires y == (d * c) * q;
    lemma_fundamental_div_mod_converse(y, d, c * q, 0);
}

/// One step of the leap-year count: moving the bound up by one year adds one
/// exactly when the year passed over is a leap year.
pub proof fn lemma_leap_count_step(y: int)
    ensures
        leap_count(y + 1) == leap_count(y) + if is_leap_year(y) { 1int } else { 0int },
{
    lemma_div_succ_multiple(y, 4);
    lemma_div_succ_multiple(y, 100);
    lemma_div_succ_multiple(y, 400);
    if y % 400 == 0 {
        lemma_mod_divides_chain(y, 4, 100);
        lemma_mod_divides_chain(y, 100, 4);
    } else if y % 100 == 0 {
        lemma_mod_divides_chain(y, 25, 4);
    }
}

/// January 1st moves by exactly the length of the year passed over.
pub proof fn lemma_days_before_year_step(y: int)
    ensures
        days_before_year(y + 1) == days_before_year(y) + days_in_year(y),
{
    lemma_leap_count_step(y);
}

/// January 1st is strictly monotonic in the year, with the year length as
/// its slope bounds.
pub proof fn lemma_days_before_year_mono(y1: int, y2: int)
    requires
        y1 <= y2,
    ensures
        365 * (y2 - y1) <= days_before_year(y2) - days_before_year(y1) <= 366 * (y2 - y1),
    decreases y2 - y1,
{
    if y1 < y2 {
        lemma_days_before_year_mono(y1, y2 - 1);
        lemma_days_before_year_step(y2 - 1);
    }
}

/// The leap-year pattern repeats every 400 years, shifting the count by 97.
pub proof fn lemma_leap_count_shift(y: int, k: int)
    ensures
        leap_count(y + 400 * k) == leap_count(y) + 97 * k,
        is_leap_year(y + 400 * k) == is_leap_year(y),
{
    assert(y + 400 * k + 3 == (y + 3) + 4 * (100 * k)) by (nonlinear_arith);
    assert(y + 400 * k + 99 == (y + 99) + 100 * (4 * k)) by (nonlinear_arith);
    assert(y + 400 * k + 399 == (y + 399) + 400 * k) by (nonlinear_arith);
    lemma_div_shift(y + 3, 4, 100 * k);
    lemma_div_shift(y + 99, 100, 4 * k);
    lemma_div_shift(y + 399, 400, k);
    assert(y + 400 * k == y + 4 * (100 * k)) by (nonlinear_arith);
    assert(y + 400 * k == y + 100 * (4 * k)) by (nonlinear_arith);
    lemma_div_shift(y, 4, 100 * k);
    lemma_div_shift(y, 100, 4 * k);
    lemma_div_shift(y, 400, k);
}

/// Month lengths partition the year: the days before month `m + 1` are the
/// days before month `m` plus the length of month `m`.
pub proof fn lemma_days_before_month_step(y: int, m: int)
    requires
        1 <= m <= 12,
    ensures
        days_before_month(y, m + 1) == days_before_month(y, m) + days_in_month(y, m),
{
}

/// The ordinal of a valid date lies within the year.
pub proof fn lemma_ordinal_bounds(y: int, m: int, d: int)
    requires
        1 <= m <= 12,
        1 <= d <= days_in_month(y, m),
    ensures
        1 <= ordinal_of(y, m, d) <= days_in_year(y),
{
}

/// Within one year, the ordinal determines month and day.
pub proof fn lemma_ordinal_injective(y: int, m1: int, d1: int, m2: int, d2: int)
    requires
        1 <= m1 <= 12,
        1 <= d1 <= days_in_month(y, m1),
        1 <= m2 <= 12,
        1 <= d2 <= days_in_month(y, m2),
        ordinal_of(y, m1, d1) == ordinal_of(y, m2, d2),
    ensures
        m1 == m2,
        d1 == d2,
{
}

/// The epoch day number is injective on valid dates: a date round-trips
/// through its epoch day count.
pub proof fn lemma_epoch_of_injective(
    y1: int, m1: int, d1: int, y2: int, m2: int, d2: int,
)
    requires
        valid_ymd(y1, m1, d1),
        valid_ymd(y2, m2, d2),
        epoch_of(y1, m1, d1) == epoch_of(y2, m2, d2),
    ensures
        y1 == y2,
        m1 == m2,
        d1 == d2,
{
    lemma_ordinal_bounds(y1, m1, d1);
    lemma_ordinal_bounds(y2, m2, d2);
    if y1 < y2 {
        lemma_days_before_year_step(y1);
        lemma_days_before_year_mono(y1 + 1, y2);
        assert(false);
    } else if y2 < y1 {
        lemma_days_before_year_step(y2);
        lemma_days_before_year_mono(y2 + 1, y1);
        assert(false);
    }
    lemma_ordinal_injective(y1, m1, d1, m2, d2);
}

/// Moving to the next occurrence of a weekday advances by one to seven days
/// (never zero: the same weekday maps to a full week) and lands on that
/// weekday.
pub proof fn lemma_next_weekday_delta(ed: int, t: int)
    requires
        0 <= t < 7,
    ensures
        1 <= next_weekday_delta(ed, t) <= 7,
        weekday_num_of_epoch(ed + next_weekday_delta(ed, t)) == t,
{
    lemma_fundamental_div_mod(ed + 3, 7);
    let q = (ed + 3) / 7;
    let c = (ed + 3) % 7;
    let x = t - c + 6;
    if x < 7 {
        lemma_fundamental_div_mod_converse(x, 7, 0, x);
        assert(ed + next_weekday_delta(ed, t) + 3 == (q + 1) * 7 + t) by {
            lemma_mul_is_distributive_add(7, q, 1);
            assert((q + 1) * 7 == 7 * (q + 1)) by (nonlinear_arith);
        }
        lemma_fundamental_div_mod_converse(ed + next_weekday_delta(ed, t) + 3, 7, q + 1, t);
    } else {
        lemma_fundamental_div_mod_converse(x, 7, 1, x - 7);
        assert(ed + next_weekday_delta(ed, t) + 3 == q * 7 + t) by {
            assert(q * 7 == 7 * q) by (nonlinear_arith);
        }
        lemma_fundamental_div_mod_converse(ed + next_weekday_delta(ed, t) + 3, 7, q, t);
    }
}

/// Moving to the previous occurrence of a weekday goes back by one to seven
/// days (never zero) and lands on that weekday.
pub proof fn lemma_prev_weekday_delta(ed: int, t: int)
    requires
        0 <= t < 7,
    ensures
        1 <= prev_weekday_delta(ed, t) <= 7,
        weekday_num_of_epoch(ed - prev_weekday_delta(ed, t)) == t,
{
    lemma_fundamental_div_mod(ed + 3, 7);
    let q = (ed + 3) / 7;
    let c = (ed + 3) % 7;
    let x = c - t + 6;
    if x < 7 {
        lemma_fundamental_div_mod_converse(x, 7, 0, x);
        assert(ed - prev_weekday_delta(ed, t) + 3 == (q - 1) * 7 + t) by {
            lemma_mul_is_distributive_sub(7, q, 1);
            assert((q - 1) * 7 == 7 * (q - 1)) by (nonlinear_arith);
        }
        lemma_fundamental_div_mod_converse(ed - prev_weekday_delta(ed, t) + 3, 7, q - 1, t);
    } else {
        lemma_fundamental_div_mod_converse(x, 7, 1, x - 7);
        assert(ed - prev_weekday_delta(ed, t) + 3 == q * 7 + t) by {
            assert(q * 7 == 7 * q) by (nonlinear_arith);
        }
        lemma_fundamental_div_mod_converse(ed - prev_weekday_delta(ed, t) + 3, 7, q, t);
    }
}

/// Month arithmetic round-trips: when adding `n` months required no day
/// clamping, adding `-n` months to the result returns the original date.
pub proof fn lemma_add_months_round_trip(y: int, m: int, d: int, n: int)
    requires
        valid_ymd(y, m, d),
        d <= days_in_month(add_months_year(y, m, n), add_months_month(y, m, n)),
    ensures
        add_months_year(add_months_year(y, m, n), add_months_month(y, m, n), -n) == y,
        add_months_month(add_months_year(y, m, n), add_months_month(y, m, n), -n) == m,
        add_months_day(
            add_months_year(y, m, n),
            add_months_month(y, m, n),
            add_months_day(y, m, d, n),
            -n,
        ) == d,
{
    let k = month_index(y, m) + n;
    lemma_fundamental_div_mod(k, 12);
    let y1 = add_months_year(y, m, n);
    let m1 = add_months_month(y, m, n);
    assert(month_index(y1, m1) == k) by {
        assert(12 * (k / 12) == (k / 12) * 12) by (nonlinear_arith);
    }
    assert(month_index(y, m) == 12 * y + (m - 1));
    lemma_fundamental_div_mod_converse(12 * y + (m - 1), 12, y, m - 1);
    assert(add_months_year(y1, m1, -n) == y);
    assert(add_months_month(y1, m1, -n) == m);
}

/// Moving a valid date by zero months is the identity.
pub proof fn lemma_add_months_zero(y: int, m: int, d: int)
    requires
        valid_ymd(y, m, d),
    ensures
        add_months_year(y, m, 0) == y,
        add_months_month(y, m, 0) == m,
        add_months_day(y, m, d, 0) == d,
        epoch_after_months(y, m, d, 0) == epoch_of(y, m, d),
{
    lemma_fundamental_div_mod_converse(12 * y + m - 1, 12, y, m - 1);
}

/// The epoch day number is strictly monotonic in the lexicographic date
/// order.
pub proof fn lemma_epoch_of_strict_mono(
    y1: int, m1: int, d1: int, y2: int, m2: int, d2: int,
)
    requires
        1 <= m1 <= 12,
        1 <= d1 <= days_in_month(y1, m1),
        1 <= m2 <= 12,
        1 <= d2 <= days_in_month(y2, m2),
        y1 < y2 || (y1 == y2 && (m1 < m2 || (m1 == m2 && d1 < d2))),
    ensures
        epoch_of(y1, m1, d1) < epoch_of(y2, m2, d2),
{
    lemma_ordinal_bounds(y1, m1, d1);
    lemma_ordinal_bounds(y2, m2, d2);
    if y1 < y2 {
        lemma_days_before_year_step(y1);
        lemma_days_before_year_mono(y1 + 1, y2);
    }
}

/// A strictly larger month counter means a strictly later date, whatever the
/// days of month are.
pub proof fn lemma_month_index_epoch_order(
    y1: int, m1: int, d1: int, y2: int, m2: int, d2: int,
)
    requires
        1 <= m1 <= 12,
        1 <= d1 <= days_in_month(y1, m1),
        1 <= m2 <= 12,
        1 <= d2 <= days_in_month(y2, m2),
        month_index(y1, m1) < month_index(y2, m2),
    ensures
        epoch_of(y1, m1, d1) < epoch_of(y2, m2, d2),
{
    lemma_epoch_of_strict_mono(y1, m1, d1, y2, m2, d2);
}

/// Valid dates have epoch day numbers within the representable window.
pub proof fn lemma_epoch_of_in_range(y: int, m: int, d: int)
    requires
        valid_ymd(y, m, d),
    ensures
        min_epoch_day() <= epoch_of(y, m, d) <= max_epoch_day(),
{
    lemma_ordinal_bounds(y, m, d);
    lemma_days_before_year_mono(-32768, y);
    lemma_days_before_year_mono(y, 32767);
    lemma_days_before_year_step(32767);
    lemma_ordinal_bounds(32767, 12, 31);
}

} // verus!
