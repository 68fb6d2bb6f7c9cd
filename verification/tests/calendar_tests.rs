use core::cmp::Ordering;
use eos::{Date, DateTime, Duration, Error, Interval, Time, Utc, UtcOffset, Weekday};

#[test]
fn test_leap_year_boundaries() {
    assert!(Date::new(2013, 2, 29).is_err());
    assert!(Date::new(2012, 2, 29).is_ok());
    assert!(Date::new(2000, 2, 29).is_ok());
    assert!(Date::new(1900, 2, 29).is_err());
    assert!(DateTime::<Utc>::new(2013, 2, 29).is_err());
    assert_eq!(Date::new(2013, 2, 29).unwrap_err(), Error::DateOutOfRange);
}

#[test]
fn test_epoch_days_round_trip() {
    let samples = [
        (1970, 1, 1),
        (2000, 2, 29),
        (1969, 12, 31),
        (1, 1, 1),
        (0, 2, 29),
        (-44, 3, 15),
        (9999, 12, 31),
        (2022, 1, 2),
    ];
    for (y, m, d) in samples {
        let date = Date::new(y, m, d).unwrap();
        let days = date.epoch_days();
        assert_eq!(Date::from_epoch_days(days), date);
        let ordinal = date.ordinal();
        assert_eq!(Date::from_ordinal(y, ordinal).unwrap(), date);
    }
    assert_eq!(Date::new(1970, 1, 1).unwrap().epoch_days(), 0);
    assert_eq!(Date::new(2022, 1, 2).unwrap().epoch_days(), 18994);
    assert_eq!(Date::new(1969, 12, 31).unwrap().epoch_days(), -1);
}

#[test]
fn test_from_ordinal() {
    let leap = Date::from_ordinal(1992, 62).unwrap();
    assert_eq!((leap.year, leap.month, leap.day), (1992, 3, 2));
    assert!(Date::from_ordinal(2013, 366).is_err());
    let last = Date::from_ordinal(2012, 366).unwrap();
    assert_eq!((last.month, last.day), (12, 31));
    let sept = Date::from_ordinal(2001, 246).unwrap();
    assert_eq!((sept.month, sept.day), (9, 3));
    assert!(Date::from_ordinal(2001, 0).is_err());
    let dt = DateTime::from_ordinal(1992, 62, Utc).unwrap();
    assert_eq!((dt.year(), dt.month(), dt.day()), (1992, 3, 2));
    assert!(DateTime::from_ordinal(2013, 366, Utc).is_err());
}

#[test]
fn test_add_days_round_trip() {
    let date = Date::new(2021, 3, 17).unwrap();
    for n in [1, 30, 365, 10000, -1, -5000] {
        assert_eq!(date.add_days(n).add_days(-n), date);
    }
    let next = Date::new(2020, 2, 28).unwrap().add_days(1);
    assert_eq!((next.month, next.day), (2, 29));
    let wrapped = Date::new(2020, 12, 31).unwrap().add_days(1);
    assert_eq!((wrapped.year, wrapped.month, wrapped.day), (2021, 1, 1));
}

#[test]
fn test_add_months_clamps() {
    let jan31 = Date::new(2021, 1, 31).unwrap();
    let feb = jan31.add_months(1);
    assert_eq!((feb.year, feb.month, feb.day), (2021, 2, 28));
    let leap_feb = Date::new(2020, 1, 31).unwrap().add_months(1);
    assert_eq!((leap_feb.month, leap_feb.day), (2, 29));
    let back = Date::new(2021, 3, 15).unwrap().add_months(-14);
    assert_eq!((back.year, back.month, back.day), (2020, 1, 15));
}

#[test]
fn test_weekdays() {
    assert_eq!(Date::new(2021, 12, 25).unwrap().weekday(), Weekday::Saturday);
    assert_eq!(Date::new(2012, 2, 29).unwrap().weekday(), Weekday::Wednesday);
    assert_eq!(Date::new(1970, 1, 1).unwrap().weekday(), Weekday::Thursday);
    assert_eq!(Weekday::Monday.number_from_monday(), 1);
    assert_eq!(Weekday::Sunday.number_from_monday(), 7);
    assert_eq!(Weekday::Sunday.number_from_sunday(), 1);
}

#[test]
fn test_next_prev_weekday() {
    // March 17th 2021 was a Wednesday.
    let base = DateTime::<Utc>::new(2021, 3, 17).unwrap();
    let expect_next = [
        (Weekday::Monday, 22),
        (Weekday::Tuesday, 23),
        (Weekday::Wednesday, 24),
        (Weekday::Thursday, 18),
        (Weekday::Friday, 19),
        (Weekday::Saturday, 20),
        (Weekday::Sunday, 21),
    ];
    for (wd, day) in expect_next {
        let moved = base.next_weekday(wd);
        assert_eq!((moved.month(), moved.day()), (3, day));
        assert_ne!((moved.month(), moved.day()), (3, 17));
    }
    let expect_prev = [
        (Weekday::Monday, 15),
        (Weekday::Tuesday, 16),
        (Weekday::Wednesday, 10),
        (Weekday::Thursday, 11),
        (Weekday::Friday, 12),
        (Weekday::Saturday, 13),
        (Weekday::Sunday, 14),
    ];
    for (wd, day) in expect_prev {
        let moved = base.prev_weekday(wd);
        assert_eq!((moved.month(), moved.day()), (3, day));
    }
}

#[test]
fn test_iso_week_edges() {
    // 1995-01-01 was a Sunday of the 52nd ISO week of 1994.
    let iso = Date::new(1995, 1, 1).unwrap().iso_week();
    assert_eq!(iso.weekday(), Weekday::Sunday);
    assert_eq!(iso.year(), 1994);
    assert_eq!(iso.week(), 52);
    // 1996-12-31 was a Tuesday of the 1st ISO week of 1997.
    let iso = Date::new(1996, 12, 31).unwrap().iso_week();
    assert_eq!(iso.weekday(), Weekday::Tuesday);
    assert_eq!(iso.year(), 1997);
    assert_eq!(iso.week(), 1);
    // A mid-year date keeps its Gregorian year.
    let iso = DateTime::<Utc>::new(2021, 6, 15).unwrap().iso_week();
    assert_eq!((iso.year(), iso.week()), (2021, 24));
    // 2020 (leap, starting Wednesday) has 53 ISO weeks.
    let iso = Date::new(2021, 1, 1).unwrap().iso_week();
    assert_eq!((iso.year(), iso.week()), (2020, 53));
}

#[test]
fn test_time_fields_and_setters() {
    let t = Time::new(20, 38, 45).unwrap();
    assert_eq!((t.hour(), t.minute(), t.second()), (20, 38, 45));
    assert_eq!(t.total_seconds(), 74325);
    let ms = t.with_millisecond(123).unwrap();
    assert_eq!(ms.millisecond(), 123);
    assert_eq!(ms.nanosecond(), 123_000_000);
    let us = t.with_microsecond(123_456).unwrap();
    assert_eq!(us.microsecond(), 123_456);
    assert_eq!(us.nanosecond(), 123_456_000);
    assert!(t.with_hour(24).is_err());
    assert!(t.with_minute(60).is_err());
    assert!(t.with_second(60).is_err());
    assert!(t.with_millisecond(1000).is_err());
    assert!(t.with_microsecond(1_000_000).is_err());
    assert!(t.with_nanosecond(2_000_000_000).is_err());
    assert_eq!(t.with_hour(24).unwrap_err(), Error::TimeOutOfRange);
    // The top half of the nanosecond range carries a leap second.
    assert!(t.with_nanosecond(1_999_999_999).is_ok());
}

#[test]
fn test_time_carry_arithmetic() {
    let t = Time::new(23, 0, 0).unwrap();
    let (carry, wrapped) = t.add_with_duration(Duration::new(7200, 0));
    assert_eq!(carry, 1);
    assert_eq!((wrapped.hour(), wrapped.minute()), (1, 0));
    let t = Time::new(1, 0, 0).unwrap();
    let (carry, wrapped) = t.sub_with_duration(Duration::new(7200, 0));
    assert_eq!(carry, -1);
    assert_eq!(wrapped.hour(), 23);
    // Floored division keeps a negative count inside the previous day.
    let (days, t) = Time::adjust_from_nanos(-1);
    assert_eq!(days, -1);
    assert_eq!((t.hour(), t.minute(), t.second(), t.nanosecond()), (23, 59, 59, 999_999_999));
}

#[test]
fn test_date_setters() {
    let date = Date::new(2012, 3, 30).unwrap();
    assert!(date.with_month(2).is_err());
    assert!(Date::new(2014, 12, 31).unwrap().with_month(1).is_ok());
    assert!(Date::new(2019, 4, 28).unwrap().with_month(2).is_ok());
    assert!(date.with_day(31).is_ok());
    assert!(Date::new(2019, 2, 1).unwrap().with_day(29).is_err());
    // Setting the year clamps a leap day.
    let clamped = Date::new(2020, 2, 29).unwrap().with_year(2021);
    assert_eq!((clamped.year, clamped.month, clamped.day), (2021, 2, 28));
    let dt = DateTime::<Utc>::new(2012, 3, 30).unwrap();
    assert_eq!(dt.with_month(2).unwrap_err(), Error::DateOutOfRange);
    assert_eq!(dt.with_year(2013).year(), 2013);
    assert_eq!(dt.with_day(31).unwrap().day(), 31);
}

#[test]
fn test_offset_validation() {
    assert!(UtcOffset::from_hms(24, 0, 0).is_err());
    assert!(UtcOffset::from_hms(3, -30, 0).is_err());
    assert_eq!(UtcOffset::from_hms(-5, -30, 0).unwrap().total_seconds(), -19800);
    assert!(UtcOffset::from_seconds(86400).is_err());
    assert_eq!(UtcOffset::from_seconds(-19800).unwrap().total_seconds(), -19800);
    assert_eq!(UtcOffset::from_seconds(3661).unwrap().total_seconds(), 3661);
    assert!(UtcOffset::from_seconds(0).unwrap().is_utc());
    assert_eq!(UtcOffset::from_hms(1, 30, 0).unwrap().negated().total_seconds(), -5400);
}

#[test]
fn test_interval_round_trip() {
    let dt = DateTime::<Utc>::new(2021, 3, 17).unwrap().with_hour(5).unwrap();
    for iv in [
        Interval::from_days(40),
        Interval::from_seconds(90_061),
        Interval::from_seconds(-7261),
        Interval::zero(),
    ] {
        let there = dt.add_interval(iv);
        let back = there.sub_interval(iv);
        assert_eq!(back.cmp_cross_timezone(&dt), Ordering::Equal);
        assert_eq!((back.year(), back.month(), back.day(), back.hour()),
            (dt.year(), dt.month(), dt.day(), dt.hour()));
    }
    // The documented month-end clamp: end of January plus one month minus one
    // month does not return the original day.
    let jan31 = DateTime::<Utc>::new(2021, 1, 31).unwrap();
    let feb = jan31.add_interval(Interval::from_months(1));
    assert_eq!((feb.month(), feb.day()), (2, 28));
    let back = feb.sub_interval(Interval::from_months(1));
    assert_eq!((back.month(), back.day()), (1, 28));
}

#[test]
fn test_interval_components() {
    let iv = Interval::from_seconds(-90);
    let (negative, duration) = iv.get_time_duration();
    assert!(negative);
    assert_eq!(duration.as_secs(), 90);
    assert_eq!(duration.subsec_nanos(), 0);
    assert_eq!(iv.total_months(), 0);
    assert_eq!(Interval::from_months(14).total_months(), 14);
    assert_eq!(Interval::from_days(-3).days(), -3);
    assert_eq!(Duration::new(5, 250_000_000).subsec_nanos(), 250_000_000);
}

#[test]
fn test_between_and_days_between() {
    let a = DateTime::<Utc>::new(2020, 1, 31).unwrap();
    let b = DateTime::<Utc>::new(2020, 3, 1).unwrap().with_hour(6).unwrap();
    let iv = Interval::between(&a, &b);
    assert_eq!(iv.total_months(), 1);
    assert_eq!(iv.days(), 1);
    let (negative, duration) = iv.get_time_duration();
    assert!(!negative);
    assert_eq!(duration.as_secs(), 6 * 3600);
    // Adding the difference back lands exactly on the later value.
    let rebuilt = a.add_interval(iv);
    assert_eq!(rebuilt.cmp_cross_timezone(&b), Ordering::Equal);

    // The reverse direction negates every component.
    let rev = Interval::between(&b, &a);
    assert_eq!(rev.total_months(), -1);
    assert_eq!(rev.days(), -1);
    assert!(rev.get_time_duration().0);

    let dv = Interval::days_between(&a, &b);
    assert_eq!(dv.total_months(), 0);
    assert_eq!(dv.days(), 30);
    assert_eq!(dv.total_seconds_from_days(), 30 * 86400 + 6 * 3600);

    // Across differing zones the difference is between instants.
    let plus3 = UtcOffset::from_hms(3, 0, 0).unwrap();
    let same_instant = b.in_timezone(plus3);
    let zero = Interval::days_between(&b, &same_instant);
    assert_eq!((zero.days(), zero.total_seconds_from_days()), (0, 0));
}
