use core::cmp::Ordering;
use eos::{Date, DateTime, DateTimeResolution, DateTimeResolutionKind, Local, Time, Utc, UtcOffset};

fn utc_dt(
    year: i16,
    month: u8,
    day: u8,
    hour: u8,
    minute: u8,
    second: u8,
) -> DateTime<Utc> {
    DateTime::<Utc>::new(year, month, day)
        .unwrap()
        .with_hour(hour)
        .unwrap()
        .with_minute(minute)
        .unwrap()
        .with_second(second)
        .unwrap()
}

#[test]
fn test_regular_comparisons() {
    let dt = utc_dt(2012, 1, 12, 0, 0, 0);
    assert_eq!(dt.cmp_cross_timezone(&dt), Ordering::Equal);
    assert_ne!(dt.cmp_cross_timezone(&utc_dt(2012, 2, 13, 0, 0, 0)), Ordering::Equal);
    let tomorrow = utc_dt(2012, 1, 13, 0, 0, 0);
    assert_eq!(dt.cmp_cross_timezone(&tomorrow), Ordering::Less);
    assert_eq!(tomorrow.cmp_cross_timezone(&dt), Ordering::Greater);
    assert_ne!(dt.cmp_cross_timezone(&tomorrow), Ordering::Greater);
    assert_ne!(dt.cmp_cross_timezone(&tomorrow), Ordering::Equal);
    assert_ne!(tomorrow.cmp_cross_timezone(&dt), Ordering::Less);
}

#[test]
fn test_mixed_timezone_comparisons() {
    let plus3 = UtcOffset::from_hms(3, 0, 0).unwrap();
    let dt = utc_dt(2000, 1, 2, 3, 4, 5).with_timezone(plus3);
    let utc = utc_dt(2000, 1, 2, 0, 4, 5);
    let off = utc.with_hour(3).unwrap();

    assert_eq!(dt.cmp_cross_timezone(&dt), Ordering::Equal);
    assert_eq!(dt.cmp_cross_timezone(&utc), Ordering::Equal);
    assert_ne!(dt.cmp_cross_timezone(&off), Ordering::Equal);
    assert_ne!(off.cmp_cross_timezone(&utc), Ordering::Equal);
    assert_eq!(off.cmp_cross_timezone(&off), Ordering::Equal);
    assert_eq!(off.cmp_cross_timezone(&dt), Ordering::Greater);
    assert_eq!(dt.cmp_cross_timezone(&off), Ordering::Less);
    assert_ne!(off.cmp_cross_timezone(&dt), Ordering::Less);
    assert_ne!(off.cmp_cross_timezone(&utc), Ordering::Less);
    assert_eq!(off.cmp_cross_timezone(&utc), Ordering::Greater);
    assert_eq!(utc.cmp_cross_timezone(&off), Ordering::Less);

    assert_eq!(dt.cmp_without_tz(&off), Ordering::Equal);
    assert_eq!(off.cmp_without_tz(&dt), Ordering::Equal);
    assert_eq!(dt.cmp_without_tz(&utc), Ordering::Greater);
    assert_eq!(utc.cmp_without_tz(&dt), Ordering::Less);
    assert_eq!(off.cmp_without_tz(&utc), Ordering::Greater);
    assert_eq!(utc.cmp_without_tz(&off), Ordering::Less);

    let utc = utc_dt(2021, 12, 31, 0, 0, 0);
    let offset = UtcOffset::from_hms(-5, 0, 0).unwrap();
    let left = utc.in_timezone(offset);
    assert_eq!(left.cmp_cross_timezone(&utc), Ordering::Equal);
}

#[test]
fn test_timestamp() {
    assert_eq!(utc_dt(1970, 1, 1, 0, 0, 0).timestamp(), 0);
    assert_eq!(utc_dt(1970, 1, 1, 1, 2, 3).timestamp(), 3723);
    assert_eq!(utc_dt(2022, 1, 2, 20, 38, 45).timestamp(), 1641155925);
    let minus5 = UtcOffset::from_hms(-5, 0, 0).unwrap();
    assert_eq!(utc_dt(2022, 1, 2, 20, 38, 45).with_timezone(minus5).timestamp(), 1641173925);
}

#[test]
fn test_timestamp_millis_and_negative() {
    assert_eq!(utc_dt(1970, 1, 1, 1, 2, 3).timestamp_millis(), 3_723_000);
    let with_ms = utc_dt(1970, 1, 1, 0, 0, 1).with_millisecond(500).unwrap();
    assert_eq!(with_ms.timestamp_millis(), 1500);
    // Before the epoch the sub-second part truncates toward zero.
    assert_eq!(utc_dt(1969, 12, 31, 23, 59, 59).timestamp(), -1);
    assert_eq!(utc_dt(1969, 12, 31, 23, 59, 59).timestamp_millis(), -1000);
}

#[test]
fn test_from_timestamp() {
    let epoch = DateTime::<Utc>::from_timestamp(0, 0, Utc).unwrap();
    assert_eq!(epoch.year(), 1970);
    assert_eq!(epoch.month(), 1);
    assert_eq!(epoch.day(), 1);
    assert_eq!(epoch.hour(), 0);
    assert_eq!(epoch.timestamp(), 0);

    let utc = DateTime::<Utc>::from_timestamp(1641173925, 0, Utc).unwrap();
    assert_eq!(
        (utc.year(), utc.month(), utc.day(), utc.hour(), utc.minute(), utc.second()),
        (2022, 1, 3, 1, 38, 45),
    );

    let minus5 = UtcOffset::from_hms(-5, 0, 0).unwrap();
    let local = DateTime::from_timestamp(1641173925, 0, minus5).unwrap();
    assert_eq!(
        (local.year(), local.month(), local.day(), local.hour(), local.minute(), local.second()),
        (2022, 1, 2, 20, 38, 45),
    );
    assert_eq!(local.timestamp(), 1641173925);

    // A nanosecond component at or past two seconds is rejected.
    assert!(DateTime::<Utc>::from_timestamp(0, 2_000_000_000, Utc).is_err());
}

#[test]
fn test_orders_disagree_on_same_wall_clock() {
    // The same wall clock under two different offsets: the wall-clock order
    // calls them equal while the instant order does not.
    let plus3 = UtcOffset::from_hms(3, 0, 0).unwrap();
    let a = utc_dt(2000, 1, 2, 3, 4, 5).with_timezone(plus3);
    let b = utc_dt(2000, 1, 2, 3, 4, 5);
    assert_eq!(a.cmp_without_tz(&b), Ordering::Equal);
    assert_eq!(a.cmp_cross_timezone(&b), Ordering::Less);
    assert_eq!(b.cmp_cross_timezone(&a), Ordering::Greater);
    // Cross-timezone equality holds in both directions for equal instants.
    let same = utc_dt(2000, 1, 2, 0, 4, 5);
    assert_eq!(a.cmp_cross_timezone(&same), Ordering::Equal);
    assert_eq!(same.cmp_cross_timezone(&a), Ordering::Equal);
}

#[test]
fn test_shift_and_conversions() {
    let mut dt = utc_dt(2021, 12, 31, 0, 0, 0);
    dt.shift(UtcOffset::from_hms(-5, 0, 0).unwrap());
    assert_eq!((dt.year(), dt.month(), dt.day(), dt.hour()), (2021, 12, 30, 19));

    // in_timezone keeps the instant while relabeling changes it.
    let plus2 = UtcOffset::from_hms(2, 0, 0).unwrap();
    let base = utc_dt(2020, 6, 15, 12, 0, 0);
    let converted = base.in_timezone(plus2);
    assert_eq!((converted.hour(), converted.day()), (14, 15));
    assert_eq!(converted.cmp_cross_timezone(&base), Ordering::Equal);
    let relabeled = base.with_timezone(plus2);
    assert_eq!(relabeled.hour(), 12);
    assert_eq!(relabeled.cmp_cross_timezone(&base), Ordering::Less);

    // Conversion across the date line wraps the calendar day.
    let minus11 = UtcOffset::from_hms(-11, 0, 0).unwrap();
    let west = utc_dt(2000, 3, 1, 1, 30, 0).in_timezone(minus11);
    assert_eq!((west.year(), west.month(), west.day(), west.hour(), west.minute()),
        (2000, 2, 29, 14, 30));
}

#[test]
fn test_resolution_consumption() {
    let earlier = UtcOffset::from_hms(2, 0, 0).unwrap();
    let later = UtcOffset::from_hms(3, 0, 0).unwrap();
    let ambiguous = DateTimeResolution {
        kind: DateTimeResolutionKind::Ambiguous,
        earlier,
        later,
    };
    assert!(ambiguous.exact().is_err());
    assert_eq!(ambiguous.lenient().total_seconds(), 7200);
    let skipped = DateTimeResolution { kind: DateTimeResolutionKind::Skipped, earlier, later };
    assert_eq!(skipped.lenient().total_seconds(), 10800);
    let exact = DateTimeResolution {
        kind: DateTimeResolutionKind::Unambiguous,
        earlier,
        later: earlier,
    };
    assert_eq!(exact.exact().unwrap().total_seconds(), 7200);
    assert_eq!(exact.kind(), DateTimeResolutionKind::Unambiguous);
    assert_eq!(ambiguous.earlier().total_seconds(), 7200);
    assert_eq!(ambiguous.later().total_seconds(), 10800);
    // Whichever offset the policy picks is consumed through the ordinary
    // zone capability.
    let local = utc_dt(2021, 10, 31, 1, 30, 0).in_timezone(Local(ambiguous.lenient()));
    assert_eq!((local.hour(), local.minute()), (3, 30));
}

#[test]
fn test_mut_accessors() {
    let mut dt = utc_dt(2021, 3, 17, 5, 0, 0);
    *dt.time_mut() = Time::new(6, 30, 0).unwrap();
    assert_eq!((dt.hour(), dt.minute()), (6, 30));
    *dt.date_mut() = Date::new(2021, 3, 18).unwrap();
    assert_eq!(dt.day(), 18);
    let _ = dt.timezone_mut();
    assert_eq!(dt.time().hour(), 6);
    assert_eq!(dt.date().day, 18);
    assert_eq!(dt.with_time(Time::new(1, 2, 3).unwrap()).second(), 3);
    assert_eq!(dt.with_date(Date::new(2022, 1, 1).unwrap()).year(), 2022);
}

#[test]
fn test_now_smoke() {
    let now = eos::now_in(Utc);
    assert_eq!(now.cmp_cross_timezone(&now), Ordering::Equal);
    assert!(now.nanosecond() < 1_000_000_000);
    let today = DateTime::today(Utc);
    assert_eq!((today.hour(), today.minute(), today.second()), (0, 0, 0));
    // The clock reads a real instant: well after 2020-01-01, the release era
    // of the machinery this runs on, and it round-trips through from_timestamp.
    let t = now.timestamp();
    assert!(t > 1_577_836_800);
    let rebuilt = DateTime::<Utc>::from_timestamp(t, 0, Utc).unwrap();
    assert_eq!(rebuilt.timestamp(), t);
}
