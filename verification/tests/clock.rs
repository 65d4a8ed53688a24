use cpc_breadcrumbs::clock::{
    day_name, hours_to_reconcile, is_older_than, is_stale_age, moment, named_day, today, Timestamp,
    NANOS_PER_HOUR,
};

const FIRST: i64 = -8_334_601_228_800;
const LAST: i64 = 8_210_266_876_799;

#[test]
fn instants_end_where_dates_end() {
    assert_eq!(chrono::DateTime::<chrono::Utc>::MIN_UTC.timestamp(), FIRST);
    assert_eq!(chrono::DateTime::<chrono::Utc>::MAX_UTC.timestamp(), LAST);
    assert!(Timestamp::new(FIRST, 0).is_some());
    assert!(Timestamp::new(FIRST - 1, 0).is_none());
    assert!(Timestamp::new(LAST, 999_999_999).is_some());
    assert!(Timestamp::new(LAST + 1, 0).is_none());
    assert!(Timestamp::new(0, 2_000_000_000).is_none());
}

#[test]
fn leap_seconds_end_a_minute() {
    assert!(Timestamp::new(59, 1_500_000_000).is_some());
    assert!(Timestamp::new(58, 1_500_000_000).is_none());
    assert!(Timestamp::new(-1, 1_500_000_000).is_some());
    assert!(Timestamp::new(-2, 1_500_000_000).is_none());
    for secs in [FIRST, FIRST + 59, -61, -60, -1, 0, 59, 119, LAST] {
        assert_eq!(
            Timestamp::new(secs, 1_000_000_000).is_some(),
            chrono::DateTime::from_timestamp(secs, 1_000_000_000).is_some()
        );
    }
}

#[test]
fn every_instant_can_be_written() {
    for (secs, nanos) in [
        (FIRST, 0),
        (FIRST + 59, 1_999_999_999),
        (LAST, 1_999_999_999),
        (0, 0),
        (59, 1_000_000_000),
    ] {
        let t = Timestamp::new(secs, nanos).unwrap();
        assert!(!t.to_rfc3339().is_empty());
    }
}

#[test]
fn stamps_read_back() {
    for (secs, nanos) in [
        (-62_167_219_200, 0),
        (-62_167_219_200, 999_999_999),
        (253_402_300_799, 999_999_999),
        (1_709_294_400, 5),
        (1_709_294_400, 120_000_000),
        (0, 0),
    ] {
        let t = Timestamp::new(secs, nanos).unwrap();
        let back = Timestamp::parse(&t.to_rfc3339()).unwrap();
        assert_eq!(back.since(&t), 0);
        assert_eq!(back.to_rfc3339(), t.to_rfc3339());
    }
    let noon = Timestamp::new(1_709_294_400, 0).unwrap();
    assert_eq!(noon.to_rfc3339(), "2024-03-01T12:00:00+00:00");
}

#[test]
fn stamps_with_an_offset_are_read() {
    let a = Timestamp::parse("2024-03-01T12:00:00+00:00").unwrap();
    let b = Timestamp::parse("2024-03-01T14:30:00+02:30").unwrap();
    assert_eq!(a.since(&b), 0);
    assert_eq!(a.unix_nanos(), 1_709_294_400_000_000_000);
    assert!(Timestamp::parse("2024-03-01").is_none());
    assert!(Timestamp::parse("").is_none());
}

#[test]
fn ages_are_signed_nanoseconds() {
    let a = Timestamp::new(100, 250_000_000).unwrap();
    let b = Timestamp::new(98, 750_000_000).unwrap();
    assert_eq!(a.since(&b), 1_500_000_000);
    assert_eq!(b.since(&a), -1_500_000_000);
    let first = Timestamp::new(FIRST, 0).unwrap();
    let last = Timestamp::new(LAST, 999_999_999).unwrap();
    assert_eq!(
        last.since(&first),
        (LAST as i128 - FIRST as i128) * 1_000_000_000 + 999_999_999
    );
    assert_eq!(a.age_of("1970-01-01T00:01:39Z"), Some(1_250_000_000));
    assert_eq!(a.age_of("not a time"), None);
}

#[test]
fn a_leap_second_counts_within_its_day() {
    // Half a second into the leap second 23:59:60, against later and earlier instants.
    let leap = Timestamp::new(59, 1_500_000_000).unwrap();
    let next = Timestamp::new(60, 0).unwrap();
    assert_eq!(next.since(&leap), 500_000_000);
    assert_eq!(leap.since(&next), -500_000_000);
    let before = Timestamp::new(59, 0).unwrap();
    assert_eq!(leap.since(&before), 1_500_000_000);
    for (a, b) in [((59, 1_200_000_000), (86_459, 1_700_000_000)), ((119, 1_000_000_000), (3, 0))] {
        let x = Timestamp::new(a.0, a.1).unwrap();
        let y = Timestamp::new(b.0, b.1).unwrap();
        let cx = chrono::DateTime::from_timestamp(a.0, a.1).unwrap();
        let cy = chrono::DateTime::from_timestamp(b.0, b.1).unwrap();
        let d = cx.signed_duration_since(cy);
        assert_eq!(
            x.since(&y),
            d.num_seconds() as i128 * 1_000_000_000 + d.subsec_nanos() as i128
        );
    }
}

#[test]
fn the_clock_is_read() {
    let a = Timestamp::now();
    let b = chrono::Utc::now().timestamp();
    let secs = (a.unix_nanos() / 1_000_000_000) as i64;
    assert!((b - secs).abs() <= 5);
}

#[test]
fn a_moment_is_the_local_time() {
    let text = moment();
    assert_eq!(text.len(), 15);
    let read = chrono::NaiveDateTime::parse_from_str(&text, "%Y%m%d_%H%M%S").unwrap();
    let now = chrono::Local::now().naive_local();
    assert!((now - read).num_seconds().abs() <= 5);
    let digits = |from: usize, to: usize| text[from..to].parse::<u32>().unwrap();
    assert_eq!(chrono::Datelike::year(&read) as u32, digits(0, 4));
    assert_eq!(chrono::Datelike::month(&read), digits(4, 6));
    assert_eq!(chrono::Datelike::day(&read), digits(6, 8));
    assert_eq!(&text[8..9], "_");
    assert_eq!(chrono::Timelike::hour(&read), digits(9, 11));
    assert_eq!(chrono::Timelike::minute(&read), digits(11, 13));
    assert_eq!(chrono::Timelike::second(&read), digits(13, 15));
}

#[test]
fn years_are_written_in_four_digits_or_signed() {
    // The form of the year in a moment, at the years that the clock of a test does not show.
    for (year, text) in [
        (0, "0000"),
        (999, "0999"),
        (9_999, "9999"),
        (10_000, "+10000"),
        (-1, "-0001"),
        (-12_345, "-12345"),
    ] {
        let day = chrono::NaiveDate::from_ymd_opt(year, 2, 3).unwrap();
        assert_eq!(day.format("%Y%m%d").to_string(), format!("{}0203", text));
    }
}

#[test]
fn thresholds_have_a_range() {
    // Every number of hours is a threshold; beyond the ages that instants can have, nothing is older.
    let first = Timestamp::new(FIRST, 0).unwrap();
    let last = Timestamp::new(LAST, 999_999_999).unwrap();
    let oldest = last.since(&first);
    assert!(is_older_than(oldest, 4_000_000_000));
    assert!(!is_older_than(oldest, 1 << 62));
    assert!(!is_older_than(oldest, i64::MAX as u64));
    assert!(!is_older_than(oldest, i64::MAX as u64 + 1));
    assert!(!is_older_than(oldest, u64::MAX));
}

#[test]
fn ages_are_compared_with_hours() {
    assert!(!is_older_than(2 * NANOS_PER_HOUR, 2));
    assert!(is_older_than(2 * NANOS_PER_HOUR + 1, 2));
    assert!(!is_older_than(-1, 0));
    assert!(!is_older_than(0, 0));
    assert!(is_older_than(1, 0));
    assert!(!is_older_than(0, u64::MAX));
    assert!(!is_older_than(50 * NANOS_PER_HOUR, u64::MAX));
    assert!(is_stale_age(Some(4 * NANOS_PER_HOUR)));
    assert!(!is_stale_age(Some(4 * NANOS_PER_HOUR - 1)));
    assert!(!is_stale_age(None));
}

#[test]
fn reconciliation_waits_thirty_minutes() {
    let half = NANOS_PER_HOUR / 2;
    assert_eq!(hours_to_reconcile(Some(half), 0), None);
    assert_eq!(hours_to_reconcile(Some(half + 1), 0), Some(0));
    assert_eq!(hours_to_reconcile(Some(half + 1), u64::MAX), None);
    assert_eq!(hours_to_reconcile(Some(50 * NANOS_PER_HOUR), u64::MAX), None);
    assert_eq!(hours_to_reconcile(Some(50 * NANOS_PER_HOUR - 1), 48), Some(49));
    assert_eq!(hours_to_reconcile(Some(48 * NANOS_PER_HOUR), 48), None);
    assert_eq!(hours_to_reconcile(None, 48), None);
}

#[test]
fn days_have_names() {
    assert_eq!(day_name(1), "0001-01-01");
    assert_eq!(day_name(738_945), "2024-02-29");
    assert_eq!(day_name(3_652_059), "9999-12-31");
    for day in [1, 2, 365, 366, 719_163, 738_945, 3_652_059] {
        assert_eq!(named_day(&day_name(day)), Some(day));
    }
    // The ends of the calendar have names too.
    assert!(!day_name(-95_746_129).is_empty());
    assert!(!day_name(95_745_399).is_empty());
    let min = chrono::Datelike::num_days_from_ce(&chrono::NaiveDate::MIN);
    let max = chrono::Datelike::num_days_from_ce(&chrono::NaiveDate::MAX);
    assert_eq!((min, max), (-95_746_129, 95_745_399));
}

#[test]
fn other_names_are_no_days() {
    assert_eq!(named_day("2024-02-30"), None);
    assert_eq!(named_day("notes"), None);
    assert_eq!(named_day(""), None);
}

#[test]
fn today_is_the_local_day() {
    let before = chrono::Local::now().format("%Y-%m-%d").to_string();
    let name = day_name(today());
    let after = chrono::Local::now().format("%Y-%m-%d").to_string();
    assert!(name == before || name == after);
}
