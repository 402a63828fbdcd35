use gmap::dates::{
    commit_time, cutoff_from, cutoff_timestamp, midnight, parse_date_text, parse_natural_duration, resolve_range, secs_before,
    NaturalDays,
};
use gmap::error::GmapError;
use gmap::model::Timestamp;

fn at(secs: i64) -> Timestamp {
    Timestamp::from_secs(secs)
}

const NOW: Timestamp = Timestamp { secs: 1_700_000_000, nanos: 123 };

#[test]
fn rfc3339_text_is_read_as_an_instant() {
    assert_eq!(parse_date_text("1970-01-01T00:00:00Z", NOW), Some(at(0)));
    assert_eq!(parse_date_text("2015-05-15T00:00:00+00:00", NOW), Some(at(1_431_648_000)));
    assert_eq!(parse_date_text("1996-12-19T16:39:57-08:00", NOW), Some(at(851_042_397)));
    assert_eq!(
        parse_date_text("2015-05-15T00:00:00.5Z", NOW),
        Some(Timestamp { secs: 1_431_648_000, nanos: 500_000_000 })
    );
}

#[test]
fn plain_date_is_read_as_the_start_of_its_day() {
    assert_eq!(parse_date_text("1970-01-01", NOW), Some(at(0)));
    assert_eq!(parse_date_text("1970-01-02", NOW), Some(at(86_400)));
    assert_eq!(parse_date_text("2015-05-15", NOW), Some(at(1_431_648_000)));
    assert_eq!(parse_date_text("1969-12-31", NOW), Some(at(-86_400)));
    assert_eq!(parse_date_text("2024-02-30", NOW), None);
}

#[test]
fn midnight_counts_days_from_the_epoch() {
    assert_eq!(midnight(719_163), at(0));
    assert_eq!(midnight(719_164), at(86_400));
    assert_eq!(midnight(719_162), at(-86_400));
    assert_eq!(midnight(1), at(-62_135_596_800));
}

#[test]
fn natural_durations_are_read_in_days() {
    assert_eq!(parse_natural_duration("3 days ago"), NaturalDays::Days(3));
    assert_eq!(parse_natural_duration("1 day ago"), NaturalDays::Days(1));
    assert_eq!(parse_natural_duration("2 weeks ago"), NaturalDays::Days(14));
    assert_eq!(parse_natural_duration("1 week ago"), NaturalDays::Days(7));
    assert_eq!(parse_natural_duration("6 months ago"), NaturalDays::Days(180));
    assert_eq!(parse_natural_duration("1 month ago"), NaturalDays::Days(30));
    assert_eq!(parse_natural_duration("  2 Weeks Ago  "), NaturalDays::Days(14));
    assert_eq!(parse_natural_duration("2    days ago"), NaturalDays::Days(2));
    assert_eq!(parse_natural_duration("-2 days ago"), NaturalDays::Days(-2));
    assert_eq!(parse_natural_duration("+2 days ago"), NaturalDays::Days(2));
    assert_eq!(parse_natural_duration("0 days ago"), NaturalDays::Days(0));
}

#[test]
fn other_texts_are_no_durations() {
    assert_eq!(parse_natural_duration("days ago"), NaturalDays::NoDuration);
    assert_eq!(parse_natural_duration("two days ago"), NaturalDays::NoDuration);
    assert_eq!(parse_natural_duration("2 days"), NaturalDays::NoDuration);
    assert_eq!(parse_natural_duration("2days ago"), NaturalDays::NoDuration);
    assert_eq!(parse_natural_duration("2 years ago"), NaturalDays::NoDuration);
    assert_eq!(parse_natural_duration("HEAD~3"), NaturalDays::NoDuration);
    assert_eq!(parse_natural_duration(""), NaturalDays::NoDuration);
}

#[test]
fn durations_that_do_not_fit_are_too_long() {
    assert_eq!(
        parse_natural_duration("9223372036854775807 days ago"),
        NaturalDays::Days(i64::MAX)
    );
    assert_eq!(parse_natural_duration("9223372036854775807 weeks ago"), NaturalDays::TooLong);
    assert_eq!(parse_natural_duration("9223372036854775807 months ago"), NaturalDays::TooLong);
    assert_eq!(parse_natural_duration("9223372036854775808 days ago"), NaturalDays::NoDuration);
}

#[test]
fn natural_text_is_read_relative_to_now() {
    assert_eq!(
        parse_date_text("2 weeks ago", NOW),
        Some(Timestamp { secs: 1_700_000_000 - 14 * 86_400, nanos: 123 })
    );
    assert_eq!(
        parse_date_text("1 month ago", NOW),
        Some(Timestamp { secs: 1_700_000_000 - 30 * 86_400, nanos: 123 })
    );
    assert_eq!(
        parse_date_text("-1 day ago", NOW),
        Some(Timestamp { secs: 1_700_000_000 + 86_400, nanos: 123 })
    );
    assert_eq!(parse_date_text("0 days ago", NOW), Some(NOW));
}

#[test]
fn durations_beyond_the_calendar_are_no_dates() {
    assert_eq!(parse_date_text("9223372036854775807 days ago", NOW), None);
    assert_eq!(parse_date_text("9223372036854775807 weeks ago", NOW), None);
    assert_eq!(parse_date_text("200000000 days ago", NOW), None);
    assert_eq!(secs_before(NOW, i64::MAX), None);
    assert_eq!(secs_before(NOW, 1), Some(1_700_000_000 - 86_400));
    assert_eq!(secs_before(at(i64::MIN), -1), Some(i64::MIN + 86_400));
    assert_eq!(secs_before(at(i64::MIN), 1), None);
}

#[test]
fn revisions_are_no_dates() {
    assert_eq!(parse_date_text("HEAD~3", NOW), None);
    assert_eq!(parse_date_text("main", NOW), None);
    assert_eq!(parse_date_text("", NOW), None);
    assert_eq!(parse_date_text("2024-13-01", NOW), None);
}

#[test]
fn commit_time_rejects_seconds_beyond_the_calendar() {
    assert!(matches!(commit_time(0), Ok(t) if t == at(0)));
    assert!(matches!(commit_time(1_431_648_000), Ok(t) if t == at(1_431_648_000)));
    assert!(matches!(commit_time(-86_400), Ok(t) if t == at(-86_400)));
    assert!(matches!(commit_time(i64::MAX), Err(GmapError::InvalidTimestamp(i64::MAX))));
    assert!(matches!(commit_time(i64::MIN), Err(GmapError::InvalidTimestamp(i64::MIN))));
}

#[test]
fn range_with_start_after_end_is_rejected() {
    assert!(matches!(resolve_range(Some(at(200)), Some(at(100))), Err(GmapError::InvalidRange)));
    let same = resolve_range(Some(at(100)), Some(at(100))).unwrap();
    assert_eq!(same.since, Some(at(100)));
    assert_eq!(same.until, Some(at(100)));
    let ordered = resolve_range(Some(at(100)), Some(at(200))).unwrap();
    assert_eq!(ordered.since, Some(at(100)));
    assert_eq!(ordered.until, Some(at(200)));
    assert!(matches!(
        resolve_range(
            Some(Timestamp { secs: 100, nanos: 2 }),
            Some(Timestamp { secs: 100, nanos: 1 })
        ),
        Err(GmapError::InvalidRange)
    ));
}

#[test]
fn range_with_absent_bounds_is_open() {
    let open = resolve_range(None, None).unwrap();
    assert!(open.since.is_none() && open.until.is_none());
    let since = resolve_range(Some(at(5)), None).unwrap();
    assert_eq!(since.since, Some(at(5)));
    assert!(since.until.is_none());
    let until = resolve_range(None, Some(at(5))).unwrap();
    assert!(until.since.is_none());
    assert_eq!(until.until, Some(at(5)));
}

#[test]
fn cutoff_goes_back_by_calendar_months() {
    // 2024-03-31T12:00:00Z with some nanoseconds.
    let now = Timestamp { secs: 1_711_886_400, nanos: 42 };
    assert_eq!(cutoff_timestamp(now, 0), now);
    // One month back is the last day of February, at the same time of day.
    assert_eq!(cutoff_timestamp(now, 1), Timestamp { secs: 1_709_208_000, nanos: 42 });
    // Twelve months back is 2023-03-31.
    assert_eq!(cutoff_timestamp(now, 12), Timestamp { secs: 1_680_264_000, nanos: 42 });
    // Beyond the calendar the cutoff is now.
    assert_eq!(cutoff_timestamp(now, u32::MAX), now);
    assert_eq!(cutoff_timestamp(Timestamp { secs: i64::MAX, nanos: 0 }, 1).secs, i64::MAX);
    assert_eq!(cutoff_from(now, Some(5)), Timestamp { secs: 5, nanos: 42 });
    assert_eq!(cutoff_from(now, None), now);
}

#[test]
fn integers_are_read_as_the_standard_library_reads_them() {
    let samples = [
        "0",
        "7",
        "42",
        "-42",
        "+42",
        "007",
        "-0",
        "+0",
        "9223372036854775807",
        "9223372036854775808",
        "-9223372036854775808",
        "-9223372036854775809",
        "+9223372036854775807",
        "00000000000000000000000000000000000005",
        "99999999999999999999999999999999999999999999",
        "",
        "+",
        "-",
        "--1",
        "+-1",
        "1+",
        " 1",
        "1 ",
        "1_000",
        "0x10",
        "1.0",
        "1e3",
        "one",
        "１２",
        "٣",
        "12a",
        "a12",
    ];
    for text in samples {
        assert_eq!(gmap::number::parse_i64(text), text.parse::<i64>().ok(), "text {:?}", text);
    }
    assert_eq!(gmap::number::parse_i64("-9223372036854775808"), Some(i64::MIN));
    assert_eq!(gmap::number::parse_i64("9223372036854775807"), Some(i64::MAX));
}

#[test]
fn calendar_ends_with_the_last_second_of_its_last_day() {
    let first: i64 = -8_334_601_228_800;
    let last: i64 = 8_210_266_876_799;
    assert!(matches!(commit_time(first), Ok(t) if t == at(first)));
    assert!(matches!(commit_time(last), Ok(t) if t == at(last)));
    assert!(matches!(commit_time(first - 1), Err(GmapError::InvalidTimestamp(s)) if s == first - 1));
    assert!(matches!(commit_time(last + 1), Err(GmapError::InvalidTimestamp(s)) if s == last + 1));
    assert_eq!(gmap::calendar::FIRST_CALENDAR_SECOND, first);
    assert_eq!(gmap::calendar::LAST_CALENDAR_SECOND, last);
}
