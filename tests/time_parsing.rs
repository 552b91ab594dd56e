use chrono::{Datelike, NaiveDate};
use rusty_lens::picker::{parse_time_command, TimeCommand};
use rusty_lens::time::{
    now_for_relative, parse_relative_range, parse_time, relative_range_for, Timestamp, MAX_DAY, MIN_DAY,
};

fn day(y: i32, m: u32, d: u32) -> i32 {
    NaiveDate::from_ymd_opt(y, m, d).unwrap().num_days_from_ce()
}

fn ts(y: i32, mo: u32, d: u32, h: u32, mi: u32, s: u32) -> Timestamp {
    Timestamp { day: day(y, mo, d), secs: h * 3600 + mi * 60 + s, nanos: 0 }
}

#[test]
fn absolute_formats_in_order() {
    assert_eq!(parse_time("2024-03-10 09:00:00"), Some(ts(2024, 3, 10, 9, 0, 0)));
    assert_eq!(parse_time("2024-03-10T09:00:05"), Some(ts(2024, 3, 10, 9, 0, 5)));
    assert_eq!(parse_time("2024-03-10 09:07"), Some(ts(2024, 3, 10, 9, 7, 0)));
    assert_eq!(parse_time("2024-03-10"), Some(ts(2024, 3, 10, 0, 0, 0)));
    let frac = parse_time("2024-03-10T09:00:05.250").unwrap();
    assert_eq!(frac.secs, 9 * 3600 + 5);
    assert_eq!(frac.nanos, 250_000_000);
    assert_eq!(parse_time("  \"2024-03-10 09:00:00\" "), Some(ts(2024, 3, 10, 9, 0, 0)));
}

#[test]
fn date_prefix_fallback_and_failures() {
    assert_eq!(parse_time("2024-03-10Z trailing"), Some(ts(2024, 3, 10, 0, 0, 0)));
    assert_eq!(parse_time(""), None);
    assert_eq!(parse_time("   "), None);
    assert_eq!(parse_time("hello"), None);
    assert_eq!(parse_time("2024-13-40"), None);
}

#[test]
fn formatted_seconds_round_trip() {
    let instant = ts(2023, 12, 31, 23, 59, 58);
    let text = NaiveDate::from_num_days_from_ce_opt(instant.day)
        .unwrap()
        .and_hms_opt(23, 59, 58)
        .unwrap()
        .format("%Y-%m-%d %H:%M:%S")
        .to_string();
    assert_eq!(text, "2023-12-31 23:59:58");
    assert_eq!(parse_time(&text), Some(instant));
    let minute_text = "2023-12-31 23:59";
    assert_eq!(parse_time(minute_text), Some(ts(2023, 12, 31, 23, 59, 0)));
}

#[test]
fn today_is_the_whole_day() {
    let now = ts(2024, 3, 10, 9, 0, 0);
    let r = parse_relative_range("today", now).unwrap();
    assert_eq!(r, (Some(ts(2024, 3, 10, 0, 0, 0)), Some(ts(2024, 3, 10, 23, 59, 59))));
    assert_eq!(parse_relative_range("  ToDay ", now), Some(r));
}

#[test]
fn last_seven_days_starts_at_midnight() {
    let now = ts(2024, 3, 10, 9, 0, 0);
    let r = parse_relative_range("last 7 days", now).unwrap();
    assert_eq!(r, (Some(ts(2024, 3, 3, 0, 0, 0)), Some(now)));
    assert_eq!(parse_relative_range("7d", now), Some(r));
    assert_eq!(parse_relative_range("LAST 7D", now), Some(r));
}

#[test]
fn other_relative_words() {
    let now = ts(2024, 3, 1, 9, 30, 15);
    assert_eq!(
        parse_relative_range("yesterday", now),
        Some((Some(ts(2024, 2, 29, 0, 0, 0)), Some(ts(2024, 2, 29, 23, 59, 59))))
    );
    assert_eq!(parse_relative_range("24h", now), Some((Some(ts(2024, 2, 29, 9, 30, 15)), Some(now))));
    assert_eq!(parse_relative_range("last 1 hour", now), Some((Some(ts(2024, 3, 1, 8, 30, 15)), Some(now))));
    assert_eq!(parse_relative_range("12h", now), Some((Some(ts(2024, 2, 29, 21, 30, 15)), Some(now))));
    assert_eq!(parse_relative_range("last 30d", now), Some((Some(ts(2024, 1, 31, 0, 0, 0)), Some(now))));
    assert_eq!(parse_relative_range("last 2 days", now), None);
    assert_eq!(parse_relative_range("", now), None);
    assert_eq!(relative_range_for("Today", now), None);
}

#[test]
fn clock_gives_a_usable_instant() {
    let now = now_for_relative();
    assert!(now.secs < 86_400);
    assert!(parse_relative_range("today", now).is_some());
}

#[test]
fn typed_commands() {
    let now = ts(2024, 3, 10, 9, 0, 0);
    assert_eq!(parse_time_command("after 2024-01-01", now), TimeCommand::After(ts(2024, 1, 1, 0, 0, 0)));
    assert_eq!(parse_time_command("FROM 2024-01-01 10:00", now), TimeCommand::After(ts(2024, 1, 1, 10, 0, 0)));
    assert_eq!(
        parse_time_command("2024-01-01 to 2024-01-02 12:00", now),
        TimeCommand::Between(ts(2024, 1, 1, 0, 0, 0), ts(2024, 1, 2, 12, 0, 0))
    );
    assert_eq!(parse_time_command("before 2024-01-02", now), TimeCommand::Before(ts(2024, 1, 2, 0, 0, 0)));
    assert_eq!(
        parse_time_command("2024-01-01..2024-01-03", now),
        TimeCommand::Span(ts(2024, 1, 1, 0, 0, 0), ts(2024, 1, 3, 0, 0, 0))
    );
    assert_eq!(parse_time_command("2024-01-05 08:00", now), TimeCommand::From(ts(2024, 1, 5, 8, 0, 0)));
    assert_eq!(parse_time_command(" Clear ", now), TimeCommand::Clear);
    assert_eq!(parse_time_command("", now), TimeCommand::Clear);
    assert_eq!(
        parse_time_command("Today", now),
        TimeCommand::Relative(Some(ts(2024, 3, 10, 0, 0, 0)), Some(ts(2024, 3, 10, 23, 59, 59)))
    );
    assert_eq!(parse_time_command("after tomorrow", now), TimeCommand::Invalid);
    assert_eq!(
        parse_time_command("after 2024-01-01T10:30:00", now),
        TimeCommand::After(ts(2024, 1, 1, 10, 30, 0))
    );
    assert_eq!(
        parse_time_command("2024-01-01T08:00:00 TO 2024-01-01T09:15:00", now),
        TimeCommand::Between(ts(2024, 1, 1, 8, 0, 0), ts(2024, 1, 1, 9, 15, 0))
    );
    assert_eq!(
        parse_time_command("Before 2024-01-02T06:00:00", now),
        TimeCommand::Before(ts(2024, 1, 2, 6, 0, 0))
    );
}

#[test]
fn first_and_last_days_match_chrono() {
    assert_eq!(NaiveDate::MIN.num_days_from_ce(), MIN_DAY);
    assert_eq!(NaiveDate::MAX.num_days_from_ce(), MAX_DAY);
    let first = Timestamp { day: MIN_DAY, secs: 12 * 3600, nanos: 0 };
    assert_eq!(parse_relative_range("yesterday", first), None);
    assert_eq!(parse_relative_range("24h", first), None);
    let second = Timestamp { day: MIN_DAY + 1, secs: 0, nanos: 0 };
    assert_eq!(
        parse_relative_range("yesterday", second),
        Some((
            Some(Timestamp { day: MIN_DAY, secs: 0, nanos: 0 }),
            Some(Timestamp { day: MIN_DAY, secs: 86_399, nanos: 0 })
        ))
    );
}
