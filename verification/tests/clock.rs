use var_desktop::clock::current_local_timestamp;
use var_desktop::clock::{
    format_compact_datetime, format_datetime, format_datetime_millis, format_two_digits, format_year_width4,
    now_string, LocalTimestamp,
};

fn ts(year: i32, month: u32, day: u32, hour: u32, minute: u32, second: u32, nanosecond: u32) -> LocalTimestamp {
    LocalTimestamp { year, month, day, hour, minute, second, nanosecond }
}

#[test]
fn datetime_formats() {
    let t = ts(2024, 2, 29, 23, 59, 58, 7_000_000);
    assert_eq!(format_datetime(&t), "2024-02-29 23:59:58");
    assert_eq!(format_datetime_millis(&t), "2024-02-29 23:59:58.007");
    assert_eq!(format_compact_datetime(&t), "20240229-235958");
}

#[test]
fn leap_seconds_show_as_sixty() {
    let t = ts(2016, 12, 31, 23, 59, 59, 1_500_000_000);
    assert_eq!(format_datetime(&t), "2016-12-31 23:59:60");
    assert_eq!(format_datetime_millis(&t), "2016-12-31 23:59:60.500");
}

#[test]
fn year_and_digit_padding() {
    assert_eq!(format_year_width4(7), "0007");
    assert_eq!(format_year_width4(-7), "-007");
    assert_eq!(format_year_width4(12345), "12345");
    assert_eq!(format_two_digits(3), "03");
    assert_eq!(format_two_digits(12), "12");
    assert_eq!(format_datetime(&ts(12345, 1, 2, 3, 4, 5, 0)), "+12345-01-02 03:04:05");
    assert_eq!(format_datetime(&ts(-44, 3, 15, 0, 0, 0, 0)), "-0044-03-15 00:00:00");
}

#[test]
fn now_string_has_the_stored_shape() {
    let s = now_string();
    assert_eq!(s.len(), 19);
    assert_eq!(&s[4..5], "-");
    assert_eq!(&s[10..11], " ");
    assert_eq!(&s[13..14], ":");
}

#[test]
fn current_local_timestamp_is_in_range() {
    let t = current_local_timestamp();
    assert!((1..=12).contains(&t.month));
    assert!((1..=31).contains(&t.day));
    assert!(t.hour < 24 && t.minute < 60 && t.second < 60);
}
