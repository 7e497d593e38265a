use chrono::{Datelike, NaiveDate, NaiveDateTime};
use personalgreenbutton::{get_date, get_date_from_dst_rule, get_datetime, GreenButtonError, Weekday};

fn day(y: i32, m: u32, d: u32) -> i32 {
    NaiveDate::from_ymd_opt(y, m, d).unwrap().num_days_from_ce()
}

fn seconds(text: &str) -> i64 {
    NaiveDateTime::parse_from_str(text, "%Y-%m-%d %H:%M:%S").unwrap().and_utc().timestamp()
}

// 0: DST starts/ends on the Day of the Month
#[test]
fn operator0() {
    let date = get_date(2025, Weekday::Tue /* ignored */, 18, 0, 6).unwrap();
    assert_eq!(date, day(2025, 6, 18));
}

// 1: the Day of the Week that is on or after the Day of the Month.
#[test]
fn operator1() {
    let date = get_date(2025, Weekday::Tue, 14, 1, 2).unwrap();
    assert_eq!(date, day(2025, 2, 18));
}

#[test]
fn operator1_equals() {
    let date = get_date(2025, Weekday::Tue, 11, 1, 2).unwrap();
    assert_eq!(date, day(2025, 2, 11));
}

// 7: the last occurrence of the Day of the Week in a month.
#[test]
fn operator7() {
    let date = get_date(2025, Weekday::Tue, 1 /* ignored */, 7, 2).unwrap();
    assert_eq!(date, day(2025, 2, 25));
}

#[test]
fn operator7_december() {
    let date = get_date(2025, Weekday::Tue, 1 /* ignored */, 7, 12).unwrap();
    assert_eq!(date, day(2025, 12, 30));
}

// 4: the third occurrence of the Day of the Week in a month.
#[test]
fn operator4() {
    let date = get_date(2025, Weekday::Tue, 1 /* ignored */, 4, 2).unwrap();
    assert_eq!(date, day(2025, 2, 18));
}

#[test]
fn get_datetime_test() {
    let date = get_datetime(2025, 3012, 2, Weekday::Tue /* ignored */, 18, 0, 6).unwrap();
    assert_eq!(date, seconds("2025-06-18 02:50:12"));
}

#[test]
fn documentation_ex1() {
    let rule = u32::from_str_radix("360E2000", 16).unwrap();
    assert_eq!(
        get_date_from_dst_rule(rule, 2020).unwrap().unwrap(),
        seconds("2020-03-10 02:00:00")
    );
}

#[test]
fn fifth_occurrence_outside_the_month_is_no_date() {
    // February 2025 has four Tuesdays.
    assert_eq!(get_date(2025, Weekday::Tue, 1, 6, 2), None);
    // April 2025 has five Tuesdays: the 1st, 8th, 15th, 22nd and 29th.
    assert_eq!(get_date(2025, Weekday::Tue, 1, 6, 4), Some(day(2025, 4, 29)));
}

#[test]
fn invalid_day_of_month_is_no_date() {
    assert_eq!(get_date(2025, Weekday::Mon, 30, 0, 2), None);
    assert_eq!(get_date(2024, Weekday::Mon, 29, 0, 2), Some(day(2024, 2, 29)));
    assert_eq!(get_date(2025, Weekday::Mon, 1, 0, 0), None);
}

#[test]
fn sentinel_rule_is_no_transition() {
    assert_eq!(get_date_from_dst_rule(0xFFFF_FFFF, 2020), Ok(None));
}

#[test]
fn out_of_range_fields_are_errors() {
    // seconds 4000
    assert_eq!(get_date_from_dst_rule(0x3600_0FA0, 2020), Err(GreenButtonError::InvalidDstRule));
    // hours 24
    assert_eq!(get_date_from_dst_rule(0x3601_8000, 2020), Err(GreenButtonError::InvalidDstRule));
    // month 13
    assert_eq!(get_date_from_dst_rule(0xD600_0000, 2020), Err(GreenButtonError::InvalidDstRule));
}

#[test]
fn end_rule_of_the_documented_zone() {
    // Month 11, operator 2 (first), weekday field 7 (as decoded: Tuesday), 02:00.
    let rule = u32::from_str_radix("B40E2000", 16).unwrap();
    assert_eq!(
        get_date_from_dst_rule(rule, 2020).unwrap().unwrap(),
        seconds("2020-11-03 02:00:00")
    );
}

#[test]
fn local_time_adds_dst_only_between_transitions() {
    let start = u32::from_str_radix("360E2000", 16).unwrap();
    let end = u32::from_str_radix("B40E2000", 16).unwrap();
    let summer = seconds("2020-06-01 12:00:00");
    let winter = seconds("2020-01-15 12:00:00");
    assert_eq!(personalgreenbutton::local_time_of(summer, start, end, 3600, -18000), Some(summer + 3600 - 18000));
    assert_eq!(personalgreenbutton::local_time_of(winter, start, end, 3600, -18000), Some(winter - 18000));
    // An invalid rule means no daylight-saving adjustment that year.
    assert_eq!(personalgreenbutton::local_time_of(summer, 0x3600_0FA0, end, 3600, -18000), Some(summer - 18000));
}

#[test]
fn month_zero_is_an_invalid_rule() {
    assert_eq!(get_date_from_dst_rule(0x0120_2000, 2020), Err(GreenButtonError::InvalidDstRule));
}
