use yummy_indexing::utils_module::time_utils::{
    get_add_date_from_naivedate, get_add_month_from_naivedate, get_compact_str_from_naive_datetime,
    get_current_kor_naive_datetime, get_current_kor_naivedate,
    get_current_kor_naivedate_first_date, get_current_utc_naive_datetime, get_lastday_naivedate,
    get_naive_date_from_str, get_naive_datetime_from_str, get_naivedate, get_naivedatetime,
    get_naivetime, get_str_curdatetime, get_str_curdatetime_utc, get_str_from_naive_datetime,
    get_str_from_naivedate, get_this_year_naivedatetime, validate_date_format, whole_number_text,
    NaiveDate,
};
use yummy_indexing::error::SyncError;

fn detail_of<T>(r: Result<T, SyncError>) -> String {
    match r {
        Err(SyncError::Parse { detail }) => detail,
        Err(other) => panic!("unexpected failure {:?}", other),
        Ok(_) => panic!("expected a failure"),
    }
}

fn ymd(date: NaiveDate) -> (i32, u32, u32) {
    (date.year(), date.month(), date.day())
}

#[test]
fn naivedate_accepts_calendar_days_only() {
    assert_eq!(ymd(get_naivedate(2024, 2, 29).unwrap()), (2024, 2, 29));
    assert!(get_naivedate(2023, 2, 29).is_err());
    assert!(get_naivedate(1900, 2, 29).is_err());
    assert_eq!(ymd(get_naivedate(2000, 2, 29).unwrap()), (2000, 2, 29));
    assert!(get_naivedate(2024, 0, 1).is_err());
    assert!(get_naivedate(2024, 13, 1).is_err());
    assert!(get_naivedate(2024, 4, 31).is_err());
    assert!(get_naivedate(2024, 4, 0).is_err());
}

#[test]
fn naivedate_year_range_is_that_of_chrono() {
    assert!(get_naivedate(262142, 12, 31).is_ok());
    assert!(get_naivedate(262143, 1, 1).is_err());
    assert!(get_naivedate(-262143, 1, 1).is_ok());
    assert!(get_naivedate(-262144, 12, 31).is_err());
}

#[test]
fn naivetime_accepts_clock_times_only() {
    let t = get_naivetime(23, 59, 59).unwrap();
    assert_eq!((t.hour(), t.minute(), t.second(), t.nanosecond()), (23, 59, 59, 0));
    assert!(get_naivetime(24, 0, 0).is_err());
    assert!(get_naivetime(0, 60, 0).is_err());
    assert!(get_naivetime(0, 0, 60).is_err());
}

#[test]
fn naivedatetime_joins_date_and_time() {
    let dt = get_naivedatetime(2025, 3, 3, 4, 5, 6).unwrap();
    assert_eq!(ymd(dt.date()), (2025, 3, 3));
    assert_eq!((dt.time().hour(), dt.time().minute(), dt.time().second()), (4, 5, 6));
    assert!(get_naivedatetime(2025, 2, 30, 4, 5, 6).is_err());
    assert!(get_naivedatetime(2025, 2, 3, 25, 5, 6).is_err());
}

#[test]
fn date_is_written_with_hyphens() {
    let d = get_naivedate(2025, 2, 20).unwrap();
    assert_eq!(get_str_from_naivedate(d), "2025-02-20");
    assert_eq!(get_str_from_naivedate(get_naivedate(987, 1, 5).unwrap()), "0987-01-05");
    assert_eq!(get_str_from_naivedate(get_naivedate(0, 1, 5).unwrap()), "0000-01-05");
    assert_eq!(get_str_from_naivedate(get_naivedate(-5, 12, 31).unwrap()), "-0005-12-31");
    assert_eq!(get_str_from_naivedate(get_naivedate(12345, 6, 7).unwrap()), "+12345-06-07");
}

#[test]
fn moment_is_written_in_both_layouts() {
    let dt = get_naivedatetime(2025, 2, 20, 9, 8, 7).unwrap();
    assert_eq!(get_str_from_naive_datetime(dt), "2025-02-20T09:08:07Z");
    assert_eq!(get_compact_str_from_naive_datetime(dt), "20250220090807");
}

#[test]
fn leap_second_is_written_as_second_sixty() {
    let dt = get_naive_datetime_from_str("2016-12-31T23:59:60Z", "%Y-%m-%dT%H:%M:%SZ").unwrap();
    assert_eq!(dt.time().second(), 59);
    assert_eq!(dt.time().nanosecond(), 1_000_000_000);
    assert_eq!(get_str_from_naive_datetime(dt), "2016-12-31T23:59:60Z");
}

#[test]
fn moments_are_ordered_field_by_field() {
    let a = get_naivedatetime(2025, 2, 20, 9, 8, 7).unwrap();
    let b = get_naivedatetime(2025, 2, 20, 9, 8, 8).unwrap();
    let c = get_naivedatetime(2024, 12, 31, 23, 59, 59).unwrap();
    assert!(a.is_before(&b));
    assert!(!b.is_before(&a));
    assert!(!a.is_before(&a));
    assert!(c.is_before(&a));
    let leap = get_naive_datetime_from_str("2016-12-31T23:59:60Z", "%Y-%m-%dT%H:%M:%SZ").unwrap();
    let after = get_naivedatetime(2017, 1, 1, 0, 0, 0).unwrap();
    assert!(leap.is_before(&after));
}

#[test]
fn moment_is_read_from_text() {
    let dt = get_naive_datetime_from_str("2025-03-03T01:02:03Z", "%Y-%m-%dT%H:%M:%SZ").unwrap();
    assert_eq!(ymd(dt.date()), (2025, 3, 3));
    assert_eq!((dt.time().hour(), dt.time().minute(), dt.time().second()), (1, 2, 3));
    assert!(get_naive_datetime_from_str("2025-03-03", "%Y-%m-%dT%H:%M:%SZ").is_err());
    assert!(get_naive_datetime_from_str("2025-02-30T01:02:03Z", "%Y-%m-%dT%H:%M:%SZ").is_err());
}

#[test]
fn date_is_read_from_text() {
    assert_eq!(ymd(get_naive_date_from_str("2025-03-03", "%Y-%m-%d").unwrap()), (2025, 3, 3));
    assert!(get_naive_date_from_str("03/03/2025", "%Y-%m-%d").is_err());
}

#[test]
fn last_day_of_month() {
    let last = |y, m, d| ymd(get_lastday_naivedate(get_naivedate(y, m, d).unwrap()).unwrap());
    assert_eq!(last(2024, 2, 10), (2024, 2, 29));
    assert_eq!(last(2023, 2, 10), (2023, 2, 28));
    assert_eq!(last(2023, 12, 1), (2023, 12, 31));
    assert_eq!(last(2023, 4, 30), (2023, 4, 30));
    assert!(get_lastday_naivedate(get_naivedate(262142, 12, 1).unwrap()).is_err());
    assert_eq!(last(262142, 11, 1), (262142, 11, 30));
}

#[test]
fn months_are_added_and_the_day_is_clamped() {
    let shift = |y, m, d, n| {
        ymd(get_add_month_from_naivedate(get_naivedate(y, m, d).unwrap(), n).unwrap())
    };
    assert_eq!(shift(2024, 1, 31, 1), (2024, 2, 29));
    assert_eq!(shift(2023, 1, 31, 1), (2023, 2, 28));
    assert_eq!(shift(2024, 10, 31, 1), (2024, 11, 30));
    assert_eq!(shift(2024, 11, 15, 2), (2025, 1, 15));
    assert_eq!(shift(2024, 1, 15, -1), (2023, 12, 15));
    assert_eq!(shift(2024, 3, 31, -13), (2023, 2, 28));
    assert_eq!(shift(2024, 5, 5, 0), (2024, 5, 5));
    assert_eq!(shift(2024, 12, 5, 12), (2025, 12, 5));
    assert_eq!(shift(2024, 1, 5, -12), (2023, 1, 5));
    assert_eq!(shift(0, 1, 5, -1), (-1, 12, 5));
}

#[test]
fn months_outside_the_years_are_refused() {
    let d = get_naivedate(2024, 1, 31).unwrap();
    assert!(get_add_month_from_naivedate(d, i32::MAX).is_err());
    assert!(get_add_month_from_naivedate(d, i32::MIN).is_err());
    let late = get_naivedate(262142, 11, 1).unwrap();
    assert!(get_add_month_from_naivedate(late, 1).is_err());
    assert!(get_add_month_from_naivedate(late, 2).is_err());
    assert!(get_add_month_from_naivedate(late, 0).is_ok());
}

#[test]
fn days_are_added() {
    let d = get_naivedate(2024, 2, 28).unwrap();
    assert_eq!(ymd(get_add_date_from_naivedate(d, 2).unwrap()), (2024, 3, 1));
    assert_eq!(ymd(get_add_date_from_naivedate(d, -59).unwrap()), (2023, 12, 31));
    let late = get_naivedate(262142, 12, 31).unwrap();
    assert!(get_add_date_from_naivedate(late, 1).is_err());
}

#[test]
fn format_is_validated_by_regular_expression() {
    assert_eq!(validate_date_format("2025-02-20", r"^\d{4}-\d{2}-\d{2}$").unwrap(), true);
    assert_eq!(validate_date_format("20250220", r"^\d{4}-\d{2}-\d{2}$").unwrap(), false);
    assert!(validate_date_format("2025-02-20", r"(").is_err());
}

#[test]
fn clock_gives_moments_that_exist() {
    let utc = get_current_utc_naive_datetime();
    let kor = get_current_kor_naive_datetime();
    assert!(get_naivedate(utc.date().year(), utc.date().month(), utc.date().day()).is_ok());
    assert!(utc.date().year() >= 2024);
    assert!(!kor.is_before(&utc));
    let today = get_current_kor_naivedate();
    let first = get_current_kor_naivedate_first_date().unwrap();
    assert_eq!(first.day(), 1);
    assert!(first.month() >= 1 && first.month() <= 12);
    assert!(today.day() >= 1);
}

#[test]
fn current_moment_is_written_with_twenty_characters() {
    let utc = get_str_curdatetime_utc();
    let kor = get_str_curdatetime();
    assert_eq!(utc.len(), 20);
    assert_eq!(kor.len(), 20);
    assert!(utc.ends_with('Z'));
    assert!(get_naive_datetime_from_str(&utc, "%Y-%m-%dT%H:%M:%SZ").is_ok());
    assert!(get_naive_datetime_from_str(&kor, "%Y-%m-%dT%H:%M:%SZ").is_ok());
}

#[test]
fn moment_of_this_year() {
    let dt = get_this_year_naivedatetime(3, 4, 5, 6).unwrap();
    assert_eq!((dt.date().month(), dt.date().day()), (3, 4));
    assert_eq!((dt.time().hour(), dt.time().minute(), dt.time().second()), (5, 6, 0));
    assert_eq!(dt.date().year(), get_current_kor_naivedate().year());
    assert!(get_this_year_naivedatetime(13, 4, 5, 6).is_err());
    assert!(get_this_year_naivedatetime(3, 4, 24, 6).is_err());
}

#[test]
fn whole_numbers_are_written_in_decimal() {
    assert_eq!(whole_number_text(0), "0");
    assert_eq!(whole_number_text(7), "7");
    assert_eq!(whole_number_text(10), "10");
    assert_eq!(whole_number_text(2025), "2025");
    assert_eq!(whole_number_text(-1), "-1");
    assert_eq!(whole_number_text(-120), "-120");
    assert_eq!(whole_number_text(i64::MAX), "9223372036854775807");
    assert_eq!(whole_number_text(i64::MIN), "-9223372036854775808");
}

#[test]
fn years_of_six_digits_are_written_in_full() {
    assert_eq!(get_str_from_naivedate(get_naivedate(262142, 12, 31).unwrap()), "+262142-12-31");
    assert_eq!(get_str_from_naivedate(get_naivedate(-262143, 1, 1).unwrap()), "-262143-01-01");
    assert_eq!(get_str_from_naivedate(get_naivedate(100000, 1, 1).unwrap()), "+100000-01-01");
}

#[test]
fn failure_of_a_date_names_the_three_numbers() {
    assert_eq!(
        detail_of(get_naivedate(2023, 2, 29)),
        "Invalid date => year: 2023, month: 2, day: 29"
    );
    assert_eq!(detail_of(get_naivedate(-5, 0, 1)), "Invalid date => year: -5, month: 0, day: 1");
    assert_eq!(detail_of(get_naivetime(24, 0, 61)), "Invalid time => hour: 24, min: 0, sec: 61");
}

#[test]
fn failure_of_a_moment_is_that_of_the_date_first() {
    assert_eq!(
        detail_of(get_naivedatetime(2025, 2, 30, 25, 0, 0)),
        "Invalid date => year: 2025, month: 2, day: 30"
    );
    assert_eq!(
        detail_of(get_naivedatetime(2025, 2, 3, 25, 0, 0)),
        "Invalid time => hour: 25, min: 0, sec: 0"
    );
}

#[test]
fn failure_of_a_reading_holds_the_text_that_was_read() {
    assert_eq!(
        detail_of(get_naive_datetime_from_str("yesterday", "%Y-%m-%dT%H:%M:%SZ")),
        "Failed to parse date string: yesterday"
    );
    assert_eq!(
        detail_of(get_naive_date_from_str("03/03/2025", "%Y-%m-%d")),
        "Failed to parse date string: 03/03/2025"
    );
    assert_eq!(detail_of(validate_date_format("x", "(")), "Invalid regular expression: (");
    let late = get_naivedate(262142, 12, 31).unwrap();
    assert_eq!(detail_of(get_add_date_from_naivedate(late, 1)), "Invalid date calculation");
}

#[test]
fn failure_of_a_month_shift_names_the_month_it_reached() {
    let d = get_naivedate(2024, 1, 31).unwrap();
    assert_eq!(
        detail_of(get_add_month_from_naivedate(d, i32::MAX)),
        "Invalid date => year: 178958994, month: 8, day: 1"
    );
    let late = get_naivedate(262142, 11, 1).unwrap();
    assert_eq!(
        detail_of(get_add_month_from_naivedate(late, 1)),
        "Invalid date => year: 262143, month: 1, day: 1"
    );
    assert_eq!(
        detail_of(get_lastday_naivedate(get_naivedate(262142, 12, 1).unwrap())),
        "Invalid date => year: 262143, month: 1, day: 1"
    );
}

#[test]
fn reading_gives_back_what_writing_wrote() {
    let dt = get_naivedatetime(1999, 12, 31, 23, 59, 58).unwrap();
    let text = get_str_from_naive_datetime(dt);
    let read = get_naive_datetime_from_str(&text, "%Y-%m-%dT%H:%M:%SZ").unwrap();
    assert!(!read.is_before(&dt) && !dt.is_before(&read));
}
