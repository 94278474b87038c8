use imap_session::{parse_datetime, Date, DateTime};

#[test]
fn parse_from_rfc2822() {
    let res = parse_datetime("Wed, 6 Jul 2022 16:36:48 +0200 (CEST)");
    assert!(res.is_some());

    let res = parse_datetime("Wed, 6 Jul 2022 16:36:48 +0200");
    assert!(res.is_some());

    let res = parse_datetime("16 Oct 2023 12:44:35 -0400");
    assert!(res.is_some());
}

#[test]
fn parse_from_rfc3339() {
    let res = parse_datetime("1996-12-19T16:39:57-08:00");
    assert!(res.is_some());

    let res = parse_datetime("1937-01-01T12:00:27.87+00:20");
    assert!(res.is_some());
}

#[test]
fn formats_imap_date() {
    let date = Date::from_ymd_opt(2024, 1, 12).unwrap();
    assert_eq!(date.to_imap_string(), "12-Jan-2024");

    let date = Date::from_ymd_opt(2024, 4, 12).unwrap();
    assert_eq!(date.to_imap_string(), "12-Apr-2024");
}

#[test]
fn rfc2822_reading_is_moved_to_utc() {
    let res = parse_datetime("Wed, 6 Jul 2022 16:36:48 +0200").unwrap();
    assert_eq!(
        res,
        DateTime { year: 2022, month: 7, day: 6, hour: 14, minute: 36, second: 48, nanosecond: 0 }
    );
}

#[test]
fn rfc3339_reading_is_moved_to_utc() {
    let res = parse_datetime("1996-12-19T16:39:57-08:00").unwrap();
    assert_eq!(
        res,
        DateTime { year: 1996, month: 12, day: 20, hour: 0, minute: 39, second: 57, nanosecond: 0 }
    );

    let res = parse_datetime("1937-01-01T12:00:27.87+00:20").unwrap();
    assert_eq!(
        res,
        DateTime {
            year: 1937,
            month: 1,
            day: 1,
            hour: 11,
            minute: 40,
            second: 27,
            nanosecond: 870_000_000
        }
    );
}

#[test]
fn unreadable_dates_give_none() {
    assert_eq!(parse_datetime("not a date"), None);
    assert_eq!(parse_datetime(""), None);
    assert_eq!(parse_datetime("2024-13-01T00:00:00Z"), None);
}

#[test]
fn dates_exist_only_on_the_calendar() {
    assert!(Date::from_ymd_opt(2024, 2, 29).is_some());
    assert!(Date::from_ymd_opt(2023, 2, 29).is_none());
    assert!(Date::from_ymd_opt(2000, 2, 29).is_some());
    assert!(Date::from_ymd_opt(1900, 2, 29).is_none());
    assert!(Date::from_ymd_opt(2024, 4, 31).is_none());
    assert!(Date::from_ymd_opt(2024, 13, 1).is_none());
    assert!(Date::from_ymd_opt(2024, 0, 1).is_none());
    assert!(Date::from_ymd_opt(2024, 1, 0).is_none());
    assert!(Date::from_ymd_opt(262142, 12, 31).is_some());
    assert!(Date::from_ymd_opt(262143, 1, 1).is_none());
    assert!(Date::from_ymd_opt(-262143, 1, 1).is_some());
    assert!(Date::from_ymd_opt(-262144, 12, 31).is_none());
}

#[test]
fn date_parts_are_kept() {
    let date = Date::from_ymd_opt(1999, 12, 31).unwrap();
    assert_eq!((date.year(), date.month(), date.day()), (1999, 12, 31));
}

#[test]
fn imap_dates_pad_day_and_year() {
    assert_eq!(Date::from_ymd_opt(2024, 12, 5).unwrap().to_imap_string(), "05-Dec-2024");
    assert_eq!(Date::from_ymd_opt(5, 6, 30).unwrap().to_imap_string(), "30-Jun-0005");
    assert_eq!(Date::from_ymd_opt(-5, 9, 1).unwrap().to_imap_string(), "01-Sep--0005");
    assert_eq!(Date::from_ymd_opt(10000, 11, 11).unwrap().to_imap_string(), "11-Nov-+10000");
}
