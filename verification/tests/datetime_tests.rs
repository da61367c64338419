use org_x::datetime::OrgDatetime;
use org_x::timestamp::OrgTimestamp;

#[test]
fn test_date_creation() {
    let date = OrgDatetime::new(2023, 5, 10, "Wed");

    assert_eq!(date.year, 2023);
    assert_eq!(date.month, 5);
    assert_eq!(date.day, 10);
    assert_eq!(date.dayname, "Wed");
    assert_eq!(date.hour, None);
    assert_eq!(date.minute, None);
}

#[test]
fn test_datetime_creation() {
    let datetime = OrgDatetime::with_time(2023, 5, 10, "Wed", 14, 30);

    assert_eq!(datetime.year, 2023);
    assert_eq!(datetime.month, 5);
    assert_eq!(datetime.day, 10);
    assert_eq!(datetime.dayname, "Wed");
    assert_eq!(datetime.hour, Some(14));
    assert_eq!(datetime.minute, Some(30));
}

#[test]
fn test_from_date_string() {
    let date = OrgDatetime::from_date_string("2023-05-10").unwrap();

    assert_eq!(date.year, 2023);
    assert_eq!(date.month, 5);
    assert_eq!(date.day, 10);
    assert_eq!(date.dayname, "Wed"); // May 10, 2023 was a Wednesday
    assert_eq!(date.hour, None);
    assert_eq!(date.minute, None);
}

#[test]
fn test_from_datetime_string() {
    let datetime = OrgDatetime::from_datetime_string("2023-05-10T14:30:00").unwrap();

    assert_eq!(datetime.year, 2023);
    assert_eq!(datetime.month, 5);
    assert_eq!(datetime.day, 10);
    assert_eq!(datetime.dayname, "Wed"); // May 10, 2023 was a Wednesday
    assert_eq!(datetime.hour, Some(14));
    assert_eq!(datetime.minute, Some(30));
}

#[test]
fn test_from_date_string_rejects_malformed() {
    assert!(OrgDatetime::from_date_string("not a date").is_none());
    assert!(OrgDatetime::from_date_string("2023-13-10").is_none());
}

#[test]
fn test_format_org_date() {
    let date = OrgDatetime::new(2023, 5, 10, "Wed");
    assert_eq!(date.format_org_date(), "2023-05-10 Wed");
}

#[test]
fn test_format_org_datetime() {
    let datetime = OrgDatetime::with_time(2023, 5, 10, "Wed", 14, 30);
    assert_eq!(datetime.format_org_datetime(), "2023-05-10 Wed 14:30");

    // Test with date only
    let date = OrgDatetime::new(2023, 5, 10, "Wed");
    assert_eq!(date.format_org_datetime(), "2023-05-10 Wed");
}

#[test]
fn test_day_comparisons() {
    let date = OrgDatetime::new(2023, 5, 10, "Wed");
    assert!(date.is_on_date(2023, 5, 10));
    assert!(!date.is_on_date(2023, 5, 11));
    assert!(date.is_before_date(2023, 5, 11));
    assert!(!date.is_before_date(2023, 5, 10));
    assert!(date.is_within_week_of(2023, 5, 10));
    assert!(date.is_within_week_of(2023, 5, 4));
    assert!(!date.is_within_week_of(2023, 5, 3));
    assert!(!date.is_within_week_of(2023, 5, 11));
}

#[test]
fn test_active_timestamp_creation() {
    let ts = OrgTimestamp::active_from_date(2023, 5, 10, "Wed");

    if let OrgTimestamp::Active { start, repeater, delay } = ts {
        assert_eq!(start.year, 2023);
        assert_eq!(start.month, 5);
        assert_eq!(start.day, 10);
        assert_eq!(start.dayname, "Wed");
        assert!(repeater.is_none());
        assert!(delay.is_none());
    } else {
        panic!("Wrong timestamp type");
    }
}

#[test]
fn test_active_timestamp_from_string() {
    let ts = OrgTimestamp::active_from_string("2023-05-10").unwrap();

    if let OrgTimestamp::Active { start, repeater, delay } = ts {
        assert_eq!(start.year, 2023);
        assert_eq!(start.month, 5);
        assert_eq!(start.day, 10);
        assert_eq!(start.dayname, "Wed"); // May 10, 2023 was a Wednesday
        assert!(repeater.is_none());
        assert!(delay.is_none());
    } else {
        panic!("Wrong timestamp type");
    }
}

#[test]
fn test_format() {
    let ts = OrgTimestamp::active_from_date(2023, 5, 10, "Wed");
    assert_eq!(ts.format(), "<2023-05-10 Wed>");

    let ts_time = OrgTimestamp::active_from_datetime(2023, 5, 10, "Wed", 14, 30);
    assert_eq!(ts_time.format(), "<2023-05-10 Wed 14:30>");

    let ts_range = OrgTimestamp::active_range_from_strings("2023-05-10", "2023-05-12").unwrap();
    assert_eq!(ts_range.format(), "<2023-05-10 Wed>--<2023-05-12 Fri>");
}

#[test]
fn test_to_date_string() {
    let ts = OrgTimestamp::active_from_date(2023, 5, 10, "Wed");
    assert_eq!(ts.to_date_string(), Some("2023-05-10".to_string()));
}

#[test]
fn test_inactive_timestamp_format() {
    let ts = OrgTimestamp::inactive_from_date(2023, 5, 10, "Wed");
    assert_eq!(ts.format(), "[2023-05-10 Wed]");

    let ts2 = OrgTimestamp::inactive_from_string("2023-05-10").unwrap();
    assert_eq!(ts2.format(), "[2023-05-10 Wed]");

    let range = OrgTimestamp::inactive_range_from_strings("2023-05-10", "2023-05-12").unwrap();
    assert_eq!(range.format(), "[2023-05-10 Wed]--[2023-05-12 Fri]");
}

#[test]
fn test_timestamp_start_and_end_dates() {
    let range = OrgTimestamp::active_range_from_strings("2023-05-10", "2023-05-12").unwrap();
    assert_eq!(range.start_date().unwrap().day, 10);
    assert_eq!(range.end_date().unwrap().day, 12);

    let plain = OrgTimestamp::active_from_date(2023, 5, 10, "Wed");
    assert!(plain.end_date().is_none());
}
