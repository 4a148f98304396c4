use giv::date::{
    date_command, format_date_time, get_date_format, get_date_time, DateFormat, DateKind,
    UtcInstant, DAY_MILLIS,
};

fn fixed_instant() -> UtcInstant {
    let ms = chrono::DateTime::parse_from_rfc3339("2023-05-15T10:30:15.123Z")
        .unwrap()
        .timestamp_millis();
    UtcInstant { millis: ms }
}

#[test]
fn test_get_date_time() {
    let date = fixed_instant();
    assert_eq!(date, get_date_time(date, &DateKind::Now));
    assert_eq!(date, get_date_time(date, &DateKind::Timestamp));
    assert_eq!(date, get_date_time(date, &DateKind::Today));
    let yesterday = get_date_time(date, &DateKind::Yesterday);
    assert_eq!(date.millis - 24 * 60 * 60 * 1000, yesterday.millis);
    let tomorrow = get_date_time(date, &DateKind::Tomorrow);
    assert_eq!(date.millis + DAY_MILLIS, tomorrow.millis);
}

#[test]
fn test_get_date_format() {
    assert_eq!(
        get_date_format(&DateKind::Now, Some(DateFormat::Timestamp)),
        DateFormat::Timestamp
    );
    assert_eq!(get_date_format(&DateKind::Now, None), DateFormat::Rfc3339);
    assert_eq!(get_date_format(&DateKind::Timestamp, None), DateFormat::Timestamp);
    assert_eq!(get_date_format(&DateKind::Today, None), DateFormat::Rfc3339Date);
    assert_eq!(get_date_format(&DateKind::Tomorrow, None), DateFormat::Rfc3339Date);
    assert_eq!(get_date_format(&DateKind::Yesterday, None), DateFormat::Rfc3339Date);
}

#[test]
fn test_format_date_time() {
    let date = fixed_instant();
    assert_eq!(format_date_time(&date, &DateFormat::Rfc3339), "2023-05-15T10:30:15.123Z");
    assert_eq!(format_date_time(&date, &DateFormat::Rfc3339Date), "2023-05-15");
    assert_eq!(format_date_time(&date, &DateFormat::Rfc3339Time), "10:30:15.123Z");
    assert_eq!(format_date_time(&date, &DateFormat::Timestamp), "1684146615");
    assert_eq!(format_date_time(&date, &DateFormat::TimestampMs), "1684146615123");
    assert_eq!(
        format_date_time(&date, &DateFormat::Rfc2882),
        "Mon, 15 May 2023 10:30:15 +0000"
    );
}

#[test]
fn date_now_rfc3339_scenario() {
    let out = date_command(fixed_instant(), DateKind::Now, Some(DateFormat::Rfc3339)).unwrap();
    assert_eq!(out.date, "2023-05-15T10:30:15.123Z");
}

#[test]
fn date_yesterday_scenario() {
    let out = date_command(fixed_instant(), DateKind::Yesterday, None).unwrap();
    assert_eq!(out.date, "2023-05-14");
    let out = date_command(fixed_instant(), DateKind::Tomorrow, None).unwrap();
    assert_eq!(out.date, "2023-05-16");
    let out = date_command(fixed_instant(), DateKind::Timestamp, None).unwrap();
    assert_eq!(out.date, "1684146615");
}

#[test]
fn timestamps_before_the_epoch_round_down() {
    let date = UtcInstant { millis: -1500 };
    assert_eq!(format_date_time(&date, &DateFormat::Timestamp), "-2");
    assert_eq!(format_date_time(&date, &DateFormat::TimestampMs), "-1500");
    assert_eq!(format_date_time(&date, &DateFormat::Rfc3339), "1969-12-31T23:59:58.500Z");
}
