use tod::time::{
    date_from_str, date_is_today, format_date, is_date, is_date_in_past, is_datetime,
    previous_date, today_date, today_string, Context, Date, TimeError,
};

fn test_context() -> Context {
    Context {
        timezone: Some(String::from("US/Pacific")),
        now_epoch_s: 1704110400,
        today: Date { year: 2024, month: 1, day: 1 },
    }
}

#[test]
fn test_is_date() {
    assert!(is_date("2022-10-05"));
    assert!(!is_date("22-10-05"));
    assert!(!is_date("2022-10-05 24:02"));
    assert!(!is_date("today"));
}

#[test]
fn test_is_datetime() {
    assert!(!is_datetime("2022-10-05"));
    assert!(!is_datetime("22-10-05"));
    assert!(is_datetime("2022-10-05 24:02"));
    assert!(!is_datetime("today"));
}

#[test]
fn today_string_works() {
    assert_eq!(today_string(&test_context()), "2024-01-01");
}

#[test]
fn today_date_works() {
    let ctx = test_context();
    assert_eq!(today_date(&ctx), Date { year: 2024, month: 1, day: 1 });
    assert!(date_is_today(Date { year: 2024, month: 1, day: 1 }, &ctx));
    assert!(!date_is_today(Date { year: 2024, month: 1, day: 2 }, &ctx));
    assert!(is_date_in_past(Date { year: 2023, month: 12, day: 31 }, &ctx));
    assert!(!is_date_in_past(Date { year: 2024, month: 1, day: 1 }, &ctx));
}

#[test]
fn format_date_pads_every_field() {
    let ctx = test_context();
    let d = Date { year: 987, month: 1, day: 2 };
    assert_eq!(format_date(&d, &ctx), "0987-01-02");
}

#[test]
fn date_from_str_reads_all_three_shapes() {
    assert_eq!(
        date_from_str("2021-08-13"),
        Ok(Date { year: 2021, month: 8, day: 13 })
    );
    assert_eq!(
        date_from_str("2021-09-06T16:00:00"),
        Ok(Date { year: 2021, month: 9, day: 6 })
    );
    assert_eq!(
        date_from_str("2021-02-27T19:41:56Z"),
        Ok(Date { year: 2021, month: 2, day: 27 })
    );
}

#[test]
fn date_from_str_rejects_malformed_strings() {
    assert!(matches!(
        date_from_str("2{invalid"),
        Err(TimeError::ParseError { .. })
    ));
    // an invalid month and an invalid day both fail
    assert!(date_from_str("2022-13-01").is_err());
    assert!(date_from_str("2022-02-30").is_err());
    // February 29 exists only in leap years
    assert!(date_from_str("2023-02-29").is_err());
    assert_eq!(
        date_from_str("2024-02-29"),
        Ok(Date { year: 2024, month: 2, day: 29 })
    );
}

#[test]
fn parse_error_messages() {
    match date_from_str("2{invalid") {
        Err(e) => assert_eq!(e.message(), "cannot parse DateTime: 2{invalid"),
        Ok(_) => panic!("expected an error"),
    }
    match date_from_str("2022-13-01") {
        Err(e) => assert_eq!(e.message(), "could not parse Date"),
        Ok(_) => panic!("expected an error"),
    }
}

#[test]
fn previous_date_borrows_across_months_and_years() {
    let d = previous_date(&Date { year: 2024, month: 1, day: 1 });
    assert_eq!(d, Date { year: 2023, month: 12, day: 31 });
    let d = previous_date(&Date { year: 2024, month: 3, day: 1 });
    assert_eq!(d, Date { year: 2024, month: 2, day: 29 });
    let d = previous_date(&Date { year: 2023, month: 3, day: 1 });
    assert_eq!(d, Date { year: 2023, month: 2, day: 28 });
    let d = previous_date(&Date { year: 2024, month: 1, day: 15 });
    assert_eq!(d, Date { year: 2024, month: 1, day: 14 });
}
