use sqlcord::datetime::{is_valid_iso_date, is_valid_iso_datetime, is_valid_iso_time};

#[test]
fn test_valid_iso_dates() {
    assert!(is_valid_iso_date("2025-08-19"));
    assert!(is_valid_iso_date("2023-12-25"));
    assert!(is_valid_iso_date("2024-02-29")); // leap year
    assert!(is_valid_iso_date("2000-02-29")); // leap year
    assert!(is_valid_iso_date("1999-12-31"));
}

#[test]
fn test_invalid_iso_dates() {
    assert!(!is_valid_iso_date("2023-13-01")); // invalid month
    assert!(!is_valid_iso_date("2023-02-30")); // invalid day for February
    assert!(!is_valid_iso_date("2023-04-31")); // invalid day for April
    assert!(!is_valid_iso_date("2023-2-29")); // non-leap year
    assert!(!is_valid_iso_date("23-08-19")); // wrong year format
    assert!(!is_valid_iso_date("2023/08/19")); // wrong separator
    assert!(!is_valid_iso_date("2023-8-19")); // missing zero padding
    assert!(!is_valid_iso_date("")); // empty string
    assert!(!is_valid_iso_date("not-a-date")); // invalid format
}

#[test]
fn test_valid_iso_times() {
    assert!(is_valid_iso_time("14:30:00"));
    assert!(is_valid_iso_time("09:15:30"));
    assert!(is_valid_iso_time("23:59:59"));
    assert!(is_valid_iso_time("00:00:00"));
    assert!(is_valid_iso_time("12:30:45.123"));
    assert!(is_valid_iso_time("14:30:00Z"));
    assert!(is_valid_iso_time("12:00:00+02:00"));
    assert!(is_valid_iso_time("08:30:15-05:00"));
    assert!(is_valid_iso_time("16:45:30.999Z"));
}

#[test]
fn test_invalid_iso_times() {
    assert!(!is_valid_iso_time("25:30:00")); // invalid hour
    assert!(!is_valid_iso_time("14:60:00")); // invalid minute
    assert!(!is_valid_iso_time("14:30:60")); // invalid second
    assert!(!is_valid_iso_time("14:30")); // missing seconds
    assert!(!is_valid_iso_time("14-30-00")); // wrong separator
    assert!(!is_valid_iso_time("2:30:00")); // missing zero padding
    assert!(!is_valid_iso_time("14:30:00.")); // empty fraction
    assert!(!is_valid_iso_time("")); // empty string
    assert!(!is_valid_iso_time("not-a-time")); // invalid format
}

#[test]
fn test_valid_iso_datetimes() {
    assert!(is_valid_iso_datetime("2025-08-19T14:30:00Z"));
    assert!(is_valid_iso_datetime("2023-12-25T09:15:30.123Z"));
    assert!(is_valid_iso_datetime("2024-06-15T12:00:00+02:00"));
    assert!(is_valid_iso_datetime("2025-01-01T00:00:00.000Z"));
    assert!(is_valid_iso_datetime("2023-02-28T23:59:59"));
}

#[test]
fn test_invalid_iso_datetimes() {
    assert!(!is_valid_iso_datetime("2025-08-19 14:30:00")); // missing T
    assert!(!is_valid_iso_datetime("2025-13-19T14:30:00Z")); // invalid month
    assert!(!is_valid_iso_datetime("2025-08-19T25:30:00Z")); // invalid hour
    assert!(!is_valid_iso_datetime("2025-08-19T14:60:00Z")); // invalid minute
    assert!(!is_valid_iso_datetime("not-a-datetime")); // invalid format
    assert!(!is_valid_iso_datetime("")); // empty string
}

#[test]
fn leap_years_follow_the_gregorian_rule() {
    assert!(is_valid_iso_date("2400-02-29"));
    assert!(!is_valid_iso_date("1900-02-29"));
    assert!(!is_valid_iso_date("2100-02-29"));
    assert!(!is_valid_iso_date("2023-02-29"));
    assert!(is_valid_iso_date("2023-02-28"));
}

#[test]
fn dates_are_strict() {
    assert!(!is_valid_iso_date("2023-+1-01"));
    assert!(!is_valid_iso_date("0999-01-01"));
    assert!(is_valid_iso_date("1000-01-01"));
    assert!(is_valid_iso_date("9999-12-31"));
    assert!(!is_valid_iso_date("2023-00-10"));
    assert!(!is_valid_iso_date("2023-01-00"));
    assert!(!is_valid_iso_date("2023-01-32"));
    assert!(is_valid_iso_date("2023-06-30"));
    assert!(!is_valid_iso_date("2023-06-31"));
    assert!(!is_valid_iso_date("2023-01-011"));
    assert!(!is_valid_iso_date("２０２３-01-01"));
}

#[test]
fn time_zones_and_fractions_are_strict() {
    assert!(!is_valid_iso_time("12:00:00+0200"));
    assert!(!is_valid_iso_time("12:00:00+02"));
    assert!(!is_valid_iso_time("12:00:00-garbage"));
    assert!(!is_valid_iso_time("12:00:00z"));
    assert!(!is_valid_iso_time("12:00:00.12a"));
    assert!(!is_valid_iso_time("+1:00:00"));
    assert!(is_valid_iso_time("12:00:00.000001-11:30"));
    assert!(is_valid_iso_time("00:00:00.5"));
    assert!(!is_valid_iso_time("24:00:00"));
    assert!(!is_valid_iso_time("12:00:00ZZ"));
}

#[test]
fn datetimes_need_one_separator_in_place() {
    assert!(!is_valid_iso_datetime("2025-08-19T"));
    assert!(!is_valid_iso_datetime("2025-08-19t14:30:00"));
    assert!(!is_valid_iso_datetime("2025-08-19TT14:30:00"));
    assert!(!is_valid_iso_datetime("T14:30:00"));
    assert!(is_valid_iso_datetime("2024-02-29T00:00:00+00:00"));
}
