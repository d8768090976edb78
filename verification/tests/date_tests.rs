use zoo_core::date::{normalize_date, Date};

fn d(year: i32, month: u8, day: u8) -> Date {
    Date { year, month, day }
}

#[test]
fn parse_slash_text_is_day_month_year() {
    let r = normalize_date(&Some("01/02/2023".to_string()));
    assert_eq!(r, Some(d(2023, 2, 1)));
}

#[test]
fn parse_dash_text_is_year_month_day() {
    let r = normalize_date(&Some("2023-02-01".to_string()));
    assert_eq!(r, Some(d(2023, 2, 1)));
}

#[test]
fn parse_garbage_is_no_date() {
    let r = normalize_date(&Some("not-a-date".to_string()));
    assert_eq!(r, None);
}

#[test]
fn parse_absent_is_no_date() {
    let r = normalize_date(&None);
    assert_eq!(r, None);
}

#[test]
fn parse_rejects_impossible_calendar_dates() {
    assert_eq!(normalize_date(&Some("30/02/2023".to_string())), None);
    assert_eq!(normalize_date(&Some("2023-02-30".to_string())), None);
    assert_eq!(normalize_date(&Some("2023-13-01".to_string())), None);
}

#[test]
fn parse_accepts_leap_day_only_in_leap_years() {
    assert_eq!(normalize_date(&Some("29/02/2024".to_string())), Some(d(2024, 2, 29)));
    assert_eq!(normalize_date(&Some("29/02/2023".to_string())), None);
}

#[test]
fn slash_text_in_year_first_order_is_rejected() {
    // A slash selects the day/month/year reading, so a year where the day
    // should stand cannot parse.
    assert_eq!(normalize_date(&Some("2023/02/01".to_string())), None);
}

#[test]
fn parse_empty_text_is_no_date() {
    assert_eq!(normalize_date(&Some(String::new())), None);
}
