use todo_tui::date::{days_in_month, days_until, Date};

#[test]
fn parses_valid_iso_dates() {
    assert_eq!(
        Date::parse("2026-06-25"),
        Some(Date {
            year: 2026,
            month: 6,
            day: 25
        })
    );
}

#[test]
fn rejects_invalid_dates() {
    assert_eq!(Date::parse("2026-02-31"), None);
    assert_eq!(Date::parse("2026-13-01"), None);
    assert_eq!(Date::parse("not-a-date"), None);
}

#[test]
fn handles_leap_year_month_lengths() {
    assert_eq!(days_in_month(2024, 2), 29);
    assert_eq!(days_in_month(2026, 2), 28);
}

#[test]
fn moves_across_month_boundaries() {
    let date = Date::parse("2026-03-01").unwrap();
    assert_eq!(date.add_days(-1).iso(), "2026-02-28");
    assert_eq!(date.add_days(1).iso(), "2026-03-02");
}

#[test]
fn clamps_day_when_moving_months() {
    let date = Date::parse("2026-01-31").unwrap();
    assert_eq!(date.add_months(1).iso(), "2026-02-28");
}

#[test]
fn reports_days_until_date() {
    let today = Date::today(0);
    assert_eq!(days_until(&today.iso(), 0), Some(0));
    assert_eq!(days_until(&today.add_days(3).iso(), 0), Some(3));
    assert_eq!(days_until(&today.add_days(-1).iso(), 0), Some(-1));
}

#[test]
fn clock_readings_become_local_dates() {
    assert_eq!(Date::on_clock(0, 0).iso(), "1970-01-01");
    assert_eq!(Date::on_clock(365 * 86400, 0).iso(), "1971-01-01");
    assert_eq!(Date::on_clock(3600, -7200).iso(), "1969-12-31");
    assert_eq!(Date::on_clock(86399, 1).iso(), "1970-01-02");
}

