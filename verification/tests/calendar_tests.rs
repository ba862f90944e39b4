use tutor_roster::calendar::{
    date_weekday, get_all_dates_in_month, get_month_date_range, month_short_name, next_date,
    CalendarError, Date, Weekday,
};

fn date(year: i32, month: u32, day: u32) -> Date {
    match Date::new(year, month, day) {
        Ok(d) => d,
        Err(_) => panic!("date out of range"),
    }
}

#[test]
fn all_dates_in_month_has_one_entry_per_day() {
    assert_eq!(get_all_dates_in_month(2025, 11).len(), 30);
    assert_eq!(get_all_dates_in_month(2025, 1).len(), 31);
    assert_eq!(get_all_dates_in_month(2025, 4).len(), 30);
    let nov = get_all_dates_in_month(2025, 11);
    for (i, d) in nov.iter().enumerate() {
        assert_eq!(d.year, 2025);
        assert_eq!(d.month, 11);
        assert_eq!(d.day as usize, i + 1);
    }
}

#[test]
fn all_dates_in_month_handles_leap_february() {
    assert_eq!(get_all_dates_in_month(2024, 2).len(), 29);
    assert_eq!(get_all_dates_in_month(2025, 2).len(), 28);
    assert_eq!(get_all_dates_in_month(1900, 2).len(), 28);
    assert_eq!(get_all_dates_in_month(2000, 2).len(), 29);
}

#[test]
fn month_date_range_spans_the_month() {
    let (start, end) = get_month_date_range(2025, 11);
    assert_eq!(start, date(2025, 11, 1));
    assert_eq!(end, date(2025, 11, 30));
    let (start, end) = get_month_date_range(2025, 12);
    assert_eq!(start, date(2025, 12, 1));
    assert_eq!(end, date(2025, 12, 31));
    let (_, end) = get_month_date_range(2024, 2);
    assert_eq!(end, date(2024, 2, 29));
}

#[test]
fn date_new_rejects_out_of_range_triples() {
    assert_eq!(
        Date::new(2025, 13, 1),
        Err(CalendarError::InvalidCalendarConstruction)
    );
    assert_eq!(
        Date::new(2025, 0, 1),
        Err(CalendarError::InvalidCalendarConstruction)
    );
    assert_eq!(
        Date::new(2025, 2, 29),
        Err(CalendarError::InvalidCalendarConstruction)
    );
    assert_eq!(
        Date::new(0, 5, 5),
        Err(CalendarError::InvalidCalendarConstruction)
    );
    assert!(Date::new(2024, 2, 29).is_ok());
    assert!(Date::new(2025, 11, 30).is_ok());
}

#[test]
fn weekdays_of_known_dates() {
    assert_eq!(date_weekday(&date(2025, 11, 3)), Weekday::Mon);
    assert_eq!(date_weekday(&date(2025, 11, 4)), Weekday::Tue);
    assert_eq!(date_weekday(&date(2025, 11, 9)), Weekday::Sun);
    assert_eq!(date_weekday(&date(2000, 1, 1)), Weekday::Sat);
    assert_eq!(date_weekday(&date(2024, 2, 29)), Weekday::Thu);
    assert_eq!(date_weekday(&date(1, 1, 1)), Weekday::Mon);
}

#[test]
fn next_date_rolls_months_and_years() {
    assert_eq!(next_date(&date(2025, 11, 29)), date(2025, 11, 30));
    assert_eq!(next_date(&date(2025, 11, 30)), date(2025, 12, 1));
    assert_eq!(next_date(&date(2025, 12, 31)), date(2026, 1, 1));
    assert_eq!(next_date(&date(2024, 2, 28)), date(2024, 2, 29));
    assert_eq!(next_date(&date(2025, 2, 28)), date(2025, 3, 1));
}

#[test]
fn next_date_reaches_the_final_covered_year() {
    assert_eq!(next_date(&date(9998, 12, 31)), date(9999, 1, 1));
}

#[test]
fn month_short_names() {
    assert_eq!(month_short_name(1), "Jan");
    assert_eq!(month_short_name(2), "Feb");
    assert_eq!(month_short_name(11), "Nov");
    assert_eq!(month_short_name(12), "Dec");
}
