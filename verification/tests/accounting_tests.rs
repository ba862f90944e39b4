use tutor_roster::accounting::{
    compute_monthly_completed_sessions, compute_monthly_raw_sessions,
    compute_monthly_scheduled_sessions, compute_monthly_sum, get_next_session,
    get_scheduled_weekdays, SessionCounter,
};
use tutor_roster::calendar::{Date, Weekday};
use tutor_roster::roster::{
    PaymentData, PaymentType, PersonalName, SessionData, Student, TutorSubject,
};

fn date(year: i32, month: u32, day: u32) -> Date {
    match Date::new(year, month, day) {
        Ok(d) => d,
        Err(_) => panic!("date out of range"),
    }
}

fn student(
    id: &str,
    days: Vec<Weekday>,
    sessions: Vec<Date>,
    payment_type: PaymentType,
    amount: u64,
) -> Student {
    Student {
        id: id.to_string(),
        name: PersonalName {
            first: id.to_string(),
            last: "Test".to_string(),
            other: None,
        },
        subject: TutorSubject::Statistics,
        tabled_sessions: days
            .into_iter()
            .map(|day| SessionData {
                day,
                time: "5:30 PM".to_string(),
            })
            .collect(),
        actual_sessions: sessions,
        payment_data: PaymentData {
            payment_type,
            amount,
        },
        tution_start_date: date(2025, 11, 1),
    }
}

#[test]
fn scheduled_weekdays_keeps_slot_order() {
    let s = student(
        "a",
        vec![Weekday::Tue, Weekday::Thu, Weekday::Tue],
        vec![],
        PaymentType::PerSession,
        150,
    );
    assert_eq!(
        get_scheduled_weekdays(&s),
        vec![Weekday::Tue, Weekday::Thu, Weekday::Tue]
    );
}

#[test]
fn scheduled_sessions_counts_matching_dates() {
    // November 2025: Tuesdays fall on 4, 11, 18, 25; Thursdays on 6, 13, 20, 27.
    let s = student(
        "a",
        vec![Weekday::Tue, Weekday::Thu],
        vec![],
        PaymentType::PerSession,
        150,
    );
    assert_eq!(compute_monthly_scheduled_sessions(&s, 11, 2025), 8);
    // Wednesdays fall on 5, 12, 19, 26; Saturdays on 1, 8, 15, 22, 29.
    let s = student(
        "b",
        vec![Weekday::Wed, Weekday::Sat],
        vec![],
        PaymentType::PerSession,
        150,
    );
    assert_eq!(compute_monthly_scheduled_sessions(&s, 11, 2025), 9);
}

#[test]
fn empty_schedule_means_zero_scheduled_sessions() {
    let s = student("a", vec![], vec![], PaymentType::PerSession, 150);
    assert_eq!(compute_monthly_scheduled_sessions(&s, 11, 2025), 0);
    assert_eq!(compute_monthly_scheduled_sessions(&s, 2, 2024), 0);
    assert_eq!(compute_monthly_scheduled_sessions(&s, 1, 1999), 0);
}

#[test]
fn completed_sessions_drop_off_schedule_entries() {
    // Wed 5 Nov and Sat 8 Nov are on schedule; Sun 23 Nov is not.
    let s = student(
        "b",
        vec![Weekday::Wed, Weekday::Sat],
        vec![date(2025, 11, 5), date(2025, 11, 8), date(2025, 11, 23)],
        PaymentType::PerSession,
        150,
    );
    assert_eq!(compute_monthly_completed_sessions(&s, 11, 2025), 2);
    assert_eq!(compute_monthly_raw_sessions(&s, 11, 2025), 3);
    // In a month with no logged sessions both counts are zero.
    assert_eq!(compute_monthly_completed_sessions(&s, 10, 2025), 0);
    assert_eq!(compute_monthly_raw_sessions(&s, 10, 2025), 0);
}

#[test]
fn completed_equals_raw_only_when_all_sessions_are_on_schedule() {
    let on_schedule = student(
        "a",
        vec![Weekday::Tue, Weekday::Thu],
        vec![date(2025, 11, 4), date(2025, 11, 6)],
        PaymentType::PerSession,
        150,
    );
    assert_eq!(
        compute_monthly_completed_sessions(&on_schedule, 11, 2025),
        compute_monthly_raw_sessions(&on_schedule, 11, 2025)
    );
    let with_stray = student(
        "b",
        vec![Weekday::Wed, Weekday::Sat],
        vec![date(2025, 11, 5), date(2025, 11, 8), date(2025, 11, 23)],
        PaymentType::PerSession,
        150,
    );
    assert!(
        compute_monthly_completed_sessions(&with_stray, 11, 2025)
            < compute_monthly_raw_sessions(&with_stray, 11, 2025)
    );
}

#[test]
fn monthly_sum_per_session_multiplies_the_count() {
    let s = student(
        "a",
        vec![Weekday::Tue, Weekday::Thu],
        vec![date(2025, 11, 4), date(2025, 11, 6)],
        PaymentType::PerSession,
        150,
    );
    assert_eq!(
        compute_monthly_sum(&s, 11, 2025, SessionCounter::CompletedCounter),
        300
    );
    assert_eq!(
        compute_monthly_sum(&s, 11, 2025, SessionCounter::ScheduledCounter),
        8 * 150
    );
}

#[test]
fn monthly_sum_flat_rate_ignores_the_counts() {
    let s = student("c", vec![Weekday::Mon], vec![], PaymentType::Monthly, 5000);
    assert_eq!(
        compute_monthly_sum(&s, 11, 2025, SessionCounter::CompletedCounter),
        5000
    );
    assert_eq!(
        compute_monthly_sum(&s, 11, 2025, SessionCounter::ScheduledCounter),
        5000
    );
}

#[test]
fn monthly_sum_saturates_at_the_largest_representable_amount() {
    // Two completed sessions at the largest possible rate: the product
    // cannot be represented, so the sum clamps instead of wrapping.
    let s = student(
        "a",
        vec![Weekday::Tue, Weekday::Thu],
        vec![date(2025, 11, 4), date(2025, 11, 6)],
        PaymentType::PerSession,
        u64::MAX,
    );
    assert_eq!(
        compute_monthly_sum(&s, 11, 2025, SessionCounter::CompletedCounter),
        u64::MAX
    );
}

#[test]
fn next_session_for_sunday_schedule_from_a_monday() {
    // 2025-11-03 is a Monday; the next Sunday is six days later, not
    // thirteen.
    let s = student(
        "a",
        vec![Weekday::Sun],
        vec![],
        PaymentType::PerSession,
        150,
    );
    assert_eq!(
        get_next_session(&s, &date(2025, 11, 3)),
        Some(date(2025, 11, 9))
    );
}

#[test]
fn next_session_is_strictly_after_the_reference_date() {
    // From a Sunday, a Sunday-only schedule resolves to the next week.
    let s = student(
        "a",
        vec![Weekday::Sun],
        vec![],
        PaymentType::PerSession,
        150,
    );
    assert_eq!(
        get_next_session(&s, &date(2025, 11, 9)),
        Some(date(2025, 11, 16))
    );
}

#[test]
fn next_session_picks_the_earliest_slot_and_rolls_over_months() {
    let s = student(
        "a",
        vec![Weekday::Tue, Weekday::Thu],
        vec![],
        PaymentType::PerSession,
        150,
    );
    assert_eq!(
        get_next_session(&s, &date(2025, 11, 3)),
        Some(date(2025, 11, 4))
    );
    // 2025-11-30 is a Sunday; the next Tuesday is the 2nd of December.
    assert_eq!(
        get_next_session(&s, &date(2025, 11, 30)),
        Some(date(2025, 12, 2))
    );
}

#[test]
fn next_session_without_a_schedule_is_none() {
    let s = student("a", vec![], vec![], PaymentType::PerSession, 150);
    assert_eq!(get_next_session(&s, &date(2025, 11, 3)), None);
}
