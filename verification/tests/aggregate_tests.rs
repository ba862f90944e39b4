use tutor_roster::aggregate::{
    active_months, compute_monthly_summary, group_students_by_month,
};
use tutor_roster::calendar::{Date, Weekday, YearMonth};
use tutor_roster::roster::{
    Domain, PaymentData, PaymentType, PersonalName, SessionData, Student, Tutor, TutorSubject,
};

fn date(year: i32, month: u32, day: u32) -> Date {
    match Date::new(year, month, day) {
        Ok(d) => d,
        Err(_) => panic!("date out of range"),
    }
}

fn student(
    id: &str,
    days: Vec<Weekday>,
    sessions: Vec<Date>,
    payment_type: PaymentType,
    amount: u64,
) -> Student {
    Student {
        id: id.to_string(),
        name: PersonalName {
            first: id.to_string(),
            last: "Test".to_string(),
            other: None,
        },
        subject: TutorSubject::ExtendedMathematics,
        tabled_sessions: days
            .into_iter()
            .map(|day| SessionData {
                day,
                time: "4:00 PM".to_string(),
            })
            .collect(),
        actual_sessions: sessions,
        payment_data: PaymentData {
            payment_type,
            amount,
        },
        tution_start_date: date(2025, 11, 1),
    }
}

fn domain(students: Vec<Student>) -> Domain {
    Domain {
        tutor: Tutor {
            id: "tutor1".to_string(),
            name: PersonalName {
                first: "Andy".to_string(),
                last: "Murray".to_string(),
                other: None,
            },
        },
        students,
    }
}

/// Student A of the worked scenario: per-session at 150, scheduled
/// Tuesday and Thursday, two on-schedule sessions logged in November
/// 2025.
fn student_a() -> Student {
    student(
        "student1",
        vec![Weekday::Tue, Weekday::Thu],
        vec![date(2025, 11, 4), date(2025, 11, 6)],
        PaymentType::PerSession,
        150,
    )
}

/// Student B of the worked scenario: per-session at 150, scheduled
/// Wednesday and Saturday, three sessions logged in November 2025 of
/// which only two are on schedule (the 23rd is a Sunday).
fn student_b() -> Student {
    student(
        "student2",
        vec![Weekday::Wed, Weekday::Sat],
        vec![date(2025, 11, 5), date(2025, 11, 8), date(2025, 11, 23)],
        PaymentType::PerSession,
        150,
    )
}

#[test]
fn active_months_are_sorted_by_year_then_month() {
    let students = vec![
        student(
            "a",
            vec![],
            vec![date(2025, 1, 5), date(2024, 12, 20)],
            PaymentType::PerSession,
            100,
        ),
        student("b", vec![], vec![date(2024, 12, 1)], PaymentType::PerSession, 100),
    ];
    let months = active_months(&students);
    assert_eq!(
        months,
        vec![
            YearMonth { year: 2024, month: 12 },
            YearMonth { year: 2025, month: 1 },
        ]
    );
}

#[test]
fn active_months_lists_each_month_once() {
    let students = vec![student_a(), student_b()];
    let months = active_months(&students);
    assert_eq!(months, vec![YearMonth { year: 2025, month: 11 }]);
}

#[test]
fn grouping_excludes_months_without_logged_sessions() {
    // Both students have schedules that would imply sessions in any
    // month, but only November 2025 has logged sessions: no other month
    // may appear.
    let students = vec![student_a(), student_b()];
    let groups = group_students_by_month(&students);
    assert_eq!(groups.len(), 1);
    assert_eq!(groups[0].year_month, YearMonth { year: 2025, month: 11 });
    assert_eq!(groups[0].student_indices, vec![0, 1]);
}

#[test]
fn grouping_collects_only_the_students_active_in_the_month() {
    let students = vec![
        student("a", vec![], vec![date(2025, 10, 7)], PaymentType::PerSession, 100),
        student("b", vec![], vec![date(2025, 11, 8)], PaymentType::PerSession, 100),
        student(
            "c",
            vec![],
            vec![date(2025, 10, 9), date(2025, 11, 9)],
            PaymentType::PerSession,
            100,
        ),
    ];
    let groups = group_students_by_month(&students);
    assert_eq!(groups.len(), 2);
    assert_eq!(groups[0].year_month, YearMonth { year: 2025, month: 10 });
    assert_eq!(groups[0].student_indices, vec![0, 2]);
    assert_eq!(groups[1].year_month, YearMonth { year: 2025, month: 11 });
    assert_eq!(groups[1].student_indices, vec![1, 2]);
}

#[test]
fn income_data_for_the_worked_scenario() {
    let d = domain(vec![student_a(), student_b()]);
    let income = d.compute_income_data();
    assert_eq!(income.len(), 1);
    let entry = &income[0];
    // A contributes two completed sessions, B two: the stray
    // off-schedule session must not inflate the actual figure.
    assert_eq!(entry.actual, 150 * (2 + 2));
    // November 2025 schedules: A has 8 matching dates, B has 9.
    assert_eq!(entry.potential, 150 * (8 + 9));
    assert_eq!(entry.month_year.0, "Nov");
    assert_eq!(entry.month_year.1, 2025);
}

#[test]
fn income_data_skips_inactive_flat_rate_students() {
    // A flat-rate student with no logged session in the month is not in
    // the month's group and adds nothing to its income figures.
    let d = domain(vec![student_a(), student("c", vec![], vec![], PaymentType::Monthly, 5000)]);
    let income = d.compute_income_data();
    assert_eq!(income.len(), 1);
    assert_eq!(income[0].actual, 300);
    assert_eq!(income[0].potential, 1200);
}

#[test]
fn attendance_counts_raw_sessions_unlike_income() {
    let d = domain(vec![student_a(), student_b()]);
    let attendance = d.compute_attendance_data();
    assert_eq!(attendance.len(), 1);
    // B's third, off-schedule session counts here, so the attendance
    // figure differs from the weekday-filtered count the income series
    // uses.
    assert_eq!(attendance[0].attended_days, 5);
    assert_eq!(attendance[0].month, "Nov");
}

#[test]
fn attendance_and_income_series_are_empty_for_an_empty_log() {
    let d = domain(vec![student("a", vec![Weekday::Mon], vec![], PaymentType::PerSession, 100)]);
    assert!(d.compute_income_data().is_empty());
    assert!(d.compute_attendance_data().is_empty());
}

#[test]
fn an_empty_roster_yields_empty_series() {
    let d = domain(vec![]);
    assert!(d.compute_income_data().is_empty());
    assert!(d.compute_attendance_data().is_empty());
    assert!(active_months(&d.students).is_empty());
    assert!(group_students_by_month(&d.students).is_empty());
}

#[test]
fn income_saturates_at_the_largest_representable_sum() {
    // Two students at the largest possible rate, each with a completed
    // session: the month's actual income clamps at the top of the
    // representable range instead of wrapping.
    let students = vec![
        student(
            "a",
            vec![Weekday::Tue],
            vec![date(2025, 11, 4)],
            PaymentType::PerSession,
            u64::MAX,
        ),
        student(
            "b",
            vec![Weekday::Thu],
            vec![date(2025, 11, 6)],
            PaymentType::PerSession,
            u64::MAX,
        ),
    ];
    let d = domain(students);
    let income = d.compute_income_data();
    assert_eq!(income.len(), 1);
    assert_eq!(income[0].actual, u64::MAX);
    assert_eq!(income[0].potential, u64::MAX);
}

#[test]
fn monthly_summary_totals_the_whole_roster() {
    let students = vec![student_a(), student_b()];
    let summary = compute_monthly_summary(&students, 11, 2025);
    assert_eq!(summary.year_month, YearMonth { year: 2025, month: 11 });
    assert_eq!(summary.total_scheduled_sessions, 8 + 9);
    assert_eq!(summary.total_actual_sessions, 2 + 2);
    assert_eq!(summary.potential_revenue, 150 * 17);
    assert_eq!(summary.actual_revenue, 150 * 4);
    assert_eq!(summary.lost_revenue(), 150 * 13);
}

#[test]
fn monthly_summary_includes_flat_rates_unconditionally() {
    // The flat monthly amount is owed with no proration and no
    // deduction for missed sessions, so it appears in both revenue
    // totals even with nothing logged.
    let students = vec![student("c", vec![], vec![], PaymentType::Monthly, 5000)];
    let summary = compute_monthly_summary(&students, 11, 2025);
    assert_eq!(summary.potential_revenue, 5000);
    assert_eq!(summary.actual_revenue, 5000);
    assert_eq!(summary.lost_revenue(), 0);
    assert_eq!(summary.total_scheduled_sessions, 0);
    assert_eq!(summary.total_actual_sessions, 0);
}
