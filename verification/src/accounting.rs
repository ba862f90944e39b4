//! Per-student, per-month session accounting: counting scheduled and
//! completed sessions, monetary sums under the two payment models, and
//! the next-session resolver.

use vstd::prelude::*;
use vstd::arithmetic::div_mod::{
    lemma_add_mod_noop_right, lemma_fundamental_div_mod, lemma_mod_bound, lemma_small_mod,
};
use vstd::arithmetic::mul::{
    lemma_mul_inequality, lemma_mul_is_commutative, lemma_mul_is_distributive_add_other_way,
    lemma_mul_nonnegative,
};

use crate::calendar::{
    date_weekday, days_in_month, day_number_of, get_all_dates_in_month, next_date,
    weekday_index_of_day_number, Date, Weekday, MAX_YEAR, MIN_YEAR,
};
use crate::roster::{PaymentType, Student};

verus! {

/// The student's weekly schedule contains a slot on the weekday with
/// index `w`. Duplicate weekdays in the schedule collapse: only
/// membership matters.
pub open spec fn schedule_has_weekday_index(s: Student, w: int) -> bool {
    exists|j: int|
        0 <= j < s.tabled_sessions@.len() && (#[trigger] s.tabled_sessions@[j]).day.index() == w
}

/// Count of the days `1..=d` of the given month whose weekday appears in
/// the student's weekly schedule.
pub open spec fn scheduled_days_through(s: Student, m: int, y: int, d: int) -> int
    decreases d,
{
    if d <= 0 {
        0
    } else {
        scheduled_days_through(s, m, y, d - 1) + if schedule_has_weekday_index(
            s,
            weekday_index_of_day_number(day_number_of(y, m, d)),
        ) {
            1int
        } else {
            0int
        }
    }
}

/// Sessions that should occur in the month: dates whose weekday is in
/// the student's weekly schedule, whether or not a session was logged.
pub open spec fn spec_monthly_scheduled_sessions(s: Student, m: int, y: int) -> int {
    scheduled_days_through(s, m, y, days_in_month(y, m))
}

/// The date falls within the given month of the given year.
pub open spec fn session_in_month(d: Date, m: int, y: int) -> bool {
    d.year == y && d.month == m
}

/// Count of the first `n` logged sessions that fall in the month and
/// whose weekday is in the student's weekly schedule.
pub open spec fn completed_sessions_through(s: Student, m: int, y: int, n: int) -> int
    decreases n,
{
    if n <= 0 {
        0
    } else {
        completed_sessions_through(s, m, y, n - 1) + if session_in_month(
            s.actual_sessions@[n - 1],
            m,
            y,
        ) && schedule_has_weekday_index(s, s.actual_sessions@[n - 1].weekday_index()) {
            1int
        } else {
            0int
        }
    }
}

/// Logged sessions in the month that fall on a scheduled weekday. A
/// logged session on a non-scheduled weekday does not count: an explicit
/// policy, not an omission.
pub open spec fn spec_monthly_completed_sessions(s: Student, m: int, y: int) -> int {
    completed_sessions_through(s, m, y, s.actual_sessions@.len() as int)
}

/// Count of the first `n` logged sessions that fall in the month,
/// regardless of weekday.
pub open spec fn raw_sessions_through(s: Student, m: int, y: int, n: int) -> int
    decreases n,
{
    if n <= 0 {
        0
    } else {
        raw_sessions_through(s, m, y, n - 1) + if session_in_month(
            s.actual_sessions@[n - 1],
            m,
            y,
        ) {
            1int
        } else {
            0int
        }
    }
}

/// All logged sessions in the month, regardless of weekday.
pub open spec fn spec_monthly_raw_sessions(s: Student, m: int, y: int) -> int {
    raw_sessions_through(s, m, y, s.actual_sessions@.len() as int)
}

/// Weekdays of the student's weekly slots, in slot order, duplicates
/// kept.
pub fn get_scheduled_weekdays(student: &Student) -> (r: Vec<Weekday>)
    ensures
        r@.len() == student.tabled_sessions@.len(),
        forall|i: int| 0 <= i < r@.len() ==> r@[i] == student.tabled_sessions@[i].day,
{
    let mut r: Vec<Weekday> = Vec::new();
    let mut i: usize = 0;
    while i < student.tabled_sessions.len()
        invariant
            i <= student.tabled_sessions@.len(),
            r@.len() == i,
            forall|j: int| 0 <= j < i ==> r@[j] == student.tabled_sessions@[j].day,
        decreases student.tabled_sessions@.len() - i,
    {
        r.push(student.tabled_sessions[i].day);
        i = i + 1;
    }
    r
}

fn weekdays_contain(days: &Vec<Weekday>, w: Weekday) -> (r: bool)
    ensures
        r == exists|i: int| 0 <= i < days@.len() && days@[i] == w,
{
    let mut i: usize = 0;
    while i < days.len()
        invariant
            i <= days@.len(),
            forall|j: int| 0 <= j < i ==> days@[j] != w,
        decreases days@.len() - i,
    {
        if days[i] == w {
            return true;
        }
        i = i + 1;
    }
    false
}

proof fn lemma_weekday_membership(s: Student, days: Seq<Weekday>, w: Weekday)
    requires
        days.len() == s.tabled_sessions@.len(),
        forall|i: int| 0 <= i < days.len() ==> days[i] == s.tabled_sessions@[i].day,
    ensures
        (exists|i: int| 0 <= i < days.len() && days[i] == w) <==> schedule_has_weekday_index(
            s,
            w.index(),
        ),
{
    if exists|i: int| 0 <= i < days.len() && days[i] == w {
        let i = choose|i: int| 0 <= i < days.len() && days[i] == w;
        assert(s.tabled_sessions@[i].day.index() == w.index());
    }
    if schedule_has_weekday_index(s, w.index()) {
        let j = choose|j: int|
            0 <= j < s.tabled_sessions@.len() && (#[trigger] s.tabled_sessions@[j]).day.index()
                == w.index();
        assert(s.tabled_sessions@[j].day == w);
        assert(days[j] == w);
    }
}

/// Count of dates in the month whose weekday is in the student's weekly
/// schedule: the sessions that should occur. An empty schedule yields
/// zero for any month.
pub fn compute_monthly_scheduled_sessions(student: &Student, month: u32, year: i32) -> (r: u64)
    requires
        MIN_YEAR <= year <= MAX_YEAR,
        1 <= month <= 12,
    ensures
        r == spec_monthly_scheduled_sessions(*student, month as int, year as int),
        r <= days_in_month(year as int, month as int),
        student.tabled_sessions@.len() == 0 ==> r == 0,
{
    proof {
        if student.tabled_sessions@.len() == 0 {
            lemma_empty_schedule_no_scheduled_sessions(*student, month as int, year as int);
        }
    }
    let all_dates = get_all_dates_in_month(year, month);
    let session_days = get_scheduled_weekdays(student);
    let mut count: u64 = 0;
    let mut i: usize = 0;
    while i < all_dates.len()
        invariant
            MIN_YEAR <= year <= MAX_YEAR,
            1 <= month <= 12,
            all_dates@.len() == days_in_month(year as int, month as int),
            forall|k: int|
                0 <= k < all_dates@.len() ==> all_dates@[k] == (Date {
                    year,
                    month,
                    day: (k + 1) as u32,
                }),
            forall|k: int| 0 <= k < all_dates@.len() ==> (#[trigger] all_dates@[k]).is_valid(),
            session_days@.len() == student.tabled_sessions@.len(),
            forall|k: int|
                0 <= k < session_days@.len() ==> session_days@[k]
                    == student.tabled_sessions@[k].day,
            i <= all_dates@.len(),
            count == scheduled_days_through(*student, month as int, year as int, i as int),
            count <= i,
        decreases all_dates@.len() - i,
    {
        let d = all_dates[i];
        let w = date_weekday(&d);
        if weekdays_contain(&session_days, w) {
            count = count + 1;
        }
        proof {
            lemma_weekday_membership(*student, session_days@, w);
            assert(d.day_number() == day_number_of(year as int, month as int, i + 1));
        }
        i = i + 1;
    }
    count
}

/// Count of logged sessions that fall in the month and whose weekday is
/// in the student's weekly schedule.
pub fn compute_monthly_completed_sessions(student: &Student, month: u32, year: i32) -> (r: u64)
    requires
        student.wf(),
        MIN_YEAR <= year <= MAX_YEAR,
        1 <= month <= 12,
    ensures
        r == spec_monthly_completed_sessions(*student, month as int, year as int),
        r <= student.actual_sessions@.len(),
{
    let session_days = get_scheduled_weekdays(student);
    let mut count: u64 = 0;
    let mut j: usize = 0;
    while j < student.actual_sessions.len()
        invariant
            student.wf(),
            MIN_YEAR <= year <= MAX_YEAR,
            1 <= month <= 12,
            session_days@.len() == student.tabled_sessions@.len(),
            forall|k: int|
                0 <= k < session_days@.len() ==> session_days@[k]
                    == student.tabled_sessions@[k].day,
            j <= student.actual_sessions@.len(),
            count == completed_sessions_through(*student, month as int, year as int, j as int),
            count <= j,
        decreases student.actual_sessions@.len() - j,
    {
        let d = student.actual_sessions[j];
        if d.year == year && d.month == month {
            let w = date_weekday(&d);
            if weekdays_contain(&session_days, w) {
                count = count + 1;
            }
            proof {
                lemma_weekday_membership(*student, session_days@, w);
            }
        }
        j = j + 1;
    }
    count
}

/// Count of all logged sessions that fall in the month, regardless of
/// weekday: the raw attendance figure.
pub fn compute_monthly_raw_sessions(student: &Student, month: u32, year: i32) -> (r: u64)
    ensures
        r == spec_monthly_raw_sessions(*student, month as int, year as int),
        r <= student.actual_sessions@.len(),
{
    let mut count: u64 = 0;
    let mut j: usize = 0;
    while j < student.actual_sessions.len()
        invariant
            j <= student.actual_sessions@.len(),
            count == raw_sessions_through(*student, month as int, year as int, j as int),
            count <= j,
        decreases student.actual_sessions@.len() - j,
    {
        let d = student.actual_sessions[j];
        if d.year == year && d.month == month {
            count = count + 1;
        }
        j = j + 1;
    }
    count
}

/// A month's scheduled-session count lies between zero and the number
/// of days the month has.
pub proof fn lemma_scheduled_sessions_bounded(s: Student, m: int, y: int)
    ensures
        0 <= spec_monthly_scheduled_sessions(s, m, y) <= days_in_month(y, m),
{
    lemma_scheduled_days_through_bound(s, m, y, days_in_month(y, m));
}

proof fn lemma_scheduled_days_through_bound(s: Student, m: int, y: int, d: int)
    requires
        d >= 0,
    ensures
        0 <= scheduled_days_through(s, m, y, d) <= d,
    decreases d,
{
    if d > 0 {
        lemma_scheduled_days_through_bound(s, m, y, d - 1);
    }
}

/// An empty weekly schedule yields zero scheduled sessions in any month
/// of any year.
pub proof fn lemma_empty_schedule_no_scheduled_sessions(s: Student, m: int, y: int)
    requires
        s.tabled_sessions@.len() == 0,
    ensures
        spec_monthly_scheduled_sessions(s, m, y) == 0,
{
    lemma_scheduled_days_through_empty(s, m, y, days_in_month(y, m));
}

proof fn lemma_scheduled_days_through_empty(s: Student, m: int, y: int, d: int)
    requires
        s.tabled_sessions@.len() == 0,
    ensures
        scheduled_days_through(s, m, y, d) == 0,
    decreases d,
{
    if d > 0 {
        lemma_scheduled_days_through_empty(s, m, y, d - 1);
    }
}

/// The completed-session count never exceeds the raw count of logged
/// sessions in the month, and the two are equal exactly when every
/// logged session in the month falls on a scheduled weekday.
pub proof fn lemma_completed_at_most_raw(s: Student, m: int, y: int)
    ensures
        spec_monthly_completed_sessions(s, m, y) <= spec_monthly_raw_sessions(s, m, y),
        spec_monthly_completed_sessions(s, m, y) == spec_monthly_raw_sessions(s, m, y) <==> (
        forall|j: int|
            0 <= j < s.actual_sessions@.len() && session_in_month(
                #[trigger] s.actual_sessions@[j],
                m,
                y,
            ) ==> schedule_has_weekday_index(s, s.actual_sessions@[j].weekday_index())),
{
    lemma_counts_through(s, m, y, s.actual_sessions@.len() as int);
}

proof fn lemma_counts_through(s: Student, m: int, y: int, n: int)
    requires
        0 <= n <= s.actual_sessions@.len(),
    ensures
        completed_sessions_through(s, m, y, n) <= raw_sessions_through(s, m, y, n),
        completed_sessions_through(s, m, y, n) == raw_sessions_through(s, m, y, n) <==> (forall|
            j: int,
        |
            0 <= j < n && session_in_month(#[trigger] s.actual_sessions@[j], m, y)
                ==> schedule_has_weekday_index(s, s.actual_sessions@[j].weekday_index())),
    decreases n,
{
    if n > 0 {
        lemma_counts_through(s, m, y, n - 1);
    }
}

/// Each session count is a count of qualifying items: never negative.
pub proof fn lemma_monthly_counts_nonneg(s: Student, m: int, y: int)
    ensures
        spec_monthly_scheduled_sessions(s, m, y) >= 0,
        spec_monthly_completed_sessions(s, m, y) >= 0,
        spec_monthly_raw_sessions(s, m, y) >= 0,
{
    lemma_scheduled_days_through_nonneg(s, m, y, days_in_month(y, m));
    lemma_completed_through_nonneg(s, m, y, s.actual_sessions@.len() as int);
    lemma_raw_through_nonneg(s, m, y, s.actual_sessions@.len() as int);
}

proof fn lemma_scheduled_days_through_nonneg(s: Student, m: int, y: int, d: int)
    ensures
        scheduled_days_through(s, m, y, d) >= 0,
    decreases d,
{
    if d > 0 {
        lemma_scheduled_days_through_nonneg(s, m, y, d - 1);
    }
}

proof fn lemma_completed_through_nonneg(s: Student, m: int, y: int, n: int)
    ensures
        completed_sessions_through(s, m, y, n) >= 0,
    decreases n,
{
    if n > 0 {
        lemma_completed_through_nonneg(s, m, y, n - 1);
    }
}

proof fn lemma_raw_through_nonneg(s: Student, m: int, y: int, n: int)
    ensures
        raw_sessions_through(s, m, y, n) >= 0,
    decreases n,
{
    if n > 0 {
        lemma_raw_through_nonneg(s, m, y, n - 1);
    }
}

/// A counting strategy: which sessions a monetary sum is based on.
#[derive(Debug, Clone, Copy, PartialEq, Eq, Structural)]
pub enum SessionCounter {
    /// Sessions that should occur: dates whose weekday is scheduled.
    ScheduledCounter,
    /// Logged sessions on scheduled weekdays.
    CompletedCounter,
}

/// The count the given strategy produces for a student and month.
pub open spec fn spec_counted_sessions(counter: SessionCounter, s: Student, m: int, y: int) -> int {
    match counter {
        SessionCounter::ScheduledCounter => spec_monthly_scheduled_sessions(s, m, y),
        SessionCounter::CompletedCounter => spec_monthly_completed_sessions(s, m, y),
    }
}

/// Sessions of the month counted under the given strategy.
pub fn count_sessions(counter: SessionCounter, student: &Student, month: u32, year: i32) -> (r: u64)
    requires
        student.wf(),
        MIN_YEAR <= year <= MAX_YEAR,
        1 <= month <= 12,
    ensures
        r == spec_counted_sessions(counter, *student, month as int, year as int),
{
    match counter {
        SessionCounter::ScheduledCounter => compute_monthly_scheduled_sessions(
            student,
            month,
            year,
        ),
        SessionCounter::CompletedCounter => compute_monthly_completed_sessions(
            student,
            month,
            year,
        ),
    }
}

/// Clamps a non-negative value to the largest one a `u64` holds.
pub open spec fn clamp_u64(x: int) -> int {
    if x > u64::MAX {
        u64::MAX as int
    } else {
        x
    }
}

/// Sum of two values, clamped at the largest representable one.
pub fn add_clamped(a: u64, b: u64) -> (r: u64)
    ensures
        r == clamp_u64(a + b),
{
    if a <= u64::MAX - b {
        a + b
    } else {
        u64::MAX
    }
}

/// Product of an amount and a count, clamped at the largest
/// representable sum.
pub fn mul_clamped(a: u64, b: u64) -> (r: u64)
    ensures
        r == clamp_u64(a as int * b as int),
{
    if b == 0 {
        proof {
            assert(a as int * 0 == 0);
        }
        0
    } else if a <= u64::MAX / b {
        proof {
            lemma_fundamental_div_mod(u64::MAX as int, b as int);
            lemma_mod_bound(u64::MAX as int, b as int);
            lemma_mul_inequality(a as int, u64::MAX as int / b as int, b as int);
            lemma_mul_is_commutative(u64::MAX as int / b as int, b as int);
            assert(a as int * b as int <= (u64::MAX as int / b as int) * b as int);
            assert(a as int * b as int <= u64::MAX as int);
        }
        a * b
    } else {
        proof {
            lemma_fundamental_div_mod(u64::MAX as int, b as int);
            lemma_mod_bound(u64::MAX as int, b as int);
            lemma_mul_inequality(u64::MAX as int / b as int + 1, a as int, b as int);
            lemma_mul_is_commutative(u64::MAX as int / b as int, b as int);
            lemma_mul_is_distributive_add_other_way(b as int, u64::MAX as int / b as int, 1);
            assert((u64::MAX as int / b as int + 1) * b as int <= a as int * b as int);
            assert(a as int * b as int > u64::MAX as int);
        }
        u64::MAX
    }
}

proof fn lemma_seven_days_cover(start: int, w: int)
    requires
        0 <= w < 7,
    ensures
        exists|k: int| start < k <= start + 7 && weekday_index_of_day_number(k) == w,
{
    lemma_mod_bound(w - start, 7);
    let t = start + (w - start) % 7;
    lemma_add_mod_noop_right(start, w - start, 7);
    lemma_small_mod(w as nat, 7nat);
    assert(weekday_index_of_day_number(t + 1) == w);
}

/// Nearest upcoming scheduled occurrence: among the seven calendar dates
/// strictly after the reference date, the earliest whose weekday is in
/// the student's weekly schedule; `None` when the schedule covers no
/// weekday at all, so that no date in the lookahead window qualifies.
pub fn get_next_session(student: &Student, today: &Date) -> (r: Option<Date>)
    requires
        today.is_valid(),
        today.year < MAX_YEAR,
    ensures
        match r {
            Some(d) => {
                &&& d.is_valid()
                &&& today.day_number() < d.day_number() <= today.day_number() + 7
                &&& schedule_has_weekday_index(*student, d.weekday_index())
                &&& forall|k: int|
                    today.day_number() < k < d.day_number() ==> !schedule_has_weekday_index(
                        *student,
                        weekday_index_of_day_number(k),
                    )
            },
            None => forall|w: int| 0 <= w < 7 ==> !schedule_has_weekday_index(*student, w),
        },
{
    let session_days = get_scheduled_weekdays(student);
    let mut d = next_date(today);
    let mut i: u32 = 1;
    while i < 7
        invariant
            today.is_valid(),
            today.year < MAX_YEAR,
            session_days@.len() == student.tabled_sessions@.len(),
            forall|k: int|
                0 <= k < session_days@.len() ==> session_days@[k]
                    == student.tabled_sessions@[k].day,
            1 <= i <= 7,
            d.is_valid(),
            d.day_number() == today.day_number() + i,
            d.year == today.year || (d.year == today.year + 1 && d.month == 1 && 1 <= d.day <= i),
            forall|k: int|
                today.day_number() < k < d.day_number() ==> !schedule_has_weekday_index(
                    *student,
                    weekday_index_of_day_number(k),
                ),
        decreases 7 - i,
    {
        let w = date_weekday(&d);
        let found = weekdays_contain(&session_days, w);
        proof {
            lemma_weekday_membership(*student, session_days@, w);
        }
        if found {
            return Some(d);
        }
        d = next_date(&d);
        i = i + 1;
    }
    let w = date_weekday(&d);
    let found = weekdays_contain(&session_days, w);
    proof {
        lemma_weekday_membership(*student, session_days@, w);
    }
    if found {
        return Some(d);
    }
    proof {
        assert forall|wi: int| 0 <= wi < 7 implies !schedule_has_weekday_index(
            *student,
            wi,
        ) by {
            lemma_seven_days_cover(today.day_number(), wi);
            let k = choose|k: int|
                today.day_number() < k <= today.day_number() + 7 && weekday_index_of_day_number(k)
                    == wi;
            if k == d.day_number() {
                assert(!schedule_has_weekday_index(*student, d.weekday_index()));
            }
        }
    }
    None
}

/// The month's sum a student owes under their payment terms: the
/// per-session amount times the counted sessions, or the flat monthly
/// amount unconditionally (no proration for partial months, no deduction
/// for missed sessions).
pub open spec fn spec_monthly_sum(s: Student, m: int, y: int, counter: SessionCounter) -> int {
    match s.payment_data.payment_type {
        PaymentType::PerSession => s.payment_data.amount * spec_counted_sessions(counter, s, m, y),
        PaymentType::Monthly => s.payment_data.amount as int,
    }
}

/// A monthly sum is an amount times a count, or a flat amount: never
/// negative.
pub proof fn lemma_monthly_sum_nonneg(s: Student, m: int, y: int, counter: SessionCounter)
    ensures
        spec_monthly_sum(s, m, y, counter) >= 0,
{
    lemma_monthly_counts_nonneg(s, m, y);
    match s.payment_data.payment_type {
        PaymentType::PerSession => {
            lemma_mul_nonnegative(
                s.payment_data.amount as int,
                spec_counted_sessions(counter, s, m, y),
            );
        },
        PaymentType::Monthly => {},
    }
}

/// The month's sum a student owes, based on the sessions the given
/// strategy counts; clamped at the largest representable sum.
pub fn compute_monthly_sum(student: &Student, month: u32, year: i32, counter: SessionCounter) -> (r:
    u64)
    requires
        student.wf(),
        MIN_YEAR <= year <= MAX_YEAR,
        1 <= month <= 12,
    ensures
        r == clamp_u64(spec_monthly_sum(*student, month as int, year as int, counter)),
{
    match student.payment_data.payment_type {
        PaymentType::PerSession => {
            let no_of_days = count_sessions(counter, student, month, year);
            mul_clamped(student.payment_data.amount, no_of_days)
        },
        PaymentType::Monthly => student.payment_data.amount,
    }
}

} // verus!
