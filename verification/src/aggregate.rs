//! Roster-wide aggregation by month: which months saw activity, which
//! students were active in them, and the income and attendance series
//! derived from that grouping.

use vstd::prelude::*;

use crate::accounting::{
    add_clamped, clamp_u64, compute_monthly_raw_sessions, compute_monthly_sum, count_sessions,
    lemma_monthly_counts_nonneg, lemma_monthly_sum_nonneg, session_in_month, spec_counted_sessions,
    spec_monthly_raw_sessions, spec_monthly_sum, SessionCounter,
};
use crate::calendar::{month_abbrev, month_short_name, YearMonth, MAX_YEAR, MIN_YEAR};
use crate::roster::{Domain, Student};

verus! {

/// The student logged at least one session in the given month.
pub open spec fn student_active_in(s: Student, m: int, y: int) -> bool {
    exists|j: int|
        0 <= j < s.actual_sessions@.len() && session_in_month(
            #[trigger] s.actual_sessions@[j],
            m,
            y,
        )
}

/// Some student of the roster logged a session in the given month.
pub open spec fn month_active(students: Seq<Student>, m: int, y: int) -> bool {
    exists|i: int| 0 <= i < students.len() && student_active_in(#[trigger] students[i], m, y)
}

/// Some student of the roster logged a session in the given month.
pub open spec fn ym_active(students: Seq<Student>, ym: YearMonth) -> bool {
    month_active(students, ym.month as int, ym.year as int)
}

/// The months are in strictly ascending calendar order.
pub open spec fn ym_strictly_sorted(yms: Seq<YearMonth>) -> bool {
    forall|i: int, j: int|
        0 <= i < j < yms.len() ==> (#[trigger] yms[i]).before(#[trigger] yms[j])
}

/// `yms` is the ascending enumeration of exactly the months in which
/// some student of the roster logged a session.
pub open spec fn is_active_month_seq(students: Seq<Student>, yms: Seq<YearMonth>) -> bool {
    &&& ym_strictly_sorted(yms)
    &&& forall|k: int| 0 <= k < yms.len() ==> ym_active(students, #[trigger] yms[k])
    &&& forall|ym: YearMonth| #[trigger] ym_active(students, ym) ==> yms.contains(ym)
}

/// The ascending enumeration of the roster's active months. The
/// enumeration is unique, so this picks the one sequence that
/// `is_active_month_seq` admits.
pub open spec fn spec_active_months(students: Seq<Student>) -> Seq<YearMonth> {
    choose|yms: Seq<YearMonth>| is_active_month_seq(students, yms)
}

proof fn lemma_sorted_seqs_equal(a: Seq<YearMonth>, b: Seq<YearMonth>)
    requires
        ym_strictly_sorted(a),
        ym_strictly_sorted(b),
        forall|ym: YearMonth| a.contains(ym) <==> b.contains(ym),
    ensures
        a =~= b,
    decreases a.len(),
{
    if a.len() == 0 {
        if b.len() > 0 {
            assert(b.contains(b[0]));
            assert(a.contains(b[0]));
        }
    } else {
        assert(a.contains(a[0]));
        assert(b.contains(a[0]));
        assert(b.len() > 0);
        assert(b.contains(b[0]));
        assert(a.contains(b[0]));
        let i = choose|i: int| 0 <= i < a.len() && a[i] == b[0];
        let j = choose|j: int| 0 <= j < b.len() && b[j] == a[0];
        assert(a[0] == b[0]) by {
            if a[0] != b[0] {
                assert(i != 0);
                assert(j != 0);
                assert(a[0].before(a[i]));
                assert(b[0].before(b[j]));
            }
        };
        let at = a.subrange(1, a.len() as int);
        let bt = b.subrange(1, b.len() as int);
        assert(ym_strictly_sorted(at)) by {
            assert forall|p: int, q: int| 0 <= p < q < at.len() implies (#[trigger] at[p]).before(
                #[trigger] at[q],
            ) by {
                assert(at[p] == a[p + 1]);
                assert(at[q] == a[q + 1]);
            }
        };
        assert(ym_strictly_sorted(bt)) by {
            assert forall|p: int, q: int| 0 <= p < q < bt.len() implies (#[trigger] bt[p]).before(
                #[trigger] bt[q],
            ) by {
                assert(bt[p] == b[p + 1]);
                assert(bt[q] == b[q + 1]);
            }
        };
        assert forall|ym: YearMonth| at.contains(ym) implies bt.contains(ym) by {
            let k = choose|k: int| 0 <= k < at.len() && at[k] == ym;
            assert(a[k + 1] == ym);
            assert(a.contains(ym));
            assert(b.contains(ym));
            let l = choose|l: int| 0 <= l < b.len() && b[l] == ym;
            assert(a[0].before(a[k + 1]));
            assert(ym != b[0]);
            assert(l != 0);
            assert(bt[l - 1] == ym);
            assert(bt.contains(ym));
        };
        assert forall|ym: YearMonth| bt.contains(ym) implies at.contains(ym) by {
            let k = choose|k: int| 0 <= k < bt.len() && bt[k] == ym;
            assert(b[k + 1] == ym);
            assert(b.contains(ym));
            assert(a.contains(ym));
            let l = choose|l: int| 0 <= l < a.len() && a[l] == ym;
            assert(b[0].before(b[k + 1]));
            assert(ym != a[0]);
            assert(l != 0);
            assert(at[l - 1] == ym);
            assert(at.contains(ym));
        };
        lemma_sorted_seqs_equal(at, bt);
        assert(a.len() == b.len());
        assert forall|k: int| 0 <= k < a.len() implies a[k] == b[k] by {
            if k > 0 {
                assert(at[k - 1] == bt[k - 1]);
            }
        };
    }
}

/// Only one sequence enumerates the roster's active months: the
/// ascending order and the exact membership pin it down.
pub proof fn lemma_active_month_seq_unique(
    students: Seq<Student>,
    a: Seq<YearMonth>,
    b: Seq<YearMonth>,
)
    requires
        is_active_month_seq(students, a),
        is_active_month_seq(students, b),
    ensures
        a == b,
{
    assert forall|ym: YearMonth| a.contains(ym) implies b.contains(ym) by {
        let k = choose|k: int| 0 <= k < a.len() && a[k] == ym;
        assert(ym_active(students, a[k]));
    };
    assert forall|ym: YearMonth| b.contains(ym) implies a.contains(ym) by {
        let k = choose|k: int| 0 <= k < b.len() && b[k] == ym;
        assert(ym_active(students, b[k]));
    };
    lemma_sorted_seqs_equal(a, b);
}

/// Whether the student logged at least one session in the given month.
pub fn has_session_in_month(student: &Student, month: u32, year: i32) -> (r: bool)
    ensures
        r == student_active_in(*student, month as int, year as int),
{
    let mut j: usize = 0;
    while j < student.actual_sessions.len()
        invariant
            j <= student.actual_sessions@.len(),
            forall|k: int|
                0 <= k < j ==> !session_in_month(
                    #[trigger] student.actual_sessions@[k],
                    month as int,
                    year as int,
                ),
        decreases student.actual_sessions@.len() - j,
    {
        let d = student.actual_sessions[j];
        if d.year == year && d.month == month {
            return true;
        }
        j = j + 1;
    }
    false
}

#[verifier::spinoff_prover]
#[verifier::rlimit(30)]
fn insert_year_month(yms: &mut Vec<YearMonth>, ym: YearMonth)
    requires
        ym_strictly_sorted(old(yms)@),
    ensures
        ym_strictly_sorted(final(yms)@),
        forall|z: YearMonth| final(yms)@.contains(z) <==> (old(yms)@.contains(z) || z == ym),
{
    let ghost orig = yms@;
    let mut pos: usize = 0;
    while pos < yms.len()
        invariant_except_break
            yms@ == orig,
            pos <= yms@.len(),
            forall|t: int| 0 <= t < pos ==> (#[trigger] yms@[t]).before(ym),
        ensures
            yms@ == orig,
            pos <= yms@.len(),
            forall|t: int| 0 <= t < pos ==> (#[trigger] yms@[t]).before(ym),
            pos < yms@.len() ==> !yms@[pos as int].before(ym),
        decreases yms@.len() - pos,
    {
        let c = yms[pos];
        if !(c.year < ym.year || (c.year == ym.year && c.month < ym.month)) {
            break;
        }
        pos = pos + 1;
    }
    if pos < yms.len() {
        let c = yms[pos];
        if c.year == ym.year && c.month == ym.month {
            proof {
                assert(yms@[pos as int] == ym);
                assert(yms@.contains(ym));
            }
            return;
        }
    }
    yms.insert(pos, ym);
    proof {
        assert(yms@ == orig.insert(pos as int, ym));
        orig.insert_ensures(pos as int, ym);
        assert(yms@.len() == orig.len() + 1);
        assert(forall|t: int| 0 <= t < pos ==> #[trigger] yms@[t] == orig[t]);
        assert(forall|t: int| pos <= t < orig.len() ==> #[trigger] yms@[t + 1] == orig[t]);
        assert(yms@[pos as int] == ym);
        assert forall|i: int, j: int| 0 <= i < j < yms@.len() implies (#[trigger] yms@[i]).before(
            #[trigger] yms@[j],
        ) by {
            if j < pos {
                assert(yms@[i] == orig[i]);
                assert(yms@[j] == orig[j]);
            } else if i < pos && j == pos {
                assert(yms@[i] == orig[i]);
            } else if i < pos && j > pos {
                assert(yms@[i] == orig[i]);
                assert(yms@[j] == orig[j - 1]);
                if pos < orig.len() {
                    assert(orig[i].before(ym));
                    if j - 1 == pos {
                        assert(!orig[pos as int].before(ym));
                        assert(orig[pos as int] != ym);
                        assert(ym.before(orig[pos as int]));
                    } else {
                        assert(orig[pos as int].before(orig[j - 1]));
                    }
                }
            } else if i == pos {
                assert(yms@[i] == ym);
                assert(yms@[j] == orig[j - 1]);
                assert(!orig[pos as int].before(ym));
                assert(orig[pos as int] != ym);
                assert(ym.before(orig[pos as int]));
                if j - 1 > pos {
                    assert(orig[pos as int].before(orig[j - 1]));
                }
            } else {
                assert(yms@[i] == orig[i - 1]);
                assert(yms@[j] == orig[j - 1]);
            }
        };
        assert forall|z: YearMonth| yms@.contains(z) implies (orig.contains(z) || z == ym) by {
            let k = choose|k: int| 0 <= k < yms@.len() && yms@[k] == z;
            if k < pos {
                assert(orig[k] == z);
                assert(orig.contains(z));
            } else if k > pos {
                assert(orig[k - 1] == z);
                assert(orig.contains(z));
            }
        };
        assert forall|z: YearMonth| (orig.contains(z) || z == ym) implies yms@.contains(z) by {
            if z == ym {
                assert(yms@[pos as int] == z);
            } else {
                let k = choose|k: int| 0 <= k < orig.len() && orig[k] == z;
                if k < pos {
                    assert(yms@[k] == z);
                } else {
                    assert(yms@[k + 1] == z);
                }
            }
        };
    }
}

spec fn ym_in_prefix(students: Seq<Student>, i: int, j: int, ym: YearMonth) -> bool {
    exists|p: int, q: int|
        0 <= p < students.len() && 0 <= q < students[p].actual_sessions@.len() && (p < i || (p == i
            && q < j)) && (#[trigger] students[p].actual_sessions@[q]).year_month() == ym
}

/// The months in which some student of the roster logged a session, in
/// ascending calendar order, each month once. Months with no logged
/// session roster-wide are absent, whatever any schedule would have
/// implied for them.
pub fn active_months(students: &Vec<Student>) -> (r: Vec<YearMonth>)
    requires
        forall|i: int| 0 <= i < students@.len() ==> (#[trigger] students@[i]).wf(),
    ensures
        is_active_month_seq(students@, r@),
        r@ == spec_active_months(students@),
        forall|k: int| 0 <= k < r@.len() ==> (#[trigger] r@[k]).is_valid(),
{
    let mut r: Vec<YearMonth> = Vec::new();
    let mut i: usize = 0;
    while i < students.len()
        invariant
            forall|t: int| 0 <= t < students@.len() ==> (#[trigger] students@[t]).wf(),
            i <= students@.len(),
            ym_strictly_sorted(r@),
            forall|z: YearMonth| r@.contains(z) <==> ym_in_prefix(students@, i as int, 0, z),
            forall|k: int| 0 <= k < r@.len() ==> (#[trigger] r@[k]).is_valid(),
        decreases students@.len() - i,
    {
        let mut j: usize = 0;
        while j < students[i].actual_sessions.len()
            invariant
                forall|t: int| 0 <= t < students@.len() ==> (#[trigger] students@[t]).wf(),
                i < students@.len(),
                j <= students@[i as int].actual_sessions@.len(),
                ym_strictly_sorted(r@),
                forall|z: YearMonth|
                    r@.contains(z) <==> ym_in_prefix(students@, i as int, j as int, z),
                forall|k: int| 0 <= k < r@.len() ==> (#[trigger] r@[k]).is_valid(),
            decreases students@[i as int].actual_sessions@.len() - j,
        {
            let d = students[i].actual_sessions[j];
            let ym = YearMonth { year: d.year, month: d.month };
            let ghost before = r@;
            insert_year_month(&mut r, ym);
            proof {
                assert(students@[i as int].actual_sessions@[j as int].is_valid());
                assert(ym.is_valid());
                assert forall|z: YearMonth| r@.contains(z) implies ym_in_prefix(
                    students@,
                    i as int,
                    j + 1,
                    z,
                ) by {
                    if before.contains(z) {
                        let (p, q) = choose|p: int, q: int|
                            0 <= p < students@.len() && 0 <= q
                                < students@[p].actual_sessions@.len() && (p < i || (p == i && q
                                < j)) && (#[trigger] students@[p].actual_sessions@[q]).year_month()
                                == z;
                        assert(students@[p].actual_sessions@[q].year_month() == z);
                    } else {
                        assert(z == ym);
                        assert(students@[i as int].actual_sessions@[j as int].year_month() == z);
                    }
                };
                assert forall|z: YearMonth| ym_in_prefix(students@, i as int, j + 1, z) implies r@
                    .contains(z) by {
                    let (p, q) = choose|p: int, q: int|
                        0 <= p < students@.len() && 0 <= q < students@[p].actual_sessions@.len() && (
                        p < i || (p == i && q < j + 1)) && (
                        #[trigger] students@[p].actual_sessions@[q]).year_month() == z;
                    if p < i || (p == i && q < j) {
                        assert(ym_in_prefix(students@, i as int, j as int, z));
                        assert(before.contains(z));
                    } else {
                        assert(z == ym);
                    }
                };
                assert forall|k: int| 0 <= k < r@.len() implies (#[trigger] r@[k]).is_valid() by {
                    assert(r@.contains(r@[k]));
                    if before.contains(r@[k]) {
                        let t = choose|t: int| 0 <= t < before.len() && before[t] == r@[k];
                        assert(before[t].is_valid());
                    }
                };
            }
            j = j + 1;
        }
        proof {
            assert forall|z: YearMonth| r@.contains(z) implies ym_in_prefix(
                students@,
                i + 1,
                0,
                z,
            ) by {
                let (p, q) = choose|p: int, q: int|
                    0 <= p < students@.len() && 0 <= q < students@[p].actual_sessions@.len() && (p
                        < i || (p == i && q < students@[i as int].actual_sessions@.len())) && (
                    #[trigger] students@[p].actual_sessions@[q]).year_month() == z;
                assert(p < i + 1);
                assert(students@[p].actual_sessions@[q].year_month() == z);
            };
            assert forall|z: YearMonth| ym_in_prefix(students@, i + 1, 0, z) implies r@.contains(
                z,
            ) by {
                let (p, q) = choose|p: int, q: int|
                    0 <= p < students@.len() && 0 <= q < students@[p].actual_sessions@.len() && (p
                        < i + 1) && (#[trigger] students@[p].actual_sessions@[q]).year_month() == z;
                assert(p < i || (p == i && q < students@[i as int].actual_sessions@.len()));
                assert(ym_in_prefix(students@, i as int, students@[i as int].actual_sessions@.len() as int, z));
            };
        }
        i = i + 1;
    }
    proof {
        assert forall|z: YearMonth| r@.contains(z) implies #[trigger] ym_active(students@, z) by {
            let (p, q) = choose|p: int, q: int|
                0 <= p < students@.len() && 0 <= q < students@[p].actual_sessions@.len() && (p
                    < students@.len()) && (#[trigger] students@[p].actual_sessions@[q]).year_month()
                    == z;
            assert(session_in_month(students@[p].actual_sessions@[q], z.month as int, z.year as int));
            assert(student_active_in(students@[p], z.month as int, z.year as int));
        };
        assert forall|z: YearMonth| #[trigger] ym_active(students@, z) implies r@.contains(z) by {
            let p = choose|p: int|
                0 <= p < students@.len() && student_active_in(
                    #[trigger] students@[p],
                    z.month as int,
                    z.year as int,
                );
            let q = choose|q: int|
                0 <= q < students@[p].actual_sessions@.len() && session_in_month(
                    #[trigger] students@[p].actual_sessions@[q],
                    z.month as int,
                    z.year as int,
                );
            assert(students@[p].actual_sessions@[q].year_month() == z);
            assert(ym_in_prefix(students@, students@.len() as int, 0, z));
        };
        assert forall|k: int| 0 <= k < r@.len() implies ym_active(students@, #[trigger] r@[k]) by {
            assert(r@.contains(r@[k]));
        };
        assert(is_active_month_seq(students@, r@));
        assert(is_active_month_seq(students@, spec_active_months(students@))) by {
            assert(exists|yms: Seq<YearMonth>| is_active_month_seq(students@, yms)) by {
                assert(is_active_month_seq(students@, r@));
            };
        };
        lemma_active_month_seq_unique(students@, r@, spec_active_months(students@));
    }
    r
}

/// Sum, over the students among the first `n` that were active in the
/// month, of the month's sum each owes under the given strategy.
pub open spec fn roster_sum_through(
    students: Seq<Student>,
    n: int,
    m: int,
    y: int,
    counter: SessionCounter,
) -> int
    decreases n,
{
    if n <= 0 {
        0
    } else {
        roster_sum_through(students, n - 1, m, y, counter) + if student_active_in(
            students[n - 1],
            m,
            y,
        ) {
            spec_monthly_sum(students[n - 1], m, y, counter)
        } else {
            0int
        }
    }
}

/// Sum, over the students active in the month, of the month's sum each
/// owes under the given strategy. A student with no logged session that
/// month contributes nothing, whatever their payment terms.
pub open spec fn spec_roster_active_sum(
    students: Seq<Student>,
    m: int,
    y: int,
    counter: SessionCounter,
) -> int {
    roster_sum_through(students, students.len() as int, m, y, counter)
}

proof fn lemma_roster_sum_nonneg(
    students: Seq<Student>,
    n: int,
    m: int,
    y: int,
    counter: SessionCounter,
)
    requires
        n <= students.len(),
    ensures
        roster_sum_through(students, n, m, y, counter) >= 0,
    decreases n,
{
    if n > 0 {
        lemma_roster_sum_nonneg(students, n - 1, m, y, counter);
        lemma_monthly_sum_nonneg(students[n - 1], m, y, counter);
    }
}

proof fn lemma_clamp_add(a: int, t: int)
    requires
        a >= 0,
        t >= 0,
    ensures
        clamp_u64(clamp_u64(a) + clamp_u64(t)) == clamp_u64(a + t),
{
}

/// Sum of the monthly sums owed by the students active in the month,
/// under the given strategy; clamped at the largest representable sum.
pub fn roster_active_sum(
    students: &Vec<Student>,
    month: u32,
    year: i32,
    counter: SessionCounter,
) -> (r: u64)
    requires
        forall|i: int| 0 <= i < students@.len() ==> (#[trigger] students@[i]).wf(),
        MIN_YEAR <= year <= MAX_YEAR,
        1 <= month <= 12,
    ensures
        r == clamp_u64(
            spec_roster_active_sum(students@, month as int, year as int, counter),
        ),
{
    let mut acc: u64 = 0;
    let mut i: usize = 0;
    while i < students.len()
        invariant
            forall|t: int| 0 <= t < students@.len() ==> (#[trigger] students@[t]).wf(),
            MIN_YEAR <= year <= MAX_YEAR,
            1 <= month <= 12,
            i <= students@.len(),
            acc == clamp_u64(
                roster_sum_through(students@, i as int, month as int, year as int, counter),
            ),
        decreases students@.len() - i,
    {
        if has_session_in_month(&students[i], month, year) {
            let term = compute_monthly_sum(&students[i], month, year, counter);
            proof {
                lemma_roster_sum_nonneg(students@, i as int, month as int, year as int, counter);
                lemma_monthly_sum_nonneg(students@[i as int], month as int, year as int, counter);
                lemma_clamp_add(
                    roster_sum_through(students@, i as int, month as int, year as int, counter),
                    spec_monthly_sum(students@[i as int], month as int, year as int, counter),
                );
            }
            acc = add_clamped(acc, term);
        }
        i = i + 1;
    }
    acc
}

/// Sum over the first `n` students of their raw in-month session count.
pub open spec fn roster_raw_through(students: Seq<Student>, n: int, m: int, y: int) -> int
    decreases n,
{
    if n <= 0 {
        0
    } else {
        roster_raw_through(students, n - 1, m, y) + spec_monthly_raw_sessions(
            students[n - 1],
            m,
            y,
        )
    }
}

/// All logged sessions of the roster that fall in the month, counted
/// raw: no weekday filter.
pub open spec fn spec_roster_raw_sessions(students: Seq<Student>, m: int, y: int) -> int {
    roster_raw_through(students, students.len() as int, m, y)
}

proof fn lemma_roster_raw_nonneg(students: Seq<Student>, n: int, m: int, y: int)
    requires
        n <= students.len(),
    ensures
        roster_raw_through(students, n, m, y) >= 0,
    decreases n,
{
    if n > 0 {
        lemma_roster_raw_nonneg(students, n - 1, m, y);
        lemma_monthly_counts_nonneg(students[n - 1], m, y);
    }
}

/// Roster-wide raw count of logged sessions in the month; clamped at
/// the largest representable count.
pub fn roster_raw_sessions(students: &Vec<Student>, month: u32, year: i32) -> (r: u64)
    ensures
        r == clamp_u64(spec_roster_raw_sessions(students@, month as int, year as int)),
{
    let mut acc: u64 = 0;
    let mut i: usize = 0;
    while i < students.len()
        invariant
            i <= students@.len(),
            acc == clamp_u64(roster_raw_through(students@, i as int, month as int, year as int)),
        decreases students@.len() - i,
    {
        let term = compute_monthly_raw_sessions(&students[i], month, year);
        proof {
            lemma_roster_raw_nonneg(students@, i as int, month as int, year as int);
            lemma_monthly_counts_nonneg(students@[i as int], month as int, year as int);
            lemma_clamp_add(
                roster_raw_through(students@, i as int, month as int, year as int),
                spec_monthly_raw_sessions(students@[i as int], month as int, year as int),
            );
        }
        acc = add_clamped(acc, term);
        i = i + 1;
    }
    acc
}

/// Sum over the first `n` students of the sessions the given strategy
/// counts for them in the month.
pub open spec fn roster_counted_through(
    students: Seq<Student>,
    n: int,
    m: int,
    y: int,
    counter: SessionCounter,
) -> int
    decreases n,
{
    if n <= 0 {
        0
    } else {
        roster_counted_through(students, n - 1, m, y, counter) + spec_counted_sessions(
            counter,
            students[n - 1],
            m,
            y,
        )
    }
}

/// Sessions the given strategy counts in the month, summed over the
/// whole roster.
pub open spec fn spec_roster_counted_sessions(
    students: Seq<Student>,
    m: int,
    y: int,
    counter: SessionCounter,
) -> int {
    roster_counted_through(students, students.len() as int, m, y, counter)
}

proof fn lemma_roster_counted_nonneg(
    students: Seq<Student>,
    n: int,
    m: int,
    y: int,
    counter: SessionCounter,
)
    requires
        n <= students.len(),
    ensures
        roster_counted_through(students, n, m, y, counter) >= 0,
    decreases n,
{
    if n > 0 {
        lemma_roster_counted_nonneg(students, n - 1, m, y, counter);
        lemma_monthly_counts_nonneg(students[n - 1], m, y);
    }
}

/// Roster-wide count of the month's sessions under the given strategy;
/// clamped at the largest representable count.
pub fn roster_counted_sessions(
    students: &Vec<Student>,
    month: u32,
    year: i32,
    counter: SessionCounter,
) -> (r: u64)
    requires
        forall|i: int| 0 <= i < students@.len() ==> (#[trigger] students@[i]).wf(),
        MIN_YEAR <= year <= MAX_YEAR,
        1 <= month <= 12,
    ensures
        r == clamp_u64(
            spec_roster_counted_sessions(students@, month as int, year as int, counter),
        ),
{
    let mut acc: u64 = 0;
    let mut i: usize = 0;
    while i < students.len()
        invariant
            forall|t: int| 0 <= t < students@.len() ==> (#[trigger] students@[t]).wf(),
            MIN_YEAR <= year <= MAX_YEAR,
            1 <= month <= 12,
            i <= students@.len(),
            acc == clamp_u64(
                roster_counted_through(students@, i as int, month as int, year as int, counter),
            ),
        decreases students@.len() - i,
    {
        let term = count_sessions(counter, &students[i], month, year);
        proof {
            lemma_roster_counted_nonneg(students@, i as int, month as int, year as int, counter);
            lemma_monthly_counts_nonneg(students@[i as int], month as int, year as int);
            lemma_clamp_add(
                roster_counted_through(students@, i as int, month as int, year as int, counter),
                spec_counted_sessions(counter, students@[i as int], month as int, year as int),
            );
        }
        acc = add_clamped(acc, term);
        i = i + 1;
    }
    acc
}

/// Sum over the first `n` students of the month's sum each owes under
/// the given strategy, active or not.
pub open spec fn roster_total_through(
    students: Seq<Student>,
    n: int,
    m: int,
    y: int,
    counter: SessionCounter,
) -> int
    decreases n,
{
    if n <= 0 {
        0
    } else {
        roster_total_through(students, n - 1, m, y, counter) + spec_monthly_sum(
            students[n - 1],
            m,
            y,
            counter,
        )
    }
}

/// The month's sums owed under the given strategy, summed over the
/// whole roster, active or not.
pub open spec fn spec_roster_total_sum(
    students: Seq<Student>,
    m: int,
    y: int,
    counter: SessionCounter,
) -> int {
    roster_total_through(students, students.len() as int, m, y, counter)
}

proof fn lemma_roster_total_nonneg(
    students: Seq<Student>,
    n: int,
    m: int,
    y: int,
    counter: SessionCounter,
)
    requires
        n <= students.len(),
    ensures
        roster_total_through(students, n, m, y, counter) >= 0,
    decreases n,
{
    if n > 0 {
        lemma_roster_total_nonneg(students, n - 1, m, y, counter);
        lemma_monthly_sum_nonneg(students[n - 1], m, y, counter);
    }
}

/// The month's sums owed, totalled over the whole roster under the
/// given strategy; clamped at the largest representable sum.
pub fn roster_total_sum(
    students: &Vec<Student>,
    month: u32,
    year: i32,
    counter: SessionCounter,
) -> (r: u64)
    requires
        forall|i: int| 0 <= i < students@.len() ==> (#[trigger] students@[i]).wf(),
        MIN_YEAR <= year <= MAX_YEAR,
        1 <= month <= 12,
    ensures
        r == clamp_u64(spec_roster_total_sum(students@, month as int, year as int, counter)),
{
    let mut acc: u64 = 0;
    let mut i: usize = 0;
    while i < students.len()
        invariant
            forall|t: int| 0 <= t < students@.len() ==> (#[trigger] students@[t]).wf(),
            MIN_YEAR <= year <= MAX_YEAR,
            1 <= month <= 12,
            i <= students@.len(),
            acc == clamp_u64(
                roster_total_through(students@, i as int, month as int, year as int, counter),
            ),
        decreases students@.len() - i,
    {
        let term = compute_monthly_sum(&students[i], month, year, counter);
        proof {
            lemma_roster_total_nonneg(students@, i as int, month as int, year as int, counter);
            lemma_monthly_sum_nonneg(students@[i as int], month as int, year as int, counter);
            lemma_clamp_add(
                roster_total_through(students@, i as int, month as int, year as int, counter),
                spec_monthly_sum(students@[i as int], month as int, year as int, counter),
            );
        }
        acc = add_clamped(acc, term);
        i = i + 1;
    }
    acc
}

/// The students active in one month: a key and the roster indices of
/// the students who logged at least one session that month.
#[derive(Debug)]
pub struct MonthGroup {
    pub year_month: YearMonth,
    pub student_indices: Vec<usize>,
}

/// The group's index list is strictly increasing and holds exactly the
/// roster indices of the students active in the group's month.
pub open spec fn group_indices_match(students: Seq<Student>, g: MonthGroup) -> bool {
    &&& forall|t: int, u: int|
        0 <= t < u < g.student_indices@.len() ==> g.student_indices@[t] < g.student_indices@[u]
    &&& forall|t: int|
        0 <= t < g.student_indices@.len() ==> (#[trigger] g.student_indices@[t]) < students.len()
    &&& forall|i: int|
        0 <= i < students.len() ==> (g.student_indices@.contains(i as usize)
            <==> student_active_in(
            #[trigger] students[i],
            g.year_month.month as int,
            g.year_month.year as int,
        ))
}

/// Inverts the roster's session log into a mapping from each active
/// month to the students who logged at least one session in it, in
/// ascending month order. A month in which no student logged a session
/// is absent, even if some student's schedule would have implied
/// sessions that month.
pub fn group_students_by_month(students: &Vec<Student>) -> (r: Vec<MonthGroup>)
    requires
        forall|i: int| 0 <= i < students@.len() ==> (#[trigger] students@[i]).wf(),
    ensures
        r@.len() == spec_active_months(students@).len(),
        forall|k: int|
            0 <= k < r@.len() ==> (#[trigger] r@[k]).year_month == spec_active_months(students@)[k],
        forall|k: int| 0 <= k < r@.len() ==> group_indices_match(students@, #[trigger] r@[k]),
        is_active_month_seq(students@, r@.map_values(|g: MonthGroup| g.year_month)),
{
    let yms = active_months(students);
    let mut r: Vec<MonthGroup> = Vec::new();
    let mut k: usize = 0;
    while k < yms.len()
        invariant
            forall|t: int| 0 <= t < students@.len() ==> (#[trigger] students@[t]).wf(),
            yms@ == spec_active_months(students@),
            is_active_month_seq(students@, yms@),
            k <= yms@.len(),
            r@.len() == k,
            forall|t: int| 0 <= t < k ==> (#[trigger] r@[t]).year_month == yms@[t],
            forall|t: int| 0 <= t < k ==> group_indices_match(students@, #[trigger] r@[t]),
        decreases yms@.len() - k,
    {
        let ym = yms[k];
        let mut idxs: Vec<usize> = Vec::new();
        let mut i: usize = 0;
        while i < students.len()
            invariant
                i <= students@.len(),
                forall|t: int, u: int|
                    0 <= t < u < idxs@.len() ==> idxs@[t] < idxs@[u],
                forall|t: int| 0 <= t < idxs@.len() ==> (#[trigger] idxs@[t]) < i,
                forall|ii: int|
                    0 <= ii < i ==> (idxs@.contains(ii as usize) <==> student_active_in(
                        #[trigger] students@[ii],
                        ym.month as int,
                        ym.year as int,
                    )),
            decreases students@.len() - i,
        {
            let ghost before = idxs@;
            if has_session_in_month(&students[i], ym.month, ym.year) {
                idxs.push(i);
                proof {
                    assert forall|ii: int|
                        0 <= ii < i + 1 implies (idxs@.contains(ii as usize)
                        <==> student_active_in(
                        #[trigger] students@[ii],
                        ym.month as int,
                        ym.year as int,
                    )) by {
                        assert(idxs@ == before.push(i as usize));
                        if ii < i {
                            if before.contains(ii as usize) {
                                let t = choose|t: int|
                                    0 <= t < before.len() && before[t] == ii as usize;
                                assert(idxs@[t] == ii as usize);
                            }
                            if idxs@.contains(ii as usize) {
                                let t = choose|t: int|
                                    0 <= t < idxs@.len() && idxs@[t] == ii as usize;
                                assert(t < before.len());
                                assert(before[t] == ii as usize);
                            }
                        } else {
                            assert(idxs@[idxs@.len() - 1] == i as usize);
                        }
                    };
                }
            } else {
                proof {
                    assert forall|ii: int|
                        0 <= ii < i + 1 implies (idxs@.contains(ii as usize)
                        <==> student_active_in(
                        #[trigger] students@[ii],
                        ym.month as int,
                        ym.year as int,
                    )) by {
                        if ii == i {
                            if idxs@.contains(ii as usize) {
                                let t = choose|t: int|
                                    0 <= t < idxs@.len() && idxs@[t] == ii as usize;
                            }
                        }
                    };
                }
            }
            i = i + 1;
        }
        r.push(MonthGroup { year_month: ym, student_indices: idxs });
        k = k + 1;
    }
    proof {
        let mapped = r@.map_values(|g: MonthGroup| g.year_month);
        assert(mapped =~= yms@);
    }
    r
}

/// One month's income figures: what the roster's sessions should have
/// earned and what its completed sessions did earn, labelled with the
/// short month name and the year.
#[derive(Debug)]
pub struct IncomeData {
    pub potential: u64,
    pub actual: u64,
    pub month_year: (String, i32),
}

/// One month's attendance figure: the raw count of logged sessions,
/// labelled with the short month name.
#[derive(Debug)]
pub struct Attendance {
    pub month: String,
    pub attended_days: u64,
}

/// The entry carries the month's label and the roster's actual and
/// potential income for it: actual from completed sessions, potential
/// from scheduled ones, both summed over the students active that
/// month.
pub open spec fn income_entry_matches(students: Seq<Student>, ym: YearMonth, e: IncomeData) -> bool {
    &&& e.actual == clamp_u64(
        spec_roster_active_sum(
            students,
            ym.month as int,
            ym.year as int,
            SessionCounter::CompletedCounter,
        ),
    )
    &&& e.potential == clamp_u64(
        spec_roster_active_sum(
            students,
            ym.month as int,
            ym.year as int,
            SessionCounter::ScheduledCounter,
        ),
    )
    &&& e.month_year.0@ == month_abbrev(ym.month as int)
    &&& e.month_year.1 == ym.year
}

/// The entry carries the month's label and the roster's raw count of
/// logged sessions in it, with no weekday filter. The count runs over
/// the whole roster: a student with no session in the month adds
/// nothing, so this equals the sum over the month's group.
pub open spec fn attendance_entry_matches(
    students: Seq<Student>,
    ym: YearMonth,
    e: Attendance,
) -> bool {
    &&& e.attended_days == clamp_u64(
        spec_roster_raw_sessions(students, ym.month as int, ym.year as int),
    )
    &&& e.month@ == month_abbrev(ym.month as int)
}

impl Domain {
    /// The roster's income series: one entry for each month in which
    /// some student logged a session, in ascending month order, with
    /// the month's actual and potential income summed over the
    /// students active that month.
    pub fn compute_income_data(&self) -> (r: Vec<IncomeData>)
        requires
            self.wf(),
        ensures
            r@.len() == spec_active_months(self.students@).len(),
            forall|k: int|
                0 <= k < r@.len() ==> income_entry_matches(
                    self.students@,
                    spec_active_months(self.students@)[k],
                    #[trigger] r@[k],
                ),
    {
        let yms = active_months(&self.students);
        let mut r: Vec<IncomeData> = Vec::new();
        let mut k: usize = 0;
        while k < yms.len()
            invariant
                self.wf(),
                yms@ == spec_active_months(self.students@),
                forall|t: int| 0 <= t < yms@.len() ==> (#[trigger] yms@[t]).is_valid(),
                k <= yms@.len(),
                r@.len() == k,
                forall|t: int|
                    0 <= t < k ==> income_entry_matches(self.students@, yms@[t], #[trigger] r@[t]),
            decreases yms@.len() - k,
        {
            let ym = yms[k];
            let actual = roster_active_sum(
                &self.students,
                ym.month,
                ym.year,
                SessionCounter::CompletedCounter,
            );
            let potential = roster_active_sum(
                &self.students,
                ym.month,
                ym.year,
                SessionCounter::ScheduledCounter,
            );
            let label = month_short_name(ym.month);
            r.push(IncomeData { potential, actual, month_year: (label, ym.year) });
            k = k + 1;
        }
        r
    }

    /// The roster's attendance series: one entry for each month in
    /// which some student logged a session, in ascending month order,
    /// with the month's raw count of logged sessions. Unlike the
    /// income series, no weekday filter applies here: the asymmetry is
    /// intentional and kept.
    pub fn compute_attendance_data(&self) -> (r: Vec<Attendance>)
        requires
            self.wf(),
        ensures
            r@.len() == spec_active_months(self.students@).len(),
            forall|k: int|
                0 <= k < r@.len() ==> attendance_entry_matches(
                    self.students@,
                    spec_active_months(self.students@)[k],
                    #[trigger] r@[k],
                ),
    {
        let yms = active_months(&self.students);
        let mut r: Vec<Attendance> = Vec::new();
        let mut k: usize = 0;
        while k < yms.len()
            invariant
                self.wf(),
                yms@ == spec_active_months(self.students@),
                forall|t: int| 0 <= t < yms@.len() ==> (#[trigger] yms@[t]).is_valid(),
                k <= yms@.len(),
                r@.len() == k,
                forall|t: int|
                    0 <= t < k ==> attendance_entry_matches(
                        self.students@,
                        yms@[t],
                        #[trigger] r@[t],
                    ),
            decreases yms@.len() - k,
        {
            let ym = yms[k];
            let attended_days = roster_raw_sessions(&self.students, ym.month, ym.year);
            let month = month_short_name(ym.month);
            r.push(Attendance { month, attended_days });
            k = k + 1;
        }
        r
    }
}

/// Roster-wide figures for one month: sessions and revenue totalled
/// over every student of the roster.
#[derive(Debug, Clone, Copy, PartialEq, Eq, Structural)]
pub struct MonthlySummary {
    pub year_month: YearMonth,
    pub actual_revenue: u64,
    pub potential_revenue: u64,
    pub total_scheduled_sessions: u64,
    pub total_actual_sessions: u64,
}

/// Roster-wide totals for the given month: scheduled and completed
/// session counts, and the revenue each implies, summed over every
/// student of the roster.
pub fn compute_monthly_summary(students: &Vec<Student>, month: u32, year: i32) -> (r:
    MonthlySummary)
    requires
        forall|i: int| 0 <= i < students@.len() ==> (#[trigger] students@[i]).wf(),
        MIN_YEAR <= year <= MAX_YEAR,
        1 <= month <= 12,
    ensures
        r.year_month == (YearMonth { year, month }),
        r.actual_revenue == clamp_u64(
            spec_roster_total_sum(
                students@,
                month as int,
                year as int,
                SessionCounter::CompletedCounter,
            ),
        ),
        r.potential_revenue == clamp_u64(
            spec_roster_total_sum(
                students@,
                month as int,
                year as int,
                SessionCounter::ScheduledCounter,
            ),
        ),
        r.total_scheduled_sessions == clamp_u64(
            spec_roster_counted_sessions(
                students@,
                month as int,
                year as int,
                SessionCounter::ScheduledCounter,
            ),
        ),
        r.total_actual_sessions == clamp_u64(
            spec_roster_counted_sessions(
                students@,
                month as int,
                year as int,
                SessionCounter::CompletedCounter,
            ),
        ),
{
    let actual_revenue = roster_total_sum(students, month, year, SessionCounter::CompletedCounter);
    let potential_revenue = roster_total_sum(
        students,
        month,
        year,
        SessionCounter::ScheduledCounter,
    );
    let total_scheduled_sessions = roster_counted_sessions(
        students,
        month,
        year,
        SessionCounter::ScheduledCounter,
    );
    let total_actual_sessions = roster_counted_sessions(
        students,
        month,
        year,
        SessionCounter::CompletedCounter,
    );
    MonthlySummary {
        year_month: YearMonth { year, month },
        actual_revenue,
        potential_revenue,
        total_scheduled_sessions,
        total_actual_sessions,
    }
}

impl MonthlySummary {
    /// Revenue lost to sessions that should have happened but did not:
    /// the potential revenue less the actual, and zero when the actual
    /// exceeds the potential.
    pub fn lost_revenue(&self) -> (r: u64)
        ensures
            r == if self.potential_revenue >= self.actual_revenue {
                (self.potential_revenue - self.actual_revenue) as u64
            } else {
                0u64
            },
    {
        if self.potential_revenue >= self.actual_revenue {
            self.potential_revenue - self.actual_revenue
        } else {
            0
        }
    }
}

} // verus!
