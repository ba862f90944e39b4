//! Trend computation: percentage change and direction between two
//! numeric observations, and the roster's actual-income trend.

use vstd::prelude::*;

use crate::aggregate::{active_months, roster_active_sum, spec_active_months, spec_roster_active_sum};
use crate::accounting::{clamp_u64, SessionCounter};
use crate::calendar::{Date, YearMonth};
use crate::roster::{Domain, Student};

verus! {

/// Direction of a change between two observations.
#[derive(Debug, Clone, Copy, PartialEq, Eq, Structural)]
pub enum TrendDirection {
    Up,
    Down,
}

/// An exact, non-negative percentage change, held as the absolute
/// difference and the base of the comparison: the change is
/// `100 * delta / base` percent, with `base` never zero.
#[derive(Debug, Clone, Copy, PartialEq, Eq, Structural)]
pub struct PercentChange {
    pub delta: u64,
    pub base: u64,
}

/// A trend between two observations: either there was no data to
/// compare against, or a direction with a percentage change.
#[derive(Debug, Clone, Copy, PartialEq, Eq, Structural)]
pub enum NumberTrend {
    NoData,
    Trend { trend_direction: TrendDirection, percentage_change: PercentChange },
}

/// Trend from `previous` to `current`: no data when `previous` is zero
/// (nothing to compare against), otherwise the direction of the change
/// and its magnitude as a percentage of `previous`.
pub open spec fn spec_compute_trend(previous: u64, current: u64) -> NumberTrend {
    if previous == 0 {
        NumberTrend::NoData
    } else {
        NumberTrend::Trend {
            trend_direction: if current >= previous {
                TrendDirection::Up
            } else {
                TrendDirection::Down
            },
            percentage_change: PercentChange {
                delta: if current >= previous {
                    (current - previous) as u64
                } else {
                    (previous - current) as u64
                },
                base: previous,
            },
        }
    }
}

/// Percentage change and direction between two observations. A zero
/// `previous` observation yields `NoData`: there is nothing meaningful
/// to divide by.
pub fn compute_trend(previous: u64, current: u64) -> (r: NumberTrend)
    ensures
        r == spec_compute_trend(previous, current),
        previous == 0 ==> r == NumberTrend::NoData,
        previous > 0 ==> r == (NumberTrend::Trend {
            trend_direction: if current >= previous {
                TrendDirection::Up
            } else {
                TrendDirection::Down
            },
            percentage_change: PercentChange {
                delta: if current >= previous {
                    (current - previous) as u64
                } else {
                    (previous - current) as u64
                },
                base: previous,
            },
        }),
{
    if previous == 0 {
        NumberTrend::NoData
    } else {
        let delta = if current >= previous {
            current - previous
        } else {
            previous - current
        };
        NumberTrend::Trend {
            trend_direction: if current >= previous {
                TrendDirection::Up
            } else {
                TrendDirection::Down
            },
            percentage_change: PercentChange { delta, base: previous },
        }
    }
}

/// The month the roster's income trend compares the reference month
/// against: the previous calendar month, but of the previous year.
pub open spec fn spec_trend_comparison_month(today: Date) -> YearMonth {
    YearMonth {
        year: (today.year - 1) as i32,
        month: if today.month == 1 {
            12u32
        } else {
            (today.month - 1) as u32
        },
    }
}

/// The roster's actual-income trend at the given reference date:
/// compares the reference month's actual income against that of the
/// comparison month, and yields `NoData` when fewer than two months of
/// income data exist or either month is absent from the income series.
pub open spec fn spec_income_trend(students: Seq<Student>, today: Date) -> NumberTrend {
    let yms = spec_active_months(students);
    let cur = YearMonth { year: today.year, month: today.month };
    let prev = spec_trend_comparison_month(today);
    if yms.len() < 2 {
        NumberTrend::NoData
    } else if !yms.contains(prev) || !yms.contains(cur) {
        NumberTrend::NoData
    } else {
        spec_compute_trend(
            clamp_u64(
                spec_roster_active_sum(
                    students,
                    prev.month as int,
                    prev.year as int,
                    SessionCounter::CompletedCounter,
                ),
            ) as u64,
            clamp_u64(
                spec_roster_active_sum(
                    students,
                    cur.month as int,
                    cur.year as int,
                    SessionCounter::CompletedCounter,
                ),
            ) as u64,
        )
    }
}

impl Domain {
    /// The roster's actual-income trend at the given reference date.
    /// The comparison key is the previous calendar month of the
    /// previous year, kept exactly as the roster tool computes it; an
    /// income series with fewer than two months, or one missing either
    /// key, yields `NoData` rather than a failure.
    pub fn get_actual_income_trend_direction(&self, today: &Date) -> (r: NumberTrend)
        requires
            self.wf(),
            today.is_valid(),
        ensures
            r == spec_income_trend(self.students@, *today),
    {
        let yms = active_months(&self.students);
        if yms.len() < 2 {
            return NumberTrend::NoData;
        }
        let prev_month: u32 = if today.month == 1 {
            12
        } else {
            today.month - 1
        };
        let prev = YearMonth { year: today.year - 1, month: prev_month };
        let cur = YearMonth { year: today.year, month: today.month };
        let prev_found = year_months_contain(&yms, prev);
        let cur_found = year_months_contain(&yms, cur);
        if !prev_found || !cur_found {
            return NumberTrend::NoData;
        }
        let previous_actual = roster_active_sum(
            &self.students,
            prev.month,
            prev.year,
            SessionCounter::CompletedCounter,
        );
        let current_actual = roster_active_sum(
            &self.students,
            cur.month,
            cur.year,
            SessionCounter::CompletedCounter,
        );
        compute_trend(previous_actual, current_actual)
    }
}

fn year_months_contain(yms: &Vec<YearMonth>, ym: YearMonth) -> (r: bool)
    ensures
        r == yms@.contains(ym),
{
    let mut i: usize = 0;
    while i < yms.len()
        invariant
            i <= yms@.len(),
            forall|j: int| 0 <= j < i ==> yms@[j] != ym,
        decreases yms@.len() - i,
    {
        if yms[i].year == ym.year && yms[i].month == ym.month {
            assert(yms@.contains(ym)) by {
                assert(yms@[i as int] == ym);
            };
            return true;
        }
        i = i + 1;
    }
    assert(!yms@.contains(ym)) by {
        if yms@.contains(ym) {
            let j = choose|j: int| 0 <= j < yms@.len() && yms@[j] == ym;
        }
    };
    false
}

} // verus!
