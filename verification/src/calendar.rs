//! Pure date-range and weekday-matching helpers over a plain
//! year/month/day calendar model (proleptic Gregorian).
//!
//! A date is modelled by its day number: the count of days since the
//! calendar's origin, with day number 1 falling on Monday, the first of
//! January of year 1. Weekdays are the day number reduced modulo 7.

use vstd::prelude::*;

verus! {

/// Earliest year the calendar model covers.
pub const MIN_YEAR: i32 = 1;

/// Latest year the calendar model covers.
pub const MAX_YEAR: i32 = 9999;

/// A year is a leap year when divisible by 4 but not by 100,
/// or when divisible by 400.
pub open spec fn is_leap_year(y: int) -> bool {
    (y % 4 == 0 && y % 100 != 0) || y % 400 == 0
}

/// Number of days in the given month of the given year.
pub open spec fn days_in_month(y: int, m: int) -> int {
    if m == 2 {
        if is_leap_year(y) {
            29
        } else {
            28
        }
    } else if m == 4 || m == 6 || m == 9 || m == 11 {
        30
    } else {
        31
    }
}

/// Days of the year strictly before month `m` of year `y`.
pub open spec fn days_before_month(y: int, m: int) -> int
    decreases m,
{
    if m <= 1 {
        0
    } else {
        days_before_month(y, m - 1) + days_in_month(y, m - 1)
    }
}

/// Number of leap years in `1..=y`.
pub open spec fn leap_years_through(y: int) -> int {
    y / 4 - y / 100 + y / 400
}

/// Day number of the date `(y, m, d)`: days elapsed since the calendar's
/// origin, counting the origin date (year 1, January 1) as day 1.
pub open spec fn day_number_of(y: int, m: int, d: int) -> int {
    365 * (y - 1) + leap_years_through(y - 1) + days_before_month(y, m) + d
}

/// Weekday of a day number, as an index with Monday 0 through Sunday 6.
pub open spec fn weekday_index_of_day_number(n: int) -> int {
    (n - 1) % 7
}

/// A day of the week.
#[derive(Clone, Copy, PartialEq, Eq, Structural, Debug)]
pub enum Weekday {
    Mon,
    Tue,
    Wed,
    Thu,
    Fri,
    Sat,
    Sun,
}

impl Weekday {
    /// Index of the weekday, Monday 0 through Sunday 6.
    pub open spec fn index(self) -> int {
        match self {
            Weekday::Mon => 0,
            Weekday::Tue => 1,
            Weekday::Wed => 2,
            Weekday::Thu => 3,
            Weekday::Fri => 4,
            Weekday::Sat => 5,
            Weekday::Sun => 6,
        }
    }
}

/// A calendar date, held as plain year, month and day fields.
#[derive(Clone, Copy, PartialEq, Eq, Structural, Debug)]
pub struct Date {
    pub year: i32,
    pub month: u32,
    pub day: u32,
}

/// A month of a particular year.
#[derive(Clone, Copy, PartialEq, Eq, Structural, Debug)]
pub struct YearMonth {
    pub year: i32,
    pub month: u32,
}

/// Failure to build a date from an out-of-range triple.
#[derive(Clone, Copy, PartialEq, Eq, Structural, Debug)]
pub enum CalendarError {
    InvalidCalendarConstruction,
}

impl Date {
    /// The triple lies in range: a real date of a covered year.
    pub open spec fn is_valid(self) -> bool {
        &&& MIN_YEAR <= self.year <= MAX_YEAR
        &&& 1 <= self.month <= 12
        &&& 1 <= self.day <= days_in_month(self.year as int, self.month as int)
    }

    /// Day number of this date.
    pub open spec fn day_number(self) -> int {
        day_number_of(self.year as int, self.month as int, self.day as int)
    }

    /// Weekday index of this date, Monday 0 through Sunday 6.
    pub open spec fn weekday_index(self) -> int {
        weekday_index_of_day_number(self.day_number())
    }

    /// The month this date falls in.
    pub open spec fn year_month(self) -> YearMonth {
        YearMonth { year: self.year, month: self.month }
    }

    /// Builds a date, rejecting any out-of-range triple.
    pub fn new(year: i32, month: u32, day: u32) -> (r: Result<Date, CalendarError>)
        ensures
            r is Ok <==> (Date { year, month, day }).is_valid(),
            r matches Ok(d) ==> d == (Date { year, month, day }),
            r matches Err(e) ==> e == CalendarError::InvalidCalendarConstruction,
    {
        if MIN_YEAR <= year && year <= MAX_YEAR && 1 <= month && month <= 12 && 1 <= day
            && day <= month_length(year, month) {
            Ok(Date { year, month, day })
        } else {
            Err(CalendarError::InvalidCalendarConstruction)
        }
    }
}

impl YearMonth {
    /// The pair lies in range.
    pub open spec fn is_valid(self) -> bool {
        MIN_YEAR <= self.year <= MAX_YEAR && 1 <= self.month <= 12
    }

    /// Strict calendar order: by year, then by month.
    pub open spec fn before(self, other: YearMonth) -> bool {
        self.year < other.year || (self.year == other.year && self.month < other.month)
    }
}

/// Whether `year` is a leap year.
pub fn leap_year(year: i32) -> (r: bool)
    requires
        year >= 1,
    ensures
        r == is_leap_year(year as int),
{
    (year % 4 == 0 && year % 100 != 0) || year % 400 == 0
}

/// Number of days in the given month.
pub fn month_length(year: i32, month: u32) -> (n: u32)
    requires
        year >= 1,
        1 <= month <= 12,
    ensures
        n == days_in_month(year as int, month as int),
{
    if month == 2 {
        if leap_year(year) {
            29
        } else {
            28
        }
    } else if month == 4 || month == 6 || month == 9 || month == 11 {
        30
    } else {
        31
    }
}

/// Day number of a date.
pub fn date_day_number(d: &Date) -> (n: u32)
    requires
        d.is_valid(),
    ensures
        n == d.day_number(),
        n >= 1,
{
    let prior: u32 = (d.year - 1) as u32;
    let leaps: u32 = prior / 4 - prior / 100 + prior / 400;
    let mut acc: u32 = 0;
    let mut mm: u32 = 1;
    while mm < d.month
        invariant
            d.is_valid(),
            1 <= mm <= d.month,
            acc == days_before_month(d.year as int, mm as int),
            acc <= 31 * (mm - 1),
        decreases d.month - mm,
    {
        acc = acc + month_length(d.year, mm);
        mm = mm + 1;
    }
    365 * prior + leaps + acc + d.day
}

/// Weekday of a date.
pub fn date_weekday(d: &Date) -> (w: Weekday)
    requires
        d.is_valid(),
    ensures
        w.index() == d.weekday_index(),
{
    let n = date_day_number(d);
    let r = (n - 1) % 7;
    if r == 0 {
        Weekday::Mon
    } else if r == 1 {
        Weekday::Tue
    } else if r == 2 {
        Weekday::Wed
    } else if r == 3 {
        Weekday::Thu
    } else if r == 4 {
        Weekday::Fri
    } else if r == 5 {
        Weekday::Sat
    } else {
        Weekday::Sun
    }
}

proof fn lemma_leap_count_step(y: int)
    requires
        y >= 1,
    ensures
        leap_years_through(y) == leap_years_through(y - 1) + if is_leap_year(y) {
            1int
        } else {
            0int
        },
{
    assert(y / 4 == (y - 1) / 4 + if y % 4 == 0 {
        1int
    } else {
        0int
    });
    assert(y / 100 == (y - 1) / 100 + if y % 100 == 0 {
        1int
    } else {
        0int
    });
    assert(y / 400 == (y - 1) / 400 + if y % 400 == 0 {
        1int
    } else {
        0int
    });
    assert(y % 400 == 0 ==> y % 100 == 0 && y % 4 == 0) by (nonlinear_arith);
    assert(y % 100 == 0 ==> y % 4 == 0) by (nonlinear_arith);
}

proof fn lemma_year_rollover(y: int)
    requires
        y >= 1,
    ensures
        day_number_of(y + 1, 1, 1) == day_number_of(y, 12, 31) + 1,
{
    assert(days_before_month(y, 12) == if is_leap_year(y) {
        335int
    } else {
        334int
    }) by {
        reveal_with_fuel(days_before_month, 13);
    };
    lemma_leap_count_step(y);
}

/// Date one day after the given date.
pub fn next_date(d: &Date) -> (r: Date)
    requires
        d.is_valid(),
        !(d.year == MAX_YEAR && d.month == 12 && d.day == 31),
    ensures
        r.is_valid(),
        r.day_number() == d.day_number() + 1,
        d.day < days_in_month(d.year as int, d.month as int) ==> r == (Date {
            year: d.year,
            month: d.month,
            day: (d.day + 1) as u32,
        }),
        d.day == days_in_month(d.year as int, d.month as int) && d.month < 12 ==> r == (Date {
            year: d.year,
            month: (d.month + 1) as u32,
            day: 1u32,
        }),
        d.day == days_in_month(d.year as int, d.month as int) && d.month == 12 ==> r == (Date {
            year: (d.year + 1) as i32,
            month: 1u32,
            day: 1u32,
        }),
{
    let dim = month_length(d.year, d.month);
    if d.day < dim {
        Date { year: d.year, month: d.month, day: d.day + 1 }
    } else if d.month < 12 {
        Date { year: d.year, month: d.month + 1, day: 1 }
    } else {
        let r = Date { year: d.year + 1, month: 1, day: 1 };
        proof {
            lemma_year_rollover(d.year as int);
        }
        r
    }
}

/// First and last calendar date of the given month.
pub fn get_month_date_range(year: i32, month: u32) -> (r: (Date, Date))
    requires
        MIN_YEAR <= year <= MAX_YEAR,
        1 <= month <= 12,
    ensures
        r.0 == (Date { year, month, day: 1 }),
        r.1 == (Date { year, month, day: days_in_month(year as int, month as int) as u32 }),
        r.0.is_valid(),
        r.1.is_valid(),
{
    let last = month_length(year, month);
    (Date { year, month, day: 1 }, Date { year, month, day: last })
}

/// All dates of the given month, in order: exactly one entry for each
/// day the month has, leap-year February included.
pub fn get_all_dates_in_month(year: i32, month: u32) -> (r: Vec<Date>)
    requires
        MIN_YEAR <= year <= MAX_YEAR,
        1 <= month <= 12,
    ensures
        r@.len() == days_in_month(year as int, month as int),
        forall|i: int|
            0 <= i < r@.len() ==> r@[i] == (Date { year, month, day: (i + 1) as u32 }),
        forall|i: int| 0 <= i < r@.len() ==> (#[trigger] r@[i]).is_valid(),
{
    let dim = month_length(year, month);
    let mut r: Vec<Date> = Vec::new();
    let mut day: u32 = 1;
    while day <= dim
        invariant
            MIN_YEAR <= year <= MAX_YEAR,
            1 <= month <= 12,
            dim == days_in_month(year as int, month as int),
            1 <= day <= dim + 1,
            r@.len() == day - 1,
            forall|i: int|
                0 <= i < r@.len() ==> r@[i] == (Date { year, month, day: (i + 1) as u32 }),
        decreases dim + 1 - day,
    {
        r.push(Date { year, month, day });
        day = day + 1;
    }
    r
}

/// Three-letter label of a month, January 1 through December 12.
pub open spec fn month_abbrev(m: int) -> Seq<char> {
    if m == 1 {
        "Jan"@
    } else if m == 2 {
        "Feb"@
    } else if m == 3 {
        "Mar"@
    } else if m == 4 {
        "Apr"@
    } else if m == 5 {
        "May"@
    } else if m == 6 {
        "Jun"@
    } else if m == 7 {
        "Jul"@
    } else if m == 8 {
        "Aug"@
    } else if m == 9 {
        "Sep"@
    } else if m == 10 {
        "Oct"@
    } else if m == 11 {
        "Nov"@
    } else {
        "Dec"@
    }
}

/// Three-letter name of a month.
pub fn month_short_name(month: u32) -> (s: String)
    requires
        1 <= month <= 12,
    ensures
        s@ == month_abbrev(month as int),
{
    if month == 1 {
        "Jan".to_owned()
    } else if month == 2 {
        "Feb".to_owned()
    } else if month == 3 {
        "Mar".to_owned()
    } else if month == 4 {
        "Apr".to_owned()
    } else if month == 5 {
        "May".to_owned()
    } else if month == 6 {
        "Jun".to_owned()
    } else if month == 7 {
        "Jul".to_owned()
    } else if month == 8 {
        "Aug".to_owned()
    } else if month == 9 {
        "Sep".to_owned()
    } else if month == 10 {
        "Oct".to_owned()
    } else if month == 11 {
        "Nov".to_owned()
    } else {
        "Dec".to_owned()
    }
}

} // verus!
