//! The roster snapshot: students, their weekly schedules, their logged
//! sessions, and their payment terms. The engine never mutates a
//! snapshot; every figure is recomputed from it on demand.

use vstd::prelude::*;

use crate::calendar::{Date, Weekday};

verus! {

/// A person's name parts.
#[derive(Debug)]
pub struct PersonalName {
    pub first: String,
    pub last: String,
    pub other: Option<String>,
}

/// The tutor who owns the roster.
#[derive(Debug)]
pub struct Tutor {
    pub id: String,
    pub name: PersonalName,
}

/// A subject the tutor teaches.
#[derive(Debug, Clone, Copy, PartialEq, Eq, Structural)]
pub enum TutorSubject {
    AdditionalMathematics,
    ExtendedMathematics,
    Statistics,
}

impl TutorSubject {
    /// Display name of the subject.
    pub fn as_str(&self) -> (r: &str)
        ensures
            r@ == match *self {
                TutorSubject::AdditionalMathematics => "Additional Mathematics"@,
                TutorSubject::ExtendedMathematics => "Extended Mathematics"@,
                TutorSubject::Statistics => "Statistics"@,
            },
    {
        match self {
            TutorSubject::AdditionalMathematics => "Additional Mathematics",
            TutorSubject::ExtendedMathematics => "Extended Mathematics",
            TutorSubject::Statistics => "Statistics",
        }
    }
}

/// One recurring weekly slot of a student's schedule: a weekday and a
/// time-of-day label.
#[derive(Debug, Clone)]
pub struct SessionData {
    pub day: Weekday,
    pub time: String,
}

/// How a student pays.
#[derive(Debug, Clone, Copy, PartialEq, Eq, Structural)]
pub enum PaymentType {
    /// A fixed amount per completed session.
    PerSession,
    /// A flat amount per month, with no proration for partial months and
    /// no deduction for missed sessions.
    Monthly,
}

/// A student's payment terms. The amount is a non-negative sum of money
/// in minor units of the currency.
#[derive(Debug, Clone, Copy, PartialEq, Eq, Structural)]
pub struct PaymentData {
    pub payment_type: PaymentType,
    pub amount: u64,
}

/// A student of the roster.
#[derive(Debug)]
pub struct Student {
    pub id: String,
    pub name: PersonalName,
    pub subject: TutorSubject,
    /// The recurring weekly commitment.
    pub tabled_sessions: Vec<SessionData>,
    /// Dates of the sessions that actually happened, in the order they
    /// were logged.
    pub actual_sessions: Vec<Date>,
    pub payment_data: PaymentData,
    pub tution_start_date: Date,
}

impl Student {
    /// Every logged session date lies in range.
    pub open spec fn wf(self) -> bool {
        forall|j: int|
            0 <= j < self.actual_sessions@.len() ==> (#[trigger] self.actual_sessions@[j]).is_valid()
    }
}

/// An immutable snapshot of the whole roster.
#[derive(Debug)]
pub struct Domain {
    pub tutor: Tutor,
    pub students: Vec<Student>,
}

impl Domain {
    /// Every student's logged session dates lie in range.
    pub open spec fn wf(self) -> bool {
        forall|i: int| 0 <= i < self.students@.len() ==> (#[trigger] self.students@[i]).wf()
    }
}

} // verus!
