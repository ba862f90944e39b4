//! A tutor's roster engine: calendar arithmetic, per-student session
//! accounting, roster-wide monthly aggregation, and trend computation
//! over an immutable roster snapshot.

pub mod accounting;
pub mod aggregate;
pub mod calendar;
pub mod roster;
pub mod trend;
pub mod validation;
