//! The values that a parse takes and gives back.

use vstd::prelude::*;

verus! {

/// How the components that a date string leaves out are filled in.
#[derive(Clone, Copy, Debug, PartialEq, Eq, Structural)]
pub enum DateRound {
    /// The latest value: last month, last day, 23:59:59.
    Ceil,
    /// The earliest value: first month, first day, 00:00:00.
    Floor,
}

/// A day of the proleptic Gregorian calendar.
#[derive(Clone, Copy, Debug, PartialEq, Eq, Structural)]
pub struct CalendarDate {
    pub year: i32,
    pub month: u32,
    pub day: u32,
}

/// A calendar day together with a time of day, both fully determined.
#[derive(Clone, Copy, Debug, PartialEq, Eq, Structural)]
pub struct ParsedTimestamp {
    pub year: i32,
    pub month: u32,
    pub day: u32,
    pub hour: u32,
    pub minute: u32,
    pub second: u32,
}

/// Why a date string was refused, with the text that shows it.
#[derive(Clone, Debug, PartialEq, Eq)]
pub enum ParseDateStrError {
    /// A component that should be a year, month or day is not an integer.
    DatePart(String),
    /// The integers form no calendar date, or the component count is wrong.
    Date(String),
}

/// The mathematical content of a `ParseDateStrError`.
pub enum DateStrFailure {
    DatePart(Seq<char>),
    Date(Seq<char>),
}

impl View for ParseDateStrError {
    type V = DateStrFailure;

    open spec fn view(&self) -> DateStrFailure {
        match self {
            ParseDateStrError::DatePart(s) => DateStrFailure::DatePart(s@),
            ParseDateStrError::Date(s) => DateStrFailure::Date(s@),
        }
    }
}

pub open spec fn result_view<T>(r: Result<T, ParseDateStrError>) -> Result<T, DateStrFailure> {
    match r {
        Ok(v) => Ok(v),
        Err(e) => Err(e@),
    }
}

} // verus!
