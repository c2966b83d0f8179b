//! Partial-precision date strings ("Y", "M/Y", "D/M/Y") resolved into full
//! timestamps under a rounding policy, with the calendar rules they need.

pub mod calendar;
pub mod date_str;
pub mod laws;
pub mod model;
pub mod numtext;
pub mod team_join;

pub use calendar::last_day_of_month;
pub use date_str::{format_dmy, parse_date_str};
pub use model::{CalendarDate, DateRound, ParseDateStrError, ParsedTimestamp};
pub use team_join::{
    country_from_tz_label, employee_from_team_join, strip_time_word, Employee, TeamJoinUser,
    UserProfile,
};
