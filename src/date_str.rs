//! Resolving "Y", "M/Y" and "D/M/Y" into a full timestamp.

use vstd::prelude::*;
use vstd::string::*;

use crate::calendar::{
    date_from_ymd, days_in_month, has_month_end, is_valid_date, last_day_of_month,
    month_year_error, month_year_text,
};
use crate::model::{
    result_view, CalendarDate, DateRound, DateStrFailure, ParseDateStrError, ParsedTimestamp,
};
use crate::numtext::{decimal_text, int_text, parse_i32, parse_u32, parsed_i32, parsed_u32};

verus! {

/// The pieces of `s` between the slashes, as `str::split('/')` cuts them:
/// always at least one, empty pieces kept.
pub open spec fn split_slash(s: Seq<char>) -> Seq<Seq<char>>
    decreases s.len(),
{
    if s.len() == 0 {
        seq![Seq::<char>::empty()]
    } else {
        let front = split_slash(s.drop_last());
        if s.last() == '/' {
            front.push(Seq::<char>::empty())
        } else {
            front.update(front.len() - 1, front.last().push(s.last()))
        }
    }
}

/// A calendar day at the time of day that `round` gives: 23:59:59 for
/// `Ceil`, 00:00:00 for `Floor`.
pub open spec fn stamp(year: i32, month: u32, day: u32, round: DateRound) -> ParsedTimestamp {
    match round {
        DateRound::Ceil => ParsedTimestamp { year, month, day, hour: 23, minute: 59, second: 59 },
        DateRound::Floor => ParsedTimestamp { year, month, day, hour: 0, minute: 0, second: 0 },
    }
}

/// Day, month and year, each checked in that order, then the calendar.
pub open spec fn full_date_result(
    ds: Seq<char>,
    ms: Seq<char>,
    ys: Seq<char>,
    round: DateRound,
) -> Result<ParsedTimestamp, DateStrFailure> {
    if parsed_u32(ds) is None {
        Err(DateStrFailure::DatePart(ds))
    } else if parsed_u32(ms) is None {
        Err(DateStrFailure::DatePart(ms))
    } else if parsed_i32(ys) is None {
        Err(DateStrFailure::DatePart(ys))
    } else {
        let d = parsed_u32(ds)->0;
        let m = parsed_u32(ms)->0;
        let y = parsed_i32(ys)->0;
        if is_valid_date(y as int, m as int, d as int) {
            Ok(stamp(y, m, d, round))
        } else {
            Err(DateStrFailure::Date(ds + seq!['/'] + ms + seq!['/'] + ys))
        }
    }
}

/// Month and year, checked in that order; the day is the month's last for
/// `Ceil` and its first for `Floor`.
pub open spec fn month_year_result(
    ms: Seq<char>,
    ys: Seq<char>,
    round: DateRound,
) -> Result<ParsedTimestamp, DateStrFailure> {
    if parsed_u32(ms) is None {
        Err(DateStrFailure::DatePart(ms))
    } else if parsed_i32(ys) is None {
        Err(DateStrFailure::DatePart(ys))
    } else {
        let m = parsed_u32(ms)->0;
        let y = parsed_i32(ys)->0;
        let ok = match round {
            DateRound::Ceil => has_month_end(y as int, m as int),
            DateRound::Floor => is_valid_date(y as int, m as int, 1),
        };
        let day: u32 = match round {
            DateRound::Ceil => days_in_month(y as int, m as int) as u32,
            DateRound::Floor => 1,
        };
        if ok {
            Ok(stamp(y, m, day, round))
        } else {
            Err(DateStrFailure::Date(month_year_text(m as int, y as int)))
        }
    }
}

/// A year alone: December 31 for `Ceil`, January 1 for `Floor`.
pub open spec fn year_result(ys: Seq<char>, round: DateRound) -> Result<
    ParsedTimestamp,
    DateStrFailure,
> {
    if parsed_i32(ys) is None {
        Err(DateStrFailure::DatePart(ys))
    } else {
        let y = parsed_i32(ys)->0;
        match round {
            DateRound::Ceil => if has_month_end(y as int, 12) {
                Ok(stamp(y, 12, 31, round))
            } else {
                Err(DateStrFailure::Date(month_year_text(12, y as int)))
            },
            DateRound::Floor => if is_valid_date(y as int, 1, 1) {
                Ok(stamp(y, 1, 1, round))
            } else {
                Err(DateStrFailure::Date(seq!['1', '/', '1', '/'] + ys))
            },
        }
    }
}

/// What `parse_date_str` gives for a text: dispatch on the number of pieces.
pub open spec fn parse_result(s: Seq<char>, round: DateRound) -> Result<
    ParsedTimestamp,
    DateStrFailure,
> {
    let parts = split_slash(s);
    if parts.len() == 3 {
        full_date_result(parts[0], parts[1], parts[2], round)
    } else if parts.len() == 2 {
        month_year_result(parts[0], parts[1], round)
    } else if parts.len() == 1 {
        year_result(parts[0], round)
    } else {
        Err(DateStrFailure::Date(s))
    }
}

/// The text `D/M/Y` of a day, a month and a year.
pub open spec fn dmy_text(day: int, month: int, year: int) -> Seq<char> {
    int_text(day) + seq!['/'] + int_text(month) + seq!['/'] + int_text(year)
}

pub proof fn lemma_split_nonempty(s: Seq<char>)
    ensures
        split_slash(s).len() >= 1,
    decreases s.len(),
{
    if s.len() > 0 {
        lemma_split_nonempty(s.drop_last());
    }
}

fn split_on_slash(s: &str) -> (parts: Vec<&str>)
    ensures
        parts@.map_values(|p: &str| p@) == split_slash(s@),
{
    let n = s.unicode_len();
    let mut parts: Vec<&str> = Vec::new();
    let mut start: usize = 0;
    let mut i: usize = 0;
    proof {
        assert(s@.subrange(0, 0) =~= Seq::<char>::empty());
        assert(parts@.map_values(|p: &str| p@).push(s@.subrange(0, 0)) =~= seq![
            Seq::<char>::empty(),
        ]);
    }
    while i < n
        invariant
            n == s@.len(),
            start <= i <= n,
            parts@.map_values(|p: &str| p@).push(s@.subrange(start as int, i as int))
                == split_slash(s@.subrange(0, i as int)),
        decreases n - i,
    {
        let c = s.get_char(i);
        let ghost before = parts@.map_values(|p: &str| p@);
        let ghost st = start as int;
        proof {
            let t = s@.subrange(0, i + 1);
            assert(t.drop_last() =~= s@.subrange(0, i as int));
            assert(t.last() == c);
        }
        if c == '/' {
            let piece = s.substring_char(start, i);
            parts.push(piece);
            start = i + 1;
            proof {
                assert(parts@.map_values(|p: &str| p@) =~= before.push(
                    s@.subrange(st, i as int),
                ));
                assert(s@.subrange(start as int, i + 1) =~= Seq::<char>::empty());
            }
        } else {
            proof {
                assert(s@.subrange(st, i + 1) =~= s@.subrange(st, i as int).push(c));
                assert(before.push(s@.subrange(st, i + 1)) =~= before.push(
                    s@.subrange(st, i as int),
                ).update(before.len() as int, s@.subrange(st, i as int).push(c)));
            }
        }
        i = i + 1;
    }
    let last = s.substring_char(start, n);
    let ghost before = parts@.map_values(|p: &str| p@);
    parts.push(last);
    proof {
        assert(s@.subrange(0, n as int) =~= s@);
        assert(parts@.map_values(|p: &str| p@) =~= before.push(s@.subrange(start as int, n as int)));
    }
    parts
}

/// The time of day that a rounding policy gives, as hour, minute, second.
fn time_by_date_round(round: &DateRound) -> (r: (u32, u32, u32))
    ensures
        r == (match *round {
            DateRound::Ceil => (23u32, 59u32, 59u32),
            DateRound::Floor => (0u32, 0u32, 0u32),
        }),
{
    match round {
        DateRound::Ceil => (23, 59, 59),
        DateRound::Floor => (0, 0, 0),
    }
}

fn at_time(date: CalendarDate, round: DateRound) -> (r: ParsedTimestamp)
    ensures
        r == stamp(date.year, date.month, date.day, round),
{
    let (hour, minute, second) = time_by_date_round(&round);
    ParsedTimestamp { year: date.year, month: date.month, day: date.day, hour, minute, second }
}

fn handle_full_date(day_str: &str, month_str: &str, year_str: &str, round: DateRound) -> (r:
    Result<ParsedTimestamp, ParseDateStrError>)
    ensures
        result_view(r) == full_date_result(day_str@, month_str@, year_str@, round),
{
    let day = match parse_u32(day_str) {
        Some(d) => d,
        None => return Err(ParseDateStrError::DatePart(String::from_str(day_str))),
    };
    let month = match parse_u32(month_str) {
        Some(m) => m,
        None => return Err(ParseDateStrError::DatePart(String::from_str(month_str))),
    };
    let year = match parse_i32(year_str) {
        Some(y) => y,
        None => return Err(ParseDateStrError::DatePart(String::from_str(year_str))),
    };
    match date_from_ymd(year, month, day) {
        Some(date) => Ok(at_time(date, round)),
        None => {
            let mut text = String::from_str(day_str);
            text.append("/");
            text.append(month_str);
            text.append("/");
            text.append(year_str);
            proof {
                reveal_strlit("/");
                assert("/"@ =~= seq!['/']);
            }
            Err(ParseDateStrError::Date(text))
        },
    }
}

fn handle_month_year(month_str: &str, year_str: &str, round: DateRound) -> (r: Result<
    ParsedTimestamp,
    ParseDateStrError,
>)
    ensures
        result_view(r) == month_year_result(month_str@, year_str@, round),
{
    let month = match parse_u32(month_str) {
        Some(m) => m,
        None => return Err(ParseDateStrError::DatePart(String::from_str(month_str))),
    };
    let year = match parse_i32(year_str) {
        Some(y) => y,
        None => return Err(ParseDateStrError::DatePart(String::from_str(year_str))),
    };
    let day = match round {
        DateRound::Ceil => match last_day_of_month(year, month) {
            Ok(d) => d,
            Err(e) => return Err(e),
        },
        DateRound::Floor => 1,
    };
    match date_from_ymd(year, month, day) {
        Some(date) => Ok(at_time(date, round)),
        None => Err(month_year_error(month, year)),
    }
}

fn handle_year(year_str: &str, round: DateRound) -> (r: Result<ParsedTimestamp, ParseDateStrError>)
    ensures
        result_view(r) == year_result(year_str@, round),
{
    let year = match parse_i32(year_str) {
        Some(y) => y,
        None => return Err(ParseDateStrError::DatePart(String::from_str(year_str))),
    };
    let month: u32 = match round {
        DateRound::Ceil => 12,
        DateRound::Floor => 1,
    };
    let day = match round {
        DateRound::Ceil => match last_day_of_month(year, month) {
            Ok(d) => d,
            Err(e) => return Err(e),
        },
        DateRound::Floor => 1,
    };
    match date_from_ymd(year, month, day) {
        Some(date) => Ok(at_time(date, round)),
        None => {
            let mut text = String::from_str("1/1/");
            text.append(year_str);
            proof {
                reveal_strlit("1/1/");
                assert("1/1/"@ =~= seq!['1', '/', '1', '/']);
            }
            Err(ParseDateStrError::Date(text))
        },
    }
}

/// Resolves `date_str` into a full timestamp. The text is cut at each `/`:
/// three pieces are day/month/year, two are month/year, one is a year; the
/// missing day, month and time of day come from `round`. Any other count of
/// pieces fails with `Date` holding the text as it was given.
pub fn parse_date_str(date_str: &str, round: DateRound) -> (r: Result<
    ParsedTimestamp,
    ParseDateStrError,
>)
    ensures
        result_view(r) == parse_result(date_str@, round),
{
    let parts = split_on_slash(date_str);
    proof {
        assert(parts@.len() == split_slash(date_str@).len());
    }
    let n = parts.len();
    if n == 3 {
        proof {
            assert(parts@.map_values(|p: &str| p@)[0] == parts@[0]@);
            assert(parts@.map_values(|p: &str| p@)[1] == parts@[1]@);
            assert(parts@.map_values(|p: &str| p@)[2] == parts@[2]@);
        }
        handle_full_date(parts[0], parts[1], parts[2], round)
    } else if n == 2 {
        proof {
            assert(parts@.map_values(|p: &str| p@)[0] == parts@[0]@);
            assert(parts@.map_values(|p: &str| p@)[1] == parts@[1]@);
        }
        handle_month_year(parts[0], parts[1], round)
    } else if n == 1 {
        proof {
            assert(parts@.map_values(|p: &str| p@)[0] == parts@[0]@);
        }
        handle_year(parts[0], round)
    } else {
        Err(ParseDateStrError::Date(String::from_str(date_str)))
    }
}

/// Writes the day of a timestamp as `D/M/Y`, in plain decimal.
pub fn format_dmy(t: &ParsedTimestamp) -> (r: String)
    ensures
        r@ == dmy_text(t.day as int, t.month as int, t.year as int),
{
    let mut text = decimal_text(t.day as i64);
    text.append("/");
    let m = decimal_text(t.month as i64);
    text.append(m.as_str());
    text.append("/");
    let y = decimal_text(t.year as i64);
    text.append(y.as_str());
    proof {
        reveal_strlit("/");
        assert("/"@ =~= seq!['/']);
    }
    text
}

} // verus!
