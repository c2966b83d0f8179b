//! What holds of every parse: the three shapes of input resolve as their
//! rounding says, wrong piece counts fail with the text, and a parsed day
//! written back as `D/M/Y` parses to the same timestamp.

use vstd::prelude::*;

use crate::calendar::{days_in_month, has_month_end, is_valid_date, month_end, MAX_YEAR, MIN_YEAR};
use crate::date_str::{dmy_text, parse_result, split_slash, stamp, lemma_split_nonempty};
use crate::model::{DateRound, DateStrFailure, ParsedTimestamp};
use crate::numtext::{int_text, lemma_int_text_chars, lemma_parse_i32_text, lemma_parse_u32_text};

verus! {

pub open spec fn has_no_slash(s: Seq<char>) -> bool {
    forall|i: int| 0 <= i < s.len() ==> #[trigger] s[i] != '/'
}

/// Text without a slash, added at the end, lengthens the last piece.
pub proof fn lemma_split_extend(a: Seq<char>, b: Seq<char>)
    requires
        has_no_slash(b),
    ensures
        split_slash(a + b) == split_slash(a).update(
            split_slash(a).len() - 1,
            split_slash(a).last() + b,
        ),
    decreases b.len(),
{
    lemma_split_nonempty(a);
    let s = split_slash(a);
    if b.len() == 0 {
        assert(a + b =~= a);
        assert(s.last() + b =~= s.last());
        assert(s.update(s.len() - 1, s.last() + b) =~= s);
    } else {
        let bf = b.drop_last();
        assert(has_no_slash(bf)) by {
            assert forall|i: int| 0 <= i < bf.len() implies #[trigger] bf[i] != '/' by {
                assert(bf[i] == b[i]);
            }
        }
        lemma_split_extend(a, bf);
        assert((a + b).drop_last() =~= a + bf);
        assert((a + b).last() == b.last());
        assert(b.last() == b[b.len() - 1]);
        assert(s.last() + bf + seq![b.last()] =~= s.last() + b);
        let f = split_slash(a + bf);
        assert(f.len() == s.len());
        assert(f.last() =~= s.last() + bf);
        assert(f.last().push(b.last()) =~= s.last() + b);
        assert(split_slash(a + b) == f.update(f.len() - 1, f.last().push(b.last())));
        assert(f.update(f.len() - 1, f.last().push(b.last())) =~= s.update(
            s.len() - 1,
            s.last() + b,
        ));
    }
}

/// A slash followed by text without one starts a new, last piece.
pub proof fn lemma_split_slash_then(a: Seq<char>, b: Seq<char>)
    requires
        has_no_slash(b),
    ensures
        split_slash(a + seq!['/'] + b) == split_slash(a).push(b),
{
    let a1 = a + seq!['/'];
    assert(a1.drop_last() =~= a);
    assert(split_slash(a1) == split_slash(a).push(Seq::<char>::empty()));
    lemma_split_extend(a1, b);
    assert(Seq::<char>::empty() + b =~= b);
    assert(split_slash(a).push(Seq::<char>::empty()).update(split_slash(a).len() as int, b)
        =~= split_slash(a).push(b));
}

/// Text without a slash is a single piece.
pub proof fn lemma_split_single(b: Seq<char>)
    requires
        has_no_slash(b),
    ensures
        split_slash(b) == seq![b],
{
    let e = Seq::<char>::empty();
    lemma_split_extend(e, b);
    assert(e + b =~= b);
    assert(split_slash(e).update(0, split_slash(e).last() + b) =~= seq![b]);
}

proof fn lemma_text_no_slash(n: int)
    ensures
        has_no_slash(int_text(n)),
{
    lemma_int_text_chars(n);
}

/// A year alone resolves to January 1 at 00:00:00 under `Floor`, and to
/// December 31 at 23:59:59 under `Ceil`, wherever the first day of the
/// following year is still in chrono's range.
pub proof fn law_year_only(y: i32)
    requires
        MIN_YEAR <= y <= MAX_YEAR,
    ensures
        parse_result(int_text(y as int), DateRound::Floor) == Ok::<ParsedTimestamp, DateStrFailure>(
            stamp(y, 1, 1, DateRound::Floor),
        ),
        y < MAX_YEAR ==> parse_result(int_text(y as int), DateRound::Ceil) == Ok::<
            ParsedTimestamp,
            DateStrFailure,
        >(stamp(y, 12, 31, DateRound::Ceil)),
{
    lemma_text_no_slash(y as int);
    lemma_split_single(int_text(y as int));
    lemma_parse_i32_text(y);
}

/// Month and year resolve to the first of the month at 00:00:00 under
/// `Floor`, and under `Ceil` to the day that `last_day_of_month` gives, at
/// 23:59:59.
pub proof fn law_month_year(m: u32, y: i32)
    requires
        1 <= m <= 12,
        MIN_YEAR <= y <= MAX_YEAR,
    ensures
        parse_result(int_text(m as int) + seq!['/'] + int_text(y as int), DateRound::Floor) == Ok::<
            ParsedTimestamp,
            DateStrFailure,
        >(stamp(y, m, 1, DateRound::Floor)),
        has_month_end(y as int, m as int) ==> month_end(y as int, m as int) == Ok::<
            u32,
            DateStrFailure,
        >(days_in_month(y as int, m as int) as u32) && parse_result(
            int_text(m as int) + seq!['/'] + int_text(y as int),
            DateRound::Ceil,
        ) == Ok::<ParsedTimestamp, DateStrFailure>(
            stamp(y, m, days_in_month(y as int, m as int) as u32, DateRound::Ceil),
        ),
{
    lemma_text_no_slash(m as int);
    lemma_text_no_slash(y as int);
    lemma_split_single(int_text(m as int));
    lemma_split_slash_then(int_text(m as int), int_text(y as int));
    lemma_parse_u32_text(m);
    lemma_parse_i32_text(y);
}

/// A real calendar date written `D/M/Y` resolves to that very day, at
/// 00:00:00 under `Floor` and 23:59:59 under `Ceil`: rounding never moves a
/// fully given day.
pub proof fn law_full_date(d: u32, m: u32, y: i32, round: DateRound)
    requires
        is_valid_date(y as int, m as int, d as int),
    ensures
        parse_result(dmy_text(d as int, m as int, y as int), round) == Ok::<
            ParsedTimestamp,
            DateStrFailure,
        >(stamp(y, m, d, round)),
{
    let dt = int_text(d as int);
    let mt = int_text(m as int);
    let yt = int_text(y as int);
    lemma_text_no_slash(d as int);
    lemma_text_no_slash(m as int);
    lemma_text_no_slash(y as int);
    lemma_split_single(dt);
    lemma_split_slash_then(dt, mt);
    lemma_split_slash_then(dt + seq!['/'] + mt, yt);
    lemma_parse_u32_text(d);
    lemma_parse_u32_text(m);
    lemma_parse_i32_text(y);
    assert(split_slash(dmy_text(d as int, m as int, y as int)) =~= seq![dt, mt, yt]);
}

/// A text that is not cut into one, two or three pieces fails with `Date`
/// holding the text itself.
pub proof fn law_wrong_arity(s: Seq<char>, round: DateRound)
    requires
        split_slash(s).len() == 0 || split_slash(s).len() >= 4,
    ensures
        parse_result(s, round) == Err::<ParsedTimestamp, DateStrFailure>(DateStrFailure::Date(s)),
{
}

/// Every successful parse gives a real calendar date at the time of day of
/// its rounding policy.
pub proof fn lemma_parsed_is_valid(s: Seq<char>, round: DateRound)
    requires
        parse_result(s, round) is Ok,
    ensures
        ({
            let t = parse_result(s, round)->Ok_0;
            is_valid_date(t.year as int, t.month as int, t.day as int) && t == stamp(
                t.year,
                t.month,
                t.day,
                round,
            )
        }),
{
}

/// Writing a parsed timestamp's day back as `D/M/Y` and parsing it again
/// with the same policy gives the same timestamp.
pub proof fn law_reparse(s: Seq<char>, round: DateRound)
    requires
        parse_result(s, round) is Ok,
    ensures
        ({
            let t = parse_result(s, round)->Ok_0;
            parse_result(dmy_text(t.day as int, t.month as int, t.year as int), round) == parse_result(
                s,
                round,
            )
        }),
{
    lemma_parsed_is_valid(s, round);
    let t = parse_result(s, round)->Ok_0;
    law_full_date(t.day, t.month, t.year, round);
}

} // verus!
