//! A member who joined the team, mapped into an employee record.

use vstd::prelude::*;
use vstd::string::*;

use crate::model::ParsedTimestamp;

verus! {

/// The profile part of a "member joined" notification.
pub struct UserProfile {
    pub email: String,
    pub display_name: String,
}

/// A "member joined" notification.
pub struct TeamJoinUser {
    pub id: String,
    pub profile: UserProfile,
    pub tz_label: String,
}

/// The record kept for an employee.
pub struct Employee {
    pub id: String,
    pub email: String,
    pub full_name: String,
    pub country: Option<String>,
    pub join_date: ParsedTimestamp,
}

/// Names what `str::to_lowercase` gives for a text.
pub uninterp spec fn lower_of(s: Seq<char>) -> Seq<char>;

/// `s` with every occurrence of the non-empty `pat` taken out, matches found
/// from the left without overlap.
pub open spec fn without(s: Seq<char>, pat: Seq<char>) -> Seq<char>
    decreases s.len(),
{
    if pat.len() == 0 || s.len() < pat.len() {
        s
    } else if s.subrange(0, pat.len() as int) == pat {
        without(s.subrange(pat.len() as int, s.len() as int), pat)
    } else {
        seq![s[0]] + without(s.drop_first(), pat)
    }
}

/// The word that a time zone label ends in, with its space.
pub open spec fn time_word() -> Seq<char> {
    seq![' ', 't', 'i', 'm', 'e']
}

/// The country that a time zone label names: the label in lower case,
/// without " time".
pub open spec fn country_of(label: Seq<char>) -> Seq<char> {
    without(lower_of(label), time_word())
}

/// Relies on `str::to_lowercase`: the result depends on the characters alone.
#[verifier::external_body]
fn lowercase(s: &str) -> (r: String)
    ensures
        r@ == lower_of(s@),
{
    s.to_lowercase()
}

/// Relies on `str::replace` with an empty replacement: every match of the
/// pattern, found from the left without overlap, is taken out.
#[verifier::external_body]
fn remove_all(s: &str, pat: &str) -> (r: String)
    requires
        pat@.len() > 0,
    ensures
        r@ == without(s@, pat@),
{
    s.replace(pat, "")
}

/// A lower-case time zone label without " time" ("pacific time" gives
/// "pacific").
pub fn strip_time_word(lower: &str) -> (r: String)
    ensures
        r@ == without(lower@, time_word()),
{
    proof {
        reveal_strlit(" time");
        assert(" time"@ =~= time_word());
    }
    remove_all(lower, " time")
}

/// The country that a time zone label names ("Pacific Time" gives "pacific").
pub fn country_from_tz_label(label: &str) -> (r: String)
    ensures
        r@ == country_of(label@),
{
    let lower = lowercase(label);
    strip_time_word(lower.as_str())
}

/// The employee record for a member who joined at `join_date`: id, email and
/// name carried over, the country taken from the time zone label.
pub fn employee_from_team_join(user: TeamJoinUser, join_date: ParsedTimestamp) -> (e: Employee)
    ensures
        e.id@ == user.id@,
        e.email@ == user.profile.email@,
        e.full_name@ == user.profile.display_name@,
        e.country matches Some(c) && c@ == country_of(user.tz_label@),
        e.join_date == join_date,
{
    let country = country_from_tz_label(user.tz_label.as_str());
    Employee {
        id: user.id,
        email: user.profile.email,
        full_name: user.profile.display_name,
        country: Some(country),
        join_date,
    }
}

} // verus!
