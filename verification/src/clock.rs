//! Dates and times from chrono: the calendar checks and the clock-derived
//! bounds the pipeline works with.

use vstd::prelude::*;

verus! {

/// chrono's calendar date type, carried opaquely.
#[verifier::external_type_specification]
#[verifier::external_body]
pub struct ExNaiveDate(chrono::NaiveDate);

/// What chrono makes of a date string: `NaiveDate::parse_from_str(s,
/// "%Y-%m-%d")` rendered back with `format("%Y-%m-%d")`, or `None` when the
/// parse fails. A function of the characters alone.
pub uninterp spec fn date_roundtrip(s: Seq<char>) -> Option<Seq<char>>;

/// Whether chrono parses `s` as a naive date-time "YYYY-MM-DDTHH:MM"
/// (`NaiveDateTime::parse_from_str(s, "%Y-%m-%dT%H:%M")` succeeds). A function
/// of the characters alone.
pub uninterp spec fn datetime_parses(s: Seq<char>) -> bool;

/// chrono `NaiveDate::parse_from_str(s, "%Y-%m-%d")`, the parsed date rendered
/// back with `format("%Y-%m-%d")`; `None` when chrono refuses the text.
#[verifier::external_body]
pub fn roundtrip_date(s: &str) -> (r: Option<String>)
    ensures
        r is None ==> date_roundtrip(s@) is None,
        r matches Some(t) ==> date_roundtrip(s@) == Some(t@),
{
    chrono::NaiveDate::parse_from_str(s, "%Y-%m-%d").ok().map(|d| d.format("%Y-%m-%d").to_string())
}

/// chrono `NaiveDateTime::parse_from_str(s, "%Y-%m-%dT%H:%M")` succeeds.
#[verifier::external_body]
pub fn parses_datetime(s: &str) -> (b: bool)
    ensures
        b == datetime_parses(s@),
{
    chrono::NaiveDateTime::parse_from_str(s, "%Y-%m-%dT%H:%M").is_ok()
}

/// The local time `days` days ago, as RFC 3339 with whole seconds
/// (`(Local::now() - TimeDelta::days(days)).to_rfc3339_opts(Secs, false)`).
/// It depends on the clock, so nothing is stated of it. chrono panics when the
/// shifted time leaves its range (about ±262,000 years); the bound on `days`
/// keeps the shift well inside it.
#[verifier::external_body]
pub fn days_ago_iso(days: i64) -> String
    requires
        -90_000_000 <= days <= 90_000_000,
{
    (chrono::Local::now() - chrono::TimeDelta::days(days)).to_rfc3339_opts(
        chrono::SecondsFormat::Secs,
        false,
    )
}

/// Today's local calendar date (`Local::now().date_naive()`).
#[verifier::external_body]
pub fn local_today() -> chrono::NaiveDate {
    chrono::Local::now().date_naive()
}

/// Days since the Monday of the date's week (`weekday().num_days_from_monday()`),
/// 0 for Monday through 6 for Sunday.
#[verifier::external_body]
pub fn days_from_monday(d: &chrono::NaiveDate) -> (n: u32)
    ensures
        n < 7,
{
    chrono::Datelike::weekday(d).num_days_from_monday()
}

/// The date `n` days later (`checked_add_signed(TimeDelta::days(n))`);
/// `None` past chrono's calendar range.
#[verifier::external_body]
pub fn shift_days(d: &chrono::NaiveDate, n: i64) -> Option<chrono::NaiveDate>
    requires
        -1_000_000_000 <= n <= 1_000_000_000,
{
    d.checked_add_signed(chrono::TimeDelta::days(n))
}

/// The date as "YYYY-MM-DD" (`format("%Y-%m-%d").to_string()`).
#[verifier::external_body]
pub fn format_ymd(d: &chrono::NaiveDate) -> String {
    d.format("%Y-%m-%d").to_string()
}

} // verus!
