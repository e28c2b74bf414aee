use vstd::prelude::*;

verus! {

/// Day number (counted from the Common Era, 0001-01-01 being day 1) of the day that
/// spreadsheet serial dates count from: 1899-12-30.
pub const SERIAL_EPOCH_DAYS: i64 = 693594;

/// The day number of the first day that chrono's `NaiveDate` can hold, -262143-01-01.
pub const MIN_DAY: i64 = -95746129;

/// The day number of the last day that chrono's `NaiveDate` can hold, 262142-12-31.
pub const MAX_DAY: i64 = 95745399;

/// The `YYYY-MM-DD` text of the calendar day with the given day number.
pub uninterp spec fn iso_date_text(days: int) -> Seq<char>;

/// The day number of a text read as `YYYY-MM-DD`, when it reads as a date.
pub uninterp spec fn iso_date_days(s: Seq<char>) -> Option<int>;

/// Relies on chrono's `NaiveDate::from_num_days_from_ce_opt` and its `%Y-%m-%d`
/// formatting: the text depends on the day number alone.
#[verifier::external_body]
pub(crate) fn format_iso_date(days: i32) -> (r: String)
    ensures
        r@ == iso_date_text(days as int),
{
    match chrono::NaiveDate::from_num_days_from_ce_opt(days) {
        Some(d) => d.format("%Y-%m-%d").to_string(),
        None => String::new(),
    }
}

/// Relies on chrono's `NaiveDate::parse_from_str` with the format `%Y-%m-%d`; the day
/// is handed back as its `num_days_from_ce`.
#[verifier::external_body]
pub(crate) fn parse_iso_days(s: &str) -> (r: Option<i32>)
    ensures
        iso_date_days(s@) == (match r {
            Some(d) => Some(d as int),
            None => None::<int>,
        }),
{
    chrono::NaiveDate::parse_from_str(s, "%Y-%m-%d").ok().map(|d| chrono::Datelike::num_days_from_ce(&d))
}

} // verus!
