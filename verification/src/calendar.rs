//! The calendar behind the date model: which months it can hold.

use chrono::{Datelike, NaiveDate};
use vstd::prelude::*;

verus! {

/// The earliest year of which the calendar holds dates.
pub const MIN_YEAR: i32 = -262143;

/// The latest year of which the calendar holds dates.
pub const MAX_YEAR: i32 = 262142;

/// The calendar holds the first day of month `month` of year `year`.
pub open spec fn has_first_of_month(year: int, month: int) -> bool {
    1 <= month <= 12 && MIN_YEAR <= year <= MAX_YEAR
}

/// Asks chrono for the first day of a month, through
/// `NaiveDate::from_ymd_opt(year, month, 1)`, and reads the year and month
/// back from the date with `Datelike::year` and `Datelike::month`.
///
/// Trusted, not proved: chrono makes the date exactly where the month is
/// from 1 to 12 and the year from `MIN_YEAR` to `MAX_YEAR`, which are the
/// bounds of its `NaiveDate`, and the date it makes gives back the year and
/// the month it was made from.
#[verifier::external_body]
pub(crate) fn first_of_month(year: i32, month: u32) -> (date: Option<(i32, u32)>)
    ensures
        date == if has_first_of_month(year as int, month as int) {
            Some((year, month))
        } else {
            None
        },
{
    match NaiveDate::from_ymd_opt(year, month, 1) {
        Some(first) => Some((first.year(), first.month())),
        None => None,
    }
}

} // verus!
