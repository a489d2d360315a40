//! The date model: a month of a year, written `MM.YYYY`, ordered by year and
//! then by month.

use crate::calendar::{first_of_month, has_first_of_month};
use crate::text::{
    append_two_wide, chars_of, i32_of, lemma_two_wide_reads_back, read_i32, read_u32, two_wide,
    u32_of,
};
use std::cmp::Ordering;
use vstd::prelude::*;
use vstd::std_specs::cmp::PartialOrdSpecImpl;

verus! {

/// A month of a year. The day is always the first of the month and is not
/// stored.
#[derive(Clone, Copy, Debug, PartialEq, Eq, Structural, Hash, Ord)]
pub struct CalendarMonth {
    pub year: i32,
    pub month: u32,
}

/// Why a text is not a date.
#[derive(Clone, Copy, Debug, PartialEq, Eq, Structural, Hash)]
pub enum DateError {
    /// The text is not two segments with one `.` between them.
    Format,
    /// The segment before the `.` is not an integer.
    Month,
    /// The segment after the `.` is not an integer.
    Year,
    /// The month is not one of 1 to 12.
    MonthOutOfRange,
    /// The calendar holds no date in that year.
    YearOutOfRange,
}

impl CalendarMonth {
    /// The month is one of the twelve and the year is one of which the
    /// calendar holds dates.
    pub open spec fn is_valid(self) -> bool {
        has_first_of_month(self.year as int, self.month as int)
    }

    /// `self` comes strictly before `other`: an earlier year, or the same
    /// year and an earlier month.
    pub open spec fn precedes(self, other: CalendarMonth) -> bool {
        self.year < other.year || (self.year == other.year && self.month < other.month)
    }

    /// How `self` stands to `other` in the order by year, then month.
    pub open spec fn order(self, other: CalendarMonth) -> Ordering {
        if self.precedes(other) {
            Ordering::Less
        } else if other.precedes(self) {
            Ordering::Greater
        } else {
            Ordering::Equal
        }
    }

    /// The month `month` of the year `year`, where the calendar holds it.
    /// This is how a full date is cut down to its month.
    pub fn new(year: i32, month: u32) -> (made: Option<CalendarMonth>)
        ensures
            made == if has_first_of_month(year as int, month as int) {
                Some(CalendarMonth { year, month })
            } else {
                None
            },
    {
        match first_of_month(year, month) {
            Some((year, month)) => Some(CalendarMonth { year, month }),
            None => None,
        }
    }

    /// Whether `self` is strictly later than `other`.
    pub fn is_after(&self, other: &CalendarMonth) -> (later: bool)
        ensures
            later == other.precedes(*self),
    {
        self.year > other.year || (self.year == other.year && self.month > other.month)
    }
}

impl PartialOrd for CalendarMonth {
    fn partial_cmp(&self, other: &CalendarMonth) -> (r: Option<Ordering>) {
        if other.is_after(self) {
            Some(Ordering::Less)
        } else if self.is_after(other) {
            Some(Ordering::Greater)
        } else {
            Some(Ordering::Equal)
        }
    }
}

impl PartialOrdSpecImpl for CalendarMonth {
    open spec fn obeys_partial_cmp_spec() -> bool {
        true
    }

    open spec fn partial_cmp_spec(&self, other: &CalendarMonth) -> Option<Ordering> {
        Some(self.order(*other))
    }
}

/// `p` is the place of the only `.` in `s`.
pub open spec fn is_separator(s: Seq<char>, p: int) -> bool {
    &&& 0 <= p < s.len()
    &&& s[p] == '.'
    &&& forall|i: int| 0 <= i < s.len() && i != p ==> s[i] != '.'
}

/// The place of the `.` where `s` holds exactly one, which parts it into two
/// segments.
pub open spec fn separator(s: Seq<char>) -> Option<int> {
    if exists|p: int| is_separator(s, p) {
        Some(choose|p: int| is_separator(s, p))
    } else {
        None
    }
}

/// What a text is as a date: the month it denotes, or the first reason, in
/// the order of `DateError`, why it denotes none.
#[verifier::opaque]
pub open spec fn date_of(s: Seq<char>) -> Result<CalendarMonth, DateError> {
    match separator(s) {
        None => Err(DateError::Format),
        Some(p) => match (u32_of(s.subrange(0, p)), i32_of(s.subrange(p + 1, s.len() as int))) {
            (None, _) => Err(DateError::Month),
            (Some(_), None) => Err(DateError::Year),
            (Some(month), Some(year)) => if !(1 <= month <= 12) {
                Err(DateError::MonthOutOfRange)
            } else if !has_first_of_month(year as int, month as int) {
                Err(DateError::YearOutOfRange)
            } else {
                Ok(CalendarMonth { year, month })
            },
        },
    }
}

/// The text of a date: month and year, each at least two characters wide,
/// with a `.` between them.
pub open spec fn text_of(date: CalendarMonth) -> Seq<char> {
    two_wide(date.month as int) + seq!['.'] + two_wide(date.year as int)
}

/// Reading back what was written gives the date that was written: for every
/// valid date, `date_of(text_of(date))` is that date.
pub proof fn lemma_write_then_read(date: CalendarMonth)
    requires
        date.is_valid(),
    ensures
        date_of(text_of(date)) == Ok::<CalendarMonth, DateError>(date),
{
    reveal(date_of);
    let month = two_wide(date.month as int);
    let year = two_wide(date.year as int);
    let s = text_of(date);
    let p = month.len() as int;
    lemma_two_wide_reads_back(date.month as int);
    lemma_two_wide_reads_back(date.year as int);
    assert(is_separator(s, p)) by {
        assert forall|i: int| 0 <= i < s.len() && i != p implies s[i] != '.' by {
            if i < p {
                assert(s[i] == month[i]);
            } else {
                assert(s[i] == year[i - p - 1]);
            }
        }
    }
    let q = choose|q: int| is_separator(s, q);
    assert(q == p);
    assert(s.subrange(0, p) =~= month);
    assert(s.subrange(p + 1, s.len() as int) =~= year);
}

/// Every date that a text denotes is valid.
pub proof fn lemma_dates_read_are_valid(s: Seq<char>)
    ensures
        date_of(s) matches Ok(date) ==> date.is_valid(),
{
    reveal(date_of);
}

/// Of two months exactly one holds: the first is earlier, they are the same
/// month, or the first is later.
pub proof fn lemma_order_is_total(a: CalendarMonth, b: CalendarMonth)
    ensures
        a.precedes(b) || a == b || b.precedes(a),
        !(a.precedes(b) && a == b),
        !(a.precedes(b) && b.precedes(a)),
        !(a == b && b.precedes(a)),
{
}

/// What is earlier than an earlier month is earlier than the later one.
pub proof fn lemma_order_is_transitive(a: CalendarMonth, b: CalendarMonth, c: CalendarMonth)
    requires
        a.precedes(b),
        b.precedes(c),
    ensures
        a.precedes(c),
{
}

/// What is said of a text that is not a date, by the reason why.
pub open spec fn date_error_message(text: Seq<char>, reason: DateError) -> Seq<char> {
    match reason {
        DateError::Format => "Invalid date format: '"@ + text + "'. Expected format: 'MM.YYYY'"@,
        DateError::Month => "Invalid month in '"@ + text + "'. Expected a number from 1-12"@,
        DateError::Year => "Invalid year in '"@ + text + "'. Expected a valid year number"@,
        DateError::MonthOutOfRange => "Month out of range in '"@ + text
            + "'. Expected a number from 1-12"@,
        DateError::YearOutOfRange => "Year out of range in '"@ + text
            + "'. Expected a year that the calendar holds"@,
    }
}

impl DateError {
    /// Says why `text` is not a date.
    pub fn message(&self, text: &str) -> (message: String)
        ensures
            message@ == date_error_message(text@, *self),
    {
        let (before, after) = match self {
            DateError::Format => ("Invalid date format: '", "'. Expected format: 'MM.YYYY'"),
            DateError::Month => ("Invalid month in '", "'. Expected a number from 1-12"),
            DateError::Year => ("Invalid year in '", "'. Expected a valid year number"),
            DateError::MonthOutOfRange => (
                "Month out of range in '",
                "'. Expected a number from 1-12",
            ),
            DateError::YearOutOfRange => (
                "Year out of range in '",
                "'. Expected a year that the calendar holds",
            ),
        };
        let mut message = String::new();
        message.append(before);
        message.append(text);
        message.append(after);
        assert(message@ =~= before@ + text@ + after@);
        message
    }
}

/// Finds the only `.` of `chars`.
fn find_separator(chars: &Vec<char>) -> (found: Option<usize>)
    ensures
        match found {
            Some(p) => separator(chars@) == Some(p as int),
            None => separator(chars@) is None,
        },
{
    let mut found: Option<usize> = None;
    let mut i: usize = 0;
    while i < chars.len()
        invariant
            i <= chars.len(),
            match found {
                Some(p) => p < i && chars@[p as int] == '.' && forall|k: int|
                    0 <= k < i && k != p ==> chars@[k] != '.',
                None => forall|k: int| 0 <= k < i ==> chars@[k] != '.',
            },
        decreases chars.len() - i,
    {
        if chars[i] == '.' {
            if let Some(p) = found {
                assert forall|q: int| !is_separator(chars@, q) by {
                    if is_separator(chars@, q) {
                        assert(chars@[p as int] == '.');
                        assert(chars@[i as int] == '.');
                    }
                }
                return None;
            }
            found = Some(i);
        }
        i += 1;
    }
    proof {
        match found {
            Some(p) => {
                assert(is_separator(chars@, p as int));
                let q = choose|q: int| is_separator(chars@, q);
                assert(q == p);
            },
            None => {
                assert forall|q: int| !is_separator(chars@, q) by {}
            },
        }
    }
    found
}

/// Reads a date written `MM.YYYY`: the month, a `.`, the year. Each of the
/// two is an integer as Rust writes them, with an optional sign before the
/// digits (no `-` before the month); leading zeros are accepted.
pub fn parse_date(date_str: &str) -> (parsed: Result<CalendarMonth, DateError>)
    ensures
        parsed == date_of(date_str@),
{
    proof {
        reveal(date_of);
    }
    let chars = chars_of(date_str);
    let p = match find_separator(&chars) {
        Some(p) => p,
        None => {
            return Err(DateError::Format);
        },
    };
    let month = match read_u32(&chars, 0, p) {
        Some(month) => month,
        None => {
            return Err(DateError::Month);
        },
    };
    let year = match read_i32(&chars, p + 1, chars.len()) {
        Some(year) => year,
        None => {
            return Err(DateError::Year);
        },
    };
    if month < 1 || month > 12 {
        return Err(DateError::MonthOutOfRange);
    }
    match CalendarMonth::new(year, month) {
        Some(date) => Ok(date),
        None => Err(DateError::YearOutOfRange),
    }
}

/// Writes a date as `MM.YYYY`, the month with a leading zero where it has
/// one digit, and so the year.
pub fn format_date(date: CalendarMonth) -> (text: String)
    ensures
        text@ == text_of(date),
{
    proof {
        reveal_strlit(".");
    }
    let mut text = String::new();
    append_two_wide(&mut text, date.month as i64);
    text.append(".");
    append_two_wide(&mut text, date.year as i64);
    assert(text@ =~= text_of(date));
    text
}

} // verus!
