//! Calendar dates of the proleptic Gregorian calendar, read and written in the
//! pattern year, month, day with hyphens between them.

use crate::error::FieldError;
use crate::text::{push_zero_padded, zero_padded};
use chrono::Datelike;
use vstd::prelude::*;

verus! {

/// The pattern in which a date is read: year, month and day in digits, with
/// hyphens between them.
pub const DATE_FORMAT: &'static str = "%Y-%m-%d";

/// The first year that a date can have.
pub const MIN_YEAR: i32 = -262143;

/// The last year that a date can have.
pub const MAX_YEAR: i32 = 262142;

/// A date as a plain value.
pub ghost struct DateView {
    pub year: int,
    pub month: int,
    pub day: int,
}

/// Whether `year` has a 29th of February.
pub open spec fn is_leap_year(year: int) -> bool {
    year % 4 == 0 && (year % 100 != 0 || year % 400 == 0)
}

/// The number of days of `month` in `year`, for a month from 1 to 12.
pub open spec fn days_in_month(year: int, month: int) -> int {
    if month == 2 {
        if is_leap_year(year) {
            29
        } else {
            28
        }
    } else if month == 4 || month == 6 || month == 9 || month == 11 {
        30
    } else {
        31
    }
}

/// Whether the calendar has the day `d`, in a year that a date can have.
pub open spec fn valid_date(d: DateView) -> bool {
    &&& MIN_YEAR <= d.year <= MAX_YEAR
    &&& 1 <= d.month <= 12
    &&& 1 <= d.day <= days_in_month(d.year, d.month)
}

/// The first of January 1970, which stands for "no date set".
pub open spec fn default_date() -> DateView {
    DateView { year: 1970, month: 1, day: 1 }
}

/// The year of a date as text: four digits for the years 0 to 9999, and a
/// sign before at least four digits for any other year.
pub open spec fn year_text(year: int) -> Seq<char> {
    if 0 <= year <= 9999 {
        zero_padded(year as nat, 4)
    } else if year < 0 {
        seq!['-'] + zero_padded((-year) as nat, 4)
    } else {
        seq!['+'] + zero_padded(year as nat, 4)
    }
}

/// A date as text: the year, the month in two digits and the day in two
/// digits, with hyphens between them.
pub open spec fn date_text(d: DateView) -> Seq<char> {
    year_text(d.year) + seq!['-'] + zero_padded(d.month as nat, 2) + seq!['-'] + zero_padded(
        d.day as nat,
        2,
    )
}

/// The date that `chrono` reads from `text` under the pattern `format`, or
/// `None` where it refuses the text.
pub uninterp spec fn parsed_date(text: Seq<char>, format: Seq<char>) -> Option<DateView>;

/// The date that `text` holds, or the default where it holds none.
pub open spec fn date_or_default(text: Seq<char>) -> DateView {
    match parsed_date(text, DATE_FORMAT@) {
        Some(d) => d,
        None => default_date(),
    }
}

/// A day of the calendar.
#[derive(Clone, Copy, Debug, PartialEq, Eq, PartialOrd, Ord, Hash)]
pub struct Date {
    year: i32,
    month: u32,
    day: u32,
}

impl View for Date {
    type V = DateView;

    closed spec fn view(&self) -> DateView {
        DateView { year: self.year as int, month: self.month as int, day: self.day as int }
    }
}

/// Calls `chrono::NaiveDate::parse_from_str` and copies year, month and day
/// of what it returns. The result is the one that `parsed_date` names for
/// this text and pattern, and a date that the calendar has; nothing is
/// claimed of which texts are dates.
#[verifier::external_body]
fn parse_naive_date(text: &str, format: &str) -> (r: Result<Date, chrono::ParseError>)
    requires
        format@ == DATE_FORMAT@,
    ensures
        match r {
            Ok(d) => parsed_date(text@, format@) == Some(d@) && valid_date(d@),
            Err(_) => parsed_date(text@, format@) is None,
        },
{
    match chrono::NaiveDate::parse_from_str(text, format) {
        Ok(d) => Ok(Date { year: d.year(), month: d.month(), day: d.day() }),
        Err(e) => Err(e),
    }
}

/// Whether `year`, which a date can have, has a 29th of February.
fn leap_year(year: i32) -> (r: bool)
    requires
        MIN_YEAR <= year <= MAX_YEAR,
    ensures
        r == is_leap_year(year as int),
{
    let shifted: u32 = (year + 280000) as u32;
    assert(shifted as int % 4 == year as int % 4);
    assert(shifted as int % 100 == year as int % 100);
    assert(shifted as int % 400 == year as int % 400);
    shifted % 4 == 0 && (shifted % 100 != 0 || shifted % 400 == 0)
}

impl Date {
    #[verifier::type_invariant]
    spec fn inv(self) -> bool {
        valid_date(self@)
    }

    /// The date of the given year, month and day, where the calendar has it.
    pub fn from_ymd(year: i32, month: u32, day: u32) -> (r: Option<Date>)
        ensures
            r is Some <==> valid_date(
                DateView { year: year as int, month: month as int, day: day as int },
            ),
            r matches Some(d) ==> d@ == (DateView {
                year: year as int,
                month: month as int,
                day: day as int,
            }),
    {
        if year < MIN_YEAR || year > MAX_YEAR || month < 1 || month > 12 || day < 1 {
            return None;
        }
        let days: u32 = if month == 2 {
            if leap_year(year) {
                29
            } else {
                28
            }
        } else if month == 4 || month == 6 || month == 9 || month == 11 {
            30
        } else {
            31
        };
        if day > days {
            None
        } else {
            Some(Date { year, month, day })
        }
    }

    /// The first of January 1970.
    pub fn epoch() -> (d: Date)
        ensures
            d@ == default_date(),
    {
        Date { year: 1970, month: 1, day: 1 }
    }

    /// Reads `text` as a date in the pattern of `DATE_FORMAT`.
    pub fn parse(text: &str) -> (r: Result<Date, FieldError>)
        ensures
            match r {
                Ok(d) => parsed_date(text@, DATE_FORMAT@) == Some(d@) && valid_date(d@),
                Err(e) => parsed_date(text@, DATE_FORMAT@) is None && e is Date,
            },
    {
        match parse_naive_date(text, DATE_FORMAT) {
            Ok(d) => Ok(d),
            Err(e) => Err(FieldError::Date(e)),
        }
    }

    /// What was read, or the default and the error where nothing was read.
    pub fn or_default(read: Result<Date, FieldError>) -> (r: (Date, Option<FieldError>))
        ensures
            match read {
                Ok(d) => r.0 == d && r.1 is None,
                Err(e) => r.0@ == default_date() && r.1 == Some(e),
            },
    {
        match read {
            Ok(d) => (d, None),
            Err(e) => (Date::epoch(), Some(e)),
        }
    }

    /// Reads `text` as a date in the pattern of `DATE_FORMAT`, and gives the
    /// default and the error where the text is none.
    pub fn parse_or_default(text: &str) -> (r: (Date, Option<FieldError>))
        ensures
            r.0@ == date_or_default(text@),
            r.1 is Some <==> parsed_date(text@, DATE_FORMAT@) is None,
            r.1 matches Some(e) ==> e is Date,
    {
        Date::or_default(Date::parse(text))
    }

    /// The year.
    pub fn year(&self) -> (y: i32)
        ensures
            y == self@.year,
            valid_date(self@),
    {
        proof {
            use_type_invariant(self);
        }
        self.year
    }

    /// The month, from 1 to 12.
    pub fn month(&self) -> (m: u32)
        ensures
            m == self@.month,
            valid_date(self@),
    {
        proof {
            use_type_invariant(self);
        }
        self.month
    }

    /// The day of the month, from 1.
    pub fn day(&self) -> (d: u32)
        ensures
            d == self@.day,
            valid_date(self@),
    {
        proof {
            use_type_invariant(self);
        }
        self.day
    }

    /// This date as text.
    pub fn to_string(&self) -> (r: String)
        ensures
            r@ == date_text(self@),
            valid_date(self@),
    {
        proof {
            use_type_invariant(self);
        }
        let mut out = String::new();
        if 0 <= self.year && self.year <= 9999 {
            push_zero_padded(&mut out, self.year as u64, 4);
            assert(out@ =~= year_text(self@.year));
        } else if self.year < 0 {
            out.append("-");
            push_zero_padded(&mut out, (0 - self.year) as u64, 4);
            proof {
                reveal_strlit("-");
                assert(out@ =~= year_text(self@.year));
            }
        } else {
            out.append("+");
            push_zero_padded(&mut out, self.year as u64, 4);
            proof {
                reveal_strlit("+");
                assert(out@ =~= year_text(self@.year));
            }
        }
        out.append("-");
        push_zero_padded(&mut out, self.month as u64, 2);
        out.append("-");
        push_zero_padded(&mut out, self.day as u64, 2);
        proof {
            reveal_strlit("-");
            assert(out@ =~= date_text(self@));
        }
        out
    }
}

/// The default date as text is `1970-01-01`.
pub proof fn lemma_default_date_text()
    ensures
        date_text(default_date()) == crate::DEFAULT_DATE@,
{
    reveal_strlit("1970-01-01");
    reveal_with_fuel(crate::text::decimal, 5);
    assert(zero_padded(1970, 4) =~= seq!['1', '9', '7', '0']);
    assert(zero_padded(1, 2) =~= seq!['0', '1']);
    assert(date_text(default_date()) =~= crate::DEFAULT_DATE@);
}

} // verus!
