//! Calendar dates and the `YYYY-MM-DD` text form.
//!
//! A `Date` can only be built through validating constructors, so every
//! value in circulation names a real day of the proleptic Gregorian
//! calendar (years 0 through 9999).

use vstd::prelude::*;

verus! {

/// The mathematical content of a `Date`: year, month and day as plain
/// integers.
#[verifier::ext_equal]
pub ghost struct DateView {
    pub year: int,
    pub month: int,
    pub day: int,
}

pub open spec fn is_leap_year(year: int) -> bool {
    (year % 4 == 0 && year % 100 != 0) || year % 400 == 0
}

pub open spec fn days_in_month(year: int, month: int) -> int {
    if month == 2 {
        if is_leap_year(year) {
            29
        } else {
            28
        }
    } else if month == 4 || month == 6 || month == 9 || month == 11 {
        30
    } else {
        31
    }
}

pub open spec fn valid_ymd(year: int, month: int, day: int) -> bool {
    &&& 0 <= year <= 9999
    &&& 1 <= month <= 12
    &&& 1 <= day <= days_in_month(year, month)
}

/// A calendar date. Only the validating constructors can build one, so
/// `valid_ymd` holds of every `Date` that exists.
#[derive(Clone, Copy)]
pub struct Date {
    year: u16,
    month: u8,
    day: u8,
}

impl View for Date {
    type V = DateView;

    closed spec fn view(&self) -> DateView {
        DateView { year: self.year as int, month: self.month as int, day: self.day as int }
    }
}

impl Date {
    pub open spec fn wf(&self) -> bool {
        valid_ymd(self@.year, self@.month, self@.day)
    }

    /// Builds a date from numeric parts, refusing anything that is not a
    /// real day of the calendar.
    pub fn try_new(year: u16, month: u8, day: u8) -> (r: Option<Date>)
        ensures
            r is Some <==> valid_ymd(year as int, month as int, day as int),
            r matches Some(d) ==> d@ == (DateView {
                year: year as int,
                month: month as int,
                day: day as int,
            }) && d.wf(),
    {
        if year <= 9999 && 1 <= month && month <= 12 && 1 <= day
            && day <= days_in_month_number(year, month) {
            Some(Date { year, month, day })
        } else {
            None
        }
    }

    pub fn year_number(&self) -> (y: u16)
        ensures
            y as int == self@.year,
    {
        self.year
    }

    pub fn month_number(&self) -> (m: u8)
        ensures
            m as int == self@.month,
    {
        self.month
    }

    pub fn day_number(&self) -> (d: u8)
        ensures
            d as int == self@.day,
    {
        self.day
    }
}

pub open spec fn is_digit(c: char) -> bool {
    '0' <= c && c <= '9'
}

pub open spec fn digit(c: char) -> int {
    c as u32 - '0' as u32
}

/// The `YYYY-MM-DD` shape: ten characters, digits in the number places,
/// dashes between them.
pub open spec fn date_chars_wf(s: Seq<char>) -> bool {
    &&& s.len() == 10
    &&& is_digit(s[0]) && is_digit(s[1]) && is_digit(s[2]) && is_digit(s[3])
    &&& s[4] == '-'
    &&& is_digit(s[5]) && is_digit(s[6])
    &&& s[7] == '-'
    &&& is_digit(s[8]) && is_digit(s[9])
}

pub open spec fn year_of(s: Seq<char>) -> int {
    1000 * digit(s[0]) + 100 * digit(s[1]) + 10 * digit(s[2]) + digit(s[3])
}

pub open spec fn month_of(s: Seq<char>) -> int {
    10 * digit(s[5]) + digit(s[6])
}

pub open spec fn day_of(s: Seq<char>) -> int {
    10 * digit(s[8]) + digit(s[9])
}

/// A string parses as a date exactly when it has the `YYYY-MM-DD` shape
/// and its numbers name a real day of the calendar.
pub open spec fn valid_date_str(s: Seq<char>) -> bool {
    date_chars_wf(s) && valid_ymd(year_of(s), month_of(s), day_of(s))
}

impl Date {
    /// Parses the `YYYY-MM-DD` text form; succeeds exactly on well-formed
    /// dates of the calendar.
    pub fn parse(s: &str) -> (r: Option<Date>)
        ensures
            r is Some <==> valid_date_str(s@),
            r matches Some(d) ==> d@ == (DateView {
                year: year_of(s@),
                month: month_of(s@),
                day: day_of(s@),
            }) && d.wf(),
    {
        if s.unicode_len() != 10 {
            return None;
        }
        let c4 = s.get_char(4);
        let c7 = s.get_char(7);
        if c4 != '-' || c7 != '-' {
            return None;
        }
        let d0 = digit_value(s.get_char(0));
        let d1 = digit_value(s.get_char(1));
        let d2 = digit_value(s.get_char(2));
        let d3 = digit_value(s.get_char(3));
        let d5 = digit_value(s.get_char(5));
        let d6 = digit_value(s.get_char(6));
        let d8 = digit_value(s.get_char(8));
        let d9 = digit_value(s.get_char(9));
        match (d0, d1, d2, d3, d5, d6, d8, d9) {
            (Some(d0), Some(d1), Some(d2), Some(d3), Some(d5), Some(d6), Some(d8), Some(d9)) => {
                let year: u16 = 1000 * (d0 as u16) + 100 * (d1 as u16) + 10 * (d2 as u16)
                    + (d3 as u16);
                let month: u8 = 10 * d5 + d6;
                let day: u8 = 10 * d8 + d9;
                Date::try_new(year, month, day)
            },
            _ => None,
        }
    }
}

/// The decimal digit character for a value 0 through 9.
pub open spec fn digit_char(d: int) -> char {
    if d == 0 {
        '0'
    } else if d == 1 {
        '1'
    } else if d == 2 {
        '2'
    } else if d == 3 {
        '3'
    } else if d == 4 {
        '4'
    } else if d == 5 {
        '5'
    } else if d == 6 {
        '6'
    } else if d == 7 {
        '7'
    } else if d == 8 {
        '8'
    } else {
        '9'
    }
}

/// The `YYYY-MM-DD` text of a date, digit by digit.
pub open spec fn date_text(v: DateView) -> Seq<char> {
    seq![
        digit_char(v.year / 1000),
        digit_char((v.year / 100) % 10),
        digit_char((v.year / 10) % 10),
        digit_char(v.year % 10),
        '-',
        digit_char(v.month / 10),
        digit_char(v.month % 10),
        '-',
        digit_char(v.day / 10),
        digit_char(v.day % 10),
    ]
}

/// A digit value's character reads back as that value.
proof fn lemma_digit_char_value(d: int)
    requires
        0 <= d <= 9,
    ensures
        is_digit(digit_char(d)),
        digit(digit_char(d)) == d,
{
}

/// Writing a date and parsing it back gives the date again: the text of a
/// valid date is itself a valid date string and its numbers are the
/// date's.
#[verifier::rlimit(50)]
pub proof fn lemma_date_text_parses_back(v: DateView)
    requires
        valid_ymd(v.year, v.month, v.day),
    ensures
        valid_date_str(date_text(v)),
        year_of(date_text(v)) == v.year,
        month_of(date_text(v)) == v.month,
        day_of(date_text(v)) == v.day,
{
    let y = v.year;
    let m = v.month;
    let d = v.day;
    lemma_digit_char_value(y / 1000);
    lemma_digit_char_value((y / 100) % 10);
    lemma_digit_char_value((y / 10) % 10);
    lemma_digit_char_value(y % 10);
    lemma_digit_char_value(m / 10);
    lemma_digit_char_value(m % 10);
    lemma_digit_char_value(d / 10);
    lemma_digit_char_value(d % 10);
    let t = date_text(v);
    assert(date_chars_wf(t));
    assert(y == 1000 * (y / 1000) + 100 * ((y / 100) % 10) + 10 * ((y / 10) % 10) + y % 10) by {
        assert(y == 10 * (y / 10) + y % 10);
        assert(y / 10 == 10 * (y / 100) + (y / 10) % 10);
        assert(y / 100 == 10 * (y / 1000) + (y / 100) % 10);
    }
    assert(year_of(t) == y);
    assert(m == 10 * (m / 10) + m % 10);
    assert(month_of(t) == m);
    assert(d == 10 * (d / 10) + d % 10);
    assert(day_of(t) == d);
}

impl Date {
    /// The `YYYY-MM-DD` text form of this date.
    pub fn to_text(&self) -> (r: String)
        requires
            self.wf(),
        ensures
            r@ == date_text(self@),
    {
        let mut s = String::from_str(digit_str((self.year / 1000) as u8));
        s.append(digit_str(((self.year / 100) % 10) as u8));
        s.append(digit_str(((self.year / 10) % 10) as u8));
        s.append(digit_str((self.year % 10) as u8));
        s.append("-");
        s.append(digit_str(self.month / 10));
        s.append(digit_str(self.month % 10));
        s.append("-");
        s.append(digit_str(self.day / 10));
        s.append(digit_str(self.day % 10));
        proof {
            reveal_strlit("-");
            assert(s@ =~= date_text(self@));
        }
        s
    }
}

/// The one-character text of a decimal digit value.
fn digit_str(d: u8) -> (r: &'static str)
    requires
        d <= 9,
    ensures
        r@.len() == 1,
        r@[0] == digit_char(d as int),
{
    proof {
        reveal_strlit("0");
        reveal_strlit("1");
        reveal_strlit("2");
        reveal_strlit("3");
        reveal_strlit("4");
        reveal_strlit("5");
        reveal_strlit("6");
        reveal_strlit("7");
        reveal_strlit("8");
        reveal_strlit("9");
    }
    match d {
        0 => "0",
        1 => "1",
        2 => "2",
        3 => "3",
        4 => "4",
        5 => "5",
        6 => "6",
        7 => "7",
        8 => "8",
        _ => "9",
    }
}

/// The numeric value of a decimal digit character, `None` off the digits.
fn digit_value(c: char) -> (r: Option<u8>)
    ensures
        r is Some <==> is_digit(c),
        r matches Some(d) ==> d as int == digit(c) && d <= 9,
{
    if '0' <= c && c <= '9' {
        Some(((c as u32) - ('0' as u32)) as u8)
    } else {
        None
    }
}

fn days_in_month_number(year: u16, month: u8) -> (d: u8)
    ensures
        d as int == days_in_month(year as int, month as int),
{
    if month == 2 {
        if (year % 4 == 0 && year % 100 != 0) || year % 400 == 0 {
            29
        } else {
            28
        }
    } else if month == 4 || month == 6 || month == 9 || month == 11 {
        30
    } else {
        31
    }
}

} // verus!
