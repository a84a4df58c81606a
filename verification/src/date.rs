//! Calendar dates without time-of-day. The origin dataset carries approval
//! dates as text in the fixed `YYYY-MM-DD` shape; anything else, including
//! a well-shaped string that names no real calendar day, degrades to "no
//! date" rather than failing the record.

use vstd::prelude::*;

verus! {

/// One calendar date, year 0 through 9999 when well formed.
#[derive(Clone, Copy, Debug, PartialEq, Eq, Structural)]
pub struct Date {
    pub year: u16,
    pub month: u8,
    pub day: u8,
}

pub open spec fn is_leap_year(y: int) -> bool {
    (y % 4 == 0 && y % 100 != 0) || y % 400 == 0
}

pub open spec fn days_in_month(y: int, m: int) -> int {
    if m == 2 {
        if is_leap_year(y) {
            29
        } else {
            28
        }
    } else if m == 4 || m == 6 || m == 9 || m == 11 {
        30
    } else {
        31
    }
}

pub open spec fn valid_date(y: int, m: int, d: int) -> bool {
    &&& 0 <= y <= 9999
    &&& 1 <= m <= 12
    &&& 1 <= d <= days_in_month(y, m)
}

impl Date {
    /// The date names a real calendar day.
    pub open spec fn wf(self) -> bool {
        valid_date(self.year as int, self.month as int, self.day as int)
    }

    /// Total order key: later days get strictly larger keys.
    pub open spec fn key(self) -> int {
        self.year * 10000 + self.month * 100 + self.day
    }
}

pub open spec fn is_digit(c: char) -> bool {
    '0' <= c <= '9'
}

pub open spec fn digit_val(c: char) -> int {
    c as int - '0' as int
}

/// The ten-character `YYYY-MM-DD` shape: four digits, dash, two digits,
/// dash, two digits.
pub open spec fn date_str_wf(s: Seq<char>) -> bool {
    &&& s.len() == 10
    &&& is_digit(s[0]) && is_digit(s[1]) && is_digit(s[2]) && is_digit(s[3])
    &&& s[4] == '-'
    &&& is_digit(s[5]) && is_digit(s[6])
    &&& s[7] == '-'
    &&& is_digit(s[8]) && is_digit(s[9])
}

pub open spec fn year_of(s: Seq<char>) -> int {
    digit_val(s[0]) * 1000 + digit_val(s[1]) * 100 + digit_val(s[2]) * 10 + digit_val(s[3])
}

pub open spec fn month_of(s: Seq<char>) -> int {
    digit_val(s[5]) * 10 + digit_val(s[6])
}

pub open spec fn day_of(s: Seq<char>) -> int {
    digit_val(s[8]) * 10 + digit_val(s[9])
}

/// A string parses to a date exactly when it has the `YYYY-MM-DD` shape
/// and its three numbers name a real calendar day.
pub open spec fn parses_as_date(s: Seq<char>) -> bool {
    date_str_wf(s) && valid_date(year_of(s), month_of(s), day_of(s))
}

fn digit(c: char) -> (r: Option<u16>)
    ensures
        r is Some <==> is_digit(c),
        r is Some ==> r->0 == digit_val(c) && r->0 <= 9,
{
    if '0' <= c && c <= '9' {
        Some((c as u32 - '0' as u32) as u16)
    } else {
        None
    }
}

fn days_in(y: u16, m: u8) -> (r: u8)
    ensures
        r == days_in_month(y as int, m as int),
{
    if m == 2 {
        let leap: bool = (y % 4 == 0 && y % 100 != 0) || y % 400 == 0;
        if leap {
            29
        } else {
            28
        }
    } else if m == 4 || m == 6 || m == 9 || m == 11 {
        30
    } else {
        31
    }
}

/// Reads a `YYYY-MM-DD` string into a date. Returns the parsed date exactly
/// when the text has the fixed shape and names a real calendar day, and
/// nothing otherwise.
pub fn parse_date(s: &str) -> (r: Option<Date>)
    ensures
        r is Some <==> parses_as_date(s@),
        r is Some ==> {
            &&& r->0.wf()
            &&& r->0.year == year_of(s@)
            &&& r->0.month == month_of(s@)
            &&& r->0.day == day_of(s@)
        },
{
    if s.unicode_len() != 10 {
        return None;
    }
    if s.get_char(4) != '-' || s.get_char(7) != '-' {
        return None;
    }
    let y0 = digit(s.get_char(0));
    let y1 = digit(s.get_char(1));
    let y2 = digit(s.get_char(2));
    let y3 = digit(s.get_char(3));
    let m0 = digit(s.get_char(5));
    let m1 = digit(s.get_char(6));
    let d0 = digit(s.get_char(8));
    let d1 = digit(s.get_char(9));
    match (y0, y1, y2, y3, m0, m1, d0, d1) {
        (Some(a), Some(b), Some(c), Some(d), Some(e), Some(f), Some(g), Some(h)) => {
            let year: u16 = a * 1000 + b * 100 + c * 10 + d;
            let month: u8 = (e * 10 + f) as u8;
            let day: u8 = (g * 10 + h) as u8;
            if 1 <= month && month <= 12 && 1 <= day && day <= days_in(year, month) {
                Some(Date { year, month, day })
            } else {
                None
            }
        },
        _ => None,
    }
}

} // verus!
