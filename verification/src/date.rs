//! Calendar dates. A deadline is a plain year/month/day triple in the
//! proleptic Gregorian calendar; construction validates the triple, so no
//! `Date` built through [`Date::new`] names a day that does not exist.
//! Years are kept to four digits because the task-text format writes years
//! as exactly four digits.
use vstd::prelude::*;

use crate::text::digit_val;
use crate::text::digit_value;
use crate::text::is_digit;
use crate::text::is_digit_char;
use crate::text::lemma_digit_char_val;
use crate::text::spec_digit_char;

verus! {

pub open spec fn is_leap_year(y: int) -> bool {
    (y % 4 == 0 && y % 100 != 0) || y % 400 == 0
}

pub open spec fn days_in_month(y: int, m: int) -> int {
    if m == 2 {
        if is_leap_year(y) {
            29
        } else {
            28
        }
    } else if m == 4 || m == 6 || m == 9 || m == 11 {
        30
    } else {
        31
    }
}

/// A real calendar day with a four-digit year: no zero month or day, no
/// month 13, no February 30.
pub open spec fn valid_ymd(y: int, m: int, d: int) -> bool {
    &&& 0 <= y <= 9999
    &&& 1 <= m <= 12
    &&& 1 <= d <= days_in_month(y, m)
}

#[derive(Clone, Copy, PartialEq, Eq, Structural, Debug)]
pub struct Date {
    pub year: u16,
    pub month: u8,
    pub day: u8,
}

impl Date {
    pub open spec fn wf(self) -> bool {
        valid_ymd(self.year as int, self.month as int, self.day as int)
    }

    /// Calendar validation: a `Date` is produced exactly when the triple is a
    /// real calendar day; invalid triples are rejected, never clamped.
    pub fn new(year: u16, month: u8, day: u8) -> (r: Option<Date>)
        ensures
            r is Some <==> valid_ymd(year as int, month as int, day as int),
            r matches Some(d) ==> d == (Date { year, month, day }) && d.wf(),
    {
        if year <= 9999 && 1 <= month && month <= 12 && 1 <= day && day <= month_len(year, month) {
            Some(Date { year, month, day })
        } else {
            None
        }
    }
}

/// Number of days in the given month.
pub fn month_len(year: u16, month: u8) -> (r: u8)
    requires
        1 <= month <= 12,
    ensures
        r as int == days_in_month(year as int, month as int),
{
    if month == 2 {
        if (year % 4 == 0 && year % 100 != 0) || year % 400 == 0 {
            29
        } else {
            28
        }
    } else if month == 4 || month == 6 || month == 9 || month == 11 {
        30
    } else {
        31
    }
}

/// The day after `d`, or `None` past the last representable day
/// (December 31 of year 9999).
pub open spec fn spec_next_day(d: Date) -> Option<Date> {
    if (d.day as int) < days_in_month(d.year as int, d.month as int) {
        Some(Date { year: d.year, month: d.month, day: (d.day + 1) as u8 })
    } else if d.month < 12 {
        Some(Date { year: d.year, month: (d.month + 1) as u8, day: 1 })
    } else if d.year < 9999 {
        Some(Date { year: (d.year + 1) as u16, month: 1, day: 1 })
    } else {
        None
    }
}

/// The day `n` days after `d`, or `None` when that would pass the last
/// representable day.
pub open spec fn spec_add_days(d: Date, n: nat) -> Option<Date>
    decreases n,
{
    if n == 0 {
        Some(d)
    } else {
        match spec_next_day(d) {
            Some(d2) => spec_add_days(d2, (n - 1) as nat),
            None => None,
        }
    }
}

impl Date {
    pub fn next_day(self) -> (r: Option<Date>)
        requires
            self.wf(),
        ensures
            r == spec_next_day(self),
            r matches Some(d) ==> d.wf(),
    {
        if self.day < month_len(self.year, self.month) {
            Some(Date { year: self.year, month: self.month, day: self.day + 1 })
        } else if self.month < 12 {
            Some(Date { year: self.year, month: self.month + 1, day: 1 })
        } else if self.year < 9999 {
            Some(Date { year: self.year + 1, month: 1, day: 1 })
        } else {
            None
        }
    }

    /// Walks the calendar forward one day at a time, carrying month and year
    /// boundaries as the calendar demands.
    pub fn add_days(self, n: u64) -> (r: Option<Date>)
        requires
            self.wf(),
        ensures
            r == spec_add_days(self, n as nat),
            r matches Some(d) ==> d.wf(),
    {
        let mut cur: Date = self;
        let mut i: u64 = 0;
        while i < n
            invariant
                i <= n,
                cur.wf(),
                spec_add_days(self, n as nat) == spec_add_days(cur, (n - i) as nat),
            decreases n - i,
        {
            match cur.next_day() {
                Some(d2) => {
                    cur = d2;
                }
                None => {
                    return None;
                }
            }
            i = i + 1;
        }
        Some(cur)
    }
}

/// The canonical ten-character storage rendering of a date:
/// four year digits, `'-'`, two month digits, `'-'`, two day digits.
pub open spec fn spec_date_chars(y: int, m: int, d: int) -> Seq<char> {
    seq![
        spec_digit_char(y / 1000),
        spec_digit_char((y % 1000) / 100),
        spec_digit_char((y % 100) / 10),
        spec_digit_char(y % 10),
        '-',
        spec_digit_char(m / 10),
        spec_digit_char(m % 10),
        '-',
        spec_digit_char(d / 10),
        spec_digit_char(d % 10),
    ]
}

/// The digit string of a value below 10.
fn digit_str(v: u8) -> (r: &'static str)
    requires
        v <= 9,
    ensures
        r@.len() == 1,
        r@[0] == spec_digit_char(v as int),
{
    proof {
        reveal_strlit("0");
        reveal_strlit("1");
        reveal_strlit("2");
        reveal_strlit("3");
        reveal_strlit("4");
        reveal_strlit("5");
        reveal_strlit("6");
        reveal_strlit("7");
        reveal_strlit("8");
        reveal_strlit("9");
    }
    match v {
        0 => "0",
        1 => "1",
        2 => "2",
        3 => "3",
        4 => "4",
        5 => "5",
        6 => "6",
        7 => "7",
        8 => "8",
        _ => "9",
    }
}

/// Renders a date as `YYYY-MM-DD` with zero padding: the storage format, and
/// the date part of the task-text format with its canonical separator.
pub fn format_date(d: &Date) -> (s: String)
    requires
        d.wf(),
    ensures
        s@ == spec_date_chars(d.year as int, d.month as int, d.day as int),
{
    proof {
        reveal_strlit("-");
    }
    let y: u16 = d.year;
    let m: u8 = d.month;
    let dd: u8 = d.day;
    let mut s: String = String::new();
    s.append(digit_str((y / 1000) as u8));
    s.append(digit_str(((y % 1000) / 100) as u8));
    s.append(digit_str(((y % 100) / 10) as u8));
    s.append(digit_str((y % 10) as u8));
    s.append("-");
    s.append(digit_str(m / 10));
    s.append(digit_str(m % 10));
    s.append("-");
    s.append(digit_str(dd / 10));
    s.append(digit_str(dd % 10));
    proof {
        assert(s@ =~= spec_date_chars(d.year as int, d.month as int, d.day as int));
    }
    s
}

/// The shape of a canonical `YYYY-MM-DD` rendering, before calendar
/// validation.
pub open spec fn ymd_shape(s: Seq<char>) -> bool {
    &&& s.len() == 10
    &&& is_digit(s[0])
    &&& is_digit(s[1])
    &&& is_digit(s[2])
    &&& is_digit(s[3])
    &&& s[4] == '-'
    &&& is_digit(s[5])
    &&& is_digit(s[6])
    &&& s[7] == '-'
    &&& is_digit(s[8])
    &&& is_digit(s[9])
}

pub open spec fn ymd_year(s: Seq<char>) -> int {
    1000 * digit_val(s[0]) + 100 * digit_val(s[1]) + 10 * digit_val(s[2]) + digit_val(s[3])
}

pub open spec fn ymd_month(s: Seq<char>) -> int {
    10 * digit_val(s[5]) + digit_val(s[6])
}

pub open spec fn ymd_day(s: Seq<char>) -> int {
    10 * digit_val(s[8]) + digit_val(s[9])
}

/// Reads a date back from its canonical storage rendering: exactly
/// `YYYY-MM-DD`, hyphen-separated, naming a real calendar day.
pub fn parse_ymd_date(s: &str) -> (r: Option<Date>)
    ensures
        r is Some <==> ymd_shape(s@) && valid_ymd(ymd_year(s@), ymd_month(s@), ymd_day(s@)),
        r matches Some(d) ==> ({
            &&& d.year as int == ymd_year(s@)
            &&& d.month as int == ymd_month(s@)
            &&& d.day as int == ymd_day(s@)
            &&& d.wf()
        }),
{
    let n: usize = s.unicode_len();
    if n != 10 {
        return None;
    }
    let c0 = s.get_char(0);
    let c1 = s.get_char(1);
    let c2 = s.get_char(2);
    let c3 = s.get_char(3);
    let c4 = s.get_char(4);
    let c5 = s.get_char(5);
    let c6 = s.get_char(6);
    let c7 = s.get_char(7);
    let c8 = s.get_char(8);
    let c9 = s.get_char(9);
    if !(is_digit_char(c0) && is_digit_char(c1) && is_digit_char(c2) && is_digit_char(c3)
        && c4 == '-' && is_digit_char(c5) && is_digit_char(c6) && c7 == '-' && is_digit_char(c8)
        && is_digit_char(c9)) {
        return None;
    }
    let y: u16 = 1000 * (digit_value(c0) as u16) + 100 * (digit_value(c1) as u16) + 10 * (
    digit_value(c2) as u16) + (digit_value(c3) as u16);
    let m: u8 = 10 * digit_value(c5) + digit_value(c6);
    let d: u8 = 10 * digit_value(c8) + digit_value(c9);
    Date::new(y, m, d)
}

/// Decomposing a four-digit value into its decimal digits and recombining
/// them gives the value back.
pub proof fn lemma_digits4_value(y: int)
    requires
        0 <= y <= 9999,
    ensures
        1000 * (y / 1000) + 100 * ((y % 1000) / 100) + 10 * ((y % 100) / 10) + y % 10 == y,
        0 <= y / 1000 <= 9,
        0 <= (y % 1000) / 100 <= 9,
        0 <= (y % 100) / 10 <= 9,
        0 <= y % 10 <= 9,
{
    assert(1000 * (y / 1000) + 100 * ((y % 1000) / 100) + 10 * ((y % 100) / 10) + y % 10 == y
        && 0 <= y / 1000 <= 9 && 0 <= (y % 1000) / 100 <= 9 && 0 <= (y % 100) / 10 <= 9 && 0 <= y
        % 10 <= 9) by (nonlinear_arith)
        requires
            0 <= y <= 9999,
    ;
}

/// Decomposing a two-digit value into its decimal digits and recombining
/// them gives the value back.
pub proof fn lemma_digits2_value(m: int)
    requires
        0 <= m <= 99,
    ensures
        10 * (m / 10) + m % 10 == m,
        0 <= m / 10 <= 9,
        0 <= m % 10 <= 9,
{
    assert(10 * (m / 10) + m % 10 == m && 0 <= m / 10 <= 9 && 0 <= m % 10 <= 9)
        by (nonlinear_arith)
        requires
            0 <= m <= 99,
    ;
}

/// Storage round trip: a well-formed date, rendered canonically, reads back
/// as the same date.
pub proof fn lemma_date_chars_round_trip(y: int, m: int, d: int)
    requires
        valid_ymd(y, m, d),
    ensures
        ymd_shape(spec_date_chars(y, m, d)),
        ymd_year(spec_date_chars(y, m, d)) == y,
        ymd_month(spec_date_chars(y, m, d)) == m,
        ymd_day(spec_date_chars(y, m, d)) == d,
{
    lemma_digits4_value(y);
    lemma_digits2_value(m);
    lemma_digits2_value(d);
    lemma_digit_char_val(y / 1000);
    lemma_digit_char_val((y % 1000) / 100);
    lemma_digit_char_val((y % 100) / 10);
    lemma_digit_char_val(y % 10);
    lemma_digit_char_val(m / 10);
    lemma_digit_char_val(m % 10);
    lemma_digit_char_val(d / 10);
    lemma_digit_char_val(d % 10);
}

} // verus!
