//! The date-tag scanner and the task-text parser.
//!
//! The textual task format is a bracketed date tag at the start of the
//! buffer (after any leading whitespace), followed by free-text content:
//!
//! ```text
//! [YYYY-MM-DD]
//! content ...
//! ```
//!
//! Each separator inside the tag is independently `-` or `/`; the two need
//! not match each other, which is intentional permissiveness, not an
//! accident of this implementation. Year, month and day are fixed-width
//! digit runs (four, two and two digits): the scanner reads the whole run of
//! digits greedily and rejects the field when the run is not exactly the
//! required width, so `[2025-3-01]` fails rather than being coerced to
//! March. The digits must name a real calendar day. Everything after the
//! closing bracket is content, trimmed of whitespace at both ends only.
use vstd::prelude::*;

use crate::date::Date;
use crate::date::lemma_digits2_value;
use crate::date::lemma_digits4_value;
use crate::date::valid_ymd;
use crate::task::Task;
use crate::text::digit_run_end;
use crate::text::digit_val;
use crate::text::digit_value;
use crate::text::is_digit;
use crate::text::is_digit_char;
use crate::text::is_space;
use crate::text::is_space_char;
use crate::text::lemma_digit_char_val;
use crate::text::lemma_digit_run_end;
use crate::text::lemma_digit_run_end_is;
use crate::text::lemma_ws_len_end_is;
use crate::text::lemma_ws_len_is;
use crate::text::spec_digit_char;
use crate::text::spec_trim;
use crate::text::ws_len;
use crate::text::ws_len_end;

verus! {

/// A parse failure. It carries no recovery information: the buffer as a
/// whole could not become a task, whether the tag was missing, malformed or
/// named an impossible date.
#[derive(Clone, Copy, PartialEq, Eq, Structural, Debug)]
pub struct ParseError;

/// A tag separator: `-` or `/`.
pub open spec fn is_sep(c: char) -> bool {
    c == '-' || c == '/'
}

/// The ten characters beginning at `k` spell a date: a maximal run of
/// exactly four digits, a separator, a maximal run of exactly two digits, a
/// separator, and a maximal run of exactly two digits.
pub open spec fn date_at(s: Seq<char>, k: int) -> bool {
    &&& digit_run_end(s, k) == k + 4
    &&& k + 4 < s.len() && is_sep(s[k + 4])
    &&& digit_run_end(s, k + 5) == k + 7
    &&& k + 7 < s.len() && is_sep(s[k + 7])
    &&& digit_run_end(s, k + 8) == k + 10
}

/// The year written at `k` (the first digit position of a date shape).
pub open spec fn date_y(s: Seq<char>, k: int) -> int {
    1000 * digit_val(s[k]) + 100 * digit_val(s[k + 1]) + 10 * digit_val(s[k + 2]) + digit_val(
        s[k + 3],
    )
}

pub open spec fn date_m(s: Seq<char>, k: int) -> int {
    10 * digit_val(s[k + 5]) + digit_val(s[k + 6])
}

pub open spec fn date_d(s: Seq<char>, k: int) -> int {
    10 * digit_val(s[k + 8]) + digit_val(s[k + 9])
}

/// The twelve characters beginning at `k` are a complete bracketed date
/// tag: `[`, a date shape, `]`.
pub open spec fn tag_at(s: Seq<char>, k: int) -> bool {
    &&& 0 <= k < s.len()
    &&& s[k] == '['
    &&& date_at(s, k + 1)
    &&& k + 11 < s.len()
    &&& s[k + 11] == ']'
}

/// A complete tag at `k` whose digits name a real calendar day.
pub open spec fn tag_valid(s: Seq<char>, k: int) -> bool {
    &&& tag_at(s, k)
    &&& valid_ymd(date_y(s, k + 1), date_m(s, k + 1), date_d(s, k + 1))
}

/// The whole buffer parses: after its leading whitespace stands a valid
/// date tag.
pub open spec fn spec_parse_ok(s: Seq<char>) -> bool {
    tag_valid(s, ws_len(s))
}

pub open spec fn spec_year(s: Seq<char>) -> int {
    date_y(s, ws_len(s) + 1)
}

pub open spec fn spec_month(s: Seq<char>) -> int {
    date_m(s, ws_len(s) + 1)
}

pub open spec fn spec_day(s: Seq<char>) -> int {
    date_d(s, ws_len(s) + 1)
}

/// The content of a parsed buffer: everything after the closing bracket,
/// trimmed of whitespace at both ends and otherwise kept verbatim.
pub open spec fn spec_content(s: Seq<char>) -> Seq<char> {
    spec_trim(s.skip(ws_len(s) + 12))
}

/// Reads the maximal run of digits beginning at `from`; fails when it is
/// empty.
pub fn parse_digits<'a>(s: &'a str, from: usize) -> (r: Result<(&'a str, usize), ParseError>)
    requires
        from <= s@.len(),
    ensures
        r is Ok <==> from < s@.len() && is_digit(s@[from as int]),
        r matches Ok((run, end)) ==> ({
            &&& end as int == digit_run_end(s@, from as int)
            &&& from < end <= s@.len()
            &&& run@ == s@.subrange(from as int, end as int)
            &&& forall|j: int| from <= j < end ==> is_digit(s@[j])
        }),
{
    let n: usize = s.unicode_len();
    if from >= n || !is_digit_char(s.get_char(from)) {
        proof {
            lemma_digit_run_end(s@, from as int);
        }
        return Err(ParseError);
    }
    let mut end: usize = from + 1;
    while end < n && is_digit_char(s.get_char(end))
        invariant
            n == s@.len(),
            from < end <= n,
            forall|j: int| from <= j < end ==> is_digit(s@[j]),
        decreases n - end,
    {
        end = end + 1;
    }
    proof {
        lemma_digit_run_end_is(s@, from as int, end as int);
    }
    Ok((s.substring_char(from, end), end))
}

/// The year field: a maximal run of exactly four digits.
pub fn parse_year(s: &str, from: usize) -> (r: Result<(u16, usize), ParseError>)
    requires
        from <= s@.len(),
    ensures
        r is Ok <==> digit_run_end(s@, from as int) == from + 4,
        r matches Ok((y, end)) ==> ({
            &&& end == from + 4
            &&& end <= s@.len()
            &&& y as int == date_y(s@, from as int)
            &&& y <= 9999
        }),
{
    proof {
        lemma_digit_run_end(s@, from as int);
    }
    match parse_digits(s, from) {
        Ok((_run, end)) => {
            if end - from != 4 {
                return Err(ParseError);
            }
            let y: u16 = 1000 * (digit_value(s.get_char(from)) as u16) + 100 * (digit_value(
                s.get_char(from + 1),
            ) as u16) + 10 * (digit_value(s.get_char(from + 2)) as u16) + (digit_value(
                s.get_char(from + 3),
            ) as u16);
            Ok((y, end))
        }
        Err(e) => Err(e),
    }
}

/// The month field: a maximal run of exactly two digits.
pub fn parse_month(s: &str, from: usize) -> (r: Result<(u8, usize), ParseError>)
    requires
        from <= s@.len(),
    ensures
        r is Ok <==> digit_run_end(s@, from as int) == from + 2,
        r matches Ok((m, end)) ==> ({
            &&& end == from + 2
            &&& end <= s@.len()
            &&& m as int == 10 * digit_val(s@[from as int]) + digit_val(s@[from as int + 1])
            &&& m <= 99
        }),
{
    proof {
        lemma_digit_run_end(s@, from as int);
    }
    match parse_digits(s, from) {
        Ok((_run, end)) => {
            if end - from != 2 {
                return Err(ParseError);
            }
            let m: u8 = 10 * digit_value(s.get_char(from)) + digit_value(s.get_char(from + 1));
            Ok((m, end))
        }
        Err(e) => Err(e),
    }
}

/// The day field: a maximal run of exactly two digits.
pub fn parse_day(s: &str, from: usize) -> (r: Result<(u8, usize), ParseError>)
    requires
        from <= s@.len(),
    ensures
        r is Ok <==> digit_run_end(s@, from as int) == from + 2,
        r matches Ok((d, end)) ==> ({
            &&& end == from + 2
            &&& end <= s@.len()
            &&& d as int == 10 * digit_val(s@[from as int]) + digit_val(s@[from as int + 1])
            &&& d <= 99
        }),
{
    proof {
        lemma_digit_run_end(s@, from as int);
    }
    match parse_digits(s, from) {
        Ok((_run, end)) => {
            if end - from != 2 {
                return Err(ParseError);
            }
            let d: u8 = 10 * digit_value(s.get_char(from)) + digit_value(s.get_char(from + 1));
            Ok((d, end))
        }
        Err(e) => Err(e),
    }
}

/// One separator character, `-` or `/`; the two separators of a tag are
/// checked independently and need not match.
pub fn parse_separator(s: &str, from: usize) -> (r: Result<(char, usize), ParseError>)
    requires
        from <= s@.len(),
    ensures
        r is Ok <==> from < s@.len() && is_sep(s@[from as int]),
        r matches Ok((c, end)) ==> end == from + 1 && c == s@[from as int],
{
    let n: usize = s.unicode_len();
    if from >= n {
        return Err(ParseError);
    }
    let c = s.get_char(from);
    if c == '/' || c == '-' {
        Ok((c, from + 1))
    } else {
        Err(ParseError)
    }
}

/// The opening bracket of a tag.
pub fn parse_prefix(s: &str, from: usize) -> (r: Result<(char, usize), ParseError>)
    requires
        from <= s@.len(),
    ensures
        r is Ok <==> from < s@.len() && s@[from as int] == '[',
        r matches Ok((c, end)) ==> end == from + 1 && c == '[',
{
    let n: usize = s.unicode_len();
    if from >= n {
        return Err(ParseError);
    }
    let c = s.get_char(from);
    if c == '[' {
        Ok((c, from + 1))
    } else {
        Err(ParseError)
    }
}

/// The closing bracket of a tag, immediately after the day field.
pub fn parse_suffix(s: &str, from: usize) -> (r: Result<(char, usize), ParseError>)
    requires
        from <= s@.len(),
    ensures
        r is Ok <==> from < s@.len() && s@[from as int] == ']',
        r matches Ok((c, end)) ==> end == from + 1 && c == ']',
{
    let n: usize = s.unicode_len();
    if from >= n {
        return Err(ParseError);
    }
    let c = s.get_char(from);
    if c == ']' {
        Ok((c, from + 1))
    } else {
        Err(ParseError)
    }
}

/// Year, separator, month, separator, day, beginning at `from`, checked to
/// name a real calendar day. Invalid calendar dates are rejected here, not
/// clamped.
pub fn parse_date(s: &str, from: usize) -> (r: Result<(Date, usize), ParseError>)
    requires
        from <= s@.len(),
    ensures
        r is Ok <==> date_at(s@, from as int) && valid_ymd(
            date_y(s@, from as int),
            date_m(s@, from as int),
            date_d(s@, from as int),
        ),
        r matches Ok((d, end)) ==> ({
            &&& end == from + 10
            &&& end <= s@.len()
            &&& d.year as int == date_y(s@, from as int)
            &&& d.month as int == date_m(s@, from as int)
            &&& d.day as int == date_d(s@, from as int)
            &&& d.wf()
        }),
{
    let (y, e1) = match parse_year(s, from) {
        Ok(p) => p,
        Err(e) => {
            return Err(e);
        }
    };
    let (_s1, e2) = match parse_separator(s, e1) {
        Ok(p) => p,
        Err(e) => {
            return Err(e);
        }
    };
    let (m, e3) = match parse_month(s, e2) {
        Ok(p) => p,
        Err(e) => {
            return Err(e);
        }
    };
    let (_s2, e4) = match parse_separator(s, e3) {
        Ok(p) => p,
        Err(e) => {
            return Err(e);
        }
    };
    let (d, e5) = match parse_day(s, e4) {
        Ok(p) => p,
        Err(e) => {
            return Err(e);
        }
    };
    match Date::new(y, m, d) {
        Some(date) => Ok((date, e5)),
        None => Err(ParseError),
    }
}

/// A complete bracketed date tag beginning at `from`.
pub fn parse_date_tag(s: &str, from: usize) -> (r: Result<(Date, usize), ParseError>)
    requires
        from <= s@.len(),
    ensures
        r is Ok <==> tag_valid(s@, from as int),
        r matches Ok((d, end)) ==> ({
            &&& end == from + 12
            &&& end <= s@.len()
            &&& d.year as int == date_y(s@, from as int + 1)
            &&& d.month as int == date_m(s@, from as int + 1)
            &&& d.day as int == date_d(s@, from as int + 1)
            &&& d.wf()
        }),
{
    let (_open, e1) = match parse_prefix(s, from) {
        Ok(p) => p,
        Err(e) => {
            return Err(e);
        }
    };
    let (date, e2) = match parse_date(s, e1) {
        Ok(p) => p,
        Err(e) => {
            return Err(e);
        }
    };
    let (_close, e3) = match parse_suffix(s, e2) {
        Ok(p) => p,
        Err(e) => {
            return Err(e);
        }
    };
    Ok((date, e3))
}

/// Parses a whole task buffer: leading whitespace, the date tag, then the
/// remainder as end-trimmed content. A pure function of the input text; on
/// any malformed tag or impossible calendar date it reports failure and
/// produces no partial task. Empty content is valid.
pub fn parse_task(input: &str) -> (r: Result<Task, ParseError>)
    ensures
        r is Ok <==> spec_parse_ok(input@),
        r matches Ok(t) ==> ({
            &&& t.deadline.year as int == spec_year(input@)
            &&& t.deadline.month as int == spec_month(input@)
            &&& t.deadline.day as int == spec_day(input@)
            &&& t.deadline.wf()
            &&& t.content@ == spec_content(input@)
            &&& t.id == 0
            &&& t.category is None
            &&& t.done == false
        }),
{
    let n: usize = input.unicode_len();
    let mut k: usize = 0;
    while k < n && is_space_char(input.get_char(k))
        invariant
            n == input@.len(),
            k <= n,
            forall|j: int| 0 <= j < k ==> is_space(input@[j]),
        decreases n - k,
    {
        k = k + 1;
    }
    proof {
        lemma_ws_len_is(input@, k as int);
    }
    let (date, end) = match parse_date_tag(input, k) {
        Ok(p) => p,
        Err(e) => {
            return Err(e);
        }
    };
    let ghost rest = input@.skip(end as int);
    let mut a: usize = end;
    while a < n && is_space_char(input.get_char(a))
        invariant
            n == input@.len(),
            end <= a <= n,
            forall|j: int| end <= j < a ==> is_space(input@[j]),
        decreases n - a,
    {
        a = a + 1;
    }
    proof {
        assert forall|j: int| 0 <= j < a - end implies is_space(rest[j]) by {
            assert(rest[j] == input@[end + j]);
        }
        if a < n {
            assert(rest[a - end] == input@[a as int]);
        }
        lemma_ws_len_is(rest, a - end);
    }
    if a == n {
        proof {
            reveal_strlit("");
            assert(""@ =~= spec_trim(rest));
        }
        let t = Task::new(None, date, "");
        return Ok(t);
    }
    let mut b: usize = n;
    while b > a && is_space_char(input.get_char(b - 1))
        invariant
            n == input@.len(),
            a < n,
            a <= b <= n,
            forall|j: int| b <= j < n ==> is_space(input@[j]),
        decreases b,
    {
        b = b - 1;
    }
    proof {
        assert(!is_space(input@[a as int]));
        if b == a {
            assert(is_space(input@[a as int]));
        }
        assert(a < b);
        assert forall|j: int| rest.len() - (n - b) <= j < rest.len() implies is_space(rest[j]) by {
            assert(rest[j] == input@[end + j]);
        }
        assert(rest[rest.len() - 1 - (n - b)] == input@[b - 1]);
        lemma_ws_len_end_is(rest, n - b);
        assert(spec_trim(rest) =~= input@.subrange(a as int, b as int));
    }
    let content = input.substring_char(a, b);
    let t = Task::new(None, date, content);
    Ok(t)
}

/// The twelve characters of a rendered date tag: brackets, zero-padded
/// digits, and the two chosen separators.
pub open spec fn spec_tag_chars(y: int, m: int, d: int, s1: char, s2: char) -> Seq<char> {
    seq![
        '[',
        spec_digit_char(y / 1000),
        spec_digit_char((y % 1000) / 100),
        spec_digit_char((y % 100) / 10),
        spec_digit_char(y % 10),
        s1,
        spec_digit_char(m / 10),
        spec_digit_char(m % 10),
        s2,
        spec_digit_char(d / 10),
        spec_digit_char(d % 10),
        ']',
    ]
}

/// Every tag spelling a real calendar date parses. Whatever the year, month
/// and day (as long as they name a real day), whichever of the two
/// separators stands at either position, and whatever content follows — the
/// empty string and embedded newlines included — parsing succeeds, the
/// deadline is exactly the date written, and the content is the remainder
/// trimmed at both ends.
pub proof fn lemma_tag_parses(y: int, m: int, d: int, s1: char, s2: char, content: Seq<char>)
    requires
        valid_ymd(y, m, d),
        is_sep(s1),
        is_sep(s2),
    ensures
        ({
            let s = spec_tag_chars(y, m, d, s1, s2) + content;
            &&& spec_parse_ok(s)
            &&& spec_year(s) == y
            &&& spec_month(s) == m
            &&& spec_day(s) == d
            &&& spec_content(s) == spec_trim(content)
        }),
{
    let s = spec_tag_chars(y, m, d, s1, s2) + content;
    lemma_digits4_value(y);
    lemma_digits2_value(m);
    lemma_digits2_value(d);
    lemma_digit_char_val(y / 1000);
    lemma_digit_char_val((y % 1000) / 100);
    lemma_digit_char_val((y % 100) / 10);
    lemma_digit_char_val(y % 10);
    lemma_digit_char_val(m / 10);
    lemma_digit_char_val(m % 10);
    lemma_digit_char_val(d / 10);
    lemma_digit_char_val(d % 10);
    lemma_ws_len_is(s, 0);
    lemma_digit_run_end_is(s, 1, 5);
    lemma_digit_run_end_is(s, 6, 8);
    lemma_digit_run_end_is(s, 9, 11);
    assert(tag_valid(s, 0));
    assert(s.skip(12) =~= content);
}

/// A field of the wrong width is rejected: when the digit run at the year,
/// month or day position is not exactly four, two or two digits long, the
/// buffer does not parse.
pub proof fn lemma_wrong_width_rejected(s: Seq<char>)
    requires
        ({
            let k: int = ws_len(s);
            ||| digit_run_end(s, k + 1) != k + 5
            ||| digit_run_end(s, k + 6) != k + 8
            ||| digit_run_end(s, k + 9) != k + 11
        }),
    ensures
        !spec_parse_ok(s),
{
}

/// Digits that do not name a real calendar day — a thirteenth month, a
/// thirtieth of February — are rejected, never clamped.
pub proof fn lemma_invalid_calendar_rejected(s: Seq<char>)
    requires
        ({
            let k: int = ws_len(s);
            !valid_ymd(date_y(s, k + 1), date_m(s, k + 1), date_d(s, k + 1))
        }),
    ensures
        !spec_parse_ok(s),
{
}

/// Without the opening bracket at the first non-whitespace position, or
/// without the closing bracket right after the day field, nothing parses.
pub proof fn lemma_missing_bracket_rejected(s: Seq<char>)
    requires
        ({
            let k: int = ws_len(s);
            ||| k >= s.len()
            ||| s[k] != '['
            ||| k + 11 >= s.len()
            ||| s[k + 11] != ']'
        }),
    ensures
        !spec_parse_ok(s),
{
}

} // verus!
