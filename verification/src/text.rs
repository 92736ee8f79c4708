//! Character-level vocabulary shared by the date-tag scanner, the task-text
//! parser and the renderer: character classes, leading/trailing whitespace
//! runs, trimming, digit runs and line splitting, all specified over
//! `Seq<char>`.
use vstd::prelude::*;

verus! {

/// Whitespace as the parser understands it: space, tab, carriage return and
/// newline.
pub open spec fn is_space(c: char) -> bool {
    c == ' ' || c == '\t' || c == '\r' || c == '\n'
}

/// An ASCII decimal digit.
pub open spec fn is_digit(c: char) -> bool {
    '0' <= c && c <= '9'
}

/// The numeric value of an ASCII decimal digit.
pub open spec fn digit_val(c: char) -> int {
    c as int - '0' as int
}

/// The digit character for a value between 0 and 9.
pub open spec fn spec_digit_char(v: int) -> char {
    if v == 0 {
        '0'
    } else if v == 1 {
        '1'
    } else if v == 2 {
        '2'
    } else if v == 3 {
        '3'
    } else if v == 4 {
        '4'
    } else if v == 5 {
        '5'
    } else if v == 6 {
        '6'
    } else if v == 7 {
        '7'
    } else if v == 8 {
        '8'
    } else {
        '9'
    }
}

pub proof fn lemma_digit_char_val(v: int)
    requires
        0 <= v <= 9,
    ensures
        is_digit(spec_digit_char(v)),
        digit_val(spec_digit_char(v)) == v,
        !is_space(spec_digit_char(v)),
{
}

/// Length of the longest all-whitespace prefix of `s`.
pub open spec fn ws_len(s: Seq<char>) -> int
    decreases s.len(),
{
    if s.len() == 0 || !is_space(s[0]) {
        0
    } else {
        1 + ws_len(s.skip(1))
    }
}

pub proof fn lemma_ws_len(s: Seq<char>)
    ensures
        0 <= ws_len(s) <= s.len(),
        forall|j: int| 0 <= j < ws_len(s) ==> is_space(s[j]),
        ws_len(s) < s.len() ==> !is_space(s[ws_len(s)]),
    decreases s.len(),
{
    if s.len() == 0 || !is_space(s[0]) {
    } else {
        lemma_ws_len(s.skip(1));
        assert forall|j: int| 0 <= j < ws_len(s) implies is_space(s[j]) by {
            if j > 0 {
                assert(s.skip(1)[j - 1] == s[j]);
            }
        }
        if ws_len(s) < s.len() {
            assert(s.skip(1)[ws_len(s) - 1] == s[ws_len(s)]);
        }
    }
}

/// The whitespace prefix length is the unique boundary with all spaces before
/// it and a non-space (or the end) at it.
pub proof fn lemma_ws_len_is(s: Seq<char>, i: int)
    requires
        0 <= i <= s.len(),
        forall|j: int| 0 <= j < i ==> is_space(s[j]),
        i < s.len() ==> !is_space(s[i]),
    ensures
        ws_len(s) == i,
{
    lemma_ws_len(s);
}

/// Length of the longest all-whitespace suffix of `s`.
pub open spec fn ws_len_end(s: Seq<char>) -> int
    decreases s.len(),
{
    if s.len() == 0 || !is_space(s[s.len() - 1]) {
        0
    } else {
        1 + ws_len_end(s.take(s.len() - 1))
    }
}

pub proof fn lemma_ws_len_end(s: Seq<char>)
    ensures
        0 <= ws_len_end(s) <= s.len(),
        forall|j: int| s.len() - ws_len_end(s) <= j < s.len() ==> is_space(s[j]),
        ws_len_end(s) < s.len() ==> !is_space(s[s.len() - 1 - ws_len_end(s)]),
    decreases s.len(),
{
    if s.len() == 0 || !is_space(s[s.len() - 1]) {
    } else {
        let t = s.take(s.len() - 1);
        lemma_ws_len_end(t);
        assert forall|j: int| s.len() - ws_len_end(s) <= j < s.len() implies is_space(s[j]) by {
            if j < s.len() - 1 {
                assert(t[j] == s[j]);
            }
        }
        if ws_len_end(s) < s.len() {
            assert(t[s.len() - 1 - ws_len_end(s)] == s[s.len() - 1 - ws_len_end(s)]);
        }
    }
}

pub proof fn lemma_ws_len_end_is(s: Seq<char>, i: int)
    requires
        0 <= i <= s.len(),
        forall|j: int| s.len() - i <= j < s.len() ==> is_space(s[j]),
        i < s.len() ==> !is_space(s[s.len() - 1 - i]),
    ensures
        ws_len_end(s) == i,
{
    lemma_ws_len_end(s);
    if ws_len_end(s) < i {
        assert(is_space(s[s.len() - 1 - ws_len_end(s)]));
    } else if ws_len_end(s) > i {
        assert(is_space(s[s.len() - 1 - i]));
    }
}

/// `s` with whitespace stripped from both ends; internal characters are kept
/// verbatim.
pub open spec fn spec_trim(s: Seq<char>) -> Seq<char> {
    if ws_len(s) == s.len() {
        Seq::empty()
    } else {
        s.subrange(ws_len(s), s.len() - ws_len_end(s))
    }
}

/// A newline prepended to a text disappears under trimming: the newline is
/// whitespace at the edge, and the rest trims as before.
pub proof fn lemma_trim_after_newline(c: Seq<char>)
    ensures
        spec_trim(seq!['\n'].add(c)) == spec_trim(c),
{
    let t = seq!['\n'].add(c);
    assert(t.skip(1) =~= c);
    assert(ws_len(t) == 1 + ws_len(c));
    lemma_ws_len(c);
    if ws_len(c) == c.len() {
        assert(ws_len(t) == t.len());
        assert(spec_trim(t) =~= spec_trim(c));
    } else {
        lemma_ws_len_end(c);
        assert(ws_len_end(c) <= c.len() - 1 - ws_len(c));
        assert forall|j: int| t.len() - ws_len_end(c) <= j < t.len() implies is_space(t[j]) by {
            assert(t[j] == c[j - 1]);
        }
        assert(t[t.len() - 1 - ws_len_end(c)] == c[c.len() - 1 - ws_len_end(c)]);
        lemma_ws_len_end_is(t, ws_len_end(c));
        assert(spec_trim(t) =~= spec_trim(c));
    }
}

/// End of the run of digits beginning at `i`: the first position at or after
/// `i` that is not a digit.
pub open spec fn digit_run_end(s: Seq<char>, i: int) -> int
    decreases s.len() - i,
{
    if !(0 <= i < s.len()) || !is_digit(s[i]) {
        i
    } else {
        digit_run_end(s, i + 1)
    }
}

pub proof fn lemma_digit_run_end(s: Seq<char>, i: int)
    requires
        0 <= i <= s.len(),
    ensures
        i <= digit_run_end(s, i) <= s.len(),
        forall|j: int| i <= j < digit_run_end(s, i) ==> is_digit(s[j]),
        digit_run_end(s, i) < s.len() ==> !is_digit(s[digit_run_end(s, i)]),
    decreases s.len() - i,
{
    if !(i < s.len()) || !is_digit(s[i]) {
    } else {
        lemma_digit_run_end(s, i + 1);
    }
}

/// The digit-run end is the unique boundary with digits before it (back to
/// `i`) and a non-digit (or the end) at it.
pub proof fn lemma_digit_run_end_is(s: Seq<char>, i: int, e: int)
    requires
        0 <= i <= e <= s.len(),
        forall|j: int| i <= j < e ==> is_digit(s[j]),
        e < s.len() ==> !is_digit(s[e]),
    ensures
        digit_run_end(s, i) == e,
{
    lemma_digit_run_end(s, i);
    if digit_run_end(s, i) < e {
        assert(is_digit(s[digit_run_end(s, i)]));
    } else if digit_run_end(s, i) > e {
        assert(is_digit(s[e]));
    }
}

/// The lines of `s`, split at `'\n'`; the separators are not part of any
/// line, and there is always at least one (possibly empty) line.
pub open spec fn spec_lines(s: Seq<char>) -> Seq<Seq<char>>
    decreases s.len(),
{
    if s.len() == 0 {
        seq![Seq::empty()]
    } else if s[0] == '\n' {
        seq![Seq::empty()].add(spec_lines(s.skip(1)))
    } else {
        let rest = spec_lines(s.skip(1));
        seq![seq![s[0]].add(rest[0])].add(rest.skip(1))
    }
}

/// Length of the first line of `s`: the index of the first `'\n'`, or the
/// whole length when there is none.
pub open spec fn line_len(s: Seq<char>) -> int
    decreases s.len(),
{
    if s.len() == 0 || s[0] == '\n' {
        0
    } else {
        1 + line_len(s.skip(1))
    }
}

pub proof fn lemma_line_len(s: Seq<char>)
    ensures
        0 <= line_len(s) <= s.len(),
        forall|j: int| 0 <= j < line_len(s) ==> s[j] != '\n',
        line_len(s) < s.len() ==> s[line_len(s)] == '\n',
    decreases s.len(),
{
    if s.len() == 0 || s[0] == '\n' {
    } else {
        lemma_line_len(s.skip(1));
        assert forall|j: int| 0 <= j < line_len(s) implies s[j] != '\n' by {
            if j > 0 {
                assert(s.skip(1)[j - 1] == s[j]);
            }
        }
        if line_len(s) < s.len() {
            assert(s.skip(1)[line_len(s) - 1] == s[line_len(s)]);
        }
    }
}

pub proof fn lemma_line_len_is(s: Seq<char>, i: int)
    requires
        0 <= i <= s.len(),
        forall|j: int| 0 <= j < i ==> s[j] != '\n',
        i < s.len() ==> s[i] == '\n',
    ensures
        line_len(s) == i,
{
    lemma_line_len(s);
    if line_len(s) < i {
        assert(s[line_len(s)] != '\n');
    } else if line_len(s) > i {
        assert(s[i] != '\n');
    }
}

/// `spec_lines` peels off exactly the first line: the first entry is the text
/// up to the first newline, and the remaining entries are the lines of the
/// text after it.
pub proof fn lemma_lines_peel(s: Seq<char>)
    ensures
        spec_lines(s).len() >= 1,
        line_len(s) == s.len() ==> spec_lines(s) == seq![s],
        line_len(s) < s.len() ==> spec_lines(s) == seq![s.take(line_len(s))].add(
            spec_lines(s.skip(line_len(s) + 1)),
        ),
    decreases s.len(),
{
    lemma_line_len(s);
    if s.len() == 0 {
        assert(s =~= Seq::<char>::empty());
        assert(spec_lines(s) =~= seq![s]);
    } else if s[0] == '\n' {
        lemma_lines_peel(s.skip(1));
        assert(s.take(0) =~= Seq::<char>::empty());
        assert(spec_lines(s) =~= seq![s.take(line_len(s))].add(spec_lines(s.skip(line_len(s) + 1))));
    } else {
        let t = s.skip(1);
        lemma_lines_peel(t);
        lemma_line_len(t);
        let rest = spec_lines(t);
        if line_len(t) == t.len() {
            assert(line_len(s) == s.len());
            assert(rest == seq![t]);
            assert(spec_lines(s) == seq![seq![s[0]].add(rest[0])].add(rest.skip(1)));
            assert(seq![s[0]].add(rest[0]) =~= s);
            assert(rest.skip(1) =~= Seq::<Seq<char>>::empty());
            assert(spec_lines(s) =~= seq![s]);
        } else {
            assert(rest == seq![t.take(line_len(t))].add(spec_lines(t.skip(line_len(t) + 1))));
            assert(seq![s[0]].add(rest[0]) =~= s.take(line_len(s)));
            assert(t.skip(line_len(t) + 1) =~= s.skip(line_len(s) + 1));
            assert(rest.skip(1) =~= spec_lines(s.skip(line_len(s) + 1)));
            assert(spec_lines(s) =~= seq![s.take(line_len(s))].add(
                spec_lines(s.skip(line_len(s) + 1)),
            ));
        }
    }
}

/// Exec check for the parser's whitespace class.
pub fn is_space_char(c: char) -> (r: bool)
    ensures
        r == is_space(c),
{
    c == ' ' || c == '\t' || c == '\r' || c == '\n'
}

/// Exec check for an ASCII decimal digit.
pub fn is_digit_char(c: char) -> (r: bool)
    ensures
        r == is_digit(c),
{
    '0' <= c && c <= '9'
}

/// Numeric value of a digit character.
pub fn digit_value(c: char) -> (v: u8)
    requires
        is_digit(c),
    ensures
        v as int == digit_val(c),
        v <= 9,
{
    (c as u32 - '0' as u32) as u8
}

} // verus!
