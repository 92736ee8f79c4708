//! Configuration as the rest of the library consumes it: plain string
//! values. Loading the values from a file or the environment is the
//! caller's business; the one piece of configuration the core interprets —
//! the default deadline, a count of days written in decimal — is parsed
//! here.
use vstd::prelude::*;

use crate::text::digit_val;
use crate::text::digit_value;
use crate::text::is_digit;
use crate::text::is_digit_char;

verus! {

/// The task-tracker section of the configuration.
#[derive(Debug)]
pub struct Kondo {
    /// Default deadline, in days from today, written in decimal.
    pub default_deadline: String,
    /// Program name or path of the external editor.
    pub editor: String,
}

/// The whole configuration.
#[derive(Debug)]
pub struct Configuration {
    pub kondo: Kondo,
}

/// Every character is a decimal digit.
pub open spec fn all_digits(s: Seq<char>) -> bool {
    forall|j: int| 0 <= j < s.len() ==> is_digit(s[j])
}

/// The value of a digit string read in decimal.
pub open spec fn dec_val(s: Seq<char>) -> int
    decreases s.len(),
{
    if s.len() == 0 {
        0
    } else {
        10 * dec_val(s.take(s.len() - 1)) + digit_val(s.last())
    }
}

pub proof fn lemma_dec_val_nonneg(s: Seq<char>)
    requires
        all_digits(s),
    ensures
        dec_val(s) >= 0,
    decreases s.len(),
{
    if s.len() > 0 {
        let front = s.take(s.len() - 1);
        assert(forall|j: int| 0 <= j < front.len() ==> front[j] == s[j]);
        lemma_dec_val_nonneg(front);
    }
}

/// Reading more digits never shrinks the value: the value of a prefix is at
/// most the value of the whole string.
pub proof fn lemma_dec_val_prefix(s: Seq<char>, i: int)
    requires
        all_digits(s),
        0 <= i <= s.len(),
    ensures
        dec_val(s.take(i)) <= dec_val(s),
    decreases s.len(),
{
    if i == s.len() {
        assert(s.take(i) =~= s);
    } else {
        let front = s.take(s.len() - 1);
        assert(forall|j: int| 0 <= j < front.len() ==> front[j] == s[j]);
        lemma_dec_val_prefix(front, i);
        assert(front.take(i) =~= s.take(i));
        lemma_dec_val_nonneg(front);
    }
}

proof fn lemma_no_overflow_step(acc: int, d: int)
    requires
        0 <= d <= 9,
        0 <= acc <= (u64::MAX - d) / 10,
    ensures
        10 * acc + d <= u64::MAX,
{
    assert(10 * acc + d <= u64::MAX) by (nonlinear_arith)
        requires
            0 <= d <= 9,
            0 <= acc <= (u64::MAX - d) / 10,
    ;
}

proof fn lemma_overflow_step(acc: int, d: int)
    requires
        0 <= d <= 9,
        acc > (u64::MAX - d) / 10,
    ensures
        10 * acc + d > u64::MAX,
{
    assert(10 * acc + d > u64::MAX) by (nonlinear_arith)
        requires
            0 <= d <= 9,
            acc > (u64::MAX - d) / 10,
    ;
}

/// Reads the configured default deadline: a non-empty string of decimal
/// digits whose value fits in a machine word. Anything else — empty, a
/// stray character, a value too large — is rejected.
pub fn parse_deadline_days(s: &str) -> (r: Option<u64>)
    ensures
        r is Some <==> s@.len() > 0 && all_digits(s@) && dec_val(s@) <= u64::MAX,
        r matches Some(v) ==> v as int == dec_val(s@),
{
    let n: usize = s.unicode_len();
    if n == 0 {
        return None;
    }
    let mut acc: u64 = 0;
    let mut i: usize = 0;
    while i < n
        invariant
            n == s@.len(),
            i <= n,
            all_digits(s@.take(i as int)),
            acc as int == dec_val(s@.take(i as int)),
        decreases n - i,
    {
        let c = s.get_char(i);
        if !is_digit_char(c) {
            return None;
        }
        let d: u64 = digit_value(c) as u64;
        proof {
            assert(s@.take(i + 1).take(i as int) =~= s@.take(i as int));
            assert(s@.take(i + 1).last() == s@[i as int]);
        }
        if acc > (u64::MAX - d) / 10 {
            proof {
                lemma_overflow_step(acc as int, d as int);
                if all_digits(s@) {
                    lemma_dec_val_prefix(s@, i + 1);
                }
            }
            return None;
        }
        proof {
            lemma_no_overflow_step(acc as int, d as int);
        }
        acc = acc * 10 + d;
        i = i + 1;
    }
    proof {
        assert(s@.take(n as int) =~= s@);
    }
    Some(acc)
}

} // verus!
