//! The decisions behind the task list view: what each key does, and the
//! exact lines of text a task is shown as. Drawing, styling and terminal
//! handling belong to the caller; this module fixes the content it shows.
use vstd::prelude::*;

use crate::date::Date;
use crate::date::format_date;
use crate::date::spec_date_chars;
use crate::task::Task;
use crate::text::lemma_line_len_is;
use crate::text::lemma_lines_peel;
use crate::text::line_len;
use crate::text::spec_lines;

verus! {

/// A key press as the list view understands it.
#[derive(Clone, Copy, PartialEq, Eq, Structural, Debug)]
pub enum UiKey {
    Down,
    Up,
    Char(char),
    Esc,
    Other,
}

/// What the list view does in answer to a key.
#[derive(Clone, Copy, PartialEq, Eq, Structural, Debug)]
pub enum UiAction {
    ScrollDown,
    ScrollUp,
    Toggle,
    Exit,
    Ignore,
}

/// The key table of the list view: arrows scroll, space toggles, escape
/// leaves; only presses count, and every other key does nothing.
pub open spec fn spec_key_action(is_press: bool, key: UiKey) -> UiAction {
    if !is_press {
        UiAction::Ignore
    } else {
        match key {
            UiKey::Down => UiAction::ScrollDown,
            UiKey::Up => UiAction::ScrollUp,
            UiKey::Char(c) => if c == ' ' {
                UiAction::Toggle
            } else {
                UiAction::Ignore
            },
            UiKey::Esc => UiAction::Exit,
            UiKey::Other => UiAction::Ignore,
        }
    }
}

pub fn key_action(is_press: bool, key: UiKey) -> (a: UiAction)
    ensures
        a == spec_key_action(is_press, key),
{
    if !is_press {
        return UiAction::Ignore;
    }
    match key {
        UiKey::Down => UiAction::ScrollDown,
        UiKey::Up => UiAction::ScrollUp,
        UiKey::Char(c) => if c == ' ' {
            UiAction::Toggle
        } else {
            UiAction::Ignore
        },
        UiKey::Esc => UiAction::Exit,
        UiKey::Other => UiAction::Ignore,
    }
}

/// The rule line drawn between a task's deadline and its content.
pub open spec fn spec_separator_line() -> Seq<char> {
    "---------------------"@
}

/// The lines a task is listed as: its deadline, a rule, then the content
/// split at newlines — blank lines preserved, one entry per line.
pub fn task_display_lines(t: &Task) -> (v: Vec<String>)
    requires
        t.deadline.wf(),
    ensures
        v@.len() == 2 + spec_lines(t.content@).len(),
        v@[0]@ == spec_date_chars(
            t.deadline.year as int,
            t.deadline.month as int,
            t.deadline.day as int,
        ),
        v@[1]@ == spec_separator_line(),
        forall|j: int|
            0 <= j < spec_lines(t.content@).len() ==> v@[j + 2]@ == spec_lines(t.content@)[j],
{
    let ghost cl = spec_lines(t.content@);
    let mut v: Vec<String> = Vec::new();
    v.push(format_date(&t.deadline));
    v.push(String::from_str("---------------------"));
    let content = t.content.as_str();
    let n: usize = content.unicode_len();
    let mut p: usize = 0;
    let mut finished: bool = false;
    proof {
        lemma_lines_peel(t.content@);
        assert(cl.skip(0) =~= cl);
        assert(t.content@.skip(0) =~= t.content@);
    }
    while !finished
        invariant
            content@ == t.content@,
            n == t.content@.len(),
            p <= n,
            v@.len() >= 2,
            v@[0]@ == spec_date_chars(
                t.deadline.year as int,
                t.deadline.month as int,
                t.deadline.day as int,
            ),
            v@[1]@ == spec_separator_line(),
            v@.len() - 2 <= cl.len(),
            forall|j: int| 0 <= j < v@.len() - 2 ==> v@[j + 2]@ == cl[j],
            !finished ==> cl.skip(v@.len() - 2) == spec_lines(t.content@.skip(p as int)),
            finished ==> v@.len() - 2 == cl.len(),
        decreases n - p + (if finished { 0int } else { 1int }),
    {
        let ghost rest = t.content@.skip(p as int);
        let mut q: usize = p;
        while q < n && content.get_char(q) != '\n'
            invariant
                content@ == t.content@,
                n == t.content@.len(),
                p <= q <= n,
                forall|j: int| p <= j < q ==> t.content@[j] != '\n',
            decreases n - q,
        {
            q = q + 1;
        }
        proof {
            assert forall|j: int| 0 <= j < q - p implies rest[j] != '\n' by {
                assert(rest[j] == t.content@[p + j]);
            }
            if (q as int) < n {
                assert(rest[q - p] == t.content@[q as int]);
            }
            lemma_line_len_is(rest, q - p);
            lemma_lines_peel(rest);
        }
        let line = content.substring_char(p, q);
        let ghost old_count: int = v@.len() - 2;
        v.push(String::from_str(line));
        proof {
            assert(line@ =~= rest.take(q - p));
            assert(cl[old_count] == cl.skip(old_count)[0]);
            assert(v@.len() - 2 == old_count + 1);
        }
        if q < n {
            proof {
                assert(rest.skip(q - p + 1) =~= t.content@.skip(q + 1));
                assert(cl.skip(old_count + 1) =~= cl.skip(old_count).skip(1));
                assert(spec_lines(rest).skip(1) =~= spec_lines(t.content@.skip(q + 1)));
            }
            p = q + 1;
        } else {
            finished = true;
            proof {
                assert(rest.take(q - p) =~= rest);
                assert(spec_lines(rest) == seq![rest]);
                assert(cl.skip(old_count).len() == 1);
                assert(v@.len() - 2 == cl.len());
            }
        }
    }
    v
}

} // verus!
