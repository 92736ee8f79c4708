//! Decisions of the `add` command: which way a new task comes into being,
//! and the default deadline computed from today's date and the configured
//! day count. The caller supplies today's date and performs the storage and
//! editor work decided here.
use vstd::prelude::*;

use crate::config::all_digits;
use crate::config::dec_val;
use crate::config::parse_deadline_days;
use crate::date::Date;
use crate::date::spec_add_days;

verus! {

/// How a new task is to be made.
#[derive(Debug)]
pub enum AddPlan {
    /// Neither deadline nor content was given: open the external editor on
    /// an empty task and store what comes back.
    EditThenStore,
    /// Both were given: store the task directly with this deadline and
    /// content.
    StoreDirect(Date, String),
    /// Only one of the two was given: do nothing.
    DoNothing,
}

/// The `add` decision: an editor session when nothing was supplied, a
/// direct store when both pieces were, and nothing otherwise.
pub fn plan_add(date: Option<Date>, content: Option<String>) -> (r: AddPlan)
    ensures
        date is None && content is None ==> r is EditThenStore,
        date is Some && content is Some ==> (r matches AddPlan::StoreDirect(d, c) && d
            == date.unwrap() && c@ == content.unwrap()@),
        (date is Some) != (content is Some) ==> r is DoNothing,
{
    match (date, content) {
        (Option::None, Option::None) => AddPlan::EditThenStore,
        (Option::Some(d), Option::Some(c)) => AddPlan::StoreDirect(d, c),
        _ => AddPlan::DoNothing,
    }
}

/// The default deadline: today plus the configured number of days. `None`
/// when the configured text is not a plain decimal day count, or when the
/// sum runs past the last representable day.
pub fn default_deadline(today: Date, days_text: &str) -> (r: Option<Date>)
    requires
        today.wf(),
    ensures
        r is Some <==> ({
            &&& days_text@.len() > 0
            &&& all_digits(days_text@)
            &&& dec_val(days_text@) <= u64::MAX
            &&& spec_add_days(today, dec_val(days_text@) as nat) is Some
        }),
        r matches Some(d) ==> Some(d) == spec_add_days(today, dec_val(days_text@) as nat)
            && d.wf(),
{
    match parse_deadline_days(days_text) {
        Some(n) => today.add_days(n),
        None => None,
    }
}

} // verus!
