//! The structured task: a calendar deadline plus free-text content, with the
//! identity/category/completion attributes that the storage layer may attach.
use vstd::prelude::*;

use crate::date::Date;

verus! {

#[derive(Debug)]
pub struct Task {
    pub id: i64,
    pub deadline: Date,
    pub content: String,
    pub category: Option<String>,
    pub done: bool,
}

impl Task {
    /// A freshly parsed or entered task: the given deadline and content, the
    /// given identity or zero when none is assigned yet, no category, not
    /// done.
    pub fn new(id: Option<i64>, deadline: Date, content: &str) -> (t: Task)
        ensures
            t.id == (match id {
                Some(i) => i,
                None => 0,
            }),
            t.deadline == deadline,
            t.content@ == content@,
            t.category is None,
            t.done == false,
    {
        Task {
            id: match id {
                Some(i) => i,
                None => 0,
            },
            deadline,
            content: String::from_str(content),
            category: None,
            done: false,
        }
    }
}

impl PartialEq for Task {
    fn eq(&self, other: &Task) -> (r: bool) {
        self.id == other.id && self.deadline == other.deadline && self.content == other.content
            && (match (&self.category, &other.category) {
            (Option::None, Option::None) => true,
            (Option::Some(a), Option::Some(b)) => *a == *b,
            _ => false,
        }) && self.done == other.done
    }
}

impl vstd::std_specs::cmp::PartialEqSpecImpl for Task {
    open spec fn obeys_eq_spec() -> bool {
        true
    }

    open spec fn eq_spec(&self, other: &Task) -> bool {
        &&& self.id == other.id
        &&& self.deadline == other.deadline
        &&& self.content@ == other.content@
        &&& (match (self.category, other.category) {
            (Option::None, Option::None) => true,
            (Option::Some(a), Option::Some(b)) => a@ == b@,
            _ => false,
        })
        &&& self.done == other.done
    }
}

} // verus!
