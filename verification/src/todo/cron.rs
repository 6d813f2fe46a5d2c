//! The rows that the scheduled jobs read across all users: tasks coming due
//! for a reminder, and routines whose due date has passed.
use vstd::prelude::*;

use crate::num::{digits_of, format_u64};
use crate::text::push_str;

verus! {

/// An open task whose due date is near and that was not reminded yet.
#[derive(Debug, Clone)]
pub struct DueTodo {
    pub id: i64,
    pub user_id: String,
    pub bot_id: String,
    pub title: String,
    pub due_date: Option<String>,
}

/// A repeating task whose due date has passed.
#[derive(Debug, Clone)]
pub struct OverdueRoutine {
    pub id: i64,
    pub user_id: String,
    pub title: String,
    pub due_date: Option<String>,
    pub repeat_rule: Option<String>,
    pub repeat_until: Option<String>,
    pub repeat_count: Option<i64>,
}

/// The date modifier of the reminder window: `+N hours`, where a negative
/// `hours` counts as 0.
pub fn due_window(hours: i64) -> (r: String)
    ensures
        r@ == "+"@ + digits_of(if hours < 0 {
            0nat
        } else {
            hours as nat
        }) + " hours"@,
{
    let n: u64 = if hours < 0 {
        0
    } else {
        hours as u64
    };
    let mut r = "+".to_owned();
    let d = format_u64(n);
    push_str(&mut r, d.as_str());
    push_str(&mut r, " hours");
    r
}

} // verus!
