//! The checks and query readings of the task routes (`/api/tasks/*`).
use vstd::prelude::*;

use crate::text::{chars_of, is_blank, str_eq, trim};
use crate::timeline::plan::validation_message;
use crate::web::auth::WebError;

verus! {

/// The status filter of a task listing: `"pending"` lists open tasks,
/// `"done"` finished ones, anything else all of them.
pub open spec fn list_status_spec(status: Option<Seq<char>>) -> Option<Seq<char>> {
    match status {
        Some(s) => if s == "pending"@ {
            Some("open"@)
        } else if s == "done"@ {
            Some("done"@)
        } else {
            None
        },
        None => None,
    }
}

/// The status filter of a task listing (`?status=`).
pub fn list_status_filter(status: Option<&str>) -> (r: Option<String>)
    ensures
        crate::json::opt_view(r) == list_status_spec(
            match status {
                Some(s) => Some(s@),
                None => None,
            },
        ),
{
    match status {
        Some(s) => if str_eq(s, "pending") {
            Some("open".to_owned())
        } else if str_eq(s, "done") {
            Some("done".to_owned())
        } else {
            None
        },
        None => None,
    }
}

/// The tag filter of a task listing (`?tag=`): ignored when empty.
pub fn tag_filter(tag: Option<String>) -> (r: Option<String>)
    ensures
        r == match tag {
            Some(t) => if t@.len() > 0 {
                Some(t)
            } else {
                None::<String>
            },
            None => None,
        },
{
    match tag {
        Some(t) => if chars_of(t.as_str()).len() > 0 {
            Some(t)
        } else {
            None
        },
        None => None,
    }
}

/// Checks a new task (`POST /api/tasks/add`): its title must be non-blank.
pub fn check_new_todo(title: &str) -> (r: Result<(), WebError>)
    ensures
        r is Ok <==> trim(title@).len() > 0,
        r is Err ==> validation_message(r) == Some("title is required"@),
{
    if is_blank(title) {
        return Err(WebError::Validation("title is required".to_owned()));
    }
    Ok(())
}

/// Checks the id of a task update (`POST /api/tasks/update`): `0` (or a
/// missing id) is refused.
pub fn check_update_id(id: i64) -> (r: Result<(), WebError>)
    ensures
        r is Ok <==> id != 0,
        r is Err ==> validation_message(r) == Some("id is required"@),
{
    if id == 0 {
        return Err(WebError::Validation("id is required".to_owned()));
    }
    Ok(())
}

/// Checks a progress update (`POST /api/tasks/progress`) before the store is
/// asked: `0` (or a missing id) is refused.
pub fn check_progress_id(id: i64) -> (r: Result<(), WebError>)
    ensures
        r is Ok <==> id != 0,
        r is Err ==> validation_message(r) == Some("id and progress are required"@),
{
    if id == 0 {
        return Err(WebError::Validation("id and progress are required".to_owned()));
    }
    Ok(())
}

/// A task with subtasks takes its progress from them: a manual progress
/// update of it is refused with `409`.
pub fn check_progress_target(has_subtasks: bool) -> (r: Result<(), WebError>)
    ensures
        r is Ok <==> !has_subtasks,
        r is Err ==> r == Err::<(), WebError>(WebError::Conflict),
{
    if has_subtasks {
        return Err(WebError::Conflict);
    }
    Ok(())
}

} // verus!
