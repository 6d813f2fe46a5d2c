//! The decisions of the assistant's task tools.
//!
//! Each tool reads its arguments, checks them, and either refuses with a
//! message for the model (`Err`) or says what the data layer is to do.
//! Reading and writing the store happens around these functions.
use vstd::prelude::*;

use super::args::{
    arg_i64, arg_i64_spec, arg_raw_str, arg_raw_str_spec, arg_str, arg_str_spec,
    is_valid_cron_basic, is_valid_cron_basic_spec, normalize_priority, priority_of_json,
    priority_of_str,
};
use super::dto::{NewTodo, PriorityUpdate, TodoUpdate, TodoWithSubtasks};
use super::replies::{progress_from_subtasks_message, progress_from_subtasks_spec};
use super::tags::{
    as_items, merge_tags, normalize_tags, normalize_tags_spec, remove_tags, tags_fold, without,
};
use crate::json::{get, get_spec, opt_view, strs_view, JsonValue};
use crate::text::{push_str, str_eq};

verus! {

pub open spec fn msg_title_missing() -> Seq<char> {
    "タイトルを指定してください。"@
}

pub open spec fn msg_bad_cron() -> Seq<char> {
    "repeat_rule は cron式（分 時 日 月 曜日。例 '0 9 * * 1'=毎週月曜）で指定してください。"@
}

pub open spec fn msg_routine_needs_due() -> Seq<char> {
    "ルーチンタスクには初回の due_date（期日）も指定してください。"@
}

/// The positive floor of the number under `key` (`repeat_count`).
pub open spec fn arg_count_spec(args: JsonValue, key: Seq<char>) -> Option<i64> {
    match get_spec(args, key) {
        Some(JsonValue::Number(n)) => n.floor_positive,
        _ => None,
    }
}

/// The canonical priority under `key`, unset when absent or unknown.
pub open spec fn arg_priority_spec(args: JsonValue, key: Seq<char>) -> Option<Seq<char>> {
    match get_spec(args, key) {
        Some(v) => priority_of_json(v),
        None => None,
    }
}

/// `addTodo` accepts `args` and creates the task `t`.
pub open spec fn add_todo_ok(args: JsonValue, t: NewTodo) -> bool {
    let rule = arg_str_spec(args, "repeat_rule"@);
    &&& arg_str_spec(args, "title"@) == Some(t.title@)
    &&& opt_view(t.description) == arg_str_spec(args, "description"@)
    &&& opt_view(t.due_date) == arg_str_spec(args, "due_date"@)
    &&& opt_view(t.start_date) == arg_str_spec(args, "start_date"@)
    &&& opt_view(t.priority) == arg_priority_spec(args, "priority"@)
    &&& t.tags@.len() == 0
    &&& t.parent_id is None
    &&& opt_view(t.repeat_rule) == rule
    &&& opt_view(t.repeat_until) == (if rule is Some {
        arg_str_spec(args, "repeat_until"@)
    } else {
        None
    })
    &&& t.repeat_count == (if rule is Some {
        arg_count_spec(args, "repeat_count"@)
    } else {
        None
    })
}

/// The refusal of `addTodo`, if any: a title is required; a routine needs a
/// five-field rule and a first due date.
pub open spec fn add_todo_refusal(args: JsonValue) -> Option<Seq<char>> {
    match arg_str_spec(args, "title"@) {
        None => Some(msg_title_missing()),
        Some(_) => match arg_str_spec(args, "repeat_rule"@) {
            Some(rule) => if !is_valid_cron_basic_spec(rule) {
                Some(msg_bad_cron())
            } else if arg_str_spec(args, "due_date"@) is None {
                Some(msg_routine_needs_due())
            } else {
                None
            },
            None => None,
        },
    }
}

/// `addTodo`: the task to create, or the refusal.
pub fn plan_add_todo(args: &JsonValue) -> (r: Result<NewTodo, String>)
    ensures
        match r {
            Ok(t) => add_todo_refusal(*args) is None && add_todo_ok(*args, t),
            Err(m) => add_todo_refusal(*args) == Some(m@),
        },
{
    let title = match arg_str(args, "title") {
        Some(t) => t,
        None => return Err("タイトルを指定してください。".to_owned()),
    };
    let repeat_rule = arg_str(args, "repeat_rule");
    let due_date = arg_str(args, "due_date");
    match &repeat_rule {
        Some(rule) => {
            if !is_valid_cron_basic(rule.as_str()) {
                return Err(
                    "repeat_rule は cron式（分 時 日 月 曜日。例 '0 9 * * 1'=毎週月曜）で指定してください。".to_owned(),
                );
            }
            if due_date.is_none() {
                return Err("ルーチンタスクには初回の due_date（期日）も指定してください。".to_owned());
            }
        },
        None => {},
    }
    let repeat_count = match get(args, "repeat_count") {
        Some(JsonValue::Number(n)) => n.floor_positive,
        _ => None,
    };
    let priority = match get(args, "priority") {
        Some(v) => normalize_priority(v),
        None => None,
    };
    let (repeat_until, repeat_count) = if repeat_rule.is_some() {
        (arg_str(args, "repeat_until"), repeat_count)
    } else {
        (None, None)
    };
    Ok(NewTodo {
        title,
        description: arg_str(args, "description"),
        due_date,
        start_date: arg_str(args, "start_date"),
        priority,
        tags: Vec::new(),
        parent_id: None,
        repeat_rule,
        repeat_until,
        repeat_count,
    })
}

/// The status filter of `listTodos`: `"all"` lifts it, `"done"` keeps done
/// tasks, anything else (absent too) keeps open ones.
pub open spec fn list_status_spec(args: JsonValue) -> Option<Seq<char>> {
    match arg_str_spec(args, "status"@) {
        Some(s) => if s == "all"@ {
            None
        } else if s == "done"@ {
            Some("done"@)
        } else {
            Some("open"@)
        },
        None => Some("open"@),
    }
}

pub fn list_status_arg(args: &JsonValue) -> (r: Option<String>)
    ensures
        opt_view(r) == list_status_spec(*args),
{
    match arg_str(args, "status") {
        Some(s) => if str_eq(s.as_str(), "all") {
            None
        } else if str_eq(s.as_str(), "done") {
            Some("done".to_owned())
        } else {
            Some("open".to_owned())
        },
        None => Some("open".to_owned()),
    }
}

/// The status filter of `listTasksByTag`, read from the untrimmed string.
pub open spec fn group_status_spec(args: JsonValue) -> Option<Seq<char>> {
    match get_spec(args, "status"@) {
        Some(JsonValue::Str(s)) => if s@ == "done"@ {
            Some("done"@)
        } else if s@ == "all"@ {
            None
        } else {
            Some("open"@)
        },
        _ => Some("open"@),
    }
}

pub fn group_status_arg(args: &JsonValue) -> (r: Option<String>)
    ensures
        opt_view(r) == group_status_spec(*args),
{
    match get(args, "status") {
        Some(JsonValue::Str(s)) => if str_eq(s.as_str(), "done") {
            Some("done".to_owned())
        } else if str_eq(s.as_str(), "all") {
            None
        } else {
            Some("open".to_owned())
        },
        _ => Some("open".to_owned()),
    }
}

pub open spec fn msg_todo_id_missing() -> Seq<char> {
    "todo_id を指定してください。"@
}

pub open spec fn msg_bad_priority() -> Seq<char> {
    "優先度は 'high' | 'medium' | 'low' のいずれかで指定してください。"@
}

pub open spec fn msg_nothing_to_update() -> Seq<char> {
    "変更する項目を1つ以上指定してください。"@
}

/// The status of `updateTodo`: `"open"` or `"done"` only.
pub open spec fn update_status_spec(args: JsonValue) -> Option<Seq<char>> {
    match arg_str_spec(args, "status"@) {
        Some(s) => if s == "open"@ || s == "done"@ {
            Some(s)
        } else {
            None
        },
        None => None,
    }
}

/// The refusal of `updateTodo`, if any: an id is required, a given priority
/// must be known, and at least one field must be given.
pub open spec fn update_todo_refusal(args: JsonValue) -> Option<Seq<char>> {
    if arg_i64_spec(args, "todo_id"@) is None {
        Some(msg_todo_id_missing())
    } else if arg_str_spec(args, "priority"@) is Some && priority_of_str(
        arg_str_spec(args, "priority"@)->0,
    ) is None {
        Some(msg_bad_priority())
    } else if arg_str_spec(args, "title"@) is None && arg_str_spec(args, "description"@) is None
        && arg_raw_str_spec(args, "due_date"@) is None && arg_raw_str_spec(args, "start_date"@) is None
        && arg_str_spec(args, "priority"@) is None && update_status_spec(args) is None {
        Some(msg_nothing_to_update())
    } else {
        None
    }
}

/// `updateTodo` accepts `args` as the update `u`.
pub open spec fn update_todo_ok(args: JsonValue, u: TodoUpdate) -> bool {
    &&& Some(u.id) == arg_i64_spec(args, "todo_id"@)
    &&& opt_view(u.title) == arg_str_spec(args, "title"@)
    &&& opt_view(u.description) == arg_str_spec(args, "description"@)
    &&& opt_view(u.due_date) == arg_raw_str_spec(args, "due_date"@)
    &&& opt_view(u.start_date) == arg_raw_str_spec(args, "start_date"@)
    &&& u.priority@ == match arg_str_spec(args, "priority"@) {
        Some(p) => Some(priority_of_str(p)),
        None => None,
    }
    &&& opt_view(u.status) == update_status_spec(args)
}

/// `updateTodo`: the update to apply, or the refusal. An empty `due_date` or
/// `start_date` is kept: it clears the field.
pub fn plan_update_todo(args: &JsonValue) -> (r: Result<TodoUpdate, String>)
    ensures
        match r {
            Ok(u) => update_todo_refusal(*args) is None && update_todo_ok(*args, u),
            Err(m) => update_todo_refusal(*args) == Some(m@),
        },
{
    let todo_id = match arg_i64(args, "todo_id") {
        Some(id) => id,
        None => return Err("todo_id を指定してください。".to_owned()),
    };
    let status = match arg_str(args, "status") {
        Some(s) => if str_eq(s.as_str(), "open") || str_eq(s.as_str(), "done") {
            Some(s)
        } else {
            None
        },
        None => None,
    };
    let priority_arg = arg_str(args, "priority");
    let priority = match &priority_arg {
        Some(p) => match super::args::normalize_priority_str(p.as_str()) {
            Some(valid) => PriorityUpdate::SetTo(valid),
            None => {
                return Err(
                    "優先度は 'high' | 'medium' | 'low' のいずれかで指定してください。".to_owned(),
                );
            },
        },
        None => PriorityUpdate::Unchanged,
    };
    let title = arg_str(args, "title");
    let description = arg_str(args, "description");
    let due_date = arg_raw_str(args, "due_date");
    let start_date = arg_raw_str(args, "start_date");
    if title.is_none() && description.is_none() && due_date.is_none() && start_date.is_none()
        && priority_arg.is_none() && status.is_none() {
        return Err("変更する項目を1つ以上指定してください。".to_owned());
    }
    Ok(TodoUpdate { id: todo_id, title, description, due_date, start_date, priority, status })
}


/// The three ways `editTodoTags` edits a tag list.
#[derive(Debug, Clone, Copy, PartialEq, Eq)]
pub enum TagMode {
    /// Replace the list.
    Replace,
    /// Add to the list.
    Add,
    /// Take tags out of the list.
    Remove,
}

/// A checked `editTodoTags` request.
#[derive(Debug)]
pub struct TagEdit {
    pub todo_id: i64,
    pub mode: TagMode,
    /// The normalised tags of the request.
    pub tags: Vec<String>,
}

pub open spec fn msg_todo_id_missing_hash() -> Seq<char> {
    "todo_id（#番号）を指定してください。"@
}

pub open spec fn msg_bad_mode() -> Seq<char> {
    "mode は 'set' | 'add' | 'remove' のいずれかで指定してください。"@
}

/// The mode that `args` names: `set` (the default), `add` or `remove`.
pub open spec fn tag_mode_spec(args: JsonValue) -> Option<TagMode> {
    match arg_str_spec(args, "mode"@) {
        None => Some(TagMode::Replace),
        Some(m) => if m == "set"@ {
            Some(TagMode::Replace)
        } else if m == "add"@ {
            Some(TagMode::Add)
        } else if m == "remove"@ {
            Some(TagMode::Remove)
        } else {
            None
        },
    }
}

/// The tags argument of `editTodoTags`, normalised.
pub open spec fn edit_tags_input(args: JsonValue) -> Seq<Seq<char>> {
    match get_spec(args, "tags"@) {
        Some(v) => normalize_tags_spec(v),
        None => seq![],
    }
}

/// The refusal of `editTodoTags`, if any: an id is required, the mode must be
/// known, and adding or removing needs at least one tag.
pub open spec fn edit_tags_refusal(args: JsonValue) -> Option<Seq<char>> {
    if arg_i64_spec(args, "todo_id"@) is None {
        Some(msg_todo_id_missing_hash())
    } else if tag_mode_spec(args) is None {
        Some(msg_bad_mode())
    } else if tag_mode_spec(args) != Some(TagMode::Replace) && edit_tags_input(args).len() == 0 {
        Some(arg_str_spec(args, "mode"@)->0 + " には tags を1つ以上指定してください。"@)
    } else {
        None
    }
}

/// `editTodoTags`: the checked request, or the refusal.
pub fn plan_edit_tags(args: &JsonValue) -> (r: Result<TagEdit, String>)
    ensures
        match r {
            Ok(e) => {
                &&& edit_tags_refusal(*args) is None
                &&& Some(e.todo_id) == arg_i64_spec(*args, "todo_id"@)
                &&& Some(e.mode) == tag_mode_spec(*args)
                &&& strs_view(e.tags@) == edit_tags_input(*args)
            },
            Err(m) => edit_tags_refusal(*args) == Some(m@),
        },
{
    let todo_id = match arg_i64(args, "todo_id") {
        Some(id) => id,
        None => return Err("todo_id（#番号）を指定してください。".to_owned()),
    };
    let mode_arg = arg_str(args, "mode");
    let mode = match &mode_arg {
        None => TagMode::Replace,
        Some(m) => if str_eq(m.as_str(), "set") {
            TagMode::Replace
        } else if str_eq(m.as_str(), "add") {
            TagMode::Add
        } else if str_eq(m.as_str(), "remove") {
            TagMode::Remove
        } else {
            return Err("mode は 'set' | 'add' | 'remove' のいずれかで指定してください。".to_owned());
        },
    };
    let tags = match get(args, "tags") {
        Some(v) => normalize_tags(v),
        None => {
            let v: Vec<String> = Vec::new();
            proof {
                assert(strs_view(v@) =~= Seq::<Seq<char>>::empty());
            }
            v
        },
    };
    let needs_tags = match mode {
        TagMode::Replace => false,
        _ => true,
    };
    if needs_tags && tags.len() == 0 {
        match mode_arg {
            Some(m) => {
                let mut msg = m;
                push_str(&mut msg, " には tags を1つ以上指定してください。");
                return Err(msg);
            },
            None => {},
        }
    }
    Ok(TagEdit { todo_id, mode, tags })
}

/// The tag list after an edit of `current` with the normalised `input`.
pub open spec fn edited_tags(mode: TagMode, current: Seq<Seq<char>>, input: Seq<Seq<char>>) -> Seq<Seq<char>> {
    match mode {
        TagMode::Replace => input,
        TagMode::Add => tags_fold(as_items(current + input)),
        TagMode::Remove => without(current, input),
    }
}

/// Applies a tag edit: replace with `input`, add `input` (renormalised), or
/// take out the tags of `input`.
pub fn apply_tag_edit(mode: TagMode, current: &Vec<String>, input: Vec<String>) -> (r: Vec<String>)
    ensures
        strs_view(r@) == edited_tags(mode, strs_view(current@), strs_view(input@)),
{
    match mode {
        TagMode::Replace => input,
        TagMode::Add => merge_tags(current, &input),
        TagMode::Remove => remove_tags(current, &input),
    }
}

/// The progress argument of `updateTaskProgress`: a JSON number, truncated.
pub open spec fn progress_arg_spec(args: JsonValue) -> Option<i64> {
    match get_spec(args, "progress"@) {
        Some(JsonValue::Number(n)) => Some(n.truncated),
        _ => None,
    }
}

pub open spec fn msg_progress_args() -> Seq<char> {
    "todo_id と progress（0〜100の数値）を指定してください。"@
}

/// `updateTaskProgress`: the task id and reported progress, or the refusal.
pub fn plan_task_progress(args: &JsonValue) -> (r: Result<(i64, i64), String>)
    ensures
        match r {
            Ok((id, p)) => arg_i64_spec(*args, "todo_id"@) == Some(id) && progress_arg_spec(*args)
                == Some(p),
            Err(m) => (arg_i64_spec(*args, "todo_id"@) is None || progress_arg_spec(*args) is None)
                && m@ == msg_progress_args(),
        },
{
    let progress = match get(args, "progress") {
        Some(JsonValue::Number(n)) => Some(n.truncated),
        _ => None,
    };
    match (arg_i64(args, "todo_id"), progress) {
        (Some(id), Some(p)) => Ok((id, p)),
        _ => Err("todo_id と progress（0〜100の数値）を指定してください。".to_owned()),
    }
}

pub open spec fn msg_subtask_title_missing() -> Seq<char> {
    "サブタスクのタイトルを指定してください。"@
}

/// `addSubtask`: the parent id to look up (absent when not given), or the
/// refusal when the title is missing.
pub fn plan_add_subtask(args: &JsonValue) -> (r: Result<Option<i64>, String>)
    ensures
        match r {
            Ok(p) => arg_str_spec(*args, "title"@) is Some && p == arg_i64_spec(*args, "parent_todo_id"@),
            Err(m) => arg_str_spec(*args, "title"@) is None && m@ == msg_subtask_title_missing(),
        },
{
    if arg_str(args, "title").is_none() {
        return Err("サブタスクのタイトルを指定してください。".to_owned());
    }
    Ok(arg_i64(args, "parent_todo_id"))
}

/// The subtask that `addSubtask` creates under the parent `parent_id`: no
/// priority, no tags, no routine.
pub fn new_subtask(args: &JsonValue, parent_id: i64) -> (t: NewTodo)
    requires
        arg_str_spec(*args, "title"@) is Some,
    ensures
        arg_str_spec(*args, "title"@) == Some(t.title@),
        opt_view(t.description) == arg_str_spec(*args, "description"@),
        opt_view(t.due_date) == arg_str_spec(*args, "due_date"@),
        opt_view(t.start_date) == arg_str_spec(*args, "start_date"@),
        t.priority is None,
        t.tags@.len() == 0,
        t.parent_id == Some(parent_id),
        t.repeat_rule is None,
        t.repeat_until is None,
        t.repeat_count is None,
{
    let title = match arg_str(args, "title") {
        Some(t) => t,
        None => "".to_owned(),
    };
    NewTodo {
        title,
        description: arg_str(args, "description"),
        due_date: arg_str(args, "due_date"),
        start_date: arg_str(args, "start_date"),
        priority: None,
        tags: Vec::new(),
        parent_id: Some(parent_id),
        repeat_rule: None,
        repeat_until: None,
        repeat_count: None,
    }
}

/// The number of tasks among `nodes` whose status is `"done"`.
pub open spec fn done_count(nodes: Seq<TodoWithSubtasks>) -> nat
    decreases nodes.len(),
{
    if nodes.len() == 0 {
        0
    } else {
        done_count(nodes.drop_last()) + if nodes.last().status@ == "done"@ {
            1nat
        } else {
            0nat
        }
    }
}

/// How many of the subtasks `nodes` are done.
pub fn count_done(nodes: &Vec<TodoWithSubtasks>) -> (r: usize)
    ensures
        r == done_count(nodes@),
{
    let mut c: usize = 0;
    let mut i: usize = 0;
    while i < nodes.len()
        invariant
            i <= nodes@.len(),
            c == done_count(nodes@.take(i as int)),
            c <= i,
        decreases nodes@.len() - i,
    {
        proof {
            assert(nodes@.take(i + 1).drop_last() =~= nodes@.take(i as int));
        }
        if str_eq(nodes[i].status.as_str(), "done") {
            c += 1;
        }
        i += 1;
    }
    proof {
        assert(nodes@.take(nodes@.len() as int) =~= nodes@);
    }
    c
}

/// `updateTaskProgress` sets progress only on a task without subtasks: a
/// parent's progress follows its subtasks, so the request is refused with
/// the count of subtasks done.
pub fn check_progress_leaf(todo_id: i64, title: &str, subtasks: &Vec<TodoWithSubtasks>) -> (r: Result<(), String>)
    ensures
        r is Ok <==> subtasks@.len() == 0,
        r matches Err(m) ==> m@ == progress_from_subtasks_spec(
            todo_id,
            title@,
            subtasks@.len(),
            done_count(subtasks@),
        ),
{
    if subtasks.len() == 0 {
        Ok(())
    } else {
        let done = count_done(subtasks);
        Err(progress_from_subtasks_message(todo_id, title, subtasks.len(), done))
    }
}

} // verus!
