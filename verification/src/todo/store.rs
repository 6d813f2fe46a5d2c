//! What the task store writes: the column assignments of an update, the
//! routine columns of a new task, progress clamping, and picking requested
//! roots out of a built forest.
use vstd::prelude::*;

use super::dto::{NewTodo, PriorityUpdate, TodoUpdate, TodoWithSubtasks};
use crate::json::opt_view;

verus! {

/// One column assignment of an update. `None` writes SQL `NULL`.
#[derive(Debug, Clone, PartialEq, Eq)]
pub enum SetClause {
    Title(String),
    Description(String),
    DueDate(Option<String>),
    /// The due-reminder flag goes back to 0, so that a new due date is reminded.
    ResetDueReminder,
    StartDate(Option<String>),
    Priority(Option<String>),
    Status(String),
}

/// The view of an assignment: a column name and the value written (`None` for `NULL`).
pub open spec fn clause_view(c: SetClause) -> (Seq<char>, Option<Seq<char>>) {
    match c {
        SetClause::Title(s) => ("title"@, Some(s@)),
        SetClause::Description(s) => ("description"@, Some(s@)),
        SetClause::DueDate(d) => ("due_date"@, opt_view(d)),
        SetClause::ResetDueReminder => ("due_reminded"@, Some("0"@)),
        SetClause::StartDate(d) => ("start_date"@, opt_view(d)),
        SetClause::Priority(p) => ("priority"@, opt_view(p)),
        SetClause::Status(s) => ("status"@, Some(s@)),
    }
}

pub open spec fn clauses_view(cs: Seq<SetClause>) -> Seq<(Seq<char>, Option<Seq<char>>)> {
    cs.map_values(|c: SetClause| clause_view(c))
}

/// `NULL` for the empty string, the string otherwise.
pub open spec fn empty_to_null(s: Seq<char>) -> Option<Seq<char>> {
    if s.len() == 0 {
        None
    } else {
        Some(s)
    }
}

pub open spec fn one_if<T>(b: bool, x: T) -> Seq<T> {
    if b {
        seq![x]
    } else {
        seq![]
    }
}

/// The assignments of an update, in column order: title, description, due
/// date (with the reminder reset), start date, priority, status. An empty
/// date clears it.
pub open spec fn update_clauses_spec(u: TodoUpdate) -> Seq<(Seq<char>, Option<Seq<char>>)> {
    let title = match u.title {
        Some(t) => seq![("title"@, Some(t@))],
        None => seq![],
    };
    let desc = match u.description {
        Some(d) => seq![("description"@, Some(d@))],
        None => seq![],
    };
    let due = match u.due_date {
        Some(d) => seq![("due_date"@, empty_to_null(d@)), ("due_reminded"@, Some("0"@))],
        None => seq![],
    };
    let start = match u.start_date {
        Some(d) => seq![("start_date"@, empty_to_null(d@))],
        None => seq![],
    };
    let prio = match u.priority@ {
        Some(p) => seq![("priority"@, p)],
        None => seq![],
    };
    let status = match u.status {
        Some(s) => seq![("status"@, Some(s@))],
        None => seq![],
    };
    title + desc + due + start + prio + status
}

fn text_or_null(s: String) -> (r: Option<String>)
    ensures
        opt_view(r) == empty_to_null(s@),
{
    let cs = crate::text::chars_of(s.as_str());
    if cs.len() == 0 {
        None
    } else {
        Some(s)
    }
}

/// The assignments that an update makes (`TodoRepo::update`); empty when the
/// update names no field, in which case nothing is written.
pub fn update_clauses(u: TodoUpdate) -> (r: Vec<SetClause>)
    ensures
        clauses_view(r@) == update_clauses_spec(u),
{
    let ghost uv = u;
    let mut out: Vec<SetClause> = Vec::new();
    let ghost mut acc: Seq<(Seq<char>, Option<Seq<char>>)> = seq![];
    match u.title {
        Some(t) => {
            out.push(SetClause::Title(t));
        },
        None => {},
    }
    proof {
        acc = match uv.title {
            Some(t) => seq![("title"@, Some(t@))],
            None => seq![],
        };
        assert(clauses_view(out@) =~= acc);
    }
    match u.description {
        Some(d) => {
            out.push(SetClause::Description(d));
        },
        None => {},
    }
    proof {
        acc = acc + match uv.description {
            Some(d) => seq![("description"@, Some(d@))],
            None => seq![],
        };
        assert(clauses_view(out@) =~= acc);
    }
    match u.due_date {
        Some(d) => {
            out.push(SetClause::DueDate(text_or_null(d)));
            out.push(SetClause::ResetDueReminder);
        },
        None => {},
    }
    proof {
        acc = acc + match uv.due_date {
            Some(d) => seq![("due_date"@, empty_to_null(d@)), ("due_reminded"@, Some("0"@))],
            None => seq![],
        };
        assert(clauses_view(out@) =~= acc);
    }
    match u.start_date {
        Some(d) => {
            out.push(SetClause::StartDate(text_or_null(d)));
        },
        None => {},
    }
    proof {
        acc = acc + match uv.start_date {
            Some(d) => seq![("start_date"@, empty_to_null(d@))],
            None => seq![],
        };
        assert(clauses_view(out@) =~= acc);
    }
    match u.priority {
        PriorityUpdate::Unchanged => {},
        PriorityUpdate::Clear => {
            out.push(SetClause::Priority(None));
        },
        PriorityUpdate::SetTo(p) => {
            out.push(SetClause::Priority(Some(p)));
        },
    }
    proof {
        acc = acc + match uv.priority@ {
            Some(p) => seq![("priority"@, p)],
            None => seq![],
        };
        assert(clauses_view(out@) =~= acc);
    }
    match u.status {
        Some(s) => {
            out.push(SetClause::Status(s));
        },
        None => {},
    }
    proof {
        acc = acc + match uv.status {
            Some(s) => seq![("status"@, Some(s@))],
            None => seq![],
        };
        assert(clauses_view(out@) =~= acc);
        assert(acc =~= update_clauses_spec(uv));
    }
    out
}

/// The routine columns of a new task: a top-level task keeps its rule, end
/// date and count; a subtask (one whose parent was found) has none.
pub open spec fn routine_columns_spec(parent: Option<i64>, t: NewTodo) -> (Option<Seq<char>>, Option<Seq<char>>, Option<i64>) {
    match (parent, t.repeat_rule) {
        (None, Some(rule)) => (Some(rule@), opt_view(t.repeat_until), t.repeat_count),
        _ => (None, None, None),
    }
}

/// `TodoRepo::add`'s routine gate. `parent` is the parent id as found in the
/// caller's scope (`None` when absent or not found).
pub fn routine_columns(parent: Option<i64>, t: &NewTodo) -> (r: (Option<String>, Option<String>, Option<i64>))
    ensures
        (opt_view(r.0), opt_view(r.1), r.2) == routine_columns_spec(parent, *t),
{
    match (parent, &t.repeat_rule) {
        (None, Some(rule)) => (Some(rule.clone()), clone_opt(&t.repeat_until), t.repeat_count),
        _ => (None, None, None),
    }
}

fn clone_opt(s: &Option<String>) -> (r: Option<String>)
    ensures
        opt_view(r) == opt_view(*s),
{
    match s {
        Some(v) => Some(v.clone()),
        None => None,
    }
}

/// Progress as stored: clamped to 0..=100.
pub open spec fn clamp_progress_spec(p: int) -> int {
    if p < 0 {
        0
    } else if p > 100 {
        100
    } else {
        p
    }
}

pub fn clamp_progress(p: i64) -> (r: i64)
    ensures
        r == clamp_progress_spec(p as int),
{
    if p < 0 {
        0
    } else if p > 100 {
        100
    } else {
        p
    }
}

/// The status that goes with a stored progress: done at 100, open below.
pub open spec fn status_for_progress_spec(clamped: int) -> Seq<char> {
    if clamped >= 100 {
        "done"@
    } else {
        "open"@
    }
}

pub fn status_for_progress(clamped: i64) -> (r: &'static str)
    ensures
        r@ == status_for_progress_spec(clamped as int),
{
    if clamped >= 100 {
        "done"
    } else {
        "open"
    }
}

/// The position of the last entry of `ids` equal to `id`.
pub open spec fn last_pos(ids: Seq<i64>, id: i64) -> Option<int>
    decreases ids.len(),
{
    if ids.len() == 0 {
        None
    } else if ids.last() == id {
        Some(ids.len() - 1)
    } else {
        last_pos(ids.drop_last(), id)
    }
}

/// The positions of the requested roots among nodes with ids `node_ids`: for
/// each requested id in order, the last node with that id, once (a repeated
/// request yields nothing, as a node taken out of a map is gone).
pub open spec fn selected(node_ids: Seq<i64>, wanted: Seq<i64>) -> Seq<int>
    decreases wanted.len(),
{
    if wanted.len() == 0 {
        seq![]
    } else {
        let id = wanted.last();
        selected(node_ids, wanted.drop_last()) + if wanted.drop_last().contains(id) {
            seq![]
        } else {
            match last_pos(node_ids, id) {
                Some(k) => seq![k],
                None => seq![],
            }
        }
    }
}

proof fn lemma_last_pos(ids: Seq<i64>, id: i64)
    ensures
        match last_pos(ids, id) {
            Some(k) => 0 <= k < ids.len() && ids[k] == id && forall|m: int| k < m < ids.len() ==> ids[m] != id,
            None => forall|m: int| 0 <= m < ids.len() ==> ids[m] != id,
        },
    decreases ids.len(),
{
    if ids.len() > 0 {
        lemma_last_pos(ids.drop_last(), id);
        assert forall|m: int| 0 <= m < ids.len() - 1 implies ids.drop_last()[m] == ids[m] by {}
    }
}

fn find_last(ids: &Vec<i64>, id: i64) -> (r: Option<usize>)
    ensures
        match r {
            Some(k) => last_pos(ids@, id) == Some(k as int),
            None => last_pos(ids@, id) is None,
        },
{
    proof {
        lemma_last_pos(ids@, id);
    }
    let mut k = ids.len();
    while k > 0
        invariant
            k <= ids@.len(),
            forall|m: int| k <= m < ids@.len() ==> ids@[m] != id,
            match last_pos(ids@, id) {
                Some(p) => 0 <= p < ids@.len() && ids@[p] == id && forall|m: int| p < m < ids@.len() ==> ids@[m] != id,
                None => forall|m: int| 0 <= m < ids@.len() ==> ids@[m] != id,
            },
        decreases k,
    {
        if ids[k - 1] == id {
            return Some(k - 1);
        }
        k -= 1;
    }
    None
}

fn contains_id(ids: &Vec<i64>, n: usize, id: i64) -> (r: bool)
    requires
        n <= ids@.len(),
    ensures
        r == ids@.take(n as int).contains(id),
{
    let mut j: usize = 0;
    while j < n
        invariant
            n <= ids@.len(),
            j <= n,
            forall|m: int| 0 <= m < j ==> ids@[m] != id,
        decreases n - j,
    {
        if ids[j] == id {
            assert(ids@.take(n as int)[j as int] == id);
            return true;
        }
        j += 1;
    }
    false
}

/// Where the requested roots sit in a built forest whose nodes have the ids
/// `node_ids`, in request order (`TodoRepo::attach_subtasks`).
pub fn select_root_positions(node_ids: &Vec<i64>, wanted: &Vec<i64>) -> (r: Vec<usize>)
    ensures
        r@.len() == selected(node_ids@, wanted@).len(),
        forall|i: int| 0 <= i < r@.len() ==> #[trigger] r@[i] as int == selected(node_ids@, wanted@)[i],
{
    let mut out: Vec<usize> = Vec::new();
    let mut i: usize = 0;
    while i < wanted.len()
        invariant
            i <= wanted@.len(),
            out@.len() == selected(node_ids@, wanted@.take(i as int)).len(),
            forall|k: int| 0 <= k < out@.len() ==> #[trigger] out@[k] as int == selected(node_ids@, wanted@.take(i as int))[k],
        decreases wanted@.len() - i,
    {
        let id = wanted[i];
        proof {
            assert(wanted@.take(i + 1).drop_last() =~= wanted@.take(i as int));
            assert(wanted@.take(i + 1).last() == id);
        }
        let ghost before = out@;
        if !contains_id(wanted, i, id) {
            match find_last(node_ids, id) {
                Some(k) => out.push(k),
                None => {},
            }
        }
        proof {
            assert forall|k: int| 0 <= k < out@.len() implies #[trigger] out@[k] as int == selected(node_ids@, wanted@.take(i + 1))[k] by {
                if k < before.len() {
                    assert(out@[k] == before[k]);
                }
            }
        }
        i += 1;
    }
    proof {
        assert(wanted@.take(wanted@.len() as int) =~= wanted@);
    }
    out
}

/// Stored progress lies within 0 to 100, and a task counts as done exactly
/// when the progress given reaches 100.
pub proof fn lemma_progress_status(p: int)
    ensures
        0 <= clamp_progress_spec(p) <= 100,
        (status_for_progress_spec(clamp_progress_spec(p)) == "done"@) <==> p >= 100,
        p < 100 ==> status_for_progress_spec(clamp_progress_spec(p)) == "open"@,
{
    reveal_strlit("done");
    reveal_strlit("open");
    assert("done"@[0] != "open"@[0]);
}

/// Whether some assignment of `cs` writes column `col`.
pub open spec fn writes_column(cs: Seq<(Seq<char>, Option<Seq<char>>)>, col: Seq<char>) -> bool {
    exists|i: int| 0 <= i < cs.len() && #[trigger] cs[i].0 == col
}

/// An update writes exactly the fields it sends: a sent title, description
/// or status is written as sent, a sent date as sent (an empty one as
/// `NULL`) with the due reminder reset for a due date, a sent priority as
/// sent; a field left out is not written.
pub proof fn lemma_update_writes_sent_fields(u: TodoUpdate)
    ensures
        u.title matches Some(t) ==> update_clauses_spec(u).contains(("title"@, Some(t@))),
        u.title is None ==> !writes_column(update_clauses_spec(u), "title"@),
        u.description matches Some(d) ==> update_clauses_spec(u).contains(("description"@, Some(d@))),
        u.description is None ==> !writes_column(update_clauses_spec(u), "description"@),
        u.due_date matches Some(d) ==> update_clauses_spec(u).contains(
            ("due_date"@, if d@.len() == 0 { None } else { Some(d@) }),
        ) && update_clauses_spec(u).contains(("due_reminded"@, Some("0"@))),
        u.due_date is None ==> !writes_column(update_clauses_spec(u), "due_date"@) && !writes_column(
            update_clauses_spec(u),
            "due_reminded"@,
        ),
        u.start_date matches Some(d) ==> update_clauses_spec(u).contains(
            ("start_date"@, if d@.len() == 0 { None } else { Some(d@) }),
        ),
        u.start_date is None ==> !writes_column(update_clauses_spec(u), "start_date"@),
        u.priority@ matches Some(p) ==> update_clauses_spec(u).contains(("priority"@, p)),
        u.priority@ is None ==> !writes_column(update_clauses_spec(u), "priority"@),
        u.status matches Some(st) ==> update_clauses_spec(u).contains(("status"@, Some(st@))),
        u.status is None ==> !writes_column(update_clauses_spec(u), "status"@),
{
    reveal_strlit("title");
    reveal_strlit("description");
    reveal_strlit("due_date");
    reveal_strlit("due_reminded");
    reveal_strlit("start_date");
    reveal_strlit("priority");
    reveal_strlit("status");
    let title = match u.title {
        Some(t) => seq![("title"@, Some(t@))],
        None => seq![],
    };
    let desc = match u.description {
        Some(d) => seq![("description"@, Some(d@))],
        None => seq![],
    };
    let due = match u.due_date {
        Some(d) => seq![("due_date"@, empty_to_null(d@)), ("due_reminded"@, Some("0"@))],
        None => seq![],
    };
    let start = match u.start_date {
        Some(d) => seq![("start_date"@, empty_to_null(d@))],
        None => seq![],
    };
    let prio = match u.priority@ {
        Some(p) => seq![("priority"@, p)],
        None => seq![],
    };
    let status = match u.status {
        Some(s) => seq![("status"@, Some(s@))],
        None => seq![],
    };
    let s1 = title + desc;
    let s2 = s1 + due;
    let s3 = s2 + start;
    let s4 = s3 + prio;
    assert(update_clauses_spec(u) == s4 + status);
    let cols = seq!["title"@, "description"@, "due_date"@, "due_reminded"@, "start_date"@, "priority"@, "status"@];
    assert forall|k: int| 0 <= k < cols.len() implies {
        &&& writes_column(s1, #[trigger] cols[k]) == (writes_column(title, cols[k]) || writes_column(desc, cols[k]))
        &&& writes_column(s2, cols[k]) == (writes_column(s1, cols[k]) || writes_column(due, cols[k]))
        &&& writes_column(s3, cols[k]) == (writes_column(s2, cols[k]) || writes_column(start, cols[k]))
        &&& writes_column(s4, cols[k]) == (writes_column(s3, cols[k]) || writes_column(prio, cols[k]))
        &&& writes_column(s4 + status, cols[k]) == (writes_column(s4, cols[k]) || writes_column(status, cols[k]))
    } by {
        lemma_writes_concat(title, desc, cols[k]);
        lemma_writes_concat(s1, due, cols[k]);
        lemma_writes_concat(s2, start, cols[k]);
        lemma_writes_concat(s3, prio, cols[k]);
        lemma_writes_concat(s4, status, cols[k]);
    }
    assert(cols[0] == "title"@ && cols[1] == "description"@ && cols[2] == "due_date"@ && cols[3] == "due_reminded"@
        && cols[4] == "start_date"@ && cols[5] == "priority"@ && cols[6] == "status"@);
    lemma_contains_concat(title, desc);
    lemma_contains_concat(s1, due);
    lemma_contains_concat(s2, start);
    lemma_contains_concat(s3, prio);
    lemma_contains_concat(s4, status);
    assert("title"@.len() == 5 && "description"@.len() == 11 && "due_date"@.len() == 8
        && "due_reminded"@.len() == 12 && "start_date"@.len() == 10 && "priority"@.len() == 8
        && "status"@.len() == 6);
    assert("due_date"@[0] != "priority"@[0]);
    assert forall|k: int| 0 <= k < cols.len() implies {
        &&& writes_column(title, #[trigger] cols[k]) == (u.title is Some && cols[k] == "title"@)
        &&& writes_column(desc, cols[k]) == (u.description is Some && cols[k] == "description"@)
        &&& writes_column(due, cols[k]) == (u.due_date is Some && (cols[k] == "due_date"@ || cols[k] == "due_reminded"@))
        &&& writes_column(start, cols[k]) == (u.start_date is Some && cols[k] == "start_date"@)
        &&& writes_column(prio, cols[k]) == (u.priority@ is Some && cols[k] == "priority"@)
        &&& writes_column(status, cols[k]) == (u.status is Some && cols[k] == "status"@)
    } by {
        if writes_column(due, cols[k]) {
            let i = choose|i: int| 0 <= i < due.len() && #[trigger] due[i].0 == cols[k];
        }
        if u.due_date is Some && cols[k] == "due_reminded"@ {
            assert(due[1].0 == cols[k]);
        }
        if u.due_date is Some && cols[k] == "due_date"@ {
            assert(due[0].0 == cols[k]);
        }
        if u.title is Some {
            assert(title[0].0 == "title"@);
        }
        if u.description is Some {
            assert(desc[0].0 == "description"@);
        }
        if u.start_date is Some {
            assert(start[0].0 == "start_date"@);
        }
        if u.priority@ is Some {
            assert(prio[0].0 == "priority"@);
        }
        if u.status is Some {
            assert(status[0].0 == "status"@);
        }
    }
    if u.title is Some {
        assert(title.contains(title[0]));
    }
    if u.description is Some {
        assert(desc.contains(desc[0]));
    }
    if u.due_date is Some {
        assert(due.contains(due[0]));
        assert(due.contains(due[1]));
    }
    if u.start_date is Some {
        assert(start.contains(start[0]));
    }
    if u.priority@ is Some {
        assert(prio.contains(prio[0]));
    }
    if u.status is Some {
        assert(status.contains(status[0]));
    }
}

/// A column is written by a concatenation when one of the parts writes it.
proof fn lemma_writes_concat(a: Seq<(Seq<char>, Option<Seq<char>>)>, b: Seq<(Seq<char>, Option<Seq<char>>)>, col: Seq<char>)
    ensures
        writes_column(a + b, col) == (writes_column(a, col) || writes_column(b, col)),
{
    if writes_column(a + b, col) {
        let i = choose|i: int| 0 <= i < (a + b).len() && #[trigger] (a + b)[i].0 == col;
        if i < a.len() {
            assert(a[i] == (a + b)[i]);
        } else {
            assert(b[i - a.len()] == (a + b)[i]);
        }
    }
    if writes_column(a, col) {
        let i = choose|i: int| 0 <= i < a.len() && #[trigger] a[i].0 == col;
        assert((a + b)[i] == a[i]);
    }
    if writes_column(b, col) {
        let i = choose|i: int| 0 <= i < b.len() && #[trigger] b[i].0 == col;
        assert((a + b)[a.len() + i] == b[i]);
    }
}

/// What a part of a concatenation holds, the concatenation holds.
proof fn lemma_contains_concat<T>(a: Seq<T>, b: Seq<T>)
    ensures
        forall|x: T| #[trigger] a.contains(x) ==> (a + b).contains(x),
        forall|x: T| #[trigger] b.contains(x) ==> (a + b).contains(x),
{
    assert forall|x: T| #[trigger] a.contains(x) implies (a + b).contains(x) by {
        let i = choose|i: int| 0 <= i < a.len() && a[i] == x;
        assert((a + b)[i] == x);
    }
    assert forall|x: T| #[trigger] b.contains(x) implies (a + b).contains(x) by {
        let i = choose|i: int| 0 <= i < b.len() && b[i] == x;
        assert((a + b)[a.len() + i] == x);
    }
}

} // verus!
