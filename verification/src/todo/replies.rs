//! What the assistant's task tools answer once the store has done its part:
//! the message of each outcome, built from the task and the counts involved.
use vstd::prelude::*;

use super::args::{due_label, due_label_spec, priority_label, priority_label_spec};
use super::tally::TagGroup;
use crate::num::{decimal_of, digits_of, format_i64, format_u64};
use crate::text::{copy_str, push_str};

verus! {

/// `parts` joined with `sep` between neighbours.
pub open spec fn joined(parts: Seq<Seq<char>>, sep: Seq<char>) -> Seq<char>
    decreases parts.len(),
{
    if parts.len() == 0 {
        seq![]
    } else if parts.len() == 1 {
        parts[0]
    } else {
        joined(parts.drop_last(), sep) + sep + parts.last()
    }
}

/// Appends the decimal text of `n`.
fn push_i64(s: &mut String, n: i64)
    ensures
        final(s)@ == old(s)@ + decimal_of(n as int),
{
    let d = format_i64(n);
    push_str(s, d.as_str());
}

/// Appends the decimal text of `n`.
fn push_count(s: &mut String, n: usize)
    ensures
        final(s)@ == old(s)@ + digits_of(n as nat),
{
    let d = format_u64(n as u64);
    push_str(s, d.as_str());
}

/// `addTodo`: the task was added, with its id and priority.
pub fn added_message(title: &str, id: i64, priority: Option<&str>) -> (r: String)
    ensures
        r@ == "ToDo「"@ + title@ + "」を追加しました (ID: #"@ + decimal_of(id as int) + "、優先度: "@
            + priority_label_spec(match priority {
            Some(p) => Some(p@),
            None => None,
        }) + ")。タグはバックグラウンドで自動付与されます。"@,
{
    let mut r = "ToDo「".to_owned();
    push_str(&mut r, title);
    push_str(&mut r, "」を追加しました (ID: #");
    push_i64(&mut r, id);
    push_str(&mut r, "、優先度: ");
    push_str(&mut r, priority_label(priority));
    push_str(&mut r, ")。タグはバックグラウンドで自動付与されます。");
    r
}

/// `listTodos`: how many top-level tasks were found, and under which tag.
pub fn list_message(count: usize, tag: Option<&str>) -> (r: String)
    ensures
        count == 0 ==> r@ == match tag {
            Some(t) => "タグ「"@ + t@ + "」のToDoはありません。listTodoTags で存在するタグを確認できます。"@,
            None => "該当するToDoはありません。"@,
        },
        count > 0 ==> r@ == "ToDo一覧 (親タスク "@ + digits_of(count as nat) + "件"@ + match tag {
            Some(t) => "、タグ: "@ + t@,
            None => ""@,
        } + ")"@,
{
    if count == 0 {
        match tag {
            Some(t) => {
                let mut r = "タグ「".to_owned();
                push_str(&mut r, t);
                push_str(&mut r, "」のToDoはありません。listTodoTags で存在するタグを確認できます。");
                r
            },
            None => "該当するToDoはありません。".to_owned(),
        }
    } else {
        let mut r = "ToDo一覧 (親タスク ".to_owned();
        push_count(&mut r, count);
        push_str(&mut r, "件");
        let ghost head = r@;
        if let Some(t) = tag {
            push_str(&mut r, "、タグ: ");
            push_str(&mut r, t);
        } else {
            proof {
                reveal_strlit("");
                assert(r@ =~= head + ""@);
            }
        }
        push_str(&mut r, ")");
        r
    }
}

/// "ToDo「title」(#id)": how the messages name a task.
pub open spec fn todo_named(title: Seq<char>, id: i64) -> Seq<char> {
    "ToDo「"@ + title + "」(#"@ + decimal_of(id as int) + ")"@
}

/// "タスク「title」(#id)": how the progress messages name a task.
pub open spec fn task_named(title: Seq<char>, id: i64) -> Seq<char> {
    "タスク「"@ + title + "」(#"@ + decimal_of(id as int) + ")"@
}

fn push_todo_named(s: &mut String, title: &str, id: i64)
    ensures
        final(s)@ == old(s)@ + todo_named(title@, id),
{
    push_str(s, "ToDo「");
    push_str(s, title);
    push_str(s, "」(#");
    push_i64(s, id);
    push_str(s, ")");
}

fn push_task_named(s: &mut String, title: &str, id: i64)
    ensures
        final(s)@ == old(s)@ + task_named(title@, id),
{
    push_str(s, "タスク「");
    push_str(s, title);
    push_str(s, "」(#");
    push_i64(s, id);
    push_str(s, ")");
}

/// `completeTodo`: the task is done.
pub fn completed_message(title: &str, id: i64) -> (r: String)
    ensures
        r@ == todo_named(title@, id) + " を完了にしました✅"@,
{
    let mut r = String::new();
    push_todo_named(&mut r, title, id);
    push_str(&mut r, " を完了にしました✅");
    r
}

/// `updateTodo`: the task was changed.
pub fn updated_message(title: &str, id: i64) -> (r: String)
    ensures
        r@ == todo_named(title@, id) + " を更新しました📝"@,
{
    let mut r = String::new();
    push_todo_named(&mut r, title, id);
    push_str(&mut r, " を更新しました📝");
    r
}

/// No task `id` in scope (`completeTodo`, `deleteTodo`, `updateTodo`).
pub fn todo_missing_message(id: i64) -> (r: String)
    ensures
        r@ == "ToDo #"@ + decimal_of(id as int) + " が見つかりません。"@,
{
    let mut r = "ToDo #".to_owned();
    push_i64(&mut r, id);
    push_str(&mut r, " が見つかりません。");
    r
}

/// `deleteTodo`: the task was removed.
pub fn removed_message(id: i64) -> (r: String)
    ensures
        r@ == "ToDo #"@ + decimal_of(id as int) + " を削除しました🗑️"@,
{
    let mut r = "ToDo #".to_owned();
    push_i64(&mut r, id);
    push_str(&mut r, " を削除しました🗑️");
    r
}

/// No task `id` in scope (the progress, detail, tag and routine tools).
pub fn task_missing_message(id: i64) -> (r: String)
    ensures
        r@ == "タスク #"@ + decimal_of(id as int) + " が見つかりません。"@,
{
    let mut r = "タスク #".to_owned();
    push_i64(&mut r, id);
    push_str(&mut r, " が見つかりません。");
    r
}

/// `addSubtask`: no parent task; `shown` is the argument as the caller gave it.
pub fn parent_missing_message(shown: &str) -> (r: String)
    ensures
        r@ == "親タスク #"@ + shown@ + " が見つかりません。"@,
{
    let mut r = "親タスク #".to_owned();
    push_str(&mut r, shown);
    push_str(&mut r, " が見つかりません。");
    r
}

/// `addSubtask`: the subtask was added under `parent`, with its due note and
/// how many of the parent's subtasks are done.
pub fn subtask_added_message(
    title: &str,
    id: i64,
    parent: i64,
    due_date: Option<&str>,
    done: usize,
    total: usize,
) -> (r: String)
    ensures
        r@ == "サブタスク「"@ + title@ + "」(#"@ + decimal_of(id as int) + ") を タスク#"@
            + decimal_of(parent as int) + " に追加しました。"@ + due_label_spec(match due_date {
            Some(d) => Some(d@),
            None => None,
        }) + "（このタスクのサブタスク: "@ + digits_of(done as nat) + "/"@ + digits_of(total as nat)
            + " 完了）"@,
{
    let mut r = "サブタスク「".to_owned();
    push_str(&mut r, title);
    push_str(&mut r, "」(#");
    push_i64(&mut r, id);
    push_str(&mut r, ") を タスク#");
    push_i64(&mut r, parent);
    push_str(&mut r, " に追加しました。");
    let due = due_label(due_date);
    push_str(&mut r, due.as_str());
    push_str(&mut r, "（このタスクのサブタスク: ");
    push_count(&mut r, done);
    push_str(&mut r, "/");
    push_count(&mut r, total);
    push_str(&mut r, " 完了）");
    r
}

/// The refusal of `updateTaskProgress` on a parent: its progress follows its
/// `total` subtasks, of which `done` are done.
pub open spec fn progress_from_subtasks_spec(id: i64, title: Seq<char>, total: nat, done: nat) -> Seq<char> {
    "タスク#"@ + decimal_of(id as int) + "「"@ + title + "」はサブタスクを "@ + digits_of(total)
        + " 件持つため、進捗は『完了サブタスク数/全体』(現在 "@ + digits_of(done) + "/"@ + digits_of(total)
        + ") で自動算出されます。該当サブタスクを完了/進捗更新してください。"@
}

/// `updateTaskProgress` on a parent: its progress follows its subtasks.
pub fn progress_from_subtasks_message(id: i64, title: &str, total: usize, done: usize) -> (r: String)
    ensures
        r@ == progress_from_subtasks_spec(id, title@, total as nat, done as nat),
{
    let mut r = "タスク#".to_owned();
    push_i64(&mut r, id);
    push_str(&mut r, "「");
    push_str(&mut r, title);
    push_str(&mut r, "」はサブタスクを ");
    push_count(&mut r, total);
    push_str(&mut r, " 件持つため、進捗は『完了サブタスク数/全体』(現在 ");
    push_count(&mut r, done);
    push_str(&mut r, "/");
    push_count(&mut r, total);
    push_str(&mut r, ") で自動算出されます。該当サブタスクを完了/進捗更新してください。");
    r
}

/// `updateTaskProgress`: the stored progress, the note if one was given, and
/// whether the task is now done.
pub fn progress_message(title: &str, id: i64, progress: i64, note: Option<&str>, done: bool) -> (r: String)
    ensures
        r@ == task_named(title@, id) + " の進捗を "@ + decimal_of(progress as int) + "% に更新しました📊"@
            + match note {
            Some(n) => "（メモ: "@ + n@ + "）"@,
            None => ""@,
        } + if done {
            "（完了にしました✅）"@
        } else {
            ""@
        },
{
    let mut r = String::new();
    push_task_named(&mut r, title, id);
    push_str(&mut r, " の進捗を ");
    push_i64(&mut r, progress);
    push_str(&mut r, "% に更新しました📊");
    proof {
        reveal_strlit("");
    }
    let ghost head = r@;
    if let Some(n) = note {
        push_str(&mut r, "（メモ: ");
        push_str(&mut r, n);
        push_str(&mut r, "）");
    } else {
        assert(r@ =~= head + ""@);
    }
    let ghost mid = r@;
    if done {
        push_str(&mut r, "（完了にしました✅）");
    } else {
        assert(r@ =~= mid + ""@);
    }
    r
}

/// `updateTaskProgress`: the store changed nothing.
pub fn progress_failed_message(id: i64) -> (r: String)
    ensures
        r@ == "タスク #"@ + decimal_of(id as int) + " の進捗更新に失敗しました。"@,
{
    let mut r = "タスク #".to_owned();
    push_i64(&mut r, id);
    push_str(&mut r, " の進捗更新に失敗しました。");
    r
}

/// `getTaskDetail`: the effective progress, subtasks done of all, and the
/// number of progress log entries.
pub fn detail_message(title: &str, id: i64, progress: i64, done: usize, total: usize, logs: usize) -> (r: String)
    ensures
        r@ == task_named(title@, id) + " の詳細です。進捗 "@ + decimal_of(progress as int) + "%、サブタスク "@
            + digits_of(done as nat) + "/"@ + digits_of(total as nat) + " 完了、進捗履歴 "@
            + digits_of(logs as nat) + " 件。"@,
{
    let mut r = String::new();
    push_task_named(&mut r, title, id);
    push_str(&mut r, " の詳細です。進捗 ");
    push_i64(&mut r, progress);
    push_str(&mut r, "%、サブタスク ");
    push_count(&mut r, done);
    push_str(&mut r, "/");
    push_count(&mut r, total);
    push_str(&mut r, " 完了、進捗履歴 ");
    push_count(&mut r, logs);
    push_str(&mut r, " 件。");
    r
}

/// One line of a tag listing: the tag and how many it counts.
pub open spec fn tag_line(tag: Seq<char>, count: nat) -> Seq<char> {
    "🏷️ "@ + tag + " ("@ + digits_of(count) + "件)"@
}

/// The lines of `gs`, one per group, in order.
pub open spec fn tag_lines(gs: Seq<TagGroup>) -> Seq<Seq<char>> {
    Seq::new(gs.len(), |i: int| tag_line(gs[i].tag@, gs[i].items@.len()))
}

/// The lines of `gs` joined by line breaks.
fn join_tag_lines(gs: &Vec<TagGroup>) -> (r: String)
    ensures
        r@ == joined(tag_lines(gs@), "\n"@),
{
    let mut r = String::new();
    let mut i: usize = 0;
    while i < gs.len()
        invariant
            i <= gs@.len(),
            r@ == joined(tag_lines(gs@).take(i as int), "\n"@),
        decreases gs@.len() - i,
    {
        let ghost prev = r@;
        if i > 0 {
            push_str(&mut r, "\n");
        }
        push_str(&mut r, "🏷️ ");
        push_str(&mut r, gs[i].tag.as_str());
        push_str(&mut r, " (");
        push_count(&mut r, gs[i].items.len());
        push_str(&mut r, "件)");
        proof {
            let ls = tag_lines(gs@);
            let t = ls.take(i + 1);
            assert(t.drop_last() =~= ls.take(i as int));
            assert(t.last() == ls[i as int]);
            if i == 0 {
                assert(t.len() == 1);
                assert(r@ =~= t[0]);
            } else {
                assert(r@ =~= prev + "\n"@ + t.last());
            }
        }
        i += 1;
    }
    proof {
        assert(tag_lines(gs@).take(gs@.len() as int) =~= tag_lines(gs@));
    }
    r
}

/// `listTodoTags`: the open tags with their counts, or that there are none.
pub fn tag_list_message(gs: &Vec<TagGroup>) -> (r: String)
    ensures
        gs@.len() == 0 ==> r@ == "タグの付いた未完了ToDoはありません。"@,
        gs@.len() > 0 ==> r@ == "タグ一覧 ("@ + digits_of(gs@.len() as nat) + "種類):\n"@
            + joined(tag_lines(gs@), "\n"@) + "\n特定タグのToDoは listTodos の tag 引数で絞り込めます。"@,
{
    if gs.len() == 0 {
        return "タグの付いた未完了ToDoはありません。".to_owned();
    }
    let mut r = "タグ一覧 (".to_owned();
    push_count(&mut r, gs.len());
    push_str(&mut r, "種類):\n");
    let lines = join_tag_lines(gs);
    push_str(&mut r, lines.as_str());
    push_str(&mut r, "\n特定タグのToDoは listTodos の tag 引数で絞り込めます。");
    r
}

/// `listTasksByTag`: the groups with their sizes, or that there are no tasks.
pub fn grouped_message(task_count: usize, gs: &Vec<TagGroup>) -> (r: String)
    ensures
        task_count == 0 ==> r@ == "該当するToDoはありません。"@,
        task_count > 0 ==> r@ == "タグ別のToDo:\n"@ + joined(tag_lines(gs@), "\n"@),
{
    if task_count == 0 {
        return "該当するToDoはありません。".to_owned();
    }
    let mut r = "タグ別のToDo:\n".to_owned();
    let lines = join_tag_lines(gs);
    push_str(&mut r, lines.as_str());
    r
}

/// The tags as the tag message shows them: joined by "、", or "（タグなし）".
pub open spec fn tag_label(tags: Seq<Seq<char>>) -> Seq<char> {
    if tags.len() == 0 {
        "（タグなし）"@
    } else {
        joined(tags, "、"@)
    }
}

/// `editTodoTags`: the task's tags after the edit.
pub fn tags_updated_message(title: &str, id: i64, tags: &Vec<String>) -> (r: String)
    ensures
        r@ == todo_named(title@, id) + " のタグを更新しました🏷️ "@ + tag_label(
            tags@.map_values(|t: String| t@),
        ),
{
    let mut r = String::new();
    push_todo_named(&mut r, title, id);
    push_str(&mut r, " のタグを更新しました🏷️ ");
    let ghost ts = tags@.map_values(|t: String| t@);
    if tags.len() == 0 {
        push_str(&mut r, "（タグなし）");
        return r;
    }
    let ghost base = r@;
    let mut i: usize = 0;
    while i < tags.len()
        invariant
            i <= tags@.len(),
            ts == tags@.map_values(|t: String| t@),
            r@ == base + joined(ts.take(i as int), "、"@),
        decreases tags@.len() - i,
    {
        let ghost prev = r@;
        if i > 0 {
            push_str(&mut r, "、");
        }
        push_str(&mut r, tags[i].as_str());
        proof {
            let t = ts.take(i + 1);
            assert(t.drop_last() =~= ts.take(i as int));
            assert(t.last() == tags@[i as int]@);
            if i == 0 {
                assert(t.len() == 1);
                assert(joined(t, "、"@) == t[0]);
                assert(r@ =~= base + joined(t, "、"@));
            } else {
                assert(r@ =~= base + joined(t, "、"@));
            }
        }
        i += 1;
    }
    proof {
        assert(ts.take(tags@.len() as int) =~= ts);
    }
    r
}

/// `editTodoTags`: the store changed nothing.
pub fn tags_failed_message(id: i64) -> (r: String)
    ensures
        r@ == "タスク #"@ + decimal_of(id as int) + " のタグ更新に失敗しました。"@,
{
    let mut r = "タスク #".to_owned();
    push_i64(&mut r, id);
    push_str(&mut r, " のタグ更新に失敗しました。");
    r
}

/// `stopTodoRoutine`: the routine ended and the task stays as a one-off.
pub fn routine_stopped_message(title: &str, id: i64) -> (r: String)
    ensures
        r@ == task_named(title@, id) + " の繰り返しを終了しました🏁（このタスクは単発として残ります）"@,
{
    let mut r = String::new();
    push_task_named(&mut r, title, id);
    push_str(&mut r, " の繰り返しを終了しました🏁（このタスクは単発として残ります）");
    r
}

/// `stopTodoRoutine` when nothing was stopped: the task is not a routine, or
/// does not exist.
pub fn routine_not_stopped_message(id: i64, exists: bool) -> (r: String)
    ensures
        exists ==> r@ == "タスク #"@ + decimal_of(id as int) + " はルーチン（繰り返し）ではありません。"@,
        !exists ==> r@ == "タスク #"@ + decimal_of(id as int) + " が見つかりません。"@,
{
    if exists {
        let mut r = "タスク #".to_owned();
        push_i64(&mut r, id);
        push_str(&mut r, " はルーチン（繰り返し）ではありません。");
        r
    } else {
        task_missing_message(id)
    }
}

} // verus!
