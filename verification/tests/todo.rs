use yuuka::json::{JsonNumber, JsonValue};
use yuuka::todo::args::{
    arg_i64, due_label, is_valid_cron_basic, normalize_priority, priority_label,
    status_from_json,
};
use yuuka::todo::dto::{NewTodo, PriorityUpdate, Todo, TodoUpdate, TodoWithSubtasks};
use yuuka::todo::replies::{
    added_message, completed_message, detail_message, grouped_message, list_message,
    parent_missing_message, progress_failed_message, progress_from_subtasks_message,
    progress_message, removed_message, routine_not_stopped_message, routine_stopped_message,
    subtask_added_message, tag_list_message, tags_failed_message, tags_updated_message,
    task_missing_message, todo_missing_message, updated_message,
};
use yuuka::todo::routes::{
    check_new_todo, check_progress_id, check_progress_target, check_update_id,
    list_status_filter, tag_filter,
};
use yuuka::todo::store::{
    clamp_progress, routine_columns, select_root_positions, status_for_progress,
    update_clauses, SetClause,
};
use yuuka::todo::tags::{merge_tags, normalize_tags, remove_tags, MAX_TAGS};
use yuuka::todo::tally::{group_todos_by_tag, tag_tally};
use yuuka::todo::tools::{
    apply_tag_edit, count_done, group_status_arg, list_status_arg, new_subtask, plan_add_subtask,
    plan_add_todo, plan_edit_tags, plan_task_progress, plan_update_todo, TagMode,
};
use yuuka::todo::tree::{build_todo_tree, count_leaves, effective_progress};
use yuuka::web::auth::WebError;

fn s(v: &str) -> JsonValue {
    JsonValue::Str(v.to_owned())
}

fn num(n: i64) -> JsonValue {
    JsonValue::Number(JsonNumber::of_int(n))
}

/// A number written with a fractional part (`2.0`, `1.5`): its integer
/// readings as a JSON reader fills them in.
fn frac(whole: Option<i64>, truncated: i64) -> JsonValue {
    JsonValue::Number(JsonNumber {
        int: None,
        whole,
        truncated,
        floor_positive: if truncated > 0 { Some(truncated) } else { None },
    })
}

fn obj(pairs: Vec<(&str, JsonValue)>) -> JsonValue {
    JsonValue::Object(pairs.into_iter().map(|(k, v)| (k.to_owned(), v)).collect())
}

fn strings(v: &[&str]) -> Vec<String> {
    v.iter().map(|x| (*x).to_owned()).collect()
}

fn todo(id: i64, parent: Option<i64>, status: &str, progress: i64, tags: &[&str]) -> Todo {
    Todo {
        id,
        title: format!("t{id}"),
        status: status.to_owned(),
        progress,
        parent_id: parent,
        tags: strings(tags),
        ..Todo::default()
    }
}

#[test]
fn accepts_whole_number_floats_like_js() {
    assert_eq!(normalize_priority(&num(2)).as_deref(), Some("high"));
    assert_eq!(normalize_priority(&frac(Some(2), 2)).as_deref(), Some("high"));
    assert_eq!(normalize_priority(&frac(Some(0), 0)).as_deref(), Some("low"));
    assert_eq!(normalize_priority(&s("medium")).as_deref(), Some("medium"));
    assert_eq!(normalize_priority(&frac(None, 1)), None);
    assert_eq!(normalize_priority(&num(9)), None);
    assert_eq!(normalize_priority(&s("urgent")), None);
}

#[test]
fn priority_update_float_is_set() {
    let pu = PriorityUpdate::from_json(Some(&frac(Some(1), 1)));
    assert_eq!(pu, PriorityUpdate::SetTo("medium".to_owned()));
}

#[test]
fn priority_update_absent_null_and_empty() {
    assert_eq!(PriorityUpdate::from_json(None), PriorityUpdate::Unchanged);
    assert_eq!(PriorityUpdate::from_json(Some(&JsonValue::Null)), PriorityUpdate::Clear);
    assert_eq!(PriorityUpdate::from_json(Some(&s(""))), PriorityUpdate::Clear);
    assert_eq!(PriorityUpdate::from_json(Some(&s("low"))), PriorityUpdate::SetTo("low".to_owned()));
}

#[test]
fn status_is_kept_only_when_known() {
    assert_eq!(status_from_json(Some(&s("open"))).as_deref(), Some("open"));
    assert_eq!(status_from_json(Some(&s("done"))).as_deref(), Some("done"));
    assert_eq!(status_from_json(Some(&s("closed"))), None);
    assert_eq!(status_from_json(None), None);
}

#[test]
fn labels() {
    assert_eq!(priority_label(Some("high")), "高");
    assert_eq!(priority_label(Some("medium")), "中");
    assert_eq!(priority_label(Some("low")), "低");
    assert_eq!(priority_label(None), "なし");
    assert_eq!(due_label(None), "");
    assert_eq!(due_label(Some("  ")), "");
    assert_eq!(due_label(Some(" 2026-07-06 ")), " (期限: 2026-07-06)");
}

#[test]
fn cron_rules_need_five_fields() {
    assert!(is_valid_cron_basic("0 9 * * 1"));
    assert!(is_valid_cron_basic("  0   9 * *   1 "));
    assert!(!is_valid_cron_basic("0 9 * *"));
    assert!(!is_valid_cron_basic("0 9 * * 1 2"));
}

#[test]
fn integer_arguments_read_numbers_and_numeric_strings() {
    let a = obj(vec![("a", num(7)), ("b", s(" 42 ")), ("c", s("x")), ("d", frac(Some(3), 3))]);
    assert_eq!(arg_i64(&a, "a"), Some(7));
    assert_eq!(arg_i64(&a, "b"), Some(42));
    assert_eq!(arg_i64(&a, "c"), None);
    assert_eq!(arg_i64(&a, "d"), None);
    assert_eq!(arg_i64(&a, "missing"), None);
}

#[test]
fn add_todo_requires_a_title() {
    assert_eq!(plan_add_todo(&obj(vec![])).unwrap_err(), "タイトルを指定してください。");
    assert_eq!(plan_add_todo(&obj(vec![("title", s("   "))])).unwrap_err(), "タイトルを指定してください。");
}

#[test]
fn add_todo_checks_routines() {
    let bad = obj(vec![("title", s("朝会")), ("repeat_rule", s("every monday")), ("due_date", s("2026-07-06"))]);
    assert!(plan_add_todo(&bad).unwrap_err().starts_with("repeat_rule は cron式"));
    let no_due = obj(vec![("title", s("朝会")), ("repeat_rule", s("0 9 * * 1"))]);
    assert_eq!(
        plan_add_todo(&no_due).unwrap_err(),
        "ルーチンタスクには初回の due_date（期日）も指定してください。"
    );
    let ok = obj(vec![
        ("title", s(" 朝会 ")),
        ("repeat_rule", s("0 9 * * 1")),
        ("due_date", s("2026-07-06")),
        ("repeat_count", frac(None, 3)),
        ("priority", num(2)),
    ]);
    let t = plan_add_todo(&ok).unwrap();
    assert_eq!(t.title, "朝会");
    assert_eq!(t.repeat_rule.as_deref(), Some("0 9 * * 1"));
    assert_eq!(t.repeat_count, Some(3));
    assert_eq!(t.priority.as_deref(), Some("high"));
    assert!(t.tags.is_empty());
    assert_eq!(t.parent_id, None);
}

#[test]
fn add_todo_drops_repeat_fields_without_a_rule() {
    let t = plan_add_todo(&obj(vec![
        ("title", s("買い物")),
        ("repeat_until", s("2026-12-31")),
        ("repeat_count", num(4)),
        ("priority", s("urgent")),
    ]))
    .unwrap();
    assert_eq!(t.repeat_rule, None);
    assert_eq!(t.repeat_until, None);
    assert_eq!(t.repeat_count, None);
    assert_eq!(t.priority, None);
}

#[test]
fn list_and_group_status_arguments() {
    assert_eq!(list_status_arg(&obj(vec![])).as_deref(), Some("open"));
    assert_eq!(list_status_arg(&obj(vec![("status", s("all"))])), None);
    assert_eq!(list_status_arg(&obj(vec![("status", s("done"))])).as_deref(), Some("done"));
    assert_eq!(list_status_arg(&obj(vec![("status", s("weird"))])).as_deref(), Some("open"));
    assert_eq!(group_status_arg(&obj(vec![("status", s("all"))])), None);
    assert_eq!(group_status_arg(&obj(vec![("status", num(1))])).as_deref(), Some("open"));
}

#[test]
fn update_todo_refusals() {
    assert_eq!(plan_update_todo(&obj(vec![])).unwrap_err(), "todo_id を指定してください。");
    assert_eq!(
        plan_update_todo(&obj(vec![("todo_id", num(3)), ("priority", s("urgent"))])).unwrap_err(),
        "優先度は 'high' | 'medium' | 'low' のいずれかで指定してください。"
    );
    assert_eq!(
        plan_update_todo(&obj(vec![("todo_id", num(3))])).unwrap_err(),
        "変更する項目を1つ以上指定してください。"
    );
}

#[test]
fn update_todo_reads_fields() {
    let u = plan_update_todo(&obj(vec![
        ("todo_id", s("3")),
        ("title", s(" 新しい ")),
        ("due_date", s("")),
        ("priority", s("low")),
        ("status", s("done")),
    ]))
    .unwrap();
    assert_eq!(u.id, 3);
    assert_eq!(u.title.as_deref(), Some("新しい"));
    assert_eq!(u.due_date.as_deref(), Some(""));
    assert_eq!(u.priority, PriorityUpdate::SetTo("low".to_owned()));
    assert_eq!(u.status.as_deref(), Some("done"));
}

#[test]
fn edit_tags_modes() {
    assert_eq!(plan_edit_tags(&obj(vec![])).unwrap_err(), "todo_id（#番号）を指定してください。");
    assert_eq!(
        plan_edit_tags(&obj(vec![("todo_id", num(1)), ("mode", s("swap"))])).unwrap_err(),
        "mode は 'set' | 'add' | 'remove' のいずれかで指定してください。"
    );
    assert_eq!(
        plan_edit_tags(&obj(vec![("todo_id", num(1)), ("mode", s("add")), ("tags", JsonValue::Array(vec![]))]))
            .unwrap_err(),
        "add には tags を1つ以上指定してください。"
    );
    let e = plan_edit_tags(&obj(vec![
        ("todo_id", num(1)),
        ("mode", s("add")),
        ("tags", JsonValue::Array(vec![s("仕事"), s(" 急ぎ ")])),
    ]))
    .unwrap();
    assert_eq!(e.todo_id, 1);
    assert_eq!(e.mode, TagMode::Add);
    assert_eq!(e.tags, strings(&["仕事", "急ぎ"]));
}

#[test]
fn tag_edits_replace_add_and_remove() {
    let current = strings(&["a", "b"]);
    assert_eq!(apply_tag_edit(TagMode::Replace, &current, strings(&["c"])), strings(&["c"]));
    assert_eq!(apply_tag_edit(TagMode::Add, &current, strings(&["b", "c"])), strings(&["a", "b", "c"]));
    assert_eq!(apply_tag_edit(TagMode::Remove, &current, strings(&["a"])), strings(&["b"]));
}

#[test]
fn normalize_tags_trims_dedups_and_caps() {
    let v = JsonValue::Array(vec![s(" a "), s("a"), s(""), num(3), s("b")]);
    assert_eq!(normalize_tags(&v), strings(&["a", "b"]));
    let many: Vec<JsonValue> = (0..12).map(|i| s(&format!("t{i}"))).collect();
    let out = normalize_tags(&JsonValue::Array(many));
    assert_eq!(out.len(), MAX_TAGS);
    assert_eq!(out[0], "t0");
    assert_eq!(out[7], "t7");
    assert!(normalize_tags(&s("a")).is_empty());
}

#[test]
fn normalizing_twice_changes_nothing() {
    let v = JsonValue::Array(vec![s(" x "), s("y"), s("x"), s(" ")]);
    let once = normalize_tags(&v);
    let again = normalize_tags(&JsonValue::Array(once.iter().map(|t| s(t)).collect()));
    assert_eq!(once, again);
}

#[test]
fn merge_and_remove_tags() {
    assert_eq!(merge_tags(&strings(&["a"]), &strings(&["b", "a", "c"])), strings(&["a", "b", "c"]));
    assert_eq!(remove_tags(&strings(&["a", "b", "c"]), &strings(&["b", "z"])), strings(&["a", "c"]));
}

#[test]
fn progress_and_subtask_arguments() {
    assert_eq!(plan_task_progress(&obj(vec![("todo_id", num(4)), ("progress", num(50))])), Ok((4, 50)));
    assert_eq!(
        plan_task_progress(&obj(vec![("todo_id", num(4))])).unwrap_err(),
        "todo_id と progress（0〜100の数値）を指定してください。"
    );
    assert_eq!(
        plan_add_subtask(&obj(vec![])).unwrap_err(),
        "サブタスクのタイトルを指定してください。"
    );
    assert_eq!(plan_add_subtask(&obj(vec![("title", s("x")), ("parent_todo_id", num(9))])), Ok(Some(9)));
    let t: NewTodo = new_subtask(&obj(vec![("title", s(" 子 ")), ("due_date", s("2026-01-01"))]), 9);
    assert_eq!(t.title, "子");
    assert_eq!(t.parent_id, Some(9));
    assert_eq!(t.due_date.as_deref(), Some("2026-01-01"));
    assert_eq!(t.repeat_rule, None);
}

#[test]
fn tree_nests_subtasks_and_computes_progress() {
    let rows = vec![
        todo(1, None, "open", 0, &[]),
        todo(2, Some(1), "done", 100, &[]),
        todo(3, Some(1), "open", 40, &[]),
        todo(4, Some(3), "done", 0, &[]),
        todo(5, None, "open", 30, &[]),
        todo(6, Some(99), "open", 10, &[]),
    ];
    let forest = build_todo_tree(rows);
    let roots: Vec<i64> = forest.iter().map(|n| n.id).collect();
    assert_eq!(roots, vec![1, 5, 6]);
    assert_eq!(forest[0].subtasks.len(), 2);
    assert_eq!(forest[0].subtasks[1].subtasks[0].id, 4);
    // Leaves under 1: task 2 (done) and task 4 (done): 100%.
    assert_eq!(forest[0].effective_progress, 100);
    assert_eq!(forest[1].effective_progress, 30);
    assert_eq!(forest[0].subtasks[1].effective_progress, 100);
}

#[test]
fn effective_progress_rounds_halves_up() {
    let parent = todo(1, None, "open", 0, &[]);
    let kids = build_todo_tree(vec![
        todo(2, None, "done", 0, &[]),
        todo(3, None, "open", 0, &[]),
        todo(4, None, "open", 0, &[]),
    ]);
    // One leaf of three done: 33.3 → 33.
    assert_eq!(effective_progress(&parent, &kids), 33);
    let kids = build_todo_tree(vec![todo(2, None, "done", 0, &[]), todo(3, None, "done", 0, &[]), todo(4, None, "open", 0, &[])]);
    // 66.7 → 67.
    assert_eq!(effective_progress(&parent, &kids), 67);
    let kids = build_todo_tree(vec![todo(2, None, "done", 0, &[]), todo(3, None, "open", 0, &[])]);
    assert_eq!(effective_progress(&parent, &kids), 50);
    assert_eq!(count_leaves(&kids), (1, 2));
    assert_eq!(effective_progress(&todo(9, None, "done", 5, &[]), &vec![]), 100);
    assert_eq!(effective_progress(&todo(9, None, "open", 5, &[]), &vec![]), 5);
    assert_eq!(count_done(&kids), 1);
}

#[test]
fn tasks_grouped_by_tag_with_untagged_last() {
    let forest: Vec<TodoWithSubtasks> = build_todo_tree(vec![
        todo(1, None, "open", 0, &["b", "a"]),
        todo(2, None, "open", 0, &[]),
        todo(3, None, "open", 0, &["a"]),
        todo(4, None, "open", 0, &["c"]),
    ]);
    let groups = group_todos_by_tag(&forest);
    let shape: Vec<(String, Vec<usize>)> = groups.iter().map(|g| (g.tag.clone(), g.items.clone())).collect();
    assert_eq!(
        shape,
        vec![
            ("a".to_owned(), vec![0, 2]),
            ("b".to_owned(), vec![0]),
            ("c".to_owned(), vec![3]),
            ("未分類".to_owned(), vec![1]),
        ]
    );
}

#[test]
fn tag_tally_counts_and_ranks() {
    let groups = tag_tally(&strings(&["x", "y", "x", "z", "y", "x"]));
    let shape: Vec<(String, usize)> = groups.iter().map(|g| (g.tag.clone(), g.items.len())).collect();
    assert_eq!(shape, vec![("x".to_owned(), 3), ("y".to_owned(), 2), ("z".to_owned(), 1)]);
}

#[test]
fn update_clauses_follow_column_order() {
    let u = TodoUpdate {
        id: 1,
        title: Some("T".to_owned()),
        description: None,
        due_date: Some(String::new()),
        start_date: Some("2026-01-02".to_owned()),
        priority: PriorityUpdate::Clear,
        status: Some("done".to_owned()),
    };
    assert_eq!(
        update_clauses(u),
        vec![
            SetClause::Title("T".to_owned()),
            SetClause::DueDate(None),
            SetClause::ResetDueReminder,
            SetClause::StartDate(Some("2026-01-02".to_owned())),
            SetClause::Priority(None),
            SetClause::Status("done".to_owned()),
        ]
    );
    let empty = TodoUpdate { id: 1, ..TodoUpdate::default() };
    assert!(update_clauses(empty).is_empty());
}

#[test]
fn progress_is_clamped_and_sets_status() {
    assert_eq!(clamp_progress(-5), 0);
    assert_eq!(clamp_progress(55), 55);
    assert_eq!(clamp_progress(150), 100);
    assert_eq!(status_for_progress(100), "done");
    assert_eq!(status_for_progress(99), "open");
}

#[test]
fn subtasks_get_no_routine_columns() {
    let t = NewTodo {
        title: "x".to_owned(),
        repeat_rule: Some("0 9 * * 1".to_owned()),
        repeat_until: Some("2026-12-31".to_owned()),
        repeat_count: Some(3),
        ..NewTodo::default()
    };
    assert_eq!(
        routine_columns(None, &t),
        (Some("0 9 * * 1".to_owned()), Some("2026-12-31".to_owned()), Some(3))
    );
    assert_eq!(routine_columns(Some(7), &t), (None, None, None));
}

#[test]
fn root_positions_follow_the_request() {
    assert_eq!(select_root_positions(&vec![10, 20, 30], &vec![30, 10, 99]), vec![2, 0]);
}

#[test]
fn route_checks() {
    assert_eq!(list_status_filter(Some("pending")).as_deref(), Some("open"));
    assert_eq!(list_status_filter(Some("done")).as_deref(), Some("done"));
    assert_eq!(list_status_filter(Some("all")), None);
    assert_eq!(list_status_filter(None), None);
    assert_eq!(tag_filter(Some(String::new())), None);
    assert_eq!(tag_filter(Some("a".to_owned())).as_deref(), Some("a"));
    assert!(matches!(check_new_todo("  "), Err(WebError::Validation(m)) if m == "title is required"));
    assert!(check_new_todo("x").is_ok());
    assert!(matches!(check_update_id(0), Err(WebError::Validation(m)) if m == "id is required"));
    assert!(check_update_id(5).is_ok());
    assert!(matches!(check_progress_id(0), Err(WebError::Validation(m)) if m == "id and progress are required"));
    assert!(matches!(check_progress_target(true), Err(WebError::Conflict)));
    assert!(check_progress_target(false).is_ok());
    assert_eq!(WebError::Conflict.status(), 409);
}

#[test]
fn reply_messages_for_added_listed_and_removed_tasks() {
    assert_eq!(
        added_message("牛乳を買う", 12, Some("high")),
        "ToDo「牛乳を買う」を追加しました (ID: #12、優先度: 高)。タグはバックグラウンドで自動付与されます。"
    );
    assert_eq!(
        added_message("x", 3, None),
        "ToDo「x」を追加しました (ID: #3、優先度: なし)。タグはバックグラウンドで自動付与されます。"
    );
    assert_eq!(list_message(0, None), "該当するToDoはありません。");
    assert_eq!(
        list_message(0, Some("仕事")),
        "タグ「仕事」のToDoはありません。listTodoTags で存在するタグを確認できます。"
    );
    assert_eq!(list_message(4, None), "ToDo一覧 (親タスク 4件)");
    assert_eq!(list_message(12, Some("仕事")), "ToDo一覧 (親タスク 12件、タグ: 仕事)");
    assert_eq!(removed_message(7), "ToDo #7 を削除しました🗑️");
    assert_eq!(todo_missing_message(-3), "ToDo #-3 が見つかりません。");
}

#[test]
fn reply_messages_for_progress_and_detail() {
    assert_eq!(
        progress_message("資料", 5, 40, Some("半分"), false),
        "タスク「資料」(#5) の進捗を 40% に更新しました📊（メモ: 半分）"
    );
    assert_eq!(
        progress_message("資料", 5, 100, None, true),
        "タスク「資料」(#5) の進捗を 100% に更新しました📊（完了にしました✅）"
    );
    assert_eq!(
        progress_from_subtasks_message(9, "親", 3, 1),
        "タスク#9「親」はサブタスクを 3 件持つため、進捗は『完了サブタスク数/全体』(現在 1/3) で自動算出されます。該当サブタスクを完了/進捗更新してください。"
    );
    assert_eq!(progress_failed_message(2), "タスク #2 の進捗更新に失敗しました。");
    assert_eq!(task_missing_message(8), "タスク #8 が見つかりません。");
    assert_eq!(
        detail_message("親", 9, 33, 1, 3, 0),
        "タスク「親」(#9) の詳細です。進捗 33%、サブタスク 1/3 完了、進捗履歴 0 件。"
    );
}

#[test]
fn reply_messages_for_subtasks_tags_and_routines() {
    assert_eq!(
        subtask_added_message("下調べ", 21, 20, Some(" 2025-01-10 "), 1, 2),
        "サブタスク「下調べ」(#21) を タスク#20 に追加しました。 (期限: 2025-01-10)（このタスクのサブタスク: 1/2 完了）"
    );
    assert_eq!(
        subtask_added_message("下調べ", 21, 20, None, 0, 1),
        "サブタスク「下調べ」(#21) を タスク#20 に追加しました。（このタスクのサブタスク: 0/1 完了）"
    );
    assert_eq!(parent_missing_message("null"), "親タスク #null が見つかりません。");
    assert_eq!(completed_message("a", 1), "ToDo「a」(#1) を完了にしました✅");
    assert_eq!(updated_message("a", 1), "ToDo「a」(#1) を更新しました📝");
    assert_eq!(
        tags_updated_message("a", 1, &strings(&["業務", "緊急"])),
        "ToDo「a」(#1) のタグを更新しました🏷️ 業務、緊急"
    );
    assert_eq!(
        tags_updated_message("a", 1, &strings(&[])),
        "ToDo「a」(#1) のタグを更新しました🏷️ （タグなし）"
    );
    assert_eq!(tags_failed_message(4), "タスク #4 のタグ更新に失敗しました。");
    assert_eq!(
        routine_stopped_message("掃除", 6),
        "タスク「掃除」(#6) の繰り返しを終了しました🏁（このタスクは単発として残ります）"
    );
    assert_eq!(
        routine_not_stopped_message(6, true),
        "タスク #6 はルーチン（繰り返し）ではありません。"
    );
    assert_eq!(routine_not_stopped_message(6, false), "タスク #6 が見つかりません。");

    let groups = tag_tally(&strings(&["x", "y", "x"]));
    assert_eq!(
        tag_list_message(&groups),
        "タグ一覧 (2種類):\n🏷️ x (2件)\n🏷️ y (1件)\n特定タグのToDoは listTodos の tag 引数で絞り込めます。"
    );
    assert_eq!(tag_list_message(&tag_tally(&strings(&[]))), "タグの付いた未完了ToDoはありません。");
    assert_eq!(grouped_message(2, &groups), "タグ別のToDo:\n🏷️ x (2件)\n🏷️ y (1件)");
    assert_eq!(grouped_message(0, &groups), "該当するToDoはありません。");
}

#[test]
fn due_window_counts_negative_hours_as_zero() {
    assert_eq!(yuuka::todo::cron::due_window(24), "+24 hours");
    assert_eq!(yuuka::todo::cron::due_window(0), "+0 hours");
    assert_eq!(yuuka::todo::cron::due_window(-5), "+0 hours");
}

#[test]
fn adding_tags_keeps_the_current_ones_first() {
    let current = strings(&["x", "y"]);
    let merged = merge_tags(&current, &strings(&["y", "z", " w "]));
    assert_eq!(merged, strings(&["x", "y", "z", "w"]));
    assert_eq!(&merged[..2], &current[..]);
}

#[test]
fn progress_is_refused_on_a_parent_with_subtasks() {
    assert_eq!(yuuka::todo::tools::check_progress_leaf(9, "親", &vec![]), Ok(()));
    let kids = build_todo_tree(vec![
        todo(2, None, "done", 0, &[]),
        todo(3, None, "open", 0, &[]),
        todo(4, None, "open", 0, &[]),
    ]);
    assert_eq!(
        yuuka::todo::tools::check_progress_leaf(9, "親", &kids),
        Err("タスク#9「親」はサブタスクを 3 件持つため、進捗は『完了サブタスク数/全体』(現在 1/3) で自動算出されます。該当サブタスクを完了/進捗更新してください。".to_owned())
    );
}
