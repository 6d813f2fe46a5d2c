use yuuka::json::{JsonNumber, JsonValue};
use yuuka::timeline::dto::{NewDayPlanBlock, UpdatePlanBlock};
use yuuka::timeline::media::{
    content_type_for, media_bytes, media_ext, media_filename, media_type_of, mime_to_ext,
    resolve_media_path, yyyymm,
};
use yuuka::timeline::plan::{
    block_created_message, block_deleted_message, check_media_upload, check_new_plan,
    check_new_record, check_plan_id, day_date, day_label, day_plan_message, normalize_block_type,
    plan_create_block, plan_delete_block, plan_position, plan_record_args, plan_update_clauses,
    tool_arg_i64, PlanSet,
};
use yuuka::web::auth::WebError;

fn s(v: &str) -> JsonValue {
    JsonValue::Str(v.to_owned())
}

fn num(n: i64) -> JsonValue {
    JsonValue::Number(JsonNumber::of_int(n))
}

fn obj(pairs: Vec<(&str, JsonValue)>) -> JsonValue {
    JsonValue::Object(pairs.into_iter().map(|(k, v)| (k.to_owned(), v)).collect())
}

fn validation(r: Result<(), WebError>) -> Option<String> {
    match r {
        Err(WebError::Validation(m)) => Some(m),
        _ => None,
    }
}

#[test]
fn mime_and_content_type_mapping() {
    assert_eq!(mime_to_ext("image/jpeg"), ".jpg");
    assert_eq!(mime_to_ext("video/mp4"), ".mp4");
    assert_eq!(mime_to_ext("application/pdf"), ".bin");
    assert_eq!(content_type_for("a.jpg"), "image/jpeg");
    assert_eq!(content_type_for("a.MOV"), "video/quicktime");
    assert_eq!(content_type_for("a.txt"), "application/octet-stream");
    assert_eq!(media_type_of("video/webm"), "video");
    assert_eq!(media_type_of("image/png"), "photo");
}

#[test]
fn resolve_rejects_traversal() {
    let dir = "/tmp/media";
    assert!(resolve_media_path(dir, "../etc/passwd").is_none());
    assert!(resolve_media_path(dir, "a/b.jpg").is_none());
    assert!(resolve_media_path(dir, "a\\b.jpg").is_none());
    assert_eq!(
        resolve_media_path(dir, "202607-1-abc.jpg").as_deref(),
        Some("/tmp/media/202607-1-abc.jpg")
    );
}

#[test]
fn resolve_joins_like_path_join() {
    assert_eq!(resolve_media_path("/tmp/media/", "x.png").as_deref(), Some("/tmp/media/x.png"));
    assert_eq!(resolve_media_path("", "x.png").as_deref(), Some("x.png"));
    assert!(resolve_media_path("/m", "a..b.png").is_none());
}

#[test]
fn stored_names_start_with_year_and_month() {
    assert_eq!(yyyymm("2026-07-06").into_iter().collect::<String>(), "202607");
    assert_eq!(yyyymm("2026").into_iter().collect::<String>(), "000000");
    let name = media_filename("2026-07-06", 1_700_000_000_000, Some(vec![0xde, 0xad, 0xbe, 0xef]), ".png");
    assert_eq!(name, "202607-1700000000000-deadbeef.png");
    let name = media_filename("2026-07-06", 255, None, ".jpg");
    assert_eq!(name, "202607-255-000000ff.jpg");
}

#[test]
fn upload_types_and_decoding() {
    assert_eq!(media_ext("image/png"), Ok(".png"));
    assert_eq!(media_ext("application/pdf").unwrap_err(), "不正なメディア形式: application/pdf");
    assert_eq!(media_bytes("aGVsbG8=").unwrap(), b"hello".to_vec());
    assert!(media_bytes("not base64!").unwrap_err().starts_with("base64 のデコードに失敗しました: "));
}

#[test]
fn route_plan_add_missing_fields_is_400() {
    let mut b = NewDayPlanBlock {
        date: " ".to_owned(),
        block_type: "task".to_owned(),
        title: "t".to_owned(),
        ..NewDayPlanBlock::default()
    };
    assert_eq!(validation(check_new_plan(&b)).as_deref(), Some("date is required"));
    b.date = "2026-07-06".to_owned();
    b.block_type = String::new();
    assert_eq!(validation(check_new_plan(&b)).as_deref(), Some("type is required"));
    b.block_type = "task".to_owned();
    b.title = "\t".to_owned();
    assert_eq!(validation(check_new_plan(&b)).as_deref(), Some("title is required"));
    b.title = "会議".to_owned();
    assert!(check_new_plan(&b).is_ok());
}

#[test]
fn route_plan_update_id_zero_is_400() {
    assert_eq!(validation(check_plan_id(0)).as_deref(), Some("id is required"));
    assert!(check_plan_id(12).is_ok());
}

#[test]
fn record_and_media_route_checks() {
    assert_eq!(validation(check_new_record("", "memo")).as_deref(), Some("date is required"));
    assert_eq!(validation(check_new_record("2026-07-06", " ")).as_deref(), Some("type is required"));
    assert!(check_new_record("2026-07-06", "memo").is_ok());
    assert_eq!(
        validation(check_media_upload("2026-07-06", "", "image/png")).as_deref(),
        Some("date / base64 / mimeType are required")
    );
    assert!(check_media_upload("2026-07-06", "aGk=", "image/png").is_ok());
}

#[test]
fn day_without_date_means_today() {
    assert_eq!(day_date(None), None);
    assert_eq!(day_date(Some("  ".to_owned())), None);
    assert_eq!(day_date(Some("2026-07-06".to_owned())).as_deref(), Some("2026-07-06"));
    assert_eq!(plan_position(None), 0);
    assert_eq!(plan_position(Some(3)), 3);
}

#[test]
fn plan_update_partial_and_null_semantics() {
    let u = UpdatePlanBlock {
        id: 1,
        title: Some("新".to_owned()),
        description: Some(String::new()),
        start_time: Some(None),
        todo_id: Some(Some(5)),
        transit_line: Some(Some("山手線".to_owned())),
        ..UpdatePlanBlock::default()
    };
    assert_eq!(
        plan_update_clauses(u),
        vec![
            PlanSet::UpdatedAt,
            PlanSet::Title("新".to_owned()),
            PlanSet::Description(None),
            PlanSet::StartTime(None),
            PlanSet::TodoId(Some(5)),
            PlanSet::TransitLine(Some("山手線".to_owned())),
        ]
    );
}

#[test]
fn plan_update_empty_touches_updated_at_only() {
    let u = UpdatePlanBlock { id: 3, ..UpdatePlanBlock::default() };
    assert_eq!(plan_update_clauses(u), vec![PlanSet::UpdatedAt]);
}

#[test]
fn block_types_are_normalized() {
    assert_eq!(normalize_block_type("transit".to_owned()), "transit");
    assert_eq!(normalize_block_type("meeting".to_owned()), "free");
    assert_eq!(normalize_block_type("Task".to_owned()), "free");
}

#[test]
fn create_block_tool_reads_arguments() {
    assert_eq!(
        plan_create_block(&obj(vec![("date", s("2026-07-06")), ("type", s("task"))])).unwrap_err(),
        "date / type / title は必須です。"
    );
    let b = plan_create_block(&obj(vec![
        ("date", s("2026-07-06")),
        ("type", s("party")),
        ("title", s(" 打ち合わせ ")),
        ("start_time", s("10:00")),
        ("todo_id", num(4)),
    ]))
    .unwrap();
    assert_eq!(b.date, "2026-07-06");
    assert_eq!(b.block_type, "free");
    assert_eq!(b.title, "打ち合わせ");
    assert_eq!(b.start_time.as_deref(), Some("10:00"));
    assert_eq!(b.end_time, None);
    assert_eq!(b.todo_id, Some(4));
    assert_eq!(b.position, None);
    assert_eq!(block_created_message(&b.title), "計画ブロック「打ち合わせ」を追加しました。");
}

#[test]
fn delete_block_tool() {
    assert_eq!(plan_delete_block(&obj(vec![])).unwrap_err(), "id が必要です。");
    assert_eq!(plan_delete_block(&obj(vec![("id", s(" 8 "))])), Ok(8));
    assert_eq!(block_deleted_message(true), "削除しました。");
    assert_eq!(block_deleted_message(false), "ブロックが見つかりません。");
}

#[test]
fn tool_integers_truncate_fractions() {
    let frac = JsonValue::Number(JsonNumber { int: None, whole: None, truncated: -2, floor_positive: None });
    let args = obj(vec![("a", frac), ("b", num(6)), ("c", s("x"))]);
    assert_eq!(tool_arg_i64(&args, "a"), Some(-2));
    assert_eq!(tool_arg_i64(&args, "b"), Some(6));
    assert_eq!(tool_arg_i64(&args, "c"), None);
}

#[test]
fn day_plan_messages() {
    assert_eq!(day_label(None), "今日");
    assert_eq!(day_label(Some("2026-07-06")), "2026-07-06");
    assert_eq!(day_plan_message("今日", 0, 0), "今日 の計画・記録はまだありません。");
    assert_eq!(day_plan_message("2026-07-06", 2, 10), "2026-07-06 の計画 2 件・記録 10 件です。");
}

#[test]
fn add_validates_date_and_type() {
    assert_eq!(plan_record_args(&obj(vec![("date", s("2026-07-06"))])).unwrap_err(), "date / type は必須です。");
    let a = plan_record_args(&obj(vec![
        ("date", s("2026-07-06")),
        ("type", s("expense")),
        ("content", s("ignored")),
        ("todo_id", num(3)),
    ]))
    .unwrap();
    assert_eq!(a.record_type, "expense");
    assert_eq!(a.content, None);
    assert_eq!(a.todo_id, None);
    assert_eq!(a.expense_category, "その他");
    let a = plan_record_args(&obj(vec![
        ("date", s("2026-07-06")),
        ("type", s("task_done")),
        ("todo_id", num(3)),
        ("expense_category", s("食費")),
    ]))
    .unwrap();
    assert_eq!(a.todo_id, Some(3));
    assert_eq!(a.expense_category, "食費");
}

#[test]
fn task_done_record_completes_its_linked_todo() {
    assert_eq!(yuuka::timeline::plan::completed_todo("task_done", Some(7)), Some(7));
    assert_eq!(yuuka::timeline::plan::completed_todo("task_done", None), None);
    assert_eq!(yuuka::timeline::plan::completed_todo("memo", Some(7)), None);
}
