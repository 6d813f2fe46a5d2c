//! Day plans: checking requests, the column assignments of a block update,
//! and reading the arguments of the assistant's timeline tools.
use vstd::prelude::*;

use super::dto::{NewDayPlanBlock, UpdatePlanBlock};
use crate::json::{as_str, as_str_spec, get, get_spec, opt_view, JsonValue};
use crate::num::{digits_of, format_u64, parse_i64, parse_i64_spec};
use crate::text::{chars_of, is_blank, push_str, str_eq, trim, trim_str};
use crate::todo::args::{arg_str, arg_str_spec};
use crate::web::auth::WebError;

verus! {

/// The message of a `400` refusal, when `r` is one.
pub open spec fn validation_message(r: Result<(), WebError>) -> Option<Seq<char>> {
    match r {
        Err(WebError::Validation(m)) => Some(m@),
        _ => None,
    }
}

/// Checks a request to add a block (`POST /api/timeline/plan`): date, type
/// and title must each be non-blank, in that order.
pub fn check_new_plan(input: &NewDayPlanBlock) -> (r: Result<(), WebError>)
    ensures
        r is Ok <==> (trim(input.date@).len() > 0 && trim(input.block_type@).len() > 0 && trim(
            input.title@,
        ).len() > 0),
        trim(input.date@).len() == 0 ==> validation_message(r) == Some("date is required"@),
        trim(input.date@).len() > 0 && trim(input.block_type@).len() == 0 ==> validation_message(r)
            == Some("type is required"@),
        trim(input.date@).len() > 0 && trim(input.block_type@).len() > 0 && trim(input.title@).len()
            == 0 ==> validation_message(r) == Some("title is required"@),
{
    if is_blank(input.date.as_str()) {
        return Err(WebError::Validation("date is required".to_owned()));
    }
    if is_blank(input.block_type.as_str()) {
        return Err(WebError::Validation("type is required".to_owned()));
    }
    if is_blank(input.title.as_str()) {
        return Err(WebError::Validation("title is required".to_owned()));
    }
    Ok(())
}

/// Checks the id of a block update or delete: `0` (or a missing id) is
/// refused.
pub fn check_plan_id(id: i64) -> (r: Result<(), WebError>)
    ensures
        r is Ok <==> id != 0,
        id == 0 ==> validation_message(r) == Some("id is required"@),
{
    if id == 0 {
        return Err(WebError::Validation("id is required".to_owned()));
    }
    Ok(())
}

/// Checks a request to add a record (`POST /api/timeline/record`): date and
/// type must be non-blank.
pub fn check_new_record(date: &str, record_type: &str) -> (r: Result<(), WebError>)
    ensures
        r is Ok <==> (trim(date@).len() > 0 && trim(record_type@).len() > 0),
        trim(date@).len() == 0 ==> validation_message(r) == Some("date is required"@),
        trim(date@).len() > 0 && trim(record_type@).len() == 0 ==> validation_message(r) == Some(
            "type is required"@,
        ),
{
    if is_blank(date) {
        return Err(WebError::Validation("date is required".to_owned()));
    }
    if is_blank(record_type) {
        return Err(WebError::Validation("type is required".to_owned()));
    }
    Ok(())
}

/// Checks a media upload (`POST /api/timeline/media`): date, data and media
/// type must all be non-blank.
pub fn check_media_upload(date: &str, base64: &str, mime_type: &str) -> (r: Result<(), WebError>)
    ensures
        r is Ok <==> (trim(date@).len() > 0 && trim(base64@).len() > 0 && trim(mime_type@).len()
            > 0),
        r is Err ==> validation_message(r) == Some("date / base64 / mimeType are required"@),
{
    if is_blank(date) || is_blank(base64) || is_blank(mime_type) {
        return Err(WebError::Validation("date / base64 / mimeType are required".to_owned()));
    }
    Ok(())
}

/// The day of a day listing: the query date unless it is blank, in which
/// case today is meant.
pub fn day_date(date: Option<String>) -> (r: Option<String>)
    ensures
        r == match date {
            Some(d) => if trim(d@).len() > 0 {
                Some(d)
            } else {
                None::<String>
            },
            None => None,
        },
{
    match date {
        Some(d) => if is_blank(d.as_str()) {
            None
        } else {
            Some(d)
        },
        None => None,
    }
}

/// The position a new block is stored at: as given, otherwise `0`.
pub fn plan_position(position: Option<i64>) -> (r: i64)
    ensures
        r == match position {
            Some(p) => p,
            None => 0,
        },
{
    match position {
        Some(p) => p,
        None => 0,
    }
}

/// One column assignment of a block update. `None` writes SQL `NULL`.
#[derive(Debug, Clone, PartialEq, Eq)]
pub enum PlanSet {
    /// The update time, set to now on every update.
    UpdatedAt,
    Title(String),
    Description(Option<String>),
    BlockType(String),
    StartTime(Option<String>),
    EndTime(Option<String>),
    TodoId(Option<i64>),
    TransitFrom(Option<String>),
    TransitTo(Option<String>),
    TransitLine(Option<String>),
}

pub open spec fn title_part(f: Option<String>) -> Seq<PlanSet> {
    match f {
        Some(t) => seq![PlanSet::Title(t)],
        None => seq![],
    }
}

fn push_title(out: &mut Vec<PlanSet>, f: Option<String>)
    ensures
        final(out)@ == old(out)@ + title_part(f),
{
    let ghost start = out@;
    match f {
        Some(t) => out.push(PlanSet::Title(t)),
        None => {},
    }
    assert(out@ =~= start + title_part(f));
}

pub open spec fn description_part(f: Option<String>) -> Seq<PlanSet> {
    match f {
        Some(d) => seq![PlanSet::Description(if d@.len() == 0 { None } else { Some(d) })],
        None => seq![],
    }
}

fn push_description(out: &mut Vec<PlanSet>, f: Option<String>)
    ensures
        final(out)@ == old(out)@ + description_part(f),
{
    let ghost start = out@;
    match f {
        Some(d) => {
            let empty = chars_of(d.as_str()).len() == 0;
            if empty {
                out.push(PlanSet::Description(None));
            } else {
                out.push(PlanSet::Description(Some(d)));
            }
        },
        None => {},
    }
    assert(out@ =~= start + description_part(f));
}

pub open spec fn block_type_part(f: Option<String>) -> Seq<PlanSet> {
    match f {
        Some(t) => seq![PlanSet::BlockType(t)],
        None => seq![],
    }
}

fn push_block_type(out: &mut Vec<PlanSet>, f: Option<String>)
    ensures
        final(out)@ == old(out)@ + block_type_part(f),
{
    let ghost start = out@;
    match f {
        Some(t) => out.push(PlanSet::BlockType(t)),
        None => {},
    }
    assert(out@ =~= start + block_type_part(f));
}

pub open spec fn start_time_part(f: Option<Option<String>>) -> Seq<PlanSet> {
    match f {
        Some(v) => seq![PlanSet::StartTime(v)],
        None => seq![],
    }
}

fn push_start_time(out: &mut Vec<PlanSet>, f: Option<Option<String>>)
    ensures
        final(out)@ == old(out)@ + start_time_part(f),
{
    let ghost start = out@;
    match f {
        Some(v) => out.push(PlanSet::StartTime(v)),
        None => {},
    }
    assert(out@ =~= start + start_time_part(f));
}

pub open spec fn end_time_part(f: Option<Option<String>>) -> Seq<PlanSet> {
    match f {
        Some(v) => seq![PlanSet::EndTime(v)],
        None => seq![],
    }
}

fn push_end_time(out: &mut Vec<PlanSet>, f: Option<Option<String>>)
    ensures
        final(out)@ == old(out)@ + end_time_part(f),
{
    let ghost start = out@;
    match f {
        Some(v) => out.push(PlanSet::EndTime(v)),
        None => {},
    }
    assert(out@ =~= start + end_time_part(f));
}

pub open spec fn todo_id_part(f: Option<Option<i64>>) -> Seq<PlanSet> {
    match f {
        Some(v) => seq![PlanSet::TodoId(v)],
        None => seq![],
    }
}

fn push_todo_id(out: &mut Vec<PlanSet>, f: Option<Option<i64>>)
    ensures
        final(out)@ == old(out)@ + todo_id_part(f),
{
    let ghost start = out@;
    match f {
        Some(v) => out.push(PlanSet::TodoId(v)),
        None => {},
    }
    assert(out@ =~= start + todo_id_part(f));
}

pub open spec fn transit_from_part(f: Option<Option<String>>) -> Seq<PlanSet> {
    match f {
        Some(v) => seq![PlanSet::TransitFrom(v)],
        None => seq![],
    }
}

fn push_transit_from(out: &mut Vec<PlanSet>, f: Option<Option<String>>)
    ensures
        final(out)@ == old(out)@ + transit_from_part(f),
{
    let ghost start = out@;
    match f {
        Some(v) => out.push(PlanSet::TransitFrom(v)),
        None => {},
    }
    assert(out@ =~= start + transit_from_part(f));
}

pub open spec fn transit_to_part(f: Option<Option<String>>) -> Seq<PlanSet> {
    match f {
        Some(v) => seq![PlanSet::TransitTo(v)],
        None => seq![],
    }
}

fn push_transit_to(out: &mut Vec<PlanSet>, f: Option<Option<String>>)
    ensures
        final(out)@ == old(out)@ + transit_to_part(f),
{
    let ghost start = out@;
    match f {
        Some(v) => out.push(PlanSet::TransitTo(v)),
        None => {},
    }
    assert(out@ =~= start + transit_to_part(f));
}

pub open spec fn transit_line_part(f: Option<Option<String>>) -> Seq<PlanSet> {
    match f {
        Some(v) => seq![PlanSet::TransitLine(v)],
        None => seq![],
    }
}

fn push_transit_line(out: &mut Vec<PlanSet>, f: Option<Option<String>>)
    ensures
        final(out)@ == old(out)@ + transit_line_part(f),
{
    let ghost start = out@;
    match f {
        Some(v) => out.push(PlanSet::TransitLine(v)),
        None => {},
    }
    assert(out@ =~= start + transit_line_part(f));
}

/// The assignments of a block update, in column order: the update time
/// always, then each field that was sent. An empty description clears it.
pub open spec fn plan_update_clauses_spec(u: UpdatePlanBlock) -> Seq<PlanSet> {
    seq![PlanSet::UpdatedAt] + title_part(u.title) + description_part(u.description)
        + block_type_part(u.block_type) + start_time_part(u.start_time) + end_time_part(u.end_time)
        + todo_id_part(u.todo_id) + transit_from_part(u.transit_from) + transit_to_part(
        u.transit_to,
    ) + transit_line_part(u.transit_line)
}

/// The assignments that a block update makes (`update_plan`). The update
/// time is always among them, so a block that exists is always written.
pub fn plan_update_clauses(u: UpdatePlanBlock) -> (r: Vec<PlanSet>)
    ensures
        r@ == plan_update_clauses_spec(u),
        r@.len() >= 1,
        r@[0] == PlanSet::UpdatedAt,
{
    let mut out: Vec<PlanSet> = vec![PlanSet::UpdatedAt];
    assert(out@ =~= seq![PlanSet::UpdatedAt]);
    push_title(&mut out, u.title);
    push_description(&mut out, u.description);
    push_block_type(&mut out, u.block_type);
    push_start_time(&mut out, u.start_time);
    push_end_time(&mut out, u.end_time);
    push_todo_id(&mut out, u.todo_id);
    push_transit_from(&mut out, u.transit_from);
    push_transit_to(&mut out, u.transit_to);
    push_transit_line(&mut out, u.transit_line);
    out
}

/// A block update that sends no field only touches the update time.
pub proof fn lemma_empty_update_touches_time_only(u: UpdatePlanBlock)
    requires
        u.title is None,
        u.description is None,
        u.block_type is None,
        u.start_time is None,
        u.end_time is None,
        u.todo_id is None,
        u.transit_from is None,
        u.transit_to is None,
        u.transit_line is None,
    ensures
        plan_update_clauses_spec(u) == seq![PlanSet::UpdatedAt],
{
    assert(plan_update_clauses_spec(u) =~= seq![PlanSet::UpdatedAt]);
}

/// An integer tool argument: an integer number, any other number truncated
/// toward zero, or a string that reads as an `i64` once trimmed.
pub open spec fn tool_arg_i64_spec(args: JsonValue, key: Seq<char>) -> Option<i64> {
    match get_spec(args, key) {
        Some(JsonValue::Number(n)) => match n.int {
            Some(i) => Some(i),
            None => Some(n.truncated),
        },
        Some(JsonValue::Str(s)) => parse_i64_spec(trim(s@)),
        _ => None,
    }
}

/// An integer tool argument (`arg_i64` of the timeline tools).
pub fn tool_arg_i64(args: &JsonValue, key: &str) -> (r: Option<i64>)
    ensures
        r == tool_arg_i64_spec(*args, key@),
{
    match get(args, key) {
        Some(JsonValue::Number(n)) => match n.int {
            Some(i) => Some(i),
            None => Some(n.truncated),
        },
        Some(JsonValue::Str(s)) => {
            let t = trim_str(s.as_str());
            let cs = chars_of(t.as_str());
            parse_i64(cs.as_slice())
        },
        _ => None,
    }
}

/// The kinds a block may have; any other kind is stored as `"free"`.
pub open spec fn block_type_spec(t: Seq<char>) -> Seq<char> {
    if t == "task"@ || t == "transit"@ || t == "event"@ || t == "free"@ {
        t
    } else {
        "free"@
    }
}

/// A block's kind, kept when it is one of the four and `"free"` otherwise.
pub fn normalize_block_type(t: String) -> (r: String)
    ensures
        r@ == block_type_spec(t@),
{
    let s = t.as_str();
    if str_eq(s, "task") || str_eq(s, "transit") || str_eq(s, "event") || str_eq(s, "free") {
        t
    } else {
        "free".to_owned()
    }
}

/// Reads the arguments of `createDayPlanBlock`: date, type and title are
/// required; the type is normalized and the position left to its default.
pub fn plan_create_block(args: &JsonValue) -> (r: Result<NewDayPlanBlock, &'static str>)
    ensures
        r is Ok <==> (arg_str_spec(*args, "date"@) is Some && arg_str_spec(*args, "type"@) is Some
            && arg_str_spec(*args, "title"@) is Some),
        r matches Err(m) ==> m@ == "date / type / title は必須です。"@,
        r matches Ok(b) ==> {
            &&& Some(b.date@) == arg_str_spec(*args, "date"@)
            &&& Some(b.title@) == arg_str_spec(*args, "title"@)
            &&& b.block_type@ == block_type_spec(arg_str_spec(*args, "type"@)->0)
            &&& opt_view(b.description) == arg_str_spec(*args, "description"@)
            &&& opt_view(b.start_time) == arg_str_spec(*args, "start_time"@)
            &&& opt_view(b.end_time) == arg_str_spec(*args, "end_time"@)
            &&& b.todo_id == tool_arg_i64_spec(*args, "todo_id"@)
            &&& opt_view(b.transit_from) == arg_str_spec(*args, "transit_from"@)
            &&& opt_view(b.transit_to) == arg_str_spec(*args, "transit_to"@)
            &&& opt_view(b.transit_line) == arg_str_spec(*args, "transit_line"@)
            &&& b.position is None
        },
{
    let date = arg_str(args, "date");
    let block_type = arg_str(args, "type");
    let title = arg_str(args, "title");
    match (date, block_type, title) {
        (Some(date), Some(block_type), Some(title)) => Ok(
            NewDayPlanBlock {
                date,
                block_type: normalize_block_type(block_type),
                title,
                description: arg_str(args, "description"),
                start_time: arg_str(args, "start_time"),
                end_time: arg_str(args, "end_time"),
                todo_id: tool_arg_i64(args, "todo_id"),
                transit_from: arg_str(args, "transit_from"),
                transit_to: arg_str(args, "transit_to"),
                transit_line: arg_str(args, "transit_line"),
                position: None,
            },
        ),
        _ => Err("date / type / title は必須です。"),
    }
}

/// The message after adding the block `title`.
pub fn block_created_message(title: &str) -> (r: String)
    ensures
        r@ == "計画ブロック「"@ + title@ + "」を追加しました。"@,
{
    let mut r = "計画ブロック「".to_owned();
    push_str(&mut r, title);
    push_str(&mut r, "」を追加しました。");
    r
}

/// Reads the arguments of `deleteDayPlanBlock`: the block's id.
pub fn plan_delete_block(args: &JsonValue) -> (r: Result<i64, &'static str>)
    ensures
        r matches Ok(id) ==> tool_arg_i64_spec(*args, "id"@) == Some(id),
        r is Err <==> tool_arg_i64_spec(*args, "id"@) is None,
        r matches Err(m) ==> m@ == "id が必要です。"@,
{
    match tool_arg_i64(args, "id") {
        Some(id) => Ok(id),
        None => Err("id が必要です。"),
    }
}

/// The message after deleting a block, by whether one was removed.
pub fn block_deleted_message(ok: bool) -> (r: &'static str)
    ensures
        r@ == if ok {
            "削除しました。"@
        } else {
            "ブロックが見つかりません。"@
        },
{
    if ok {
        "削除しました。"
    } else {
        "ブロックが見つかりません。"
    }
}

/// The day named in a listing's message: the date, or "今日" (today).
pub fn day_label(date: Option<&str>) -> (r: String)
    ensures
        r@ == match date {
            Some(d) => d@,
            None => "今日"@,
        },
{
    match date {
        Some(d) => crate::text::copy_str(d),
        None => "今日".to_owned(),
    }
}

/// The message of `listDayPlan`: that the day is empty, or how many blocks
/// and records it has.
pub fn day_plan_message(label: &str, blocks: u64, records: u64) -> (r: String)
    ensures
        blocks == 0 && records == 0 ==> r@ == label@ + " の計画・記録はまだありません。"@,
        !(blocks == 0 && records == 0) ==> r@ == label@ + " の計画 "@ + digits_of(blocks as nat)
            + " 件・記録 "@ + digits_of(records as nat) + " 件です。"@,
{
    let mut r = crate::text::copy_str(label);
    if blocks == 0 && records == 0 {
        push_str(&mut r, " の計画・記録はまだありません。");
    } else {
        push_str(&mut r, " の計画 ");
        let b = format_u64(blocks);
        push_str(&mut r, b.as_str());
        push_str(&mut r, " 件・記録 ");
        let c = format_u64(records);
        push_str(&mut r, c.as_str());
        push_str(&mut r, " 件です。");
    }
    r
}

/// The arguments of `addTimelineRecord` other than the amount of an expense.
#[derive(Debug)]
pub struct RecordArgs {
    pub date: String,
    pub record_type: String,
    pub recorded_at: Option<String>,
    pub title: Option<String>,
    /// Not read for an expense.
    pub content: Option<String>,
    /// Not read for an expense.
    pub todo_id: Option<i64>,
    pub location: Option<String>,
    /// The category of an expense: as given, otherwise "その他".
    pub expense_category: String,
}

/// Whether a record kind is an expense.
pub open spec fn is_expense(t: Seq<char>) -> bool {
    t == "expense"@
}

/// Reads the arguments of `addTimelineRecord`: date and type are required.
pub fn plan_record_args(args: &JsonValue) -> (r: Result<RecordArgs, &'static str>)
    ensures
        r is Ok <==> (arg_str_spec(*args, "date"@) is Some && arg_str_spec(*args, "type"@) is Some),
        r matches Err(m) ==> m@ == "date / type は必須です。"@,
        r matches Ok(a) ==> {
            &&& Some(a.date@) == arg_str_spec(*args, "date"@)
            &&& Some(a.record_type@) == arg_str_spec(*args, "type"@)
            &&& opt_view(a.recorded_at) == arg_str_spec(*args, "recorded_at"@)
            &&& opt_view(a.title) == arg_str_spec(*args, "title"@)
            &&& opt_view(a.location) == arg_str_spec(*args, "location"@)
            &&& is_expense(a.record_type@) ==> a.content is None && a.todo_id is None
            &&& !is_expense(a.record_type@) ==> opt_view(a.content) == arg_str_spec(
                *args,
                "content"@,
            ) && a.todo_id == tool_arg_i64_spec(*args, "todo_id"@)
            &&& a.expense_category@ == match arg_str_spec(*args, "expense_category"@) {
                Some(c) => c,
                None => "その他"@,
            }
        },
{
    let date = arg_str(args, "date");
    let record_type = arg_str(args, "type");
    match (date, record_type) {
        (Some(date), Some(record_type)) => {
            let expense = str_eq(record_type.as_str(), "expense");
            let (content, todo_id) = if expense {
                (None, None)
            } else {
                (arg_str(args, "content"), tool_arg_i64(args, "todo_id"))
            };
            let expense_category = match arg_str(args, "expense_category") {
                Some(c) => c,
                None => "その他".to_owned(),
            };
            Ok(
                RecordArgs {
                    date,
                    record_type,
                    recorded_at: arg_str(args, "recorded_at"),
                    title: arg_str(args, "title"),
                    content,
                    todo_id,
                    location: arg_str(args, "location"),
                    expense_category,
                },
            )
        },
        _ => Err("date / type は必須です。"),
    }
}

/// The task a new record completes: a `task_done` record that names a task
/// marks that task done, in the same transaction as the record.
pub open spec fn completed_todo_spec(record_type: Seq<char>, todo_id: Option<i64>) -> Option<i64> {
    if record_type == "task_done"@ {
        todo_id
    } else {
        None
    }
}

pub fn completed_todo(record_type: &str, todo_id: Option<i64>) -> (r: Option<i64>)
    ensures
        r == completed_todo_spec(record_type@, todo_id),
{
    if str_eq(record_type, "task_done") {
        todo_id
    } else {
        None
    }
}

/// The four block kinds `task`, `transit`, `event` and `free` are kept as
/// they are; any other kind becomes `free`.
pub proof fn lemma_block_kinds_kept(t: Seq<char>)
    ensures
        seq!["task"@, "transit"@, "event"@, "free"@].contains(t) ==> block_type_spec(t) == t,
        !seq!["task"@, "transit"@, "event"@, "free"@].contains(t) ==> block_type_spec(t) == "free"@,
        seq!["task"@, "transit"@, "event"@, "free"@].contains(block_type_spec(t)),
{
    let kinds = seq!["task"@, "transit"@, "event"@, "free"@];
    assert(kinds[0] == "task"@ && kinds[1] == "transit"@ && kinds[2] == "event"@ && kinds[3] == "free"@);
    if kinds.contains(t) {
        let i = choose|i: int| 0 <= i < kinds.len() && kinds[i] == t;
        assert(t == kinds[i]);
    }
}

} // verus!
