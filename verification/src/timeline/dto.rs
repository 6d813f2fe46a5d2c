//! Day-plan blocks and media uploads as they travel to and from clients.
use vstd::prelude::*;

verus! {

/// A block of a day plan.
#[derive(Debug, Clone, PartialEq, Eq, Default)]
pub struct DayPlanBlock {
    pub id: i64,
    pub date: String,
    pub start_time: Option<String>,
    pub end_time: Option<String>,
    /// `"task"`, `"transit"`, `"event"` or `"free"` (the wire name is `type`).
    pub block_type: String,
    pub title: String,
    pub description: Option<String>,
    pub todo_id: Option<i64>,
    pub transit_from: Option<String>,
    pub transit_to: Option<String>,
    pub transit_line: Option<String>,
    pub position: i64,
    pub created_at: String,
    pub updated_at: String,
}

/// A request to add a block.
#[derive(Debug, Clone, PartialEq, Eq, Default)]
pub struct NewDayPlanBlock {
    pub date: String,
    pub block_type: String,
    pub title: String,
    pub description: Option<String>,
    pub start_time: Option<String>,
    pub end_time: Option<String>,
    pub todo_id: Option<i64>,
    pub transit_from: Option<String>,
    pub transit_to: Option<String>,
    pub transit_line: Option<String>,
    pub position: Option<i64>,
}

/// A partial update of a block. The outer `Option` of the nullable fields
/// says whether the key was sent; `Some(None)` clears the column.
#[derive(Debug, Clone, PartialEq, Eq, Default)]
pub struct UpdatePlanBlock {
    pub id: i64,
    pub title: Option<String>,
    pub description: Option<String>,
    pub block_type: Option<String>,
    pub start_time: Option<Option<String>>,
    pub end_time: Option<Option<String>>,
    pub todo_id: Option<Option<i64>>,
    pub transit_from: Option<Option<String>>,
    pub transit_to: Option<Option<String>>,
    pub transit_line: Option<Option<String>>,
}

/// The payload that carries one block.
#[derive(Debug, Clone, PartialEq, Eq, Default)]
pub struct DayPlanBlockData {
    pub block: DayPlanBlock,
}

/// A base64 media upload.
#[derive(Debug, Clone, PartialEq, Eq, Default)]
pub struct NewTimelineMedia {
    pub date: String,
    pub base64: String,
    pub mime_type: String,
    pub recorded_at: Option<String>,
    pub title: Option<String>,
    pub content: Option<String>,
    pub location: Option<String>,
}

} // verus!
