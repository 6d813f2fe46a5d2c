//! Task records as they travel to and from clients.
//!
//! A [`Todo`] is the clean view of a row: internal columns (owner, bot, linked
//! payment, reminder flag) are not fields at all.
use vstd::prelude::*;

verus! {

/// A task as returned to clients.
#[derive(Debug, Clone, PartialEq, Eq, Default)]
pub struct Todo {
    pub id: i64,
    pub title: String,
    pub description: Option<String>,
    pub due_date: Option<String>,
    pub start_date: Option<String>,
    /// `"high"`, `"medium"`, `"low"` or unset.
    pub priority: Option<String>,
    pub tags: Vec<String>,
    /// `"open"` or `"done"`.
    pub status: String,
    pub progress: i64,
    pub parent_id: Option<i64>,
    pub repeat_rule: Option<String>,
    pub repeat_until: Option<String>,
    pub repeat_count: Option<i64>,
    pub created_at: String,
    pub updated_at: String,
}

/// A request to create a task.
#[derive(Debug, Clone, PartialEq, Eq, Default)]
pub struct NewTodo {
    pub title: String,
    pub description: Option<String>,
    pub due_date: Option<String>,
    pub start_date: Option<String>,
    /// Normalised to `"high"`, `"medium"` or `"low"`; anything else is unset.
    pub priority: Option<String>,
    pub tags: Vec<String>,
    pub parent_id: Option<i64>,
    /// Cron expression of a routine task.
    pub repeat_rule: Option<String>,
    /// Last day of a routine, `YYYY-MM-DD`.
    pub repeat_until: Option<String>,
    /// Number of runs of a routine, the first included.
    pub repeat_count: Option<i64>,
}

/// What an update does to the priority: keep it, clear it, or set it.
#[derive(Debug, Clone, PartialEq, Eq, Default)]
pub enum PriorityUpdate {
    /// Left as it is (field absent or not a known priority).
    #[default]
    Unchanged,
    /// Cleared (`null` or `""`).
    Clear,
    /// Set to a normalised priority.
    SetTo(String),
}

/// A task with its subtasks, nested, and its computed progress.
#[derive(Debug, Default)]
pub struct TodoWithSubtasks {
    pub id: i64,
    pub title: String,
    pub description: Option<String>,
    pub due_date: Option<String>,
    pub start_date: Option<String>,
    pub priority: Option<String>,
    pub tags: Vec<String>,
    pub status: String,
    pub progress: i64,
    pub parent_id: Option<i64>,
    pub repeat_rule: Option<String>,
    pub repeat_until: Option<String>,
    pub repeat_count: Option<i64>,
    pub created_at: String,
    pub updated_at: String,
    /// The subtasks, each with its own.
    pub subtasks: Vec<TodoWithSubtasks>,
    /// Computed progress, 0 to 100.
    pub effective_progress: i64,
}

/// The payload of a task listing: root tasks with their subtasks.
#[derive(Debug, Default)]
pub struct TaskListData {
    pub tasks: Vec<TodoWithSubtasks>,
}

/// The payload that carries one task.
#[derive(Debug, Clone, PartialEq, Eq, Default)]
pub struct TaskData {
    pub task: Todo,
}

/// One entry of a task's progress history.
#[derive(Debug, Clone, PartialEq, Eq, Default)]
pub struct TaskProgressLog {
    pub id: i64,
    pub todo_id: i64,
    pub progress: i64,
    pub note: Option<String>,
    pub created_at: String,
}

/// The payload of a task's detail view.
#[derive(Debug, Default)]
pub struct TaskDetailData {
    pub task: Todo,
    pub subtasks: Vec<TodoWithSubtasks>,
    pub effective_progress: i64,
    pub progress_logs: Vec<TaskProgressLog>,
}

/// A partial update of a task: `None` leaves a field as it is. An empty
/// `due_date` or `start_date` clears it.
#[derive(Debug, Clone, PartialEq, Eq, Default)]
pub struct TodoUpdate {
    pub id: i64,
    pub title: Option<String>,
    pub description: Option<String>,
    pub due_date: Option<String>,
    pub start_date: Option<String>,
    pub priority: PriorityUpdate,
    /// `"open"` or `"done"`; anything else is left out.
    pub status: Option<String>,
}

/// A manual progress report.
#[derive(Debug, Clone, PartialEq, Eq, Default)]
pub struct TodoProgress {
    pub id: i64,
    pub progress: i64,
    pub note: Option<String>,
}

} // verus!
