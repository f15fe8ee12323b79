//! The command-line surface: one subcommand per operation and its
//! arguments, as parsed from the command line.

use vstd::prelude::*;

verus! {

/// The parsed command line.
#[derive(Debug)]
pub struct Cli {
    pub command: Commands,
}

#[derive(Debug)]
pub enum Commands {
    /// Add a new task.
    Add(AddArgs),
    /// List and search tasks.
    List(ListArgs),
    /// Show one task in detail.
    Show(ShowArgs),
    /// Update a task.
    Update(UpdateArgs),
    /// Mark a task done (a shortcut for status=done).
    Complete(CompleteArgs),
    /// Delete a task.
    Delete(DeleteArgs),
}

#[derive(Debug)]
pub struct AddArgs {
    /// Title of the task.
    pub title: String,
    /// Description.
    pub description: Option<String>,
    /// Status (todo|in_progress|done|blocked); `todo` when not given.
    pub status: String,
    /// Priority (low|medium|high|urgent); `medium` when not given.
    pub priority: String,
    /// Name of the assigned agent.
    pub assigned: Option<String>,
    /// Comma-separated tags, e.g. "backend,bugfix".
    pub tags: Option<String>,
    /// Due date (YYYY-MM-DD or RFC3339).
    pub due: Option<String>,
}

#[derive(Debug)]
pub struct ListArgs {
    /// Only tasks with this status.
    pub status: Option<String>,
    /// Only tasks assigned to this agent.
    pub assigned: Option<String>,
    /// Only tasks with this priority.
    pub priority: Option<String>,
    /// Only tasks carrying this tag.
    pub tag: Option<String>,
    /// Include done tasks.
    pub all: bool,
    /// Output JSON.
    pub json: bool,
}

#[derive(Debug)]
pub struct ShowArgs {
    /// Task id.
    pub id: i64,
    /// Output JSON.
    pub json: bool,
}

#[derive(Debug)]
pub struct UpdateArgs {
    /// Task id.
    pub id: i64,
    /// New title.
    pub title: Option<String>,
    /// New description.
    pub description: Option<String>,
    /// New status (todo|in_progress|done|blocked).
    pub status: Option<String>,
    /// New priority (low|medium|high|urgent).
    pub priority: Option<String>,
    /// New assigned agent.
    pub assigned: Option<String>,
    /// New tags (comma-separated).
    pub tags: Option<String>,
    /// New due date.
    pub due: Option<String>,
}

#[derive(Debug)]
pub struct CompleteArgs {
    /// Task id.
    pub id: i64,
}

#[derive(Debug)]
pub struct DeleteArgs {
    /// Task id.
    pub id: i64,
}

} // verus!
