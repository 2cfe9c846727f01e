//! The task that runs a retrieval turn, as the session sees it.

use vstd::prelude::*;

verus! {

/// How the session treats a task.
#[derive(Clone, Copy, Debug, PartialEq, Eq, Structural)]
pub enum TaskKind {
    Regular,
}

/// A retrieval turn as a session task.
#[derive(Clone, Copy, Debug)]
pub struct GongTask;

impl GongTask {
    /// The task.
    pub fn new() -> (task: GongTask)
        ensures
            task == GongTask,
    {
        GongTask
    }

    /// A retrieval turn is an ordinary turn.
    pub fn kind(&self) -> (kind: TaskKind)
        ensures
            kind == TaskKind::Regular,
    {
        TaskKind::Regular
    }

    /// The name under which the turn is traced.
    pub fn span_name(&self) -> (name: &'static str)
        ensures
            name@ == "session_task.gong"@,
    {
        "session_task.gong"
    }
}

} // verus!
