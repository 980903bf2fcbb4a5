//! One row of the task table.

use vstd::prelude::*;
use crate::status::Status;

verus! {

/// The priority a task gets when none is given.
pub const DEFAULT_PRIORITY: i64 = 3;

/// A unit of trackable work.
#[derive(Debug)]
pub struct Task {
    pub id: i64,
    pub task: String,
    pub status: Status,
    pub priority: i64,
    pub created_at: i64,
    pub due_at: Option<i64>,
}

impl Task {
    /// The same row with another status; every other field is kept.
    pub open spec fn with_status(self, status: Status) -> Task {
        Task {
            id: self.id,
            task: self.task,
            status: status,
            priority: self.priority,
            created_at: self.created_at,
            due_at: self.due_at,
        }
    }
}

impl Clone for Task {
    fn clone(&self) -> (r: Task)
        ensures
            r == *self,
    {
        Task {
            id: self.id,
            task: self.task.clone(),
            status: self.status,
            priority: self.priority,
            created_at: self.created_at,
            due_at: self.due_at,
        }
    }
}

} // verus!
