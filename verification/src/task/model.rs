//! Task and health-check models.

use vstd::prelude::*;

verus! {

/// The lifecycle state of a submitted task.
///
/// Each variant stands for one wire value of BentoML's `ResultStatus`:
/// `pending`, `in_progress`, `completed`, `failed` and `canceled`.
#[derive(Debug, Clone, Copy, PartialEq, Eq, Structural)]
#[non_exhaustive]
pub enum TaskStatus {
    /// Queued, not yet started.
    Pending,
    /// Currently executing.
    InProgress,
    /// Finished successfully; the result can be fetched.
    Completed,
    /// Finished with an error.
    Failed,
    /// Canceled before execution.
    Canceled,
}

impl TaskStatus {
    /// Terminal states are those a task never leaves: completed, failed, canceled.
    pub open spec fn spec_is_terminal(self) -> bool {
        self is Completed || self is Failed || self is Canceled
    }

    /// Whether the task has reached a terminal state (completed, failed, canceled).
    #[verifier::when_used_as_spec(spec_is_terminal)]
    pub fn is_terminal(self) -> (r: bool)
        ensures
            r == self.spec_is_terminal(),
    {
        match self {
            TaskStatus::Completed | TaskStatus::Failed | TaskStatus::Canceled => true,
            _ => false,
        }
    }
}

/// The readiness/liveness status of a BentoML service.
///
/// BentoML exposes `/readyz` and `/livez` endpoints that signal status through the
/// HTTP status code rather than a body, so this type is a convenience for callers
/// that want to model the distinction explicitly.
#[derive(Debug, Clone, Copy, PartialEq, Eq, Structural)]
pub enum HealthStatus {
    /// The service is ready to serve requests.
    Ready,
    /// The service is alive but not yet ready.
    Live,
    /// The service is not healthy.
    Unhealthy,
}

/// The status payload returned by the `submit` and `status` task endpoints.
#[derive(Debug, Clone)]
#[non_exhaustive]
pub struct TaskInfo {
    /// The unique identifier of the task.
    pub task_id: String,
    /// The current status of the task.
    pub status: TaskStatus,
    /// When the task was submitted (a naive UTC datetime; absent from `submit`).
    pub created_at: Option<jiff::civil::DateTime>,
    /// When the task began executing, if it has started (a naive UTC datetime).
    pub executed_at: Option<jiff::civil::DateTime>,
    /// When the task finished, if it has completed (a timezone-aware instant).
    pub completed_at: Option<jiff::Timestamp>,
}

impl TaskInfo {
    /// Assembles a status payload from its parts.
    pub fn new(
        task_id: String,
        status: TaskStatus,
        created_at: Option<jiff::civil::DateTime>,
        executed_at: Option<jiff::civil::DateTime>,
        completed_at: Option<jiff::Timestamp>,
    ) -> (r: TaskInfo)
        ensures
            r.task_id@ == task_id@,
            r.status == status,
            r.created_at == created_at,
            r.executed_at == executed_at,
            r.completed_at == completed_at,
    {
        TaskInfo { task_id, status, created_at, executed_at, completed_at }
    }
}

} // verus!
