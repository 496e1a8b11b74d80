//! Errors of the merge daemon.

use vstd::prelude::*;

verus! {

/// Errors that can occur in the merge daemon.
///
/// Faults of the version-control layer, of I/O, of the database and of JSON
/// handling carry the message of the underlying error.
#[derive(Debug, Clone, PartialEq, Eq)]
pub enum DaemonError {
    Git(String),
    Io(String),
    Database(String),
    Json(String),
    AgentNotFound(String),
    SessionNotFound(String),
    BranchNotFound(String),
    MergeConflict(Vec<String>),
    /// The queue already holds as many active entries as it may (the bound).
    QueueFull(usize),
    /// The agent already holds an active entry.
    AgentAlreadyQueued(String),
    InvalidRequest(String),
    Worktree(String),
    RebaseFailed(String),
    MaxRetriesExceeded(String),
    ShuttingDown,
    Config(String),
}

impl DaemonError {
    /// The name of the error's kind, as control-channel responses carry it.
    pub open spec fn kind_name(&self) -> Seq<char> {
        match self {
            DaemonError::Git(_) => "git"@,
            DaemonError::Io(_) => "io"@,
            DaemonError::Database(_) => "database"@,
            DaemonError::Json(_) => "json"@,
            DaemonError::AgentNotFound(_) => "agent_not_found"@,
            DaemonError::SessionNotFound(_) => "session_not_found"@,
            DaemonError::BranchNotFound(_) => "branch_not_found"@,
            DaemonError::MergeConflict(_) => "merge_conflict"@,
            DaemonError::QueueFull(_) => "queue_full"@,
            DaemonError::AgentAlreadyQueued(_) => "agent_already_queued"@,
            DaemonError::InvalidRequest(_) => "invalid_request"@,
            DaemonError::Worktree(_) => "worktree"@,
            DaemonError::RebaseFailed(_) => "rebase_failed"@,
            DaemonError::MaxRetriesExceeded(_) => "max_retries_exceeded"@,
            DaemonError::ShuttingDown => "shutting_down"@,
            DaemonError::Config(_) => "config"@,
        }
    }

    /// The name of the error's kind.
    pub fn kind(&self) -> (r: String)
        ensures
            r@ == self.kind_name(),
    {
        match self {
            DaemonError::Git(_) => "git".to_owned(),
            DaemonError::Io(_) => "io".to_owned(),
            DaemonError::Database(_) => "database".to_owned(),
            DaemonError::Json(_) => "json".to_owned(),
            DaemonError::AgentNotFound(_) => "agent_not_found".to_owned(),
            DaemonError::SessionNotFound(_) => "session_not_found".to_owned(),
            DaemonError::BranchNotFound(_) => "branch_not_found".to_owned(),
            DaemonError::MergeConflict(_) => "merge_conflict".to_owned(),
            DaemonError::QueueFull(_) => "queue_full".to_owned(),
            DaemonError::AgentAlreadyQueued(_) => "agent_already_queued".to_owned(),
            DaemonError::InvalidRequest(_) => "invalid_request".to_owned(),
            DaemonError::Worktree(_) => "worktree".to_owned(),
            DaemonError::RebaseFailed(_) => "rebase_failed".to_owned(),
            DaemonError::MaxRetriesExceeded(_) => "max_retries_exceeded".to_owned(),
            DaemonError::ShuttingDown => "shutting_down".to_owned(),
            DaemonError::Config(_) => "config".to_owned(),
        }
    }
}

} // verus!
