//! Configuration of the merge daemon.

use vstd::prelude::*;

verus! {

/// How an agent branch is integrated into the target branch.
#[derive(Debug, Clone, Copy, PartialEq, Eq, Structural)]
pub enum MergeStrategy {
    /// Standard merge commit
    Merge,
    /// Rebase and fast-forward
    Rebase,
    /// Squash all commits into one
    Squash,
}

/// Daemon configuration
#[derive(Debug, Clone)]
pub struct Config {
    /// Maximum number of entries in the merge queue
    pub max_queue_size: usize,
    /// Maximum concurrent merge attempts (usually 1 for safety)
    pub max_concurrent_merges: usize,
    /// Maximum retry attempts for failed merges
    pub max_retries: u32,
    /// Merge strategy
    pub merge_strategy: MergeStrategy,
    /// Timeout for merge operations in seconds
    pub merge_timeout_secs: u64,
    /// Whether to automatically rebase on conflict
    pub auto_rebase: bool,
    /// Branch prefix for agent branches
    pub agent_branch_prefix: String,
    /// Branch prefix for feature branches
    pub feature_branch_prefix: String,
    /// Worktree directory (relative to repo root)
    pub worktree_dir: String,
    /// Whether to preserve worktrees on merge success (for debugging)
    pub preserve_worktrees: bool,
    /// Cleanup stale sessions after this many seconds
    pub session_timeout_secs: u64,
    /// Whether an entry retried after a conflict goes to the back of the
    /// queue (behind later arrivals) rather than being retried in place
    pub requeue_conflicts_to_back: bool,
}

impl Config {
    /// The values of the default configuration.
    pub open spec fn is_default(&self) -> bool {
        &&& self.max_queue_size == 100
        &&& self.max_concurrent_merges == 1
        &&& self.max_retries == 3
        &&& self.merge_strategy == MergeStrategy::Rebase
        &&& self.merge_timeout_secs == 300
        &&& self.auto_rebase
        &&& self.agent_branch_prefix@ == "agent/"@
        &&& self.feature_branch_prefix@ == "feature/"@
        &&& self.worktree_dir@ == ".worktrees"@
        &&& !self.preserve_worktrees
        &&& self.session_timeout_secs == 3600
        &&& self.requeue_conflicts_to_back
    }
}

impl Default for Config {
    fn default() -> (r: Self)
        ensures
            r.is_default(),
    {
        Config {
            max_queue_size: 100,
            max_concurrent_merges: 1,
            max_retries: 3,
            merge_strategy: MergeStrategy::Rebase,
            merge_timeout_secs: 300,
            auto_rebase: true,
            agent_branch_prefix: "agent/".to_owned(),
            feature_branch_prefix: "feature/".to_owned(),
            worktree_dir: ".worktrees".to_owned(),
            preserve_worktrees: false,
            session_timeout_secs: 3600,
            requeue_conflicts_to_back: true,
        }
    }
}

} // verus!
