//! Queue entries, their lifecycle states, and merge-history records.

use vstd::prelude::*;

verus! {

/// Lifecycle state of a queue entry.
#[derive(Debug, Clone, Copy, PartialEq, Eq, Structural)]
pub enum EntryStatus {
    Pending,
    Processing,
    Completed,
    Conflict,
    Failed,
}

impl EntryStatus {
    /// Completed and Failed are terminal: no transition leaves them.
    pub open spec fn is_terminal(self) -> bool {
        self is Completed || self is Failed
    }
}

/// One agent's request to integrate its branch into the target branch.
#[derive(Debug, Clone)]
pub struct QueueEntry {
    /// Opaque identifier, fixed at enqueue time.
    pub id: u128,
    /// Sequence number: the entry's place in the FIFO order.
    pub seq: u64,
    pub agent_id: String,
    pub session_id: String,
    pub branch: String,
    /// Path of the agent's isolated working tree.
    pub worktree: String,
    pub target_branch: String,
    /// Merge attempts that did not succeed.
    pub attempts: u32,
    /// Enqueue time, in milliseconds since the Unix epoch.
    pub queued_at: i64,
    pub status: EntryStatus,
    pub last_error: Option<String>,
    /// Paths in conflict; non-empty only while the status is Conflict.
    pub conflict_files: Vec<String>,
}

/// Audit row of one successful merge.
#[derive(Debug, Clone)]
pub struct MergeRecord {
    pub entry_id: u128,
    /// Sequence number of the entry when it was merged.
    pub seq: u64,
    pub agent_id: String,
    pub session_id: String,
    pub commit_sha: String,
    /// Merge time, in milliseconds since the Unix epoch.
    pub merged_at: i64,
}

/// What the merge executor reports for one attempt.
#[derive(Debug, Clone)]
pub enum MergeOutcome {
    /// The merge landed; the resulting commit id.
    Success(String),
    /// The merge stopped on conflicts in these files.
    Conflict(Vec<String>),
    /// A transient failure (timeout, worktree or VCS error) with its message.
    Failure(String),
}

/// A write that the durable store must perform, in the order given.
#[derive(Debug, Clone)]
pub enum StoreOp {
    /// Insert or replace the entry's row.
    SaveEntry(QueueEntry),
    /// Remove the entry's row from the active table.
    DeleteEntry(u128),
    /// Append a merge-history row.
    RecordMerge(MergeRecord),
}

/// Whether the writes of a transition leave the entry in a terminal state.
pub open spec fn reaches_terminal(ops: Seq<StoreOp>) -> bool {
    exists|k: int| 0 <= k < ops.len() && saves_terminal(#[trigger] ops[k])
}

/// The write saves an entry in a terminal state.
pub open spec fn saves_terminal(op: StoreOp) -> bool {
    match op {
        StoreOp::SaveEntry(e) => e.status.is_terminal(),
        _ => false,
    }
}

/// Whether the entry's worktree is removed after a transition: it reached
/// a terminal state and worktrees are not preserved.
pub fn cleans_worktree(ops: &Vec<StoreOp>, preserve_worktrees: bool) -> (r: bool)
    ensures
        r == (!preserve_worktrees && reaches_terminal(ops@)),
{
    !preserve_worktrees && any_terminal_save(ops)
}

/// Whether some write saves an entry in a terminal state.
fn any_terminal_save(ops: &Vec<StoreOp>) -> (r: bool)
    ensures
        r == reaches_terminal(ops@),
{
    let mut i: usize = 0;
    while i < ops.len()
        invariant
            i <= ops@.len(),
            forall|k: int| 0 <= k < i ==> !saves_terminal(#[trigger] ops@[k]),
        decreases ops@.len() - i,
    {
        match &ops[i] {
            StoreOp::SaveEntry(e) => {
                if e.status == EntryStatus::Completed || e.status == EntryStatus::Failed {
                    assert(saves_terminal(ops@[i as int]));
                    return true;
                }
            },
            _ => {},
        }
        i = i + 1;
    }
    false
}

/// The request fields of `a` and `b` agree: what an entry carries through its life.
pub open spec fn same_request(a: QueueEntry, b: QueueEntry) -> bool {
    &&& a.id == b.id
    &&& a.agent_id@ == b.agent_id@
    &&& a.session_id@ == b.session_id@
    &&& a.branch@ == b.branch@
    &&& a.worktree@ == b.worktree@
    &&& a.target_branch@ == b.target_branch@
    &&& a.queued_at == b.queued_at
}

/// `a` and `b` hold the same values in every field.
pub open spec fn same_entry(a: QueueEntry, b: QueueEntry) -> bool {
    &&& same_request(a, b)
    &&& a.seq == b.seq
    &&& a.attempts == b.attempts
    &&& a.status == b.status
    &&& opt_view(a.last_error) == opt_view(b.last_error)
    &&& same_texts(a.conflict_files@, b.conflict_files@)
}

/// The text of an optional string.
pub open spec fn opt_view(o: Option<String>) -> Option<Seq<char>> {
    match o {
        Some(s) => Some(s@),
        None => None,
    }
}

/// Copies an optional string.
pub fn copy_opt_string(o: &Option<String>) -> (r: Option<String>)
    ensures
        opt_view(r) == opt_view(*o),
{
    match o {
        Some(s) => Some(s.clone()),
        None => None,
    }
}

/// Copies a list of strings.
pub fn copy_strings(v: &Vec<String>) -> (r: Vec<String>)
    ensures
        r@.len() == v@.len(),
        forall|i: int| 0 <= i < v@.len() ==> #[trigger] r@[i]@ == v@[i]@,
{
    let mut r: Vec<String> = Vec::new();
    let mut i: usize = 0;
    while i < v.len()
        invariant
            i <= v@.len(),
            r@.len() == i,
            forall|k: int| 0 <= k < i ==> #[trigger] r@[k]@ == v@[k]@,
        decreases v@.len() - i,
    {
        r.push(v[i].clone());
        i = i + 1;
    }
    r
}

/// The two lists hold the same texts in the same order.
pub open spec fn same_texts(a: Seq<String>, b: Seq<String>) -> bool {
    &&& a.len() == b.len()
    &&& forall|i: int| 0 <= i < a.len() ==> #[trigger] a[i]@ == b[i]@
}

impl MergeRecord {
    /// A copy of this record.
    pub fn snapshot(&self) -> (r: MergeRecord)
        ensures
            r.entry_id == self.entry_id,
            r.seq == self.seq,
            r.agent_id@ == self.agent_id@,
            r.session_id@ == self.session_id@,
            r.commit_sha@ == self.commit_sha@,
            r.merged_at == self.merged_at,
    {
        MergeRecord {
            entry_id: self.entry_id,
            seq: self.seq,
            agent_id: self.agent_id.clone(),
            session_id: self.session_id.clone(),
            commit_sha: self.commit_sha.clone(),
            merged_at: self.merged_at,
        }
    }
}

impl QueueEntry {
    /// A copy of this entry with every field equal.
    pub fn snapshot(&self) -> (r: QueueEntry)
        ensures
            same_request(r, *self),
            r.seq == self.seq,
            r.attempts == self.attempts,
            r.status == self.status,
            opt_view(r.last_error) == opt_view(self.last_error),
            same_texts(r.conflict_files@, self.conflict_files@),
    {
        QueueEntry {
            id: self.id,
            seq: self.seq,
            agent_id: self.agent_id.clone(),
            session_id: self.session_id.clone(),
            branch: self.branch.clone(),
            worktree: self.worktree.clone(),
            target_branch: self.target_branch.clone(),
            attempts: self.attempts,
            queued_at: self.queued_at,
            status: self.status,
            last_error: copy_opt_string(&self.last_error),
            conflict_files: copy_strings(&self.conflict_files),
        }
    }
}

} // verus!
