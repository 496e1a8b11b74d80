//! Rows of the durable store: how queue entries are written and read back.
//!
//! The store itself (the database and its statements) lives outside the
//! library; here is what goes into and comes out of a row of the active
//! table. A status is stored as its name (`Pending`, `Processing`, ...), the
//! same text that the recovery query filters on, and the conflict files as a
//! JSON array of strings.

use vstd::prelude::*;
use crate::entry::{opt_view, same_request, EntryStatus, QueueEntry};
use crate::error::DaemonError;

verus! {

/// An entry as one row of the active table.
#[derive(Debug, Clone)]
pub struct EntryRow {
    pub id: u128,
    pub agent_id: String,
    pub session_id: String,
    pub branch: String,
    pub worktree: String,
    pub target_branch: String,
    pub attempts: u32,
    /// Enqueue time, in milliseconds since the Unix epoch.
    pub queued_at: i64,
    /// The status's name.
    pub status: String,
    pub last_error: Option<String>,
    /// The conflict files as a JSON array of strings.
    pub conflict_files: String,
}

/// The stored name of a status.
pub open spec fn status_name(s: EntryStatus) -> Seq<char> {
    match s {
        EntryStatus::Pending => "Pending"@,
        EntryStatus::Processing => "Processing"@,
        EntryStatus::Completed => "Completed"@,
        EntryStatus::Conflict => "Conflict"@,
        EntryStatus::Failed => "Failed"@,
    }
}

/// The texts of a list of strings.
pub open spec fn texts(v: Seq<String>) -> Seq<Seq<char>> {
    v.map_values(|s: String| s@)
}

/// The JSON text that serde_json writes for an array of these strings.
pub uninterp spec fn json_of_texts(v: Seq<Seq<char>>) -> Seq<char>;

/// Relies on serde_json::to_string on a `Vec<String>`: the JSON array of the
/// strings. It writes into memory, and a list of strings serialises without
/// error, so the call succeeds.
#[verifier::external_body]
fn files_to_json(v: &Vec<String>) -> (r: Result<String, String>)
    ensures
        r is Ok,
        r matches Ok(t) ==> t@ == json_of_texts(texts(v@)),
{
    serde_json::to_string(v).map_err(|e| e.to_string())
}

/// Relies on serde_json::from_str into a `Vec<String>`: the text that
/// serde_json wrote for a list of strings reads back as that list.
#[verifier::external_body]
fn files_from_json(t: &str) -> (r: Result<Vec<String>, String>)
    ensures
        r is Ok || forall|x: Seq<Seq<char>>| t@ != json_of_texts(x),
        r matches Ok(v) ==> forall|x: Seq<Seq<char>>| t@ == json_of_texts(x) ==> texts(v@) == x,
{
    serde_json::from_str::<Vec<String>>(t).map_err(|e| e.to_string())
}

/// The stored name of a status.
pub fn status_text(s: EntryStatus) -> (r: String)
    ensures
        r@ == status_name(s),
{
    match s {
        EntryStatus::Pending => "Pending".to_owned(),
        EntryStatus::Processing => "Processing".to_owned(),
        EntryStatus::Completed => "Completed".to_owned(),
        EntryStatus::Conflict => "Conflict".to_owned(),
        EntryStatus::Failed => "Failed".to_owned(),
    }
}

/// No two statuses share a stored name.
pub proof fn lemma_status_names_distinct(a: EntryStatus, b: EntryStatus)
    ensures
        status_name(a) == status_name(b) ==> a == b,
{
    reveal_strlit("Pending");
    reveal_strlit("Processing");
    reveal_strlit("Completed");
    reveal_strlit("Conflict");
    reveal_strlit("Failed");
    if status_name(a) == status_name(b) && a != b {
        let x = status_name(a);
        let y = status_name(b);
        assert(x.len() != y.len() || x[0] != y[0] || x[1] != y[1] || x[3] != y[3]);
    }
}

/// The status whose stored name is `t`, if any.
pub fn parse_status(t: &String) -> (r: Option<EntryStatus>)
    ensures
        match r {
            Some(s) => status_name(s) == t@,
            None => forall|s: EntryStatus| status_name(s) != t@,
    },
{
    if *t == "Pending".to_owned() {
        Some(EntryStatus::Pending)
    } else if *t == "Processing".to_owned() {
        Some(EntryStatus::Processing)
    } else if *t == "Completed".to_owned() {
        Some(EntryStatus::Completed)
    } else if *t == "Conflict".to_owned() {
        Some(EntryStatus::Conflict)
    } else if *t == "Failed".to_owned() {
        Some(EntryStatus::Failed)
    } else {
        None
    }
}

/// A status written and read back is the same status.
pub proof fn lemma_status_round_trip(s: EntryStatus, t: String, r: Option<EntryStatus>)
    requires
        t@ == status_name(s),
        match r {
            Some(x) => status_name(x) == t@,
            None => forall|x: EntryStatus| status_name(x) != t@,
        },
    ensures
        r == Some(s),
{
    if let Some(x) = r {
        lemma_status_names_distinct(x, s);
    }
}

/// The row that stores `e`; the sequence number is not stored.
pub fn encode_row(e: &QueueEntry) -> (r: Result<EntryRow, DaemonError>)
    ensures
        r is Ok,
        r matches Ok(row) ==> {
            &&& row.id == e.id
            &&& row.agent_id@ == e.agent_id@
            &&& row.session_id@ == e.session_id@
            &&& row.branch@ == e.branch@
            &&& row.worktree@ == e.worktree@
            &&& row.target_branch@ == e.target_branch@
            &&& row.attempts == e.attempts
            &&& row.queued_at == e.queued_at
            &&& row.status@ == status_name(e.status)
            &&& opt_view(row.last_error) == opt_view(e.last_error)
            &&& row.conflict_files@ == json_of_texts(texts(e.conflict_files@))
        },
{
    let files = match files_to_json(&e.conflict_files) {
        Ok(t) => t,
        Err(m) => return Err(DaemonError::Json(m)),
    };
    Ok(EntryRow {
        id: e.id,
        agent_id: e.agent_id.clone(),
        session_id: e.session_id.clone(),
        branch: e.branch.clone(),
        worktree: e.worktree.clone(),
        target_branch: e.target_branch.clone(),
        attempts: e.attempts,
        queued_at: e.queued_at,
        status: status_text(e.status),
        last_error: match &e.last_error {
            Some(m) => Some(m.clone()),
            None => None,
        },
        conflict_files: files,
    })
}

/// The entry a row stores, with sequence number 0 (the queue numbers
/// entries as it takes them in). A status name that is not known is a
/// database fault; conflict-file text that does not read as a JSON array of
/// strings is a JSON fault. A row that `encode_row` wrote always reads back.
pub fn decode_row(row: EntryRow) -> (r: Result<QueueEntry, DaemonError>)
    ensures
        (forall|s: EntryStatus| status_name(s) != row.status@) ==> (r matches Err(e) && e is Database),
        (exists|s: EntryStatus| status_name(s) == row.status@)
            && (exists|x: Seq<Seq<char>>| row.conflict_files@ == json_of_texts(x)) ==> r is Ok,
        r matches Err(e) ==> e is Database || e is Json,
        r matches Ok(d) ==> {
            &&& d.id == row.id
            &&& d.seq == 0
            &&& d.agent_id@ == row.agent_id@
            &&& d.session_id@ == row.session_id@
            &&& d.branch@ == row.branch@
            &&& d.worktree@ == row.worktree@
            &&& d.target_branch@ == row.target_branch@
            &&& d.attempts == row.attempts
            &&& d.queued_at == row.queued_at
            &&& status_name(d.status) == row.status@
            &&& opt_view(d.last_error) == opt_view(row.last_error)
            &&& forall|x: Seq<Seq<char>>| row.conflict_files@ == json_of_texts(x) ==> texts(d.conflict_files@) == x
        },
{
    let status = match parse_status(&row.status) {
        Some(s) => s,
        None => return Err(DaemonError::Database("unknown entry status".to_owned())),
    };
    let files = match files_from_json(row.conflict_files.as_str()) {
        Ok(v) => v,
        Err(m) => return Err(DaemonError::Json(m)),
    };
    Ok(QueueEntry {
        id: row.id,
        seq: 0,
        agent_id: row.agent_id,
        session_id: row.session_id,
        branch: row.branch,
        worktree: row.worktree,
        target_branch: row.target_branch,
        attempts: row.attempts,
        queued_at: row.queued_at,
        status,
        last_error: row.last_error,
        conflict_files: files,
    })
}

/// An entry written to a row and read back keeps every stored field: its
/// request, attempts, status, error and conflict files.
pub proof fn lemma_row_round_trip(e: QueueEntry, row: EntryRow, d: QueueEntry)
    requires
        row.id == e.id,
        row.agent_id@ == e.agent_id@,
        row.session_id@ == e.session_id@,
        row.branch@ == e.branch@,
        row.worktree@ == e.worktree@,
        row.target_branch@ == e.target_branch@,
        row.attempts == e.attempts,
        row.queued_at == e.queued_at,
        row.status@ == status_name(e.status),
        opt_view(row.last_error) == opt_view(e.last_error),
        row.conflict_files@ == json_of_texts(texts(e.conflict_files@)),
        d.id == row.id,
        d.agent_id@ == row.agent_id@,
        d.session_id@ == row.session_id@,
        d.branch@ == row.branch@,
        d.worktree@ == row.worktree@,
        d.target_branch@ == row.target_branch@,
        d.attempts == row.attempts,
        d.queued_at == row.queued_at,
        status_name(d.status) == row.status@,
        opt_view(d.last_error) == opt_view(row.last_error),
        forall|x: Seq<Seq<char>>| row.conflict_files@ == json_of_texts(x) ==> texts(d.conflict_files@) == x,
    ensures
        same_request(d, e),
        d.attempts == e.attempts,
        d.status == e.status,
        opt_view(d.last_error) == opt_view(e.last_error),
        texts(d.conflict_files@) == texts(e.conflict_files@),
{
    lemma_status_names_distinct(d.status, e.status);
}

} // verus!
