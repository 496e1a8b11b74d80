//! Laws of the queue engine, stated over the contracts of its operations.

use vstd::prelude::*;
use crate::entry::{EntryStatus, MergeOutcome, QueueEntry, StoreOp};
use crate::error::DaemonError;
use crate::queue::{
    begin_post, bumped, enqueue_post, retries, finish_effect, record_of, restore_post, restored, started,
    MergeQueue,
};

verus! {

/// With one merge at a time, merges are recorded in the order of the
/// entries' sequence numbers, which is the order in which they were queued
/// (an entry sent back for a retry is queued again, behind later arrivals),
/// and every entry still active comes after all recorded merges.
pub proof fn lemma_history_follows_queue_order(q: MergeQueue)
    requires
        q.wf(),
        q.config.max_concurrent_merges == 1,
    ensures
        forall|i: int, j: int|
            0 <= i < j < q.history@.len() ==> #[trigger] q.history@[i].seq < #[trigger] q.history@[j].seq,
        forall|i: int, j: int|
            0 <= i < q.history@.len() && 0 <= j < q.active().len()
                ==> #[trigger] q.history@[i].seq < #[trigger] q.active()[j].seq,
        forall|i: int, j: int|
            0 <= i < j < q.pending@.len() ==> #[trigger] q.pending@[i].seq < #[trigger] q.pending@[j].seq,
{
}

/// Two accepted enqueues in a row stand in the FIFO in the order in which
/// they were made, the first ahead of the second.
pub proof fn lemma_enqueues_keep_their_order(
    q0: MergeQueue,
    q1: MergeQueue,
    q2: MergeQueue,
    r1: Result<u128, DaemonError>,
    r2: Result<u128, DaemonError>,
    id1: u128,
    id2: u128,
    now1: i64,
    now2: i64,
    a1: Seq<char>,
    a2: Seq<char>,
    s1: Seq<char>,
    s2: Seq<char>,
    b1: Seq<char>,
    b2: Seq<char>,
    w1: Seq<char>,
    w2: Seq<char>,
    t1: Seq<char>,
    t2: Seq<char>,
)
    requires
        q0.wf(),
        enqueue_post(q0, q1, r1, id1, now1, a1, s1, b1, w1, t1),
        enqueue_post(q1, q2, r2, id2, now2, a2, s2, b2, w2, t2),
        r1 is Ok,
        r2 is Ok,
    ensures
        q2.pending@.len() == q0.pending@.len() + 2,
        q2.pending@[q0.pending@.len() as int].id == id1,
        q2.pending@[q0.pending@.len() as int + 1].id == id2,
        q2.pending@[q0.pending@.len() as int].seq < q2.pending@[q0.pending@.len() as int + 1].seq,
{
    let n = q0.pending@.len() as int;
    assert(q2.pending@.drop_last()[n] == q2.pending@[n]);
}

/// An enqueue on a queue at its bound yields the capacity fault and changes
/// nothing; an accepted enqueue never takes the queue past its bound.
pub proof fn lemma_queue_never_exceeds_bound(
    q0: MergeQueue,
    q1: MergeQueue,
    r: Result<u128, DaemonError>,
    id: u128,
    now: i64,
    agent_id: Seq<char>,
    session_id: Seq<char>,
    branch: Seq<char>,
    worktree: Seq<char>,
    target_branch: Seq<char>,
)
    requires
        q0.wf(),
        enqueue_post(q0, q1, r, id, now, agent_id, session_id, branch, worktree, target_branch),
    ensures
        !q0.shutting_down && q0.active().len() >= q0.config.max_queue_size ==> {
            &&& r == Err::<u128, DaemonError>(DaemonError::QueueFull(q0.config.max_queue_size))
            &&& q1 == q0
        },
        q1.active().len() <= q1.config.max_queue_size,
{
}

/// Enqueueing for an agent that already holds an active entry yields the
/// duplicate fault (unless the queue is shutting down or full, which are
/// refused first) and never creates a second active entry.
pub proof fn lemma_duplicate_agent_refused(
    q0: MergeQueue,
    q1: MergeQueue,
    r: Result<u128, DaemonError>,
    id: u128,
    now: i64,
    agent_id: Seq<char>,
    session_id: Seq<char>,
    branch: Seq<char>,
    worktree: Seq<char>,
    target_branch: Seq<char>,
)
    requires
        q0.wf(),
        q0.agent_active(agent_id),
        enqueue_post(q0, q1, r, id, now, agent_id, session_id, branch, worktree, target_branch),
    ensures
        r is Err,
        q1 == q0,
        !q0.shutting_down && q0.active().len() < q0.config.max_queue_size
            ==> (r matches Err(DaemonError::AgentAlreadyQueued(a)) && a@ == agent_id),
{
}

/// After a crash, an entry persisted as Processing is restored as Pending
/// and is scheduled before any entry enqueued after the restart; its attempt
/// count is the recorded one, so the coming merge is at most one attempt
/// beyond what was recorded.
pub proof fn lemma_interrupted_merge_resumes_first(
    q0: MergeQueue,
    q1: MergeQueue,
    q2: MergeQueue,
    q3: MergeQueue,
    e: QueueEntry,
    restored_ok: bool,
    r: Result<u128, DaemonError>,
    id: u128,
    now: i64,
    agent_id: Seq<char>,
    session_id: Seq<char>,
    branch: Seq<char>,
    worktree: Seq<char>,
    target_branch: Seq<char>,
    next: Option<QueueEntry>,
)
    requires
        q0.wf(),
        q0.pending@.len() == 0,
        q0.in_flight@.len() == 0,
        !q0.shutting_down,
        q0.config.max_queue_size > 0,
        q0.config.max_concurrent_merges > 0,
        e.status == EntryStatus::Processing,
        restore_post(q0, q1, e, restored_ok),
        enqueue_post(q1, q2, r, id, now, agent_id, session_id, branch, worktree, target_branch),
        begin_post(q2, q3, next),
    ensures
        restored_ok,
        q2.pending@[0].status == EntryStatus::Pending,
        restored(e, q2.pending@[0], q0.next_seq, q0.config.max_retries),
        r is Ok ==> q2.pending@[0].seq < q2.pending@[1].seq,
        next is Some,
        started(q2.pending@[0], next->0),
        next->0.id == e.id,
        next->0.attempts <= e.attempts,
{
    assert(!q0.agent_active(e.agent_id@));
    if r is Ok {
        assert(q2.pending@.drop_last()[0] == q2.pending@[0]);
    }
}

/// An entry whose attempts reach the retry ceiling after an unsuccessful
/// outcome goes to the failed list as Failed and is not put back in the
/// FIFO.
pub proof fn lemma_exhausted_entry_fails(
    q0: MergeQueue,
    q1: MergeQueue,
    i: int,
    outcome: MergeOutcome,
    now: i64,
    ops: Seq<StoreOp>,
)
    requires
        q0.wf(),
        0 <= i < q0.in_flight@.len(),
        !(outcome is Success),
        bumped(q0.in_flight@[i].attempts, q0.config.max_retries) >= q0.config.max_retries,
        finish_effect(q0, q1, i, outcome, now, ops),
    ensures
        q1.pending == q0.pending,
        q1.failed@.len() == q0.failed@.len() + 1,
        q1.failed@.last().status == EntryStatus::Failed,
        q1.failed@.last().id == q0.in_flight@[i].id,
        q1.failed@.last().attempts == bumped(q0.in_flight@[i].attempts, q0.config.max_retries),
{
}

/// A successful merge yields exactly one history row and one history write
/// for the entry and takes it out of the active entries, with a delete of its
/// row; any other outcome writes no history.
pub proof fn lemma_history_only_on_success(
    q0: MergeQueue,
    q1: MergeQueue,
    i: int,
    outcome: MergeOutcome,
    now: i64,
    ops: Seq<StoreOp>,
)
    requires
        q0.wf(),
        0 <= i < q0.in_flight@.len(),
        finish_effect(q0, q1, i, outcome, now, ops),
    ensures
        outcome matches MergeOutcome::Success(c) ==> {
            &&& q1.history@.len() == q0.history@.len() + 1
            &&& record_of(q0.in_flight@[i], q1.history@.last(), c@, now)
            &&& q1.in_flight@ == q0.in_flight@.remove(i)
            &&& q1.pending == q0.pending
            &&& forall|k: int| 0 <= k < ops.len() ==> ((#[trigger] ops[k] is RecordMerge) <==> k == 1)
            &&& ops.last() == StoreOp::DeleteEntry(q0.in_flight@[i].id)
        },
        !(outcome is Success) ==> {
            &&& q1.history == q0.history
            &&& forall|k: int| 0 <= k < ops.len() ==> !(#[trigger] ops[k] is RecordMerge)
        },
{
}

/// Every entry that finishing a merge saves has conflict files exactly when
/// its status is Conflict.
pub proof fn lemma_conflict_files_only_in_conflict(
    q0: MergeQueue,
    q1: MergeQueue,
    i: int,
    outcome: MergeOutcome,
    now: i64,
    ops: Seq<StoreOp>,
)
    requires
        q0.wf(),
        0 <= i < q0.in_flight@.len(),
        outcome matches MergeOutcome::Conflict(files) ==> files@.len() > 0,
        finish_effect(q0, q1, i, outcome, now, ops),
    ensures
        forall|k: int| 0 <= k < ops.len() ==> (#[trigger] ops[k] matches StoreOp::SaveEntry(e)
            ==> (e.conflict_files@.len() > 0 <==> e.status == EntryStatus::Conflict)),
{
}

/// A conflict that is retried while conflicts go to the back of the queue
/// puts the entry behind every entry already waiting, with a sequence number
/// above all of theirs; with conflicts retried in place the entry keeps
/// running with its own sequence number and the FIFO is unchanged.
pub proof fn lemma_conflict_retry_position(
    q0: MergeQueue,
    q1: MergeQueue,
    i: int,
    files: Vec<String>,
    now: i64,
    ops: Seq<StoreOp>,
)
    requires
        q0.wf(),
        0 <= i < q0.in_flight@.len(),
        retries(q0.config, MergeOutcome::Conflict(files), bumped(q0.in_flight@[i].attempts, q0.config.max_retries)),
        finish_effect(q0, q1, i, MergeOutcome::Conflict(files), now, ops),
    ensures
        q0.config.requeue_conflicts_to_back ==> {
            &&& q1.pending@.drop_last() == q0.pending@
            &&& q1.pending@.last().id == q0.in_flight@[i].id
            &&& q1.pending@.last().status == EntryStatus::Pending
            &&& forall|k: int| 0 <= k < q0.pending@.len() ==> #[trigger] q0.pending@[k].seq < q1.pending@.last().seq
        },
        !q0.config.requeue_conflicts_to_back ==> {
            &&& q1.pending == q0.pending
            &&& q1.in_flight@[i].id == q0.in_flight@[i].id
            &&& q1.in_flight@[i].seq == q0.in_flight@[i].seq
            &&& q1.in_flight@[i].status == EntryStatus::Processing
        },
{
    assert forall|k: int| 0 <= k < q0.pending@.len() implies #[trigger] q0.pending@[k].seq < q0.next_seq by {
        assert(q0.active()[k] == q0.pending@[k]);
    }
}

} // verus!
