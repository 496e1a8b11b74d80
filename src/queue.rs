//! The queue engine: a FIFO of merge requests, bounded concurrency, retries
//! and crash recovery.
//!
//! The engine decides; the caller performs. `begin_next` hands out the entry
//! to merge, `finish_merge` takes the executor's outcome and returns the store
//! writes that record the transition, in order.

use vstd::prelude::*;
use crate::clock::{fresh_entry_id, now_millis};
use crate::config::Config;
use crate::entry::{
    opt_view, same_entry, same_request, same_texts, EntryStatus, MergeOutcome, MergeRecord,
    QueueEntry, StoreOp,
};
use crate::error::DaemonError;

verus! {

/// The merge queue of one feature branch.
pub struct MergeQueue {
    pub config: Config,
    /// Pending entries, in FIFO order.
    pub pending: Vec<QueueEntry>,
    /// Entries whose merge is running.
    pub in_flight: Vec<QueueEntry>,
    /// Entries whose retries are exhausted, kept for inspection.
    pub failed: Vec<QueueEntry>,
    /// Successful merges, oldest first.
    pub history: Vec<MergeRecord>,
    /// The sequence number that the next queued entry receives.
    pub next_seq: u64,
    pub shutting_down: bool,
}

/// The entry is waiting in the FIFO.
pub open spec fn waiting(e: QueueEntry, max_retries: u32) -> bool {
    &&& e.status == EntryStatus::Pending
    &&& e.conflict_files@.len() == 0
    &&& e.attempts <= max_retries
}

/// The entry is being merged.
pub open spec fn running(e: QueueEntry, max_retries: u32) -> bool {
    &&& e.status == EntryStatus::Processing
    &&& e.conflict_files@.len() == 0
    &&& e.attempts <= max_retries
}

/// The entry has failed for good.
pub open spec fn given_up(e: QueueEntry, max_retries: u32) -> bool {
    &&& e.status == EntryStatus::Failed
    &&& e.conflict_files@.len() == 0
    &&& e.attempts <= max_retries
}

/// `e` is a new Pending entry holding the request's fields.
pub open spec fn fresh_entry(
    e: QueueEntry,
    id: u128,
    seq: u64,
    agent_id: Seq<char>,
    session_id: Seq<char>,
    branch: Seq<char>,
    worktree: Seq<char>,
    target_branch: Seq<char>,
    now: i64,
) -> bool {
    &&& e.id == id
    &&& e.seq == seq
    &&& e.agent_id@ == agent_id
    &&& e.session_id@ == session_id
    &&& e.branch@ == branch
    &&& e.worktree@ == worktree
    &&& e.target_branch@ == target_branch
    &&& e.attempts == 0
    &&& e.queued_at == now
    &&& e.status == EntryStatus::Pending
    &&& e.last_error is None
    &&& e.conflict_files@.len() == 0
}

/// What an enqueue does: the first rule that applies decides.
/// Shutting down: refused. At the bound: the capacity fault. The agent
/// already active: the duplicate fault. The id already held by an entry of
/// the queue: an invalid request. Otherwise a fresh Pending entry with
/// the next sequence number joins the back of the FIFO, and its id comes back.
/// A refused enqueue changes nothing.
pub open spec fn enqueue_post(
    old: MergeQueue,
    new: MergeQueue,
    r: Result<u128, DaemonError>,
    id: u128,
    now: i64,
    agent_id: Seq<char>,
    session_id: Seq<char>,
    branch: Seq<char>,
    worktree: Seq<char>,
    target_branch: Seq<char>,
) -> bool {
    if old.shutting_down {
        r == Err::<u128, DaemonError>(DaemonError::ShuttingDown) && new == old
    } else if old.active().len() >= old.config.max_queue_size {
        r == Err::<u128, DaemonError>(DaemonError::QueueFull(old.config.max_queue_size)) && new == old
    } else if old.agent_active(agent_id) {
        &&& r matches Err(DaemonError::AgentAlreadyQueued(a)) && a@ == agent_id
        &&& new == old
    } else if old.holds_id(id) {
        &&& r matches Err(DaemonError::InvalidRequest(_))
        &&& new == old
    } else {
        &&& r == Ok::<u128, DaemonError>(id)
        &&& new.same_but_pending(old)
        &&& new.next_seq == old.next_seq + 1
        &&& new.pending@.len() == old.pending@.len() + 1
        &&& new.pending@.drop_last() == old.pending@
        &&& fresh_entry(new.pending@.last(), id, old.next_seq, agent_id, session_id, branch, worktree, target_branch, now)
    }
}

/// `s` is `e` taken up for merging.
pub open spec fn started(e: QueueEntry, s: QueueEntry) -> bool {
    &&& same_request(s, e)
    &&& s.seq == e.seq
    &&& s.attempts == e.attempts
    &&& opt_view(s.last_error) == opt_view(e.last_error)
    &&& s.status == EntryStatus::Processing
    &&& s.conflict_files@.len() == 0
}

/// What `begin_next` does: when the queue is not shutting down, the FIFO is
/// not empty and a merge slot is free, the head of the FIFO becomes a running
/// entry and a copy of it comes back; otherwise nothing changes.
pub open spec fn begin_post(old: MergeQueue, new: MergeQueue, r: Option<QueueEntry>) -> bool {
    if !old.shutting_down && old.pending@.len() > 0 && old.in_flight@.len() < old.config.max_concurrent_merges {
        &&& r is Some
        &&& started(old.pending@[0], r->0)
        &&& new.pending@ == old.pending@.drop_first()
        &&& new.in_flight@.len() == old.in_flight@.len() + 1
        &&& new.in_flight@.drop_last() == old.in_flight@
        &&& same_entry(new.in_flight@.last(), r->0)
        &&& new.config == old.config
        &&& new.failed == old.failed
        &&& new.history == old.history
        &&& new.next_seq == old.next_seq
        &&& new.shutting_down == old.shutting_down
    } else {
        r is None && new == old
    }
}

/// `r` records the merge of `e` as `commit` at time `now`.
pub open spec fn record_of(e: QueueEntry, r: MergeRecord, commit: Seq<char>, now: i64) -> bool {
    &&& r.entry_id == e.id
    &&& r.seq == e.seq
    &&& r.agent_id@ == e.agent_id@
    &&& r.session_id@ == e.session_id@
    &&& r.commit_sha@ == commit
    &&& r.merged_at == now
}

/// `c` is `e` merged: Completed, with its error cleared.
pub open spec fn completed(e: QueueEntry, c: QueueEntry) -> bool {
    &&& same_request(c, e)
    &&& c.seq == e.seq
    &&& c.attempts == e.attempts
    &&& c.status == EntryStatus::Completed
    &&& c.last_error is None
    &&& c.conflict_files@.len() == 0
}

/// The attempt count after one more attempt that did not succeed; it never
/// goes past the retry ceiling.
pub open spec fn bumped(attempts: u32, max_retries: u32) -> u32 {
    if attempts < max_retries { (attempts + 1) as u32 } else { attempts }
}

/// Whether an entry with `attempts` unsuccessful attempts goes back to the
/// FIFO after this outcome: the ceiling is not reached and, for a conflict,
/// automatic rebase is on.
pub open spec fn retries(config: Config, outcome: MergeOutcome, attempts: u32) -> bool {
    &&& attempts < config.max_retries
    &&& (outcome is Conflict ==> config.auto_rebase)
}

/// The error text an entry carries after an unsuccessful outcome: a
/// failure's message, else the error it had.
pub open spec fn error_after(e: QueueEntry, outcome: MergeOutcome) -> Option<Seq<char>> {
    match outcome {
        MergeOutcome::Failure(m) => Some(m@),
        _ => opt_view(e.last_error),
    }
}

/// `c` is `e` in Conflict after an attempt that found conflicts in `files`.
pub open spec fn conflicted(e: QueueEntry, c: QueueEntry, attempts: u32, files: Seq<String>) -> bool {
    &&& same_request(c, e)
    &&& c.seq == e.seq
    &&& c.attempts == attempts
    &&& c.status == EntryStatus::Conflict
    &&& opt_view(c.last_error) == opt_view(e.last_error)
    &&& same_texts(c.conflict_files@, files)
}

/// `f` is `e` after an unsuccessful attempt, with the given status, sequence
/// number, attempt count and error, and no conflict files.
pub open spec fn settled(
    e: QueueEntry,
    f: QueueEntry,
    status: EntryStatus,
    seq: u64,
    attempts: u32,
    err: Option<Seq<char>>,
) -> bool {
    &&& same_request(f, e)
    &&& f.seq == seq
    &&& f.attempts == attempts
    &&& f.status == status
    &&& opt_view(f.last_error) == err
    &&& f.conflict_files@.len() == 0
}

/// Whether some running entry has sequence number `seq`.
pub open spec fn runs(q: MergeQueue, seq: u64) -> bool {
    exists|i: int| 0 <= i < q.in_flight@.len() && #[trigger] q.in_flight@[i].seq == seq
}

/// What finishing the running entry `e` (at index `i`) with `outcome` does.
///
/// On success: `e` leaves the queue, one history row records it, and the store
/// saves it as Completed, appends the row and deletes it. On a conflict or a
/// failure: one more attempt is counted; the entry goes to the back of the
/// FIFO as Pending with a new sequence number when it retries, and to the
/// failed list otherwise. A conflict that retries while conflicts are not
/// sent to the back is retried in place: the entry stays running, with its
/// sequence number, and is merged again next. The store first saves the Conflict state (for a
/// conflict), then the entry's new state. No history row is written.
pub open spec fn finish_effect(
    old: MergeQueue,
    new: MergeQueue,
    i: int,
    outcome: MergeOutcome,
    now: i64,
    ops: Seq<StoreOp>,
) -> bool {
    let e = old.in_flight@[i];
    let a = bumped(e.attempts, old.config.max_retries);
    let in_place = retries(old.config, outcome, a) && outcome is Conflict && !old.config.requeue_conflicts_to_back;
    &&& !in_place ==> new.in_flight@ == old.in_flight@.remove(i)
    &&& new.config == old.config
    &&& new.shutting_down == old.shutting_down
    &&& match outcome {
        MergeOutcome::Success(commit) => {
            &&& new.pending == old.pending
            &&& new.failed == old.failed
            &&& new.next_seq == old.next_seq
            &&& new.history@.len() == old.history@.len() + 1
            &&& new.history@.drop_last() == old.history@
            &&& record_of(e, new.history@.last(), commit@, now)
            &&& ops.len() == 3
            &&& ops[0] matches StoreOp::SaveEntry(c) && completed(e, c)
            &&& ops[1] matches StoreOp::RecordMerge(rec) && record_of(e, rec, commit@, now)
            &&& ops[2] == StoreOp::DeleteEntry(e.id)
        },
        _ => {
            let first: int = if outcome is Conflict { 1 } else { 0 };
            &&& new.history == old.history
            &&& ops.len() == first + 1
            &&& (outcome matches MergeOutcome::Conflict(files) ==> ops[0] matches StoreOp::SaveEntry(c)
                && conflicted(e, c, a, files@))
            &&& if in_place {
                &&& new.pending == old.pending
                &&& new.failed == old.failed
                &&& new.next_seq == old.next_seq
                &&& new.in_flight@ == old.in_flight@.update(i, new.in_flight@[i])
                &&& settled(e, new.in_flight@[i], EntryStatus::Processing, e.seq, a, error_after(e, outcome))
                &&& ops[first] matches StoreOp::SaveEntry(f) && same_entry(f, new.in_flight@[i])
            } else if retries(old.config, outcome, a) {
                &&& new.failed == old.failed
                &&& new.next_seq == old.next_seq + 1
                &&& new.pending@.len() == old.pending@.len() + 1
                &&& new.pending@.drop_last() == old.pending@
                &&& settled(e, new.pending@.last(), EntryStatus::Pending, old.next_seq, a, error_after(e, outcome))
                &&& ops[first] matches StoreOp::SaveEntry(f) && same_entry(f, new.pending@.last())
            } else {
                &&& new.pending == old.pending
                &&& new.next_seq == old.next_seq
                &&& new.failed@.len() == old.failed@.len() + 1
                &&& new.failed@.drop_last() == old.failed@
                &&& settled(e, new.failed@.last(), EntryStatus::Failed, e.seq, a, error_after(e, outcome))
                &&& ops[first] matches StoreOp::SaveEntry(f) && same_entry(f, new.failed@.last())
            }
        },
    }
}

/// Replacing the running entry at `ix` by one of the same agent and sequence
/// number that is still running keeps the invariant.
proof fn lemma_in_place_keeps_wf(pre: MergeQueue, post: MergeQueue, ix: int)
    requires
        pre.wf(),
        0 <= ix < pre.in_flight@.len(),
        post.in_flight@ == pre.in_flight@.update(ix, post.in_flight@[ix]),
        post.in_flight@[ix].agent_id@ == pre.in_flight@[ix].agent_id@,
        post.in_flight@[ix].seq == pre.in_flight@[ix].seq,
        running(post.in_flight@[ix], pre.config.max_retries),
        post.pending == pre.pending,
        post.failed == pre.failed,
        post.history == pre.history,
        post.config == pre.config,
        post.next_seq == pre.next_seq,
    ensures
        post.wf(),
{
    let p: int = pre.pending@.len() as int;
    assert forall|k: int| 0 <= k < post.active().len() implies
        (#[trigger] post.active()[k]).agent_id@ == pre.active()[k].agent_id@
        && post.active()[k].seq == pre.active()[k].seq by {
        if k < p {
            assert(post.active()[k] == pre.active()[k]);
        } else {
            assert(post.active()[k] == post.in_flight@[k - p]);
            assert(pre.active()[k] == pre.in_flight@[k - p]);
        }
    }
    assert forall|i: int, j: int| 0 <= i < j < post.active().len() implies
        #[trigger] post.active()[i].agent_id@ != #[trigger] post.active()[j].agent_id@ by {
        assert(pre.active()[i].agent_id@ != pre.active()[j].agent_id@);
    }
    assert forall|i: int, j: int| 0 <= i < j < post.active().len() implies
        #[trigger] post.active()[i].seq != #[trigger] post.active()[j].seq by {
        assert(pre.active()[i].seq != pre.active()[j].seq);
    }
    assert forall|i: int| 0 <= i < post.active().len() implies #[trigger] post.active()[i].seq < post.next_seq by {
        assert(pre.active()[i].seq < pre.next_seq);
    }
    assert forall|i: int| 0 <= i < post.in_flight@.len() implies running(#[trigger] post.in_flight@[i], post.config.max_retries) by {
        if i != ix {
            assert(post.in_flight@[i] == pre.in_flight@[i]);
        }
    }
    if post.config.max_concurrent_merges == 1 {
        assert forall|i: int, j: int| 0 <= i < post.history@.len() && 0 <= j < post.active().len() implies
            #[trigger] post.history@[i].seq < #[trigger] post.active()[j].seq by {
            assert(pre.history@[i].seq < pre.active()[j].seq);
        }
        assert forall|i: int, j: int| 0 <= i < post.in_flight@.len() && 0 <= j < post.pending@.len() implies
            #[trigger] post.in_flight@[i].seq < #[trigger] post.pending@[j].seq by {
            assert(pre.in_flight@[i].seq < pre.pending@[j].seq);
        }
    }
}

/// Removing the running entry at `ix`, then requeueing it with a new
/// sequence number, or keeping it as failed, or recording its merge, keeps
/// the invariant.
proof fn lemma_finish_keeps_wf(pre: MergeQueue, post: MergeQueue, ix: int)
    requires
        pre.wf(),
        0 <= ix < pre.in_flight@.len(),
        post.in_flight@ == pre.in_flight@.remove(ix),
        post.config == pre.config,
        post.next_seq >= pre.next_seq,
        post.pending@ == pre.pending@ || {
            &&& post.pending@.len() == pre.pending@.len() + 1
            &&& post.pending@.drop_last() == pre.pending@
            &&& waiting(post.pending@.last(), post.config.max_retries)
            &&& post.pending@.last().agent_id@ == pre.in_flight@[ix].agent_id@
            &&& post.pending@.last().seq == pre.next_seq
            &&& post.next_seq == pre.next_seq + 1
        },
        post.failed@ == pre.failed@ || {
            &&& post.failed@.len() == pre.failed@.len() + 1
            &&& post.failed@.drop_last() == pre.failed@
            &&& given_up(post.failed@.last(), post.config.max_retries)
        },
        post.history@ == pre.history@ || {
            &&& post.history@.len() == pre.history@.len() + 1
            &&& post.history@.drop_last() == pre.history@
            &&& post.history@.last().seq == pre.in_flight@[ix].seq
            &&& post.pending@ == pre.pending@
        },
    ensures
        post.wf(),
{
    let p: int = pre.pending@.len() as int;
    let n: int = pre.active().len() as int;
    let requeued = post.pending@ != pre.pending@;
    let e = pre.in_flight@[ix];
    assert(pre.active()[p + ix] == e);
    // where each entry of the new active list comes from in the old one
    let src = |k: int|
        if k < p {
            k
        } else if requeued && k == p {
            p + ix
        } else {
            let r = if requeued { k - p - 1 } else { k - p };
            if r < ix { p + r } else { p + r + 1 }
        };
    assert forall|k: int| 0 <= k < post.active().len() implies
        0 <= #[trigger] src(k) < n
        && post.active()[k].agent_id@ == pre.active()[src(k)].agent_id@
        && (if requeued && k == p { post.active()[k].seq == pre.next_seq }
            else { post.active()[k].seq == pre.active()[src(k)].seq }) by {
        if k < p {
            assert(post.active()[k] == post.pending@[k]);
            assert(post.pending@[k] == pre.pending@[k]);
        } else if requeued && k == p {
            assert(post.active()[k] == post.pending@[k]);
        } else {
            let r = if requeued { k - p - 1 } else { k - p };
            let pl = post.pending@.len();
            assert(post.active()[k] == post.in_flight@[k - pl]);
            if r < ix {
                assert(post.in_flight@[r] == pre.in_flight@[r]);
            } else {
                assert(post.in_flight@[r] == pre.in_flight@[r + 1]);
            }
            assert(pre.active()[src(k)] == pre.in_flight@[src(k) - p]);
        }
    }
    assert forall|i: int, j: int| 0 <= i < j < post.active().len() implies
        #[trigger] post.active()[i].agent_id@ != #[trigger] post.active()[j].agent_id@ by {
        let (a, b) = if src(i) < src(j) { (src(i), src(j)) } else { (src(j), src(i)) };
        assert(src(i) != src(j));
        assert(pre.active()[a].agent_id@ != pre.active()[b].agent_id@);
    }
    assert forall|i: int, j: int| 0 <= i < j < post.active().len() implies
        #[trigger] post.active()[i].seq != #[trigger] post.active()[j].seq by {
        if requeued && i == p {
            assert(pre.active()[src(j)].seq < pre.next_seq);
        } else if requeued && j == p {
            assert(pre.active()[src(i)].seq < pre.next_seq);
        } else {
            let (a, b) = if src(i) < src(j) { (src(i), src(j)) } else { (src(j), src(i)) };
            assert(src(i) != src(j));
            assert(pre.active()[a].seq != pre.active()[b].seq);
        }
    }
    assert forall|i: int| 0 <= i < post.active().len() implies #[trigger] post.active()[i].seq < post.next_seq by {
        if !(requeued && i == p) {
            assert(pre.active()[src(i)].seq < pre.next_seq);
        }
    }
    assert forall|i: int, j: int| 0 <= i < j < post.pending@.len() implies
        #[trigger] post.pending@[i].seq < #[trigger] post.pending@[j].seq by {
        assert(post.pending@[i] == pre.pending@[i]);
        if j < p {
            assert(post.pending@[j] == pre.pending@[j]);
        } else {
            assert(pre.active()[i] == pre.pending@[i]);
            assert(pre.active()[i].seq < pre.next_seq);
        }
    }
    assert forall|i: int| 0 <= i < post.pending@.len() implies waiting(#[trigger] post.pending@[i], post.config.max_retries) by {
        if i < p {
            assert(post.pending@[i] == pre.pending@[i]);
        }
    }
    assert forall|i: int| 0 <= i < post.in_flight@.len() implies running(#[trigger] post.in_flight@[i], post.config.max_retries) by {
        if i < ix {
            assert(post.in_flight@[i] == pre.in_flight@[i]);
        } else {
            assert(post.in_flight@[i] == pre.in_flight@[i + 1]);
        }
    }
    assert forall|i: int| 0 <= i < post.failed@.len() implies given_up(#[trigger] post.failed@[i], post.config.max_retries) by {
        if i < pre.failed@.len() {
            assert(post.failed@[i] == pre.failed@[i]);
        }
    }
    if post.config.max_concurrent_merges == 1 {
        assert(ix == 0);
        assert(post.in_flight@.len() == 0);
        assert forall|i: int| 0 <= i < post.history@.len() implies #[trigger] post.history@[i].seq < post.next_seq by {
            if i < pre.history@.len() {
                assert(post.history@[i] == pre.history@[i]);
            } else {
                assert(pre.active()[p].seq < pre.next_seq);
            }
        }
        assert forall|i: int, j: int| 0 <= i < j < post.history@.len() implies
            #[trigger] post.history@[i].seq < #[trigger] post.history@[j].seq by {
            assert(post.history@[i] == pre.history@[i]);
            if j < pre.history@.len() {
                assert(post.history@[j] == pre.history@[j]);
            } else {
                assert(pre.history@[i].seq < pre.active()[p].seq);
            }
        }
        assert forall|i: int, j: int| 0 <= i < post.history@.len() && 0 <= j < post.active().len() implies
            #[trigger] post.history@[i].seq < #[trigger] post.active()[j].seq by {
            assert(post.active()[j] == post.pending@[j]);
            if requeued && j == p {
                if i < pre.history@.len() {
                    assert(post.history@[i] == pre.history@[i]);
                }
            } else {
                assert(post.pending@[j] == pre.pending@[j]);
                assert(pre.active()[j] == pre.pending@[j]);
                if i < pre.history@.len() {
                    assert(post.history@[i] == pre.history@[i]);
                    assert(pre.history@[i].seq < pre.active()[j].seq);
                } else {
                    assert(pre.in_flight@[0].seq < pre.pending@[j].seq);
                }
            }
        }
    }
}

/// Whether a persisted entry in this status is to be scheduled again.
pub open spec fn resumable(status: EntryStatus) -> bool {
    status is Pending || status is Processing
}

/// `f` is the persisted entry `e` back in the FIFO: Pending, with a new
/// sequence number, its attempts and error kept.
pub open spec fn restored(e: QueueEntry, f: QueueEntry, seq: u64, max_retries: u32) -> bool {
    &&& same_request(f, e)
    &&& f.seq == seq
    &&& f.attempts == if e.attempts <= max_retries { e.attempts } else { max_retries }
    &&& opt_view(f.last_error) == opt_view(e.last_error)
    &&& f.status == EntryStatus::Pending
    &&& f.conflict_files@.len() == 0
}

/// What restoring one persisted entry does: an entry found Pending or
/// Processing rejoins the back of the FIFO as Pending, unless the queue is at
/// its bound or the agent already holds an active entry; otherwise nothing
/// changes.
pub open spec fn restore_post(old: MergeQueue, new: MergeQueue, e: QueueEntry, r: bool) -> bool {
    &&& r == (resumable(e.status) && old.active().len() < old.config.max_queue_size
        && !old.agent_active(e.agent_id@))
    &&& r ==> {
        &&& new.same_but_pending(old)
        &&& new.next_seq == old.next_seq + 1
        &&& new.pending@.len() == old.pending@.len() + 1
        &&& new.pending@.drop_last() == old.pending@
        &&& restored(e, new.pending@.last(), old.next_seq, old.config.max_retries)
    }
    &&& !r ==> new == old
}

/// Appending to the FIFO keeps every active agent active.
proof fn lemma_push_keeps_agents(pre: MergeQueue, post: MergeQueue, x: QueueEntry)
    requires
        post.pending@ == pre.pending@.push(x),
        post.in_flight == pre.in_flight,
    ensures
        post.active().len() == pre.active().len() + 1,
        post.agent_active(x.agent_id@),
        forall|a: Seq<char>| pre.agent_active(a) ==> #[trigger] post.agent_active(a),
{
    let p = pre.pending@.len() as int;
    assert(post.active()[p] == x);
    assert forall|a: Seq<char>| pre.agent_active(a) implies #[trigger] post.agent_active(a) by {
        let k = choose|k: int| 0 <= k < pre.active().len() && #[trigger] pre.active()[k].agent_id@ == a;
        if k < p {
            assert(post.active()[k] == pre.active()[k]);
        } else {
            assert(post.active()[k + 1] == pre.in_flight@[k - p]);
            assert(pre.active()[k] == pre.in_flight@[k - p]);
        }
    }
}

/// The entries that a recovery added to the FIFO (from index `start` on)
/// are, in order, the persisted entries at the strictly increasing indices
/// `picked`, each restored with the next sequence number from `seq0` on. A
/// persisted entry that was not picked was not resumable, or its agent is
/// active, or the queue is at its bound.
pub open spec fn recovered_from(
    persisted: Seq<QueueEntry>,
    start: int,
    q: MergeQueue,
    picked: Seq<int>,
    seq0: u64,
    upto: int,
) -> bool {
    &&& q.pending@.len() == start + picked.len()
    &&& forall|k: int, l: int| 0 <= k < l < picked.len() ==> #[trigger] picked[k] < #[trigger] picked[l]
    &&& forall|k: int| 0 <= k < picked.len() ==> 0 <= #[trigger] picked[k] < upto
    &&& forall|k: int| 0 <= k < picked.len() ==> {
        &&& resumable(persisted[#[trigger] picked[k]].status)
        &&& restored(persisted[picked[k]], q.pending@[start + k], (seq0 + k) as u64, q.config.max_retries)
    }
    &&& forall|j: int| 0 <= j < upto && !picked.contains(j) ==> {
        ||| !resumable(#[trigger] persisted[j].status)
        ||| q.active().len() >= q.config.max_queue_size
        ||| q.agent_active(persisted[j].agent_id@)
    }
}

impl MergeQueue {
    /// The non-terminal entries: waiting ones, then running ones.
    pub open spec fn active(self) -> Seq<QueueEntry> {
        self.pending@ + self.in_flight@
    }

    /// Every entry the queue still holds.
    pub open spec fn all_entries(self) -> Seq<QueueEntry> {
        self.pending@ + self.in_flight@ + self.failed@
    }

    /// Some entry of the queue (waiting, running or failed) has this id.
    pub open spec fn holds_id(self, id: u128) -> bool {
        exists|k: int| 0 <= k < self.all_entries().len() && #[trigger] self.all_entries()[k].id == id
    }

    /// Some non-terminal entry belongs to the agent.
    pub open spec fn agent_active(self, agent: Seq<char>) -> bool {
        exists|i: int| 0 <= i < self.active().len() && #[trigger] self.active()[i].agent_id@ == agent
    }

    /// The history lists merges in increasing sequence order, and every
    /// active entry comes after all of them.
    pub open spec fn history_in_order(self) -> bool {
        &&& forall|i: int, j: int|
            0 <= i < j < self.history@.len() ==> #[trigger] self.history@[i].seq < #[trigger] self.history@[j].seq
        &&& forall|i: int, j: int|
            0 <= i < self.history@.len() && 0 <= j < self.active().len()
                ==> #[trigger] self.history@[i].seq < #[trigger] self.active()[j].seq
        &&& forall|i: int| 0 <= i < self.history@.len() ==> #[trigger] self.history@[i].seq < self.next_seq
        &&& forall|i: int, j: int|
            0 <= i < self.in_flight@.len() && 0 <= j < self.pending@.len()
                ==> #[trigger] self.in_flight@[i].seq < #[trigger] self.pending@[j].seq
    }

    /// The engine's invariant.
    pub open spec fn wf(self) -> bool {
        &&& self.active().len() <= self.config.max_queue_size
        &&& self.in_flight@.len() <= self.config.max_concurrent_merges
        &&& forall|i: int, j: int|
            0 <= i < j < self.active().len() ==> #[trigger] self.active()[i].agent_id@ != #[trigger] self.active()[j].agent_id@
        &&& forall|i: int, j: int|
            0 <= i < j < self.active().len() ==> #[trigger] self.active()[i].seq != #[trigger] self.active()[j].seq
        &&& forall|i: int, j: int|
            0 <= i < j < self.pending@.len() ==> #[trigger] self.pending@[i].seq < #[trigger] self.pending@[j].seq
        &&& forall|i: int| 0 <= i < self.active().len() ==> #[trigger] self.active()[i].seq < self.next_seq
        &&& forall|i: int| 0 <= i < self.pending@.len() ==> waiting(#[trigger] self.pending@[i], self.config.max_retries)
        &&& forall|i: int| 0 <= i < self.in_flight@.len() ==> running(#[trigger] self.in_flight@[i], self.config.max_retries)
        &&& forall|i: int| 0 <= i < self.failed@.len() ==> given_up(#[trigger] self.failed@[i], self.config.max_retries)
        &&& self.config.max_concurrent_merges == 1 ==> self.history_in_order()
    }

    /// Only the FIFO and the sequence counter may differ.
    pub open spec fn same_but_pending(self, o: MergeQueue) -> bool {
        &&& self.config == o.config
        &&& self.in_flight == o.in_flight
        &&& self.failed == o.failed
        &&& self.history == o.history
        &&& self.shutting_down == o.shutting_down
    }

    /// An empty queue with the given configuration.
    pub fn new(config: Config) -> (r: MergeQueue)
        ensures
            r.wf(),
            r.config == config,
            r.pending@.len() == 0,
            r.in_flight@.len() == 0,
            r.failed@.len() == 0,
            r.history@.len() == 0,
            r.next_seq == 0,
            !r.shutting_down,
    {
        MergeQueue {
            config,
            pending: Vec::new(),
            in_flight: Vec::new(),
            failed: Vec::new(),
            history: Vec::new(),
            next_seq: 0,
            shutting_down: false,
        }
    }

    /// Number of non-terminal entries.
    pub fn active_count(&self) -> (r: usize)
        requires
            self.wf(),
        ensures
            r == self.active().len(),
    {
        self.pending.len() + self.in_flight.len()
    }

    /// Whether the agent holds a non-terminal entry.
    pub fn has_active_agent(&self, agent_id: &String) -> (r: bool)
        ensures
            r == self.agent_active(agent_id@),
    {
        let mut i: usize = 0;
        while i < self.pending.len()
            invariant
                i <= self.pending@.len(),
                forall|k: int| 0 <= k < i ==> #[trigger] self.pending@[k].agent_id@ != agent_id@,
            decreases self.pending@.len() - i,
        {
            if self.pending[i].agent_id == *agent_id {
                assert(self.active()[i as int] == self.pending@[i as int]);
                return true;
            }
            i = i + 1;
        }
        let mut j: usize = 0;
        while j < self.in_flight.len()
            invariant
                i == self.pending@.len(),
                j <= self.in_flight@.len(),
                forall|k: int| 0 <= k < i ==> #[trigger] self.pending@[k].agent_id@ != agent_id@,
                forall|k: int| 0 <= k < j ==> #[trigger] self.in_flight@[k].agent_id@ != agent_id@,
            decreases self.in_flight@.len() - j,
        {
            if self.in_flight[j].agent_id == *agent_id {
                assert(self.active()[i + j] == self.in_flight@[j as int]);
                return true;
            }
            j = j + 1;
        }
        assert forall|k: int| 0 <= k < self.active().len() implies #[trigger] self.active()[k].agent_id@ != agent_id@ by {
            if k < i {
                assert(self.active()[k] == self.pending@[k]);
            } else {
                assert(self.active()[k] == self.in_flight@[k - i]);
            }
        }
        false
    }

    /// Enqueues a request with the given id and enqueue time.
    pub fn enqueue_at(
        &mut self,
        id: u128,
        now: i64,
        agent_id: String,
        session_id: String,
        branch: String,
        worktree: String,
        target_branch: String,
    ) -> (r: Result<u128, DaemonError>)
        requires
            old(self).wf(),
            old(self).next_seq < u64::MAX,
        ensures
            final(self).wf(),
            enqueue_post(*old(self), *final(self), r, id, now, agent_id@, session_id@, branch@, worktree@, target_branch@),
    {
        if self.shutting_down {
            return Err(DaemonError::ShuttingDown);
        }
        if self.active_count() >= self.config.max_queue_size {
            return Err(DaemonError::QueueFull(self.config.max_queue_size));
        }
        if self.has_active_agent(&agent_id) {
            return Err(DaemonError::AgentAlreadyQueued(agent_id));
        }
        if self.status_of(id).is_some() {
            return Err(DaemonError::InvalidRequest("entry id already in use".to_owned()));
        }
        let entry = QueueEntry {
            id,
            seq: self.next_seq,
            agent_id,
            session_id,
            branch,
            worktree,
            target_branch,
            attempts: 0,
            queued_at: now,
            status: EntryStatus::Pending,
            last_error: None,
            conflict_files: Vec::new(),
        };
        self.push_entry(entry);
        assert(self.pending@.drop_last() == old(self).pending@);
        Ok(id)
    }

    /// Appends a new waiting entry with the next sequence number.
    fn push_entry(&mut self, entry: QueueEntry)
        requires
            old(self).wf(),
            old(self).next_seq < u64::MAX,
            entry.seq == old(self).next_seq,
            waiting(entry, old(self).config.max_retries),
            old(self).active().len() < old(self).config.max_queue_size,
            !old(self).agent_active(entry.agent_id@),
        ensures
            final(self).wf(),
            final(self).same_but_pending(*old(self)),
            final(self).next_seq == old(self).next_seq + 1,
            final(self).pending@ == old(self).pending@.push(entry),
    {
        let ghost pre = *self;
        self.pending.push(entry);
        self.next_seq = self.next_seq + 1;
        proof {
            let n = pre.pending@.len();
            assert(self.pending@.drop_last() == pre.pending@);
            assert forall|k: int| 0 <= k < self.active().len() implies
                (#[trigger] self.active()[k] == (if k < n { pre.active()[k] } else if k == n { entry } else { pre.active()[k - 1] })) by {
                if k < n {
                    assert(self.active()[k] == pre.pending@[k]);
                } else if k > n {
                    assert(self.active()[k] == self.in_flight@[k - n - 1]);
                }
            }
            assert(!pre.agent_active(entry.agent_id@));
            assert forall|i: int, j: int| 0 <= i < j < self.active().len() implies
                #[trigger] self.active()[i].agent_id@ != #[trigger] self.active()[j].agent_id@ by {
                if i != n && j != n {
                    let pi = if i < n { i } else { i - 1 };
                    let pj = if j < n { j } else { j - 1 };
                    assert(pre.active()[pi].agent_id@ != pre.active()[pj].agent_id@);
                } else if i == n {
                    let pj = j - 1;
                    assert(pre.active()[pj].agent_id@ != entry.agent_id@);
                } else {
                    assert(pre.active()[i].agent_id@ != entry.agent_id@);
                }
            }
            assert forall|i: int, j: int| 0 <= i < j < self.active().len() implies
                #[trigger] self.active()[i].seq != #[trigger] self.active()[j].seq by {
                if i != n && j != n {
                    let pi = if i < n { i } else { i - 1 };
                    let pj = if j < n { j } else { j - 1 };
                    assert(pre.active()[pi].seq != pre.active()[pj].seq);
                } else if i == n {
                    assert(pre.active()[j - 1].seq < pre.next_seq);
                } else {
                    assert(pre.active()[i].seq < pre.next_seq);
                }
            }
            assert forall|i: int| 0 <= i < self.active().len() implies #[trigger] self.active()[i].seq < self.next_seq by {
                if i < n {
                    assert(pre.active()[i].seq < pre.next_seq);
                } else if i > n {
                    assert(pre.active()[i - 1].seq < pre.next_seq);
                }
            }
            assert forall|i: int, j: int| 0 <= i < j < self.pending@.len() implies
                #[trigger] self.pending@[i].seq < #[trigger] self.pending@[j].seq by {
                if j < n {
                    assert(pre.pending@[i].seq < pre.pending@[j].seq);
                } else {
                    assert(pre.active()[i] == pre.pending@[i]);
                    assert(pre.active()[i].seq < pre.next_seq);
                }
            }
            if self.config.max_concurrent_merges == 1 {
                assert forall|i: int, j: int| 0 <= i < self.history@.len() && 0 <= j < self.active().len() implies
                    #[trigger] self.history@[i].seq < #[trigger] self.active()[j].seq by {
                    if j < n {
                        assert(pre.history@[i].seq < pre.active()[j].seq);
                    } else if j > n {
                        assert(pre.history@[i].seq < pre.active()[j - 1].seq);
                    }
                }
                assert forall|i: int, j: int| 0 <= i < self.in_flight@.len() && 0 <= j < self.pending@.len() implies
                    #[trigger] self.in_flight@[i].seq < #[trigger] self.pending@[j].seq by {
                    if j < n {
                        assert(pre.in_flight@[i].seq < pre.pending@[j].seq);
                    } else {
                        assert(pre.active()[n + i] == pre.in_flight@[i]);
                        assert(pre.active()[n + i].seq < pre.next_seq);
                    }
                }
            }
        }
    }

    /// Takes the head of the FIFO up for merging, if the queue may start one.
    pub fn begin_next(&mut self) -> (r: Option<QueueEntry>)
        requires
            old(self).wf(),
        ensures
            final(self).wf(),
            begin_post(*old(self), *final(self), r),
    {
        if self.shutting_down || self.pending.len() == 0
            || self.in_flight.len() >= self.config.max_concurrent_merges {
            return None;
        }
        let ghost pre = *self;
        let mut e = self.pending.remove(0);
        e.status = EntryStatus::Processing;
        let snap = e.snapshot();
        self.in_flight.push(e);
        proof {
            let n = pre.active().len();
            let p = pre.pending@.len();
            assert(self.in_flight@.drop_last() == pre.in_flight@);
            assert(pre.active()[0] == pre.pending@[0]);
            assert forall|k: int| 0 <= k < n implies
                (#[trigger] self.active()[k]).agent_id@ == (if k < n - 1 { pre.active()[k + 1] } else { pre.active()[0] }).agent_id@
                && self.active()[k].seq == (if k < n - 1 { pre.active()[k + 1] } else { pre.active()[0] }).seq by {
                if k < p - 1 {
                    assert(self.active()[k] == pre.pending@[k + 1]);
                    assert(pre.active()[k + 1] == pre.pending@[k + 1]);
                } else if k < n - 1 {
                    assert(self.active()[k] == self.in_flight@[k - (p - 1)]);
                    assert(pre.active()[k + 1] == pre.in_flight@[k + 1 - p]);
                }
            }
            let m = |k: int| if k < n - 1 { k + 1 } else { 0 };
            assert forall|i: int, j: int| 0 <= i < j < n implies
                #[trigger] self.active()[i].agent_id@ != #[trigger] self.active()[j].agent_id@ by {
                let (a, b) = if m(i) < m(j) { (m(i), m(j)) } else { (m(j), m(i)) };
                assert(pre.active()[a].agent_id@ != pre.active()[b].agent_id@);
            }
            assert forall|i: int, j: int| 0 <= i < j < n implies
                #[trigger] self.active()[i].seq != #[trigger] self.active()[j].seq by {
                let (a, b) = if m(i) < m(j) { (m(i), m(j)) } else { (m(j), m(i)) };
                assert(pre.active()[a].seq != pre.active()[b].seq);
            }
            assert forall|i: int| 0 <= i < n implies #[trigger] self.active()[i].seq < self.next_seq by {
                assert(pre.active()[m(i)].seq < pre.next_seq);
            }
            assert forall|i: int, j: int| 0 <= i < j < self.pending@.len() implies
                #[trigger] self.pending@[i].seq < #[trigger] self.pending@[j].seq by {
                assert(pre.pending@[i + 1].seq < pre.pending@[j + 1].seq);
            }
            if self.config.max_concurrent_merges == 1 {
                assert forall|i: int, j: int| 0 <= i < self.history@.len() && 0 <= j < n implies
                    #[trigger] self.history@[i].seq < #[trigger] self.active()[j].seq by {
                    assert(pre.history@[i].seq < pre.active()[m(j)].seq);
                }
                assert forall|i: int, j: int| 0 <= i < self.in_flight@.len() && 0 <= j < self.pending@.len() implies
                    #[trigger] self.in_flight@[i].seq < #[trigger] self.pending@[j].seq by {
                    assert(i == 0);
                    assert(pre.pending@[0].seq < pre.pending@[j + 1].seq);
                }
            }
        }
        Some(snap)
    }

    /// Records the executor's outcome for the running entry with sequence
    /// number `seq`, and returns the store writes for it, in order. A conflict
    /// names at least one file. Returns
    /// `None`, changing nothing, when no running entry has that number.
    pub fn finish_merge(&mut self, seq: u64, outcome: MergeOutcome, now: i64) -> (r: Option<Vec<StoreOp>>)
        requires
            old(self).wf(),
            outcome matches MergeOutcome::Conflict(files) ==> files@.len() > 0,
            old(self).next_seq < u64::MAX,
        ensures
            final(self).wf(),
            !runs(*old(self), seq) ==> r is None && *final(self) == *old(self),
            runs(*old(self), seq) ==> r is Some && forall|i: int|
                0 <= i < old(self).in_flight@.len() && #[trigger] old(self).in_flight@[i].seq == seq
                    ==> finish_effect(*old(self), *final(self), i, outcome, now, r->0@),
    {
        let mut i: usize = 0;
        while i < self.in_flight.len()
            invariant
                i <= self.in_flight@.len(),
                forall|k: int| 0 <= k < i ==> #[trigger] self.in_flight@[k].seq != seq,
            ensures
                i <= self.in_flight@.len(),
                forall|k: int| 0 <= k < i ==> #[trigger] self.in_flight@[k].seq != seq,
                i < self.in_flight@.len() ==> self.in_flight@[i as int].seq == seq,
            decreases self.in_flight@.len() - i,
        {
            if self.in_flight[i].seq == seq {
                break;
            }
            i = i + 1;
        }
        if i == self.in_flight.len() {
            return None;
        }
        let ghost pre = *self;
        let ghost ix = i as int;
        let mut e = self.in_flight.remove(i);
        let ghost e0 = e;
        let mut ops: Vec<StoreOp> = Vec::new();
        let ghost out0 = outcome;
        match outcome {
            MergeOutcome::Success(commit) => {
                e.status = EntryStatus::Completed;
                e.last_error = None;
                let rec = MergeRecord {
                    entry_id: e.id,
                    seq: e.seq,
                    agent_id: e.agent_id.clone(),
                    session_id: e.session_id.clone(),
                    commit_sha: commit,
                    merged_at: now,
                };
                self.history.push(rec.snapshot());
                assert(self.history@.drop_last() == pre.history@);
                let id = e.id;
                ops.push(StoreOp::SaveEntry(e));
                ops.push(StoreOp::RecordMerge(rec));
                ops.push(StoreOp::DeleteEntry(id));
            },
            MergeOutcome::Conflict(files) => {
                let a = if e.attempts < self.config.max_retries { e.attempts + 1 } else { e.attempts };
                e.attempts = a;
                e.status = EntryStatus::Conflict;
                e.conflict_files = files;
                ops.push(StoreOp::SaveEntry(e.snapshot()));
                e.conflict_files = Vec::new();
                let retry = a < self.config.max_retries && self.config.auto_rebase;
                if retry && !self.config.requeue_conflicts_to_back {
                    e.status = EntryStatus::Processing;
                    ops.push(StoreOp::SaveEntry(e.snapshot()));
                    self.in_flight.insert(i, e);
                    proof {
                        assert(self.in_flight@ =~= pre.in_flight@.update(ix, self.in_flight@[ix]));
                        lemma_in_place_keeps_wf(pre, *self, ix);
                    }
                } else {
                    let f = self.settle(e, retry);
                    ops.push(StoreOp::SaveEntry(f));
                }
            },
            MergeOutcome::Failure(msg) => {
                let a = if e.attempts < self.config.max_retries { e.attempts + 1 } else { e.attempts };
                e.attempts = a;
                e.last_error = Some(msg);
                let retry = a < self.config.max_retries;
                let f = self.settle(e, retry);
                ops.push(StoreOp::SaveEntry(f));
            },
        }
        proof {
            assert(pre.in_flight@[ix].seq == seq);
            if self.in_flight@.len() != pre.in_flight@.len() {
                lemma_finish_keeps_wf(pre, *self, ix);
            }
            let p: int = pre.pending@.len() as int;
            assert(finish_effect(pre, *self, ix, out0, now, ops@));
            assert forall|i: int| 0 <= i < pre.in_flight@.len() && #[trigger] pre.in_flight@[i].seq == seq
                implies finish_effect(pre, *self, i, out0, now, ops@) by {
                if i != ix {
                    assert(pre.active()[p + i] == pre.in_flight@[i]);
                    assert(pre.active()[p + ix] == pre.in_flight@[ix]);
                    let (a, b) = if i < ix { (p + i, p + ix) } else { (p + ix, p + i) };
                    assert(pre.active()[a].seq != pre.active()[b].seq);
                }
            }
        }
        Some(ops)
    }

    /// Puts an entry whose attempt did not succeed back at the end of the
    /// FIFO with a new sequence number, or into the failed list; returns a
    /// copy of it as it now stands.
    fn settle(&mut self, e: QueueEntry, retry: bool) -> (r: QueueEntry)
        requires
            old(self).next_seq < u64::MAX,
            e.conflict_files@.len() == 0,
        ensures
            final(self).config == old(self).config,
            final(self).in_flight == old(self).in_flight,
            final(self).history == old(self).history,
            final(self).shutting_down == old(self).shutting_down,
            retry ==> {
                &&& final(self).failed == old(self).failed
                &&& final(self).next_seq == old(self).next_seq + 1
                &&& final(self).pending@.len() == old(self).pending@.len() + 1
                &&& final(self).pending@.drop_last() == old(self).pending@
                &&& settled(e, final(self).pending@.last(), EntryStatus::Pending, old(self).next_seq, e.attempts, opt_view(e.last_error))
                &&& same_entry(r, final(self).pending@.last())
            },
            !retry ==> {
                &&& final(self).pending == old(self).pending
                &&& final(self).next_seq == old(self).next_seq
                &&& final(self).failed@.len() == old(self).failed@.len() + 1
                &&& final(self).failed@.drop_last() == old(self).failed@
                &&& settled(e, final(self).failed@.last(), EntryStatus::Failed, e.seq, e.attempts, opt_view(e.last_error))
                &&& same_entry(r, final(self).failed@.last())
            },
    {
        let mut e = e;
        if retry {
            e.status = EntryStatus::Pending;
            e.seq = self.next_seq;
            self.next_seq = self.next_seq + 1;
            let r = e.snapshot();
            self.pending.push(e);
            assert(self.pending@.drop_last() == old(self).pending@);
            r
        } else {
            e.status = EntryStatus::Failed;
            let r = e.snapshot();
            self.failed.push(e);
            assert(self.failed@.drop_last() == old(self).failed@);
            r
        }
    }

    /// Brings one persisted entry back into the FIFO after a restart.
    pub fn restore_entry(&mut self, e: QueueEntry) -> (r: bool)
        requires
            old(self).wf(),
            old(self).next_seq < u64::MAX,
        ensures
            final(self).wf(),
            restore_post(*old(self), *final(self), e, r),
    {
        if !(e.status == EntryStatus::Pending || e.status == EntryStatus::Processing) {
            return false;
        }
        if self.active_count() >= self.config.max_queue_size || self.has_active_agent(&e.agent_id) {
            return false;
        }
        let f = QueueEntry {
            id: e.id,
            seq: self.next_seq,
            agent_id: e.agent_id,
            session_id: e.session_id,
            branch: e.branch,
            worktree: e.worktree,
            target_branch: e.target_branch,
            attempts: if e.attempts <= self.config.max_retries { e.attempts } else { self.config.max_retries },
            queued_at: e.queued_at,
            status: EntryStatus::Pending,
            last_error: e.last_error,
            conflict_files: Vec::new(),
        };
        self.push_entry(f);
        assert(self.pending@.drop_last() == old(self).pending@);
        true
    }

    /// Repopulates the FIFO from the entries a previous run persisted, in
    /// the order given (the store lists them by enqueue time). Entries found
    /// Pending or Processing rejoin as Pending: a Processing entry is a merge
    /// that a crash interrupted, and it is tried again. Returns how many
    /// entries were brought back.
    pub fn recover(&mut self, persisted: Vec<QueueEntry>) -> (r: usize)
        requires
            old(self).wf(),
            old(self).next_seq + persisted@.len() <= u64::MAX,
        ensures
            final(self).wf(),
            final(self).same_but_pending(*old(self)),
            final(self).next_seq == old(self).next_seq + r,
            final(self).pending@.subrange(0, old(self).pending@.len() as int) == old(self).pending@,
            exists|picked: Seq<int>| picked.len() == r && recovered_from(
                persisted@, old(self).pending@.len() as int, *final(self), picked, old(self).next_seq,
                persisted@.len() as int),
    {
        let ghost start = self.pending@.len() as int;
        let ghost seq0 = self.next_seq;
        let ghost mut picked: Seq<int> = Seq::empty();
        let mut count: usize = 0;
        let mut i: usize = 0;
        while i < persisted.len()
            invariant
                self.wf(),
                self.same_but_pending(*old(self)),
                i <= persisted@.len(),
                count == picked.len(),
                count <= i,
                self.next_seq == seq0 + count,
                seq0 == old(self).next_seq,
                start == old(self).pending@.len(),
                seq0 + persisted@.len() <= u64::MAX,
                self.pending@.subrange(0, start) == old(self).pending@,
                recovered_from(persisted@, start, *self, picked, seq0, i as int),
            decreases persisted@.len() - i,
        {
            let ghost pre = *self;
            let e = persisted[i].snapshot();
            let ok = self.restore_entry(e);
            if ok {
                proof {
                    assert(self.pending@ =~= pre.pending@.push(self.pending@.last()));
                    lemma_push_keeps_agents(pre, *self, self.pending@.last());
                    let np = picked.push(i as int);
                    assert forall|k: int| 0 <= k < np.len() implies {
                        &&& resumable(persisted@[#[trigger] np[k]].status)
                        &&& restored(persisted@[np[k]], self.pending@[start + k], (seq0 + k) as u64, self.config.max_retries)
                    } by {
                        if k < picked.len() {
                            assert(self.pending@[start + k] == pre.pending@[start + k]);
                        }
                    }
                    assert forall|j: int| 0 <= j < i + 1 && !np.contains(j) implies {
                        ||| !resumable(#[trigger] persisted@[j].status)
                        ||| self.active().len() >= self.config.max_queue_size
                        ||| self.agent_active(persisted@[j].agent_id@)
                    } by {
                        if j == i {
                            assert(np[np.len() - 1] == j);
                        } else {
                            assert(!picked.contains(j)) by {
                                if picked.contains(j) {
                                    let k = choose|k: int| 0 <= k < picked.len() && picked[k] == j;
                                    assert(np[k] == j);
                                }
                            }
                        }
                    }
                    assert(self.pending@.subrange(0, start) == pre.pending@.subrange(0, start));
                    picked = np;
                }
                count = count + 1;
            } else {
                proof {
                    assert(persisted@[i as int].agent_id@ == e.agent_id@);
                }
            }
            i = i + 1;
        }
        count
    }

    /// Enqueues a request under a fresh random id, stamped with the current
    /// time. The outcome is that of `enqueue_at` for that id and time.
    pub fn enqueue(
        &mut self,
        agent_id: String,
        session_id: String,
        branch: String,
        worktree: String,
        target_branch: String,
    ) -> (r: Result<u128, DaemonError>)
        requires
            old(self).wf(),
            old(self).next_seq < u64::MAX,
        ensures
            final(self).wf(),
            exists|id: u128, now: i64| enqueue_post(
                *old(self), *final(self), r, id, now, agent_id@, session_id@, branch@, worktree@, target_branch@),
    {
        let mut id = fresh_entry_id();
        let mut tries: u32 = 0;
        while tries < 4 && self.status_of(id).is_some()
            decreases 4 - tries,
        {
            id = fresh_entry_id();
            tries = tries + 1;
        }
        let now = now_millis();
        self.enqueue_at(id, now, agent_id, session_id, branch, worktree, target_branch)
    }

    /// Removes the waiting entry with this id before it is ever scheduled,
    /// and returns it. The first such entry in FIFO order is taken. Returns
    /// `None`, changing nothing, when no waiting entry has the id (a running
    /// entry cannot be cancelled).
    pub fn cancel(&mut self, id: u128) -> (r: Option<QueueEntry>)
        requires
            old(self).wf(),
        ensures
            final(self).wf(),
            match r {
                Some(e) => exists|i: int| {
                    &&& 0 <= i < old(self).pending@.len()
                    &&& #[trigger] old(self).pending@[i].id == id
                    &&& forall|k: int| 0 <= k < i ==> #[trigger] old(self).pending@[k].id != id
                    &&& e == old(self).pending@[i]
                    &&& final(self).pending@ == old(self).pending@.remove(i)
                    &&& final(self).same_but_pending(*old(self))
                    &&& final(self).next_seq == old(self).next_seq
                },
                None => {
                    &&& forall|k: int| 0 <= k < old(self).pending@.len() ==> #[trigger] old(self).pending@[k].id != id
                    &&& *final(self) == *old(self)
                },
            },
    {
        let mut i: usize = 0;
        while i < self.pending.len()
            invariant
                i <= self.pending@.len(),
                forall|k: int| 0 <= k < i ==> #[trigger] self.pending@[k].id != id,
            ensures
                i <= self.pending@.len(),
                forall|k: int| 0 <= k < i ==> #[trigger] self.pending@[k].id != id,
                i < self.pending@.len() ==> self.pending@[i as int].id == id,
            decreases self.pending@.len() - i,
        {
            if self.pending[i].id == id {
                break;
            }
            i = i + 1;
        }
        if i == self.pending.len() {
            return None;
        }
        let ghost pre = *self;
        let e = self.pending.remove(i);
        proof {
            let ix = i as int;
            let p: int = pre.pending@.len() as int;
            let src = |k: int| if k < ix { k } else { k + 1 };
            assert forall|k: int| 0 <= k < self.active().len() implies
                #[trigger] self.active()[k] == pre.active()[src(k)] by {
                if k < p - 1 {
                    assert(self.active()[k] == self.pending@[k]);
                } else {
                    assert(self.active()[k] == self.in_flight@[k - (p - 1)]);
                }
            }
            assert forall|a: int, b: int| 0 <= a < b < self.active().len() implies
                #[trigger] self.active()[a].agent_id@ != #[trigger] self.active()[b].agent_id@
                && self.active()[a].seq != self.active()[b].seq by {
                assert(pre.active()[src(a)].agent_id@ != pre.active()[src(b)].agent_id@);
                assert(pre.active()[src(a)].seq != pre.active()[src(b)].seq);
            }
            assert forall|a: int, b: int| 0 <= a < b < self.active().len() implies
                #[trigger] self.active()[a].seq != #[trigger] self.active()[b].seq by {
                assert(pre.active()[src(a)].seq != pre.active()[src(b)].seq);
            }
            assert forall|k: int| 0 <= k < self.active().len() implies #[trigger] self.active()[k].seq < self.next_seq by {
                assert(pre.active()[src(k)].seq < pre.next_seq);
            }
            assert forall|a: int, b: int| 0 <= a < b < self.pending@.len() implies
                #[trigger] self.pending@[a].seq < #[trigger] self.pending@[b].seq by {
                assert(pre.pending@[src(a)].seq < pre.pending@[src(b)].seq);
            }
            assert forall|k: int| 0 <= k < self.pending@.len() implies waiting(#[trigger] self.pending@[k], self.config.max_retries) by {
                assert(waiting(pre.pending@[src(k)], pre.config.max_retries));
            }
            if self.config.max_concurrent_merges == 1 {
                assert forall|a: int, b: int| 0 <= a < self.history@.len() && 0 <= b < self.active().len() implies
                    #[trigger] self.history@[a].seq < #[trigger] self.active()[b].seq by {
                    assert(pre.history@[a].seq < pre.active()[src(b)].seq);
                }
                assert forall|a: int, b: int| 0 <= a < self.in_flight@.len() && 0 <= b < self.pending@.len() implies
                    #[trigger] self.in_flight@[a].seq < #[trigger] self.pending@[b].seq by {
                    assert(pre.in_flight@[a].seq < pre.pending@[src(b)].seq);
                }
            }
        }
        Some(e)
    }

    /// The status of the entry with this id, looking at waiting, running and
    /// failed entries in that order; `None` when the queue holds no entry
    /// with the id (a completed entry has left the queue).
    pub fn status_of(&self, id: u128) -> (r: Option<EntryStatus>)
        ensures
            r is None <==> forall|k: int| 0 <= k < self.all_entries().len() ==> #[trigger] self.all_entries()[k].id != id,
            r matches Some(st) ==> exists|k: int| {
                &&& 0 <= k < self.all_entries().len()
                &&& #[trigger] self.all_entries()[k].id == id
                &&& self.all_entries()[k].status == st
                &&& forall|l: int| 0 <= l < k ==> #[trigger] self.all_entries()[l].id != id
            },
    {
        let all = Ghost(self.all_entries());
        let p = self.pending.len();
        let mut i: usize = 0;
        while i < p
            invariant
                i <= p,
                p == self.pending@.len(),
                all@ == self.all_entries(),
                forall|k: int| 0 <= k < i ==> #[trigger] all@[k].id != id,
            decreases p - i,
        {
            assert(all@[i as int] == self.pending@[i as int]);
            if self.pending[i].id == id {
                return Some(self.pending[i].status);
            }
            i = i + 1;
        }
        let mut j: usize = 0;
        while j < self.in_flight.len()
            invariant
                j <= self.in_flight@.len(),
                p == self.pending@.len(),
                all@ == self.all_entries(),
                forall|k: int| 0 <= k < p + j ==> #[trigger] all@[k].id != id,
            decreases self.in_flight@.len() - j,
        {
            assert(all@[p + j] == self.in_flight@[j as int]);
            if self.in_flight[j].id == id {
                return Some(self.in_flight[j].status);
            }
            j = j + 1;
        }
        let mut m: usize = 0;
        while m < self.failed.len()
            invariant
                m <= self.failed@.len(),
                p + self.in_flight@.len() + self.failed@.len() == all@.len(),
                all@ == self.all_entries(),
                forall|k: int| 0 <= k < p + self.in_flight@.len() + m ==> #[trigger] all@[k].id != id,
            decreases self.failed@.len() - m,
        {
            assert(all@[p + self.in_flight@.len() + m] == self.failed@[m as int]);
            if self.failed[m].id == id {
                return Some(self.failed[m].status);
            }
            m = m + 1;
        }
        None
    }

    /// Removes the failed entry with this id (the first one) and returns it;
    /// `None`, changing nothing, when no failed entry has the id.
    pub fn clear_failed(&mut self, id: u128) -> (r: Option<QueueEntry>)
        requires
            old(self).wf(),
        ensures
            final(self).wf(),
            match r {
                Some(e) => exists|i: int| {
                    &&& 0 <= i < old(self).failed@.len()
                    &&& #[trigger] old(self).failed@[i].id == id
                    &&& forall|k: int| 0 <= k < i ==> #[trigger] old(self).failed@[k].id != id
                    &&& e == old(self).failed@[i]
                    &&& final(self).failed@ == old(self).failed@.remove(i)
                    &&& final(self).pending == old(self).pending
                    &&& final(self).in_flight == old(self).in_flight
                    &&& final(self).history == old(self).history
                    &&& final(self).config == old(self).config
                    &&& final(self).next_seq == old(self).next_seq
                    &&& final(self).shutting_down == old(self).shutting_down
                },
                None => {
                    &&& forall|k: int| 0 <= k < old(self).failed@.len() ==> #[trigger] old(self).failed@[k].id != id
                    &&& *final(self) == *old(self)
                },
            },
    {
        let mut i: usize = 0;
        while i < self.failed.len()
            invariant
                i <= self.failed@.len(),
                forall|k: int| 0 <= k < i ==> #[trigger] self.failed@[k].id != id,
            ensures
                i <= self.failed@.len(),
                forall|k: int| 0 <= k < i ==> #[trigger] self.failed@[k].id != id,
                i < self.failed@.len() ==> self.failed@[i as int].id == id,
            decreases self.failed@.len() - i,
        {
            if self.failed[i].id == id {
                break;
            }
            i = i + 1;
        }
        if i == self.failed.len() {
            return None;
        }
        let ghost pre = *self;
        let e = self.failed.remove(i);
        proof {
            assert forall|k: int| 0 <= k < self.failed@.len() implies given_up(#[trigger] self.failed@[k], self.config.max_retries) by {
                if k < i {
                    assert(self.failed@[k] == pre.failed@[k]);
                } else {
                    assert(self.failed@[k] == pre.failed@[k + 1]);
                }
            }
        }
        Some(e)
    }

    /// Whether the scheduler may stop: shutdown was requested and no merge
    /// is running.
    pub fn is_stopped(&self) -> (r: bool)
        ensures
            r == (self.shutting_down && self.in_flight@.len() == 0),
    {
        self.shutting_down && self.in_flight.len() == 0
    }

    /// Stops the queue from taking new entries and from starting merges.
    /// Running merges may still be finished.
    pub fn shutdown(&mut self)
        ensures
            final(self).shutting_down,
            final(self).config == old(self).config,
            final(self).pending == old(self).pending,
            final(self).in_flight == old(self).in_flight,
            final(self).failed == old(self).failed,
            final(self).history == old(self).history,
            final(self).next_seq == old(self).next_seq,
    {
        self.shutting_down = true;
    }
}

} // verus!
