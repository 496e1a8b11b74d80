use merge_daemon::{
    cleans_worktree, decode_row, encode_row, parse_status, status_text, Config, DaemonError, EntryRow, EntryStatus,
    MergeOutcome, MergeQueue, MergeStrategy, QueueEntry, StoreOp,
};

fn config(max_queue_size: usize, max_retries: u32, auto_rebase: bool) -> Config {
    let mut c = Config::default();
    c.max_queue_size = max_queue_size;
    c.max_retries = max_retries;
    c.auto_rebase = auto_rebase;
    c
}

fn add(q: &mut MergeQueue, id: u128, now: i64, agent: &str) -> Result<u128, DaemonError> {
    q.enqueue_at(
        id,
        now,
        agent.to_string(),
        "s1".to_string(),
        format!("agent/{}", agent),
        format!("/wt/{}", agent),
        "feature/x".to_string(),
    )
}

fn run(q: &mut MergeQueue, outcome: MergeOutcome, now: i64) -> (QueueEntry, Vec<StoreOp>) {
    let e = q.begin_next().expect("an entry to merge");
    let ops = q.finish_merge(e.seq, outcome, now).expect("a running entry");
    (e, ops)
}

fn saved(op: &StoreOp) -> &QueueEntry {
    match op {
        StoreOp::SaveEntry(e) => e,
        _ => panic!("expected a save"),
    }
}

#[test]
fn default_config_values() {
    let c = Config::default();
    assert_eq!(c.max_queue_size, 100);
    assert_eq!(c.max_concurrent_merges, 1);
    assert_eq!(c.max_retries, 3);
    assert_eq!(c.merge_strategy, MergeStrategy::Rebase);
    assert_eq!(c.merge_timeout_secs, 300);
    assert!(c.auto_rebase);
    assert_eq!(c.agent_branch_prefix, "agent/");
    assert_eq!(c.feature_branch_prefix, "feature/");
    assert_eq!(c.worktree_dir, ".worktrees");
    assert!(!c.preserve_worktrees);
    assert_eq!(c.session_timeout_secs, 3600);
    assert!(c.requeue_conflicts_to_back);
}

#[test]
fn three_agents_merge_in_enqueue_order() {
    let mut q = MergeQueue::new(Config::default());
    assert_eq!(add(&mut q, 1, 10, "A"), Ok(1));
    assert_eq!(add(&mut q, 2, 11, "B"), Ok(2));
    assert_eq!(add(&mut q, 3, 12, "C"), Ok(3));
    for (i, sha) in ["c1", "c2", "c3"].iter().enumerate() {
        let (_, ops) = run(&mut q, MergeOutcome::Success(sha.to_string()), 100 + i as i64);
        assert_eq!(ops.len(), 3);
    }
    let agents: Vec<&str> = q.history.iter().map(|r| r.agent_id.as_str()).collect();
    assert_eq!(agents, vec!["A", "B", "C"]);
    let shas: Vec<&str> = q.history.iter().map(|r| r.commit_sha.as_str()).collect();
    assert_eq!(shas, vec!["c1", "c2", "c3"]);
    assert_eq!(q.active_count(), 0);
    assert!(q.begin_next().is_none());
}

#[test]
fn capacity_fault_then_room_after_completion() {
    let mut q = MergeQueue::new(config(2, 3, true));
    assert_eq!(add(&mut q, 1, 1, "A"), Ok(1));
    assert_eq!(add(&mut q, 2, 2, "B"), Ok(2));
    assert_eq!(add(&mut q, 3, 3, "C"), Err(DaemonError::QueueFull(2)));
    assert_eq!(q.active_count(), 2);
    let (e, _) = run(&mut q, MergeOutcome::Success("c1".to_string()), 5);
    assert_eq!(e.agent_id, "A");
    assert_eq!(add(&mut q, 3, 6, "C"), Ok(3));
    assert_eq!(q.active_count(), 2);
}

#[test]
fn duplicate_agent_is_refused() {
    let mut q = MergeQueue::new(Config::default());
    assert_eq!(add(&mut q, 1, 1, "A"), Ok(1));
    assert_eq!(add(&mut q, 2, 2, "A"), Err(DaemonError::AgentAlreadyQueued("A".to_string())));
    assert_eq!(q.active_count(), 1);
    // still refused while the merge runs
    let e = q.begin_next().unwrap();
    assert_eq!(add(&mut q, 3, 3, "A"), Err(DaemonError::AgentAlreadyQueued("A".to_string())));
    // accepted again once the entry has completed
    q.finish_merge(e.seq, MergeOutcome::Success("c".to_string()), 4).unwrap();
    assert_eq!(add(&mut q, 4, 5, "A"), Ok(4));
}

#[test]
fn conflict_requeues_behind_later_arrivals() {
    let mut q = MergeQueue::new(config(10, 3, true));
    add(&mut q, 1, 1, "A").unwrap();
    add(&mut q, 2, 2, "B").unwrap();
    let (e, ops) = run(&mut q, MergeOutcome::Conflict(vec!["src/x.rs".to_string()]), 3);
    assert_eq!(e.agent_id, "A");
    assert_eq!(ops.len(), 2);
    let c = saved(&ops[0]);
    assert_eq!(c.status, EntryStatus::Conflict);
    assert_eq!(c.attempts, 1);
    assert_eq!(c.conflict_files, vec!["src/x.rs".to_string()]);
    let p = saved(&ops[1]);
    assert_eq!(p.status, EntryStatus::Pending);
    assert_eq!(p.attempts, 1);
    assert!(p.conflict_files.is_empty());
    let order: Vec<&str> = q.pending.iter().map(|e| e.agent_id.as_str()).collect();
    assert_eq!(order, vec!["B", "A"]);
    run(&mut q, MergeOutcome::Success("cb".to_string()), 4);
    let (a, ops) = run(&mut q, MergeOutcome::Success("ca".to_string()), 5);
    assert_eq!(a.id, 1);
    let done = saved(&ops[0]);
    assert_eq!(done.status, EntryStatus::Completed);
    assert_eq!(done.attempts, 1);
    let agents: Vec<&str> = q.history.iter().map(|r| r.agent_id.as_str()).collect();
    assert_eq!(agents, vec!["B", "A"]);
}

#[test]
fn conflict_retried_in_place_keeps_its_turn() {
    let mut c = config(10, 3, true);
    c.requeue_conflicts_to_back = false;
    let mut q = MergeQueue::new(c);
    add(&mut q, 1, 1, "A").unwrap();
    add(&mut q, 2, 2, "B").unwrap();
    let (e, ops) = run(&mut q, MergeOutcome::Conflict(vec!["src/x.rs".to_string()]), 3);
    assert_eq!(ops.len(), 2);
    assert_eq!(saved(&ops[0]).status, EntryStatus::Conflict);
    let again = saved(&ops[1]);
    assert_eq!(again.status, EntryStatus::Processing);
    assert_eq!(again.attempts, 1);
    assert_eq!(again.seq, e.seq);
    assert!(again.conflict_files.is_empty());
    // still running: nothing else starts, and it finishes next
    assert!(q.begin_next().is_none());
    q.finish_merge(e.seq, MergeOutcome::Success("ca".to_string()), 4).unwrap();
    run(&mut q, MergeOutcome::Success("cb".to_string()), 5);
    let agents: Vec<&str> = q.history.iter().map(|r| r.agent_id.as_str()).collect();
    assert_eq!(agents, vec!["A", "B"]);
}

#[test]
fn conflict_without_auto_rebase_fails() {
    let mut q = MergeQueue::new(config(10, 3, false));
    add(&mut q, 1, 1, "A").unwrap();
    let (_, ops) = run(&mut q, MergeOutcome::Conflict(vec!["a".to_string()]), 2);
    assert_eq!(saved(&ops[1]).status, EntryStatus::Failed);
    assert_eq!(q.status_of(1), Some(EntryStatus::Failed));
    assert!(q.pending.is_empty());
}

#[test]
fn retries_exhausted_entry_fails_and_stays_queryable() {
    let mut q = MergeQueue::new(config(10, 3, true));
    add(&mut q, 7, 1, "A").unwrap();
    for attempt in 1..=3u32 {
        let (_, ops) = run(&mut q, MergeOutcome::Failure("timeout".to_string()), attempt as i64);
        assert_eq!(ops.len(), 1);
        let s = saved(&ops[0]);
        assert_eq!(s.attempts, attempt);
        assert_eq!(s.last_error.as_deref(), Some("timeout"));
        if attempt < 3 {
            assert_eq!(s.status, EntryStatus::Pending);
        } else {
            assert_eq!(s.status, EntryStatus::Failed);
        }
    }
    assert_eq!(q.status_of(7), Some(EntryStatus::Failed));
    assert_eq!(q.failed.len(), 1);
    assert_eq!(q.failed[0].attempts, 3);
    assert!(q.begin_next().is_none());
    assert!(q.history.is_empty());
    assert_eq!(q.active_count(), 0);
    assert_eq!(q.clear_failed(7).map(|e| e.id), Some(7));
    assert_eq!(q.status_of(7), None);
}

#[test]
fn zero_retries_fails_at_first_unsuccessful_attempt() {
    let mut q = MergeQueue::new(config(10, 0, true));
    add(&mut q, 1, 1, "A").unwrap();
    let (_, ops) = run(&mut q, MergeOutcome::Failure("boom".to_string()), 2);
    let s = saved(&ops[0]);
    assert_eq!(s.status, EntryStatus::Failed);
    assert_eq!(s.attempts, 0);
}

#[test]
fn success_writes_one_history_row() {
    let mut q = MergeQueue::new(Config::default());
    add(&mut q, 9, 1, "A").unwrap();
    let (_, ops) = run(&mut q, MergeOutcome::Success("abc".to_string()), 42);
    assert_eq!(saved(&ops[0]).status, EntryStatus::Completed);
    match &ops[1] {
        StoreOp::RecordMerge(r) => {
            assert_eq!(r.entry_id, 9);
            assert_eq!(r.commit_sha, "abc");
            assert_eq!(r.session_id, "s1");
            assert_eq!(r.merged_at, 42);
        }
        _ => panic!("expected a history row"),
    }
    assert!(matches!(ops[2], StoreOp::DeleteEntry(9)));
    assert_eq!(q.history.len(), 1);
    assert_eq!(q.status_of(9), None);
}

#[test]
fn shutdown_lets_running_merge_finish() {
    let mut q = MergeQueue::new(Config::default());
    add(&mut q, 1, 1, "A").unwrap();
    add(&mut q, 2, 2, "B").unwrap();
    let e = q.begin_next().unwrap();
    q.shutdown();
    assert!(!q.is_stopped());
    let ops = q.finish_merge(e.seq, MergeOutcome::Success("c".to_string()), 3).unwrap();
    assert_eq!(ops.len(), 3);
    assert_eq!(q.history.len(), 1);
    assert!(q.is_stopped());
    assert_eq!(add(&mut q, 3, 4, "C"), Err(DaemonError::ShuttingDown));
    assert!(q.begin_next().is_none());
    assert_eq!(q.pending.len(), 1);
}

#[test]
fn finish_of_unknown_entry_changes_nothing() {
    let mut q = MergeQueue::new(Config::default());
    add(&mut q, 1, 1, "A").unwrap();
    assert!(q.finish_merge(99, MergeOutcome::Success("c".to_string()), 2).is_none());
    assert_eq!(q.pending.len(), 1);
}

#[test]
fn concurrency_bound_limits_running_merges() {
    let mut c = Config::default();
    c.max_concurrent_merges = 2;
    let mut q = MergeQueue::new(c);
    add(&mut q, 1, 1, "A").unwrap();
    add(&mut q, 2, 2, "B").unwrap();
    add(&mut q, 3, 3, "C").unwrap();
    assert!(q.begin_next().is_some());
    assert!(q.begin_next().is_some());
    assert!(q.begin_next().is_none());
    assert_eq!(q.in_flight.len(), 2);
}

fn persisted(id: u128, agent: &str, status: EntryStatus, attempts: u32) -> QueueEntry {
    QueueEntry {
        id,
        seq: 0,
        agent_id: agent.to_string(),
        session_id: "s".to_string(),
        branch: format!("agent/{}", agent),
        worktree: format!("/wt/{}", agent),
        target_branch: "feature/x".to_string(),
        attempts,
        queued_at: id as i64,
        status,
        last_error: None,
        conflict_files: vec![],
    }
}

#[test]
fn recovery_resumes_interrupted_merge_first() {
    let mut q = MergeQueue::new(Config::default());
    let n = q.recover(vec![
        persisted(1, "A", EntryStatus::Processing, 1),
        persisted(2, "B", EntryStatus::Failed, 3),
        persisted(3, "C", EntryStatus::Pending, 0),
    ]);
    assert_eq!(n, 2);
    add(&mut q, 4, 10, "D").unwrap();
    let e = q.begin_next().unwrap();
    assert_eq!(e.id, 1);
    assert_eq!(e.attempts, 1);
    assert_eq!(e.status, EntryStatus::Processing);
    let order: Vec<u128> = q.pending.iter().map(|e| e.id).collect();
    assert_eq!(order, vec![3, 4]);
    assert!(q.pending.iter().all(|e| e.status == EntryStatus::Pending));
}

#[test]
fn recovery_skips_duplicate_agents_and_respects_bound() {
    let mut q = MergeQueue::new(config(2, 3, true));
    let n = q.recover(vec![
        persisted(1, "A", EntryStatus::Pending, 0),
        persisted(2, "A", EntryStatus::Pending, 0),
        persisted(3, "B", EntryStatus::Pending, 0),
        persisted(4, "C", EntryStatus::Pending, 0),
    ]);
    assert_eq!(n, 2);
    let order: Vec<u128> = q.pending.iter().map(|e| e.id).collect();
    assert_eq!(order, vec![1, 3]);
}

#[test]
fn cancel_removes_only_waiting_entries() {
    let mut q = MergeQueue::new(Config::default());
    add(&mut q, 1, 1, "A").unwrap();
    add(&mut q, 2, 2, "B").unwrap();
    let running = q.begin_next().unwrap();
    assert!(q.cancel(running.id).is_none());
    assert_eq!(q.cancel(2).map(|e| e.agent_id), Some("B".to_string()));
    assert!(q.pending.is_empty());
    assert!(q.cancel(2).is_none());
}

#[test]
fn enqueue_assigns_fresh_ids_and_current_time() {
    let mut q = MergeQueue::new(Config::default());
    let a = q
        .enqueue("A".into(), "s".into(), "agent/A".into(), "/wt/A".into(), "feature/x".into())
        .unwrap();
    let b = q
        .enqueue("B".into(), "s".into(), "agent/B".into(), "/wt/B".into(), "feature/x".into())
        .unwrap();
    assert_ne!(a, b);
    assert_eq!(q.pending[0].id, a);
    assert_eq!(q.pending[1].id, b);
    // version-4 identifiers carry the version nibble 4
    assert_eq!((a >> 76) & 0xF, 4);
    // after 2020-01-01
    assert!(q.pending[0].queued_at > 1_577_836_800_000);
}

#[test]
fn status_names_round_trip() {
    for s in [
        EntryStatus::Pending,
        EntryStatus::Processing,
        EntryStatus::Completed,
        EntryStatus::Conflict,
        EntryStatus::Failed,
    ] {
        assert_eq!(parse_status(&status_text(s)), Some(s));
    }
    assert_eq!(status_text(EntryStatus::Processing), "Processing");
    assert_eq!(parse_status(&"\"Pending\"".to_string()), None);
}

#[test]
fn row_encoding_round_trips() {
    let mut e = persisted(5, "A", EntryStatus::Conflict, 2);
    e.last_error = Some("boom".to_string());
    e.conflict_files = vec!["a.rs".to_string(), "b \"q\".rs".to_string()];
    let row = encode_row(&e).unwrap();
    assert_eq!(row.status, "Conflict");
    assert_eq!(row.conflict_files, "[\"a.rs\",\"b \\\"q\\\".rs\"]");
    let d = decode_row(row).unwrap();
    assert_eq!(d.id, 5);
    assert_eq!(d.agent_id, "A");
    assert_eq!(d.attempts, 2);
    assert_eq!(d.status, EntryStatus::Conflict);
    assert_eq!(d.last_error.as_deref(), Some("boom"));
    assert_eq!(d.conflict_files, e.conflict_files);
}

fn raw_row(status: &str, files: &str) -> EntryRow {
    EntryRow {
        id: 1,
        agent_id: "A".to_string(),
        session_id: "s".to_string(),
        branch: "b".to_string(),
        worktree: "w".to_string(),
        target_branch: "t".to_string(),
        attempts: 0,
        queued_at: 0,
        status: status.to_string(),
        last_error: None,
        conflict_files: files.to_string(),
    }
}

#[test]
fn row_decoding_rejects_corrupt_rows() {
    assert!(matches!(decode_row(raw_row("Bogus", "[]")), Err(DaemonError::Database(_))));
    assert!(matches!(decode_row(raw_row("Pending", "not json")), Err(DaemonError::Json(_))));
    let d = decode_row(raw_row("Processing", "[]")).unwrap();
    assert_eq!(d.status, EntryStatus::Processing);
    assert!(d.conflict_files.is_empty());
    let e = persisted(2, "B", EntryStatus::Pending, 0);
    assert_eq!(encode_row(&e).unwrap().conflict_files, "[]");
}

#[test]
fn enqueue_refuses_an_id_already_held() {
    let mut q = MergeQueue::new(config(10, 0, true));
    add(&mut q, 1, 1, "A").unwrap();
    assert!(matches!(add(&mut q, 1, 2, "B"), Err(DaemonError::InvalidRequest(_))));
    // a failed entry still holds its id
    run(&mut q, MergeOutcome::Failure("x".to_string()), 3);
    assert_eq!(q.status_of(1), Some(EntryStatus::Failed));
    assert!(matches!(add(&mut q, 1, 4, "C"), Err(DaemonError::InvalidRequest(_))));
    assert_eq!(add(&mut q, 2, 5, "C"), Ok(2));
}

#[test]
fn recovery_clamps_attempts_to_the_ceiling() {
    let mut q = MergeQueue::new(config(10, 3, true));
    assert_eq!(q.recover(vec![persisted(1, "A", EntryStatus::Pending, 7)]), 1);
    assert_eq!(q.pending[0].attempts, 3);
    let (_, ops) = run(&mut q, MergeOutcome::Failure("x".to_string()), 1);
    let s = saved(&ops[0]);
    assert_eq!(s.status, EntryStatus::Failed);
    assert_eq!(s.attempts, 3);
}

#[test]
fn worktree_cleaned_only_after_terminal_outcome() {
    let mut q = MergeQueue::new(config(10, 3, true));
    add(&mut q, 1, 1, "A").unwrap();
    let (_, ops) = run(&mut q, MergeOutcome::Conflict(vec!["f".to_string()]), 2);
    assert!(!cleans_worktree(&ops, false));
    let (_, ops) = run(&mut q, MergeOutcome::Success("c".to_string()), 3);
    assert!(cleans_worktree(&ops, false));
    assert!(!cleans_worktree(&ops, true));
}

#[test]
fn error_kinds_name_each_fault() {
    assert_eq!(DaemonError::QueueFull(2).kind(), "queue_full");
    assert_eq!(DaemonError::AgentAlreadyQueued("A".to_string()).kind(), "agent_already_queued");
    assert_eq!(DaemonError::ShuttingDown.kind(), "shutting_down");
    assert_eq!(DaemonError::Json("x".to_string()).kind(), "json");
}
