//! A FIFO merge queue for integrating many agent branches into one feature branch.
//!
//! The library holds the queue engine (the entry state machine, the FIFO
//! scheduler with bounded concurrency, retries and crash recovery), the
//! encoding of entries into rows of the durable store, and the daemon's
//! configuration. Running merges, the database and the control socket belong
//! to the program around it.

mod clock;
mod config;
mod entry;
mod error;
mod laws;
mod queue;
mod store;

pub use config::{Config, MergeStrategy};
pub use entry::{cleans_worktree, EntryStatus, MergeOutcome, MergeRecord, QueueEntry, StoreOp};
pub use error::DaemonError;
pub use laws::{
    lemma_conflict_files_only_in_conflict, lemma_conflict_retry_position,
    lemma_duplicate_agent_refused, lemma_enqueues_keep_their_order, lemma_exhausted_entry_fails,
    lemma_history_follows_queue_order, lemma_history_only_on_success, lemma_interrupted_merge_resumes_first,
    lemma_queue_never_exceeds_bound,
};
pub use queue::MergeQueue;
pub use store::{
    decode_row, encode_row, lemma_row_round_trip, lemma_status_round_trip, parse_status, status_text, EntryRow,
};
