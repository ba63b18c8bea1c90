//! The decisions of an ingestion worker's poll loop, as a step from state
//! and event to next state and action.
use vstd::prelude::*;

verus! {

/// Milliseconds a worker waits after a failed poll.
pub const POLL_BACKOFF_MS: u64 = 100;

/// What a worker holds between steps: messages buffered since the last
/// batch, and how many batches it has handed out.
#[derive(Debug, Clone, Copy, PartialEq, Eq, Structural)]
pub struct WorkerState {
    pub buffered: usize,
    pub batch_num: usize,
}

/// What happened since the last step.
#[derive(Debug, Clone, Copy, PartialEq, Eq, Structural)]
pub enum PollEvent {
    /// A poll returned this many messages.
    Polled { count: usize },
    /// A poll failed.
    PollFailed,
    /// The batch handed out was applied.
    BatchDone,
    /// The batch handed out could not be applied.
    BatchFailed,
    /// The offsets were committed.
    Committed,
    /// The offsets could not be committed.
    CommitFailed,
}

/// What the worker does next.
#[derive(Debug, Clone, Copy, PartialEq, Eq, Structural)]
pub enum WorkerAction {
    /// Poll again.
    Poll,
    /// Process the buffered messages as batch `batch_num`.
    ProcessBatch { batch_num: usize, size: usize },
    /// Commit the consumer offsets.
    Commit,
    /// Wait this many milliseconds, then poll again.
    Backoff { millis: u64 },
    /// Stop: the worker has failed.
    Stop,
}

/// The step of the poll loop: polled messages join the buffer, which is
/// handed out as the next batch once it holds `batch_size` messages; a
/// processed batch is committed; a failed poll is retried after a backoff;
/// a failed batch or a failed commit stops the worker.
pub open spec fn spec_worker_step(s: WorkerState, e: PollEvent, batch_size: usize) -> (
    WorkerState,
    WorkerAction,
) {
    match e {
        PollEvent::Polled { count } => {
            let buffered = if s.buffered + count > usize::MAX {
                usize::MAX as int
            } else {
                s.buffered + count
            };
            if buffered >= batch_size {
                let n = if s.batch_num == usize::MAX {
                    s.batch_num
                } else {
                    (s.batch_num + 1) as usize
                };
                (
                    WorkerState { buffered: 0, batch_num: n },
                    WorkerAction::ProcessBatch { batch_num: n, size: buffered as usize },
                )
            } else {
                (WorkerState { buffered: buffered as usize, ..s }, WorkerAction::Poll)
            }
        },
        PollEvent::PollFailed => (s, WorkerAction::Backoff { millis: POLL_BACKOFF_MS }),
        PollEvent::BatchDone => (s, WorkerAction::Commit),
        PollEvent::BatchFailed => (s, WorkerAction::Stop),
        PollEvent::Committed => (s, WorkerAction::Poll),
        PollEvent::CommitFailed => (s, WorkerAction::Stop),
    }
}

/// One step of the poll loop (see `spec_worker_step`).
pub fn worker_step(s: WorkerState, e: PollEvent, batch_size: usize) -> (r: (WorkerState, WorkerAction))
    ensures
        r == spec_worker_step(s, e, batch_size),
{
    match e {
        PollEvent::Polled { count } => {
            let buffered = s.buffered.saturating_add(count);
            if buffered >= batch_size {
                let n = s.batch_num.saturating_add(1);
                (
                    WorkerState { buffered: 0, batch_num: n },
                    WorkerAction::ProcessBatch { batch_num: n, size: buffered },
                )
            } else {
                (WorkerState { buffered, batch_num: s.batch_num }, WorkerAction::Poll)
            }
        },
        PollEvent::PollFailed => (s, WorkerAction::Backoff { millis: POLL_BACKOFF_MS }),
        PollEvent::BatchDone => (s, WorkerAction::Commit),
        PollEvent::BatchFailed => (s, WorkerAction::Stop),
        PollEvent::Committed => (s, WorkerAction::Poll),
        PollEvent::CommitFailed => (s, WorkerAction::Stop),
    }
}

} // verus!
