//! The write-load generator: a fixed pool of workers that share one stop
//! flag and one value sequence.

use crate::retry::RetryPolicy;
use crate::statement::{insert_statement, insert_text, Statement};
use crate::stopper::WritesStopper;
use crate::worker::{WorkerState, WriteWorker, DEFAULT_REPORT_GAP_MS};
use std::sync::atomic::AtomicBool;
use std::sync::Arc;
use vstd::prelude::*;

verus! {

/// The number of workers of the standard workload.
pub const DEFAULT_WRITER_COUNT: u32 = 512;

/// Milliseconds between two writes of one worker.
pub const DEFAULT_TICK_MS: u64 = 100;

/// The shape of a workload.
#[derive(Clone, Copy, Debug, PartialEq, Eq)]
pub struct WorkloadConfig {
    /// The number of workers.
    pub writer_count: u32,
    /// Milliseconds between two ticks of a worker's timer.
    pub tick_ms: u64,
    /// Milliseconds between two progress reports.
    pub report_gap_ms: u64,
    /// How a failing write is retried.
    pub retry: RetryPolicy,
}

/// A workload ready to run: what the driver prepares, spawns and hands out.
pub struct Workload {
    /// The insert to prepare once and share among the workers.
    pub statement: Statement,
    /// Milliseconds between two ticks of a worker's timer.
    pub tick_ms: u64,
    /// The handle that stops the workload. Its flag starts lowered.
    pub stopper: WritesStopper,
    /// The workers, one per id, in the order of their ids.
    pub workers: Vec<WriteWorker>,
}

impl WorkloadConfig {
    /// 512 workers, one write every 100 ms each, a progress report every
    /// four seconds, eight attempts per write 64 ms apart.
    pub fn standard() -> (config: WorkloadConfig)
        ensures
            config == (WorkloadConfig {
                writer_count: DEFAULT_WRITER_COUNT,
                tick_ms: DEFAULT_TICK_MS,
                report_gap_ms: DEFAULT_REPORT_GAP_MS,
                retry: RetryPolicy::standard_policy(),
            }),
    {
        WorkloadConfig {
            writer_count: DEFAULT_WRITER_COUNT,
            tick_ms: DEFAULT_TICK_MS,
            report_gap_ms: DEFAULT_REPORT_GAP_MS,
            retry: RetryPolicy::standard(),
        }
    }
}

/// Sets up a workload: the insert, a fresh stop flag behind its handle, and
/// `writer_count` workers at their start, worker `i` with id `i`.
pub fn start_writes(config: &WorkloadConfig) -> (workload: Workload)
    ensures
        workload.statement.text@ == insert_text(),
        workload.statement.idempotent,
        workload.tick_ms == config.tick_ms,
        workload.workers@.len() == config.writer_count,
        forall|i: int|
            0 <= i < config.writer_count ==> (#[trigger] workload.workers@[i])@
                == WorkerState::initial(
                i as u32,
                config.writer_count,
                config.retry,
                config.report_gap_ms,
            ),
{
    let should_stop: Arc<AtomicBool> = Arc::new(AtomicBool::new(false));
    let mut workers: Vec<WriteWorker> = Vec::new();
    let mut id: u32 = 0;
    while id < config.writer_count
        invariant
            id <= config.writer_count,
            workers@.len() == id,
            forall|i: int|
                0 <= i < id ==> (#[trigger] workers@[i])@ == WorkerState::initial(
                    i as u32,
                    config.writer_count,
                    config.retry,
                    config.report_gap_ms,
                ),
        decreases config.writer_count - id,
    {
        let worker = WriteWorker::new(id, config.writer_count, config.retry, config.report_gap_ms);
        workers.push(worker.unwrap());
        id = id + 1;
    }
    Workload {
        statement: insert_statement(),
        tick_ms: config.tick_ms,
        stopper: WritesStopper::new(should_stop),
        workers,
    }
}

} // verus!
