use mv_consistency::generator::{start_writes, WorkloadConfig, DEFAULT_TICK_MS, DEFAULT_WRITER_COUNT};
use mv_consistency::retry::RetryPolicy;
use mv_consistency::worker::{WorkerPhase, WorkerState};
use std::sync::atomic::Ordering;

#[test]
fn standard_workload_shape() {
    let config = WorkloadConfig::standard();
    assert_eq!(
        config,
        WorkloadConfig {
            writer_count: 512,
            tick_ms: 100,
            report_gap_ms: 4000,
            retry: RetryPolicy { max_attempts: 8, backoff_ms: 64 },
        }
    );
    assert_eq!(DEFAULT_WRITER_COUNT, 512);
    assert_eq!(DEFAULT_TICK_MS, 100);
}

#[test]
fn standard_workload_has_one_worker_per_id() {
    let workload = start_writes(&WorkloadConfig::standard());
    assert_eq!(workload.workers.len(), 512);
    for (i, worker) in workload.workers.iter().enumerate() {
        assert_eq!(
            worker.state(),
            WorkerState {
                id: i as u32,
                worker_count: 512,
                iteration: 0,
                phase: WorkerPhase::AwaitingTick,
                policy: RetryPolicy { max_attempts: 8, backoff_ms: 64 },
                report_gap_ms: 4000,
                report_after_ms: 1000,
            }
        );
    }
    assert_eq!(workload.tick_ms, 100);
}

#[test]
fn workload_carries_the_idempotent_insert() {
    let workload = start_writes(&WorkloadConfig::standard());
    assert_eq!(workload.statement.text, "INSERT INTO view_test.tab (p, c, r) VALUES (?, ?, ?)");
    assert!(workload.statement.idempotent);
}

#[test]
fn workload_starts_with_the_flag_lowered() {
    let workload = start_writes(&WorkloadConfig::standard());
    assert!(!workload.stopper.should_stop().load(Ordering::Relaxed));
    workload.stopper.stop();
    assert!(workload.stopper.should_stop().load(Ordering::Relaxed));
}

#[test]
fn workload_without_workers_is_empty() {
    let config = WorkloadConfig { writer_count: 0, ..WorkloadConfig::standard() };
    let workload = start_writes(&config);
    assert!(workload.workers.is_empty());
}

#[test]
fn custom_workload_is_taken_as_given() {
    let config = WorkloadConfig {
        writer_count: 3,
        tick_ms: 7,
        report_gap_ms: 11,
        retry: RetryPolicy { max_attempts: 2, backoff_ms: 5 },
    };
    let workload = start_writes(&config);
    assert_eq!(workload.tick_ms, 7);
    assert_eq!(workload.workers.len(), 3);
    for (i, worker) in workload.workers.iter().enumerate() {
        let state = worker.state();
        assert_eq!(state.id, i as u32);
        assert_eq!(state.worker_count, 3);
        assert_eq!(state.policy, RetryPolicy { max_attempts: 2, backoff_ms: 5 });
        assert_eq!(state.report_gap_ms, 11);
    }
}
