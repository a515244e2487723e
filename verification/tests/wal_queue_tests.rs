use rust_worker::config::{HashAlgorithm, WorkerConfig};
use rust_worker::db::{LeaseState, QueueStatus, StoreError};
use rust_worker::wal_queue::{
    checkpoint_statement, claim_wal_maintenance_job, finish_wal_maintenance_failure,
    finish_wal_maintenance_success, has_runnable_wal_maintenance_work,
    requeue_wal_maintenance_retry, WalCheckpointMode, WalCheckpointStats, WalMaintenanceRecord,
    WalRow,
};
use rust_worker::worker::{settle_wal_checkpoint, CheckpointOutcome, CycleOutcome};

fn worker_config(worker_id: &str) -> WorkerConfig {
    WorkerConfig {
        libraries_root: "/libraries".to_string(),
        libraries_root_real: "/libraries".to_string(),
        database_path: "/state/dedupfs.sqlite3".to_string(),
        thumbs_root_real: "/state/thumbs".to_string(),
        concurrency: 4,
        io_rate_limit_mib_per_sec: None,
        hash_algorithm: HashAlgorithm::Blake3,
        scan_write_batch_size: 2000,
        hash_fetch_batch_size: 512,
        hash_read_chunk_bytes: 4 * 1024 * 1024,
        hash_claim_ttl_seconds: 600,
        hash_retry_base_seconds: 30,
        hash_retry_max_seconds: 3600,
        job_lock_ttl_seconds: 300,
        thumbnail_image_concurrency: 2,
        thumbnail_video_concurrency: 1,
        thumbnail_io_rate_limit_mib_per_sec: None,
        thumbnail_retry_base_seconds: 30,
        thumbnail_retry_max_seconds: 1800,
        thumbnail_ffmpeg_bin: "ffmpeg".to_string(),
        thumbnail_ffmpeg_timeout_seconds: 120,
        thumbnail_max_dimension: 256,
        rust_worker_poll_seconds: 5,
        rust_worker_max_poll_seconds: 30,
        rust_worker_poll_jitter_millis: 250,
        wal_checkpoint_retry_seconds: 120,
        worker_id: worker_id.to_string(),
    }
}

fn wal_job(id: i64, mode: &str, execute_after: i64) -> WalRow {
    WalRow {
        id,
        requested_mode: mode.to_string(),
        execute_after,
        retry_count: None,
        retry_after: None,
        lease: LeaseState::pending(),
        checkpoint_busy: None,
        checkpoint_log_frames: None,
        checkpointed_frames: None,
        started_at: None,
        finished_at: None,
        updated_at: 0,
    }
}

#[test]
fn checkpoint_modes_have_names_and_keywords() {
    assert_eq!(WalCheckpointMode::parse("passive"), Some(WalCheckpointMode::Passive));
    assert_eq!(WalCheckpointMode::parse("restart"), Some(WalCheckpointMode::Restart));
    assert_eq!(WalCheckpointMode::parse("truncate"), Some(WalCheckpointMode::Truncate));
    assert_eq!(WalCheckpointMode::parse("PASSIVE"), None);
    assert_eq!(WalCheckpointMode::parse("full"), None);
    assert_eq!(WalCheckpointMode::Passive.as_sql_keyword(), "PASSIVE");
    assert_eq!(WalCheckpointMode::Restart.as_sql_keyword(), "RESTART");
    assert_eq!(WalCheckpointMode::Truncate.as_sql_keyword(), "TRUNCATE");
    assert_eq!(checkpoint_statement(WalCheckpointMode::Truncate), "PRAGMA wal_checkpoint(TRUNCATE)");
    assert_eq!(checkpoint_statement(WalCheckpointMode::Passive), "PRAGMA wal_checkpoint(PASSIVE)");
}

#[test]
fn wal_busy_retry() {
    let config = worker_config("w1");
    let mut wal_jobs = vec![wal_job(1, "passive", 0)];
    wal_jobs[0].retry_count = Some(2);
    let job = claim_wal_maintenance_job(&mut wal_jobs, &config, 1000).unwrap().unwrap();
    assert_eq!(
        job,
        WalMaintenanceRecord { id: 1, requested_mode: WalCheckpointMode::Passive, retry_count: 2 }
    );
    let busy = WalCheckpointStats { busy: 1, log_frames: 12, checkpointed_frames: 7 };
    let outcome = settle_wal_checkpoint(
        &mut wal_jobs,
        &config,
        &job,
        &CheckpointOutcome::Ran(busy),
        false,
        1010,
    );
    assert!(matches!(outcome, Ok(CycleOutcome::DidWork)));
    assert_eq!(wal_jobs[0].lease.status, QueueStatus::Retryable);
    assert_eq!(wal_jobs[0].retry_count, Some(3));
    assert_eq!(wal_jobs[0].retry_after, Some(1010 + 120));
    assert_eq!(wal_jobs[0].checkpoint_busy, Some(1));
    assert_eq!(wal_jobs[0].checkpoint_log_frames, Some(12));
    assert_eq!(wal_jobs[0].checkpointed_frames, Some(7));
    assert_eq!(wal_jobs[0].lease.error_code, Some("WAL_CHECKPOINT_BUSY".to_string()));
    assert_eq!(
        wal_jobs[0].lease.error_message,
        Some("WAL checkpoint busy=1 log_frames=12 checkpointed_frames=7".to_string())
    );
    assert_eq!(wal_jobs[0].finished_at, None);

    assert!(!has_runnable_wal_maintenance_work(&wal_jobs, 1129));
    assert_eq!(claim_wal_maintenance_job(&mut wal_jobs, &config, 1129), Ok(None));
    let again = claim_wal_maintenance_job(&mut wal_jobs, &config, 1130).unwrap().unwrap();
    assert_eq!(again.retry_count, 3);
    let clear = WalCheckpointStats { busy: 0, log_frames: 12, checkpointed_frames: 12 };
    let done = settle_wal_checkpoint(
        &mut wal_jobs,
        &config,
        &again,
        &CheckpointOutcome::Ran(clear),
        false,
        1140,
    );
    assert!(matches!(done, Ok(CycleOutcome::DidWork)));
    assert_eq!(wal_jobs[0].lease.status, QueueStatus::Completed);
    assert_eq!(wal_jobs[0].checkpoint_busy, Some(0));
    assert_eq!(wal_jobs[0].checkpointed_frames, Some(12));
    assert_eq!(wal_jobs[0].lease.error_code, None);
    assert_eq!(wal_jobs[0].finished_at, Some(1140));
    assert_eq!(wal_jobs[0].retry_count, Some(3));
}

#[test]
fn claim_orders_by_retry_time_or_due_time() {
    let config = worker_config("w1");
    let mut wal_jobs = vec![
        wal_job(1, "passive", 50),
        wal_job(2, "restart", 40),
        wal_job(3, "truncate", 10),
        wal_job(4, "passive", 10),
    ];
    wal_jobs[2].lease.status = QueueStatus::Retryable;
    wal_jobs[2].retry_after = Some(45);
    wal_jobs[3].execute_after = 500;
    let ids: Vec<i64> = (0..3)
        .map(|_| claim_wal_maintenance_job(&mut wal_jobs, &config, 100).unwrap().unwrap().id)
        .collect();
    assert_eq!(ids, vec![2, 3, 1]);
    assert_eq!(claim_wal_maintenance_job(&mut wal_jobs, &config, 100), Ok(None));
}

#[test]
fn an_unknown_mode_is_an_error_after_the_claim() {
    let config = worker_config("w1");
    let mut wal_jobs = vec![wal_job(1, "full", 0)];
    assert_eq!(
        claim_wal_maintenance_job(&mut wal_jobs, &config, 10),
        Err(StoreError::UnsupportedCheckpointMode)
    );
    assert_eq!(wal_jobs[0].lease.status, QueueStatus::Running);
}

#[test]
fn an_abandoned_maintenance_job_becomes_retryable_with_a_delay() {
    let config = worker_config("w1");
    let mut wal_jobs = vec![wal_job(1, "passive", 0)];
    claim_wal_maintenance_job(&mut wal_jobs, &config, 0).unwrap().unwrap();
    assert_eq!(claim_wal_maintenance_job(&mut wal_jobs, &worker_config("w2"), 300), Ok(None));
    assert_eq!(wal_jobs[0].lease.status, QueueStatus::Retryable);
    assert_eq!(wal_jobs[0].retry_count, Some(1));
    assert_eq!(wal_jobs[0].retry_after, Some(420));
    assert_eq!(wal_jobs[0].lease.error_code, Some("LEASE_EXPIRED".to_string()));
    let taken = claim_wal_maintenance_job(&mut wal_jobs, &worker_config("w2"), 420).unwrap();
    assert_eq!(taken.unwrap().retry_count, 1);
}

#[test]
fn finishes_need_the_holder() {
    let config = worker_config("w1");
    let stats = WalCheckpointStats { busy: 0, log_frames: 1, checkpointed_frames: 1 };
    let mut wal_jobs = vec![wal_job(1, "passive", 0)];
    assert_eq!(
        finish_wal_maintenance_success(&mut wal_jobs, &config, 1, stats, 1),
        Err(StoreError::FinishRejected)
    );
    assert_eq!(
        requeue_wal_maintenance_retry(&mut wal_jobs, &config, 1, 0, "C", "m", stats, 1),
        Err(StoreError::FinishRejected)
    );
    assert_eq!(
        finish_wal_maintenance_failure(&mut wal_jobs, &config, 1, "C", "m", 1),
        Err(StoreError::FinishRejected)
    );
    claim_wal_maintenance_job(&mut wal_jobs, &config, 5).unwrap().unwrap();
    assert_eq!(
        finish_wal_maintenance_failure(&mut wal_jobs, &config, 1, "WAL_CHECKPOINT_FAILED", "m", 6),
        Ok(())
    );
    assert_eq!(wal_jobs[0].lease.status, QueueStatus::Failed);
    assert_eq!(wal_jobs[0].lease.error_code, Some("WAL_CHECKPOINT_FAILED".to_string()));
    assert_eq!(wal_jobs[0].finished_at, Some(6));
}
