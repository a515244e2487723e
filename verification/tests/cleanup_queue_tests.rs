use rust_worker::cleanup_queue::{
    claim_thumbnail_cleanup_job, finish_thumbnail_cleanup_job, group_has_active_thumbnail,
    has_runnable_thumbnail_cleanup_work, refresh_thumbnail_cleanup_lease, CleanupRow,
};
use rust_worker::config::{HashAlgorithm, WorkerConfig};
use rust_worker::db::{LeaseState, QueueStatus, StoreError};
use rust_worker::thumbnail_queue::{
    delete_group_thumbnail_rows, list_group_thumbnail_outputs, ThumbnailRow,
};

fn worker_config(worker_id: &str) -> WorkerConfig {
    WorkerConfig {
        libraries_root: "/libraries".to_string(),
        libraries_root_real: "/libraries".to_string(),
        database_path: "/state/dedupfs.sqlite3".to_string(),
        thumbs_root_real: "/state/thumbs".to_string(),
        concurrency: 4,
        io_rate_limit_mib_per_sec: None,
        hash_algorithm: HashAlgorithm::Blake3,
        scan_write_batch_size: 2000,
        hash_fetch_batch_size: 512,
        hash_read_chunk_bytes: 4 * 1024 * 1024,
        hash_claim_ttl_seconds: 600,
        hash_retry_base_seconds: 30,
        hash_retry_max_seconds: 3600,
        job_lock_ttl_seconds: 300,
        thumbnail_image_concurrency: 2,
        thumbnail_video_concurrency: 1,
        thumbnail_io_rate_limit_mib_per_sec: None,
        thumbnail_retry_base_seconds: 30,
        thumbnail_retry_max_seconds: 1800,
        thumbnail_ffmpeg_bin: "ffmpeg".to_string(),
        thumbnail_ffmpeg_timeout_seconds: 120,
        thumbnail_max_dimension: 256,
        rust_worker_poll_seconds: 5,
        rust_worker_max_poll_seconds: 30,
        rust_worker_poll_jitter_millis: 250,
        wal_checkpoint_retry_seconds: 120,
        worker_id: worker_id.to_string(),
    }
}

fn thumbnail(id: i64, group_key: &str, status: QueueStatus) -> ThumbnailRow {
    let mut lease = LeaseState::pending();
    lease.status = status;
    ThumbnailRow {
        id,
        thumb_key: format!("key-{}", id),
        group_key: group_key.to_string(),
        file_id: 1,
        media_type: "image".to_string(),
        format: "jpeg".to_string(),
        max_dimension: 128,
        source_size_bytes: 100,
        source_mtime_ns: 5,
        output_relpath: Some(format!("ab/key-{}.jpg", id)),
        lease,
        retry_after: None,
        error_count: None,
        width: None,
        height: None,
        bytes_size: None,
        created_at: id,
        started_at: None,
        finished_at: None,
        updated_at: 0,
    }
}

fn cleanup(id: i64, group_key: &str, execute_after: i64) -> CleanupRow {
    CleanupRow {
        id,
        group_key: group_key.to_string(),
        execute_after,
        lease: LeaseState::pending(),
        finished_at: None,
        updated_at: 0,
    }
}

#[test]
fn thumbnail_cleanup_admissibility() {
    let config = worker_config("w1");
    let mut thumbnails = vec![
        thumbnail(1, "G", QueueStatus::Ready),
        thumbnail(2, "G", QueueStatus::Pending),
    ];
    let mut cleanups = vec![cleanup(1, "G", 0)];
    assert!(group_has_active_thumbnail(&thumbnails, "G"));
    assert!(has_runnable_thumbnail_cleanup_work(&cleanups, 100));
    assert!(claim_thumbnail_cleanup_job(&mut cleanups, &thumbnails, &config, 100).is_none());
    assert_eq!(cleanups[0].lease.status, QueueStatus::Pending);

    thumbnails[1].lease.status = QueueStatus::Ready;
    assert!(!group_has_active_thumbnail(&thumbnails, "G"));
    let record = claim_thumbnail_cleanup_job(&mut cleanups, &thumbnails, &config, 101).unwrap();
    assert_eq!(record.id, 1);
    assert_eq!(record.group_key, "G");
    assert_eq!(cleanups[0].lease.status, QueueStatus::Running);
    assert_eq!(cleanups[0].lease.lease_expires_at, Some(401));

    assert_eq!(list_group_thumbnail_outputs(&thumbnails, "G").len(), 2);
    assert_eq!(delete_group_thumbnail_rows(&mut thumbnails, "G"), 2);
    assert!(thumbnails.is_empty());
    assert_eq!(
        finish_thumbnail_cleanup_job(&mut cleanups, &config, 1, true, None, None, 110),
        Ok(())
    );
    assert_eq!(cleanups[0].lease.status, QueueStatus::Completed);
    assert_eq!(cleanups[0].finished_at, Some(110));
}

#[test]
fn a_running_thumbnail_blocks_the_cleanup_of_its_group_only() {
    let config = worker_config("w1");
    let thumbnails = vec![
        thumbnail(1, "busy", QueueStatus::Running),
        thumbnail(2, "idle", QueueStatus::Failed),
    ];
    let mut cleanups = vec![cleanup(1, "busy", 0), cleanup(2, "idle", 5), cleanup(3, "idle", 3)];
    let record = claim_thumbnail_cleanup_job(&mut cleanups, &thumbnails, &config, 10).unwrap();
    assert_eq!(record.id, 3);
    let next = claim_thumbnail_cleanup_job(&mut cleanups, &thumbnails, &config, 10).unwrap();
    assert_eq!(next.id, 2);
    assert!(claim_thumbnail_cleanup_job(&mut cleanups, &thumbnails, &config, 10).is_none());
}

#[test]
fn a_cleanup_is_claimed_only_when_it_is_due() {
    let config = worker_config("w1");
    let mut cleanups = vec![cleanup(1, "g", 50)];
    assert!(!has_runnable_thumbnail_cleanup_work(&cleanups, 49));
    assert!(claim_thumbnail_cleanup_job(&mut cleanups, &vec![], &config, 49).is_none());
    assert!(claim_thumbnail_cleanup_job(&mut cleanups, &vec![], &config, 50).is_some());
}

#[test]
fn an_abandoned_cleanup_goes_back_to_pending() {
    let first = worker_config("w1");
    let second = worker_config("w2");
    let mut cleanups = vec![cleanup(1, "g", 0)];
    claim_thumbnail_cleanup_job(&mut cleanups, &vec![], &first, 0).unwrap();
    assert_eq!(refresh_thumbnail_cleanup_lease(&mut cleanups, &first, 1, 100), Ok(()));
    assert_eq!(cleanups[0].lease.lease_expires_at, Some(400));
    assert_eq!(
        refresh_thumbnail_cleanup_lease(&mut cleanups, &second, 1, 100),
        Err(StoreError::LeaseUpdateRejected)
    );
    assert!(claim_thumbnail_cleanup_job(&mut cleanups, &vec![], &second, 399).is_none());
    let record = claim_thumbnail_cleanup_job(&mut cleanups, &vec![], &second, 400).unwrap();
    assert_eq!(record.id, 1);
    assert_eq!(cleanups[0].lease.worker_id, Some("w2".to_string()));
    assert_eq!(cleanups[0].lease.error_code, Some("LEASE_EXPIRED".to_string()));
    assert_eq!(
        finish_thumbnail_cleanup_job(&mut cleanups, &first, 1, true, None, None, 401),
        Err(StoreError::FinishRejected)
    );
    assert_eq!(
        finish_thumbnail_cleanup_job(
            &mut cleanups,
            &second,
            1,
            false,
            Some("THUMB_CLEANUP_FAILED"),
            Some("could not remove"),
            402
        ),
        Ok(())
    );
    assert_eq!(cleanups[0].lease.status, QueueStatus::Failed);
    assert_eq!(cleanups[0].lease.error_code, Some("THUMB_CLEANUP_FAILED".to_string()));
    assert_eq!(cleanups[0].lease.error_message, Some("could not remove".to_string()));
}
