use rust_worker::config::{HashAlgorithm, WorkerConfig};
use rust_worker::db::{FileRow, LeaseState, LibraryRootRow, QueueStatus, StoreError};
use rust_worker::thumbnail_queue::{
    claim_thumbnail_task, count_occupied_slots, delete_group_thumbnail_rows,
    finish_thumbnail_failure, finish_thumbnail_success, has_runnable_thumbnail_work,
    list_group_thumbnail_outputs, refresh_thumbnail_lease, ThumbnailRow,
};

fn worker_config(worker_id: &str) -> WorkerConfig {
    WorkerConfig {
        libraries_root: "/libraries".to_string(),
        libraries_root_real: "/libraries".to_string(),
        database_path: "/state/dedupfs.sqlite3".to_string(),
        thumbs_root_real: "/state/thumbs".to_string(),
        concurrency: 4,
        io_rate_limit_mib_per_sec: None,
        hash_algorithm: HashAlgorithm::Blake3,
        scan_write_batch_size: 2000,
        hash_fetch_batch_size: 512,
        hash_read_chunk_bytes: 4 * 1024 * 1024,
        hash_claim_ttl_seconds: 600,
        hash_retry_base_seconds: 30,
        hash_retry_max_seconds: 3600,
        job_lock_ttl_seconds: 300,
        thumbnail_image_concurrency: 2,
        thumbnail_video_concurrency: 1,
        thumbnail_io_rate_limit_mib_per_sec: None,
        thumbnail_retry_base_seconds: 30,
        thumbnail_retry_max_seconds: 1800,
        thumbnail_ffmpeg_bin: "ffmpeg".to_string(),
        thumbnail_ffmpeg_timeout_seconds: 120,
        thumbnail_max_dimension: 256,
        rust_worker_poll_seconds: 5,
        rust_worker_max_poll_seconds: 30,
        rust_worker_poll_jitter_millis: 250,
        wal_checkpoint_retry_seconds: 120,
        worker_id: worker_id.to_string(),
    }
}

fn thumbnail(id: i64, group_key: &str, status: QueueStatus) -> ThumbnailRow {
    let mut lease = LeaseState::pending();
    lease.status = status;
    ThumbnailRow {
        id,
        thumb_key: format!("key-{}", id),
        group_key: group_key.to_string(),
        file_id: 1,
        media_type: "image".to_string(),
        format: "jpeg".to_string(),
        max_dimension: 128,
        source_size_bytes: 100,
        source_mtime_ns: 5,
        output_relpath: Some(format!("ab/key-{}.jpg", id)),
        lease,
        retry_after: None,
        error_count: None,
        width: None,
        height: None,
        bytes_size: None,
        created_at: id,
        started_at: None,
        finished_at: None,
        updated_at: 0,
    }
}

fn file(id: i64, library_id: i64, relative_path: &str, size_bytes: i64, mtime_ns: i64) -> FileRow {
    FileRow {
        id,
        library_id,
        relative_path: relative_path.to_string(),
        size_bytes,
        mtime_ns,
        inode: Some(id + 1000),
        device: Some(7),
        is_missing: false,
        needs_hash: true,
        last_seen_scan_id: None,
        hash_algorithm: None,
        content_hash: None,
        hashed_size_bytes: None,
        hashed_mtime_ns: None,
        hashed_at: None,
        hash_claim_token: None,
        hash_claimed_at: None,
        hash_error_count: None,
        hash_last_error: None,
        hash_last_error_at: None,
        hash_retry_after: None,
        updated_at: 0,
    }
}

fn root(id: i64, name: &str) -> LibraryRootRow {
    LibraryRootRow {
        id,
        name: name.to_string(),
        root_path: format!("/libraries/{}", name),
        last_scanned_at: None,
        updated_at: 0,
    }
}

#[test]
fn cleanup_delete_only_removes_terminal_rows() {
    let mut thumbnails = vec![
        thumbnail(1, "sha256:g", QueueStatus::Ready),
        thumbnail(2, "sha256:g", QueueStatus::Failed),
        thumbnail(3, "sha256:g", QueueStatus::Running),
        thumbnail(4, "sha256:g", QueueStatus::Pending),
    ];

    let deleted = delete_group_thumbnail_rows(&mut thumbnails, "sha256:g");
    assert_eq!(deleted, 2);

    let running_remaining = thumbnails
        .iter()
        .filter(|row| row.group_key == "sha256:g" && row.lease.status == QueueStatus::Running)
        .count();
    let pending_remaining = thumbnails
        .iter()
        .filter(|row| row.group_key == "sha256:g" && row.lease.status == QueueStatus::Pending)
        .count();
    assert_eq!(running_remaining, 1);
    assert_eq!(pending_remaining, 1);
}

#[test]
fn cleanup_leaves_other_groups_and_keeps_the_order() {
    let mut thumbnails = vec![
        thumbnail(1, "g", QueueStatus::Ready),
        thumbnail(2, "other", QueueStatus::Ready),
        thumbnail(3, "g", QueueStatus::Pending),
        thumbnail(4, "other", QueueStatus::Failed),
        thumbnail(5, "g", QueueStatus::Failed),
        thumbnail(6, "g", QueueStatus::Running),
    ];
    thumbnails[4].output_relpath = None;
    assert_eq!(
        list_group_thumbnail_outputs(&thumbnails, "g"),
        vec![(1, "ab/key-1.jpg".to_string()), (5, String::new())]
    );
    assert_eq!(delete_group_thumbnail_rows(&mut thumbnails, "g"), 2);
    let left: Vec<i64> = thumbnails.iter().map(|row| row.id).collect();
    assert_eq!(left, vec![2, 3, 4, 6]);
    assert_eq!(delete_group_thumbnail_rows(&mut thumbnails, "g"), 0);
    assert_eq!(delete_group_thumbnail_rows(&mut thumbnails, "none"), 0);
    assert_eq!(list_group_thumbnail_outputs(&thumbnails, "g"), Vec::<(i64, String)>::new());
    assert_eq!(thumbnails.len(), 4);
}

#[test]
fn claim_hands_out_the_oldest_task_with_its_paths() {
    let config = worker_config("w1");
    let files = vec![file(1, 9, "2024/a.jpg", 100, 5)];
    let roots = vec![root(9, "photos")];
    let mut thumbnails = vec![
        thumbnail(1, "g", QueueStatus::Pending),
        thumbnail(2, "g", QueueStatus::Pending),
    ];
    thumbnails[0].created_at = 20;
    thumbnails[1].created_at = 10;
    thumbnails[1].error_count = Some(3);
    assert!(has_runnable_thumbnail_work(&thumbnails, 100));
    let task = claim_thumbnail_task(&mut thumbnails, &files, &roots, &config, 100).unwrap();
    assert_eq!(task.id, 2);
    assert_eq!(task.thumb_key, "key-2");
    assert_eq!(task.file_id, 1);
    assert_eq!(task.relative_path, "2024/a.jpg");
    assert_eq!(task.root_path, "/libraries/photos");
    assert_eq!(task.media_type, "image");
    assert_eq!(task.format, "jpeg");
    assert_eq!(task.max_dimension, 128);
    assert_eq!(task.source_size_bytes, 100);
    assert_eq!(task.source_mtime_ns, 5);
    assert_eq!(task.output_relpath, "ab/key-2.jpg");
    assert_eq!(task.error_count, 3);
    assert_eq!(thumbnails[1].lease.status, QueueStatus::Running);
    assert_eq!(thumbnails[1].lease.worker_id, Some("w1".to_string()));
    assert_eq!(thumbnails[1].lease.lease_expires_at, Some(400));
    assert_eq!(thumbnails[1].started_at, Some(100));
}

#[test]
fn claim_respects_retry_time_and_concurrency_caps() {
    let config = worker_config("w1");
    let files = vec![file(1, 9, "a.jpg", 100, 5)];
    let roots = vec![root(9, "photos")];
    let mut thumbnails = vec![
        thumbnail(1, "g", QueueStatus::Pending),
        thumbnail(2, "g", QueueStatus::Pending),
        thumbnail(3, "g", QueueStatus::Pending),
        thumbnail(4, "g", QueueStatus::Pending),
        thumbnail(5, "g", QueueStatus::Pending),
    ];
    thumbnails[0].retry_after = Some(500);
    thumbnails[3].media_type = "video".to_string();
    thumbnails[4].media_type = "audio".to_string();
    assert_eq!(claim_thumbnail_task(&mut thumbnails, &files, &roots, &config, 100).unwrap().id, 2);
    assert_eq!(claim_thumbnail_task(&mut thumbnails, &files, &roots, &config, 100).unwrap().id, 3);
    assert_eq!(count_occupied_slots(&thumbnails, "image", 100), 2);
    assert_eq!(claim_thumbnail_task(&mut thumbnails, &files, &roots, &config, 100).unwrap().id, 4);
    assert_eq!(count_occupied_slots(&thumbnails, "video", 100), 1);
    assert!(claim_thumbnail_task(&mut thumbnails, &files, &roots, &config, 100).is_none());
    assert!(claim_thumbnail_task(&mut thumbnails, &files, &roots, &config, 399).is_none());
    assert_eq!(thumbnails[0].lease.status, QueueStatus::Pending);
    let after_expiry = claim_thumbnail_task(&mut thumbnails, &files, &roots, &config, 500).unwrap();
    assert_eq!(after_expiry.id, 1);
    assert_eq!(thumbnails[1].lease.status, QueueStatus::Pending);
    assert_eq!(thumbnails[1].lease.error_code, Some("LEASE_EXPIRED".to_string()));
    assert_eq!(
        thumbnails[1].lease.error_message,
        Some("Lease expired and requeued by rust worker claim path".to_string())
    );
    assert_eq!(thumbnails[4].lease.status, QueueStatus::Pending);
}

#[test]
fn a_task_without_file_or_root_stays_claimed_and_is_not_handed_out() {
    let config = worker_config("w1");
    let mut thumbnails = vec![thumbnail(1, "g", QueueStatus::Pending)];
    assert!(claim_thumbnail_task(&mut thumbnails, &vec![], &vec![], &config, 1).is_none());
    assert_eq!(thumbnails[0].lease.status, QueueStatus::Running);
    let mut orphans = vec![thumbnail(1, "g", QueueStatus::Pending)];
    let files = vec![file(1, 9, "a.jpg", 1, 1)];
    assert!(claim_thumbnail_task(&mut orphans, &files, &vec![root(8, "x")], &config, 1).is_none());
    assert_eq!(orphans[0].lease.status, QueueStatus::Running);
}

#[test]
fn success_makes_the_task_ready() {
    let config = worker_config("w1");
    let files = vec![file(1, 9, "a.jpg", 100, 5)];
    let roots = vec![root(9, "photos")];
    let mut thumbnails = vec![thumbnail(1, "g", QueueStatus::Pending)];
    thumbnails[0].error_count = Some(4);
    thumbnails[0].retry_after = Some(50);
    assert_eq!(
        finish_thumbnail_success(&mut thumbnails, &config, 1, 10, 20, 30, 5),
        Err(StoreError::FinishRejected)
    );
    claim_thumbnail_task(&mut thumbnails, &files, &roots, &config, 100).unwrap();
    assert_eq!(refresh_thumbnail_lease(&mut thumbnails, &config, 1, 150), Ok(()));
    assert_eq!(thumbnails[0].lease.lease_expires_at, Some(450));
    assert_eq!(
        refresh_thumbnail_lease(&mut thumbnails, &config, 2, 150),
        Err(StoreError::LeaseUpdateRejected)
    );
    assert_eq!(
        refresh_thumbnail_lease(&mut thumbnails, &config, 1, 450),
        Err(StoreError::LeaseUpdateRejected)
    );
    assert_eq!(finish_thumbnail_success(&mut thumbnails, &config, 1, 128, 96, 4321, 200), Ok(()));
    let row = &thumbnails[0];
    assert_eq!(row.lease.status, QueueStatus::Ready);
    assert_eq!((row.width, row.height, row.bytes_size), (Some(128), Some(96), Some(4321)));
    assert_eq!(row.error_count, Some(0));
    assert_eq!(row.retry_after, None);
    assert_eq!(row.lease.error_code, None);
    assert_eq!(row.finished_at, Some(200));
    assert_eq!(row.lease.lease_expires_at, None);
}

#[test]
fn failure_counts_the_error_and_puts_off_the_retry() {
    let config = worker_config("w1");
    let files = vec![file(1, 9, "a.jpg", 100, 5)];
    let roots = vec![root(9, "photos")];
    for (previous, delay, count) in [
        (0, 30, 1),
        (1, 60, 2),
        (2, 120, 3),
        (5, 960, 6),
        (6, 1800, 7),
        (40, 1800, 41),
        (-7, 1800, -6),
        (i64::MAX, 1800, i64::MAX),
    ] {
        let mut thumbnails = vec![thumbnail(1, "g", QueueStatus::Pending)];
        claim_thumbnail_task(&mut thumbnails, &files, &roots, &config, 1000).unwrap();
        assert_eq!(
            finish_thumbnail_failure(&mut thumbnails, &config, 1, previous, "CODE", "text", 2000),
            Ok(())
        );
        let row = &thumbnails[0];
        assert_eq!(row.lease.status, QueueStatus::Failed);
        assert_eq!(row.error_count, Some(count));
        assert_eq!(row.retry_after, Some(2000 + delay));
        assert_eq!(row.lease.error_code, Some("CODE".to_string()));
        assert_eq!(row.lease.error_message, Some("text".to_string()));
        assert_eq!(row.finished_at, Some(2000));
    }
    let mut untouched = vec![thumbnail(1, "g", QueueStatus::Pending)];
    assert_eq!(
        finish_thumbnail_failure(&mut untouched, &config, 1, 0, "CODE", "text", 1),
        Err(StoreError::FinishRejected)
    );
    assert_eq!(untouched[0].error_count, None);
}
