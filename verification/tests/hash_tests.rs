use rust_worker::config::{ConfigError, HashAlgorithm, WorkerConfig};
use rust_worker::db::{FileRow, JobKind, JobRecord, LibraryRootRow};
use rust_worker::hash::{
    candidate_path, claim_candidates, generate_claim_token, hash_job_settings, mark_failure,
    metadata_mtime_ns, metadata_to_row, next_batch_size, resolve_candidate_path, settle_probe,
    settle_read_failure, settle_recheck, CandidateOutcome, FileStat, HashCandidate, HashCounters,
    HashJobSettings, MetadataError, SourceProbe, SourceRecheck,
};
use rust_worker::path_safety::PathError;
use rust_worker::payload::parse_payload;

fn worker_config(worker_id: &str) -> WorkerConfig {
    WorkerConfig {
        libraries_root: "/libraries".to_string(),
        libraries_root_real: "/libraries".to_string(),
        database_path: "/state/dedupfs.sqlite3".to_string(),
        thumbs_root_real: "/state/thumbs".to_string(),
        concurrency: 4,
        io_rate_limit_mib_per_sec: None,
        hash_algorithm: HashAlgorithm::Blake3,
        scan_write_batch_size: 2000,
        hash_fetch_batch_size: 512,
        hash_read_chunk_bytes: 4 * 1024 * 1024,
        hash_claim_ttl_seconds: 600,
        hash_retry_base_seconds: 30,
        hash_retry_max_seconds: 3600,
        job_lock_ttl_seconds: 300,
        thumbnail_image_concurrency: 2,
        thumbnail_video_concurrency: 1,
        thumbnail_io_rate_limit_mib_per_sec: None,
        thumbnail_retry_base_seconds: 30,
        thumbnail_retry_max_seconds: 1800,
        thumbnail_ffmpeg_bin: "ffmpeg".to_string(),
        thumbnail_ffmpeg_timeout_seconds: 120,
        thumbnail_max_dimension: 256,
        rust_worker_poll_seconds: 5,
        rust_worker_max_poll_seconds: 30,
        rust_worker_poll_jitter_millis: 250,
        wal_checkpoint_retry_seconds: 120,
        worker_id: worker_id.to_string(),
    }
}

fn file(id: i64, library_id: i64, relative_path: &str, size_bytes: i64, mtime_ns: i64) -> FileRow {
    FileRow {
        id,
        library_id,
        relative_path: relative_path.to_string(),
        size_bytes,
        mtime_ns,
        inode: Some(id + 1000),
        device: Some(7),
        is_missing: false,
        needs_hash: true,
        last_seen_scan_id: None,
        hash_algorithm: None,
        content_hash: None,
        hashed_size_bytes: None,
        hashed_mtime_ns: None,
        hashed_at: None,
        hash_claim_token: None,
        hash_claimed_at: None,
        hash_error_count: None,
        hash_last_error: None,
        hash_last_error_at: None,
        hash_retry_after: None,
        updated_at: 0,
    }
}

fn root(id: i64, name: &str) -> LibraryRootRow {
    LibraryRootRow {
        id,
        name: name.to_string(),
        root_path: format!("/libraries/{}", name),
        last_scanned_at: None,
        updated_at: 0,
    }
}

fn stat(size_bytes: i64, mtime_ns: i64) -> FileStat {
    FileStat { size_bytes, mtime_ns, inode: Some(11), device: Some(7) }
}

fn candidate(id: i64, size: i64, mtime_ns: i64) -> HashCandidate {
    HashCandidate {
        id,
        relative_path: "a.bin".to_string(),
        expected_size: size,
        expected_mtime_ns: mtime_ns,
        hash_error_count: 0,
        root_path: "/libraries/photos".to_string(),
    }
}

const T: i64 = 1_700_000_000_000_000_000;

#[test]
fn hash_source_changed_requeue() {
    let config = worker_config("w1");
    let mut files = vec![file(1, 9, "a.bin", 100, T)];
    files[0].content_hash = Some(vec![1, 2, 3]);
    files[0].hash_algorithm = Some(HashAlgorithm::Sha256);
    files[0].hashed_size_bytes = Some(100);
    files[0].hashed_mtime_ns = Some(T);
    files[0].hash_claim_token = Some("token".to_string());
    files[0].hash_claimed_at = Some(5);
    let candidate = candidate(1, 100, T);

    let before = settle_probe(&mut files, &config, &candidate, &SourceProbe::Found(stat(100, T)), 10);
    assert_eq!(before, None);
    assert_eq!(files[0].content_hash, Some(vec![1, 2, 3]));

    let outcome = settle_recheck(
        &mut files,
        &config,
        &candidate,
        HashAlgorithm::Blake3,
        vec![9; 32],
        100,
        &SourceRecheck::Found(stat(120, T + 1)),
        11,
    );
    assert_eq!(outcome, CandidateOutcome::Requeued);
    let row = &files[0];
    assert!(row.needs_hash);
    assert_eq!(row.content_hash, None);
    assert_eq!(row.hash_algorithm, None);
    assert_eq!(row.hashed_size_bytes, None);
    assert_eq!(row.hashed_mtime_ns, None);
    assert_eq!(row.size_bytes, 120);
    assert_eq!(row.mtime_ns, T + 1);
    assert_eq!(row.inode, Some(11));
    assert_eq!(row.hash_claim_token, None);
    assert_eq!(row.hash_claimed_at, None);
    assert!(!row.is_missing);
}

#[test]
fn a_file_that_changed_before_the_read_is_requeued_without_a_digest() {
    let config = worker_config("w1");
    let mut files = vec![file(1, 9, "a.bin", 100, T)];
    let candidate = candidate(1, 100, T);
    let ended = settle_probe(&mut files, &config, &candidate, &SourceProbe::Found(stat(100, T + 5)), 10);
    assert_eq!(ended, Some(CandidateOutcome::Requeued));
    assert_eq!(files[0].mtime_ns, T + 5);
    assert!(files[0].needs_hash);
    assert_eq!(files[0].hash_error_count, Some(0));
    let other = settle_probe(&mut files, &config, &candidate, &SourceProbe::Found(stat(99, T)), 10);
    assert_eq!(other, Some(CandidateOutcome::Requeued));
    assert_eq!(files[0].size_bytes, 99);
}

#[test]
fn a_committed_digest_matches_the_row() {
    let config = worker_config("w1");
    let mut files = vec![file(1, 9, "a.bin", 100, T), file(2, 9, "b.bin", 100, T)];
    files[0].hash_error_count = Some(3);
    files[0].hash_last_error = Some("old".to_string());
    files[0].hash_retry_after = Some(1);
    files[0].hash_claim_token = Some("token".to_string());
    let candidate = candidate(1, 100, T);
    let outcome = settle_recheck(
        &mut files,
        &config,
        &candidate,
        HashAlgorithm::Sha256,
        vec![7; 32],
        100,
        &SourceRecheck::Found(stat(100, T)),
        42,
    );
    assert_eq!(outcome, CandidateOutcome::Hashed(100));
    let row = &files[0];
    assert!(!row.needs_hash);
    assert_eq!(row.hash_algorithm, Some(HashAlgorithm::Sha256));
    assert_eq!(row.content_hash, Some(vec![7; 32]));
    assert_eq!(row.hashed_size_bytes, Some(row.size_bytes));
    assert_eq!(row.hashed_mtime_ns, Some(row.mtime_ns));
    assert_eq!(row.hashed_at, Some(42));
    assert_eq!(row.hash_error_count, Some(0));
    assert_eq!(row.hash_last_error, None);
    assert_eq!(row.hash_retry_after, None);
    assert_eq!(row.hash_claim_token, None);
    assert_eq!(files[1].content_hash, None);
    assert!(files[1].needs_hash);
}

#[test]
fn a_missing_file_is_marked_missing() {
    let config = worker_config("w1");
    let mut files = vec![file(1, 9, "a.bin", 100, T)];
    files[0].hash_claim_token = Some("token".to_string());
    files[0].hash_retry_after = Some(3);
    let ended = settle_probe(&mut files, &config, &candidate(1, 100, T), &SourceProbe::Missing, 10);
    assert_eq!(ended, Some(CandidateOutcome::Missing));
    assert!(files[0].is_missing);
    assert!(!files[0].needs_hash);
    assert_eq!(files[0].hash_claim_token, None);
    assert_eq!(files[0].hash_retry_after, None);
    assert_eq!(files[0].updated_at, 10);
}

#[test]
fn read_failures_back_off() {
    let config = worker_config("w1");
    for (previous, delay, count) in [(0, 30, 1), (1, 60, 2), (3, 240, 4), (7, 3600, 8), (99, 3600, 100)] {
        let mut files = vec![file(1, 9, "a.bin", 100, T)];
        files[0].hash_claim_token = Some("token".to_string());
        let mut candidate = candidate(1, 100, T);
        candidate.hash_error_count = previous;
        let ended = settle_probe(
            &mut files,
            &config,
            &candidate,
            &SourceProbe::Unreadable("permission denied".to_string()),
            1000,
        );
        assert_eq!(ended, Some(CandidateOutcome::Failed));
        let row = &files[0];
        assert!(row.needs_hash);
        assert_eq!(row.hash_error_count, Some(count));
        assert_eq!(row.hash_last_error, Some("permission denied".to_string()));
        assert_eq!(row.hash_last_error_at, Some(1000));
        assert_eq!(row.hash_retry_after, Some(1000 + delay));
        assert_eq!(row.hash_claim_token, None);
    }
    let mut files = vec![file(1, 9, "a.bin", 100, T)];
    assert_eq!(
        settle_read_failure(&mut files, &config, &candidate(1, 100, T), "short read", 5),
        CandidateOutcome::Failed
    );
    assert_eq!(files[0].hash_last_error, Some("short read".to_string()));
    assert_eq!(
        settle_recheck(
            &mut files,
            &config,
            &candidate(1, 100, T),
            HashAlgorithm::Blake3,
            vec![1; 32],
            100,
            &SourceRecheck::Unreadable("gone".to_string()),
            6
        ),
        CandidateOutcome::Failed
    );
    assert_eq!(files[0].content_hash, None);
    let mut untouched = vec![file(2, 9, "b.bin", 1, 1)];
    mark_failure(&mut untouched, &config, &candidate(1, 100, T), "x", 1);
    assert_eq!(untouched[0].hash_error_count, None);
}

#[test]
fn a_batch_reserves_the_first_hashable_files() {
    let config = worker_config("w1");
    let roots = vec![root(9, "photos")];
    let mut files = vec![
        file(1, 9, "a", 1, 1),
        file(2, 9, "b", 2, 2),
        file(3, 9, "c", 3, 3),
        file(4, 9, "d", 4, 4),
        file(5, 9, "e", 5, 5),
        file(6, 8, "f", 6, 6),
        file(7, 9, "g", 7, 7),
    ];
    files[0].needs_hash = false;
    files[1].is_missing = true;
    files[2].hash_retry_after = Some(2000);
    files[3].hash_claim_token = Some("theirs".to_string());
    files[3].hash_claimed_at = Some(500);
    files[4].hash_error_count = Some(2);
    let candidates = claim_candidates(&mut files, &roots, &config, 2, "mine", 1000);
    let ids: Vec<i64> = candidates.iter().map(|c| c.id).collect();
    assert_eq!(ids, vec![5]);
    assert_eq!(candidates[0].relative_path, "e");
    assert_eq!(candidates[0].expected_size, 5);
    assert_eq!(candidates[0].expected_mtime_ns, 5);
    assert_eq!(candidates[0].hash_error_count, 2);
    assert_eq!(candidates[0].root_path, "/libraries/photos");
    assert_eq!(files[4].hash_claim_token, Some("mine".to_string()));
    assert_eq!(files[4].hash_claimed_at, Some(1000));
    assert_eq!(files[5].hash_claim_token, Some("mine".to_string()));
    assert_eq!(files[6].hash_claim_token, None);
    assert_eq!(files[3].hash_claim_token, Some("theirs".to_string()));

    let later = claim_candidates(&mut files, &roots, &config, 10, "next", 1100);
    let later_ids: Vec<i64> = later.iter().map(|c| c.id).collect();
    assert_eq!(later_ids, vec![4, 7]);
    assert_eq!(files[3].hash_claim_token, Some("next".to_string()));
    assert_eq!(files[4].hash_claim_token, Some("mine".to_string()));
    assert!(claim_candidates(&mut files, &roots, &config, 10, "none", 1100).is_empty());
    assert!(claim_candidates(&mut files, &roots, &config, 0, "none", 5000).is_empty());
    let stale = claim_candidates(&mut files, &roots, &config, 10, "again", 1600);
    assert_eq!(stale.iter().map(|c| c.id).collect::<Vec<i64>>(), vec![5]);
}

#[test]
fn claim_tokens_are_32_letters_and_digits() {
    let token = generate_claim_token();
    assert_eq!(token.chars().count(), 32);
    assert!(token.chars().all(|c| c.is_ascii_alphanumeric()));
    assert_ne!(token, generate_claim_token());
}

#[test]
fn metadata_is_put_in_store_form() {
    assert_eq!(
        metadata_to_row(100, 12, 345, 9, 8),
        Ok(FileStat { size_bytes: 100, mtime_ns: 12_000_000_345, inode: Some(9), device: Some(8) })
    );
    assert_eq!(metadata_to_row(u64::MAX, 0, 0, 0, 0), Err(MetadataError::SizeOutOfRange));
    assert_eq!(metadata_to_row(1 << 63, 0, 0, 1 << 63, 0), Err(MetadataError::SizeOutOfRange));
    assert_eq!(metadata_to_row(0, 0, 0, 1 << 63, 1 << 63), Err(MetadataError::InodeOutOfRange));
    assert_eq!(metadata_to_row(0, 0, 0, 0, u64::MAX), Err(MetadataError::DeviceOutOfRange));
    assert_eq!(metadata_mtime_ns(1, 1), 1_000_000_001);
    assert_eq!(metadata_mtime_ns(-1, 999_999_999), -1);
    assert_eq!(metadata_mtime_ns(i64::MAX, 5), i64::MAX);
    assert_eq!(metadata_mtime_ns(i64::MIN, -5), i64::MIN);
    assert_eq!(metadata_mtime_ns(i64::MAX / 1_000_000_000, 999_999_999), i64::MAX);
}

#[test]
fn candidate_paths_stay_under_the_library_root() {
    let config = worker_config("w1");
    assert_eq!(
        candidate_path(&config, "/libraries/photos", "2024/./a.jpg"),
        Ok("/libraries/photos/2024/a.jpg".to_string())
    );
    assert_eq!(
        candidate_path(&config, "/elsewhere/photos", "a.jpg"),
        Err(PathError::EscapesRoot)
    );
    assert_eq!(
        candidate_path(&config, "/libraries/photos", "../a.jpg"),
        Err(PathError::ParentTraversal)
    );
    assert_eq!(
        resolve_candidate_path(&config, "/libraries/photos", "a.jpg", None),
        Ok("/libraries/photos/a.jpg".to_string())
    );
    assert_eq!(
        resolve_candidate_path(&config, "/libraries/photos", "a.jpg", Some("/libraries/photos/real/a.jpg")),
        Ok("/libraries/photos/real/a.jpg".to_string())
    );
    assert_eq!(
        resolve_candidate_path(&config, "/libraries/photos", "a.jpg", Some("/libraries/other/a.jpg")),
        Err(PathError::EscapesRoot)
    );
    assert_eq!(
        resolve_candidate_path(&config, "/libraries/photos", "~/a.jpg", Some("/libraries/photos/a.jpg")),
        Err(PathError::HomeExpansion)
    );
}

fn job_with(payload: &str) -> JobRecord {
    JobRecord { id: "j".to_string(), kind: JobKind::Hash, payload: parse_payload(payload) }
}

#[test]
fn hash_job_settings_come_from_payload_or_configuration() {
    let config = worker_config("w1");
    assert_eq!(
        hash_job_settings(&job_with("{}"), &config),
        Ok(HashJobSettings { max_files: None, fetch_batch_size: 512, algorithm: HashAlgorithm::Blake3 })
    );
    assert_eq!(
        hash_job_settings(
            &job_with("{\"max_files\": 7, \"fetch_batch_size\": 0, \"algorithm\": \" SHA256 \"}"),
            &config
        ),
        Ok(HashJobSettings { max_files: Some(7), fetch_batch_size: 1, algorithm: HashAlgorithm::Sha256 })
    );
    assert_eq!(
        hash_job_settings(&job_with("{\"max_files\": -1, \"fetch_batch_size\": 64, \"algorithm\": 5}"), &config),
        Ok(HashJobSettings { max_files: None, fetch_batch_size: 64, algorithm: HashAlgorithm::Blake3 })
    );
    assert_eq!(
        hash_job_settings(&job_with("{\"algorithm\": \"md5\"}"), &config),
        Err(ConfigError::UnsupportedHashAlgorithm)
    );
}

#[test]
fn batches_stop_at_the_upper_bound() {
    let limited = HashJobSettings { max_files: Some(10), fetch_batch_size: 4, algorithm: HashAlgorithm::Blake3 };
    assert_eq!(next_batch_size(&limited, 0), 4);
    assert_eq!(next_batch_size(&limited, 6), 4);
    assert_eq!(next_batch_size(&limited, 7), 3);
    assert_eq!(next_batch_size(&limited, 9), 1);
    assert_eq!(next_batch_size(&limited, 10), 0);
    assert_eq!(next_batch_size(&limited, 11), 0);
    let open = HashJobSettings { max_files: None, fetch_batch_size: 4, algorithm: HashAlgorithm::Blake3 };
    assert_eq!(next_batch_size(&open, 1_000_000), 4);
    let none = HashJobSettings { max_files: Some(0), fetch_batch_size: 4, algorithm: HashAlgorithm::Blake3 };
    assert_eq!(next_batch_size(&none, 0), 0);
    let huge = HashJobSettings { max_files: Some(u64::MAX), fetch_batch_size: 4, algorithm: HashAlgorithm::Blake3 };
    assert_eq!(next_batch_size(&huge, i64::MAX), 4);
}

#[test]
fn counters_tally_outcomes() {
    let mut counters = HashCounters::new();
    assert!(counters.lease_refresh_is_due());
    counters.record(CandidateOutcome::Hashed(10));
    counters.record(CandidateOutcome::Hashed(5));
    counters.record(CandidateOutcome::Requeued);
    counters.record(CandidateOutcome::Missing);
    counters.record(CandidateOutcome::Failed);
    assert_eq!(
        counters,
        HashCounters {
            processed_files: 5,
            hashed_files: 2,
            requeued_files: 1,
            missing_files: 1,
            failed_files: 1,
            bytes_hashed: 15,
        }
    );
    assert!(!counters.lease_refresh_is_due());
    counters.processed_files = 64;
    assert!(counters.lease_refresh_is_due());
    counters.record(CandidateOutcome::Hashed(u64::MAX));
    assert_eq!(counters.bytes_hashed, i64::MAX);
}
