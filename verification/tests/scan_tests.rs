use rust_worker::config::{HashAlgorithm, WorkerConfig};
use rust_worker::db::{FileRow, JobKind, JobRecord, LibraryRootRow};
use rust_worker::hash::MetadataError;
use rust_worker::path_safety::PathError;
use rust_worker::payload::parse_payload;
use rust_worker::scan::{
    add_tallies, conclude_scan, create_scan_session, discover_library_names, format_error_message,
    library_root_path, mark_missing_files, prepare_target_names, push_error_sample,
    register_library_root, scan_batch_size, strip_base, upsert_file, upsert_file_batch, EntryAction,
    EntryKind, EntryObservation, LibraryTarget, RootEntry, ScanCounters, ScanError, ScanSessionRow,
    ScanSessionStatus, ScanWalk, ScannedFile,
};

fn worker_config(worker_id: &str) -> WorkerConfig {
    WorkerConfig {
        libraries_root: "/libraries".to_string(),
        libraries_root_real: "/libraries".to_string(),
        database_path: "/state/dedupfs.sqlite3".to_string(),
        thumbs_root_real: "/state/thumbs".to_string(),
        concurrency: 4,
        io_rate_limit_mib_per_sec: None,
        hash_algorithm: HashAlgorithm::Blake3,
        scan_write_batch_size: 2000,
        hash_fetch_batch_size: 512,
        hash_read_chunk_bytes: 4 * 1024 * 1024,
        hash_claim_ttl_seconds: 600,
        hash_retry_base_seconds: 30,
        hash_retry_max_seconds: 3600,
        job_lock_ttl_seconds: 300,
        thumbnail_image_concurrency: 2,
        thumbnail_video_concurrency: 1,
        thumbnail_io_rate_limit_mib_per_sec: None,
        thumbnail_retry_base_seconds: 30,
        thumbnail_retry_max_seconds: 1800,
        thumbnail_ffmpeg_bin: "ffmpeg".to_string(),
        thumbnail_ffmpeg_timeout_seconds: 120,
        thumbnail_max_dimension: 256,
        rust_worker_poll_seconds: 5,
        rust_worker_max_poll_seconds: 30,
        rust_worker_poll_jitter_millis: 250,
        wal_checkpoint_retry_seconds: 120,
        worker_id: worker_id.to_string(),
    }
}

fn file(id: i64, library_id: i64, relative_path: &str, size_bytes: i64, mtime_ns: i64) -> FileRow {
    FileRow {
        id,
        library_id,
        relative_path: relative_path.to_string(),
        size_bytes,
        mtime_ns,
        inode: Some(id + 1000),
        device: Some(7),
        is_missing: false,
        needs_hash: true,
        last_seen_scan_id: None,
        hash_algorithm: None,
        content_hash: None,
        hashed_size_bytes: None,
        hashed_mtime_ns: None,
        hashed_at: None,
        hash_claim_token: None,
        hash_claimed_at: None,
        hash_error_count: None,
        hash_last_error: None,
        hash_last_error_at: None,
        hash_retry_after: None,
        updated_at: 0,
    }
}

fn root(id: i64, name: &str) -> LibraryRootRow {
    LibraryRootRow {
        id,
        name: name.to_string(),
        root_path: format!("/libraries/{}", name),
        last_scanned_at: None,
        updated_at: 0,
    }
}

fn seen(library_id: i64, path: &str, size: i64, mtime: i64, scan_id: i64) -> ScannedFile {
    ScannedFile {
        library_id,
        relative_path: path.to_string(),
        size_bytes: size,
        mtime_ns: mtime,
        inode: Some(1),
        device: Some(7),
        scan_id,
    }
}

fn target(id: i64, root: &str) -> LibraryTarget {
    LibraryTarget { id, root_path_real: root.to_string() }
}

fn found(path: &str, kind: EntryKind, size: u64) -> EntryObservation {
    EntryObservation::Resolved {
        resolved: path.to_string(),
        kind,
        size,
        mtime_seconds: 3,
        mtime_nanos: 4,
        inode: 5,
        device: 6,
    }
}

#[test]
fn error_samples_are_kept_up_to_twenty() {
    let mut samples: Vec<String> = Vec::new();
    for i in 0..25 {
        push_error_sample(&mut samples, &format!("/libraries/p/{}", i), "denied");
    }
    assert_eq!(samples.len(), 20);
    assert_eq!(samples[0], "/libraries/p/0: denied");
    assert_eq!(samples[19], "/libraries/p/19: denied");
}

#[test]
fn error_message_lists_count_and_samples() {
    assert_eq!(format_error_message(3, &vec![]), "Scan encountered 3 filesystem access errors");
    assert_eq!(
        format_error_message(2, &vec!["a: x".to_string(), "b: y".to_string()]),
        "Scan encountered 2 filesystem access errors: a: x | b: y"
    );
    assert_eq!(
        format_error_message(-1, &vec!["a: x".to_string()]),
        "Scan encountered -1 filesystem access errors: a: x"
    );
}

#[test]
fn counters_absorb_a_library() {
    let mut total = ScanCounters::new();
    total.files_seen = 10;
    total.missing_marked = 4;
    total.error_samples = (0..19).map(|i| format!("s{}", i)).collect();
    let mut library = ScanCounters::new();
    library.files_seen = 5;
    library.directories_seen = 2;
    library.bytes_seen = 700;
    library.batch_writes = 1;
    library.missing_marked = 9;
    library.record_error("/p", "e1");
    library.record_error("/q", "e2");
    assert_eq!(library.error_count, 2);
    total.absorb(&library);
    assert_eq!(total.files_seen, 15);
    assert_eq!(total.directories_seen, 2);
    assert_eq!(total.bytes_seen, 700);
    assert_eq!(total.batch_writes, 1);
    assert_eq!(total.missing_marked, 4);
    assert_eq!(total.error_count, 2);
    assert_eq!(total.error_samples.len(), 20);
    assert_eq!(total.error_samples[19], "/p: e1");
    assert_eq!(add_tallies(i64::MAX, 1), i64::MAX);
    assert_eq!(add_tallies(i64::MIN, -1), i64::MIN);
    assert_eq!(add_tallies(2, 3), 5);
}

#[test]
fn library_names_are_found_among_directories() {
    let entries = vec![
        RootEntry { name: "photos".to_string(), is_dir: true, is_symlink: false },
        RootEntry { name: "link".to_string(), is_dir: true, is_symlink: true },
        RootEntry { name: "file.txt".to_string(), is_dir: false, is_symlink: false },
        RootEntry { name: "videos".to_string(), is_dir: true, is_symlink: false },
    ];
    assert_eq!(discover_library_names(&entries), vec!["photos".to_string(), "videos".to_string()]);
    assert_eq!(discover_library_names(&vec![]), Vec::<String>::new());
}

#[test]
fn target_names_are_normalized_deduplicated_and_sorted() {
    let names = vec![
        " videos ".to_string(),
        "photos".to_string(),
        "videos".to_string(),
        "Zebra".to_string(),
        "photos ".to_string(),
        "ähnlich".to_string(),
    ];
    assert_eq!(
        prepare_target_names(&names),
        Ok(vec![
            "Zebra".to_string(),
            "photos".to_string(),
            "videos".to_string(),
            "ähnlich".to_string()
        ])
    );
    assert_eq!(prepare_target_names(&vec![]), Ok(vec![]));
    assert_eq!(
        prepare_target_names(&vec!["ok".to_string(), "a/b".to_string(), "".to_string()]),
        Err(PathError::NestedLibraryName)
    );
    assert_eq!(
        prepare_target_names(&vec!["  ".to_string(), "a/b".to_string()]),
        Err(PathError::EmptyLibraryName)
    );
}

#[test]
fn library_roots_are_registered_once() {
    let config = worker_config("w1");
    assert_eq!(library_root_path(&config, "photos"), "/libraries/photos");
    let mut roots = vec![root(4, "videos")];
    let added = register_library_root(&mut roots, &config, "photos", "/libraries/photos", true, 10).unwrap();
    assert_eq!(added.id, 5);
    assert_eq!(added.root_path_real, "/libraries/photos");
    assert_eq!(roots.len(), 2);
    assert_eq!(roots[1].name, "photos");
    assert_eq!(roots[1].root_path, "/libraries/photos");
    assert_eq!(roots[1].last_scanned_at, None);
    let known = register_library_root(&mut roots, &config, "videos", "/libraries/real-videos", true, 11).unwrap();
    assert_eq!(known.id, 4);
    assert_eq!(roots.len(), 2);
    assert_eq!(roots[0].root_path, "/libraries/real-videos");
    assert_eq!(roots[0].updated_at, 11);
    assert!(matches!(
        register_library_root(&mut roots, &config, "x", "/mnt/x", true, 12),
        Err(ScanError::Path(PathError::EscapesRoot))
    ));
    assert!(matches!(
        register_library_root(&mut roots, &config, "x", "/libraries/x", false, 12),
        Err(ScanError::RootNotDirectory)
    ));
    assert_eq!(roots.len(), 2);
    let mut none: Vec<LibraryRootRow> = Vec::new();
    assert_eq!(register_library_root(&mut none, &config, "a", "/libraries/a", true, 1).unwrap().id, 1);
}

#[test]
fn a_new_file_needs_a_hash() {
    let mut files: Vec<FileRow> = Vec::new();
    upsert_file(&mut files, &seen(9, "a.jpg", 100, 5, 1), 50);
    assert_eq!(files.len(), 1);
    let row = &files[0];
    assert_eq!(row.id, 1);
    assert_eq!((row.library_id, row.relative_path.as_str()), (9, "a.jpg"));
    assert_eq!((row.size_bytes, row.mtime_ns), (100, 5));
    assert!(row.needs_hash);
    assert!(!row.is_missing);
    assert_eq!(row.last_seen_scan_id, Some(1));
    assert_eq!(row.content_hash, None);
    upsert_file(&mut files, &seen(8, "a.jpg", 100, 5, 1), 50);
    assert_eq!(files.len(), 2);
    assert_eq!(files[1].id, 2);
}

#[test]
fn scan_idempotence() {
    let mut files = vec![file(1, 9, "a.jpg", 100, 5), file(2, 9, "b.jpg", 7, 8)];
    files[0].inode = Some(1);
    files[0].needs_hash = false;
    files[0].hash_algorithm = Some(HashAlgorithm::Blake3);
    files[0].content_hash = Some(vec![1; 32]);
    files[0].hashed_size_bytes = Some(100);
    files[0].hashed_mtime_ns = Some(5);
    files[1].inode = Some(1);
    let tree = vec![seen(9, "a.jpg", 100, 5, 1), seen(9, "b.jpg", 7, 8, 1), seen(9, "c.jpg", 1, 1, 1)];
    upsert_file_batch(&mut files, &tree, 50);
    let after_first: Vec<(Option<Vec<u8>>, bool)> =
        files.iter().map(|row| (row.content_hash.clone(), row.needs_hash)).collect();
    assert_eq!(
        after_first,
        vec![(Some(vec![1; 32]), false), (None, true), (None, true)]
    );
    let again: Vec<ScannedFile> = tree
        .iter()
        .map(|file| ScannedFile { scan_id: 2, ..file.clone() })
        .collect();
    upsert_file_batch(&mut files, &again, 60);
    let after_second: Vec<(Option<Vec<u8>>, bool)> =
        files.iter().map(|row| (row.content_hash.clone(), row.needs_hash)).collect();
    assert_eq!(after_first, after_second);
    assert_eq!(files.len(), 3);
    assert!(files.iter().all(|row| row.last_seen_scan_id == Some(2)));
    assert_eq!(files[0].hashed_size_bytes, Some(100));
}

#[test]
fn a_changed_file_loses_its_digest() {
    for change in 0..5 {
        let mut files = vec![file(1, 9, "a.jpg", 100, 5)];
        files[0].inode = Some(1);
        files[0].needs_hash = false;
        files[0].content_hash = Some(vec![1; 32]);
        files[0].hash_algorithm = Some(HashAlgorithm::Sha256);
        files[0].hashed_size_bytes = Some(100);
        files[0].hash_error_count = Some(2);
        files[0].hash_claim_token = Some("t".to_string());
        let mut observed = seen(9, "a.jpg", 100, 5, 3);
        match change {
            0 => observed.size_bytes = 101,
            1 => observed.mtime_ns = 6,
            2 => observed.inode = None,
            3 => observed.device = Some(8),
            _ => files[0].is_missing = true,
        }
        upsert_file(&mut files, &observed, 70);
        let row = &files[0];
        assert!(row.needs_hash);
        assert!(!row.is_missing);
        assert_eq!(row.content_hash, None);
        assert_eq!(row.hash_algorithm, None);
        assert_eq!(row.hashed_size_bytes, None);
        assert_eq!(row.hash_error_count, Some(0));
        assert_eq!(row.hash_claim_token, None);
        assert_eq!(row.size_bytes, observed.size_bytes);
        assert_eq!(row.inode, observed.inode);
    }
}

#[test]
fn files_that_were_not_seen_are_marked_missing() {
    let mut files = vec![
        file(1, 9, "seen", 1, 1),
        file(2, 9, "unseen", 1, 1),
        file(3, 9, "never", 1, 1),
        file(4, 8, "other-library", 1, 1),
        file(5, 9, "already", 1, 1),
    ];
    files[0].last_seen_scan_id = Some(7);
    files[1].last_seen_scan_id = Some(6);
    files[1].hash_claim_token = Some("t".to_string());
    files[4].is_missing = true;
    assert_eq!(mark_missing_files(&mut files, 9, 7, 99), 2);
    let missing: Vec<bool> = files.iter().map(|row| row.is_missing).collect();
    assert_eq!(missing, vec![false, true, true, false, true]);
    assert!(!files[1].needs_hash);
    assert_eq!(files[1].hash_claim_token, None);
    assert_eq!(files[1].updated_at, 99);
    assert_eq!(files[4].updated_at, 0);
    assert_eq!(mark_missing_files(&mut files, 9, 7, 100), 0);
}

#[test]
fn scan_missing_mark_suppression_on_error() {
    let root_target = target(9, "/libraries/photos");
    let mut sessions: Vec<ScanSessionRow> = Vec::new();
    let mut roots = vec![root(9, "photos")];
    let mut files = vec![file(1, 9, "a", 10, 1), file(2, 9, "b", 20, 2)];
    files[0].inode = Some(5);
    files[0].device = Some(6);
    let session = create_scan_session(&mut sessions, 100);
    assert_eq!(session, 1);
    assert_eq!(sessions[0].status, ScanSessionStatus::Running);

    let mut walk = ScanWalk::begin(&root_target);
    assert_eq!(walk.enter_next_directory(), Some("/libraries/photos".to_string()));
    let first = walk.visit(&root_target, session, 100, &found("/libraries/photos/a", EntryKind::File, 10));
    assert_eq!(first.unwrap(), EntryAction { refresh_lease: false, flush_batch: false });
    let second = walk.visit(
        &root_target,
        session,
        100,
        &EntryObservation::StatFailed {
            path: "/libraries/photos/b".to_string(),
            message: "Permission denied (os error 13)".to_string(),
        },
    );
    assert!(second.is_ok());
    assert_eq!(walk.enter_next_directory(), None);
    let batch = walk.take_batch();
    assert_eq!(batch.len(), 1);
    upsert_file_batch(&mut files, &batch, 101);
    let mut counters = ScanCounters::new();
    counters.absorb(&walk.counters);
    assert!(counters.error_count >= 1);
    assert_eq!(counters.files_seen, 1);
    assert_eq!(counters.batch_writes, 1);

    let result = conclude_scan(&mut sessions, &mut roots, &mut files, &vec![root_target], &counters, session, 102);
    let expected = "Scan encountered 1 filesystem access errors: /libraries/photos/b: Permission denied (os error 13)";
    match result {
        Err(ScanError::AccessErrors(message)) => assert_eq!(message, expected),
        _ => panic!("the scan has to fail"),
    }
    assert_eq!(sessions[0].status, ScanSessionStatus::Failed);
    assert_eq!(sessions[0].error_count, 1);
    assert_eq!(sessions[0].error_message, Some(expected.to_string()));
    assert_eq!(sessions[0].files_seen, 1);
    assert_eq!(sessions[0].finished_at, Some(102));
    assert!(!files[0].is_missing);
    assert_eq!(files[0].last_seen_scan_id, Some(1));
    assert!(!files[1].is_missing);
    assert_eq!(files[1].last_seen_scan_id, None);
    assert_eq!(roots[0].last_scanned_at, None);
}

#[test]
fn a_scan_without_errors_marks_missing_and_notes_the_scan() {
    let targets = vec![target(9, "/libraries/photos")];
    let mut sessions: Vec<ScanSessionRow> = Vec::new();
    let mut roots = vec![root(9, "photos"), root(8, "videos")];
    let mut files = vec![file(1, 9, "a", 10, 1), file(2, 9, "b", 20, 2), file(3, 8, "v", 1, 1)];
    let session = create_scan_session(&mut sessions, 100);
    upsert_file(&mut files, &seen(9, "a", 10, 1, session), 101);
    let mut counters = ScanCounters::new();
    counters.files_seen = 1;
    counters.directories_seen = 1;
    counters.bytes_seen = 10;
    assert!(conclude_scan(&mut sessions, &mut roots, &mut files, &targets, &counters, session, 102).is_ok());
    assert_eq!(sessions[0].status, ScanSessionStatus::Succeeded);
    assert_eq!(sessions[0].error_message, None);
    assert_eq!((sessions[0].files_seen, sessions[0].directories_seen, sessions[0].bytes_seen), (1, 1, 10));
    assert!(!files[0].is_missing);
    assert!(files[1].is_missing);
    assert!(!files[2].is_missing);
    assert_eq!(roots[0].last_scanned_at, Some(102));
    assert_eq!(roots[1].last_scanned_at, None);
    assert_eq!(create_scan_session(&mut sessions, 200), 2);
}

#[test]
fn the_walk_sorts_entries_into_files_directories_and_errors() {
    let library = target(9, "/libraries/photos");
    let mut walk = ScanWalk::begin(&library);
    assert_eq!(walk.enter_next_directory(), Some("/libraries/photos".to_string()));
    assert_eq!(
        walk.visit(&library, 3, 2, &EntryObservation::Symlink).unwrap(),
        EntryAction { refresh_lease: false, flush_batch: false }
    );
    assert!(walk.visit(&library, 3, 2, &found("/libraries/elsewhere/x", EntryKind::File, 1)).is_ok());
    assert!(walk.visit(&library, 3, 2, &found("/libraries/photos/socket", EntryKind::Other, 1)).is_ok());
    assert!(walk.visit(&library, 3, 2, &found("/libraries/photos/2024", EntryKind::Directory, 0)).is_ok());
    assert!(walk.batch.is_empty());
    assert_eq!(walk.pending, vec!["/libraries/photos/2024".to_string()]);
    let action = walk.visit(&library, 3, 2, &found("/libraries/photos/a.jpg", EntryKind::File, 40)).unwrap();
    assert_eq!(action, EntryAction { refresh_lease: false, flush_batch: false });
    let full = walk.visit(&library, 3, 2, &found("/libraries/photos/2024/b.jpg", EntryKind::File, 2)).unwrap();
    assert_eq!(full, EntryAction { refresh_lease: false, flush_batch: true });
    assert_eq!(walk.counters.files_seen, 2);
    assert_eq!(walk.counters.bytes_seen, 42);
    assert_eq!(walk.counters.directories_seen, 1);
    let batch = walk.take_batch();
    assert_eq!(batch.len(), 2);
    assert_eq!(batch[1].relative_path, "2024/b.jpg");
    assert_eq!(batch[1].library_id, 9);
    assert_eq!(batch[1].scan_id, 3);
    assert_eq!(batch[1].size_bytes, 2);
    assert_eq!(batch[1].mtime_ns, 3_000_000_004);
    assert_eq!((batch[1].inode, batch[1].device), (Some(5), Some(6)));
    assert_eq!(walk.counters.batch_writes, 1);
    assert!(walk.take_batch().is_empty());
    assert_eq!(walk.counters.batch_writes, 1);
    walk.directory_unreadable("/libraries/photos/2024", "denied");
    let listing = EntryObservation::ListingFailed {
        directory: "/libraries/photos".to_string(),
        message: "io".to_string(),
    };
    assert!(walk.visit(&library, 3, 2, &listing).is_ok());
    let unresolved = EntryObservation::ResolveFailed {
        path: "/libraries/photos/z".to_string(),
        message: "loop".to_string(),
    };
    assert!(walk.visit(&library, 3, 2, &unresolved).is_ok());
    assert_eq!(walk.counters.error_count, 3);
    assert_eq!(
        walk.counters.error_samples,
        vec![
            "/libraries/photos/2024: denied".to_string(),
            "/libraries/photos: io".to_string(),
            "/libraries/photos/z: loop".to_string()
        ]
    );
    assert!(matches!(
        walk.visit(&library, 3, 2, &found("/libraries/photos", EntryKind::File, 1)),
        Err(ScanError::Path(PathError::EmptyPath))
    ));
    assert!(matches!(
        walk.visit(&library, 3, 2, &found("/libraries/photos/huge", EntryKind::File, u64::MAX)),
        Err(ScanError::Metadata(MetadataError::SizeOutOfRange))
    ));
    assert_eq!(walk.enter_next_directory(), Some("/libraries/photos/2024".to_string()));
    assert_eq!(walk.counters.directories_seen, 2);
    assert_eq!(walk.enter_next_directory(), None);
}

#[test]
fn the_lease_is_renewed_every_256_files() {
    let library = target(9, "/libraries/photos");
    let mut walk = ScanWalk::begin(&library);
    let mut renewals = Vec::new();
    for i in 1..=600 {
        let path = format!("/libraries/photos/f{}", i);
        let action = walk.visit(&library, 1, 1000, &found(&path, EntryKind::File, 1)).unwrap();
        if action.refresh_lease {
            renewals.push(i);
        }
    }
    assert_eq!(renewals, vec![256, 512]);
}

#[test]
fn session_statuses_have_stored_names() {
    for status in [ScanSessionStatus::Running, ScanSessionStatus::Succeeded, ScanSessionStatus::Failed] {
        assert_eq!(ScanSessionStatus::parse(status.as_db_value()), Some(status));
    }
    assert_eq!(ScanSessionStatus::Succeeded.as_db_value(), "succeeded");
    assert_eq!(ScanSessionStatus::parse("done"), None);
}

#[test]
fn paths_are_named_from_their_base() {
    assert_eq!(strip_base("/libraries/photos/a/b.jpg", "/libraries/photos"), "a/b.jpg");
    assert_eq!(strip_base("/libraries/photos", "/libraries/photos"), "");
    assert_eq!(strip_base("/libraries/photos//x/", "/libraries"), "photos/x");
}

#[test]
fn scan_batch_size_comes_from_payload_or_configuration() {
    let config = worker_config("w1");
    let job = |payload: &str| JobRecord {
        id: "j".to_string(),
        kind: JobKind::Scan,
        payload: parse_payload(payload),
    };
    assert_eq!(scan_batch_size(&job("{}"), &config), 2000);
    assert_eq!(scan_batch_size(&job("{\"batch_size\": 0}"), &config), 1);
    assert_eq!(scan_batch_size(&job("{\"batch_size\": 17}"), &config), 17);
    assert_eq!(scan_batch_size(&job("{\"batch_size\": \"17\"}"), &config), 2000);
}
