use rust_worker::config::{
    all_settings, apply_environment, generate_worker_id, parse_number, parse_size, plan_roots,
    resolve_number, resolve_size, setting_variable, strip_database_scheme, ConfigError,
    HashAlgorithm, PartialWorkerConfig, RootFacts, Setting, SettingValue, WorkerConfig,
};

fn facts() -> RootFacts {
    RootFacts {
        libraries_root_real: Some("/mnt/libraries".to_string()),
        libraries_is_dir: true,
        state_root_real: "/mnt/state".to_string(),
        state_is_dir: true,
        thumbs_root_real: "/mnt/state/thumbs".to_string(),
        thumbs_is_dir: true,
    }
}

fn value(setting: Setting, text: &str) -> SettingValue {
    SettingValue { setting, value: text.to_string() }
}

#[test]
fn hash_algorithms_have_names() {
    assert_eq!(HashAlgorithm::Blake3.as_db_value(), "blake3");
    assert_eq!(HashAlgorithm::Sha256.as_db_value(), "sha256");
    assert_eq!(HashAlgorithm::parse("blake3"), Ok(HashAlgorithm::Blake3));
    assert_eq!(HashAlgorithm::parse("  SHA256\n"), Ok(HashAlgorithm::Sha256));
    assert_eq!(HashAlgorithm::parse("Blake3"), Ok(HashAlgorithm::Blake3));
    assert_eq!(HashAlgorithm::parse("sha-256"), Err(ConfigError::UnsupportedHashAlgorithm));
    assert_eq!(HashAlgorithm::parse(""), Err(ConfigError::UnsupportedHashAlgorithm));
    assert_eq!(HashAlgorithm::from_db_value("sha256"), Some(HashAlgorithm::Sha256));
    assert_eq!(HashAlgorithm::from_db_value("SHA256"), None);
    assert_eq!(HashAlgorithm::from_db_value(" blake3"), None);
}

#[test]
fn numbers_are_decimal_digits_with_an_optional_plus() {
    assert_eq!(parse_number("0"), Some(0));
    assert_eq!(parse_number("007"), Some(7));
    assert_eq!(parse_number("+42"), Some(42));
    assert_eq!(parse_number("18446744073709551615"), Some(u64::MAX));
    assert_eq!(parse_number("18446744073709551616"), None);
    assert_eq!(parse_number("99999999999999999999999"), None);
    assert_eq!(parse_number("18446744073709551616x"), None);
    assert_eq!(parse_number(""), None);
    assert_eq!(parse_number("+"), None);
    assert_eq!(parse_number("-1"), None);
    assert_eq!(parse_number("++1"), None);
    assert_eq!(parse_number("1 "), None);
    assert_eq!(parse_number(" 1"), None);
    assert_eq!(parse_number("1_000"), None);
    assert_eq!(parse_number("12a"), None);
    assert_eq!(parse_number("٣"), None);
    assert_eq!(parse_size("512"), Some(512));
    assert_eq!(parse_size("x"), None);
    for text in ["0", "5", "+5", "", "a", "123456789", "-0"] {
        assert_eq!(parse_number(text), text.parse::<u64>().ok());
    }
}

#[test]
fn settings_from_outside_are_applied_in_order() {
    let mut partial = PartialWorkerConfig::new();
    partial.thumbs_root = Some("/custom/thumbs".to_string());
    let values = vec![
        value(Setting::StateRoot, "/var/state"),
        value(Setting::DatabaseUrl, "postgres://ignored"),
        value(Setting::Concurrency, "8"),
        value(Setting::DefaultHashAlgorithm, " SHA256 "),
        value(Setting::ThumbnailFfmpegBin, "/usr/bin/ffmpeg"),
        value(Setting::PollJitterMillis, "0"),
        value(Setting::HashRetryMaxSeconds, "+10"),
    ];
    assert_eq!(apply_environment(&mut partial, &values), Ok(()));
    assert_eq!(partial.state_root, Some("/var/state".to_string()));
    assert_eq!(partial.database_path, Some("/var/state/dedupfs.sqlite3".to_string()));
    assert_eq!(partial.thumbs_root, Some("/custom/thumbs".to_string()));
    assert_eq!(partial.knobs.concurrency, Some(8));
    assert_eq!(partial.knobs.hash_algorithm, Some(HashAlgorithm::Sha256));
    assert_eq!(partial.thumbnail_ffmpeg_bin, Some("/usr/bin/ffmpeg".to_string()));
    assert_eq!(partial.knobs.rust_worker_poll_jitter_millis, Some(0));
    assert_eq!(partial.knobs.hash_retry_max_seconds, Some(10));
    assert_eq!(partial.knobs.job_lock_ttl_seconds, None);

    let mut fresh = PartialWorkerConfig::new();
    assert_eq!(fresh.apply(Setting::StateRoot, "/s"), Ok(()));
    assert_eq!(fresh.thumbs_root, Some("/s/thumbs".to_string()));
    assert_eq!(fresh.apply(Setting::DatabaseUrl, "sqlite:////data/db.sqlite3"), Ok(()));
    assert_eq!(fresh.database_path, Some("/data/db.sqlite3".to_string()));
    assert_eq!(fresh.apply(Setting::ThumbsRoot, "/t"), Ok(()));
    assert_eq!(fresh.thumbs_root, Some("/t".to_string()));
    assert_eq!(fresh.apply(Setting::LibrariesRoot, "/libraries"), Ok(()));
    assert_eq!(fresh.libraries_root, Some("/libraries".to_string()));
}

#[test]
fn a_value_that_is_refused_ends_the_application() {
    let mut partial = PartialWorkerConfig::new();
    let values = vec![
        value(Setting::Concurrency, "8"),
        value(Setting::JobLockTtlSeconds, "soon"),
        value(Setting::ScanWriteBatchSize, "also bad"),
    ];
    assert_eq!(
        apply_environment(&mut partial, &values),
        Err(ConfigError::InvalidSetting(Setting::JobLockTtlSeconds))
    );
    assert_eq!(partial.knobs.concurrency, Some(8));
    assert_eq!(
        PartialWorkerConfig::new().apply(Setting::DefaultHashAlgorithm, "md5"),
        Err(ConfigError::UnsupportedHashAlgorithm)
    );
    for setting in all_settings() {
        let mut fresh = PartialWorkerConfig::new();
        let outcome = fresh.apply(setting, "12");
        match setting {
            Setting::DefaultHashAlgorithm => assert_eq!(outcome, Err(ConfigError::UnsupportedHashAlgorithm)),
            _ => assert_eq!(outcome, Ok(())),
        }
        let mut other = PartialWorkerConfig::new();
        let refused = other.apply(setting, "twelve");
        match setting {
            Setting::LibrariesRoot
            | Setting::StateRoot
            | Setting::ThumbsRoot
            | Setting::DatabaseUrl
            | Setting::ThumbnailFfmpegBin => assert_eq!(refused, Ok(())),
            Setting::DefaultHashAlgorithm => assert_eq!(refused, Err(ConfigError::UnsupportedHashAlgorithm)),
            _ => assert_eq!(refused, Err(ConfigError::InvalidSetting(setting))),
        }
    }
}

#[test]
fn every_setting_has_its_variable() {
    let settings = all_settings();
    assert_eq!(settings.len(), 26);
    assert_eq!(settings[0], Setting::LibrariesRoot);
    assert_eq!(settings[25], Setting::WalCheckpointRetrySeconds);
    assert_eq!(setting_variable(Setting::LibrariesRoot), "DEDUPFS_LIBRARIES_ROOT");
    assert_eq!(setting_variable(Setting::StateRoot), "DEDUPFS_STATE_ROOT");
    assert_eq!(setting_variable(Setting::DatabaseUrl), "DEDUPFS_DATABASE_URL");
    assert_eq!(setting_variable(Setting::ThumbsRoot), "DEDUPFS_THUMBS_ROOT");
    assert_eq!(setting_variable(Setting::Concurrency), "DEDUPFS_RUST_WORKER_CONCURRENCY");
    assert_eq!(setting_variable(Setting::DefaultHashAlgorithm), "DEDUPFS_DEFAULT_HASH_ALGORITHM");
    assert_eq!(
        setting_variable(Setting::WalCheckpointRetrySeconds),
        "DEDUPFS_WAL_CHECKPOINT_RETRY_SECONDS"
    );
    let mut names: Vec<&str> = settings.iter().map(|setting| setting_variable(*setting)).collect();
    assert!(names.iter().all(|name| name.starts_with("DEDUPFS_")));
    names.sort();
    names.dedup();
    assert_eq!(names.len(), 26);
    assert_eq!(strip_database_scheme("sqlite:///abs/db"), Some("abs/db".to_string()));
    assert_eq!(strip_database_scheme("sqlite:///"), Some(String::new()));
    assert_eq!(strip_database_scheme("sqlite://x"), None);
    assert_eq!(strip_database_scheme(""), None);
}

#[test]
fn roots_are_planned_with_defaults_and_checked() {
    let plan = plan_roots(&PartialWorkerConfig::new()).unwrap();
    assert_eq!(plan.libraries_root, "/libraries");
    assert_eq!(plan.database_path, "/state/dedupfs.sqlite3");
    assert_eq!(plan.state_root, "/state");
    assert_eq!(plan.thumbs_root, "/state/thumbs");
    let check = |change: &dyn Fn(&mut PartialWorkerConfig)| {
        let mut partial = PartialWorkerConfig::new();
        change(&mut partial);
        plan_roots(&partial).map(|_| ())
    };
    assert_eq!(
        check(&|p| p.libraries_root = Some("libraries".to_string())),
        Err(ConfigError::LibrariesRootNotAbsolute)
    );
    assert_eq!(
        check(&|p| p.libraries_root = Some("/libraries/".to_string())),
        Err(ConfigError::LibrariesRootMisplaced)
    );
    assert_eq!(
        check(&|p| p.libraries_root = Some("/data".to_string())),
        Err(ConfigError::LibrariesRootMisplaced)
    );
    assert_eq!(
        check(&|p| p.database_path = Some("db.sqlite3".to_string())),
        Err(ConfigError::DatabasePathNotAbsolute)
    );
    assert_eq!(
        check(&|p| p.state_root = Some("state".to_string())),
        Err(ConfigError::StateRootNotAbsolute)
    );
    assert_eq!(
        check(&|p| p.database_path = Some("/elsewhere/db.sqlite3".to_string())),
        Err(ConfigError::DatabaseOutsideStateRoot)
    );
    assert_eq!(
        check(&|p| p.thumbs_root = Some("thumbs".to_string())),
        Err(ConfigError::ThumbsRootNotAbsolute)
    );
    assert_eq!(check(&|p| p.database_path = Some("/state".to_string())), Ok(()));
}

#[test]
fn a_configuration_resolves_to_defaults_and_floors() {
    let partial = PartialWorkerConfig::new();
    let plan = plan_roots(&partial).unwrap();
    let config = WorkerConfig::resolve(&partial, plan, facts(), Some("  worker-7 ")).unwrap();
    assert_eq!(config.worker_id, "worker-7");
    assert_eq!(config.libraries_root, "/libraries");
    assert_eq!(config.libraries_root_real, "/mnt/libraries");
    assert_eq!(config.database_path, "/state/dedupfs.sqlite3");
    assert_eq!(config.thumbs_root_real, "/mnt/state/thumbs");
    assert_eq!(config.concurrency, 4);
    assert_eq!(config.io_rate_limit_mib_per_sec, None);
    assert_eq!(config.hash_algorithm, HashAlgorithm::Blake3);
    assert_eq!(config.scan_write_batch_size, 2000);
    assert_eq!(config.hash_fetch_batch_size, 512);
    assert_eq!(config.hash_read_chunk_bytes, 4 * 1024 * 1024);
    assert_eq!(config.hash_claim_ttl_seconds, 600);
    assert_eq!(config.hash_retry_base_seconds, 30);
    assert_eq!(config.hash_retry_max_seconds, 3600);
    assert_eq!(config.job_lock_ttl_seconds, 300);
    assert_eq!(config.thumbnail_image_concurrency, 2);
    assert_eq!(config.thumbnail_video_concurrency, 1);
    assert_eq!(config.thumbnail_retry_base_seconds, 30);
    assert_eq!(config.thumbnail_retry_max_seconds, 1800);
    assert_eq!(config.thumbnail_ffmpeg_bin, "ffmpeg");
    assert_eq!(config.thumbnail_ffmpeg_timeout_seconds, 120);
    assert_eq!(config.thumbnail_max_dimension, 256);
    assert_eq!(config.rust_worker_poll_seconds, 5);
    assert_eq!(config.rust_worker_max_poll_seconds, 30);
    assert_eq!(config.rust_worker_poll_jitter_millis, 250);
    assert_eq!(config.wal_checkpoint_retry_seconds, 120);

    let mut low = PartialWorkerConfig::new();
    low.thumbnail_ffmpeg_bin = Some("  /opt/ffmpeg  ".to_string());
    low.knobs.concurrency = Some(0);
    low.knobs.hash_read_chunk_bytes = Some(10);
    low.knobs.hash_retry_base_seconds = Some(100);
    low.knobs.hash_retry_max_seconds = Some(50);
    low.knobs.thumbnail_max_dimension = Some(1);
    low.knobs.rust_worker_poll_seconds = Some(0);
    low.knobs.rust_worker_max_poll_seconds = Some(0);
    low.knobs.rust_worker_poll_jitter_millis = Some(0);
    low.knobs.wal_checkpoint_retry_seconds = Some(0);
    low.knobs.hash_algorithm = Some(HashAlgorithm::Sha256);
    let plan = plan_roots(&low).unwrap();
    let mut unresolved = facts();
    unresolved.libraries_root_real = None;
    unresolved.libraries_is_dir = false;
    let config = WorkerConfig::resolve(&low, plan, unresolved, None).unwrap();
    assert_eq!(config.libraries_root_real, "/libraries");
    assert_eq!(config.concurrency, 1);
    assert_eq!(config.hash_read_chunk_bytes, 1024);
    assert_eq!(config.hash_retry_base_seconds, 100);
    assert_eq!(config.hash_retry_max_seconds, 100);
    assert_eq!(config.thumbnail_max_dimension, 16);
    assert_eq!(config.rust_worker_poll_seconds, 1);
    assert_eq!(config.rust_worker_max_poll_seconds, 1);
    assert_eq!(config.rust_worker_poll_jitter_millis, 0);
    assert_eq!(config.wal_checkpoint_retry_seconds, 1);
    assert_eq!(config.hash_algorithm, HashAlgorithm::Sha256);
    assert_eq!(config.thumbnail_ffmpeg_bin, "/opt/ffmpeg");
    assert!(config.worker_id.starts_with("rust-worker-"));
    assert_eq!(config.worker_id.chars().count(), 22);
    assert!(config.worker_id["rust-worker-".len()..].chars().all(|c| c.is_ascii_alphanumeric()));
}

#[test]
fn a_configuration_is_refused_for_what_the_disk_told() {
    let resolve = |change: &dyn Fn(&mut RootFacts), id: Option<&str>, bin: Option<&str>| {
        let mut partial = PartialWorkerConfig::new();
        partial.thumbnail_ffmpeg_bin = bin.map(|text| text.to_string());
        let plan = plan_roots(&partial).unwrap();
        let mut facts = facts();
        change(&mut facts);
        WorkerConfig::resolve(&partial, plan, facts, id).map(|_| ())
    };
    assert_eq!(resolve(&|_| {}, None, None), Ok(()));
    assert_eq!(
        resolve(&|f| f.libraries_is_dir = false, None, None),
        Err(ConfigError::LibrariesRootNotDirectory)
    );
    assert_eq!(resolve(&|f| f.state_is_dir = false, None, None), Err(ConfigError::StateRootNotDirectory));
    assert_eq!(resolve(&|f| f.thumbs_is_dir = false, None, None), Err(ConfigError::ThumbsRootNotDirectory));
    assert_eq!(
        resolve(&|f| f.thumbs_root_real = "/elsewhere/thumbs".to_string(), None, None),
        Err(ConfigError::ThumbsRootOutsideStateRoot)
    );
    assert_eq!(resolve(&|f| f.thumbs_root_real = "/mnt/state".to_string(), None, None), Ok(()));
    assert_eq!(resolve(&|_| {}, Some("   "), None), Err(ConfigError::BlankWorkerId));
    assert_eq!(resolve(&|_| {}, Some(""), Some("  ")), Err(ConfigError::BlankWorkerId));
    assert_eq!(resolve(&|_| {}, None, Some("  ")), Err(ConfigError::BlankFfmpegBinary));
}

#[test]
fn worker_ids_and_defaults() {
    let id = generate_worker_id();
    assert!(id.starts_with("rust-worker-"));
    assert_eq!(id.len(), 22);
    assert_ne!(id, generate_worker_id());
    assert_eq!(resolve_number(None, 30, 1), 30);
    assert_eq!(resolve_number(Some(0), 30, 1), 1);
    assert_eq!(resolve_number(Some(7), 30, 1), 7);
    assert_eq!(resolve_size(None, 0, 16), 16);
    assert_eq!(resolve_size(Some(400), 256, 16), 400);
}
