//! The control loop: which queue is served, how the end of a unit is
//! recorded, and how an idle daemon sleeps.

use crate::backoff::{idle_backoff, idle_floor, next_idle_backoff_seconds};
use crate::cleanup_queue::{
    any_runnable_cleanup, claim_thumbnail_cleanup_job, cleanup_claim_effect, cleanup_finish_flags,
    cleanup_views, finish_thumbnail_cleanup_job, has_runnable_thumbnail_cleanup_work, CleanupRow,
    CleanupRowView, ThumbnailCleanupRecord,
};
use crate::config::WorkerConfig;
use crate::db::{
    any_runnable_job, claim_scan_hash_job, file_views, finish_job, first_flagged, first_served,
    has_runnable_scan_hash_work, job_claim_effect, job_finish_tickets, job_views, FileRow,
    JobRecord, JobRow, JobRowView, LibraryRootRow, StoreError,
};
use crate::io_budget::IoBucketRow;
use crate::random::random_up_to;
use crate::scan::ScanSessionRow;
use crate::text::{
    borrowed_text, decimal_text, lowercased, push_decimal, replace_text, replaced,
    truncate_error_message, truncated_text,
};
use crate::thumbnail::{classify_thumbnail_error, thumbnail_error_code};
use crate::thumbnail_queue::{
    any_runnable_thumbnail, claim_thumbnail_task, finish_thumbnail_failure,
    finish_thumbnail_success, has_runnable_thumbnail_work, thumbnail_claim_effect,
    thumbnail_finish_flags, thumbnail_views, ThumbnailRow, ThumbnailRowView, ThumbnailTaskRecord,
};
use crate::wal_queue::{
    any_runnable_wal_job, claim_wal_maintenance_job, finish_wal_maintenance_failure,
    finish_wal_maintenance_success, has_runnable_wal_maintenance_work,
    requeue_wal_maintenance_retry, wal_claim_effect, wal_finish_flags, wal_views,
    WalCheckpointStats, WalMaintenanceRecord, WalRow, WalRowView,
};
use vstd::prelude::*;
use vstd::string::StringExecFns;

verus! {

/// Most characters of an error message that is shown or stored.
pub const ERROR_MESSAGE_LIMIT: usize = 1024;

/// What a cycle did.
#[derive(Clone, Copy, Debug, PartialEq, Eq, Structural)]
pub enum CycleOutcome {
    DidWork,
    Idle,
}

/// An error message as it may be shown: the resolved libraries root reads
/// `/libraries`, the resolved thumbs root reads `/state/thumbs`, and the text
/// is cut at 1024 characters.
pub open spec fn sanitized_text(
    raw: Seq<char>,
    libraries_real: Seq<char>,
    thumbs_real: Seq<char>,
) -> Seq<char> {
    let first = if libraries_real.len() > 0 {
        replaced(raw, libraries_real, "/libraries"@)
    } else {
        raw
    };
    let second = if thumbs_real.len() > 0 {
        replaced(first, thumbs_real, "/state/thumbs"@)
    } else {
        first
    };
    truncated_text(second, ERROR_MESSAGE_LIMIT as int)
}

/// Puts an error message in the form in which it may be shown.
pub fn sanitize_error_message(raw: &str, config: &WorkerConfig) -> (message: String)
    ensures
        message@ == sanitized_text(raw@, config.libraries_root_real@, config.thumbs_root_real@),
{
    let first = if config.libraries_root_real.as_str().unicode_len() > 0 {
        replace_text(raw, config.libraries_root_real.as_str(), "/libraries")
    } else {
        String::from_str(raw)
    };
    let second = if config.thumbs_root_real.as_str().unicode_len() > 0 {
        replace_text(first.as_str(), config.thumbs_root_real.as_str(), "/state/thumbs")
    } else {
        first
    };
    truncate_error_message(second.as_str(), ERROR_MESSAGE_LIMIT)
}

/// The milliseconds of an idle sleep: the backoff, at least one second,
/// and the jitter on top; the longest sleep where the sum does not fit.
pub open spec fn sleep_millis(base_seconds: u64, jitter_millis: u64) -> u64 {
    let base = if base_seconds < 1 {
        1
    } else {
        base_seconds as int
    };
    if base * 1000 + jitter_millis > u64::MAX {
        u64::MAX
    } else {
        (base * 1000 + jitter_millis) as u64
    }
}

/// The milliseconds of an idle sleep with the given jitter.
pub fn sleep_millis_with(base_seconds: u64, jitter_millis: u64) -> (millis: u64)
    ensures
        millis == sleep_millis(base_seconds, jitter_millis),
{
    let base: u128 = if base_seconds < 1 {
        1
    } else {
        base_seconds as u128
    };
    let total: u128 = base * 1000 + jitter_millis as u128;
    if total > u64::MAX as u128 {
        u64::MAX
    } else {
        total as u64
    }
}

/// The milliseconds of the next idle sleep: the backoff and a jitter drawn
/// at random from zero to `jitter_millis`.
pub fn sleep_with_jitter(base_seconds: u64, jitter_millis: u64) -> (millis: u64)
    ensures
        exists|jitter: u64| jitter <= jitter_millis && millis == #[trigger] sleep_millis(
            base_seconds,
            jitter,
        ),
{
    let jitter = if jitter_millis == 0 {
        0
    } else {
        random_up_to(jitter_millis)
    };
    sleep_millis_with(base_seconds, jitter)
}

/// The idle backoff of a daemon.
#[derive(Clone, Copy, Debug, PartialEq, Eq, Structural)]
pub struct DaemonBackoff {
    pub idle_backoff_seconds: u64,
}

impl DaemonBackoff {
    /// The backoff a daemon starts with: the poll interval, at least one
    /// second.
    pub fn start(config: &WorkerConfig) -> (backoff: DaemonBackoff)
        ensures
            backoff.idle_backoff_seconds == idle_floor(config.rust_worker_poll_seconds as int),
    {
        DaemonBackoff {
            idle_backoff_seconds: if config.rust_worker_poll_seconds < 1 {
                1
            } else {
                config.rust_worker_poll_seconds
            },
        }
    }

    /// Takes the end of a cycle into the backoff and tells how many seconds
    /// the daemon is to sleep, jitter aside: a cycle that did work resets the
    /// backoff to its floor and the daemon goes on at once; after any other
    /// cycle, idle or failed, the daemon sleeps for the backoff, which then
    /// doubles up to its ceiling.
    pub fn after_cycle(&mut self, config: &WorkerConfig, did_work: bool) -> (sleep_seconds: Option<
        u64,
    >)
        ensures
            did_work ==> {
                &&& sleep_seconds is None
                &&& final(self).idle_backoff_seconds == idle_floor(
                    config.rust_worker_poll_seconds as int,
                )
            },
            !did_work ==> {
                &&& sleep_seconds == Some(old(self).idle_backoff_seconds)
                &&& final(self).idle_backoff_seconds == idle_backoff(
                    old(self).idle_backoff_seconds as int,
                    config.rust_worker_poll_seconds as int,
                    config.rust_worker_max_poll_seconds as int,
                )
            },
    {
        if did_work {
            self.idle_backoff_seconds = if config.rust_worker_poll_seconds < 1 {
                1
            } else {
                config.rust_worker_poll_seconds
            };
            None
        } else {
            let current = self.idle_backoff_seconds;
            self.idle_backoff_seconds = next_idle_backoff_seconds(
                current,
                config.rust_worker_poll_seconds,
                config.rust_worker_max_poll_seconds,
            );
            Some(current)
        }
    }
}

/// All that the store holds.
#[derive(Clone, Debug, PartialEq, Eq)]
pub struct Store {
    pub jobs: Vec<JobRow>,
    pub library_roots: Vec<LibraryRootRow>,
    pub library_files: Vec<FileRow>,
    pub scan_sessions: Vec<ScanSessionRow>,
    pub thumbnails: Vec<ThumbnailRow>,
    pub thumbnail_cleanup_jobs: Vec<CleanupRow>,
    pub wal_maintenance_jobs: Vec<WalRow>,
    pub io_rate_limits: Vec<IoBucketRow>,
}

/// A unit of work that a cycle claimed.
#[derive(Debug)]
pub enum ClaimedUnit {
    ScanHash(JobRecord),
    Thumbnail(ThumbnailTaskRecord),
    Cleanup(ThumbnailCleanupRecord),
    Wal(WalMaintenanceRecord),
}

/// The job that a claim handed out, if it handed out one.
pub open spec fn job_of(result: Result<Option<ClaimedUnit>, StoreError>) -> Option<JobRecord> {
    match result {
        Ok(Some(ClaimedUnit::ScanHash(record))) => Some(record),
        _ => None,
    }
}

/// The thumbnail task that a claim handed out, if it handed out one.
pub open spec fn thumbnail_of(result: Result<Option<ClaimedUnit>, StoreError>) -> Option<
    ThumbnailTaskRecord,
> {
    match result {
        Ok(Some(ClaimedUnit::Thumbnail(record))) => Some(record),
        _ => None,
    }
}

/// The cleanup that a claim handed out, if it handed out one.
pub open spec fn cleanup_of(result: Result<Option<ClaimedUnit>, StoreError>) -> Option<
    ThumbnailCleanupRecord,
> {
    match result {
        Ok(Some(ClaimedUnit::Cleanup(record))) => Some(record),
        _ => None,
    }
}

/// What the claim on the maintenance queue gave, seen from the result of
/// the whole claim.
pub open spec fn wal_part_of(result: Result<Option<ClaimedUnit>, StoreError>) -> Result<
    Option<WalMaintenanceRecord>,
    StoreError,
> {
    match result {
        Ok(Some(ClaimedUnit::Wal(record))) => Ok(Some(record)),
        Err(fault) => Err(fault),
        _ => Ok(None),
    }
}

/// The last stage of a claim: the maintenance queue is tried if it holds
/// runnable work.
pub open spec fn wal_stage(
    before: Store,
    after: Store,
    result: Result<Option<ClaimedUnit>, StoreError>,
    config: WorkerConfig,
    now: i64,
) -> bool {
    if any_runnable_wal_job(wal_views(before.wal_maintenance_jobs@), now) {
        wal_claim_effect(
            wal_views(before.wal_maintenance_jobs@),
            wal_views(after.wal_maintenance_jobs@),
            wal_part_of(result),
            config.worker_id@,
            config.job_lock_ttl_seconds,
            config.wal_checkpoint_retry_seconds,
            now,
        )
    } else {
        &&& wal_views(after.wal_maintenance_jobs@) == wal_views(before.wal_maintenance_jobs@)
        &&& result matches Ok(None)
    }
}

/// The third stage of a claim: the cleanup queue is tried if it holds
/// runnable work; the maintenance queue comes only where no cleanup was
/// claimed.
pub open spec fn cleanup_stage(
    before: Store,
    after: Store,
    result: Result<Option<ClaimedUnit>, StoreError>,
    config: WorkerConfig,
    now: i64,
) -> bool {
    &&& if any_runnable_cleanup(cleanup_views(before.thumbnail_cleanup_jobs@), now) {
        cleanup_claim_effect(
            cleanup_views(before.thumbnail_cleanup_jobs@),
            cleanup_views(after.thumbnail_cleanup_jobs@),
            cleanup_of(result),
            thumbnail_views(after.thumbnails@),
            config.worker_id@,
            config.job_lock_ttl_seconds,
            now,
        )
    } else {
        &&& cleanup_views(after.thumbnail_cleanup_jobs@) == cleanup_views(
            before.thumbnail_cleanup_jobs@,
        )
        &&& cleanup_of(result) is None
    }
    &&& if cleanup_of(result) is Some {
        wal_views(after.wal_maintenance_jobs@) == wal_views(before.wal_maintenance_jobs@)
    } else {
        wal_stage(before, after, result, config, now)
    }
}

/// The second stage of a claim: the thumbnail queue is tried if it holds
/// runnable work; the later queues come only where no task was claimed.
pub open spec fn thumbnail_stage(
    before: Store,
    after: Store,
    result: Result<Option<ClaimedUnit>, StoreError>,
    config: WorkerConfig,
    now: i64,
) -> bool {
    &&& if any_runnable_thumbnail(thumbnail_views(before.thumbnails@), now) {
        thumbnail_claim_effect(
            thumbnail_views(before.thumbnails@),
            thumbnail_views(after.thumbnails@),
            thumbnail_of(result),
            file_views(before.library_files@),
            before.library_roots@,
            config.worker_id@,
            config.job_lock_ttl_seconds,
            config.thumbnail_image_concurrency,
            config.thumbnail_video_concurrency,
            now,
        )
    } else {
        &&& thumbnail_views(after.thumbnails@) == thumbnail_views(before.thumbnails@)
        &&& thumbnail_of(result) is None
    }
    &&& if thumbnail_of(result) is Some {
        &&& cleanup_views(after.thumbnail_cleanup_jobs@) == cleanup_views(
            before.thumbnail_cleanup_jobs@,
        )
        &&& wal_views(after.wal_maintenance_jobs@) == wal_views(before.wal_maintenance_jobs@)
    } else {
        cleanup_stage(before, after, result, config, now)
    }
}

/// What a claim does: the queues are tried in their order of priority, scan
/// and hash jobs first, then thumbnail tasks, cleanups and maintenance jobs.
/// A queue is tried if it holds runnable work, the job queue also whenever a
/// job was requested; the first unit claimed ends the claim, and the queues
/// behind it are left alone.
pub open spec fn claim_effect(
    before: Store,
    after: Store,
    result: Result<Option<ClaimedUnit>, StoreError>,
    config: WorkerConfig,
    requested: Option<Seq<char>>,
    now: i64,
) -> bool {
    &&& if requested is Some || any_runnable_job(job_views(before.jobs@), now) {
        job_claim_effect(
            job_views(before.jobs@),
            job_views(after.jobs@),
            job_of(result),
            requested,
            config.worker_id@,
            config.job_lock_ttl_seconds,
            now,
        )
    } else {
        &&& job_views(after.jobs@) == job_views(before.jobs@)
        &&& job_of(result) is None
    }
    &&& if job_of(result) is Some {
        &&& thumbnail_views(after.thumbnails@) == thumbnail_views(before.thumbnails@)
        &&& cleanup_views(after.thumbnail_cleanup_jobs@) == cleanup_views(
            before.thumbnail_cleanup_jobs@,
        )
        &&& wal_views(after.wal_maintenance_jobs@) == wal_views(before.wal_maintenance_jobs@)
    } else {
        thumbnail_stage(before, after, result, config, now)
    }
    &&& after.library_files@ == before.library_files@
    &&& after.library_roots@ == before.library_roots@
    &&& after.scan_sessions@ == before.scan_sessions@
    &&& after.io_rate_limits@ == before.io_rate_limits@
}

/// Claims the next unit of work for this worker, if there is one.
pub fn claim_next_unit(
    store: &mut Store,
    config: &WorkerConfig,
    requested_job_id: Option<&str>,
    now: i64,
) -> (result: Result<Option<ClaimedUnit>, StoreError>)
    ensures
        claim_effect(*old(store), *final(store), result, *config, borrowed_text(requested_job_id), now),
{
    let tries_jobs = match requested_job_id {
        Some(_) => true,
        None => has_runnable_scan_hash_work(&store.jobs, now),
    };
    if tries_jobs {
        match claim_scan_hash_job(&mut store.jobs, config, requested_job_id, now) {
            Some(job) => {
                return Ok(Some(ClaimedUnit::ScanHash(job)));
            },
            None => {},
        }
    }
    if has_runnable_thumbnail_work(&store.thumbnails, now) {
        match claim_thumbnail_task(
            &mut store.thumbnails,
            &store.library_files,
            &store.library_roots,
            config,
            now,
        ) {
            Some(task) => {
                return Ok(Some(ClaimedUnit::Thumbnail(task)));
            },
            None => {},
        }
    }
    if has_runnable_thumbnail_cleanup_work(&store.thumbnail_cleanup_jobs, now) {
        match claim_thumbnail_cleanup_job(
            &mut store.thumbnail_cleanup_jobs,
            &store.thumbnails,
            config,
            now,
        ) {
            Some(cleanup) => {
                return Ok(Some(ClaimedUnit::Cleanup(cleanup)));
            },
            None => {},
        }
    }
    if has_runnable_wal_maintenance_work(&store.wal_maintenance_jobs, now) {
        match claim_wal_maintenance_job(&mut store.wal_maintenance_jobs, config, now) {
            Ok(Some(job)) => {
                return Ok(Some(ClaimedUnit::Wal(job)));
            },
            Ok(None) => {},
            Err(fault) => {
                return Err(fault);
            },
        }
    }
    Ok(None)
}

/// Why a cycle failed.
#[derive(Debug)]
pub enum CycleError {
    /// The store refused to record the end of a unit that had succeeded.
    Store(StoreError),
    /// The unit failed; the text is the unit's own, as it was raised.
    Task(String),
}

/// What a cycle reports after a unit that failed and whose failure was
/// recorded: the unit's error where errors are passed on, else that work was
/// done.
pub open spec fn is_failure_report(
    result: Result<CycleOutcome, CycleError>,
    raw: Seq<char>,
    propagate_task_errors: bool,
) -> bool {
    if propagate_task_errors {
        &&& result matches Err(CycleError::Task(message))
        &&& message@ == raw
    } else {
        result matches Ok(CycleOutcome::DidWork)
    }
}

/// What a cycle reports after a unit that failed.
fn failure_report(raw: &str, propagate_task_errors: bool) -> (result: Result<
    CycleOutcome,
    CycleError,
>)
    ensures
        is_failure_report(result, raw@, propagate_task_errors),
{
    if propagate_task_errors {
        Err(CycleError::Task(String::from_str(raw)))
    } else {
        Ok(CycleOutcome::DidWork)
    }
}

/// The job table after the end of a job was recorded; the table as it is
/// where this worker holds no such job.
pub open spec fn jobs_after_finish(
    before: Seq<JobRowView>,
    id: Seq<char>,
    worker: Seq<char>,
    success: bool,
    message: Option<Seq<char>>,
    now: i64,
) -> Seq<JobRowView> {
    match first_served(job_finish_tickets(before, id, worker)) {
        Some(i) => before.update(i, before[i].finished(success, message, now)),
        None => before,
    }
}

/// Records how a scan or hash job ended. A job that succeeded is finished
/// as completed, and a store that refuses this fails the cycle. A job that
/// failed with the error text `failure` is finished as failed with the
/// sanitized text, whether or not the store takes it.
pub fn settle_job(
    jobs: &mut Vec<JobRow>,
    config: &WorkerConfig,
    job_id: &str,
    failure: Option<&str>,
    propagate_task_errors: bool,
    now: i64,
) -> (result: Result<CycleOutcome, CycleError>)
    ensures
        ({
            let before = job_views(old(jobs)@);
            let after = job_views(final(jobs)@);
            let worker = config.worker_id@;
            match failure {
                None => {
                    &&& after == jobs_after_finish(before, job_id@, worker, true, None, now)
                    &&& if first_served(job_finish_tickets(before, job_id@, worker)) is Some {
                        result matches Ok(CycleOutcome::DidWork)
                    } else {
                        result matches Err(CycleError::Store(StoreError::FinishRejected))
                    }
                },
                Some(raw) => {
                    &&& after == jobs_after_finish(
                        before,
                        job_id@,
                        worker,
                        false,
                        Some(
                            sanitized_text(
                                raw@,
                                config.libraries_root_real@,
                                config.thumbs_root_real@,
                            ),
                        ),
                        now,
                    )
                    &&& is_failure_report(result, raw@, propagate_task_errors)
                },
            }
        }),
{
    match failure {
        None => match finish_job(jobs, config, job_id, true, None, now) {
            Ok(_) => Ok(CycleOutcome::DidWork),
            Err(fault) => Err(CycleError::Store(fault)),
        },
        Some(raw) => {
            let message = sanitize_error_message(raw, config);
            let _ = finish_job(jobs, config, job_id, false, Some(message.as_str()), now);
            failure_report(raw, propagate_task_errors)
        },
    }
}

/// How a render ended.
#[derive(Debug)]
pub enum RenderOutcome {
    /// The thumbnail was published with this size.
    Rendered { width: i64, height: i64, bytes_size: i64 },
    /// The render failed with this error text.
    Failed { message: String },
}

/// The thumbnail table after a finish that reaches the task `id` held by
/// `worker`; the table as it is where this worker holds no such task.
pub open spec fn thumbnails_after(
    before: Seq<ThumbnailRowView>,
    id: i64,
    worker: Seq<char>,
    change: spec_fn(ThumbnailRowView) -> ThumbnailRowView,
) -> Seq<ThumbnailRowView> {
    match first_flagged(thumbnail_finish_flags(before, id, worker)) {
        Some(i) => before.update(i, change(before[i])),
        None => before,
    }
}

/// Records how a thumbnail task ended. A task that was rendered is
/// finished as ready, and a store that refuses this fails the cycle. A task
/// that failed is finished as failed with the code that its error text is
/// classified as and with the sanitized text, whether or not the store takes
/// it.
pub fn settle_thumbnail(
    thumbnails: &mut Vec<ThumbnailRow>,
    config: &WorkerConfig,
    task: &ThumbnailTaskRecord,
    outcome: &RenderOutcome,
    propagate_task_errors: bool,
    now: i64,
) -> (result: Result<CycleOutcome, CycleError>)
    ensures
        ({
            let before = thumbnail_views(old(thumbnails)@);
            let after = thumbnail_views(final(thumbnails)@);
            let worker = config.worker_id@;
            match *outcome {
                RenderOutcome::Rendered { width, height, bytes_size } => {
                    &&& after == thumbnails_after(
                        before,
                        task.id,
                        worker,
                        |row: ThumbnailRowView| row.succeeded(width, height, bytes_size, now),
                    )
                    &&& if first_flagged(thumbnail_finish_flags(before, task.id, worker)) is Some {
                        result matches Ok(CycleOutcome::DidWork)
                    } else {
                        result matches Err(CycleError::Store(StoreError::FinishRejected))
                    }
                },
                RenderOutcome::Failed { message } => {
                    &&& after == thumbnails_after(
                        before,
                        task.id,
                        worker,
                        |row: ThumbnailRowView|
                            row.failed(
                                task.error_count,
                                thumbnail_error_code(lowercased(message@)),
                                sanitized_text(
                                    message@,
                                    config.libraries_root_real@,
                                    config.thumbs_root_real@,
                                ),
                                now,
                                config.thumbnail_retry_base_seconds,
                                config.thumbnail_retry_max_seconds,
                            ),
                    )
                    &&& is_failure_report(result, message@, propagate_task_errors)
                },
            }
        }),
{
    match outcome {
        RenderOutcome::Rendered { width, height, bytes_size } => match finish_thumbnail_success(
            thumbnails,
            config,
            task.id,
            *width,
            *height,
            *bytes_size,
            now,
        ) {
            Ok(_) => Ok(CycleOutcome::DidWork),
            Err(fault) => Err(CycleError::Store(fault)),
        },
        RenderOutcome::Failed { message } => {
            let code = classify_thumbnail_error(message.as_str());
            let shown = sanitize_error_message(message.as_str(), config);
            let _ = finish_thumbnail_failure(
                thumbnails,
                config,
                task.id,
                task.error_count,
                code,
                shown.as_str(),
                now,
            );
            failure_report(message.as_str(), propagate_task_errors)
        },
    }
}

/// The cleanup table after a finish that reaches the cleanup `id` held by
/// `worker`; the table as it is where this worker holds no such cleanup.
pub open spec fn cleanups_after_finish(
    before: Seq<CleanupRowView>,
    id: i64,
    worker: Seq<char>,
    success: bool,
    code: Option<Seq<char>>,
    message: Option<Seq<char>>,
    now: i64,
) -> Seq<CleanupRowView> {
    match first_flagged(cleanup_finish_flags(before, id, worker)) {
        Some(i) => before.update(i, before[i].finished(success, code, message, now)),
        None => before,
    }
}

/// Records how a cleanup ended. A cleanup that succeeded is finished as
/// completed, and a store that refuses this fails the cycle. A cleanup that
/// failed with the error text `failure` is finished as failed with the
/// cleanup-failed code and the sanitized text, whether or not the store takes
/// it.
pub fn settle_cleanup(
    cleanups: &mut Vec<CleanupRow>,
    config: &WorkerConfig,
    cleanup_id: i64,
    failure: Option<&str>,
    propagate_task_errors: bool,
    now: i64,
) -> (result: Result<CycleOutcome, CycleError>)
    ensures
        ({
            let before = cleanup_views(old(cleanups)@);
            let after = cleanup_views(final(cleanups)@);
            let worker = config.worker_id@;
            match failure {
                None => {
                    &&& after == cleanups_after_finish(
                        before,
                        cleanup_id,
                        worker,
                        true,
                        None,
                        None,
                        now,
                    )
                    &&& if first_flagged(cleanup_finish_flags(before, cleanup_id, worker)) is Some {
                        result matches Ok(CycleOutcome::DidWork)
                    } else {
                        result matches Err(CycleError::Store(StoreError::FinishRejected))
                    }
                },
                Some(raw) => {
                    &&& after == cleanups_after_finish(
                        before,
                        cleanup_id,
                        worker,
                        false,
                        Some("THUMB_CLEANUP_FAILED"@),
                        Some(
                            sanitized_text(
                                raw@,
                                config.libraries_root_real@,
                                config.thumbs_root_real@,
                            ),
                        ),
                        now,
                    )
                    &&& is_failure_report(result, raw@, propagate_task_errors)
                },
            }
        }),
{
    match failure {
        None => match finish_thumbnail_cleanup_job(cleanups, config, cleanup_id, true, None, None, now) {
            Ok(_) => Ok(CycleOutcome::DidWork),
            Err(fault) => Err(CycleError::Store(fault)),
        },
        Some(raw) => {
            let message = sanitize_error_message(raw, config);
            let _ = finish_thumbnail_cleanup_job(
                cleanups,
                config,
                cleanup_id,
                false,
                Some("THUMB_CLEANUP_FAILED"),
                Some(message.as_str()),
                now,
            );
            failure_report(raw, propagate_task_errors)
        },
    }
}

/// How a checkpoint ended.
#[derive(Debug)]
pub enum CheckpointOutcome {
    /// The checkpoint ran and reported this.
    Ran(WalCheckpointStats),
    /// The checkpoint failed with this error text.
    Failed { message: String },
}

/// What is recorded on a maintenance job whose checkpoint was held up.
pub open spec fn busy_message(stats: WalCheckpointStats) -> Seq<char> {
    "WAL checkpoint busy="@ + decimal_text(stats.busy as int) + " log_frames="@ + decimal_text(
        stats.log_frames as int,
    ) + " checkpointed_frames="@ + decimal_text(stats.checkpointed_frames as int)
}

/// What is recorded on a maintenance job whose checkpoint was held up.
pub fn format_busy_message(stats: WalCheckpointStats) -> (message: String)
    ensures
        message@ == busy_message(stats),
{
    let mut message = String::from_str("WAL checkpoint busy=");
    push_decimal(&mut message, stats.busy);
    message.append(" log_frames=");
    push_decimal(&mut message, stats.log_frames);
    message.append(" checkpointed_frames=");
    push_decimal(&mut message, stats.checkpointed_frames);
    message
}

/// The maintenance table after a finish that reaches the job `id` held by
/// `worker`; the table as it is where this worker holds no such job.
pub open spec fn wal_jobs_after(
    before: Seq<WalRowView>,
    id: i64,
    worker: Seq<char>,
    change: spec_fn(WalRowView) -> WalRowView,
) -> Seq<WalRowView> {
    match first_flagged(wal_finish_flags(before, id, worker)) {
        Some(i) => before.update(i, change(before[i])),
        None => before,
    }
}

/// Records how a checkpoint ended. A checkpoint that was held up by another
/// connection puts its job back for a retry after the checkpoint retry
/// delay, with one more retry counted, whether or not the store takes it. A
/// checkpoint that ran through finishes its job as completed, and a store
/// that refuses this fails the cycle. A checkpoint that failed finishes its
/// job as failed with the checkpoint-failed code and the sanitized text,
/// whether or not the store takes it.
pub fn settle_wal_checkpoint(
    wal_jobs: &mut Vec<WalRow>,
    config: &WorkerConfig,
    job: &WalMaintenanceRecord,
    outcome: &CheckpointOutcome,
    propagate_task_errors: bool,
    now: i64,
) -> (result: Result<CycleOutcome, CycleError>)
    ensures
        ({
            let before = wal_views(old(wal_jobs)@);
            let after = wal_views(final(wal_jobs)@);
            let worker = config.worker_id@;
            match *outcome {
                CheckpointOutcome::Ran(stats) => if stats.busy > 0 {
                    &&& after == wal_jobs_after(
                        before,
                        job.id,
                        worker,
                        |row: WalRowView|
                            row.requeued(
                                job.retry_count,
                                "WAL_CHECKPOINT_BUSY"@,
                                busy_message(stats),
                                stats,
                                now,
                                config.wal_checkpoint_retry_seconds,
                            ),
                    )
                    &&& result matches Ok(CycleOutcome::DidWork)
                } else {
                    &&& after == wal_jobs_after(
                        before,
                        job.id,
                        worker,
                        |row: WalRowView| row.succeeded(stats, now),
                    )
                    &&& if first_flagged(wal_finish_flags(before, job.id, worker)) is Some {
                        result matches Ok(CycleOutcome::DidWork)
                    } else {
                        result matches Err(CycleError::Store(StoreError::FinishRejected))
                    }
                },
                CheckpointOutcome::Failed { message } => {
                    &&& after == wal_jobs_after(
                        before,
                        job.id,
                        worker,
                        |row: WalRowView|
                            row.failed(
                                "WAL_CHECKPOINT_FAILED"@,
                                sanitized_text(
                                    message@,
                                    config.libraries_root_real@,
                                    config.thumbs_root_real@,
                                ),
                                now,
                            ),
                    )
                    &&& is_failure_report(result, message@, propagate_task_errors)
                },
            }
        }),
{
    match outcome {
        CheckpointOutcome::Ran(stats) => {
            if stats.busy > 0 {
                let message = format_busy_message(*stats);
                let _ = requeue_wal_maintenance_retry(
                    wal_jobs,
                    config,
                    job.id,
                    job.retry_count,
                    "WAL_CHECKPOINT_BUSY",
                    message.as_str(),
                    *stats,
                    now,
                );
                Ok(CycleOutcome::DidWork)
            } else {
                match finish_wal_maintenance_success(wal_jobs, config, job.id, *stats, now) {
                    Ok(_) => Ok(CycleOutcome::DidWork),
                    Err(fault) => Err(CycleError::Store(fault)),
                }
            }
        },
        CheckpointOutcome::Failed { message } => {
            let shown = sanitize_error_message(message.as_str(), config);
            let _ = finish_wal_maintenance_failure(
                wal_jobs,
                config,
                job.id,
                "WAL_CHECKPOINT_FAILED",
                shown.as_str(),
                now,
            );
            failure_report(message.as_str(), propagate_task_errors)
        },
    }
}

/// How the worker is to run.
#[derive(Clone, Copy, Debug, PartialEq, Eq, Structural)]
pub enum RunMode {
    /// One cycle, then the end.
    OneShot,
    /// Cycle after cycle, for ever.
    Daemon,
}

/// Why the command line is refused.
#[derive(Clone, Copy, Debug, PartialEq, Eq, Structural)]
pub enum CliError {
    /// A job was requested of a daemon.
    JobIdWithDaemon,
}

/// Settles how the worker runs: as a daemon where that was asked for, which
/// rules out a requested job; else for one cycle.
pub fn run_mode(daemon: bool, job_id: Option<&str>) -> (result: Result<RunMode, CliError>)
    ensures
        result == (if daemon {
            if job_id is Some {
                Err::<RunMode, CliError>(CliError::JobIdWithDaemon)
            } else {
                Ok::<RunMode, CliError>(RunMode::Daemon)
            }
        } else {
            Ok::<RunMode, CliError>(RunMode::OneShot)
        }),
{
    if daemon {
        if job_id.is_some() {
            Err(CliError::JobIdWithDaemon)
        } else {
            Ok(RunMode::Daemon)
        }
    } else {
        Ok(RunMode::OneShot)
    }
}

} // verus!
