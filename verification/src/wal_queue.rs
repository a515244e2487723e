//! The queue of maintenance jobs that checkpoint the write-ahead log.

use crate::config::WorkerConfig;
use crate::db::{
    choose_first, deadline_after, find_flagged, first_flagged, first_served, lease_deadline,
    or_instant, requeue_message, LeaseState, LeaseStateView, QueueStatus, StoreError, Ticket,
};
use crate::text::text_equal;
use crate::thumbnail_queue::{bump, bumped, has_come, instant_has_come};
use vstd::prelude::*;
use vstd::string::StringExecFns;

verus! {

/// How a checkpoint of the write-ahead log is to be run.
#[derive(Clone, Copy, Debug, PartialEq, Eq, Structural)]
pub enum WalCheckpointMode {
    Passive,
    Restart,
    Truncate,
}

/// The mode stored under a name, if the name is one.
pub open spec fn checkpoint_mode_named(name: Seq<char>) -> Option<WalCheckpointMode> {
    if name == "passive"@ {
        Some(WalCheckpointMode::Passive)
    } else if name == "restart"@ {
        Some(WalCheckpointMode::Restart)
    } else if name == "truncate"@ {
        Some(WalCheckpointMode::Truncate)
    } else {
        None
    }
}

/// The keyword that stands for a mode in a checkpoint statement.
pub open spec fn checkpoint_keyword(mode: WalCheckpointMode) -> Seq<char> {
    match mode {
        WalCheckpointMode::Passive => "PASSIVE"@,
        WalCheckpointMode::Restart => "RESTART"@,
        WalCheckpointMode::Truncate => "TRUNCATE"@,
    }
}

impl WalCheckpointMode {
    /// The mode with exactly this stored name.
    pub fn parse(raw: &str) -> (mode: Option<WalCheckpointMode>)
        ensures
            mode == checkpoint_mode_named(raw@),
    {
        if text_equal(raw, "passive") {
            Some(WalCheckpointMode::Passive)
        } else if text_equal(raw, "restart") {
            Some(WalCheckpointMode::Restart)
        } else if text_equal(raw, "truncate") {
            Some(WalCheckpointMode::Truncate)
        } else {
            None
        }
    }

    /// The keyword that stands for the mode in a checkpoint statement.
    pub fn as_sql_keyword(self) -> (keyword: &'static str)
        ensures
            keyword@ == checkpoint_keyword(self),
    {
        match self {
            WalCheckpointMode::Passive => "PASSIVE",
            WalCheckpointMode::Restart => "RESTART",
            WalCheckpointMode::Truncate => "TRUNCATE",
        }
    }
}

/// The statement that runs a checkpoint in the given mode.
pub fn checkpoint_statement(mode: WalCheckpointMode) -> (statement: String)
    ensures
        statement@ == "PRAGMA wal_checkpoint("@ + checkpoint_keyword(mode) + ")"@,
{
    let mut statement = String::from_str("PRAGMA wal_checkpoint(");
    statement.append(mode.as_sql_keyword());
    statement.append(")");
    statement
}

/// What a checkpoint reported.
#[derive(Clone, Copy, Debug, PartialEq, Eq, Structural)]
pub struct WalCheckpointStats {
    pub busy: i64,
    pub log_frames: i64,
    pub checkpointed_frames: i64,
}

/// A claimed maintenance job as the engine receives it.
#[derive(Clone, Copy, Debug, PartialEq, Eq, Structural)]
pub struct WalMaintenanceRecord {
    pub id: i64,
    pub requested_mode: WalCheckpointMode,
    pub retry_count: i64,
}

/// A maintenance job of the write-ahead log as the store holds it.
#[derive(Clone, Debug, PartialEq, Eq)]
pub struct WalRow {
    pub id: i64,
    pub requested_mode: String,
    pub execute_after: i64,
    pub retry_count: Option<i64>,
    pub retry_after: Option<i64>,
    pub lease: LeaseState,
    pub checkpoint_busy: Option<i64>,
    pub checkpoint_log_frames: Option<i64>,
    pub checkpointed_frames: Option<i64>,
    pub started_at: Option<i64>,
    pub finished_at: Option<i64>,
    pub updated_at: i64,
}

/// A [`WalRow`] as plain values.
pub struct WalRowView {
    pub id: i64,
    pub requested_mode: Seq<char>,
    pub execute_after: i64,
    pub retry_count: Option<i64>,
    pub retry_after: Option<i64>,
    pub lease: LeaseStateView,
    pub checkpoint_busy: Option<i64>,
    pub checkpoint_log_frames: Option<i64>,
    pub checkpointed_frames: Option<i64>,
    pub started_at: Option<i64>,
    pub finished_at: Option<i64>,
    pub updated_at: i64,
}

impl View for WalRow {
    type V = WalRowView;

    open spec fn view(&self) -> WalRowView {
        WalRowView {
            id: self.id,
            requested_mode: self.requested_mode@,
            execute_after: self.execute_after,
            retry_count: self.retry_count,
            retry_after: self.retry_after,
            lease: self.lease@,
            checkpoint_busy: self.checkpoint_busy,
            checkpoint_log_frames: self.checkpoint_log_frames,
            checkpointed_frames: self.checkpointed_frames,
            started_at: self.started_at,
            finished_at: self.finished_at,
            updated_at: self.updated_at,
        }
    }
}

/// The rows of a maintenance table as plain values.
pub open spec fn wal_views(rows: Seq<WalRow>) -> Seq<WalRowView> {
    rows.map_values(|row: WalRow| row@)
}

/// A count that is not set counts as zero.
pub open spec fn count_or_zero(count: Option<i64>) -> i64 {
    match count {
        Some(value) => value,
        None => 0,
    }
}

impl WalRowView {
    /// The row after the expiry sweep at `now`: an abandoned job becomes
    /// retryable, counts one more retry and waits the checkpoint retry delay.
    pub open spec fn swept(self, now: i64, retry_seconds: u64) -> Self {
        if self.lease.is_abandoned(now) {
            WalRowView {
                lease: self.lease.swept(now, QueueStatus::Retryable, requeue_message()),
                retry_count: Some(bumped(count_or_zero(self.retry_count))),
                retry_after: Some(lease_deadline(now as int, retry_seconds as int) as i64),
                finished_at: None,
                updated_at: now,
                ..self
            }
        } else {
            self
        }
    }

    /// Whether the job can be claimed at `now`: pending and due, or
    /// retryable with its retry time come.
    pub open spec fn is_candidate(self, now: i64) -> bool {
        (self.lease.status == QueueStatus::Pending && self.execute_after <= now) || (
        self.lease.status == QueueStatus::Retryable && has_come(self.retry_after, now))
    }

    /// The instant that orders the job among the candidates: its retry time
    /// where it has one, else the time it is due.
    pub open spec fn due_at(self) -> i64 {
        match self.retry_after {
            Some(at) => at,
            None => self.execute_after,
        }
    }

    /// The row after `worker` claimed it at `now`.
    pub open spec fn claimed(self, worker: Seq<char>, now: i64, ttl_seconds: u64) -> Self {
        WalRowView {
            lease: self.lease.claimed(worker, now, ttl_seconds),
            started_at: or_instant(self.started_at, now),
            finished_at: None,
            updated_at: now,
            ..self
        }
    }

    /// The row after its checkpoint ran through: completed, with what the
    /// checkpoint reported and no error.
    pub open spec fn succeeded(self, stats: WalCheckpointStats, now: i64) -> Self {
        WalRowView {
            lease: self.lease.finished(QueueStatus::Completed, None, None, now),
            checkpoint_busy: Some(stats.busy),
            checkpoint_log_frames: Some(stats.log_frames),
            checkpointed_frames: Some(stats.checkpointed_frames),
            finished_at: Some(now),
            updated_at: now,
            ..self
        }
    }

    /// The row after its checkpoint has to be tried again: retryable, one
    /// more retry counted after `previous`, and the retry put off by the
    /// checkpoint retry delay.
    pub open spec fn requeued(
        self,
        previous_retry_count: i64,
        code: Seq<char>,
        message: Seq<char>,
        stats: WalCheckpointStats,
        now: i64,
        retry_seconds: u64,
    ) -> Self {
        WalRowView {
            lease: self.lease.finished(QueueStatus::Retryable, Some(code), Some(message), now),
            retry_count: Some(bumped(previous_retry_count)),
            retry_after: Some(lease_deadline(now as int, retry_seconds as int) as i64),
            checkpoint_busy: Some(stats.busy),
            checkpoint_log_frames: Some(stats.log_frames),
            checkpointed_frames: Some(stats.checkpointed_frames),
            finished_at: None,
            updated_at: now,
            ..self
        }
    }

    /// The row after its checkpoint failed for good.
    pub open spec fn failed(self, code: Seq<char>, message: Seq<char>, now: i64) -> Self {
        WalRowView {
            lease: self.lease.finished(QueueStatus::Failed, Some(code), Some(message), now),
            finished_at: Some(now),
            updated_at: now,
            ..self
        }
    }

    /// Whether the row is work that a claim cycle could pick up at `now`.
    pub open spec fn is_runnable(self, now: i64) -> bool {
        self.is_candidate(now) || self.lease.is_abandoned(now)
    }
}

/// The maintenance table after the expiry sweep at `now`.
pub open spec fn swept_wal_jobs(rows: Seq<WalRowView>, now: i64, retry_seconds: u64) -> Seq<
    WalRowView,
> {
    rows.map_values(|row: WalRowView| row.swept(now, retry_seconds))
}

/// What candidate selection reads of a maintenance table: earliest due
/// first, then by id.
pub open spec fn wal_tickets(rows: Seq<WalRowView>, now: i64) -> Seq<Ticket> {
    rows.map_values(
        |row: WalRowView| Ticket { eligible: row.is_candidate(now), key: row.due_at(), tie: row.id },
    )
}

/// Which rows a finish for job `id` by `worker` reaches.
pub open spec fn wal_finish_flags(rows: Seq<WalRowView>, id: i64, worker: Seq<char>) -> Seq<bool> {
    rows.map_values(|row: WalRowView| row.id == id && row.lease.is_held_by(worker))
}

/// Whether some row of the table is runnable at `now`.
pub open spec fn any_runnable_wal_job(rows: Seq<WalRowView>, now: i64) -> bool {
    exists|i: int| 0 <= i < rows.len() && (#[trigger] rows[i]).is_runnable(now)
}

/// Whether the job can be claimed at `now`.
fn is_candidate_row(row: &WalRow, now: i64) -> (candidate: bool)
    ensures
        candidate == row@.is_candidate(now),
{
    (row.lease.status == QueueStatus::Pending && row.execute_after <= now) || (row.lease.status
        == QueueStatus::Retryable && instant_has_come(row.retry_after, now))
}

/// Whether the maintenance queue holds work that a claim cycle could pick up
/// at `now`.
pub fn has_runnable_wal_maintenance_work(wal_jobs: &Vec<WalRow>, now: i64) -> (runnable: bool)
    ensures
        runnable == any_runnable_wal_job(wal_views(wal_jobs@), now),
{
    let mut i: usize = 0;
    while i < wal_jobs.len()
        invariant
            i <= wal_jobs.len(),
            forall|j: int| 0 <= j < i ==> !(#[trigger] wal_views(wal_jobs@)[j]).is_runnable(now),
        decreases wal_jobs.len() - i,
    {
        let row = &wal_jobs[i];
        if is_candidate_row(row, now) || row.lease.is_abandoned(now) {
            assert(wal_views(wal_jobs@)[i as int].is_runnable(now));
            return true;
        }
        assert(!wal_views(wal_jobs@)[i as int].is_runnable(now));
        i += 1;
    }
    false
}

/// The expiry sweep over the maintenance table.
pub fn sweep_wal_jobs(wal_jobs: &mut Vec<WalRow>, now: i64, retry_seconds: u64)
    ensures
        wal_views(final(wal_jobs)@) == swept_wal_jobs(wal_views(old(wal_jobs)@), now, retry_seconds),
{
    let mut i: usize = 0;
    while i < wal_jobs.len()
        invariant
            i <= wal_jobs.len(),
            wal_jobs.len() == old(wal_jobs).len(),
            forall|j: int|
                0 <= j < i ==> (#[trigger] wal_jobs@[j])@ == old(wal_jobs)@[j]@.swept(
                    now,
                    retry_seconds,
                ),
            forall|j: int| i <= j < wal_jobs.len() ==> #[trigger] wal_jobs@[j] == old(wal_jobs)@[j],
        decreases wal_jobs.len() - i,
    {
        let row = &mut wal_jobs[i];
        proof {
            reveal_strlit("Lease expired and requeued by rust worker claim path");
        }
        if row.lease.sweep(
            now,
            QueueStatus::Retryable,
            "Lease expired and requeued by rust worker claim path",
        ) {
            let counted = match row.retry_count {
                Some(count) => count,
                None => 0,
            };
            row.retry_count = Some(bump(counted));
            row.retry_after = Some(deadline_after(now, retry_seconds));
            row.finished_at = None;
            row.updated_at = now;
        }
        i += 1;
    }
    assert(wal_views(wal_jobs@) =~= swept_wal_jobs(wal_views(old(wal_jobs)@), now, retry_seconds));
}

/// What a claim on the maintenance queue does: it recovers abandoned jobs,
/// picks the job that is due earliest among the pending jobs that are due
/// and the retryable jobs whose retry time has come, and marks it running
/// under a fresh lease. A claimed job that asks for an unknown checkpoint
/// mode stays claimed and is reported as an error.
pub open spec fn wal_claim_effect(
    before: Seq<WalRowView>,
    after: Seq<WalRowView>,
    result: Result<Option<WalMaintenanceRecord>, StoreError>,
    worker: Seq<char>,
    ttl_seconds: u64,
    retry_seconds: u64,
    now: i64,
) -> bool {
    let swept = swept_wal_jobs(before, now, retry_seconds);
    match first_served(wal_tickets(swept, now)) {
        Some(i) => {
            &&& after == swept.update(i, swept[i].claimed(worker, now, ttl_seconds))
            &&& match checkpoint_mode_named(swept[i].requested_mode) {
                Some(mode) => result == Ok::<Option<WalMaintenanceRecord>, StoreError>(
                    Some(
                        WalMaintenanceRecord {
                            id: swept[i].id,
                            requested_mode: mode,
                            retry_count: count_or_zero(swept[i].retry_count),
                        },
                    ),
                ),
                None => result == Err::<Option<WalMaintenanceRecord>, StoreError>(
                    StoreError::UnsupportedCheckpointMode,
                ),
            }
        },
        None => after == swept && result == Ok::<Option<WalMaintenanceRecord>, StoreError>(None),
    }
}

/// Claims the next maintenance job for this worker.
pub fn claim_wal_maintenance_job(wal_jobs: &mut Vec<WalRow>, config: &WorkerConfig, now: i64) -> (result:
    Result<Option<WalMaintenanceRecord>, StoreError>)
    ensures
        wal_claim_effect(
            wal_views(old(wal_jobs)@),
            wal_views(final(wal_jobs)@),
            result,
            config.worker_id@,
            config.job_lock_ttl_seconds,
            config.wal_checkpoint_retry_seconds,
            now,
        ),
{
    sweep_wal_jobs(wal_jobs, now, config.wal_checkpoint_retry_seconds);
    let ghost swept = wal_views(wal_jobs@);
    let mut tickets: Vec<Ticket> = Vec::new();
    let mut i: usize = 0;
    while i < wal_jobs.len()
        invariant
            i <= wal_jobs.len(),
            tickets@.len() == i,
            swept == wal_views(wal_jobs@),
            forall|j: int|
                0 <= j < i ==> #[trigger] tickets@[j] == (Ticket {
                    eligible: swept[j].is_candidate(now),
                    key: swept[j].due_at(),
                    tie: swept[j].id,
                }),
        decreases wal_jobs.len() - i,
    {
        let row = &wal_jobs[i];
        let key = match row.retry_after {
            Some(at) => at,
            None => row.execute_after,
        };
        tickets.push(Ticket { eligible: is_candidate_row(row, now), key, tie: row.id });
        i += 1;
    }
    assert(tickets@ =~= wal_tickets(swept, now));
    let pick = match choose_first(&tickets) {
        Some(pick) => pick,
        None => {
            return Ok(None);
        },
    };
    let row = &mut wal_jobs[pick];
    if !row.lease.try_claim(true, config.worker_id.as_str(), now, config.job_lock_ttl_seconds) {
        return Ok(None);
    }
    if row.started_at.is_none() {
        row.started_at = Some(now);
    }
    row.finished_at = None;
    row.updated_at = now;
    let id = row.id;
    let retry_count = match row.retry_count {
        Some(count) => count,
        None => 0,
    };
    let mode = WalCheckpointMode::parse(row.requested_mode.as_str());
    assert(wal_views(wal_jobs@) =~= swept.update(
        pick as int,
        swept[pick as int].claimed(config.worker_id@, now, config.job_lock_ttl_seconds),
    ));
    match mode {
        Some(requested_mode) => Ok(Some(WalMaintenanceRecord { id, requested_mode, retry_count })),
        None => Err(StoreError::UnsupportedCheckpointMode),
    }
}

/// Builds the flags of the rows that a finish for job `id` reaches.
fn finish_flags(wal_jobs: &Vec<WalRow>, id: i64, worker: &str) -> (flags: Vec<bool>)
    ensures
        flags@ == wal_finish_flags(wal_views(wal_jobs@), id, worker@),
{
    let mut flags: Vec<bool> = Vec::new();
    let mut i: usize = 0;
    while i < wal_jobs.len()
        invariant
            i <= wal_jobs.len(),
            flags@.len() == i,
            forall|j: int|
                0 <= j < i ==> #[trigger] flags@[j] == (wal_jobs@[j].id == id
                    && wal_jobs@[j].lease@.is_held_by(worker@)),
        decreases wal_jobs.len() - i,
    {
        let row = &wal_jobs[i];
        flags.push(row.id == id && row.lease.is_held_by(worker));
        i += 1;
    }
    assert(flags@ =~= wal_finish_flags(wal_views(wal_jobs@), id, worker@));
    flags
}

/// Records a checkpoint that ran through on the job that this worker holds.
pub fn finish_wal_maintenance_success(
    wal_jobs: &mut Vec<WalRow>,
    config: &WorkerConfig,
    job_id: i64,
    stats: WalCheckpointStats,
    now: i64,
) -> (result: Result<(), StoreError>)
    ensures
        ({
            let before = wal_views(old(wal_jobs)@);
            match first_flagged(wal_finish_flags(before, job_id, config.worker_id@)) {
                Some(i) => result is Ok && wal_views(final(wal_jobs)@) == before.update(
                    i,
                    before[i].succeeded(stats, now),
                ),
                None => result == Err::<(), StoreError>(StoreError::FinishRejected) && wal_views(
                    final(wal_jobs)@,
                ) == before,
            }
        }),
{
    let ghost before = wal_views(wal_jobs@);
    let flags = finish_flags(wal_jobs, job_id, config.worker_id.as_str());
    let pick = match find_flagged(&flags) {
        Some(pick) => pick,
        None => {
            return Err(StoreError::FinishRejected);
        },
    };
    let row = &mut wal_jobs[pick];
    if !row.lease.try_finish(config.worker_id.as_str(), QueueStatus::Completed, None, None, now) {
        return Err(StoreError::FinishRejected);
    }
    row.checkpoint_busy = Some(stats.busy);
    row.checkpoint_log_frames = Some(stats.log_frames);
    row.checkpointed_frames = Some(stats.checkpointed_frames);
    row.finished_at = Some(now);
    row.updated_at = now;
    assert(wal_views(wal_jobs@) =~= before.update(
        pick as int,
        before[pick as int].succeeded(stats, now),
    ));
    Ok(())
}

/// Puts the job that this worker holds back for another try after the
/// checkpoint retry delay.
pub fn requeue_wal_maintenance_retry(
    wal_jobs: &mut Vec<WalRow>,
    config: &WorkerConfig,
    job_id: i64,
    previous_retry_count: i64,
    error_code: &str,
    error_message: &str,
    stats: WalCheckpointStats,
    now: i64,
) -> (result: Result<(), StoreError>)
    ensures
        ({
            let before = wal_views(old(wal_jobs)@);
            match first_flagged(wal_finish_flags(before, job_id, config.worker_id@)) {
                Some(i) => result is Ok && wal_views(final(wal_jobs)@) == before.update(
                    i,
                    before[i].requeued(
                        previous_retry_count,
                        error_code@,
                        error_message@,
                        stats,
                        now,
                        config.wal_checkpoint_retry_seconds,
                    ),
                ),
                None => result == Err::<(), StoreError>(StoreError::FinishRejected) && wal_views(
                    final(wal_jobs)@,
                ) == before,
            }
        }),
{
    let ghost before = wal_views(wal_jobs@);
    let flags = finish_flags(wal_jobs, job_id, config.worker_id.as_str());
    let pick = match find_flagged(&flags) {
        Some(pick) => pick,
        None => {
            return Err(StoreError::FinishRejected);
        },
    };
    let row = &mut wal_jobs[pick];
    if !row.lease.try_finish(
        config.worker_id.as_str(),
        QueueStatus::Retryable,
        Some(error_code),
        Some(error_message),
        now,
    ) {
        return Err(StoreError::FinishRejected);
    }
    row.retry_count = Some(bump(previous_retry_count));
    row.retry_after = Some(deadline_after(now, config.wal_checkpoint_retry_seconds));
    row.checkpoint_busy = Some(stats.busy);
    row.checkpoint_log_frames = Some(stats.log_frames);
    row.checkpointed_frames = Some(stats.checkpointed_frames);
    row.finished_at = None;
    row.updated_at = now;
    assert(wal_views(wal_jobs@) =~= before.update(
        pick as int,
        before[pick as int].requeued(
            previous_retry_count,
            error_code@,
            error_message@,
            stats,
            now,
            config.wal_checkpoint_retry_seconds,
        ),
    ));
    Ok(())
}

/// Records a checkpoint that failed for good on the job that this worker
/// holds.
pub fn finish_wal_maintenance_failure(
    wal_jobs: &mut Vec<WalRow>,
    config: &WorkerConfig,
    job_id: i64,
    error_code: &str,
    error_message: &str,
    now: i64,
) -> (result: Result<(), StoreError>)
    ensures
        ({
            let before = wal_views(old(wal_jobs)@);
            match first_flagged(wal_finish_flags(before, job_id, config.worker_id@)) {
                Some(i) => result is Ok && wal_views(final(wal_jobs)@) == before.update(
                    i,
                    before[i].failed(error_code@, error_message@, now),
                ),
                None => result == Err::<(), StoreError>(StoreError::FinishRejected) && wal_views(
                    final(wal_jobs)@,
                ) == before,
            }
        }),
{
    let ghost before = wal_views(wal_jobs@);
    let flags = finish_flags(wal_jobs, job_id, config.worker_id.as_str());
    let pick = match find_flagged(&flags) {
        Some(pick) => pick,
        None => {
            return Err(StoreError::FinishRejected);
        },
    };
    let row = &mut wal_jobs[pick];
    if !row.lease.try_finish(
        config.worker_id.as_str(),
        QueueStatus::Failed,
        Some(error_code),
        Some(error_message),
        now,
    ) {
        return Err(StoreError::FinishRejected);
    }
    row.finished_at = Some(now);
    row.updated_at = now;
    assert(wal_views(wal_jobs@) =~= before.update(
        pick as int,
        before[pick as int].failed(error_code@, error_message@, now),
    ));
    Ok(())
}

/// A claim on the maintenance queue recovers every abandoned job before it
/// selects: in the table that candidates are selected from, no job runs on a
/// lease that is over, and every job that did is retryable, with one more
/// retry counted and the retry put off by the checkpoint retry delay.
pub proof fn lemma_claim_sweeps_wal_jobs_first(
    rows: Seq<WalRowView>,
    now: i64,
    retry_seconds: u64,
    j: int,
)
    requires
        0 <= j < rows.len(),
    ensures
        !swept_wal_jobs(rows, now, retry_seconds)[j].lease.is_abandoned(now),
        rows[j].lease.is_abandoned(now) ==> {
            &&& swept_wal_jobs(rows, now, retry_seconds)[j].lease.status == QueueStatus::Retryable
            &&& swept_wal_jobs(rows, now, retry_seconds)[j].retry_count == Some(
                bumped(count_or_zero(rows[j].retry_count)),
            )
            &&& swept_wal_jobs(rows, now, retry_seconds)[j].retry_after == Some(
                lease_deadline(now as int, retry_seconds as int) as i64,
            )
        },
        !rows[j].lease.is_abandoned(now) ==> swept_wal_jobs(rows, now, retry_seconds)[j]
            == rows[j],
{
}

} // verus!
