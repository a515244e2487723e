//! The queue of thumbnail cleanups: claim, heartbeat and finish.

use crate::config::WorkerConfig;
use crate::db::{
    choose_first, find_flagged, first_flagged, first_served, requeue_message, LeaseState,
    LeaseStateView, QueueStatus, StoreError, Ticket,
};
use crate::text::{borrowed_text, text_equal};
use crate::thumbnail_queue::{thumbnail_views, ThumbnailRow, ThumbnailRowView};
use vstd::prelude::*;

verus! {

/// A thumbnail cleanup job as the store holds it.
#[derive(Clone, Debug, PartialEq, Eq)]
pub struct CleanupRow {
    pub id: i64,
    pub group_key: String,
    pub execute_after: i64,
    pub lease: LeaseState,
    pub finished_at: Option<i64>,
    pub updated_at: i64,
}

/// A [`CleanupRow`] as plain values.
pub struct CleanupRowView {
    pub id: i64,
    pub group_key: Seq<char>,
    pub execute_after: i64,
    pub lease: LeaseStateView,
    pub finished_at: Option<i64>,
    pub updated_at: i64,
}

impl View for CleanupRow {
    type V = CleanupRowView;

    open spec fn view(&self) -> CleanupRowView {
        CleanupRowView {
            id: self.id,
            group_key: self.group_key@,
            execute_after: self.execute_after,
            lease: self.lease@,
            finished_at: self.finished_at,
            updated_at: self.updated_at,
        }
    }
}

/// A claimed cleanup job as the engine receives it.
#[derive(Clone, Debug, PartialEq, Eq)]
pub struct ThumbnailCleanupRecord {
    pub id: i64,
    pub group_key: String,
}

/// The rows of a cleanup table as plain values.
pub open spec fn cleanup_views(rows: Seq<CleanupRow>) -> Seq<CleanupRowView> {
    rows.map_values(|row: CleanupRow| row@)
}

/// Whether the group still has a thumbnail that is pending or running.
pub open spec fn group_is_active(thumbnails: Seq<ThumbnailRowView>, group: Seq<char>) -> bool {
    exists|i: int| 0 <= i < thumbnails.len() && (#[trigger] thumbnails[i]).is_active_in(group)
}

/// Whether the group still has a thumbnail that is pending or running.
pub fn group_has_active_thumbnail(thumbnails: &Vec<ThumbnailRow>, group_key: &str) -> (active: bool)
    ensures
        active == group_is_active(thumbnail_views(thumbnails@), group_key@),
{
    let mut i: usize = 0;
    while i < thumbnails.len()
        invariant
            i <= thumbnails.len(),
            forall|j: int|
                0 <= j < i ==> !(#[trigger] thumbnail_views(thumbnails@)[j]).is_active_in(
                    group_key@,
                ),
        decreases thumbnails.len() - i,
    {
        let row = &thumbnails[i];
        if text_equal(row.group_key.as_str(), group_key) && (row.lease.status
            == QueueStatus::Pending || row.lease.status == QueueStatus::Running) {
            assert(thumbnail_views(thumbnails@)[i as int].is_active_in(group_key@));
            return true;
        }
        assert(!thumbnail_views(thumbnails@)[i as int].is_active_in(group_key@));
        i += 1;
    }
    false
}

impl CleanupRowView {
    /// The row after the expiry sweep at `now`: an abandoned cleanup goes
    /// back to pending and no longer counts as finished.
    pub open spec fn swept(self, now: i64) -> Self {
        if self.lease.is_abandoned(now) {
            CleanupRowView {
                lease: self.lease.swept(now, QueueStatus::Pending, requeue_message()),
                finished_at: None,
                updated_at: now,
                ..self
            }
        } else {
            self
        }
    }

    /// Whether the cleanup can be claimed at `now`: pending, due, and with
    /// no thumbnail of its group still pending or running.
    pub open spec fn is_candidate(self, thumbnails: Seq<ThumbnailRowView>, now: i64) -> bool {
        &&& self.lease.status == QueueStatus::Pending
        &&& self.execute_after <= now
        &&& !group_is_active(thumbnails, self.group_key)
    }

    /// The row after `worker` claimed it at `now`.
    pub open spec fn claimed(self, worker: Seq<char>, now: i64, ttl_seconds: u64) -> Self {
        CleanupRowView {
            lease: self.lease.claimed(worker, now, ttl_seconds),
            finished_at: None,
            updated_at: now,
            ..self
        }
    }

    /// The row after a heartbeat at `now`.
    pub open spec fn refreshed(self, now: i64, ttl_seconds: u64) -> Self {
        CleanupRowView { lease: self.lease.refreshed(now, ttl_seconds), updated_at: now, ..self }
    }

    /// The row after its holder finished it.
    pub open spec fn finished(
        self,
        success: bool,
        code: Option<Seq<char>>,
        message: Option<Seq<char>>,
        now: i64,
    ) -> Self {
        CleanupRowView {
            lease: self.lease.finished(
                if success {
                    QueueStatus::Completed
                } else {
                    QueueStatus::Failed
                },
                code,
                message,
                now,
            ),
            finished_at: Some(now),
            updated_at: now,
            ..self
        }
    }

    /// Whether the row is work that a claim cycle could pick up at `now`.
    pub open spec fn is_runnable(self, now: i64) -> bool {
        (self.lease.status == QueueStatus::Pending && self.execute_after <= now)
            || self.lease.is_abandoned(now)
    }
}

/// The cleanup table after the expiry sweep at `now`.
pub open spec fn swept_cleanups(rows: Seq<CleanupRowView>, now: i64) -> Seq<CleanupRowView> {
    rows.map_values(|row: CleanupRowView| row.swept(now))
}

/// What candidate selection reads of a cleanup table: earliest due first,
/// then by id.
pub open spec fn cleanup_tickets(
    rows: Seq<CleanupRowView>,
    thumbnails: Seq<ThumbnailRowView>,
    now: i64,
) -> Seq<Ticket> {
    rows.map_values(
        |row: CleanupRowView|
            Ticket {
                eligible: row.is_candidate(thumbnails, now),
                key: row.execute_after,
                tie: row.id,
            },
    )
}

/// Which rows a heartbeat for cleanup `id` by `worker` reaches.
pub open spec fn cleanup_heartbeat_flags(
    rows: Seq<CleanupRowView>,
    id: i64,
    worker: Seq<char>,
    now: i64,
) -> Seq<bool> {
    rows.map_values(|row: CleanupRowView| row.id == id && row.lease.is_live_for(worker, now))
}

/// Which rows a finish for cleanup `id` by `worker` reaches.
pub open spec fn cleanup_finish_flags(rows: Seq<CleanupRowView>, id: i64, worker: Seq<char>) -> Seq<
    bool,
> {
    rows.map_values(|row: CleanupRowView| row.id == id && row.lease.is_held_by(worker))
}

/// Whether some row of the table is runnable at `now`.
pub open spec fn any_runnable_cleanup(rows: Seq<CleanupRowView>, now: i64) -> bool {
    exists|i: int| 0 <= i < rows.len() && (#[trigger] rows[i]).is_runnable(now)
}

/// Whether the cleanup queue holds work that a claim cycle could pick up at
/// `now`.
pub fn has_runnable_thumbnail_cleanup_work(cleanups: &Vec<CleanupRow>, now: i64) -> (runnable: bool)
    ensures
        runnable == any_runnable_cleanup(cleanup_views(cleanups@), now),
{
    let mut i: usize = 0;
    while i < cleanups.len()
        invariant
            i <= cleanups.len(),
            forall|j: int| 0 <= j < i ==> !(#[trigger] cleanup_views(cleanups@)[j]).is_runnable(now),
        decreases cleanups.len() - i,
    {
        let row = &cleanups[i];
        if (row.lease.status == QueueStatus::Pending && row.execute_after <= now)
            || row.lease.is_abandoned(now) {
            assert(cleanup_views(cleanups@)[i as int].is_runnable(now));
            return true;
        }
        assert(!cleanup_views(cleanups@)[i as int].is_runnable(now));
        i += 1;
    }
    false
}

/// The expiry sweep over the cleanup table.
pub fn sweep_cleanups(cleanups: &mut Vec<CleanupRow>, now: i64)
    ensures
        cleanup_views(final(cleanups)@) == swept_cleanups(cleanup_views(old(cleanups)@), now),
{
    let mut i: usize = 0;
    while i < cleanups.len()
        invariant
            i <= cleanups.len(),
            cleanups.len() == old(cleanups).len(),
            forall|j: int| 0 <= j < i ==> (#[trigger] cleanups@[j])@ == old(cleanups)@[j]@.swept(now),
            forall|j: int| i <= j < cleanups.len() ==> #[trigger] cleanups@[j] == old(cleanups)@[j],
        decreases cleanups.len() - i,
    {
        let row = &mut cleanups[i];
        proof {
            reveal_strlit("Lease expired and requeued by rust worker claim path");
        }
        if row.lease.sweep(
            now,
            QueueStatus::Pending,
            "Lease expired and requeued by rust worker claim path",
        ) {
            row.finished_at = None;
            row.updated_at = now;
        }
        i += 1;
    }
    assert(cleanup_views(cleanups@) =~= swept_cleanups(cleanup_views(old(cleanups)@), now));
}

/// What a claim on the cleanup queue does: it recovers abandoned
/// cleanups, picks the pending cleanup that is due earliest among those
/// whose group has no thumbnail pending or running, and marks it running
/// under a fresh lease.
pub open spec fn cleanup_claim_effect(
    before: Seq<CleanupRowView>,
    after: Seq<CleanupRowView>,
    claimed: Option<ThumbnailCleanupRecord>,
    thumbnails: Seq<ThumbnailRowView>,
    worker: Seq<char>,
    ttl_seconds: u64,
    now: i64,
) -> bool {
    let swept = swept_cleanups(before, now);
    match first_served(cleanup_tickets(swept, thumbnails, now)) {
        Some(i) => {
            &&& after == swept.update(i, swept[i].claimed(worker, now, ttl_seconds))
            &&& claimed matches Some(record)
            &&& record.id == swept[i].id
            &&& record.group_key@ == swept[i].group_key
        },
        None => after == swept && claimed is None,
    }
}

/// Claims the next cleanup job for this worker.
pub fn claim_thumbnail_cleanup_job(
    cleanups: &mut Vec<CleanupRow>,
    thumbnails: &Vec<ThumbnailRow>,
    config: &WorkerConfig,
    now: i64,
) -> (claimed: Option<ThumbnailCleanupRecord>)
    ensures
        cleanup_claim_effect(
            cleanup_views(old(cleanups)@),
            cleanup_views(final(cleanups)@),
            claimed,
            thumbnail_views(thumbnails@),
            config.worker_id@,
            config.job_lock_ttl_seconds,
            now,
        ),
{
    sweep_cleanups(cleanups, now);
    let ghost swept = cleanup_views(cleanups@);
    let ghost thumbs = thumbnail_views(thumbnails@);
    let mut tickets: Vec<Ticket> = Vec::new();
    let mut i: usize = 0;
    while i < cleanups.len()
        invariant
            i <= cleanups.len(),
            tickets@.len() == i,
            swept == cleanup_views(cleanups@),
            thumbs == thumbnail_views(thumbnails@),
            forall|j: int|
                0 <= j < i ==> #[trigger] tickets@[j] == (Ticket {
                    eligible: swept[j].is_candidate(thumbs, now),
                    key: swept[j].execute_after,
                    tie: swept[j].id,
                }),
        decreases cleanups.len() - i,
    {
        let row = &cleanups[i];
        let eligible = row.lease.status == QueueStatus::Pending && row.execute_after <= now
            && !group_has_active_thumbnail(thumbnails, row.group_key.as_str());
        assert(eligible == swept[i as int].is_candidate(thumbs, now));
        tickets.push(Ticket { eligible, key: row.execute_after, tie: row.id });
        i += 1;
    }
    assert(tickets@ =~= cleanup_tickets(swept, thumbs, now));
    let pick = match choose_first(&tickets) {
        Some(pick) => pick,
        None => {
            return None;
        },
    };
    let row = &mut cleanups[pick];
    if !row.lease.try_claim(
        false,
        config.worker_id.as_str(),
        now,
        config.job_lock_ttl_seconds,
    ) {
        return None;
    }
    row.finished_at = None;
    row.updated_at = now;
    let record = ThumbnailCleanupRecord { id: row.id, group_key: row.group_key.clone() };
    assert(cleanup_views(cleanups@) =~= swept.update(
        pick as int,
        swept[pick as int].claimed(config.worker_id@, now, config.job_lock_ttl_seconds),
    ));
    Some(record)
}

/// Builds the flags of the rows that a heartbeat for cleanup `id` reaches.
fn heartbeat_flags(cleanups: &Vec<CleanupRow>, id: i64, worker: &str, now: i64) -> (flags: Vec<bool>)
    ensures
        flags@ == cleanup_heartbeat_flags(cleanup_views(cleanups@), id, worker@, now),
{
    let mut flags: Vec<bool> = Vec::new();
    let mut i: usize = 0;
    while i < cleanups.len()
        invariant
            i <= cleanups.len(),
            flags@.len() == i,
            forall|j: int|
                0 <= j < i ==> #[trigger] flags@[j] == (cleanups@[j].id == id
                    && cleanups@[j].lease@.is_live_for(worker@, now)),
        decreases cleanups.len() - i,
    {
        let row = &cleanups[i];
        flags.push(row.id == id && row.lease.is_live_for(worker, now));
        i += 1;
    }
    assert(flags@ =~= cleanup_heartbeat_flags(cleanup_views(cleanups@), id, worker@, now));
    flags
}

/// Builds the flags of the rows that a finish for cleanup `id` reaches.
fn finish_flags(cleanups: &Vec<CleanupRow>, id: i64, worker: &str) -> (flags: Vec<bool>)
    ensures
        flags@ == cleanup_finish_flags(cleanup_views(cleanups@), id, worker@),
{
    let mut flags: Vec<bool> = Vec::new();
    let mut i: usize = 0;
    while i < cleanups.len()
        invariant
            i <= cleanups.len(),
            flags@.len() == i,
            forall|j: int|
                0 <= j < i ==> #[trigger] flags@[j] == (cleanups@[j].id == id
                    && cleanups@[j].lease@.is_held_by(worker@)),
        decreases cleanups.len() - i,
    {
        let row = &cleanups[i];
        flags.push(row.id == id && row.lease.is_held_by(worker));
        i += 1;
    }
    assert(flags@ =~= cleanup_finish_flags(cleanup_views(cleanups@), id, worker@));
    flags
}

/// The heartbeat of a running cleanup: renews the lease, provided this
/// worker still holds the cleanup on a live lease.
pub fn refresh_thumbnail_cleanup_lease(
    cleanups: &mut Vec<CleanupRow>,
    config: &WorkerConfig,
    job_id: i64,
    now: i64,
) -> (result: Result<(), StoreError>)
    ensures
        ({
            let before = cleanup_views(old(cleanups)@);
            match first_flagged(cleanup_heartbeat_flags(before, job_id, config.worker_id@, now)) {
                Some(i) => result is Ok && cleanup_views(final(cleanups)@) == before.update(
                    i,
                    before[i].refreshed(now, config.job_lock_ttl_seconds),
                ),
                None => result == Err::<(), StoreError>(StoreError::LeaseUpdateRejected)
                    && cleanup_views(final(cleanups)@) == before,
            }
        }),
{
    let ghost before = cleanup_views(cleanups@);
    let flags = heartbeat_flags(cleanups, job_id, config.worker_id.as_str(), now);
    let pick = match find_flagged(&flags) {
        Some(pick) => pick,
        None => {
            return Err(StoreError::LeaseUpdateRejected);
        },
    };
    let row = &mut cleanups[pick];
    if !row.lease.try_refresh(config.worker_id.as_str(), now, config.job_lock_ttl_seconds) {
        return Err(StoreError::LeaseUpdateRejected);
    }
    row.updated_at = now;
    assert(cleanup_views(cleanups@) =~= before.update(
        pick as int,
        before[pick as int].refreshed(now, config.job_lock_ttl_seconds),
    ));
    Ok(())
}

/// Finishes the cleanup that this worker holds: completed on success, failed
/// otherwise, with the given error code and message.
pub fn finish_thumbnail_cleanup_job(
    cleanups: &mut Vec<CleanupRow>,
    config: &WorkerConfig,
    job_id: i64,
    success: bool,
    error_code: Option<&str>,
    error_message: Option<&str>,
    now: i64,
) -> (result: Result<(), StoreError>)
    ensures
        ({
            let before = cleanup_views(old(cleanups)@);
            match first_flagged(cleanup_finish_flags(before, job_id, config.worker_id@)) {
                Some(i) => result is Ok && cleanup_views(final(cleanups)@) == before.update(
                    i,
                    before[i].finished(
                        success,
                        borrowed_text(error_code),
                        borrowed_text(error_message),
                        now,
                    ),
                ),
                None => result == Err::<(), StoreError>(StoreError::FinishRejected)
                    && cleanup_views(final(cleanups)@) == before,
            }
        }),
{
    let ghost before = cleanup_views(cleanups@);
    let flags = finish_flags(cleanups, job_id, config.worker_id.as_str());
    let pick = match find_flagged(&flags) {
        Some(pick) => pick,
        None => {
            return Err(StoreError::FinishRejected);
        },
    };
    let row = &mut cleanups[pick];
    let outcome = if success {
        QueueStatus::Completed
    } else {
        QueueStatus::Failed
    };
    if !row.lease.try_finish(config.worker_id.as_str(), outcome, error_code, error_message, now) {
        return Err(StoreError::FinishRejected);
    }
    row.finished_at = Some(now);
    row.updated_at = now;
    assert(cleanup_views(cleanups@) =~= before.update(
        pick as int,
        before[pick as int].finished(
            success,
            borrowed_text(error_code),
            borrowed_text(error_message),
            now,
        ),
    ));
    Ok(())
}

/// A claim on the cleanup queue recovers every abandoned cleanup before it
/// selects: in the table that candidates are selected from, no cleanup runs
/// on a lease that is over, and every cleanup that did is pending again.
pub proof fn lemma_claim_sweeps_cleanups_first(rows: Seq<CleanupRowView>, now: i64, j: int)
    requires
        0 <= j < rows.len(),
    ensures
        !swept_cleanups(rows, now)[j].lease.is_abandoned(now),
        rows[j].lease.is_abandoned(now) ==> swept_cleanups(rows, now)[j].lease.status
            == QueueStatus::Pending,
        !rows[j].lease.is_abandoned(now) ==> swept_cleanups(rows, now)[j] == rows[j],
{
}

/// A cleanup is claimed only for a group without a thumbnail that is pending
/// or running.
pub proof fn lemma_claimed_cleanup_has_idle_group(
    before: Seq<CleanupRowView>,
    after: Seq<CleanupRowView>,
    claimed: Option<ThumbnailCleanupRecord>,
    thumbnails: Seq<ThumbnailRowView>,
    worker: Seq<char>,
    ttl_seconds: u64,
    now: i64,
)
    requires
        cleanup_claim_effect(before, after, claimed, thumbnails, worker, ttl_seconds, now),
    ensures
        claimed matches Some(record) ==> !group_is_active(thumbnails, record.group_key@),
{
    let swept = swept_cleanups(before, now);
    let tickets = cleanup_tickets(swept, thumbnails, now);
    if claimed is Some {
        let i = first_served(tickets)->0;
        assert(crate::db::is_first_served(tickets, i));
        assert(tickets[i].eligible);
    }
}

} // verus!
