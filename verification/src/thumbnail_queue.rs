//! The queue of thumbnail tasks: claim, heartbeat, finish, and the removal
//! of terminal rows.

use crate::backoff::{calculate_retry_delay_seconds, retry_delay};
use crate::config::WorkerConfig;
use crate::db::{
    choose_first, deadline_after, file_id_flags, file_views, find_file, find_flagged, find_root,
    first_flagged, first_served, is_blank, lease_deadline, lease_expired_code, or_instant,
    requeue_message, root_id_flags, FileRow, FileRowView, LeaseState, LeaseStateView,
    LibraryRootRow, QueueStatus, StoreError, Ticket,
};
use crate::text::{text_equal, text_view};
use vstd::prelude::*;

verus! {

/// A thumbnail task as the store holds it.
#[derive(Clone, Debug, PartialEq, Eq)]
pub struct ThumbnailRow {
    pub id: i64,
    pub thumb_key: String,
    pub group_key: String,
    pub file_id: i64,
    pub media_type: String,
    pub format: String,
    pub max_dimension: i64,
    pub source_size_bytes: i64,
    pub source_mtime_ns: i64,
    pub output_relpath: Option<String>,
    pub lease: LeaseState,
    pub retry_after: Option<i64>,
    pub error_count: Option<i64>,
    pub width: Option<i64>,
    pub height: Option<i64>,
    pub bytes_size: Option<i64>,
    pub created_at: i64,
    pub started_at: Option<i64>,
    pub finished_at: Option<i64>,
    pub updated_at: i64,
}

/// A [`ThumbnailRow`] as plain values.
pub struct ThumbnailRowView {
    pub id: i64,
    pub thumb_key: Seq<char>,
    pub group_key: Seq<char>,
    pub file_id: i64,
    pub media_type: Seq<char>,
    pub format: Seq<char>,
    pub max_dimension: i64,
    pub source_size_bytes: i64,
    pub source_mtime_ns: i64,
    pub output_relpath: Option<Seq<char>>,
    pub lease: LeaseStateView,
    pub retry_after: Option<i64>,
    pub error_count: Option<i64>,
    pub width: Option<i64>,
    pub height: Option<i64>,
    pub bytes_size: Option<i64>,
    pub created_at: i64,
    pub started_at: Option<i64>,
    pub finished_at: Option<i64>,
    pub updated_at: i64,
}

impl View for ThumbnailRow {
    type V = ThumbnailRowView;

    open spec fn view(&self) -> ThumbnailRowView {
        ThumbnailRowView {
            id: self.id,
            thumb_key: self.thumb_key@,
            group_key: self.group_key@,
            file_id: self.file_id,
            media_type: self.media_type@,
            format: self.format@,
            max_dimension: self.max_dimension,
            source_size_bytes: self.source_size_bytes,
            source_mtime_ns: self.source_mtime_ns,
            output_relpath: text_view(self.output_relpath),
            lease: self.lease@,
            retry_after: self.retry_after,
            error_count: self.error_count,
            width: self.width,
            height: self.height,
            bytes_size: self.bytes_size,
            created_at: self.created_at,
            started_at: self.started_at,
            finished_at: self.finished_at,
            updated_at: self.updated_at,
        }
    }
}

/// A claimed thumbnail task as the engine receives it.
#[derive(Clone, Debug, PartialEq, Eq)]
pub struct ThumbnailTaskRecord {
    pub id: i64,
    pub thumb_key: String,
    pub file_id: i64,
    pub relative_path: String,
    pub root_path: String,
    pub media_type: String,
    pub format: String,
    pub max_dimension: i64,
    pub source_size_bytes: i64,
    pub source_mtime_ns: i64,
    pub output_relpath: String,
    pub error_count: i64,
}

/// The rows of a thumbnail table as plain values.
pub open spec fn thumbnail_views(rows: Seq<ThumbnailRow>) -> Seq<ThumbnailRowView> {
    rows.map_values(|row: ThumbnailRow| row@)
}

/// An instant that is not set or has come.
pub open spec fn has_come(instant: Option<i64>, now: i64) -> bool {
    match instant {
        Some(at) => at <= now,
        None => true,
    }
}

/// Whether an optional instant is not set or has come.
pub fn instant_has_come(instant: Option<i64>, now: i64) -> (come: bool)
    ensures
        come == has_come(instant, now),
{
    match instant {
        Some(at) => at <= now,
        None => true,
    }
}

/// The error count that a failure is scheduled by: a count below zero
/// schedules like the largest count.
pub open spec fn schedule_count(error_count: i64) -> int {
    if error_count < 0 {
        u64::MAX as int
    } else {
        error_count as int
    }
}

/// One more than `count`, cut at the largest count.
pub open spec fn bumped(count: i64) -> i64 {
    if count == i64::MAX {
        count
    } else {
        (count + 1) as i64
    }
}

/// One more than `count`, cut at the largest count.
pub fn bump(count: i64) -> (next: i64)
    ensures
        next == bumped(count),
{
    if count == i64::MAX {
        count
    } else {
        count + 1
    }
}

impl ThumbnailRowView {
    /// The row after the expiry sweep at `now`: an abandoned task goes back
    /// to pending.
    pub open spec fn swept(self, now: i64) -> Self {
        if self.lease.is_abandoned(now) {
            ThumbnailRowView {
                lease: self.lease.swept(now, QueueStatus::Pending, requeue_message()),
                updated_at: now,
                ..self
            }
        } else {
            self
        }
    }

    /// Running a render of `media` on a lease that is still live at `now`:
    /// what the concurrency caps count.
    pub open spec fn occupies_slot(self, media: Seq<char>, now: i64) -> bool {
        &&& self.lease.status == QueueStatus::Running
        &&& self.media_type == media
        &&& self.lease.lease_expires_at matches Some(deadline)
        &&& deadline > now
    }

    /// Whether the row can be claimed at `now`, given how many slots of each
    /// media type are free.
    pub open spec fn is_candidate(self, now: i64, image_free: bool, video_free: bool) -> bool {
        &&& self.lease.status == QueueStatus::Pending
        &&& has_come(self.retry_after, now)
        &&& (self.media_type == "image"@ && image_free) || (self.media_type == "video"@
            && video_free)
    }

    /// The row after `worker` claimed it at `now`.
    pub open spec fn claimed(self, worker: Seq<char>, now: i64, ttl_seconds: u64) -> Self {
        ThumbnailRowView {
            lease: self.lease.claimed(worker, now, ttl_seconds),
            started_at: or_instant(self.started_at, now),
            updated_at: now,
            ..self
        }
    }

    /// The row after a heartbeat at `now`.
    pub open spec fn refreshed(self, now: i64, ttl_seconds: u64) -> Self {
        ThumbnailRowView { lease: self.lease.refreshed(now, ttl_seconds), updated_at: now, ..self }
    }

    /// The row after its render succeeded: ready, with the rendered size and
    /// no trace of earlier errors.
    pub open spec fn succeeded(self, width: i64, height: i64, bytes_size: i64, now: i64) -> Self {
        ThumbnailRowView {
            lease: self.lease.finished(QueueStatus::Ready, None, None, now),
            width: Some(width),
            height: Some(height),
            bytes_size: Some(bytes_size),
            error_count: Some(0),
            retry_after: None,
            finished_at: Some(now),
            updated_at: now,
            ..self
        }
    }

    /// The row after its render failed for the time after `previous` earlier
    /// failures: failed, one more error counted, and the retry put off by the
    /// backoff schedule.
    pub open spec fn failed(
        self,
        previous_error_count: i64,
        code: Seq<char>,
        message: Seq<char>,
        now: i64,
        retry_base_seconds: u64,
        retry_max_seconds: u64,
    ) -> Self {
        let next = bumped(previous_error_count);
        ThumbnailRowView {
            lease: self.lease.finished(QueueStatus::Failed, Some(code), Some(message), now),
            error_count: Some(next),
            retry_after: Some(
                lease_deadline(
                    now as int,
                    retry_delay(
                        retry_base_seconds as int,
                        retry_max_seconds as int,
                        schedule_count(next),
                    ),
                ) as i64,
            ),
            finished_at: Some(now),
            updated_at: now,
            ..self
        }
    }

    /// Whether the row is work that a claim cycle could pick up at `now`.
    pub open spec fn is_runnable(self, now: i64) -> bool {
        (self.lease.status == QueueStatus::Pending && has_come(self.retry_after, now))
            || self.lease.is_abandoned(now)
    }

    /// Whether the row belongs to `group` and is terminal: ready or failed.
    pub open spec fn is_terminal_in(self, group: Seq<char>) -> bool {
        self.group_key == group && (self.lease.status == QueueStatus::Ready || self.lease.status
            == QueueStatus::Failed)
    }

    /// Whether the row belongs to `group` and is still to be rendered:
    /// pending or running.
    pub open spec fn is_active_in(self, group: Seq<char>) -> bool {
        self.group_key == group && (self.lease.status == QueueStatus::Pending || self.lease.status
            == QueueStatus::Running)
    }
}

/// The thumbnail table after the expiry sweep at `now`.
pub open spec fn swept_thumbnails(rows: Seq<ThumbnailRowView>, now: i64) -> Seq<ThumbnailRowView> {
    rows.map_values(|row: ThumbnailRowView| row.swept(now))
}

/// How many rows run a render of `media` on a live lease.
pub open spec fn occupied_slots(rows: Seq<ThumbnailRowView>, media: Seq<char>, now: i64) -> nat
    decreases rows.len(),
{
    if rows.len() == 0 {
        0
    } else {
        occupied_slots(rows.drop_last(), media, now) + if rows.last().occupies_slot(media, now) {
            1nat
        } else {
            0nat
        }
    }
}

/// What candidate selection reads of a thumbnail table: oldest first, then by
/// id.
pub open spec fn thumbnail_tickets(
    rows: Seq<ThumbnailRowView>,
    now: i64,
    image_free: bool,
    video_free: bool,
) -> Seq<Ticket> {
    rows.map_values(
        |row: ThumbnailRowView|
            Ticket {
                eligible: row.is_candidate(now, image_free, video_free),
                key: row.created_at,
                tie: row.id,
            },
    )
}

/// Which rows a heartbeat for task `id` by `worker` reaches.
pub open spec fn thumbnail_heartbeat_flags(
    rows: Seq<ThumbnailRowView>,
    id: i64,
    worker: Seq<char>,
    now: i64,
) -> Seq<bool> {
    rows.map_values(|row: ThumbnailRowView| row.id == id && row.lease.is_live_for(worker, now))
}

/// Which rows a finish for task `id` by `worker` reaches.
pub open spec fn thumbnail_finish_flags(rows: Seq<ThumbnailRowView>, id: i64, worker: Seq<char>) -> Seq<
    bool,
> {
    rows.map_values(|row: ThumbnailRowView| row.id == id && row.lease.is_held_by(worker))
}

/// Whether some row of the table is runnable at `now`.
pub open spec fn any_runnable_thumbnail(rows: Seq<ThumbnailRowView>, now: i64) -> bool {
    exists|i: int| 0 <= i < rows.len() && (#[trigger] rows[i]).is_runnable(now)
}

/// Whether the thumbnail queue holds work that a claim cycle could pick up
/// at `now`.
pub fn has_runnable_thumbnail_work(thumbnails: &Vec<ThumbnailRow>, now: i64) -> (runnable: bool)
    ensures
        runnable == any_runnable_thumbnail(thumbnail_views(thumbnails@), now),
{
    let mut i: usize = 0;
    while i < thumbnails.len()
        invariant
            i <= thumbnails.len(),
            forall|j: int|
                0 <= j < i ==> !(#[trigger] thumbnail_views(thumbnails@)[j]).is_runnable(now),
        decreases thumbnails.len() - i,
    {
        let row = &thumbnails[i];
        if (row.lease.status == QueueStatus::Pending && instant_has_come(row.retry_after, now))
            || row.lease.is_abandoned(now) {
            assert(thumbnail_views(thumbnails@)[i as int].is_runnable(now));
            return true;
        }
        assert(!thumbnail_views(thumbnails@)[i as int].is_runnable(now));
        i += 1;
    }
    false
}

/// The expiry sweep over the thumbnail table.
pub fn sweep_thumbnails(thumbnails: &mut Vec<ThumbnailRow>, now: i64)
    ensures
        thumbnail_views(final(thumbnails)@) == swept_thumbnails(
            thumbnail_views(old(thumbnails)@),
            now,
        ),
{
    let mut i: usize = 0;
    while i < thumbnails.len()
        invariant
            i <= thumbnails.len(),
            thumbnails.len() == old(thumbnails).len(),
            forall|j: int|
                0 <= j < i ==> (#[trigger] thumbnails@[j])@ == old(thumbnails)@[j]@.swept(now),
            forall|j: int| i <= j < thumbnails.len() ==> #[trigger] thumbnails@[j] == old(
                thumbnails,
            )@[j],
        decreases thumbnails.len() - i,
    {
        let row = &mut thumbnails[i];
        proof {
            reveal_strlit("Lease expired and requeued by rust worker claim path");
        }
        if row.lease.sweep(
            now,
            QueueStatus::Pending,
            "Lease expired and requeued by rust worker claim path",
        ) {
            row.updated_at = now;
        }
        i += 1;
    }
    assert(thumbnail_views(thumbnails@) =~= swept_thumbnails(
        thumbnail_views(old(thumbnails)@),
        now,
    ));
}

/// Counts the rows that run a render of `media` on a live lease.
pub fn count_occupied_slots(thumbnails: &Vec<ThumbnailRow>, media: &str, now: i64) -> (count: usize)
    ensures
        count == occupied_slots(thumbnail_views(thumbnails@), media@, now),
{
    let ghost rows = thumbnail_views(thumbnails@);
    let mut count: usize = 0;
    let mut i: usize = 0;
    assert(rows.take(0) =~= Seq::<ThumbnailRowView>::empty());
    while i < thumbnails.len()
        invariant
            i <= thumbnails.len(),
            rows == thumbnail_views(thumbnails@),
            count <= i,
            count == occupied_slots(rows.take(i as int), media@, now),
        decreases thumbnails.len() - i,
    {
        let row = &thumbnails[i];
        let live = match row.lease.lease_expires_at {
            Some(deadline) => deadline > now,
            None => false,
        };
        proof {
            assert(rows.take(i + 1).drop_last() =~= rows.take(i as int));
            assert(rows.take(i + 1).last() == rows[i as int]);
        }
        if row.lease.status == QueueStatus::Running && text_equal(row.media_type.as_str(), media)
            && live {
            count += 1;
        }
        i += 1;
    }
    assert(rows.take(rows.len() as int) =~= rows);
    count
}

/// The task that the engine receives for a claimed row, given the file it
/// renders and the root the file lies under.
pub open spec fn is_record_of(
    record: ThumbnailTaskRecord,
    row: ThumbnailRowView,
    file: FileRowView,
    root: LibraryRootRow,
) -> bool {
    &&& record.id == row.id
    &&& record.thumb_key@ == row.thumb_key
    &&& record.file_id == row.file_id
    &&& record.relative_path@ == file.relative_path
    &&& record.root_path@ == root.root_path@
    &&& record.media_type@ == row.media_type
    &&& record.format@ == row.format
    &&& record.max_dimension == row.max_dimension
    &&& record.source_size_bytes == row.source_size_bytes
    &&& record.source_mtime_ns == row.source_mtime_ns
    &&& record.output_relpath@ == match row.output_relpath {
        Some(path) => path,
        None => Seq::<char>::empty(),
    }
    &&& record.error_count == match row.error_count {
        Some(count) => count,
        None => 0,
    }
}

/// What a claim on the thumbnail queue does: it recovers abandoned tasks,
/// picks the oldest pending task whose retry time has come and whose media
/// type has a free slot, and marks it running under a fresh lease. The task
/// is handed out with the path of the file it renders; a task whose file or
/// library root is gone stays claimed and nothing is handed out.
pub open spec fn thumbnail_claim_effect(
    before: Seq<ThumbnailRowView>,
    after: Seq<ThumbnailRowView>,
    claimed: Option<ThumbnailTaskRecord>,
    files: Seq<FileRowView>,
    roots: Seq<LibraryRootRow>,
    worker: Seq<char>,
    ttl_seconds: u64,
    image_slots: usize,
    video_slots: usize,
    now: i64,
) -> bool {
    let swept = swept_thumbnails(before, now);
    let image_free = occupied_slots(swept, "image"@, now) < image_slots;
    let video_free = occupied_slots(swept, "video"@, now) < video_slots;
    match first_served(thumbnail_tickets(swept, now, image_free, video_free)) {
        Some(i) => {
            &&& after == swept.update(i, swept[i].claimed(worker, now, ttl_seconds))
            &&& match first_flagged(file_id_flags(files, swept[i].file_id)) {
                Some(f) => match first_flagged(root_id_flags(roots, files[f].library_id)) {
                    Some(r) => claimed matches Some(record) && is_record_of(
                        record,
                        swept[i],
                        files[f],
                        roots[r],
                    ),
                    None => claimed is None,
                },
                None => claimed is None,
            }
        },
        None => after == swept && claimed is None,
    }
}

/// Claims the next thumbnail task for this worker.
pub fn claim_thumbnail_task(
    thumbnails: &mut Vec<ThumbnailRow>,
    files: &Vec<FileRow>,
    roots: &Vec<LibraryRootRow>,
    config: &WorkerConfig,
    now: i64,
) -> (claimed: Option<ThumbnailTaskRecord>)
    ensures
        thumbnail_claim_effect(
            thumbnail_views(old(thumbnails)@),
            thumbnail_views(final(thumbnails)@),
            claimed,
            file_views(files@),
            roots@,
            config.worker_id@,
            config.job_lock_ttl_seconds,
            config.thumbnail_image_concurrency,
            config.thumbnail_video_concurrency,
            now,
        ),
{
    sweep_thumbnails(thumbnails, now);
    let ghost swept = thumbnail_views(thumbnails@);
    proof {
        reveal_strlit("image");
        reveal_strlit("video");
    }
    let image_free = count_occupied_slots(thumbnails, "image", now)
        < config.thumbnail_image_concurrency;
    let video_free = count_occupied_slots(thumbnails, "video", now)
        < config.thumbnail_video_concurrency;
    let mut tickets: Vec<Ticket> = Vec::new();
    let mut i: usize = 0;
    while i < thumbnails.len()
        invariant
            i <= thumbnails.len(),
            tickets@.len() == i,
            swept == thumbnail_views(thumbnails@),
            forall|j: int|
                0 <= j < i ==> #[trigger] tickets@[j] == (Ticket {
                    eligible: swept[j].is_candidate(now, image_free, video_free),
                    key: swept[j].created_at,
                    tie: swept[j].id,
                }),
        decreases thumbnails.len() - i,
    {
        let row = &thumbnails[i];
        let eligible = row.lease.status == QueueStatus::Pending && instant_has_come(
            row.retry_after,
            now,
        ) && ((text_equal(row.media_type.as_str(), "image") && image_free) || (text_equal(
            row.media_type.as_str(),
            "video",
        ) && video_free));
        assert(eligible == swept[i as int].is_candidate(now, image_free, video_free));
        tickets.push(Ticket { eligible, key: row.created_at, tie: row.id });
        i += 1;
    }
    assert(tickets@ =~= thumbnail_tickets(swept, now, image_free, video_free));
    let pick = match choose_first(&tickets) {
        Some(pick) => pick,
        None => {
            return None;
        },
    };
    let row = &mut thumbnails[pick];
    if !row.lease.try_claim(
        false,
        config.worker_id.as_str(),
        now,
        config.job_lock_ttl_seconds,
    ) {
        return None;
    }
    if row.started_at.is_none() {
        row.started_at = Some(now);
    }
    row.updated_at = now;
    let id = row.id;
    let thumb_key = row.thumb_key.clone();
    let file_id = row.file_id;
    let media_type = row.media_type.clone();
    let format = row.format.clone();
    let max_dimension = row.max_dimension;
    let source_size_bytes = row.source_size_bytes;
    let source_mtime_ns = row.source_mtime_ns;
    let output_relpath = match &row.output_relpath {
        Some(path) => path.clone(),
        None => String::new(),
    };
    let error_count = match row.error_count {
        Some(count) => count,
        None => 0,
    };
    assert(thumbnail_views(thumbnails@) =~= swept.update(
        pick as int,
        swept[pick as int].claimed(config.worker_id@, now, config.job_lock_ttl_seconds),
    ));
    let file = match find_file(files, file_id) {
        Some(f) => &files[f],
        None => {
            return None;
        },
    };
    let root = match find_root(roots, file.library_id) {
        Some(r) => &roots[r],
        None => {
            return None;
        },
    };
    Some(
        ThumbnailTaskRecord {
            id,
            thumb_key,
            file_id,
            relative_path: file.relative_path.clone(),
            root_path: root.root_path.clone(),
            media_type,
            format,
            max_dimension,
            source_size_bytes,
            source_mtime_ns,
            output_relpath,
            error_count,
        },
    )
}

/// Builds the flags of the rows that a heartbeat for task `id` reaches.
fn heartbeat_flags(thumbnails: &Vec<ThumbnailRow>, id: i64, worker: &str, now: i64) -> (flags: Vec<
    bool,
>)
    ensures
        flags@ == thumbnail_heartbeat_flags(thumbnail_views(thumbnails@), id, worker@, now),
{
    let mut flags: Vec<bool> = Vec::new();
    let mut i: usize = 0;
    while i < thumbnails.len()
        invariant
            i <= thumbnails.len(),
            flags@.len() == i,
            forall|j: int|
                0 <= j < i ==> #[trigger] flags@[j] == (thumbnails@[j].id == id
                    && thumbnails@[j].lease@.is_live_for(worker@, now)),
        decreases thumbnails.len() - i,
    {
        let row = &thumbnails[i];
        flags.push(row.id == id && row.lease.is_live_for(worker, now));
        i += 1;
    }
    assert(flags@ =~= thumbnail_heartbeat_flags(thumbnail_views(thumbnails@), id, worker@, now));
    flags
}

/// Builds the flags of the rows that a finish for task `id` reaches.
fn finish_flags(thumbnails: &Vec<ThumbnailRow>, id: i64, worker: &str) -> (flags: Vec<bool>)
    ensures
        flags@ == thumbnail_finish_flags(thumbnail_views(thumbnails@), id, worker@),
{
    let mut flags: Vec<bool> = Vec::new();
    let mut i: usize = 0;
    while i < thumbnails.len()
        invariant
            i <= thumbnails.len(),
            flags@.len() == i,
            forall|j: int|
                0 <= j < i ==> #[trigger] flags@[j] == (thumbnails@[j].id == id
                    && thumbnails@[j].lease@.is_held_by(worker@)),
        decreases thumbnails.len() - i,
    {
        let row = &thumbnails[i];
        flags.push(row.id == id && row.lease.is_held_by(worker));
        i += 1;
    }
    assert(flags@ =~= thumbnail_finish_flags(thumbnail_views(thumbnails@), id, worker@));
    flags
}

/// The heartbeat of a running thumbnail task: renews the lease, provided
/// this worker still holds the task on a live lease.
pub fn refresh_thumbnail_lease(
    thumbnails: &mut Vec<ThumbnailRow>,
    config: &WorkerConfig,
    task_id: i64,
    now: i64,
) -> (result: Result<(), StoreError>)
    ensures
        ({
            let before = thumbnail_views(old(thumbnails)@);
            match first_flagged(
                thumbnail_heartbeat_flags(before, task_id, config.worker_id@, now),
            ) {
                Some(i) => result is Ok && thumbnail_views(final(thumbnails)@) == before.update(
                    i,
                    before[i].refreshed(now, config.job_lock_ttl_seconds),
                ),
                None => result == Err::<(), StoreError>(StoreError::LeaseUpdateRejected)
                    && thumbnail_views(final(thumbnails)@) == before,
            }
        }),
{
    let ghost before = thumbnail_views(thumbnails@);
    let flags = heartbeat_flags(thumbnails, task_id, config.worker_id.as_str(), now);
    let pick = match find_flagged(&flags) {
        Some(pick) => pick,
        None => {
            return Err(StoreError::LeaseUpdateRejected);
        },
    };
    let row = &mut thumbnails[pick];
    if !row.lease.try_refresh(config.worker_id.as_str(), now, config.job_lock_ttl_seconds) {
        return Err(StoreError::LeaseUpdateRejected);
    }
    row.updated_at = now;
    assert(thumbnail_views(thumbnails@) =~= before.update(
        pick as int,
        before[pick as int].refreshed(now, config.job_lock_ttl_seconds),
    ));
    Ok(())
}

/// Records a finished render on the task that this worker holds.
pub fn finish_thumbnail_success(
    thumbnails: &mut Vec<ThumbnailRow>,
    config: &WorkerConfig,
    task_id: i64,
    width: i64,
    height: i64,
    bytes_size: i64,
    now: i64,
) -> (result: Result<(), StoreError>)
    ensures
        ({
            let before = thumbnail_views(old(thumbnails)@);
            match first_flagged(thumbnail_finish_flags(before, task_id, config.worker_id@)) {
                Some(i) => result is Ok && thumbnail_views(final(thumbnails)@) == before.update(
                    i,
                    before[i].succeeded(width, height, bytes_size, now),
                ),
                None => result == Err::<(), StoreError>(StoreError::FinishRejected)
                    && thumbnail_views(final(thumbnails)@) == before,
            }
        }),
{
    let ghost before = thumbnail_views(thumbnails@);
    let flags = finish_flags(thumbnails, task_id, config.worker_id.as_str());
    let pick = match find_flagged(&flags) {
        Some(pick) => pick,
        None => {
            return Err(StoreError::FinishRejected);
        },
    };
    let row = &mut thumbnails[pick];
    if !row.lease.try_finish(config.worker_id.as_str(), QueueStatus::Ready, None, None, now) {
        return Err(StoreError::FinishRejected);
    }
    row.width = Some(width);
    row.height = Some(height);
    row.bytes_size = Some(bytes_size);
    row.error_count = Some(0);
    row.retry_after = None;
    row.finished_at = Some(now);
    row.updated_at = now;
    assert(thumbnail_views(thumbnails@) =~= before.update(
        pick as int,
        before[pick as int].succeeded(width, height, bytes_size, now),
    ));
    Ok(())
}

/// Records a failed render on the task that this worker holds and puts the
/// retry off by the backoff schedule.
pub fn finish_thumbnail_failure(
    thumbnails: &mut Vec<ThumbnailRow>,
    config: &WorkerConfig,
    task_id: i64,
    previous_error_count: i64,
    error_code: &str,
    error_message: &str,
    now: i64,
) -> (result: Result<(), StoreError>)
    ensures
        ({
            let before = thumbnail_views(old(thumbnails)@);
            match first_flagged(thumbnail_finish_flags(before, task_id, config.worker_id@)) {
                Some(i) => result is Ok && thumbnail_views(final(thumbnails)@) == before.update(
                    i,
                    before[i].failed(
                        previous_error_count,
                        error_code@,
                        error_message@,
                        now,
                        config.thumbnail_retry_base_seconds,
                        config.thumbnail_retry_max_seconds,
                    ),
                ),
                None => result == Err::<(), StoreError>(StoreError::FinishRejected)
                    && thumbnail_views(final(thumbnails)@) == before,
            }
        }),
{
    let ghost before = thumbnail_views(thumbnails@);
    let next_error_count = bump(previous_error_count);
    let scheduled_by: u64 = if next_error_count < 0 {
        u64::MAX
    } else {
        next_error_count as u64
    };
    let retry_seconds = calculate_retry_delay_seconds(
        config.thumbnail_retry_base_seconds,
        config.thumbnail_retry_max_seconds,
        scheduled_by,
    );
    let flags = finish_flags(thumbnails, task_id, config.worker_id.as_str());
    let pick = match find_flagged(&flags) {
        Some(pick) => pick,
        None => {
            return Err(StoreError::FinishRejected);
        },
    };
    let row = &mut thumbnails[pick];
    if !row.lease.try_finish(
        config.worker_id.as_str(),
        QueueStatus::Failed,
        Some(error_code),
        Some(error_message),
        now,
    ) {
        return Err(StoreError::FinishRejected);
    }
    row.error_count = Some(next_error_count);
    row.retry_after = Some(deadline_after(now, retry_seconds));
    row.finished_at = Some(now);
    row.updated_at = now;
    assert(thumbnail_views(thumbnails@) =~= before.update(
        pick as int,
        before[pick as int].failed(
            previous_error_count,
            error_code@,
            error_message@,
            now,
            config.thumbnail_retry_base_seconds,
            config.thumbnail_retry_max_seconds,
        ),
    ));
    Ok(())
}

/// The predicate "terminal row of `group`".
pub open spec fn terminal_in(group: Seq<char>) -> spec_fn(ThumbnailRowView) -> bool {
    |row: ThumbnailRowView| row.is_terminal_in(group)
}

/// The predicate "anything but a terminal row of `group`".
pub open spec fn not_terminal_in(group: Seq<char>) -> spec_fn(ThumbnailRowView) -> bool {
    |row: ThumbnailRowView| !row.is_terminal_in(group)
}

/// The id and the output path of a row; the empty path where none is set.
pub open spec fn output_of(row: ThumbnailRowView) -> (i64, Seq<char>) {
    (
        row.id,
        match row.output_relpath {
            Some(path) => path,
            None => Seq::<char>::empty(),
        },
    )
}

/// The ids and output paths of the terminal rows of `group`, in the order of
/// the table.
pub open spec fn group_outputs(rows: Seq<ThumbnailRowView>, group: Seq<char>) -> Seq<
    (i64, Seq<char>),
> {
    rows.filter(terminal_in(group)).map_values(|row: ThumbnailRowView| output_of(row))
}

/// The listed outputs as plain values.
pub open spec fn output_views(outputs: Seq<(i64, String)>) -> Seq<(i64, Seq<char>)> {
    outputs.map_values(|output: (i64, String)| (output.0, output.1@))
}

/// Whether the rows stand in ascending order of their ids.
pub open spec fn in_id_order(rows: Seq<ThumbnailRowView>) -> bool {
    forall|i: int, j: int| 0 <= i < j < rows.len() ==> rows[i].id <= rows[j].id
}

/// The outputs of a group are listed in the order of the table: where the
/// table stands in ascending order of ids, so does the list.
pub proof fn lemma_outputs_keep_id_order(rows: Seq<ThumbnailRowView>, group: Seq<char>)
    requires
        in_id_order(rows),
    ensures
        forall|a: int, b: int|
            0 <= a < b < group_outputs(rows, group).len() ==> group_outputs(rows, group)[a].0
                <= group_outputs(rows, group)[b].0,
    decreases rows.len(),
{
    reveal(Seq::filter);
    if rows.len() > 0 {
        let front = rows.drop_last();
        let last = rows.last();
        assert forall|i: int, j: int| 0 <= i < j < front.len() implies front[i].id <= front[j].id by {
            assert(front[i] == rows[i] && front[j] == rows[j]);
        }
        lemma_outputs_keep_id_order(front, group);
        let kept = front.filter(terminal_in(group));
        let listed = group_outputs(front, group);
        assert forall|a: int| 0 <= a < listed.len() implies listed[a].0 <= last.id by {
            assert(kept.contains(kept[a]));
            front.lemma_filter_contains_rev(terminal_in(group), kept[a]);
            let k = choose|k: int| 0 <= k < front.len() && front[k] == kept[a];
            assert(rows[k] == front[k]);
            assert(rows[k].id <= rows[rows.len() - 1].id);
        }
        if last.is_terminal_in(group) {
            assert(group_outputs(rows, group) =~= listed.push(output_of(last)));
        } else {
            assert(group_outputs(rows, group) =~= listed);
        }
    }
}

/// Whether the row belongs to `group` and is ready or failed.
fn is_terminal_row(row: &ThumbnailRow, group_key: &str) -> (terminal: bool)
    ensures
        terminal == row@.is_terminal_in(group_key@),
{
    text_equal(row.group_key.as_str(), group_key) && (row.lease.status == QueueStatus::Ready
        || row.lease.status == QueueStatus::Failed)
}

/// Lists the ready and failed thumbnails of a group with their output paths,
/// in the order of the table.
pub fn list_group_thumbnail_outputs(thumbnails: &Vec<ThumbnailRow>, group_key: &str) -> (outputs:
    Vec<(i64, String)>)
    ensures
        output_views(outputs@) == group_outputs(thumbnail_views(thumbnails@), group_key@),
{
    let ghost rows = thumbnail_views(thumbnails@);
    let mut outputs: Vec<(i64, String)> = Vec::new();
    let mut i: usize = 0;
    proof {
        reveal(Seq::filter);
        assert(rows.take(0) =~= Seq::<ThumbnailRowView>::empty());
        assert(output_views(outputs@) =~= group_outputs(rows.take(0), group_key@));
    }
    while i < thumbnails.len()
        invariant
            i <= thumbnails.len(),
            rows == thumbnail_views(thumbnails@),
            output_views(outputs@) == group_outputs(rows.take(i as int), group_key@),
        decreases thumbnails.len() - i,
    {
        let row = &thumbnails[i];
        proof {
            reveal(Seq::filter);
            assert(rows.take(i + 1).drop_last() =~= rows.take(i as int));
            assert(rows.take(i + 1).last() == rows[i as int]);
        }
        if is_terminal_row(row, group_key) {
            let path = match &row.output_relpath {
                Some(path) => path.clone(),
                None => String::new(),
            };
            let ghost listed = outputs@;
            outputs.push((row.id, path));
            proof {
                let kept = rows.take(i as int).filter(terminal_in(group_key@));
                assert(output_views(outputs@) =~= output_views(listed).push(output_of(rows[i as int])));
                assert(kept.push(rows[i as int]).map_values(|row: ThumbnailRowView| output_of(row))
                    =~= kept.map_values(|row: ThumbnailRowView| output_of(row)).push(
                    output_of(rows[i as int]),
                ));
            }
        }
        i += 1;
    }
    assert(rows.take(rows.len() as int) =~= rows);
    outputs
}

/// Deletes the ready and failed thumbnails of a group and tells how many
/// rows went; every other row stays, in the order it had.
pub fn delete_group_thumbnail_rows(thumbnails: &mut Vec<ThumbnailRow>, group_key: &str) -> (deleted:
    usize)
    ensures
        thumbnail_views(final(thumbnails)@) == thumbnail_views(old(thumbnails)@).filter(
            not_terminal_in(group_key@),
        ),
        deleted == old(thumbnails)@.len() - final(thumbnails)@.len(),
        deleted == thumbnail_views(old(thumbnails)@).filter(terminal_in(group_key@)).len(),
{
    let ghost before = thumbnail_views(thumbnails@);
    let total = thumbnails.len();
    let mut deleted: usize = 0;
    let mut i: usize = 0;
    proof {
        reveal(Seq::filter);
        assert(before.len() == total);
        assert(before.take(0) =~= Seq::<ThumbnailRowView>::empty());
        assert(thumbnail_views(thumbnails@).take(0) =~= Seq::<ThumbnailRowView>::empty());
        assert(thumbnail_views(thumbnails@).skip(0) =~= before.skip(0));
    }
    while i < thumbnails.len()
        invariant
            i <= thumbnails.len(),
            i + deleted == before.len() - (thumbnails.len() - i),
            i + deleted <= before.len(),
            before.len() <= usize::MAX,
            thumbnail_views(thumbnails@).take(i as int) == before.take(i + deleted).filter(
                not_terminal_in(group_key@),
            ),
            deleted == before.take(i + deleted).filter(terminal_in(group_key@)).len(),
            thumbnail_views(thumbnails@).skip(i as int) == before.skip(i + deleted),
        decreases thumbnails.len() - i,
    {
        let ghost current = thumbnail_views(thumbnails@);
        let ghost k = i + deleted;
        proof {
            reveal(Seq::filter);
            assert(current.skip(i as int)[0] == before.skip(k as int)[0]);
            assert(current[i as int] == before[k as int]);
            assert(before.take(k + 1).drop_last() =~= before.take(k as int));
            assert(before.take(k + 1).last() == before[k as int]);
        }
        if is_terminal_row(&thumbnails[i], group_key) {
            thumbnails.remove(i);
            deleted += 1;
            proof {
                let after = thumbnail_views(thumbnails@);
                assert(after =~= current.remove(i as int));
                assert(after.take(i as int) =~= current.take(i as int));
                assert(after.skip(i as int) =~= current.skip(i as int).skip(1));
                assert(before.skip(k as int).skip(1) =~= before.skip(k + 1));
            }
        } else {
            proof {
                assert(current.take(i + 1) =~= current.take(i as int).push(current[i as int]));
                assert(current.skip(i + 1) =~= current.skip(i as int).skip(1));
                assert(before.skip(k as int).skip(1) =~= before.skip(k + 1));
            }
            i += 1;
        }
    }
    proof {
        assert(thumbnail_views(thumbnails@).take(i as int) =~= thumbnail_views(thumbnails@));
        assert(before.take(before.len() as int) =~= before);
    }
    deleted
}

/// Cleanup is safe: deleting the terminal rows of a group removes only rows
/// of that group that are ready or failed; every pending or running row, and
/// every row of another group, is still there afterwards.
pub proof fn lemma_cleanup_keeps_active_rows(rows: Seq<ThumbnailRowView>, group: Seq<char>)
    ensures
        forall|i: int|
            0 <= i < rows.len() && !(#[trigger] rows[i]).is_terminal_in(group) ==> rows.filter(
                not_terminal_in(group),
            ).contains(rows[i]),
        forall|i: int|
            0 <= i < rows.len() && ((#[trigger] rows[i]).lease.status == QueueStatus::Pending
                || rows[i].lease.status == QueueStatus::Running) ==> rows.filter(
                not_terminal_in(group),
            ).contains(rows[i]),
        forall|k: int|
            0 <= k < rows.filter(not_terminal_in(group)).len() ==> rows.contains(
                #[trigger] rows.filter(not_terminal_in(group))[k],
            ) && !rows.filter(not_terminal_in(group))[k].is_terminal_in(group),
{
    let kept = rows.filter(not_terminal_in(group));
    assert forall|i: int| 0 <= i < rows.len() && !(#[trigger] rows[i]).is_terminal_in(
        group,
    ) implies kept.contains(rows[i]) by {
        rows.lemma_filter_contains(not_terminal_in(group), i);
    }
    assert forall|k: int| 0 <= k < kept.len() implies rows.contains(#[trigger] kept[k])
        && !kept[k].is_terminal_in(group) by {
        rows.lemma_filter_pred(not_terminal_in(group), k);
        assert(kept.contains(kept[k]));
        rows.lemma_filter_contains_rev(not_terminal_in(group), kept[k]);
    }
}

/// A claim on the thumbnail queue recovers every abandoned task before it
/// selects: in the table that candidates are selected from, no task runs on
/// a lease that is over, and every task that did is pending again.
pub proof fn lemma_claim_sweeps_thumbnails_first(rows: Seq<ThumbnailRowView>, now: i64, j: int)
    requires
        0 <= j < rows.len(),
    ensures
        !swept_thumbnails(rows, now)[j].lease.is_abandoned(now),
        rows[j].lease.is_abandoned(now) ==> swept_thumbnails(rows, now)[j].lease.status
            == QueueStatus::Pending,
        !rows[j].lease.is_abandoned(now) ==> swept_thumbnails(rows, now)[j] == rows[j],
{
}

} // verus!
