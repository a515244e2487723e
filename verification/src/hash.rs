//! The hash engine: reserving files, the two validations around a read,
//! and what each outcome writes.

use crate::backoff::{calculate_retry_delay_seconds, retry_delay};
use crate::config::{algorithm_named, ConfigError, HashAlgorithm, WorkerConfig};
use crate::db::{
    deadline_after, file_id_flags, file_views, find_file, find_root, first_flagged, lease_deadline,
    root_id_flags, FileRow, FileRowView, JobRecord, LibraryRootRow,
};
use crate::io_budget::clamp_instant;
use crate::path_safety::{
    lemma_prefix_is_transitive, lemma_validated_path_stays_under_root,
    canonical_form, join_under, joined_path, path_has_prefix, path_starts_with, relative_path_fault,
    resolve_root_under_libraries, validate_relative_path, PathError,
};
use crate::payload::{extract_optional_string, extract_optional_u64, payload_text, payload_u64};
use crate::random::{is_alphanumeric_text, random_alphanumeric};
use crate::text::{lowercased, text_equal, trimmed};
use crate::thumbnail_queue::{bump, bumped, has_come, instant_has_come, schedule_count};
use vstd::prelude::*;
use vstd::string::StringExecFns;

verus! {

/// What the file system says of a file.
#[derive(Clone, Copy, Debug, PartialEq, Eq, Structural)]
pub struct FileStat {
    pub size_bytes: i64,
    pub mtime_ns: i64,
    pub inode: Option<i64>,
    pub device: Option<i64>,
}

/// Why the metadata of a file cannot be stored.
#[derive(Clone, Copy, Debug, PartialEq, Eq, Structural)]
pub enum MetadataError {
    /// The size does not fit the store's signed 64 bits.
    SizeOutOfRange,
    /// The inode number does not fit the store's signed 64 bits.
    InodeOutOfRange,
    /// The device number does not fit the store's signed 64 bits.
    DeviceOutOfRange,
}

/// The modification time in nanoseconds: the seconds scaled and the
/// nanoseconds added, each step cut to what an instant can hold.
pub open spec fn mtime_nanos(seconds: i64, nanos: i64) -> i64 {
    clamp_instant(clamp_instant(seconds * 1_000_000_000) + nanos) as i64
}

/// The modification time in nanoseconds.
pub fn metadata_mtime_ns(seconds: i64, nanos: i64) -> (mtime_ns: i64)
    ensures
        mtime_ns == mtime_nanos(seconds, nanos),
{
    let scaled: i64 = match seconds.checked_mul(1_000_000_000) {
        Some(scaled) => scaled,
        None => if seconds > 0 {
            i64::MAX
        } else {
            i64::MIN
        },
    };
    match scaled.checked_add(nanos) {
        Some(total) => total,
        None => if nanos > 0 {
            i64::MAX
        } else {
            i64::MIN
        },
    }
}

/// Puts the metadata of a file in the form the store holds; a size, inode
/// or device number above what the store can hold is refused.
pub fn metadata_to_row(
    size: u64,
    mtime_seconds: i64,
    mtime_nanos_part: i64,
    inode: u64,
    device: u64,
) -> (result: Result<FileStat, MetadataError>)
    ensures
        match result {
            Ok(stat) => {
                &&& size <= i64::MAX
                &&& inode <= i64::MAX
                &&& device <= i64::MAX
                &&& stat == (FileStat {
                    size_bytes: size as i64,
                    mtime_ns: mtime_nanos(mtime_seconds, mtime_nanos_part),
                    inode: Some(inode as i64),
                    device: Some(device as i64),
                })
            },
            Err(fault) => fault == (if size > i64::MAX {
                MetadataError::SizeOutOfRange
            } else if inode > i64::MAX {
                MetadataError::InodeOutOfRange
            } else {
                MetadataError::DeviceOutOfRange
            }) && (size > i64::MAX || inode > i64::MAX || device > i64::MAX),
        },
{
    if size > i64::MAX as u64 {
        return Err(MetadataError::SizeOutOfRange);
    }
    if inode > i64::MAX as u64 {
        return Err(MetadataError::InodeOutOfRange);
    }
    if device > i64::MAX as u64 {
        return Err(MetadataError::DeviceOutOfRange);
    }
    Ok(
        FileStat {
            size_bytes: size as i64,
            mtime_ns: metadata_mtime_ns(mtime_seconds, mtime_nanos_part),
            inode: Some(inode as i64),
            device: Some(device as i64),
        },
    )
}

/// A file that a hash job has reserved, with what the store expects of it.
#[derive(Clone, Debug)]
pub struct HashCandidate {
    pub id: i64,
    pub relative_path: String,
    pub expected_size: i64,
    pub expected_mtime_ns: i64,
    pub hash_error_count: i64,
    pub root_path: String,
}

/// A [`HashCandidate`] as plain values.
pub struct HashCandidateView {
    pub id: i64,
    pub relative_path: Seq<char>,
    pub expected_size: i64,
    pub expected_mtime_ns: i64,
    pub hash_error_count: i64,
    pub root_path: Seq<char>,
}

impl View for HashCandidate {
    type V = HashCandidateView;

    open spec fn view(&self) -> HashCandidateView {
        HashCandidateView {
            id: self.id,
            relative_path: self.relative_path@,
            expected_size: self.expected_size,
            expected_mtime_ns: self.expected_mtime_ns,
            hash_error_count: self.hash_error_count,
            root_path: self.root_path@,
        }
    }
}

/// How a candidate ended.
#[derive(Clone, Copy, Debug, PartialEq, Eq, Structural)]
pub enum CandidateOutcome {
    /// A digest of this many bytes was stored.
    Hashed(u64),
    /// The file had changed; it waits for another hash job.
    Requeued,
    /// The file is gone.
    Missing,
    /// The file could not be read; it is retried later.
    Failed,
}

/// The tallies of one hash job.
#[derive(Clone, Copy, Debug, PartialEq, Eq, Structural)]
pub struct HashCounters {
    pub processed_files: i64,
    pub hashed_files: i64,
    pub requeued_files: i64,
    pub missing_files: i64,
    pub failed_files: i64,
    pub bytes_hashed: i64,
}

/// A tally one higher, cut at the largest tally.
pub open spec fn tally_up(count: i64) -> i64 {
    bumped(count)
}

/// A byte tally raised by `bytes`, cut at the largest tally.
pub open spec fn tally_bytes(tally: i64, bytes: u64) -> i64 {
    clamp_instant(tally + bytes) as i64
}

impl HashCounters {
    /// The tallies after one more candidate ended with `outcome`.
    pub open spec fn recorded(self, outcome: CandidateOutcome) -> HashCounters {
        let counted = HashCounters { processed_files: tally_up(self.processed_files), ..self };
        match outcome {
            CandidateOutcome::Hashed(bytes) => HashCounters {
                hashed_files: tally_up(self.hashed_files),
                bytes_hashed: tally_bytes(self.bytes_hashed, bytes),
                ..counted
            },
            CandidateOutcome::Requeued => HashCounters {
                requeued_files: tally_up(self.requeued_files),
                ..counted
            },
            CandidateOutcome::Missing => HashCounters {
                missing_files: tally_up(self.missing_files),
                ..counted
            },
            CandidateOutcome::Failed => HashCounters {
                failed_files: tally_up(self.failed_files),
                ..counted
            },
        }
    }

    /// Tallies that count nothing yet.
    pub fn new() -> (counters: HashCounters)
        ensures
            counters == (HashCounters {
                processed_files: 0,
                hashed_files: 0,
                requeued_files: 0,
                missing_files: 0,
                failed_files: 0,
                bytes_hashed: 0,
            }),
    {
        HashCounters {
            processed_files: 0,
            hashed_files: 0,
            requeued_files: 0,
            missing_files: 0,
            failed_files: 0,
            bytes_hashed: 0,
        }
    }

    /// Counts one more candidate that ended with `outcome`.
    pub fn record(&mut self, outcome: CandidateOutcome)
        ensures
            *final(self) == old(self).recorded(outcome),
    {
        self.processed_files = bump(self.processed_files);
        match outcome {
            CandidateOutcome::Hashed(bytes) => {
                self.hashed_files = bump(self.hashed_files);
                let total: i128 = self.bytes_hashed as i128 + bytes as i128;
                self.bytes_hashed = if total > i64::MAX as i128 {
                    i64::MAX
                } else {
                    total as i64
                };
            },
            CandidateOutcome::Requeued => {
                self.requeued_files = bump(self.requeued_files);
            },
            CandidateOutcome::Missing => {
                self.missing_files = bump(self.missing_files);
            },
            CandidateOutcome::Failed => {
                self.failed_files = bump(self.failed_files);
            },
        }
    }

    /// Whether the job's lease is to be renewed now: after every 64th
    /// candidate.
    pub fn lease_refresh_is_due(&self) -> (due: bool)
        ensures
            due == (self.processed_files % 64 == 0),
    {
        self.processed_files % 64 == 0
    }
}

impl FileRowView {
    /// Whether no live hash claim holds the row at `now`: it has no claim,
    /// or the claim is at least `ttl_seconds` old.
    pub open spec fn claim_is_stale(self, now: i64, ttl_seconds: u64) -> bool {
        ||| self.hash_claim_token is None
        ||| self.hash_claimed_at is None
        ||| self.hash_claimed_at->0 + ttl_seconds <= now
    }

    /// Whether a hash job may reserve the row at `now`.
    pub open spec fn is_hashable(self, now: i64, ttl_seconds: u64) -> bool {
        &&& self.needs_hash
        &&& !self.is_missing
        &&& has_come(self.hash_retry_after, now)
        &&& self.claim_is_stale(now, ttl_seconds)
    }

    /// The row once a hash job has reserved it under `token`.
    pub open spec fn reserved(self, token: Seq<char>, now: i64) -> Self {
        FileRowView {
            hash_claim_token: Some(token),
            hash_claimed_at: Some(now),
            updated_at: now,
            ..self
        }
    }

    /// The row once its file was found gone.
    pub open spec fn marked_missing(self, now: i64) -> Self {
        FileRowView {
            is_missing: true,
            needs_hash: false,
            hash_claim_token: None,
            hash_claimed_at: None,
            hash_retry_after: None,
            updated_at: now,
            ..self
        }
    }

    /// The row once its file was found changed: it takes the file's
    /// metadata, needs a hash, and holds no digest, no error and no claim.
    pub open spec fn requeued(self, stat: FileStat, now: i64) -> Self {
        FileRowView {
            size_bytes: stat.size_bytes,
            mtime_ns: stat.mtime_ns,
            inode: stat.inode,
            device: stat.device,
            is_missing: false,
            needs_hash: true,
            hash_algorithm: None,
            content_hash: None,
            hashed_size_bytes: None,
            hashed_mtime_ns: None,
            hashed_at: None,
            hash_error_count: Some(0),
            hash_last_error: None,
            hash_last_error_at: None,
            hash_retry_after: None,
            hash_claim_token: None,
            hash_claimed_at: None,
            updated_at: now,
            ..self
        }
    }

    /// The row once reading its file failed after `previous` earlier
    /// failures: one more error counted, the retry put off by the backoff
    /// schedule, and the claim given up.
    pub open spec fn hash_failed(
        self,
        previous_error_count: i64,
        message: Seq<char>,
        now: i64,
        retry_base_seconds: u64,
        retry_max_seconds: u64,
    ) -> Self {
        let next = bumped(previous_error_count);
        FileRowView {
            needs_hash: true,
            hash_error_count: Some(next),
            hash_last_error: Some(message),
            hash_last_error_at: Some(now),
            hash_retry_after: Some(
                lease_deadline(
                    now as int,
                    retry_delay(
                        retry_base_seconds as int,
                        retry_max_seconds as int,
                        schedule_count(next),
                    ),
                ) as i64,
            ),
            hash_claim_token: None,
            hash_claimed_at: None,
            updated_at: now,
            ..self
        }
    }

    /// The row once a digest was stored for the file as `stat` describes it.
    pub open spec fn hash_committed(
        self,
        algorithm: HashAlgorithm,
        digest: Seq<u8>,
        stat: FileStat,
        now: i64,
    ) -> Self {
        FileRowView {
            is_missing: false,
            needs_hash: false,
            hash_algorithm: Some(algorithm),
            content_hash: Some(digest),
            hashed_size_bytes: Some(stat.size_bytes),
            hashed_mtime_ns: Some(stat.mtime_ns),
            hashed_at: Some(now),
            hash_error_count: Some(0),
            hash_last_error: None,
            hash_last_error_at: None,
            hash_retry_after: None,
            hash_claim_token: None,
            hash_claimed_at: None,
            updated_at: now,
            ..self
        }
    }
}

/// The file table with the row of the given id changed; the table as it is
/// where no row has the id.
pub open spec fn with_file_changed(
    rows: Seq<FileRowView>,
    id: i64,
    change: spec_fn(FileRowView) -> FileRowView,
) -> Seq<FileRowView> {
    match first_flagged(file_id_flags(rows, id)) {
        Some(i) => rows.update(i, change(rows[i])),
        None => rows,
    }
}

/// Marks the file of the given id as gone.
pub fn mark_missing(files: &mut Vec<FileRow>, id: i64, now: i64)
    ensures
        file_views(final(files)@) == with_file_changed(
            file_views(old(files)@),
            id,
            |row: FileRowView| row.marked_missing(now),
        ),
{
    let ghost before = file_views(files@);
    let pick = match find_file(files, id) {
        Some(pick) => pick,
        None => {
            return ;
        },
    };
    let row = &mut files[pick];
    row.is_missing = true;
    row.needs_hash = false;
    row.hash_claim_token = None;
    row.hash_claimed_at = None;
    row.hash_retry_after = None;
    row.updated_at = now;
    assert(file_views(files@) =~= before.update(
        pick as int,
        before[pick as int].marked_missing(now),
    ));
}

/// Puts the file of the given id back in line for a hash, with the
/// metadata that was found on disk.
pub fn mark_requeue(files: &mut Vec<FileRow>, id: i64, stat: FileStat, now: i64)
    ensures
        file_views(final(files)@) == with_file_changed(
            file_views(old(files)@),
            id,
            |row: FileRowView| row.requeued(stat, now),
        ),
{
    let ghost before = file_views(files@);
    let pick = match find_file(files, id) {
        Some(pick) => pick,
        None => {
            return ;
        },
    };
    let row = &mut files[pick];
    row.size_bytes = stat.size_bytes;
    row.mtime_ns = stat.mtime_ns;
    row.inode = stat.inode;
    row.device = stat.device;
    row.is_missing = false;
    row.needs_hash = true;
    row.hash_algorithm = None;
    row.content_hash = None;
    row.hashed_size_bytes = None;
    row.hashed_mtime_ns = None;
    row.hashed_at = None;
    row.hash_error_count = Some(0);
    row.hash_last_error = None;
    row.hash_last_error_at = None;
    row.hash_retry_after = None;
    row.hash_claim_token = None;
    row.hash_claimed_at = None;
    row.updated_at = now;
    assert(file_views(files@) =~= before.update(pick as int, before[pick as int].requeued(stat, now)));
}

/// Records a failed read on the file of the candidate and puts the retry
/// off by the backoff schedule.
pub fn mark_failure(
    files: &mut Vec<FileRow>,
    config: &WorkerConfig,
    candidate: &HashCandidate,
    message: &str,
    now: i64,
)
    ensures
        file_views(final(files)@) == with_file_changed(
            file_views(old(files)@),
            candidate.id,
            |row: FileRowView|
                row.hash_failed(
                    candidate.hash_error_count,
                    message@,
                    now,
                    config.hash_retry_base_seconds,
                    config.hash_retry_max_seconds,
                ),
        ),
{
    let ghost before = file_views(files@);
    let next_error_count = bump(candidate.hash_error_count);
    let scheduled_by: u64 = if next_error_count < 0 {
        u64::MAX
    } else {
        next_error_count as u64
    };
    let retry_seconds = calculate_retry_delay_seconds(
        config.hash_retry_base_seconds,
        config.hash_retry_max_seconds,
        scheduled_by,
    );
    let pick = match find_file(files, candidate.id) {
        Some(pick) => pick,
        None => {
            return ;
        },
    };
    let row = &mut files[pick];
    row.needs_hash = true;
    row.hash_error_count = Some(next_error_count);
    row.hash_last_error = Some(String::from_str(message));
    row.hash_last_error_at = Some(now);
    row.hash_retry_after = Some(deadline_after(now, retry_seconds));
    row.hash_claim_token = None;
    row.hash_claimed_at = None;
    row.updated_at = now;
    assert(file_views(files@) =~= before.update(
        pick as int,
        before[pick as int].hash_failed(
            candidate.hash_error_count,
            message@,
            now,
            config.hash_retry_base_seconds,
            config.hash_retry_max_seconds,
        ),
    ));
}

/// Stores a digest on the file of the given id.
pub fn commit_hash(
    files: &mut Vec<FileRow>,
    id: i64,
    algorithm: HashAlgorithm,
    digest: Vec<u8>,
    stat: FileStat,
    now: i64,
)
    ensures
        file_views(final(files)@) == with_file_changed(
            file_views(old(files)@),
            id,
            |row: FileRowView| row.hash_committed(algorithm, digest@, stat, now),
        ),
{
    let ghost before = file_views(files@);
    let pick = match find_file(files, id) {
        Some(pick) => pick,
        None => {
            return ;
        },
    };
    let row = &mut files[pick];
    row.is_missing = false;
    row.needs_hash = false;
    row.hash_algorithm = Some(algorithm);
    row.content_hash = Some(digest);
    row.hashed_size_bytes = Some(stat.size_bytes);
    row.hashed_mtime_ns = Some(stat.mtime_ns);
    row.hashed_at = Some(now);
    row.hash_error_count = Some(0);
    row.hash_last_error = None;
    row.hash_last_error_at = None;
    row.hash_retry_after = None;
    row.hash_claim_token = None;
    row.hash_claimed_at = None;
    row.updated_at = now;
    assert(file_views(files@) =~= before.update(
        pick as int,
        before[pick as int].hash_committed(algorithm, digest@, stat, now),
    ));
}

/// What a look at the source file told.
#[derive(Debug)]
pub enum SourceProbe {
    /// There is no regular file at the path.
    Missing,
    /// The metadata could not be read; the text says why.
    Unreadable(String),
    /// The file is there, with this metadata.
    Found(FileStat),
}

/// Whether the file on disk is the one the store expects: same size, same
/// modification time.
pub open spec fn matches_expectation(candidate: HashCandidateView, stat: FileStat) -> bool {
    stat.size_bytes == candidate.expected_size && stat.mtime_ns == candidate.expected_mtime_ns
}

/// The first validation, before the file is read. A file that is gone is
/// marked missing; one whose metadata cannot be read is put off for a retry;
/// one that differs from what the store expects is requeued with the
/// metadata found. In each of these cases the candidate has ended and no
/// digest is computed. Otherwise nothing is written and the file is to be
/// read.
pub fn settle_probe(
    files: &mut Vec<FileRow>,
    config: &WorkerConfig,
    candidate: &HashCandidate,
    probe: &SourceProbe,
    now: i64,
) -> (ended: Option<CandidateOutcome>)
    ensures
        ({
            let before = file_views(old(files)@);
            let after = file_views(final(files)@);
            match *probe {
                SourceProbe::Missing => ended == Some(CandidateOutcome::Missing) && after
                    == with_file_changed(
                    before,
                    candidate.id,
                    |row: FileRowView| row.marked_missing(now),
                ),
                SourceProbe::Unreadable(message) => ended == Some(CandidateOutcome::Failed) && after
                    == with_file_changed(
                    before,
                    candidate.id,
                    |row: FileRowView|
                        row.hash_failed(
                            candidate.hash_error_count,
                            message@,
                            now,
                            config.hash_retry_base_seconds,
                            config.hash_retry_max_seconds,
                        ),
                ),
                SourceProbe::Found(stat) => if matches_expectation(candidate@, stat) {
                    ended is None && after == before
                } else {
                    ended == Some(CandidateOutcome::Requeued) && after == with_file_changed(
                        before,
                        candidate.id,
                        |row: FileRowView| row.requeued(stat, now),
                    )
                },
            }
        }),
{
    match probe {
        SourceProbe::Missing => {
            mark_missing(files, candidate.id, now);
            Some(CandidateOutcome::Missing)
        },
        SourceProbe::Unreadable(message) => {
            mark_failure(files, config, candidate, message.as_str(), now);
            Some(CandidateOutcome::Failed)
        },
        SourceProbe::Found(stat) => {
            if stat.size_bytes != candidate.expected_size || stat.mtime_ns
                != candidate.expected_mtime_ns {
                mark_requeue(files, candidate.id, *stat, now);
                Some(CandidateOutcome::Requeued)
            } else {
                None
            }
        },
    }
}

/// What a second look at the source file told, after it was read.
#[derive(Debug)]
pub enum SourceRecheck {
    /// The metadata could not be read; the text says why.
    Unreadable(String),
    /// The file is there, with this metadata.
    Found(FileStat),
}

/// Ends a candidate whose file could not be opened or read: the failure is
/// recorded and the retry put off.
pub fn settle_read_failure(
    files: &mut Vec<FileRow>,
    config: &WorkerConfig,
    candidate: &HashCandidate,
    message: &str,
    now: i64,
) -> (outcome: CandidateOutcome)
    ensures
        outcome == CandidateOutcome::Failed,
        file_views(final(files)@) == with_file_changed(
            file_views(old(files)@),
            candidate.id,
            |row: FileRowView|
                row.hash_failed(
                    candidate.hash_error_count,
                    message@,
                    now,
                    config.hash_retry_base_seconds,
                    config.hash_retry_max_seconds,
                ),
        ),
{
    mark_failure(files, config, candidate, message, now);
    CandidateOutcome::Failed
}

/// The second validation, after the file was read. The digest is stored
/// only if the file still is what the store expects; a file that changed
/// while it was read is requeued with the metadata found and the digest is
/// dropped; metadata that cannot be read puts the file off for a retry.
pub fn settle_recheck(
    files: &mut Vec<FileRow>,
    config: &WorkerConfig,
    candidate: &HashCandidate,
    algorithm: HashAlgorithm,
    digest: Vec<u8>,
    bytes_hashed: u64,
    recheck: &SourceRecheck,
    now: i64,
) -> (outcome: CandidateOutcome)
    ensures
        ({
            let before = file_views(old(files)@);
            let after = file_views(final(files)@);
            match *recheck {
                SourceRecheck::Unreadable(message) => outcome == CandidateOutcome::Failed && after
                    == with_file_changed(
                    before,
                    candidate.id,
                    |row: FileRowView|
                        row.hash_failed(
                            candidate.hash_error_count,
                            message@,
                            now,
                            config.hash_retry_base_seconds,
                            config.hash_retry_max_seconds,
                        ),
                ),
                SourceRecheck::Found(stat) => if matches_expectation(candidate@, stat) {
                    outcome == CandidateOutcome::Hashed(bytes_hashed) && after == with_file_changed(
                        before,
                        candidate.id,
                        |row: FileRowView| row.hash_committed(algorithm, digest@, stat, now),
                    )
                } else {
                    outcome == CandidateOutcome::Requeued && after == with_file_changed(
                        before,
                        candidate.id,
                        |row: FileRowView| row.requeued(stat, now),
                    )
                },
            }
        }),
{
    match recheck {
        SourceRecheck::Unreadable(message) => {
            mark_failure(files, config, candidate, message.as_str(), now);
            CandidateOutcome::Failed
        },
        SourceRecheck::Found(stat) => {
            if stat.size_bytes != candidate.expected_size || stat.mtime_ns
                != candidate.expected_mtime_ns {
                mark_requeue(files, candidate.id, *stat, now);
                CandidateOutcome::Requeued
            } else {
                commit_hash(files, candidate.id, algorithm, digest, *stat, now);
                CandidateOutcome::Hashed(bytes_hashed)
            }
        },
    }
}

/// A stored digest describes the file it was computed from: a commit writes
/// the size and modification time that were found after the read, which are
/// the ones the candidate expected; and on a row that still holds what it
/// held when the candidate was reserved, they are the row's own.
pub proof fn lemma_committed_digest_matches_row(
    row: FileRowView,
    candidate: HashCandidateView,
    algorithm: HashAlgorithm,
    digest: Seq<u8>,
    stat: FileStat,
    now: i64,
)
    requires
        matches_expectation(candidate, stat),
    ensures
        row.hash_committed(algorithm, digest, stat, now).hashed_size_bytes == Some(
            candidate.expected_size,
        ),
        row.hash_committed(algorithm, digest, stat, now).hashed_mtime_ns == Some(
            candidate.expected_mtime_ns,
        ),
        row.size_bytes == candidate.expected_size && row.mtime_ns == candidate.expected_mtime_ns
            ==> {
            let committed = row.hash_committed(algorithm, digest, stat, now);
            &&& committed.hashed_size_bytes == Some(committed.size_bytes)
            &&& committed.hashed_mtime_ns == Some(committed.mtime_ns)
            &&& !committed.needs_hash
            &&& committed.content_hash == Some(digest)
        },
{
}

/// How many of the rows before position `end` a hash job may reserve.
pub open spec fn hashable_before(rows: Seq<FileRowView>, end: int, now: i64, ttl_seconds: u64) -> nat
    decreases end,
{
    if end <= 0 {
        0
    } else {
        hashable_before(rows, end - 1, now, ttl_seconds) + if rows[end - 1].is_hashable(
            now,
            ttl_seconds,
        ) {
            1nat
        } else {
            0nat
        }
    }
}

/// Whether a batch of `batch_size` reserves the row at position `i`: the
/// row may be reserved and fewer than `batch_size` rows before it may.
pub open spec fn is_in_batch(
    rows: Seq<FileRowView>,
    i: int,
    batch_size: usize,
    now: i64,
    ttl_seconds: u64,
) -> bool {
    rows[i].is_hashable(now, ttl_seconds) && hashable_before(rows, i, now, ttl_seconds) < batch_size
}

/// The file table after a batch was reserved under `token`.
pub open spec fn with_batch_reserved(
    rows: Seq<FileRowView>,
    batch_size: usize,
    token: Seq<char>,
    now: i64,
    ttl_seconds: u64,
) -> Seq<FileRowView> {
    Seq::new(
        rows.len(),
        |i: int|
            if is_in_batch(rows, i, batch_size, now, ttl_seconds) {
                rows[i].reserved(token, now)
            } else {
                rows[i]
            },
    )
}

/// The candidate that a reserved row gives, where the row's library root is
/// known.
pub open spec fn candidate_of(row: FileRowView, roots: Seq<LibraryRootRow>) -> Option<
    HashCandidateView,
> {
    match first_flagged(root_id_flags(roots, row.library_id)) {
        Some(r) => Some(
            HashCandidateView {
                id: row.id,
                relative_path: row.relative_path,
                expected_size: row.size_bytes,
                expected_mtime_ns: row.mtime_ns,
                hash_error_count: match row.hash_error_count {
                    Some(count) => count,
                    None => 0,
                },
                root_path: roots[r].root_path@,
            },
        ),
        None => None,
    }
}

/// The candidates that the rows reserved under `token` give, in the order
/// of the table.
pub open spec fn candidates_under(
    rows: Seq<FileRowView>,
    roots: Seq<LibraryRootRow>,
    token: Seq<char>,
) -> Seq<HashCandidateView>
    decreases rows.len(),
{
    if rows.len() == 0 {
        Seq::<HashCandidateView>::empty()
    } else {
        let front = candidates_under(rows.drop_last(), roots, token);
        match candidate_of(rows.last(), roots) {
            Some(candidate) => if rows.last().hash_claim_token == Some(token) {
                front.push(candidate)
            } else {
                front
            },
            None => front,
        }
    }
}

/// The candidates as plain values.
pub open spec fn candidate_views(candidates: Seq<HashCandidate>) -> Seq<HashCandidateView> {
    candidates.map_values(|candidate: HashCandidate| candidate@)
}

/// Whether a hash job may reserve the row at `now`.
fn is_hashable_row(row: &FileRow, now: i64, ttl_seconds: u64) -> (hashable: bool)
    ensures
        hashable == row@.is_hashable(now, ttl_seconds),
{
    let stale = match (&row.hash_claim_token, row.hash_claimed_at) {
        (Some(_), Some(claimed_at)) => claimed_at as i128 + ttl_seconds as i128 <= now as i128,
        _ => true,
    };
    row.needs_hash && !row.is_missing && instant_has_come(row.hash_retry_after, now) && stale
}

/// Reserves the next batch of files for a hash job: up to `batch_size`
/// files, in the order of the table, that need a hash, are not missing, are
/// due for a retry and are held by no live claim, get `claim_token` as their
/// claim. Where at least one file was reserved, the files that hold the
/// token are handed out as candidates.
pub fn claim_candidates(
    files: &mut Vec<FileRow>,
    roots: &Vec<LibraryRootRow>,
    config: &WorkerConfig,
    batch_size: usize,
    claim_token: &str,
    now: i64,
) -> (candidates: Vec<HashCandidate>)
    ensures
        ({
            let before = file_views(old(files)@);
            let ttl = config.hash_claim_ttl_seconds;
            let after = with_batch_reserved(before, batch_size, claim_token@, now, ttl);
            &&& file_views(final(files)@) == after
            &&& candidate_views(candidates@) == if batch_size > 0 && hashable_before(
                before,
                before.len() as int,
                now,
                ttl,
            ) > 0 {
                candidates_under(after, roots@, claim_token@)
            } else {
                Seq::<HashCandidateView>::empty()
            }
        }),
{
    let ghost before = file_views(files@);
    let ttl = config.hash_claim_ttl_seconds;
    let mut seen: usize = 0;
    let mut i: usize = 0;
    while i < files.len()
        invariant
            i <= files.len(),
            files.len() == before.len(),
            before == file_views(old(files)@),
            ttl == config.hash_claim_ttl_seconds,
            seen == hashable_before(before, i as int, now, ttl),
            seen <= i,
            forall|j: int|
                0 <= j < i ==> (#[trigger] files@[j])@ == with_batch_reserved(
                    before,
                    batch_size,
                    claim_token@,
                    now,
                    ttl,
                )[j],
            forall|j: int| i <= j < files.len() ==> (#[trigger] files@[j])@ == before[j],
        decreases files.len() - i,
    {
        let row = &mut files[i];
        if is_hashable_row(row, now, ttl) {
            if seen < batch_size {
                row.hash_claim_token = Some(String::from_str(claim_token));
                row.hash_claimed_at = Some(now);
                row.updated_at = now;
            }
            seen += 1;
        }
        i += 1;
    }
    let ghost after = file_views(files@);
    assert(after =~= with_batch_reserved(before, batch_size, claim_token@, now, ttl));
    let mut candidates: Vec<HashCandidate> = Vec::new();
    if seen == 0 || batch_size == 0 {
        assert(candidate_views(candidates@) =~= Seq::<HashCandidateView>::empty());
        return candidates;
    }
    let mut k: usize = 0;
    proof {
        assert(after.take(0) =~= Seq::<FileRowView>::empty());
        assert(candidate_views(candidates@) =~= Seq::<HashCandidateView>::empty());
    }
    while k < files.len()
        invariant
            k <= files.len(),
            after == file_views(files@),
            candidate_views(candidates@) == candidates_under(
                after.take(k as int),
                roots@,
                claim_token@,
            ),
        decreases files.len() - k,
    {
        let row = &files[k];
        proof {
            assert(after.take(k + 1).drop_last() =~= after.take(k as int));
            assert(after.take(k + 1).last() == after[k as int]);
        }
        let holds_token = match &row.hash_claim_token {
            Some(token) => text_equal(token.as_str(), claim_token),
            None => false,
        };
        match find_root(roots, row.library_id) {
            Some(r) => {
                if holds_token {
                    let candidate = HashCandidate {
                        id: row.id,
                        relative_path: row.relative_path.clone(),
                        expected_size: row.size_bytes,
                        expected_mtime_ns: row.mtime_ns,
                        hash_error_count: match row.hash_error_count {
                            Some(count) => count,
                            None => 0,
                        },
                        root_path: roots[r].root_path.clone(),
                    };
                    let ghost listed = candidates@;
                    candidates.push(candidate);
                    assert(candidate_views(candidates@) =~= candidate_views(listed).push(
                        candidate@,
                    ));
                }
            },
            None => {},
        }
        k += 1;
    }
    assert(after.take(after.len() as int) =~= after);
    candidates
}

/// A fresh token for a batch claim: 32 letters and digits drawn at random.
pub fn generate_claim_token() -> (token: String)
    ensures
        token@.len() == 32,
        is_alphanumeric_text(token@),
{
    random_alphanumeric(32)
}

/// Why the path of a candidate is refused before it is looked up on disk.
pub open spec fn candidate_path_fault(
    libraries_root_real: Seq<char>,
    root_real: Seq<char>,
    relative_path: Seq<char>,
) -> Option<PathError> {
    if !path_has_prefix(root_real, libraries_root_real) {
        Some(PathError::EscapesRoot)
    } else {
        relative_path_fault(relative_path)
    }
}

/// The path at which a candidate is looked up: its validated relative path
/// under its library root, which must lie under the libraries root.
/// `root_real` is the library root as resolved on disk. Such a path lies
/// under the library root and so under the libraries root.
pub fn candidate_path(config: &WorkerConfig, root_real: &str, relative_path: &str) -> (result:
    Result<String, PathError>)
    ensures
        match result {
            Ok(path) => {
                &&& candidate_path_fault(config.libraries_root_real@, root_real@, relative_path@)
                    is None
                &&& path@ == joined_path(root_real@, canonical_form(relative_path@))
                &&& path_has_prefix(path@, root_real@)
                &&& path_has_prefix(path@, config.libraries_root_real@)
            },
            Err(fault) => candidate_path_fault(
                config.libraries_root_real@,
                root_real@,
                relative_path@,
            ) == Some(fault),
        },
{
    let root = match resolve_root_under_libraries(config.libraries_root_real.as_str(), root_real) {
        Ok(root) => root,
        Err(fault) => {
            return Err(fault);
        },
    };
    let relative = match validate_relative_path(relative_path) {
        Ok(relative) => relative,
        Err(fault) => {
            return Err(fault);
        },
    };
    proof {
        lemma_validated_path_stays_under_root(root_real@, relative_path@);
        lemma_prefix_is_transitive(
            joined_path(root_real@, canonical_form(relative_path@)),
            root_real@,
            config.libraries_root_real@,
        );
    }
    Ok(join_under(root.as_str(), relative.as_str()))
}

/// Settles the path of a candidate once it has been looked up on disk.
/// `candidate_real` is the path of [`candidate_path`] as resolved on disk,
/// where a file exists there. A file that exists must resolve to a place
/// under its library root and is then read at the resolved path; a file that
/// does not exist keeps the unresolved path. Either way the path lies under
/// the library root and so under the libraries root.
pub fn resolve_candidate_path(
    config: &WorkerConfig,
    root_real: &str,
    relative_path: &str,
    candidate_real: Option<&str>,
) -> (result: Result<String, PathError>)
    ensures
        match candidate_path_fault(config.libraries_root_real@, root_real@, relative_path@) {
            Some(fault) => result == Err::<String, PathError>(fault),
            None => match candidate_real {
                Some(resolved) => if path_has_prefix(resolved@, root_real@) {
                    result matches Ok(path) && path@ == resolved@
                } else {
                    result == Err::<String, PathError>(PathError::EscapesRoot)
                },
                None => result matches Ok(path) && path@ == joined_path(
                    root_real@,
                    canonical_form(relative_path@),
                ),
            },
        },
        result matches Ok(path) ==> path_has_prefix(path@, root_real@) && path_has_prefix(
            path@,
            config.libraries_root_real@,
        ),
{
    let candidate = match candidate_path(config, root_real, relative_path) {
        Ok(candidate) => candidate,
        Err(fault) => {
            return Err(fault);
        },
    };
    match candidate_real {
        Some(resolved) => {
            if path_starts_with(resolved, root_real) {
                proof {
                    lemma_prefix_is_transitive(
                        resolved@,
                        root_real@,
                        config.libraries_root_real@,
                    );
                }
                Ok(String::from_str(resolved))
            } else {
                Err(PathError::EscapesRoot)
            }
        },
        None => Ok(candidate),
    }
}

/// What a hash job runs with.
#[derive(Clone, Copy, Debug, PartialEq, Eq, Structural)]
pub struct HashJobSettings {
    /// The upper bound on the number of files the job processes, if any.
    pub max_files: Option<u64>,
    /// How many files the job reserves at a time.
    pub fetch_batch_size: usize,
    pub algorithm: HashAlgorithm,
}

/// A number of the payload as a batch size: at least one, and cut at the
/// largest size.
pub open spec fn batch_size_from(number: u64) -> usize {
    if number < 1 {
        1
    } else if number > usize::MAX {
        usize::MAX
    } else {
        number as usize
    }
}

/// Reads the settings of a hash job: the payload's `max_files`,
/// `fetch_batch_size` and `algorithm` where it has them, the configured
/// batch size and algorithm where it has not. An algorithm that is none is
/// refused.
pub fn hash_job_settings(job: &JobRecord, config: &WorkerConfig) -> (result: Result<
    HashJobSettings,
    ConfigError,
>)
    ensures
        ({
            let fetch_batch_size = match payload_u64(job.payload, "fetch_batch_size"@) {
                Some(number) => batch_size_from(number),
                None => config.hash_fetch_batch_size,
            };
            let max_files = payload_u64(job.payload, "max_files"@);
            match payload_text(job.payload, "algorithm"@) {
                Some(name) => match algorithm_named(lowercased(trimmed(name))) {
                    Some(algorithm) => result == Ok::<HashJobSettings, ConfigError>(
                        HashJobSettings { max_files, fetch_batch_size, algorithm },
                    ),
                    None => result == Err::<HashJobSettings, ConfigError>(
                        ConfigError::UnsupportedHashAlgorithm,
                    ),
                },
                None => result == Ok::<HashJobSettings, ConfigError>(
                    HashJobSettings { max_files, fetch_batch_size, algorithm: config.hash_algorithm },
                ),
            }
        }),
{
    let max_files = extract_optional_u64(&job.payload, "max_files");
    let fetch_batch_size = match extract_optional_u64(&job.payload, "fetch_batch_size") {
        Some(number) => {
            if number < 1 {
                1
            } else if number > usize::MAX as u64 {
                usize::MAX
            } else {
                number as usize
            }
        },
        None => config.hash_fetch_batch_size,
    };
    let algorithm = match extract_optional_string(&job.payload, "algorithm") {
        Some(name) => match HashAlgorithm::parse(name.as_str()) {
            Ok(algorithm) => algorithm,
            Err(fault) => {
                return Err(fault);
            },
        },
        None => config.hash_algorithm,
    };
    Ok(HashJobSettings { max_files, fetch_batch_size, algorithm })
}

/// How many files the next batch of a hash job may reserve, given how many
/// it has processed: nothing once the upper bound is reached, else what is
/// left up to the bound, and never more than the batch size.
pub open spec fn batch_size_for(settings: HashJobSettings, processed_files: i64) -> int {
    match settings.max_files {
        Some(limit) => if processed_files >= limit {
            0
        } else if limit - processed_files < settings.fetch_batch_size {
            limit - processed_files
        } else {
            settings.fetch_batch_size as int
        },
        None => settings.fetch_batch_size as int,
    }
}

/// How many files the next batch of a hash job may reserve; the job is done
/// when this is none.
pub fn next_batch_size(settings: &HashJobSettings, processed_files: i64) -> (size: usize)
    ensures
        size == batch_size_for(*settings, processed_files),
{
    match settings.max_files {
        Some(limit) => {
            let left: i128 = limit as i128 - processed_files as i128;
            if left <= 0 {
                0
            } else if left < settings.fetch_batch_size as i128 {
                left as usize
            } else {
                settings.fetch_batch_size
            }
        },
        None => settings.fetch_batch_size,
    }
}

/// A file that a hash job has reserved stays reserved to it while the claim
/// is younger than the claim time: no batch takes it before then.
pub proof fn lemma_live_claim_reserves_file(
    row: FileRowView,
    token: Seq<char>,
    now: i64,
    later: i64,
    ttl_seconds: u64,
)
    requires
        later < now + ttl_seconds,
    ensures
        !row.reserved(token, now).is_hashable(later, ttl_seconds),
{
}

/// Whether the digest of a row, where it has one, comes with the size and
/// the modification time of the file it was computed from.
pub open spec fn digest_is_described(row: FileRowView) -> bool {
    row.content_hash is Some ==> row.hashed_size_bytes is Some && row.hashed_mtime_ns is Some
}

/// Whatever the hash engine writes on a row, a digest on the row stays
/// described by the size and time it was computed for.
pub proof fn lemma_hash_engine_keeps_digest_described(
    row: FileRowView,
    token: Seq<char>,
    stat: FileStat,
    algorithm: HashAlgorithm,
    digest: Seq<u8>,
    message: Seq<char>,
    previous_error_count: i64,
    now: i64,
    retry_base_seconds: u64,
    retry_max_seconds: u64,
)
    requires
        digest_is_described(row),
    ensures
        digest_is_described(row.reserved(token, now)),
        digest_is_described(row.marked_missing(now)),
        digest_is_described(row.requeued(stat, now)),
        digest_is_described(
            row.hash_failed(
                previous_error_count,
                message,
                now,
                retry_base_seconds,
                retry_max_seconds,
            ),
        ),
        digest_is_described(row.hash_committed(algorithm, digest, stat, now)),
{
}

} // verus!
