//! The lease protocol that all queues share, candidate selection, and the
//! queue of scan and hash jobs.

use crate::config::{HashAlgorithm, WorkerConfig};
use crate::payload::{is_payload_of, parse_payload};
use crate::text::{borrowed_text, chars_of, owned_text, text_equal, text_is, text_view};
use vstd::prelude::*;
use vstd::string::StringExecFns;

verus! {

/// The kind of a job this worker serves.
#[derive(Clone, Copy, Debug, PartialEq, Eq, Structural)]
pub enum JobKind {
    Scan,
    Hash,
}

/// The name under which a kind is stored.
pub open spec fn job_kind_name(kind: JobKind) -> Seq<char> {
    match kind {
        JobKind::Scan => "scan"@,
        JobKind::Hash => "hash"@,
    }
}

/// The kind stored under a name, if the name is one.
pub open spec fn job_kind_named(name: Seq<char>) -> Option<JobKind> {
    if name == "scan"@ {
        Some(JobKind::Scan)
    } else if name == "hash"@ {
        Some(JobKind::Hash)
    } else {
        None
    }
}

impl JobKind {
    /// The name under which the kind is stored.
    pub fn as_db_value(self) -> (name: &'static str)
        ensures
            name@ == job_kind_name(self),
    {
        match self {
            JobKind::Scan => "scan",
            JobKind::Hash => "hash",
        }
    }

    /// The kind with exactly this stored name.
    pub fn parse(raw: &str) -> (kind: Option<JobKind>)
        ensures
            kind == job_kind_named(raw@),
    {
        if text_equal(raw, "scan") {
            Some(JobKind::Scan)
        } else if text_equal(raw, "hash") {
            Some(JobKind::Hash)
        } else {
            None
        }
    }
}

/// Why the store refused an operation.
#[derive(Clone, Copy, Debug, PartialEq, Eq, Structural)]
pub enum StoreError {
    /// A heartbeat found no running row held by this worker with a live lease.
    LeaseUpdateRejected,
    /// A finish found no running row held by this worker.
    FinishRejected,
    /// A claimed maintenance job asks for a checkpoint mode that does not exist.
    UnsupportedCheckpointMode,
}

/// A text that the store treats as no text at all: absent, or nothing but
/// spaces.
pub open spec fn is_blank(value: Option<Seq<char>>) -> bool {
    match value {
        Some(text) => all_spaces(text),
        None => true,
    }
}

/// A text that holds nothing but spaces.
pub open spec fn all_spaces(text: Seq<char>) -> bool {
    forall|i: int| 0 <= i < text.len() ==> text[i] == ' '
}

/// Whether a text holds nothing but spaces.
fn only_spaces(text: &str) -> (blank: bool)
    ensures
        blank == all_spaces(text@),
{
    let chars = chars_of(text);
    let mut i: usize = 0;
    while i < chars.len()
        invariant
            i <= chars.len(),
            chars@ == text@,
            forall|j: int| 0 <= j < i ==> chars@[j] == ' ',
        decreases chars.len() - i,
    {
        if chars[i] != ' ' {
            assert(text@[i as int] != ' ');
            return false;
        }
        i += 1;
    }
    true
}

/// Whether an optional text is blank.
pub fn check_blank(value: &Option<String>) -> (blank: bool)
    ensures
        blank == is_blank(text_view(*value)),
{
    match value {
        Some(text) => only_spaces(text.as_str()),
        None => true,
    }
}

/// The instant a lease granted at `now` for `ttl_seconds` runs out; the far
/// end of time where the sum does not fit.
pub open spec fn lease_deadline(now: int, ttl_seconds: int) -> int {
    if now + ttl_seconds > i64::MAX {
        i64::MAX as int
    } else {
        now + ttl_seconds
    }
}

/// The instant `seconds` after `now`, cut at the far end of time.
pub fn deadline_after(now: i64, seconds: u64) -> (deadline: i64)
    ensures
        deadline == lease_deadline(now as int, seconds as int),
{
    match now.checked_add_unsigned(seconds) {
        Some(deadline) => deadline,
        None => i64::MAX,
    }
}

/// A lease is over at `now` when it has no deadline or the deadline has come.
pub open spec fn lease_is_over(expires_at: Option<i64>, now: i64) -> bool {
    match expires_at {
        Some(deadline) => deadline <= now,
        None => true,
    }
}

/// Whether a lease is over at `now`.
pub fn lease_over(expires_at: Option<i64>, now: i64) -> (over: bool)
    ensures
        over == lease_is_over(expires_at, now),
{
    match expires_at {
        Some(deadline) => deadline <= now,
        None => true,
    }
}

/// The code recorded on a row whose lease ran out with no error of its own.
pub open spec fn lease_expired_code() -> Seq<char> {
    "LEASE_EXPIRED"@
}

/// The error text a sweep leaves on a row: the row's own if it has one, else
/// `fallback`.
pub open spec fn kept_or(value: Option<Seq<char>>, fallback: Seq<char>) -> Option<Seq<char>> {
    if is_blank(value) {
        Some(fallback)
    } else {
        value
    }
}

/// Puts `fallback` where the text is blank.
pub fn keep_or(value: &mut Option<String>, fallback: &str)
    ensures
        text_view(*final(value)) == kept_or(text_view(*old(value)), fallback@),
{
    if check_blank(value) {
        *value = Some(String::from_str(fallback));
    }
}

/// Where a queue row stands in its life.
#[derive(Clone, Copy, Debug, PartialEq, Eq, Structural)]
pub enum QueueStatus {
    Pending,
    Running,
    Retryable,
    Completed,
    Failed,
    Ready,
}

/// The name under which a status is stored.
pub open spec fn status_name(status: QueueStatus) -> Seq<char> {
    match status {
        QueueStatus::Pending => "pending"@,
        QueueStatus::Running => "running"@,
        QueueStatus::Retryable => "retryable"@,
        QueueStatus::Completed => "completed"@,
        QueueStatus::Failed => "failed"@,
        QueueStatus::Ready => "ready"@,
    }
}

/// The status stored under a name, if the name is one.
pub open spec fn status_named(name: Seq<char>) -> Option<QueueStatus> {
    if name == "pending"@ {
        Some(QueueStatus::Pending)
    } else if name == "running"@ {
        Some(QueueStatus::Running)
    } else if name == "retryable"@ {
        Some(QueueStatus::Retryable)
    } else if name == "completed"@ {
        Some(QueueStatus::Completed)
    } else if name == "failed"@ {
        Some(QueueStatus::Failed)
    } else if name == "ready"@ {
        Some(QueueStatus::Ready)
    } else {
        None
    }
}

impl QueueStatus {
    /// The name under which the status is stored.
    pub fn as_db_value(self) -> (name: &'static str)
        ensures
            name@ == status_name(self),
    {
        match self {
            QueueStatus::Pending => "pending",
            QueueStatus::Running => "running",
            QueueStatus::Retryable => "retryable",
            QueueStatus::Completed => "completed",
            QueueStatus::Failed => "failed",
            QueueStatus::Ready => "ready",
        }
    }

    /// The status with exactly this stored name.
    pub fn parse(raw: &str) -> (status: Option<QueueStatus>)
        ensures
            status == status_named(raw@),
    {
        if text_equal(raw, "pending") {
            Some(QueueStatus::Pending)
        } else if text_equal(raw, "running") {
            Some(QueueStatus::Running)
        } else if text_equal(raw, "retryable") {
            Some(QueueStatus::Retryable)
        } else if text_equal(raw, "completed") {
            Some(QueueStatus::Completed)
        } else if text_equal(raw, "failed") {
            Some(QueueStatus::Failed)
        } else if text_equal(raw, "ready") {
            Some(QueueStatus::Ready)
        } else {
            None
        }
    }
}

/// The part of a queue row that the lease protocol reads and writes.
#[derive(Clone, Debug, PartialEq, Eq)]
pub struct LeaseState {
    pub status: QueueStatus,
    pub worker_id: Option<String>,
    pub worker_heartbeat_at: Option<i64>,
    pub lease_expires_at: Option<i64>,
    pub error_code: Option<String>,
    pub error_message: Option<String>,
}

/// A [`LeaseState`] as plain values.
pub struct LeaseStateView {
    pub status: QueueStatus,
    pub worker_id: Option<Seq<char>>,
    pub worker_heartbeat_at: Option<i64>,
    pub lease_expires_at: Option<i64>,
    pub error_code: Option<Seq<char>>,
    pub error_message: Option<Seq<char>>,
}

impl View for LeaseState {
    type V = LeaseStateView;

    open spec fn view(&self) -> LeaseStateView {
        LeaseStateView {
            status: self.status,
            worker_id: text_view(self.worker_id),
            worker_heartbeat_at: self.worker_heartbeat_at,
            lease_expires_at: self.lease_expires_at,
            error_code: text_view(self.error_code),
            error_message: text_view(self.error_message),
        }
    }
}

impl LeaseStateView {
    /// Running, with a lease that is over at `now`: what a sweep recovers.
    pub open spec fn is_abandoned(self, now: i64) -> bool {
        self.status == QueueStatus::Running && lease_is_over(self.lease_expires_at, now)
    }

    /// The state a sweep leaves: an abandoned row goes to `recovered` without
    /// worker or lease, and gets the lease-expired code and `message` where it
    /// has no error text of its own; any other row stays as it is.
    pub open spec fn swept(self, now: i64, recovered: QueueStatus, message: Seq<char>) -> Self {
        if self.is_abandoned(now) {
            LeaseStateView {
                status: recovered,
                worker_id: None,
                worker_heartbeat_at: None,
                lease_expires_at: None,
                error_code: kept_or(self.error_code, lease_expired_code()),
                error_message: kept_or(self.error_message, message),
            }
        } else {
            self
        }
    }

    /// Whether a conditional claim finds the row in a state it accepts.
    pub open spec fn is_claimable(self, accept_retryable: bool) -> bool {
        self.status == QueueStatus::Pending || (accept_retryable && self.status
            == QueueStatus::Retryable)
    }

    /// The state after a successful claim by `worker` at `now`.
    pub open spec fn claimed(self, worker: Seq<char>, now: i64, ttl_seconds: u64) -> Self {
        LeaseStateView {
            status: QueueStatus::Running,
            worker_id: Some(worker),
            worker_heartbeat_at: Some(now),
            lease_expires_at: Some(lease_deadline(now as int, ttl_seconds as int) as i64),
            ..self
        }
    }

    /// Running and held by `worker`.
    pub open spec fn is_held_by(self, worker: Seq<char>) -> bool {
        self.status == QueueStatus::Running && self.worker_id == Some(worker)
    }

    /// Held by `worker` with a lease that has not run out at `now`.
    pub open spec fn is_live_for(self, worker: Seq<char>, now: i64) -> bool {
        self.is_held_by(worker) && !lease_is_over(self.lease_expires_at, now)
    }

    /// The state after a heartbeat at `now`.
    pub open spec fn refreshed(self, now: i64, ttl_seconds: u64) -> Self {
        LeaseStateView {
            worker_heartbeat_at: Some(now),
            lease_expires_at: Some(lease_deadline(now as int, ttl_seconds as int) as i64),
            ..self
        }
    }

    /// The state after the holder finished at `now`: the lease is given up
    /// and the error texts are replaced.
    pub open spec fn finished(
        self,
        outcome: QueueStatus,
        code: Option<Seq<char>>,
        message: Option<Seq<char>>,
        now: i64,
    ) -> Self {
        LeaseStateView {
            status: outcome,
            worker_heartbeat_at: Some(now),
            lease_expires_at: None,
            error_code: code,
            error_message: message,
            ..self
        }
    }
}

impl LeaseState {
    /// A fresh pending state: no worker, no lease, no error.
    pub fn pending() -> (state: LeaseState)
        ensures
            state@ == (LeaseStateView {
                status: QueueStatus::Pending,
                worker_id: None,
                worker_heartbeat_at: None,
                lease_expires_at: None,
                error_code: None,
                error_message: None,
            }),
    {
        LeaseState {
            status: QueueStatus::Pending,
            worker_id: None,
            worker_heartbeat_at: None,
            lease_expires_at: None,
            error_code: None,
            error_message: None,
        }
    }

    /// Whether the row is running with a lease that is over at `now`.
    pub fn is_abandoned(&self, now: i64) -> (abandoned: bool)
        ensures
            abandoned == self@.is_abandoned(now),
    {
        self.status == QueueStatus::Running && lease_over(self.lease_expires_at, now)
    }

    /// The expiry sweep on one row; tells whether the row was recovered.
    pub fn sweep(&mut self, now: i64, recovered: QueueStatus, message: &str) -> (changed: bool)
        ensures
            final(self)@ == old(self)@.swept(now, recovered, message@),
            changed == old(self)@.is_abandoned(now),
    {
        if !self.is_abandoned(now) {
            return false;
        }
        proof {
            reveal_strlit("LEASE_EXPIRED");
        }
        self.status = recovered;
        self.worker_id = None;
        self.worker_heartbeat_at = None;
        self.lease_expires_at = None;
        keep_or(&mut self.error_code, "LEASE_EXPIRED");
        keep_or(&mut self.error_message, message);
        true
    }

    /// The conditional claim on one row: it takes effect only on a row that
    /// is still claimable, and tells whether it did.
    pub fn try_claim(
        &mut self,
        accept_retryable: bool,
        worker: &str,
        now: i64,
        ttl_seconds: u64,
    ) -> (won: bool)
        ensures
            won == old(self)@.is_claimable(accept_retryable),
            final(self)@ == if won {
                old(self)@.claimed(worker@, now, ttl_seconds)
            } else {
                old(self)@
            },
    {
        let claimable = self.status == QueueStatus::Pending || (accept_retryable && self.status
            == QueueStatus::Retryable);
        if !claimable {
            return false;
        }
        self.status = QueueStatus::Running;
        self.worker_id = Some(String::from_str(worker));
        self.worker_heartbeat_at = Some(now);
        self.lease_expires_at = Some(deadline_after(now, ttl_seconds));
        true
    }

    /// Whether the row is running and held by `worker`.
    pub fn is_held_by(&self, worker: &str) -> (held: bool)
        ensures
            held == self@.is_held_by(worker@),
    {
        self.status == QueueStatus::Running && text_is(&self.worker_id, worker)
    }

    /// Whether the row is held by `worker` with a lease still running at `now`.
    pub fn is_live_for(&self, worker: &str, now: i64) -> (live: bool)
        ensures
            live == self@.is_live_for(worker@, now),
    {
        self.is_held_by(worker) && !lease_over(self.lease_expires_at, now)
    }

    /// The heartbeat on one row: it takes effect only while `worker` holds a
    /// live lease, and tells whether it did.
    pub fn try_refresh(&mut self, worker: &str, now: i64, ttl_seconds: u64) -> (kept: bool)
        ensures
            kept == old(self)@.is_live_for(worker@, now),
            final(self)@ == if kept {
                old(self)@.refreshed(now, ttl_seconds)
            } else {
                old(self)@
            },
    {
        if !self.is_live_for(worker, now) {
            return false;
        }
        self.worker_heartbeat_at = Some(now);
        self.lease_expires_at = Some(deadline_after(now, ttl_seconds));
        true
    }

    /// The finish on one row: it takes effect only on a row that `worker`
    /// holds, and tells whether it did.
    pub fn try_finish(
        &mut self,
        worker: &str,
        outcome: QueueStatus,
        code: Option<&str>,
        message: Option<&str>,
        now: i64,
    ) -> (done: bool)
        ensures
            done == old(self)@.is_held_by(worker@),
            final(self)@ == if done {
                old(self)@.finished(outcome, borrowed_text(code), borrowed_text(message), now)
            } else {
                old(self)@
            },
    {
        if !self.is_held_by(worker) {
            return false;
        }
        self.status = outcome;
        self.worker_heartbeat_at = Some(now);
        self.lease_expires_at = None;
        self.error_code = owned_text(code);
        self.error_message = owned_text(message);
        true
    }
}

/// One claim attempt: who tries, and when.
pub struct ClaimAttempt {
    pub worker: Seq<char>,
    pub now: i64,
}

/// How many of the claim attempts, made one after another on the same row,
/// win.
pub open spec fn claim_wins(
    state: LeaseStateView,
    accept_retryable: bool,
    attempts: Seq<ClaimAttempt>,
    ttl_seconds: u64,
) -> nat
    decreases attempts.len(),
{
    if attempts.len() == 0 {
        0
    } else if state.is_claimable(accept_retryable) {
        1 + claim_wins(
            state.claimed(attempts[0].worker, attempts[0].now, ttl_seconds),
            accept_retryable,
            attempts.drop_first(),
            ttl_seconds,
        )
    } else {
        claim_wins(state, accept_retryable, attempts.drop_first(), ttl_seconds)
    }
}

/// Of any claim attempts made one after another on the same row, at most one
/// wins; exactly one does when the row is claimable and there is an attempt;
/// none does on a row that is not claimable.
pub proof fn lemma_claim_wins_at_most_once(
    state: LeaseStateView,
    accept_retryable: bool,
    attempts: Seq<ClaimAttempt>,
    ttl_seconds: u64,
)
    ensures
        claim_wins(state, accept_retryable, attempts, ttl_seconds) <= 1,
        !state.is_claimable(accept_retryable) ==> claim_wins(
            state,
            accept_retryable,
            attempts,
            ttl_seconds,
        ) == 0,
        state.is_claimable(accept_retryable) && attempts.len() > 0 ==> claim_wins(
            state,
            accept_retryable,
            attempts,
            ttl_seconds,
        ) == 1,
    decreases attempts.len(),
{
    if attempts.len() > 0 {
        if state.is_claimable(accept_retryable) {
            lemma_claim_wins_at_most_once(
                state.claimed(attempts[0].worker, attempts[0].now, ttl_seconds),
                accept_retryable,
                attempts.drop_first(),
                ttl_seconds,
            );
        } else {
            lemma_claim_wins_at_most_once(
                state,
                accept_retryable,
                attempts.drop_first(),
                ttl_seconds,
            );
        }
    }
}

/// A sweep at `now` leaves no row running whose lease is over at `now`,
/// provided the state that recovered rows go to is not the running state.
pub proof fn lemma_sweep_leaves_no_abandoned_row(
    state: LeaseStateView,
    now: i64,
    recovered: QueueStatus,
    message: Seq<char>,
)
    requires
        recovered != QueueStatus::Running,
    ensures
        !state.swept(now, recovered, message).is_abandoned(now),
        state.is_abandoned(now) ==> state.swept(now, recovered, message).status == recovered,
        state.is_abandoned(now) && is_blank(state.error_code) ==> state.swept(
            now,
            recovered,
            message,
        ).error_code == Some(lease_expired_code()),
{
}

/// What candidate selection reads of a row: whether the row is admissible,
/// and the two values that order admissible rows.
#[derive(Clone, Copy, Debug, PartialEq, Eq, Structural)]
pub struct Ticket {
    pub eligible: bool,
    pub key: i64,
    pub tie: i64,
}

/// Whether the ticket at position `i` is served no later than the one at
/// `j`: by smaller key, then by smaller tie, then by earlier position.
pub open spec fn served_no_later(a: Ticket, i: int, b: Ticket, j: int) -> bool {
    a.key < b.key || (a.key == b.key && (a.tie < b.tie || (a.tie == b.tie && i <= j)))
}

/// Whether position `i` holds the admissible ticket that is served first.
pub open spec fn is_first_served(tickets: Seq<Ticket>, i: int) -> bool {
    &&& 0 <= i < tickets.len()
    &&& tickets[i].eligible
    &&& forall|j: int|
        0 <= j < tickets.len() && tickets[j].eligible ==> served_no_later(
            tickets[i],
            i,
            #[trigger] tickets[j],
            j,
        )
}

/// Whether any ticket is admissible.
pub open spec fn any_eligible(tickets: Seq<Ticket>) -> bool {
    exists|j: int| 0 <= j < tickets.len() && (#[trigger] tickets[j]).eligible
}

/// The position of the admissible ticket that is served first, if any ticket
/// is admissible.
pub open spec fn first_served(tickets: Seq<Ticket>) -> Option<int> {
    if exists|i: int| is_first_served(tickets, i) {
        Some(choose|i: int| is_first_served(tickets, i))
    } else {
        None
    }
}

/// At most one position is served first.
pub proof fn lemma_first_served_is_unique(tickets: Seq<Ticket>, i: int, k: int)
    requires
        is_first_served(tickets, i),
        is_first_served(tickets, k),
    ensures
        i == k,
{
    assert(served_no_later(tickets[i], i, tickets[k], k));
    assert(served_no_later(tickets[k], k, tickets[i], i));
}

/// Picks the admissible ticket that is served first.
pub fn choose_first(tickets: &Vec<Ticket>) -> (pick: Option<usize>)
    ensures
        match pick {
            Some(i) => first_served(tickets@) == Some(i as int) && is_first_served(
                tickets@,
                i as int,
            ),
            None => first_served(tickets@) is None && !any_eligible(tickets@),
        },
{
    let mut best: Option<usize> = None;
    let mut i: usize = 0;
    while i < tickets.len()
        invariant
            i <= tickets.len(),
            match best {
                Some(b) => b < i && tickets@[b as int].eligible && forall|j: int|
                    0 <= j < i && tickets@[j].eligible ==> served_no_later(
                        tickets@[b as int],
                        b as int,
                        #[trigger] tickets@[j],
                        j,
                    ),
                None => forall|j: int| 0 <= j < i ==> !(#[trigger] tickets@[j]).eligible,
            },
        decreases tickets.len() - i,
    {
        let current = tickets[i];
        if current.eligible {
            match best {
                Some(b) => {
                    let held = tickets[b];
                    if current.key < held.key || (current.key == held.key && current.tie
                        < held.tie) {
                        best = Some(i);
                    }
                },
                None => {
                    best = Some(i);
                },
            }
        }
        i += 1;
    }
    proof {
        match best {
            Some(b) => {
                assert(is_first_served(tickets@, b as int));
                let chosen = choose|k: int| is_first_served(tickets@, k);
                lemma_first_served_is_unique(tickets@, b as int, chosen);
            },
            None => {
                assert forall|k: int| !is_first_served(tickets@, k) by {
                    if 0 <= k < tickets@.len() {
                        assert(!tickets@[k].eligible);
                    }
                }
            },
        }
    }
    best
}

/// A scan or hash job as the store holds it.
#[derive(Clone, Debug, PartialEq, Eq)]
pub struct JobRow {
    pub id: String,
    /// The kind, where it is one this worker serves.
    pub kind: Option<JobKind>,
    /// The payload as stored: the text of a JSON document, if any.
    pub payload: Option<String>,
    pub lease: LeaseState,
    pub processed_items: i64,
    /// Progress in thousandths of the whole.
    pub progress_permille: u16,
    pub created_at: i64,
    pub started_at: Option<i64>,
    pub finished_at: Option<i64>,
    pub updated_at: i64,
}

/// A [`JobRow`] as plain values.
pub struct JobRowView {
    pub id: Seq<char>,
    pub kind: Option<JobKind>,
    pub payload: Option<Seq<char>>,
    pub lease: LeaseStateView,
    pub processed_items: i64,
    pub progress_permille: u16,
    pub created_at: i64,
    pub started_at: Option<i64>,
    pub finished_at: Option<i64>,
    pub updated_at: i64,
}

impl View for JobRow {
    type V = JobRowView;

    open spec fn view(&self) -> JobRowView {
        JobRowView {
            id: self.id@,
            kind: self.kind,
            payload: text_view(self.payload),
            lease: self.lease@,
            processed_items: self.processed_items,
            progress_permille: self.progress_permille,
            created_at: self.created_at,
            started_at: self.started_at,
            finished_at: self.finished_at,
            updated_at: self.updated_at,
        }
    }
}

/// A claimed job as the engines receive it.
#[derive(Debug)]
pub struct JobRecord {
    pub id: String,
    pub kind: JobKind,
    pub payload: serde_json::Value,
}

/// The rows of a job table as plain values.
pub open spec fn job_views(rows: Seq<JobRow>) -> Seq<JobRowView> {
    rows.map_values(|row: JobRow| row@)
}

/// The first of two optional instants that is set.
pub open spec fn or_instant(value: Option<i64>, fallback: i64) -> Option<i64> {
    match value {
        Some(_) => value,
        None => Some(fallback),
    }
}

/// The message a sweep leaves on a recovered scan or hash job.
pub open spec fn job_recovery_message() -> Seq<char> {
    "Lease expired and recovered by rust worker claim path"@
}

/// The message a sweep leaves on a recovered row of the other queues.
pub open spec fn requeue_message() -> Seq<char> {
    "Lease expired and requeued by rust worker claim path"@
}

impl JobRowView {
    /// Whether the expiry sweep recovers the row at `now`.
    pub open spec fn is_abandoned(self, now: i64) -> bool {
        self.kind is Some && self.lease.is_abandoned(now)
    }

    /// The row after the expiry sweep at `now`: an abandoned job becomes
    /// retryable and counts as finished now unless it already did.
    pub open spec fn swept(self, now: i64) -> Self {
        if self.is_abandoned(now) {
            JobRowView {
                lease: self.lease.swept(now, QueueStatus::Retryable, job_recovery_message()),
                finished_at: or_instant(self.finished_at, now),
                updated_at: now,
                ..self
            }
        } else {
            self
        }
    }

    /// Whether the row can be claimed: pending, of a served kind, and the
    /// requested job where one was requested.
    pub open spec fn is_candidate(self, requested: Option<Seq<char>>) -> bool {
        &&& self.lease.status == QueueStatus::Pending
        &&& self.kind is Some
        &&& (requested matches Some(id) ==> self.id == id)
    }

    /// What candidate selection reads of the row: oldest first.
    pub open spec fn ticket(self, requested: Option<Seq<char>>) -> Ticket {
        Ticket { eligible: self.is_candidate(requested), key: self.created_at, tie: 0 }
    }

    /// The row after `worker` claimed it at `now`.
    pub open spec fn claimed(self, worker: Seq<char>, now: i64, ttl_seconds: u64) -> Self {
        JobRowView {
            lease: self.lease.claimed(worker, now, ttl_seconds),
            started_at: or_instant(self.started_at, now),
            updated_at: now,
            ..self
        }
    }

    /// Whether a heartbeat for job `id` by `worker` at `now` reaches the row.
    pub open spec fn accepts_heartbeat(self, id: Seq<char>, worker: Seq<char>, now: i64) -> bool {
        self.id == id && self.kind is Some && self.lease.is_live_for(worker, now)
    }

    /// The row after a heartbeat that reports progress.
    pub open spec fn refreshed(
        self,
        processed_items: i64,
        progress_permille: u16,
        now: i64,
        ttl_seconds: u64,
    ) -> Self {
        JobRowView {
            lease: self.lease.refreshed(now, ttl_seconds),
            processed_items,
            progress_permille,
            updated_at: now,
            ..self
        }
    }

    /// Whether a finish for job `id` by `worker` reaches the row.
    pub open spec fn accepts_finish(self, id: Seq<char>, worker: Seq<char>) -> bool {
        self.id == id && self.kind is Some && self.lease.is_held_by(worker)
    }

    /// The row after its holder finished it: completed in full, or failed
    /// with the worker-failure code and `message`.
    pub open spec fn finished(self, success: bool, message: Option<Seq<char>>, now: i64) -> Self {
        JobRowView {
            lease: if success {
                self.lease.finished(QueueStatus::Completed, None, message, now)
            } else {
                self.lease.finished(QueueStatus::Failed, Some("WORKER_FAILURE"@), message, now)
            },
            progress_permille: if success {
                1000
            } else {
                self.progress_permille
            },
            finished_at: Some(now),
            updated_at: now,
            ..self
        }
    }

    /// Whether the row is work that a claim cycle could pick up at `now`:
    /// pending, or running on a lease that is over.
    pub open spec fn is_runnable(self, now: i64) -> bool {
        self.kind is Some && (self.lease.status == QueueStatus::Pending || self.lease.is_abandoned(
            now,
        ))
    }
}

/// The job table after the expiry sweep at `now`.
pub open spec fn swept_jobs(rows: Seq<JobRowView>, now: i64) -> Seq<JobRowView> {
    rows.map_values(|row: JobRowView| row.swept(now))
}

/// What candidate selection reads of a job table.
pub open spec fn job_tickets(rows: Seq<JobRowView>, requested: Option<Seq<char>>) -> Seq<Ticket> {
    rows.map_values(|row: JobRowView| row.ticket(requested))
}

/// What a heartbeat for job `id` reads of a job table: the rows it reaches.
pub open spec fn job_heartbeat_tickets(
    rows: Seq<JobRowView>,
    id: Seq<char>,
    worker: Seq<char>,
    now: i64,
) -> Seq<Ticket> {
    rows.map_values(
        |row: JobRowView| Ticket { eligible: row.accepts_heartbeat(id, worker, now), key: 0, tie: 0 },
    )
}

/// What a finish for job `id` reads of a job table: the rows it reaches.
pub open spec fn job_finish_tickets(rows: Seq<JobRowView>, id: Seq<char>, worker: Seq<char>) -> Seq<
    Ticket,
> {
    rows.map_values(
        |row: JobRowView| Ticket { eligible: row.accepts_finish(id, worker), key: 0, tie: 0 },
    )
}

/// Whether some row of the table is runnable at `now`.
pub open spec fn any_runnable_job(rows: Seq<JobRowView>, now: i64) -> bool {
    exists|i: int| 0 <= i < rows.len() && (#[trigger] rows[i]).is_runnable(now)
}

/// Whether the scan and hash queue holds work that a claim cycle could pick
/// up at `now`.
pub fn has_runnable_scan_hash_work(jobs: &Vec<JobRow>, now: i64) -> (runnable: bool)
    ensures
        runnable == any_runnable_job(job_views(jobs@), now),
{
    let mut i: usize = 0;
    while i < jobs.len()
        invariant
            i <= jobs.len(),
            forall|j: int| 0 <= j < i ==> !(#[trigger] job_views(jobs@)[j]).is_runnable(now),
        decreases jobs.len() - i,
    {
        let row = &jobs[i];
        if row.kind.is_some() && (row.lease.status == QueueStatus::Pending
            || row.lease.is_abandoned(now)) {
            assert(job_views(jobs@)[i as int].is_runnable(now));
            return true;
        }
        assert(!job_views(jobs@)[i as int].is_runnable(now));
        i += 1;
    }
    false
}

/// The expiry sweep over the job table.
pub fn sweep_jobs(jobs: &mut Vec<JobRow>, now: i64)
    ensures
        job_views(final(jobs)@) == swept_jobs(job_views(old(jobs)@), now),
{
    let mut i: usize = 0;
    while i < jobs.len()
        invariant
            i <= jobs.len(),
            jobs.len() == old(jobs).len(),
            forall|j: int| 0 <= j < i ==> (#[trigger] jobs@[j])@ == old(jobs)@[j]@.swept(now),
            forall|j: int| i <= j < jobs.len() ==> #[trigger] jobs@[j] == old(jobs)@[j],
        decreases jobs.len() - i,
    {
        let row = &mut jobs[i];
        if row.kind.is_some() {
            proof {
                reveal_strlit("Lease expired and recovered by rust worker claim path");
            }
            if row.lease.sweep(
                now,
                QueueStatus::Retryable,
                "Lease expired and recovered by rust worker claim path",
            ) {
                if row.finished_at.is_none() {
                    row.finished_at = Some(now);
                }
                row.updated_at = now;
            }
        }
        i += 1;
    }
    assert(job_views(jobs@) =~= swept_jobs(job_views(old(jobs)@), now));
}

/// What a claim on the scan and hash queue does: it recovers abandoned
/// jobs, picks the oldest pending job (or the requested one, if it is
/// pending), marks it running under a fresh lease and hands it out with its
/// payload; the queue is only swept where there is nothing to pick.
pub open spec fn job_claim_effect(
    before: Seq<JobRowView>,
    after: Seq<JobRowView>,
    claimed: Option<JobRecord>,
    requested: Option<Seq<char>>,
    worker: Seq<char>,
    ttl_seconds: u64,
    now: i64,
) -> bool {
    let swept = swept_jobs(before, now);
    match first_served(job_tickets(swept, requested)) {
        Some(i) => {
            &&& after == swept.update(i, swept[i].claimed(worker, now, ttl_seconds))
            &&& claimed matches Some(record)
            &&& record.id@ == swept[i].id
            &&& Some(record.kind) == swept[i].kind
            &&& is_payload_of(
                record.payload,
                match swept[i].payload {
                    Some(text) => text,
                    None => "{}"@,
                },
            )
        },
        None => after == swept && claimed is None,
    }
}

/// Claims the next scan or hash job for this worker.
pub fn claim_scan_hash_job(
    jobs: &mut Vec<JobRow>,
    config: &WorkerConfig,
    requested_job_id: Option<&str>,
    now: i64,
) -> (claimed: Option<JobRecord>)
    ensures
        job_claim_effect(
            job_views(old(jobs)@),
            job_views(final(jobs)@),
            claimed,
            borrowed_text(requested_job_id),
            config.worker_id@,
            config.job_lock_ttl_seconds,
            now,
        ),
{
    sweep_jobs(jobs, now);
    let ghost swept = job_views(jobs@);
    let ghost requested = borrowed_text(requested_job_id);
    let mut tickets: Vec<Ticket> = Vec::new();
    let mut i: usize = 0;
    while i < jobs.len()
        invariant
            i <= jobs.len(),
            tickets@.len() == i,
            swept == job_views(jobs@),
            requested == borrowed_text(requested_job_id),
            forall|j: int| 0 <= j < i ==> #[trigger] tickets@[j] == swept[j].ticket(requested),
        decreases jobs.len() - i,
    {
        let row = &jobs[i];
        let wanted = match requested_job_id {
            Some(id) => text_equal(row.id.as_str(), id),
            None => true,
        };
        let eligible = row.lease.status == QueueStatus::Pending && row.kind.is_some() && wanted;
        assert(eligible == swept[i as int].is_candidate(requested));
        tickets.push(Ticket { eligible, key: row.created_at, tie: 0 });
        i += 1;
    }
    assert(tickets@ =~= job_tickets(swept, requested));
    let pick = match choose_first(&tickets) {
        Some(pick) => pick,
        None => {
            return None;
        },
    };
    let row = &mut jobs[pick];
    if !row.lease.try_claim(
        false,
        config.worker_id.as_str(),
        now,
        config.job_lock_ttl_seconds,
    ) {
        return None;
    }
    if row.started_at.is_none() {
        row.started_at = Some(now);
    }
    row.updated_at = now;
    let id = row.id.clone();
    let kind = match row.kind {
        Some(kind) => kind,
        None => {
            return None;
        },
    };
    let payload = match &row.payload {
        Some(text) => parse_payload(text.as_str()),
        None => parse_payload("{}"),
    };
    assert(job_views(jobs@) =~= swept.update(
        pick as int,
        swept[pick as int].claimed(config.worker_id@, now, config.job_lock_ttl_seconds),
    ));
    Some(JobRecord { id, kind, payload })
}

/// The heartbeat of a running job: records progress and renews the lease,
/// provided this worker still holds the job on a live lease.
pub fn refresh_job_lease(
    jobs: &mut Vec<JobRow>,
    config: &WorkerConfig,
    job_id: &str,
    processed_items: i64,
    progress_permille: u16,
    now: i64,
) -> (result: Result<(), StoreError>)
    ensures
        ({
            let before = job_views(old(jobs)@);
            match first_served(job_heartbeat_tickets(before, job_id@, config.worker_id@, now)) {
                Some(i) => result is Ok && job_views(final(jobs)@) == before.update(
                    i,
                    before[i].refreshed(
                        processed_items,
                        progress_permille,
                        now,
                        config.job_lock_ttl_seconds,
                    ),
                ),
                None => result == Err::<(), StoreError>(StoreError::LeaseUpdateRejected)
                    && job_views(final(jobs)@) == before,
            }
        }),
{
    let ghost before = job_views(jobs@);
    let mut tickets: Vec<Ticket> = Vec::new();
    let mut i: usize = 0;
    while i < jobs.len()
        invariant
            i <= jobs.len(),
            tickets@.len() == i,
            before == job_views(jobs@),
            forall|j: int|
                0 <= j < i ==> #[trigger] tickets@[j] == (Ticket {
                    eligible: before[j].accepts_heartbeat(job_id@, config.worker_id@, now),
                    key: 0,
                    tie: 0,
                }),
        decreases jobs.len() - i,
    {
        let row = &jobs[i];
        let eligible = text_equal(row.id.as_str(), job_id) && row.kind.is_some()
            && row.lease.is_live_for(config.worker_id.as_str(), now);
        assert(eligible == before[i as int].accepts_heartbeat(job_id@, config.worker_id@, now));
        tickets.push(Ticket { eligible, key: 0, tie: 0 });
        i += 1;
    }
    assert(tickets@ =~= job_heartbeat_tickets(before, job_id@, config.worker_id@, now));
    let pick = match choose_first(&tickets) {
        Some(pick) => pick,
        None => {
            return Err(StoreError::LeaseUpdateRejected);
        },
    };
    let row = &mut jobs[pick];
    if !row.lease.try_refresh(config.worker_id.as_str(), now, config.job_lock_ttl_seconds) {
        return Err(StoreError::LeaseUpdateRejected);
    }
    row.processed_items = processed_items;
    row.progress_permille = progress_permille;
    row.updated_at = now;
    assert(job_views(jobs@) =~= before.update(
        pick as int,
        before[pick as int].refreshed(
            processed_items,
            progress_permille,
            now,
            config.job_lock_ttl_seconds,
        ),
    ));
    Ok(())
}

/// Finishes a running job that this worker holds: completed on success,
/// failed with the worker-failure code otherwise.
pub fn finish_job(
    jobs: &mut Vec<JobRow>,
    config: &WorkerConfig,
    job_id: &str,
    success: bool,
    error_message: Option<&str>,
    now: i64,
) -> (result: Result<(), StoreError>)
    ensures
        ({
            let before = job_views(old(jobs)@);
            match first_served(job_finish_tickets(before, job_id@, config.worker_id@)) {
                Some(i) => result is Ok && job_views(final(jobs)@) == before.update(
                    i,
                    before[i].finished(success, borrowed_text(error_message), now),
                ),
                None => result == Err::<(), StoreError>(StoreError::FinishRejected) && job_views(
                    final(jobs)@,
                ) == before,
            }
        }),
{
    let ghost before = job_views(jobs@);
    let mut tickets: Vec<Ticket> = Vec::new();
    let mut i: usize = 0;
    while i < jobs.len()
        invariant
            i <= jobs.len(),
            tickets@.len() == i,
            before == job_views(jobs@),
            forall|j: int|
                0 <= j < i ==> #[trigger] tickets@[j] == (Ticket {
                    eligible: before[j].accepts_finish(job_id@, config.worker_id@),
                    key: 0,
                    tie: 0,
                }),
        decreases jobs.len() - i,
    {
        let row = &jobs[i];
        let eligible = text_equal(row.id.as_str(), job_id) && row.kind.is_some()
            && row.lease.is_held_by(config.worker_id.as_str());
        assert(eligible == before[i as int].accepts_finish(job_id@, config.worker_id@));
        tickets.push(Ticket { eligible, key: 0, tie: 0 });
        i += 1;
    }
    assert(tickets@ =~= job_finish_tickets(before, job_id@, config.worker_id@));
    let pick = match choose_first(&tickets) {
        Some(pick) => pick,
        None => {
            return Err(StoreError::FinishRejected);
        },
    };
    let row = &mut jobs[pick];
    proof {
        reveal_strlit("WORKER_FAILURE");
    }
    let done = if success {
        row.lease.try_finish(
            config.worker_id.as_str(),
            QueueStatus::Completed,
            None,
            error_message,
            now,
        )
    } else {
        row.lease.try_finish(
            config.worker_id.as_str(),
            QueueStatus::Failed,
            Some("WORKER_FAILURE"),
            error_message,
            now,
        )
    };
    if !done {
        return Err(StoreError::FinishRejected);
    }
    if success {
        row.progress_permille = 1000;
    }
    row.finished_at = Some(now);
    row.updated_at = now;
    assert(job_views(jobs@) =~= before.update(
        pick as int,
        before[pick as int].finished(success, borrowed_text(error_message), now),
    ));
    Ok(())
}

/// A library root as the store holds it.
#[derive(Clone, Debug, PartialEq, Eq)]
pub struct LibraryRootRow {
    pub id: i64,
    pub name: String,
    pub root_path: String,
    pub last_scanned_at: Option<i64>,
    pub updated_at: i64,
}

/// A library file as the store holds it.
#[derive(Clone, Debug, PartialEq, Eq)]
pub struct FileRow {
    pub id: i64,
    pub library_id: i64,
    pub relative_path: String,
    pub size_bytes: i64,
    pub mtime_ns: i64,
    pub inode: Option<i64>,
    pub device: Option<i64>,
    pub is_missing: bool,
    pub needs_hash: bool,
    pub last_seen_scan_id: Option<i64>,
    pub hash_algorithm: Option<HashAlgorithm>,
    pub content_hash: Option<Vec<u8>>,
    pub hashed_size_bytes: Option<i64>,
    pub hashed_mtime_ns: Option<i64>,
    pub hashed_at: Option<i64>,
    pub hash_claim_token: Option<String>,
    pub hash_claimed_at: Option<i64>,
    pub hash_error_count: Option<i64>,
    pub hash_last_error: Option<String>,
    pub hash_last_error_at: Option<i64>,
    pub hash_retry_after: Option<i64>,
    pub updated_at: i64,
}

/// The bytes of an optional digest.
pub open spec fn bytes_view(value: Option<Vec<u8>>) -> Option<Seq<u8>> {
    match value {
        Some(bytes) => Some(bytes@),
        None => None,
    }
}

/// A [`FileRow`] as plain values.
pub struct FileRowView {
    pub id: i64,
    pub library_id: i64,
    pub relative_path: Seq<char>,
    pub size_bytes: i64,
    pub mtime_ns: i64,
    pub inode: Option<i64>,
    pub device: Option<i64>,
    pub is_missing: bool,
    pub needs_hash: bool,
    pub last_seen_scan_id: Option<i64>,
    pub hash_algorithm: Option<HashAlgorithm>,
    pub content_hash: Option<Seq<u8>>,
    pub hashed_size_bytes: Option<i64>,
    pub hashed_mtime_ns: Option<i64>,
    pub hashed_at: Option<i64>,
    pub hash_claim_token: Option<Seq<char>>,
    pub hash_claimed_at: Option<i64>,
    pub hash_error_count: Option<i64>,
    pub hash_last_error: Option<Seq<char>>,
    pub hash_last_error_at: Option<i64>,
    pub hash_retry_after: Option<i64>,
    pub updated_at: i64,
}

impl View for FileRow {
    type V = FileRowView;

    open spec fn view(&self) -> FileRowView {
        FileRowView {
            id: self.id,
            library_id: self.library_id,
            relative_path: self.relative_path@,
            size_bytes: self.size_bytes,
            mtime_ns: self.mtime_ns,
            inode: self.inode,
            device: self.device,
            is_missing: self.is_missing,
            needs_hash: self.needs_hash,
            last_seen_scan_id: self.last_seen_scan_id,
            hash_algorithm: self.hash_algorithm,
            content_hash: bytes_view(self.content_hash),
            hashed_size_bytes: self.hashed_size_bytes,
            hashed_mtime_ns: self.hashed_mtime_ns,
            hashed_at: self.hashed_at,
            hash_claim_token: text_view(self.hash_claim_token),
            hash_claimed_at: self.hash_claimed_at,
            hash_error_count: self.hash_error_count,
            hash_last_error: text_view(self.hash_last_error),
            hash_last_error_at: self.hash_last_error_at,
            hash_retry_after: self.hash_retry_after,
            updated_at: self.updated_at,
        }
    }
}

/// The rows of a file table as plain values.
pub open spec fn file_views(rows: Seq<FileRow>) -> Seq<FileRowView> {
    rows.map_values(|row: FileRow| row@)
}

/// The position of the first row whose flag is set.
pub open spec fn first_flagged(flags: Seq<bool>) -> Option<int> {
    first_served(flag_tickets(flags))
}

/// Flags as tickets that are served in the order they stand in.
pub open spec fn flag_tickets(flags: Seq<bool>) -> Seq<Ticket> {
    flags.map_values(|flag: bool| Ticket { eligible: flag, key: 0, tie: 0 })
}

/// Finds the first row whose flag is set.
pub fn find_flagged(flags: &Vec<bool>) -> (pick: Option<usize>)
    ensures
        match pick {
            Some(i) => first_flagged(flags@) == Some(i as int) && i < flags.len() && flags@[i as int],
            None => first_flagged(flags@) is None && forall|j: int|
                0 <= j < flags.len() ==> !flags@[j],
        },
{
    let ghost tickets = flag_tickets(flags@);
    let mut i: usize = 0;
    while i < flags.len()
        invariant
            i <= flags.len(),
            tickets == flag_tickets(flags@),
            forall|j: int| 0 <= j < i ==> !flags@[j],
        decreases flags.len() - i,
    {
        if flags[i] {
            proof {
                assert(is_first_served(tickets, i as int)) by {
                    assert forall|j: int|
                        0 <= j < tickets.len() && tickets[j].eligible implies served_no_later(
                        tickets[i as int],
                        i as int,
                        #[trigger] tickets[j],
                        j,
                    ) by {
                        if j < i {
                            assert(!flags@[j]);
                        }
                    }
                }
                let chosen = choose|k: int| is_first_served(tickets, k);
                lemma_first_served_is_unique(tickets, i as int, chosen);
            }
            return Some(i);
        }
        i += 1;
    }
    proof {
        assert forall|k: int| !is_first_served(tickets, k) by {
            if 0 <= k < tickets.len() {
                assert(!flags@[k]);
            }
        }
    }
    None
}

/// The ids of the rows of a file table.
pub open spec fn file_id_flags(rows: Seq<FileRowView>, id: i64) -> Seq<bool> {
    rows.map_values(|row: FileRowView| row.id == id)
}

/// The position of the file with the given id.
pub fn find_file(files: &Vec<FileRow>, id: i64) -> (pick: Option<usize>)
    ensures
        pick matches Some(i) ==> i < files.len(),
        match pick {
            Some(i) => first_flagged(file_id_flags(file_views(files@), id)) == Some(i as int),
            None => first_flagged(file_id_flags(file_views(files@), id)) is None,
        },
{
    let mut flags: Vec<bool> = Vec::new();
    let mut i: usize = 0;
    while i < files.len()
        invariant
            i <= files.len(),
            flags@.len() == i,
            forall|j: int| 0 <= j < i ==> #[trigger] flags@[j] == (files@[j].id == id),
        decreases files.len() - i,
    {
        flags.push(files[i].id == id);
        i += 1;
    }
    assert(flags@ =~= file_id_flags(file_views(files@), id));
    find_flagged(&flags)
}

/// Which rows of a root table have the given id.
pub open spec fn root_id_flags(rows: Seq<LibraryRootRow>, id: i64) -> Seq<bool> {
    rows.map_values(|row: LibraryRootRow| row.id == id)
}

/// The position of the library root with the given id.
pub fn find_root(roots: &Vec<LibraryRootRow>, id: i64) -> (pick: Option<usize>)
    ensures
        pick matches Some(i) ==> i < roots.len(),
        match pick {
            Some(i) => first_flagged(root_id_flags(roots@, id)) == Some(i as int),
            None => first_flagged(root_id_flags(roots@, id)) is None,
        },
{
    let mut flags: Vec<bool> = Vec::new();
    let mut i: usize = 0;
    while i < roots.len()
        invariant
            i <= roots.len(),
            flags@.len() == i,
            forall|j: int| 0 <= j < i ==> #[trigger] flags@[j] == (roots@[j].id == id),
        decreases roots.len() - i,
    {
        flags.push(roots[i].id == id);
        i += 1;
    }
    assert(flags@ =~= root_id_flags(roots@, id));
    find_flagged(&flags)
}

/// A claim on the scan and hash queue recovers every abandoned job before it
/// selects: in the table that candidates are selected from, no job runs on a
/// lease that is over, and every job that did is retryable, with the
/// lease-expired code where it had no error code of its own.
pub proof fn lemma_claim_sweeps_jobs_first(rows: Seq<JobRowView>, now: i64, j: int)
    requires
        0 <= j < rows.len(),
    ensures
        !swept_jobs(rows, now)[j].is_abandoned(now),
        rows[j].is_abandoned(now) ==> {
            &&& swept_jobs(rows, now)[j].lease.status == QueueStatus::Retryable
            &&& !swept_jobs(rows, now)[j].is_candidate(None)
            &&& is_blank(rows[j].lease.error_code) ==> swept_jobs(rows, now)[j].lease.error_code
                == Some(lease_expired_code())
        },
        !rows[j].is_abandoned(now) ==> swept_jobs(rows, now)[j] == rows[j],
{
}

/// A job that runs on a live lease is handed out to nobody else: whichever
/// worker claims next, at whatever instant before the lease is over, and
/// whatever job it asks for, its claim does not pick the job and leaves the
/// row as it is.
pub proof fn lemma_running_job_is_not_claimed_again(
    before: Seq<JobRowView>,
    after: Seq<JobRowView>,
    claimed: Option<JobRecord>,
    requested: Option<Seq<char>>,
    worker: Seq<char>,
    ttl_seconds: u64,
    now: i64,
    i: int,
)
    requires
        0 <= i < before.len(),
        before[i].lease.status == QueueStatus::Running,
        !lease_is_over(before[i].lease.lease_expires_at, now),
        job_claim_effect(before, after, claimed, requested, worker, ttl_seconds, now),
    ensures
        first_served(job_tickets(swept_jobs(before, now), requested)) != Some(i),
        after[i] == before[i],
{
    let swept = swept_jobs(before, now);
    let tickets = job_tickets(swept, requested);
    assert(swept[i] == before[i]);
    assert(!tickets[i].eligible);
    if first_served(tickets) is Some {
        let k = first_served(tickets)->0;
        assert(is_first_served(tickets, k));
    }
}

} // verus!
