//! Applying the operation log to GitHub under the "stop on conflict" rule.
//!
//! A run takes the pending operations in creation order. For each one it asks
//! GitHub for the item's current status option:
//! - the same as the operation expected: the move is sent, and the operation
//!   is completed, or failed when GitHub refuses it;
//! - another option: the operation is marked as a conflict and the run stops,
//!   leaving the later operations pending for the user to decide;
//! - an authentication, rate-limit or network error: the operation goes back
//!   to pending and the run stops;
//! - any other error: the operation fails and the run goes on.
//!
//! The requests to GitHub are made by the caller: each step returns the next
//! request to make ([`SyncAction`]) and takes its outcome ([`SyncEvent`]).
use vstd::prelude::*;
use crate::bootstrap::{conflict_option_id_key, conflict_option_id_setting, conflict_option_name_key, conflict_option_name_setting, ops_in, pat_key};
use crate::clock;
use crate::codes::{parse_sync_status, sync_status_code, sync_status_of, sync_status_to_str};
use crate::dtos::{ConflictInfo, Operation, OperationStatus, SyncResult, SyncResultFailure, SyncState, SyncStatus, TaskDto};
use crate::errors::DomainError;
use crate::store::{CacheModel, CacheStore, is_foreign_key_error, listing, opt_text, resolves, status_updated};
use crate::table::{Row, has_key, row_with_key, upserted};
use crate::text::{decimal_i64, i64_to_decimal, int_decimal, parse_i64_decimal, string_of};

verus! {

broadcast use vstd::seq_lib::group_seq_properties;

// ============================================================
// Setting keys of the synchroniser's record
// ============================================================

/// The time the last run started.
pub open spec fn attempt_key() -> Seq<char> {
    "last_sync_attempt_at"@
}

/// The time the last run that was not stopped by an error ended.
pub open spec fn success_key() -> Seq<char> {
    "last_sync_success_at"@
}

/// The status the last run left.
pub open spec fn status_key() -> Seq<char> {
    "last_sync_status"@
}

/// The error that stopped the last run.
pub open spec fn error_key() -> Seq<char> {
    "last_sync_error"@
}

/// When GitHub's rate limit is expected to reset.
pub open spec fn reset_key() -> Seq<char> {
    "rate_limit_reset_at"@
}

/// How long a rate limit is expected to last: one hour, in milliseconds.
pub open spec fn rate_limit_pause_ms() -> int {
    3600000
}

// ============================================================
// Actions, events and the run's state
// ============================================================

/// The next request to make to GitHub.
#[derive(Debug, Clone, PartialEq)]
pub enum SyncAction {
    /// Read the item's current option in the status field.
    FetchCurrentStatus { operation_id: String, item_id: String, status_field_id: String },
    /// Set the item's status field to the option.
    UpdateStatus {
        operation_id: String,
        project_id: String,
        item_id: String,
        status_field_id: String,
        option_id: String,
    },
    /// Nothing more: the run is over.
    Finished,
}

/// The outcome of a request to GitHub.
#[derive(Debug, PartialEq)]
pub enum SyncEvent {
    /// The item's current option (`None` when it has none), or the error.
    CurrentStatus(Result<Option<String>, DomainError>),
    /// Whether the status update was applied.
    StatusUpdated(Result<(), DomainError>),
}

/// Where a run stands.
#[derive(Debug, Clone, Copy, PartialEq, Eq, Structural)]
pub enum SyncPhase {
    AwaitingStatus,
    AwaitingUpdate,
    Done,
}

/// A synchronisation run in progress.
pub struct SyncRun {
    token: String,
    queue: Vec<Operation>,
    next: usize,
    phase: SyncPhase,
    completed: Vec<Operation>,
    failed: Vec<SyncResultFailure>,
    conflicts: Vec<ConflictInfo>,
    abort: Option<DomainError>,
}

/// `b` is `a` with the status of operation `id` set, with the message and the
/// stamp given. An unknown id changes nothing.
pub open spec fn status_written(
    a: CacheModel,
    b: CacheModel,
    id: Seq<char>,
    status: OperationStatus,
    msg: Option<Seq<char>>,
    stamp: Option<i64>,
) -> bool {
    if has_key(a.operations, id) {
        exists|n: Operation|
            #[trigger] status_updated(n, row_with_key(a.operations, id)->0, status, msg, stamp) && b == (
            CacheModel { operations: upserted(a.operations, n), ..a })
    } else {
        b == a
    }
}

/// The cache after a run started at time `now`: the start time recorded and
/// the first operation of `queue`, if any, marked as syncing.
pub open spec fn started(m0: CacheModel, m: CacheModel, queue: Seq<Operation>, phase: SyncPhase, now: i64) -> bool {
    let mid = CacheModel { settings: m0.settings.insert(attempt_key(), int_decimal(now as int)), ..m0 };
    if queue.len() > 0 {
        &&& phase == SyncPhase::AwaitingStatus
        &&& status_written(mid, m, queue[0].id@, OperationStatus::Syncing, None, None)
    } else {
        &&& phase == SyncPhase::Done
        &&& m == mid
    }
}

/// The stamp an operation gets when it takes `status` at time `now`.
pub open spec fn stamp_for(status: OperationStatus, now: i64) -> Option<i64> {
    if resolves(status) {
        Some(now)
    } else {
        None
    }
}

impl SyncRun {
    pub closed spec fn token_text(&self) -> Seq<char> {
        self.token@
    }

    /// The operations of the run, in the order they are taken.
    pub closed spec fn queue(&self) -> Seq<Operation> {
        self.queue@
    }

    /// The index of the operation in hand.
    pub closed spec fn next(&self) -> int {
        self.next as int
    }

    pub closed spec fn phase(&self) -> SyncPhase {
        self.phase
    }

    pub closed spec fn completed(&self) -> Seq<Operation> {
        self.completed@
    }

    pub closed spec fn failed(&self) -> Seq<SyncResultFailure> {
        self.failed@
    }

    pub closed spec fn conflicts(&self) -> Seq<ConflictInfo> {
        self.conflicts@
    }

    /// The error that stopped the run, if one did.
    pub closed spec fn abort(&self) -> Option<DomainError> {
        self.abort
    }

    /// The run's state is consistent.
    pub closed spec fn inv(&self) -> bool {
        &&& self.next <= self.queue@.len()
        &&& self.phase != SyncPhase::Done ==> self.next < self.queue@.len()
    }

    /// What a consistent run promises of its place in the queue.
    pub proof fn lemma_inv(&self)
        requires
            self.inv(),
        ensures
            0 <= self.next() <= self.queue().len(),
            self.phase() != SyncPhase::Done ==> self.next() < self.queue().len(),
    {
    }

    /// The operation in hand.
    pub open spec fn current(&self) -> Operation {
        self.queue()[self.next()]
    }

    /// `a` is the request the run waits for.
    pub open spec fn asks(&self, a: SyncAction) -> bool {
        match self.phase() {
            SyncPhase::AwaitingStatus => a == SyncAction::FetchCurrentStatus {
                operation_id: self.current().id,
                item_id: self.current().payload.item_id,
                status_field_id: self.current().payload.status_field_id,
            },
            SyncPhase::AwaitingUpdate => a == SyncAction::UpdateStatus {
                operation_id: self.current().id,
                project_id: self.current().payload.project_id,
                item_id: self.current().payload.item_id,
                status_field_id: self.current().payload.status_field_id,
                option_id: self.current().payload.to_option_id,
            },
            SyncPhase::Done => a == SyncAction::Finished,
        }
    }

    /// The token to send with the requests.
    pub fn token(&self) -> (r: &str)
        ensures
            r@ == self.token_text(),
    {
        self.token.as_str()
    }

    /// The request the run waits for.
    fn action(&self) -> (a: SyncAction)
        requires
            self.inv(),
        ensures
            self.asks(a),
    {
        match self.phase {
            SyncPhase::AwaitingStatus => {
                let op = &self.queue[self.next];
                SyncAction::FetchCurrentStatus {
                    operation_id: op.id.clone(),
                    item_id: op.payload.item_id.clone(),
                    status_field_id: op.payload.status_field_id.clone(),
                }
            },
            SyncPhase::AwaitingUpdate => {
                let op = &self.queue[self.next];
                SyncAction::UpdateStatus {
                    operation_id: op.id.clone(),
                    project_id: op.payload.project_id.clone(),
                    item_id: op.payload.item_id.clone(),
                    status_field_id: op.payload.status_field_id.clone(),
                    option_id: op.payload.to_option_id.clone(),
                }
            },
            SyncPhase::Done => SyncAction::Finished,
        }
    }
}

/// A copy of `op` with a new status, message and stamp.
fn with_status(op: &Operation, status: OperationStatus, msg: Option<String>, stamp: Option<i64>) -> (r:
    Operation)
    ensures
        status_updated(r, *op, status, opt_text(msg), stamp),
{
    let o = op.dup();
    Operation { status, error_message: msg, resolved_at: stamp, ..o }
}

/// Sets the status of an operation, stamping it with `now` when the status
/// resolves it.
fn write_status(store: &mut CacheStore, id: &str, status: OperationStatus, msg: Option<&str>, now: i64)
    requires
        old(store).wf(),
    ensures
        final(store).wf(),
        final(store).saved_model() == old(store).saved_model(),
        status_written(
            old(store).model(),
            final(store).model(),
            id@,
            status,
            crate::store::opt_str_text(msg),
            stamp_for(status, now),
        ),
{
    let _ = store.update_operation_status_at(id, &status, msg, now);
}

// ============================================================
// The use case
// ============================================================

/// Applies the operation log to GitHub.
pub struct SyncToGitHubUseCase;

impl SyncToGitHubUseCase {
    /// The use case.
    pub fn new() -> (r: Self) {
        SyncToGitHubUseCase
    }

    /// Whether an error stops a run and leaves the operation queued:
    /// authentication failures, rate limiting and network failures.
    pub fn is_abort_error(e: &DomainError) -> (r: bool)
        ensures
            r == e.is_abort(),
    {
        match e {
            DomainError::AuthenticationError(_) => true,
            DomainError::RateLimitExceeded(_) => true,
            DomainError::NetworkError(_) => true,
            _ => false,
        }
    }

    /// Starts a run: reads the token (`AuthenticationError` when none is set),
    /// records the start time, takes the pending operations in creation order
    /// and marks the first one as syncing. Returns the run and the first
    /// request to make.
    pub fn start(store: &mut CacheStore) -> (r: Result<(SyncRun, SyncAction), DomainError>)
        requires
            old(store).wf(),
        ensures
            final(store).wf(),
            final(store).saved_model() == old(store).saved_model(),
            r is Err <==> old(store).setting(pat_key()) is None,
            r matches Err(e) ==> e == DomainError::AuthenticationError(e->AuthenticationError_0)
                && e->AuthenticationError_0@ == "No token configured"@ && final(store).model() == old(
                store,
            ).model(),
            r matches Ok((run, a)) ==> {
                let m0 = old(store).model();
                &&& run.inv()
                &&& run.asks(a)
                &&& Some(run.token_text()) == m0.setting(pat_key())
                &&& listing(run.queue(), ops_in(m0, OperationStatus::Pending))
                &&& run.next() == 0
                &&& run.completed().len() == 0
                &&& run.failed().len() == 0
                &&& run.conflicts().len() == 0
                &&& run.abort() is None
                &&& exists|now: i64| #[trigger] started(m0, final(store).model(), run.queue(), run.phase(), now)
            },
    {
        let token = match store.get_setting("github_pat")? {
            Some(t) => t,
            None => {
                return Err(DomainError::AuthenticationError(string_of("No token configured")));
            },
        };
        let now = clock::now_epoch_ms();
        let stamp = i64_to_decimal(now);
        let _ = store.set_setting("last_sync_attempt_at", stamp.as_str());
        let queue = store.get_operations_by_status(&OperationStatus::Pending)?;
        let phase = if queue.len() > 0 {
            write_status(store, queue[0].id.as_str(), OperationStatus::Syncing, None, now);
            SyncPhase::AwaitingStatus
        } else {
            SyncPhase::Done
        };
        let run = SyncRun {
            token,
            queue,
            next: 0,
            phase,
            completed: Vec::new(),
            failed: Vec::new(),
            conflicts: Vec::new(),
            abort: None,
        };
        let a = run.action();
        assert(started(old(store).model(), store.model(), run.queue(), run.phase(), now));
        Ok((run, a))
    }
}


// ============================================================
// Steps
// ============================================================

/// The text of the option GitHub reported, or the empty text when it reported none.
pub open spec fn reported_text(cur: Option<String>) -> Seq<char> {
    match cur {
        Some(c) => c@,
        None => Seq::empty(),
    }
}

/// The name of a cached status option, or the empty text when it is not cached.
pub open spec fn option_name(m: CacheModel, option_id: Seq<char>) -> Seq<char> {
    match row_with_key(m.status_options, option_id) {
        Some(o) => o.name@,
        None => Seq::empty(),
    }
}

/// `r1` is `r0` in another phase.
pub open spec fn same_run(r0: SyncRun, r1: SyncRun) -> bool {
    &&& r1.token_text() == r0.token_text()
    &&& r1.queue() == r0.queue()
    &&& r1.next() == r0.next()
    &&& r1.completed() == r0.completed()
    &&& r1.failed() == r0.failed()
    &&& r1.conflicts() == r0.conflicts()
    &&& r1.abort() == r0.abort()
}

/// After an operation is done with, the run takes the next one and marks it as
/// syncing, or ends when none is left.
pub open spec fn advanced(r0: SyncRun, r1: SyncRun, a: CacheModel, b: CacheModel) -> bool {
    &&& r1.token_text() == r0.token_text()
    &&& r1.queue() == r0.queue()
    &&& r1.abort() == r0.abort()
    &&& r1.conflicts() == r0.conflicts()
    &&& r1.next() == r0.next() + 1
    &&& if r1.next() < r1.queue().len() {
        &&& r1.phase() == SyncPhase::AwaitingStatus
        &&& status_written(a, b, r1.queue()[r1.next()].id@, OperationStatus::Syncing, None, None)
    } else {
        &&& r1.phase() == SyncPhase::Done
        &&& b == a
    }
}

/// The run stops on an error that calls for it: the operation goes back to
/// pending.
pub open spec fn stopped(r0: SyncRun, r1: SyncRun, m0: CacheModel, m1: CacheModel, e: DomainError) -> bool {
    &&& r1.token_text() == r0.token_text()
    &&& r1.queue() == r0.queue()
    &&& r1.next() == r0.next()
    &&& r1.completed() == r0.completed()
    &&& r1.failed() == r0.failed()
    &&& r1.conflicts() == r0.conflicts()
    &&& r1.abort() == Some(e)
    &&& r1.phase() == SyncPhase::Done
    &&& status_written(m0, m1, r0.current().id@, OperationStatus::Pending, None, None)
}

/// The operation fails with the error's text, and the run goes on.
pub open spec fn failed_step(r0: SyncRun, r1: SyncRun, m0: CacheModel, m1: CacheModel, e: DomainError, now: i64) -> bool {
    let q = r0.current();
    exists|mid: CacheModel|
        #[trigger] status_written(m0, mid, q.id@, OperationStatus::Failed, Some(e.display_text()), Some(now))
            && advanced(r0, r1, mid, m1) && r1.completed() == r0.completed() && r1.failed().len()
            == r0.failed().len() + 1 && r1.failed().take(r0.failed().len() as int) == r0.failed() && {
            let f = r1.failed().last();
            &&& f.error@ == e.display_text()
            &&& status_updated(f.operation, q, OperationStatus::Failed, Some(e.display_text()), Some(now))
        }
}

/// The operation is marked as a conflict, the reported option is recorded, and
/// the run ends.
pub open spec fn conflict_step(r0: SyncRun, r1: SyncRun, m0: CacheModel, m1: CacheModel, cur: Option<String>) -> bool {
    let q = r0.current();
    let cur_text = reported_text(cur);
    exists|mid: CacheModel|
        #[trigger] status_written(m0, mid, q.id@, OperationStatus::Conflict, None, None) && {
            let name = option_name(mid, cur_text);
            &&& m1 == (CacheModel {
                settings: mid.settings.insert(conflict_option_id_key(q.id@), cur_text).insert(
                    conflict_option_name_key(q.id@),
                    name,
                ),
                ..mid
            })
            &&& r1.token_text() == r0.token_text()
            &&& r1.queue() == r0.queue()
            &&& r1.next() == r0.next()
            &&& r1.completed() == r0.completed()
            &&& r1.failed() == r0.failed()
            &&& r1.abort() == r0.abort()
            &&& r1.phase() == SyncPhase::Done
            &&& r1.conflicts().len() == r0.conflicts().len() + 1
            &&& r1.conflicts().take(r0.conflicts().len() as int) == r0.conflicts()
            &&& status_updated(r1.conflicts().last().operation, q, OperationStatus::Conflict, None, None)
            &&& r1.conflicts().last().current_option_id@ == cur_text
            &&& r1.conflicts().last().current_option_name@ == name
        }
}

/// The cached copy of a moved item takes the new option and the sync time;
/// the cache is unchanged when the item is not cached or the option is not.
pub open spec fn task_moved(a: CacheModel, b: CacheModel, q: Operation, now: i64) -> bool {
    match row_with_key(a.tasks, q.payload.item_id@) {
        Some(t) => {
            let t2 = TaskDto { status_option_id: Some(q.payload.to_option_id), synced_at: Some(now), ..t };
            match crate::bootstrap::with_task(a, t2) {
                Some(m) => b == m,
                None => b == a,
            }
        },
        None => b == a,
    }
}

/// The cached copy of the item moved by `q`, at time `now`.
pub open spec fn moved_task(t: TaskDto, q: Operation, now: i64) -> TaskDto {
    TaskDto { status_option_id: Some(q.payload.to_option_id), synced_at: Some(now), ..t }
}

/// The cache refuses to move the cached item of `q`: its new option is not
/// cached (a foreign key error).
pub open spec fn move_refused(a: CacheModel, q: Operation, now: i64) -> bool {
    row_with_key(a.tasks, q.payload.item_id@) matches Some(t) && crate::bootstrap::with_task(
        a,
        moved_task(t, q, now),
    ) is None
}

/// The operation is completed and the cached item is moved, and the run goes
/// on; when the cache refuses the move, the run stops on that error.
pub open spec fn completed_step(r0: SyncRun, r1: SyncRun, m0: CacheModel, m1: CacheModel, now: i64) -> bool {
    let q = r0.current();
    exists|mid: CacheModel, mid2: CacheModel|
        #[trigger] status_written(m0, mid, q.id@, OperationStatus::Completed, None, Some(now))
            && #[trigger] task_moved(mid, mid2, q, now) && if move_refused(mid, q, now) {
            &&& r1.token_text() == r0.token_text()
            &&& r1.queue() == r0.queue()
            &&& r1.next() == r0.next()
            &&& r1.completed() == r0.completed()
            &&& r1.failed() == r0.failed()
            &&& r1.conflicts() == r0.conflicts()
            &&& r1.abort() matches Some(e) && is_foreign_key_error(e)
            &&& r1.phase() == SyncPhase::Done
            &&& m1 == mid
        } else {
            &&& advanced(r0, r1, mid2, m1)
            &&& r1.failed() == r0.failed()
            &&& r1.completed().len() == r0.completed().len() + 1
            &&& r1.completed().take(r0.completed().len() as int) == r0.completed()
            &&& status_updated(r1.completed().last(), q, OperationStatus::Completed, None, Some(now))
        }
}

/// What a step does, by phase and event, at time `now`. An event that does
/// not answer the request the run waits for changes nothing.
pub open spec fn stepped(r0: SyncRun, r1: SyncRun, m0: CacheModel, m1: CacheModel, event: SyncEvent, now: i64) -> bool {
    let q = r0.current();
    match (r0.phase(), event) {
        (SyncPhase::AwaitingStatus, SyncEvent::CurrentStatus(res)) => match res {
            Err(e) => if e.is_abort() {
                stopped(r0, r1, m0, m1, e)
            } else {
                failed_step(r0, r1, m0, m1, e, now)
            },
            Ok(cur) => if cur matches Some(c) && c@ == q.precondition.expected_from_option_id@ {
                &&& same_run(r0, r1)
                &&& r1.phase() == SyncPhase::AwaitingUpdate
                &&& m1 == m0
            } else {
                conflict_step(r0, r1, m0, m1, cur)
            },
        },
        (SyncPhase::AwaitingUpdate, SyncEvent::StatusUpdated(res)) => match res {
            Ok(()) => completed_step(r0, r1, m0, m1, now),
            Err(e) => if e.is_abort() {
                stopped(r0, r1, m0, m1, e)
            } else {
                failed_step(r0, r1, m0, m1, e, now)
            },
        },
        _ => {
            &&& same_run(r0, r1)
            &&& r1.phase() == r0.phase()
            &&& m1 == m0
        },
    }
}

impl SyncRun {
    /// Takes the next operation and marks it as syncing, or ends the run.
    fn advance(&mut self, store: &mut CacheStore, now: i64)
        requires
            old(self).inv(),
            old(self).phase() != SyncPhase::Done,
            old(store).wf(),
        ensures
            final(self).inv(),
            final(store).wf(),
            final(store).saved_model() == old(store).saved_model(),
            advanced(*old(self), *final(self), old(store).model(), final(store).model()),
            final(self).completed() == old(self).completed(),
            final(self).failed() == old(self).failed(),
    {
        let n = self.queue.len();
        assert(self.next < n);
        self.next = self.next + 1;
        if self.next < self.queue.len() {
            write_status(store, self.queue[self.next].id.as_str(), OperationStatus::Syncing, None, now);
            self.phase = SyncPhase::AwaitingStatus;
        } else {
            self.phase = SyncPhase::Done;
        }
    }

    /// Stops the run on an error: the operation in hand goes back to pending.
    fn stop(&mut self, store: &mut CacheStore, e: DomainError, now: i64)
        requires
            old(self).inv(),
            old(self).phase() != SyncPhase::Done,
            old(store).wf(),
        ensures
            final(self).inv(),
            final(store).wf(),
            final(store).saved_model() == old(store).saved_model(),
            stopped(*old(self), *final(self), old(store).model(), final(store).model(), e),
    {
        write_status(store, self.queue[self.next].id.as_str(), OperationStatus::Pending, None, now);
        self.abort = Some(e);
        self.phase = SyncPhase::Done;
    }

    /// Fails the operation in hand with the error's text and goes on.
    fn fail(&mut self, store: &mut CacheStore, e: DomainError, now: i64)
        requires
            old(self).inv(),
            old(self).phase() != SyncPhase::Done,
            old(store).wf(),
        ensures
            final(self).inv(),
            final(store).wf(),
            final(store).saved_model() == old(store).saved_model(),
            failed_step(*old(self), *final(self), old(store).model(), final(store).model(), e, now),
    {
        let ghost m0 = store.model();
        let ghost r0 = *self;
        let text = e.to_display_string();
        let q = self.queue[self.next].dup();
        write_status(store, q.id.as_str(), OperationStatus::Failed, Some(text.as_str()), now);
        let ghost mid = store.model();
        let op = with_status(&q, OperationStatus::Failed, Some(text.clone()), Some(now));
        self.failed.push(SyncResultFailure { operation: op, error: text });
        proof {
            assert(self.failed@.take(r0.failed@.len() as int) =~= r0.failed@);
        }
        self.advance(store, now);
        assert(status_written(m0, mid, q.id@, OperationStatus::Failed, Some(e.display_text()), Some(now)));
    }

    /// Takes GitHub's answer to the request the run waits for, updates the
    /// cache, and returns the next request.
    pub fn step(&mut self, store: &mut CacheStore, event: SyncEvent) -> (a: SyncAction)
        requires
            old(self).inv(),
            old(store).wf(),
        ensures
            final(self).inv(),
            final(store).wf(),
            final(store).saved_model() == old(store).saved_model(),
            final(self).asks(a),
            exists|now: i64|
                #[trigger] stepped(*old(self), *final(self), old(store).model(), final(store).model(), event, now),
    {
        let now = clock::now_epoch_ms();
        let ghost r0 = *self;
        let ghost m0 = store.model();
        match self.phase {
            SyncPhase::AwaitingStatus => match event {
                SyncEvent::CurrentStatus(Err(e)) => {
                    if SyncToGitHubUseCase::is_abort_error(&e) {
                        self.stop(store, e, now);
                    } else {
                        self.fail(store, e, now);
                    }
                },
                SyncEvent::CurrentStatus(Ok(cur)) => {
                    let q = self.queue[self.next].dup();
                    let matches = match &cur {
                        Some(c) => crate::text::str_eq(c.as_str(), q.precondition.expected_from_option_id.as_str()),
                        None => false,
                    };
                    if matches {
                        self.phase = SyncPhase::AwaitingUpdate;
                    } else {
                        self.record_conflict(store, &q, cur, now);
                    }
                },
                _ => {},
            },
            SyncPhase::AwaitingUpdate => match event {
                SyncEvent::StatusUpdated(Ok(())) => {
                    self.complete(store, now);
                },
                SyncEvent::StatusUpdated(Err(e)) => {
                    if SyncToGitHubUseCase::is_abort_error(&e) {
                        self.stop(store, e, now);
                    } else {
                        self.fail(store, e, now);
                    }
                },
                _ => {},
            },
            SyncPhase::Done => {},
        }
        assert(stepped(r0, *self, m0, store.model(), event, now));
        self.action()
    }

    /// Marks the operation in hand as a conflict, records the option GitHub
    /// reported and its name, and ends the run.
    fn record_conflict(&mut self, store: &mut CacheStore, q: &Operation, cur: Option<String>, now: i64)
        requires
            old(self).inv(),
            old(self).phase() != SyncPhase::Done,
            old(store).wf(),
            *q == old(self).current(),
        ensures
            final(self).inv(),
            final(store).wf(),
            final(store).saved_model() == old(store).saved_model(),
            conflict_step(*old(self), *final(self), old(store).model(), final(store).model(), cur),
    {
        let ghost m0 = store.model();
        let ghost r0 = *self;
        write_status(store, q.id.as_str(), OperationStatus::Conflict, None, now);
        let ghost mid = store.model();
        let current_option_id = match &cur {
            Some(c) => c.clone(),
            None => string_of(""),
        };
        proof {
            reveal_strlit("");
        }
        let current_option_name = match store.get_status_option(current_option_id.as_str()) {
            Ok(Some(o)) => o.name,
            _ => string_of(""),
        };
        let id_key = conflict_option_id_setting(q.id.as_str());
        let name_key = conflict_option_name_setting(q.id.as_str());
        let _ = store.set_setting(id_key.as_str(), current_option_id.as_str());
        let _ = store.set_setting(name_key.as_str(), current_option_name.as_str());
        let op = with_status(q, OperationStatus::Conflict, None, None);
        let ghost cur_text = reported_text(cur);
        assert(current_option_id@ == cur_text);
        assert(current_option_name@ == option_name(mid, cur_text));
        assert(store.model() == (CacheModel {
            settings: mid.settings.insert(conflict_option_id_key(q.id@), cur_text).insert(
                conflict_option_name_key(q.id@),
                option_name(mid, cur_text),
            ),
            ..mid
        }));
        self.conflicts.push(ConflictInfo { operation: op, current_option_id, current_option_name });
        self.phase = SyncPhase::Done;
        proof {
            assert(self.conflicts@.take(r0.conflicts@.len() as int) =~= r0.conflicts@);
        }
        assert(status_written(m0, mid, q.id@, OperationStatus::Conflict, None, None));
    }

    /// Completes the operation in hand, moves the cached item, and goes on.
    fn complete(&mut self, store: &mut CacheStore, now: i64)
        requires
            old(self).inv(),
            old(self).phase() != SyncPhase::Done,
            old(store).wf(),
        ensures
            final(self).inv(),
            final(store).wf(),
            final(store).saved_model() == old(store).saved_model(),
            completed_step(*old(self), *final(self), old(store).model(), final(store).model(), now),
    {
        let ghost m0 = store.model();
        let ghost r0 = *self;
        let q = self.queue[self.next].dup();
        write_status(store, q.id.as_str(), OperationStatus::Completed, None, now);
        let ghost mid = store.model();
        let mut refused: Option<DomainError> = None;
        match store.get_task(q.payload.item_id.as_str()) {
            Ok(Some(t)) => {
                let moved = TaskDto {
                    status_option_id: Some(q.payload.to_option_id.clone()),
                    synced_at: Some(now),
                    ..t
                };
                match store.upsert_task(&moved) {
                    Ok(()) => {},
                    Err(e) => {
                        refused = Some(e);
                    },
                }
            },
            _ => {},
        }
        let ghost mid2 = store.model();
        assert(task_moved(mid, mid2, q, now));
        if let Some(e) = refused {
            assert(move_refused(mid, q, now));
            self.abort = Some(e);
            self.phase = SyncPhase::Done;
            assert(status_written(m0, mid, q.id@, OperationStatus::Completed, None, Some(now)));
            return;
        }
        assert(!move_refused(mid, q, now));
        let op = with_status(&q, OperationStatus::Completed, None, Some(now));
        self.completed.push(op);
        proof {
            assert(self.completed@.take(r0.completed@.len() as int) =~= r0.completed@);
        }
        self.advance(store, now);
        assert(status_written(m0, mid, q.id@, OperationStatus::Completed, None, Some(now)));
    }
}


// ============================================================
// The end of a run, and the synchroniser's state
// ============================================================

/// A count as the state reports it: capped at `i32::MAX`.
pub open spec fn capped(n: nat) -> i32 {
    if n > i32::MAX {
        i32::MAX
    } else {
        n as i32
    }
}

/// The time a setting holds, when it holds a decimal `i64`.
pub open spec fn stored_time(t: Option<Seq<char>>) -> Option<i64> {
    match t {
        Some(s) => decimal_i64(s),
        None => None,
    }
}

/// The status the last run left: a conflict pause while conflicts remain,
/// otherwise the recorded status (idle when none is recorded, and a recorded
/// conflict pause reads as idle once no conflict is left).
pub open spec fn shown_status(m: CacheModel) -> SyncStatus {
    if ops_in(m, OperationStatus::Conflict).len() > 0 {
        SyncStatus::PausedConflict
    } else {
        let st = match m.setting(status_key()) {
            Some(t) => sync_status_of(t),
            None => SyncStatus::Idle,
        };
        if st == SyncStatus::PausedConflict {
            SyncStatus::Idle
        } else {
            st
        }
    }
}

/// `s` is the synchroniser's state as the cache records it.
pub open spec fn state_of(m: CacheModel, s: SyncState) -> bool {
    &&& s.status == shown_status(m)
    &&& s.pending_count == capped(ops_in(m, OperationStatus::Pending).len())
    &&& s.conflict_count == capped(ops_in(m, OperationStatus::Conflict).len())
    &&& s.rate_limit_reset_at == if s.status == SyncStatus::PausedRateLimited {
        stored_time(m.setting(reset_key()))
    } else {
        None
    }
    &&& opt_text(s.last_error) == m.setting(error_key())
    &&& s.last_sync_attempt_at == stored_time(m.setting(attempt_key()))
    &&& s.last_sync_success_at == stored_time(m.setting(success_key()))
}

/// The run was stopped by an error of the cache rather than by one that
/// pauses synchronisation.
pub open spec fn stopped_by_cache(abort: Option<DomainError>) -> bool {
    abort matches Some(e) && !e.is_abort()
}

/// The status a finished run leaves: paused on the error that stopped it, paused
/// on a conflict, or idle.
pub open spec fn outcome_status(abort: Option<DomainError>, conflicts: nat) -> SyncStatus {
    match abort {
        Some(DomainError::AuthenticationError(_)) => SyncStatus::PausedAuthError,
        Some(DomainError::RateLimitExceeded(_)) => SyncStatus::PausedRateLimited,
        Some(_) => SyncStatus::Error,
        None => if conflicts > 0 {
            SyncStatus::PausedConflict
        } else {
            SyncStatus::Idle
        },
    }
}

/// The reset time recorded after a rate limit at `now`: an hour later
/// (saturating at `i64::MAX`).
pub open spec fn reset_after(now: i64) -> i64 {
    if now + rate_limit_pause_ms() > i64::MAX {
        i64::MAX
    } else {
        (now + rate_limit_pause_ms()) as i64
    }
}

/// The record a run finished at `now` leaves in the settings.
pub open spec fn recorded(m0: CacheModel, m1: CacheModel, abort: Option<DomainError>, conflicts: nat, now: i64) -> bool {
    let st = outcome_status(abort, conflicts);
    let s1 = m0.settings.insert(status_key(), sync_status_code(st));
    let s2 = match abort {
        None => s1.insert(success_key(), int_decimal(now as int)).remove(error_key()).remove(reset_key()),
        Some(e) => {
            let s3 = s1.insert(error_key(), e.display_text());
            if e is RateLimitExceeded {
                s3.insert(reset_key(), int_decimal(reset_after(now) as int))
            } else {
                s3.remove(reset_key())
            }
        },
    };
    m1 == (CacheModel { settings: s2, ..m0 })
}

/// Counts as the state reports them.
fn capped_count(n: usize) -> (r: i32)
    ensures
        r == capped(n as nat),
{
    if n > 2147483647 {
        2147483647
    } else {
        n as i32
    }
}

/// A time kept in a setting.
fn read_time(store: &CacheStore, key: &str) -> (r: Option<i64>)
    requires
        store.wf(),
    ensures
        r == stored_time(store.model().setting(key@)),
{
    match store.get_setting(key) {
        Ok(Some(t)) => parse_i64_decimal(t.as_str()),
        _ => None,
    }
}

impl SyncToGitHubUseCase {
    /// The synchroniser's state as the cache records it.
    pub fn get_sync_state(store: &CacheStore) -> (r: Result<SyncState, DomainError>)
        requires
            store.wf(),
        ensures
            r matches Ok(s) && state_of(store.model(), s),
    {
        let pending = store.get_operations_by_status(&OperationStatus::Pending)?;
        let conflicts = store.get_operations_by_status(&OperationStatus::Conflict)?;
        proof {
            pending@.to_multiset_ensures();
            ops_in(store.model(), OperationStatus::Pending).to_multiset_ensures();
            conflicts@.to_multiset_ensures();
            ops_in(store.model(), OperationStatus::Conflict).to_multiset_ensures();
            assert((|o: crate::dtos::Operation| o.status == OperationStatus::Pending) =~= (|o: crate::dtos::Operation| o.status == OperationStatus::Pending));
        }
        let pending_count = capped_count(pending.len());
        let conflict_count = capped_count(conflicts.len());
        let recorded_status = match store.get_setting("last_sync_status")? {
            Some(t) => parse_sync_status(t.as_str()),
            None => SyncStatus::Idle,
        };
        let status = if conflicts.len() > 0 {
            SyncStatus::PausedConflict
        } else if recorded_status == SyncStatus::PausedConflict {
            SyncStatus::Idle
        } else {
            recorded_status
        };
        let rate_limit_reset_at = if status == SyncStatus::PausedRateLimited {
            read_time(store, "rate_limit_reset_at")
        } else {
            None
        };
        let last_error = store.get_setting("last_sync_error")?;
        let last_sync_attempt_at = read_time(store, "last_sync_attempt_at");
        let last_sync_success_at = read_time(store, "last_sync_success_at");
        Ok(SyncState {
            status,
            pending_count,
            conflict_count,
            rate_limit_reset_at,
            last_error,
            last_sync_attempt_at,
            last_sync_success_at,
        })
    }
}

impl SyncRun {
    /// Ends a run: records its outcome (the status it leaves, the end time when
    /// no error stopped it, the error that stopped it, and an hour's pause after
    /// a rate limit), and returns what it did with the synchroniser's state.
    /// A run that the cache stopped (a refused write) records nothing and
    /// returns that error.
    pub fn finish(self, store: &mut CacheStore) -> (r: Result<SyncResult, DomainError>)
        requires
            self.inv(),
            self.phase() == SyncPhase::Done,
            old(store).wf(),
        ensures
            final(store).wf(),
            final(store).saved_model() == old(store).saved_model(),
            stopped_by_cache(self.abort()) ==> r == Err::<SyncResult, DomainError>(self.abort()->0)
                && final(store).model() == old(store).model(),
            !stopped_by_cache(self.abort()) ==> (r matches Ok(res) && {
                &&& exists|now: i64| #[trigger] recorded(old(store).model(), final(store).model(), self.abort(), self.conflicts().len(), now)
                &&& res.completed@ == self.completed()
                &&& res.failed@ == self.failed()
                &&& res.conflicts@ == self.conflicts()
                &&& state_of(final(store).model(), res.state)
            }),
    {
        let ghost m0 = store.model();
        match &self.abort {
            Some(e) => {
                if !SyncToGitHubUseCase::is_abort_error(e) {
                    return Err(e.dup());
                }
            },
            None => {},
        }
        let now = clock::now_epoch_ms();
        let status = match &self.abort {
            Some(DomainError::AuthenticationError(_)) => SyncStatus::PausedAuthError,
            Some(DomainError::RateLimitExceeded(_)) => SyncStatus::PausedRateLimited,
            Some(_) => SyncStatus::Error,
            None => if self.conflicts.len() > 0 {
                SyncStatus::PausedConflict
            } else {
                SyncStatus::Idle
            },
        };
        let _ = store.set_setting("last_sync_status", sync_status_to_str(status));
        match &self.abort {
            None => {
                let _ = store.set_setting("last_sync_success_at", i64_to_decimal(now).as_str());
                let _ = store.delete_setting("last_sync_error");
                let _ = store.delete_setting("rate_limit_reset_at");
            },
            Some(e) => {
                let _ = store.set_setting("last_sync_error", e.to_display_string().as_str());
                match e {
                    DomainError::RateLimitExceeded(_) => {
                        let reset = match now.checked_add(3600000) {
                            Some(t) => t,
                            None => 9223372036854775807,
                        };
                        let _ = store.set_setting("rate_limit_reset_at", i64_to_decimal(reset).as_str());
                    },
                    _ => {
                        let _ = store.delete_setting("rate_limit_reset_at");
                    },
                }
            },
        }
        assert(recorded(m0, store.model(), self.abort(), self.conflicts().len(), now));
        let state = match SyncToGitHubUseCase::get_sync_state(store) {
            Ok(s) => s,
            Err(_) => SyncState {
                status,
                pending_count: 0,
                conflict_count: 0,
                rate_limit_reset_at: None,
                last_error: None,
                last_sync_attempt_at: None,
                last_sync_success_at: None,
            },
        };
        Ok(SyncResult { completed: self.completed, failed: self.failed, conflicts: self.conflicts, state })
    }
}

// ============================================================
// Settling conflicts by hand
// ============================================================

/// The message for an unknown operation.
pub open spec fn not_found_text(id: Seq<char>) -> Seq<char> {
    "Operation not found: "@ + id
}

/// The message for an operation that is not a conflict.
pub open spec fn not_in_conflict_text(id: Seq<char>) -> Seq<char> {
    "Operation is not in conflict: "@ + id
}

/// The message for an operation that cannot be cancelled.
pub open spec fn not_cancellable_text(id: Seq<char>) -> Seq<char> {
    "Operation cannot be cancelled: "@ + id
}

/// The cache without the record of an operation's conflict.
pub open spec fn without_conflict_record(m: CacheModel, id: Seq<char>) -> CacheModel {
    CacheModel {
        settings: m.settings.remove(conflict_option_id_key(id)).remove(conflict_option_name_key(id)),
        ..m
    }
}

/// Looks an operation up for a hand settlement: `NotFound` when unknown,
/// `InvalidInput` when its status is not among those allowed.
fn settle_target(store: &CacheStore, operation_id: &str, allow_pending: bool) -> (r: Result<Operation, DomainError>)
    requires
        store.wf(),
    ensures
        match row_with_key(store.model().operations, operation_id@) {
            None => r matches Err(e) && e == DomainError::NotFound(e->NotFound_0) && e->NotFound_0@
                == not_found_text(operation_id@),
            Some(o) => if o.status == OperationStatus::Conflict || (allow_pending && o.status
                == OperationStatus::Pending) {
                r == Ok::<Operation, DomainError>(o)
            } else {
                r matches Err(e) && e == DomainError::InvalidInput(e->InvalidInput_0) && e->InvalidInput_0@ == (if allow_pending {
                    not_cancellable_text(operation_id@)
                } else {
                    not_in_conflict_text(operation_id@)
                })
            },
        },
{
    match store.get_operation(operation_id)? {
        None => Err(DomainError::NotFound(crate::text::concat("Operation not found: ", operation_id))),
        Some(o) => {
            if o.status == OperationStatus::Conflict || (allow_pending && o.status == OperationStatus::Pending) {
                Ok(o)
            } else if allow_pending {
                Err(DomainError::InvalidInput(crate::text::concat("Operation cannot be cancelled: ", operation_id)))
            } else {
                Err(DomainError::InvalidInput(crate::text::concat("Operation is not in conflict: ", operation_id)))
            }
        },
    }
}

/// Deletes the record of an operation's conflict.
fn forget_conflict(store: &mut CacheStore, operation_id: &str)
    requires
        old(store).wf(),
    ensures
        final(store).wf(),
        final(store).saved_model() == old(store).saved_model(),
        final(store).model() == without_conflict_record(old(store).model(), operation_id@),
{
    let id_key = conflict_option_id_setting(operation_id);
    let name_key = conflict_option_name_setting(operation_id);
    let _ = store.delete_setting(id_key.as_str());
    let _ = store.delete_setting(name_key.as_str());
}

impl SyncToGitHubUseCase {
    /// Settles a conflict in favour of GitHub's current status: the operation
    /// is dropped, with the record of its conflict. Fails with `NotFound` for an
    /// unknown operation and `InvalidInput` for one that is not a conflict.
    pub fn resolve_conflict_with_current(store: &mut CacheStore, operation_id: &str) -> (r: Result<(), DomainError>)
        requires
            old(store).wf(),
        ensures
            final(store).wf(),
            final(store).saved_model() == old(store).saved_model(),
            r is Ok <==> (row_with_key(old(store).model().operations, operation_id@) matches Some(o)
                && o.status == OperationStatus::Conflict),
            r matches Err(e) ==> final(store).model() == old(store).model() && (if has_key(
                old(store).model().operations,
                operation_id@,
            ) {
                e == DomainError::InvalidInput(e->InvalidInput_0) && e->InvalidInput_0@ == not_in_conflict_text(
                    operation_id@,
                )
            } else {
                e == DomainError::NotFound(e->NotFound_0) && e->NotFound_0@ == not_found_text(operation_id@)
            }),
            r is Ok ==> final(store).model() == without_conflict_record(
                CacheModel {
                    operations: old(store).model().operations.filter(|o: Operation| o.id@ != operation_id@),
                    ..old(store).model()
                },
                operation_id@,
            ),
    {
        settle_target(store, operation_id, false)?;
        store.delete_operation(operation_id)?;
        forget_conflict(store, operation_id);
        Ok(())
    }

    /// Settles a conflict in favour of the operation: it expects GitHub's
    /// current status from now on and goes back to pending, and the record of
    /// its conflict is dropped. Fails with `NotFound` for an unknown operation
    /// and `InvalidInput` for one that is not a conflict.
    pub fn resolve_conflict_with_operation(
        store: &mut CacheStore,
        operation_id: &str,
        current_option_id: &str,
    ) -> (r: Result<(), DomainError>)
        requires
            old(store).wf(),
        ensures
            final(store).wf(),
            final(store).saved_model() == old(store).saved_model(),
            r is Ok <==> (row_with_key(old(store).model().operations, operation_id@) matches Some(o)
                && o.status == OperationStatus::Conflict),
            r matches Err(e) ==> final(store).model() == old(store).model() && (if has_key(
                old(store).model().operations,
                operation_id@,
            ) {
                e == DomainError::InvalidInput(e->InvalidInput_0) && e->InvalidInput_0@ == not_in_conflict_text(
                    operation_id@,
                )
            } else {
                e == DomainError::NotFound(e->NotFound_0) && e->NotFound_0@ == not_found_text(operation_id@)
            }),
            r is Ok ==> exists|n: Operation| #[trigger] requeued(old(store).model(), final(store).model(), operation_id@, current_option_id@, n),
    {
        let o = settle_target(store, operation_id, false)?;
        let ghost m0 = store.model();
        let ghost st0 = *store;
        let _ = store.update_operation_precondition(operation_id, current_option_id);
        let ghost st1 = *store;
        let ghost m1 = store.model();
        let now = clock::now_epoch_ms();
        write_status(store, operation_id, OperationStatus::Pending, None, now);
        let ghost m2 = store.model();
        forget_conflict(store, operation_id);
        proof {
            let n1 = choose|n: Operation| #[trigger] crate::store::operation_replaced(&st0, &st1, operation_id@, n)
                && crate::store::precondition_updated(n, o, current_option_id@);
            assert(n1.key() == operation_id@);
            crate::table::lemma_upserted_lookup(m0.operations, n1, operation_id@);
            let n2 = choose|n: Operation| #[trigger] status_updated(n, row_with_key(m1.operations, operation_id@)->0, OperationStatus::Pending, None, None)
                && m2 == (CacheModel { operations: upserted(m1.operations, n), ..m1 });
            crate::table::lemma_upserted_lookup(m0.operations, n1, operation_id@);
            assert(upserted(upserted(m0.operations, n1), n2) == upserted(m0.operations, n2)) by {
                lemma_upserted_twice(m0.operations, n1, n2);
            }
            assert(requeued(m0, store.model(), operation_id@, current_option_id@, n2));
        }
        Ok(())
    }

    /// Cancels a pending or conflicting operation: it is dropped, with the
    /// record of a conflict. Fails with `NotFound` for an unknown operation and
    /// `InvalidInput` for one in another status.
    pub fn cancel_operation(store: &mut CacheStore, operation_id: &str) -> (r: Result<(), DomainError>)
        requires
            old(store).wf(),
        ensures
            final(store).wf(),
            final(store).saved_model() == old(store).saved_model(),
            r is Ok <==> (row_with_key(old(store).model().operations, operation_id@) matches Some(o)
                && (o.status == OperationStatus::Conflict || o.status == OperationStatus::Pending)),
            r matches Err(e) ==> final(store).model() == old(store).model() && (if has_key(
                old(store).model().operations,
                operation_id@,
            ) {
                e == DomainError::InvalidInput(e->InvalidInput_0) && e->InvalidInput_0@ == not_cancellable_text(
                    operation_id@,
                )
            } else {
                e == DomainError::NotFound(e->NotFound_0) && e->NotFound_0@ == not_found_text(operation_id@)
            }),
            r is Ok ==> final(store).model() == without_conflict_record(
                CacheModel {
                    operations: old(store).model().operations.filter(|o: Operation| o.id@ != operation_id@),
                    ..old(store).model()
                },
                operation_id@,
            ),
    {
        settle_target(store, operation_id, true)?;
        store.delete_operation(operation_id)?;
        forget_conflict(store, operation_id);
        Ok(())
    }
}

/// The cache after an operation is requeued: it expects `expected` and is
/// pending again (no message, no stamp), and its conflict record is gone.
pub open spec fn requeued(m0: CacheModel, m1: CacheModel, id: Seq<char>, expected: Seq<char>, n: Operation) -> bool {
    let o = row_with_key(m0.operations, id)->0;
    &&& n.id == o.id
    &&& n.op_type == o.op_type
    &&& n.payload == o.payload
    &&& n.precondition.base_item_updated_at == o.precondition.base_item_updated_at
    &&& n.precondition.expected_from_option_id@ == expected
    &&& n.created_at == o.created_at
    &&& n.status == OperationStatus::Pending
    &&& n.error_message is None
    &&& n.resolved_at is None
    &&& m1 == without_conflict_record(CacheModel { operations: upserted(m0.operations, n), ..m0 }, id)
}

/// Replacing the same key twice keeps the last row.
proof fn lemma_upserted_twice(s: Seq<Operation>, a: Operation, b: Operation)
    requires
        crate::table::keys_unique(s),
        has_key(s, a.key()),
        a.key() == b.key(),
    ensures
        upserted(upserted(s, a), b) == upserted(s, b),
{
    let i = choose|i: int| 0 <= i < s.len() && #[trigger] s[i].key() == a.key();
    let u = upserted(s, a);
    assert(u == s.update(i, a));
    assert(has_key(u, b.key())) by {
        assert(u[i].key() == b.key());
    }
    let j = choose|j: int| 0 <= j < u.len() && #[trigger] u[j].key() == b.key();
    if j != i {
        assert(u[j] == s[j]);
        assert(s[j].key() != s[i].key());
    }
    assert(upserted(u, b) =~= upserted(s, b));
}

} // verus!
