//! Properties of the library as a whole, stated over the contracts of its
//! operations.
use vstd::prelude::*;
use crate::bootstrap::ops_in;
use crate::dtos::{AppendOperationInput, Operation, OperationStatus, TaskDto};
use crate::append::queued_for;
use crate::store::{CacheModel, status_updated};
use crate::sync::{SyncEvent, SyncPhase, SyncRun, conflict_step, status_written, stepped, stopped};
use crate::table::{Row, has_key, lemma_upserted_lookup, row_with_key, upserted};
use crate::errors::DomainError;

verus! {

broadcast use vstd::seq_lib::group_seq_properties;

/// What writing operation `id` with a status does to the operation rows: the
/// row with that id takes the status, every other row stays as it was.
proof fn lemma_status_written_rows(
    a: CacheModel,
    b: CacheModel,
    id: Seq<char>,
    status: OperationStatus,
    msg: Option<Seq<char>>,
    stamp: Option<i64>,
)
    requires
        crate::table::keys_unique(a.operations),
        status_written(a, b, id, status, msg, stamp),
    ensures
        crate::table::keys_unique(b.operations),
        forall|k: Seq<char>| k != id ==> #[trigger] row_with_key(b.operations, k) == row_with_key(a.operations, k),
        has_key(a.operations, id) ==> (row_with_key(b.operations, id) matches Some(o) && o.status == status),
        !has_key(a.operations, id) ==> b == a,
{
    if has_key(a.operations, id) {
        let n = choose|n: Operation|
            #[trigger] status_updated(n, row_with_key(a.operations, id)->0, status, msg, stamp) && b == (
            CacheModel { operations: upserted(a.operations, n), ..a });
        crate::table::lemma_row_with_key_at(
            a.operations,
            choose|i: int| 0 <= i < a.operations.len() && #[trigger] a.operations[i].key() == id,
        );
        assert forall|k: Seq<char>| k != id implies #[trigger] row_with_key(b.operations, k) == row_with_key(
            a.operations,
            k,
        ) by {
            lemma_upserted_lookup(a.operations, n, k);
        }
        lemma_upserted_lookup(a.operations, n, id);
    }
}

/// Stop on conflict: when GitHub reports an item in another option than the
/// one its operation expects, the operation is marked as a conflict, the run
/// ends without taking any later operation, and no other operation changes.
pub proof fn law_conflict_stops_run(
    r0: SyncRun,
    r1: SyncRun,
    m0: CacheModel,
    m1: CacheModel,
    cur: Option<String>,
    now: i64,
)
    requires
        m0.wf(),
        r0.inv(),
        r0.phase() == SyncPhase::AwaitingStatus,
        !(cur matches Some(c) && c@ == r0.current().precondition.expected_from_option_id@),
        stepped(r0, r1, m0, m1, SyncEvent::CurrentStatus(Ok(cur)), now),
    ensures
        r1.phase() == SyncPhase::Done,
        r1.next() == r0.next(),
        r1.conflicts().len() == r0.conflicts().len() + 1,
        forall|k: Seq<char>|
            k != r0.current().id@ ==> #[trigger] row_with_key(m1.operations, k) == row_with_key(m0.operations, k),
        has_key(m0.operations, r0.current().id@) ==> (row_with_key(m1.operations, r0.current().id@) matches Some(o)
            && o.status == OperationStatus::Conflict),
{
    let q = r0.current();
    assert(conflict_step(r0, r1, m0, m1, cur));
    let mid = choose|mid: CacheModel|
        #[trigger] status_written(m0, mid, q.id@, OperationStatus::Conflict, None, None) && {
            let name = crate::sync::option_name(mid, crate::sync::reported_text(cur));
            &&& m1 == (CacheModel {
                settings: mid.settings.insert(crate::bootstrap::conflict_option_id_key(q.id@), crate::sync::reported_text(cur)).insert(
                    crate::bootstrap::conflict_option_name_key(q.id@),
                    name,
                ),
                ..mid
            })
            &&& r1.token_text() == r0.token_text()
            &&& r1.queue() == r0.queue()
            &&& r1.next() == r0.next()
            &&& r1.completed() == r0.completed()
            &&& r1.failed() == r0.failed()
            &&& r1.abort() == r0.abort()
            &&& r1.phase() == SyncPhase::Done
            &&& r1.conflicts().len() == r0.conflicts().len() + 1
            &&& r1.conflicts().take(r0.conflicts().len() as int) == r0.conflicts()
            &&& status_updated(r1.conflicts().last().operation, q, OperationStatus::Conflict, None, None)
            &&& r1.conflicts().last().current_option_id@ == crate::sync::reported_text(cur)
            &&& r1.conflicts().last().current_option_name@ == name
        };
    lemma_status_written_rows(m0, mid, q.id@, OperationStatus::Conflict, None, None);
    assert(m1.operations == mid.operations);
}

/// An authentication, rate-limit or network error ends the run: the operation
/// in hand goes back to pending, to be tried again by a later run, and no
/// other operation changes.
pub proof fn law_abort_requeues(
    r0: SyncRun,
    r1: SyncRun,
    m0: CacheModel,
    m1: CacheModel,
    event: SyncEvent,
    e: DomainError,
    now: i64,
)
    requires
        m0.wf(),
        r0.inv(),
        e.is_abort(),
        (r0.phase() == SyncPhase::AwaitingStatus && event == SyncEvent::CurrentStatus(Err(e)))
            || (r0.phase() == SyncPhase::AwaitingUpdate && event == SyncEvent::StatusUpdated(Err(e))),
        stepped(r0, r1, m0, m1, event, now),
    ensures
        r1.phase() == SyncPhase::Done,
        r1.abort() == Some(e),
        r1.next() == r0.next(),
        forall|k: Seq<char>|
            k != r0.current().id@ ==> #[trigger] row_with_key(m1.operations, k) == row_with_key(m0.operations, k),
        has_key(m0.operations, r0.current().id@) ==> (row_with_key(m1.operations, r0.current().id@) matches Some(o)
            && o.status == OperationStatus::Pending),
{
    assert(stopped(r0, r1, m0, m1, e));
    lemma_status_written_rows(m0, m1, r0.current().id@, OperationStatus::Pending, None, None);
}

/// A setting reads back as it was last written, and writing one setting
/// leaves the others as they were.
pub proof fn law_setting_read_back(m: CacheModel, k: Seq<char>, v: Seq<char>, other: Seq<char>)
    requires
        other != k,
    ensures
        (CacheModel { settings: m.settings.insert(k, v), ..m }).setting(k) == Some(v),
        (CacheModel { settings: m.settings.insert(k, v), ..m }).setting(other) == m.setting(other),
        (CacheModel { settings: m.settings.remove(k), ..m }).setting(k) is None,
        (CacheModel { settings: m.settings.remove(k), ..m }).setting(other) == m.setting(other),
{
}

/// Queued operations wait as pending: every operation that appending queued
/// is among the pending operations of the cache afterwards.
pub proof fn law_appended_are_pending(m0: CacheModel, ops: Seq<Operation>, inputs: Seq<AppendOperationInput>)
    requires
        queued_for(ops, inputs),
    ensures
        forall|i: int|
            0 <= i < ops.len() ==> ops_in(CacheModel { operations: m0.operations + ops, ..m0 }, OperationStatus::Pending).contains(
                #[trigger] ops[i],
            ),
{
    let all = m0.operations + ops;
    let pred = |o: Operation| o.status == OperationStatus::Pending;
    assert forall|i: int| 0 <= i < ops.len() implies ops_in(
        CacheModel { operations: all, ..m0 },
        OperationStatus::Pending,
    ).contains(#[trigger] ops[i]) by {
        assert(ops[i] == crate::store::new_operation(inputs[i], ops[i].id, ops[i].created_at));
        assert(all[m0.operations.len() + i] == ops[i]);
        all.lemma_filter_contains(pred, m0.operations.len() + i);
        assert(ops_in(CacheModel { operations: all, ..m0 }, OperationStatus::Pending) == all.filter(pred));
    }
}


/// Writing the status of an operation changes the operation rows alone.
proof fn lemma_status_written_keeps_the_rest(
    a: CacheModel,
    b: CacheModel,
    id: Seq<char>,
    status: OperationStatus,
    msg: Option<Seq<char>>,
    stamp: Option<i64>,
)
    requires
        status_written(a, b, id, status, msg, stamp),
    ensures
        b.settings == a.settings,
        b.projects == a.projects,
        b.status_fields == a.status_fields,
        b.status_options == a.status_options,
        b.tasks == a.tasks,
{
    if has_key(a.operations, id) {
        let n = choose|n: Operation|
            #[trigger] status_updated(n, row_with_key(a.operations, id)->0, status, msg, stamp) && b == (
            CacheModel { operations: upserted(a.operations, n), ..a });
    }
}

/// A completed move shows in the cache: when GitHub applied the move of a
/// cached item to a cached option, the cached item is in that option
/// afterwards, stamped with the time of the step.
pub proof fn law_completed_move_shows(r0: SyncRun, r1: SyncRun, m0: CacheModel, m1: CacheModel, now: i64)
    requires
        m0.wf(),
        r0.inv(),
        r0.phase() == SyncPhase::AwaitingUpdate,
        stepped(r0, r1, m0, m1, SyncEvent::StatusUpdated(Ok(())), now),
        has_key(m0.tasks, r0.current().payload.item_id@),
        has_key(m0.status_options, r0.current().payload.to_option_id@),
    ensures
        row_with_key(m1.tasks, r0.current().payload.item_id@) matches Some(t)
            && t.status_option_id == Some(r0.current().payload.to_option_id)
            && t.synced_at == Some(now),
{
    let q = r0.current();
    let item = q.payload.item_id@;
    assert(crate::sync::completed_step(r0, r1, m0, m1, now));
    let (mid, mid2) = choose|mid: CacheModel, mid2: CacheModel|
        #[trigger] status_written(m0, mid, q.id@, OperationStatus::Completed, None, Some(now))
            && #[trigger] crate::sync::task_moved(mid, mid2, q, now) && crate::sync::advanced(r0, r1, mid2, m1)
            && r1.failed() == r0.failed() && r1.completed().len() == r0.completed().len() + 1 && r1.completed().take(
            r0.completed().len() as int,
        ) == r0.completed() && status_updated(
            r1.completed().last(),
            q,
            OperationStatus::Completed,
            None,
            Some(now),
        );
    lemma_status_written_keeps_the_rest(m0, mid, q.id@, OperationStatus::Completed, None, Some(now));
    let i = choose|i: int| 0 <= i < m0.tasks.len() && #[trigger] m0.tasks[i].key() == item;
    crate::table::lemma_row_with_key_at(m0.tasks, i);
    let t = m0.tasks[i];
    assert(has_key(m0.projects, m0.tasks[i].project_id@));
    let t2 = crate::dtos::TaskDto { status_option_id: Some(q.payload.to_option_id), synced_at: Some(now), ..t };
    assert(t2.key() == item);
    lemma_upserted_lookup(mid.tasks, t2, item);
    assert(mid2.tasks == upserted(mid.tasks, t2));
    let next_id = if r1.next() < r1.queue().len() { r1.queue()[r1.next()].id@ } else { Seq::empty() };
    if r1.next() < r1.queue().len() {
        lemma_status_written_keeps_the_rest(mid2, m1, next_id, OperationStatus::Syncing, None, None);
    }
}

/// A stored task reads back unchanged, and storing it changes no other
/// task.
pub proof fn law_task_reads_back(m: CacheModel, t: TaskDto, other: Seq<char>)
    requires
        m.wf(),
        crate::bootstrap::with_task(m, t) is Some,
        other != t.id@,
    ensures
        row_with_key(crate::bootstrap::with_task(m, t)->0.tasks, t.id@) == Some(t),
        row_with_key(crate::bootstrap::with_task(m, t)->0.tasks, other) == row_with_key(m.tasks, other),
{
    lemma_upserted_lookup(m.tasks, t, t.id@);
    lemma_upserted_lookup(m.tasks, t, other);
}

/// `runs` and `models` are the states of a run and of the cache as the
/// events `events` arrive at times `nows`: each pair of neighbours is one
/// step.
pub open spec fn run_trace(
    runs: Seq<SyncRun>,
    models: Seq<CacheModel>,
    events: Seq<SyncEvent>,
    nows: Seq<i64>,
) -> bool {
    &&& runs.len() == events.len() + 1
    &&& models.len() == runs.len()
    &&& nows.len() == events.len()
    &&& forall|i: int| 0 <= i < runs.len() ==> (#[trigger] runs[i]).inv()
    &&& forall|i: int|
        0 <= i < events.len() ==> #[trigger] stepped(runs[i], runs[i + 1], models[i], models[i + 1], events[i], nows[i])
}

/// GitHub reported the item of `q` in the option `q` expects.
pub open spec fn reported_expected(event: SyncEvent, q: Operation) -> bool {
    event matches SyncEvent::CurrentStatus(Ok(Some(c))) && c@ == q.precondition.expected_from_option_id@
}

/// The shape of one step: the queue stays, the run moves on by at most one
/// operation, and it waits for an update only after GitHub reported the
/// option the operation in hand expects.
proof fn lemma_step_shape(r0: SyncRun, r1: SyncRun, m0: CacheModel, m1: CacheModel, event: SyncEvent, now: i64)
    requires
        r0.inv(),
        stepped(r0, r1, m0, m1, event, now),
    ensures
        r1.queue() == r0.queue(),
        r1.next() == r0.next() || (r1.next() == r0.next() + 1 && r0.phase() != SyncPhase::Done),
        r1.conflicts() == r0.conflicts() || (r1.conflicts().len() == r0.conflicts().len() + 1 && r1.phase()
            == SyncPhase::Done && r0.phase() != SyncPhase::Done),
        r0.phase() == SyncPhase::Done ==> r1.phase() == SyncPhase::Done && r1.conflicts() == r0.conflicts(),
        r1.phase() == SyncPhase::AwaitingUpdate ==> r1.next() == r0.next() && (r0.phase()
            == SyncPhase::AwaitingUpdate || (r0.phase() == SyncPhase::AwaitingStatus && reported_expected(event, r0.current()))),
{
}

/// Every update a run asks for is for an operation of the run's queue (the
/// operations pending when it started, see `SyncToGitHubUseCase::start`),
/// with that operation's own payload, and comes after GitHub reported, in
/// the same run, that the item is in the option the operation expects.
pub proof fn law_updates_follow_matching_fetch(
    runs: Seq<SyncRun>,
    models: Seq<CacheModel>,
    events: Seq<SyncEvent>,
    nows: Seq<i64>,
    i: int,
)
    requires
        run_trace(runs, models, events, nows),
        0 <= i < runs.len(),
        runs[0].phase() != SyncPhase::AwaitingUpdate,
        runs[i].phase() == SyncPhase::AwaitingUpdate,
    ensures
        runs[i].queue() == runs[0].queue(),
        runs[0].next() <= runs[i].next() < runs[0].queue().len(),
        runs[i].current() == runs[0].queue()[runs[i].next()],
        runs[i].asks(
            crate::sync::SyncAction::UpdateStatus {
                operation_id: runs[i].current().id,
                project_id: runs[i].current().payload.project_id,
                item_id: runs[i].current().payload.item_id,
                status_field_id: runs[i].current().payload.status_field_id,
                option_id: runs[i].current().payload.to_option_id,
            },
        ),
        exists|j: int|
            0 <= j < i && runs[j].phase() == SyncPhase::AwaitingStatus && runs[j].next() == runs[i].next()
                && reported_expected(#[trigger] events[j], runs[i].current()),
    decreases i,
{
    lemma_queue_kept(runs, models, events, nows, i);
    assert(runs[i].inv());
    runs[i].lemma_inv();
    if i > 0 {
        let p = i - 1;
        assert(stepped(runs[p], runs[p + 1], models[p], models[p + 1], events[p], nows[p]));
        lemma_step_shape(runs[p], runs[p + 1], models[p], models[p + 1], events[p], nows[p]);
        lemma_queue_kept(runs, models, events, nows, p);
        if runs[p].phase() == SyncPhase::AwaitingUpdate {
            law_updates_follow_matching_fetch(runs, models, events, nows, p);
            let j = choose|j: int|
                0 <= j < p && runs[j].phase() == SyncPhase::AwaitingStatus && runs[j].next() == runs[p].next()
                    && reported_expected(#[trigger] events[j], runs[p].current());
            assert(reported_expected(events[j], runs[i].current()));
        } else {
            assert(reported_expected(events[p], runs[i].current()));
        }
    }
}

/// Along a run the queue stays as it started and the run only moves forward.
proof fn lemma_queue_kept(runs: Seq<SyncRun>, models: Seq<CacheModel>, events: Seq<SyncEvent>, nows: Seq<i64>, i: int)
    requires
        run_trace(runs, models, events, nows),
        0 <= i < runs.len(),
    ensures
        runs[i].queue() == runs[0].queue(),
        runs[0].next() <= runs[i].next(),
    decreases i,
{
    if i > 0 {
        let p = i - 1;
        lemma_queue_kept(runs, models, events, nows, p);
        assert(runs[p].inv());
        assert(stepped(runs[p], runs[p + 1], models[p], models[p + 1], events[p], nows[p]));
        lemma_step_shape(runs[p], runs[p + 1], models[p], models[p + 1], events[p], nows[p]);
    }
}

/// In the cache `m`, the only operation of the run `r` that is syncing is
/// the one in hand, while the run goes on.
pub open spec fn syncing_only_in_hand(r: SyncRun, m: CacheModel) -> bool {
    forall|k: int|
        0 <= k < r.queue().len() && (#[trigger] row_with_key(m.operations, r.queue()[k].id@) matches Some(o)
            && o.status == OperationStatus::Syncing) ==> r.phase() != SyncPhase::Done && k == r.next()
}

/// Distinct operations of the queue have distinct identifiers.
pub open spec fn queue_ids_distinct(q: Seq<Operation>) -> bool {
    forall|a: int, b: int| 0 <= a < q.len() && 0 <= b < q.len() && a != b ==> #[trigger] q[a].id@ != #[trigger] q[b].id@
}

/// After `status_written` on operation `id`, the queue operations other
/// than the one with that id keep their rows.
proof fn lemma_written_queue(
    q: Seq<Operation>,
    a: CacheModel,
    b: CacheModel,
    idx: int,
    status: OperationStatus,
    msg: Option<Seq<char>>,
    stamp: Option<i64>,
)
    requires
        crate::table::keys_unique(a.operations),
        queue_ids_distinct(q),
        0 <= idx < q.len(),
        status_written(a, b, q[idx].id@, status, msg, stamp),
    ensures
        crate::table::keys_unique(b.operations),
        forall|k: int|
            0 <= k < q.len() && k != idx ==> #[trigger] row_with_key(b.operations, q[k].id@) == row_with_key(
                a.operations,
                q[k].id@,
            ),
        row_with_key(b.operations, q[idx].id@) matches Some(o) ==> o.status == status,
{
    lemma_status_written_rows(a, b, q[idx].id@, status, msg, stamp);
    assert forall|k: int| 0 <= k < q.len() && k != idx implies #[trigger] row_with_key(b.operations, q[k].id@)
        == row_with_key(a.operations, q[k].id@) by {
        assert(q[k].id@ != q[idx].id@);
    }
}

/// One step keeps the only syncing operation of the queue the one in hand.
proof fn lemma_step_syncing(r0: SyncRun, r1: SyncRun, m0: CacheModel, m1: CacheModel, event: SyncEvent, now: i64)
    requires
        r0.inv(),
        crate::table::keys_unique(m0.operations),
        queue_ids_distinct(r0.queue()),
        syncing_only_in_hand(r0, m0),
        stepped(r0, r1, m0, m1, event, now),
    ensures
        crate::table::keys_unique(m1.operations),
        syncing_only_in_hand(r1, m1),
{
    r0.lemma_inv();
    lemma_step_shape(r0, r1, m0, m1, event, now);
    let q = r0.queue();
    let n = r0.next();
    match (r0.phase(), event) {
        (SyncPhase::AwaitingStatus, SyncEvent::CurrentStatus(res)) => {
            assert(n < q.len());
            match res {
                Err(e) => {
                    if e.is_abort() {
                        lemma_written_queue(q, m0, m1, n, OperationStatus::Pending, None, None);
                    } else {
                        lemma_failed_syncing(r0, r1, m0, m1, e, now);
                    }
                },
                Ok(cur) => {
                    if cur matches Some(c) && c@ == r0.current().precondition.expected_from_option_id@ {
                    } else {
                        let mid = choose|mid: CacheModel|
                            #[trigger] status_written(m0, mid, q[n].id@, OperationStatus::Conflict, None, None)
                                && m1.operations == mid.operations;
                        lemma_written_queue(q, m0, mid, n, OperationStatus::Conflict, None, None);
                    }
                },
            }
        },
        (SyncPhase::AwaitingUpdate, SyncEvent::StatusUpdated(res)) => {
            assert(n < q.len());
            match res {
                Ok(_) => {
                    let (mid, mid2) = choose|mid: CacheModel, mid2: CacheModel|
                        #[trigger] status_written(m0, mid, q[n].id@, OperationStatus::Completed, None, Some(now))
                            && #[trigger] crate::sync::task_moved(mid, mid2, q[n], now) && if crate::sync::move_refused(
                            mid,
                            q[n],
                            now,
                        ) {
                            r1.phase() == SyncPhase::Done && m1 == mid
                        } else {
                            crate::sync::advanced(r0, r1, mid2, m1)
                        };
                    lemma_written_queue(q, m0, mid, n, OperationStatus::Completed, None, Some(now));
                    assert(mid2.operations == mid.operations);
                    if !crate::sync::move_refused(mid, q[n], now) {
                        lemma_advanced_syncing(r0, r1, mid, mid2, m1);
                    }
                },
                Err(e) => {
                    if e.is_abort() {
                        lemma_written_queue(q, m0, m1, n, OperationStatus::Pending, None, None);
                    } else {
                        lemma_failed_syncing(r0, r1, m0, m1, e, now);
                    }
                },
            }
        },
        _ => {},
    }
}

/// A failed operation leaves syncing, and the run moves on.
proof fn lemma_failed_syncing(r0: SyncRun, r1: SyncRun, m0: CacheModel, m1: CacheModel, e: DomainError, now: i64)
    requires
        r0.inv(),
        r0.phase() != SyncPhase::Done,
        crate::table::keys_unique(m0.operations),
        queue_ids_distinct(r0.queue()),
        syncing_only_in_hand(r0, m0),
        crate::sync::failed_step(r0, r1, m0, m1, e, now),
    ensures
        crate::table::keys_unique(m1.operations),
        syncing_only_in_hand(r1, m1),
{
    r0.lemma_inv();
    let q = r0.queue();
    let n = r0.next();
    let mid = choose|mid: CacheModel|
        #[trigger] status_written(m0, mid, q[n].id@, OperationStatus::Failed, Some(e.display_text()), Some(now))
            && crate::sync::advanced(r0, r1, mid, m1);
    lemma_written_queue(q, m0, mid, n, OperationStatus::Failed, Some(e.display_text()), Some(now));
    lemma_advanced_syncing(r0, r1, mid, mid, m1);
}

/// After the operation in hand has left syncing, moving on marks only the
/// next one as syncing.
proof fn lemma_advanced_syncing(r0: SyncRun, r1: SyncRun, mid: CacheModel, mid2: CacheModel, m1: CacheModel)
    requires
        r0.inv(),
        r0.phase() != SyncPhase::Done,
        crate::table::keys_unique(mid.operations),
        mid2.operations == mid.operations,
        queue_ids_distinct(r0.queue()),
        forall|k: int|
            0 <= k < r0.queue().len() && (#[trigger] row_with_key(mid.operations, r0.queue()[k].id@) matches Some(o)
                && o.status == OperationStatus::Syncing) ==> false,
        crate::sync::advanced(r0, r1, mid2, m1),
    ensures
        crate::table::keys_unique(m1.operations),
        syncing_only_in_hand(r1, m1),
{
    r0.lemma_inv();
    let q = r0.queue();
    if r1.next() < q.len() {
        lemma_written_queue(q, mid2, m1, r1.next(), OperationStatus::Syncing, None, None);
    }
}

/// Along a run, the only syncing operation of the queue is the one in hand;
/// so when the run is over, none of the operations it took is left syncing.
pub proof fn law_nothing_left_syncing(
    runs: Seq<SyncRun>,
    models: Seq<CacheModel>,
    events: Seq<SyncEvent>,
    nows: Seq<i64>,
    i: int,
)
    requires
        run_trace(runs, models, events, nows),
        0 <= i < runs.len(),
        models[0].wf(),
        queue_ids_distinct(runs[0].queue()),
        syncing_only_in_hand(runs[0], models[0]),
    ensures
        syncing_only_in_hand(runs[i], models[i]),
        crate::table::keys_unique(models[i].operations),
        runs[i].phase() == SyncPhase::Done ==> forall|k: int|
            0 <= k < runs[0].queue().len() ==> !(#[trigger] row_with_key(models[i].operations, runs[0].queue()[k].id@) matches Some(o)
                && o.status == OperationStatus::Syncing),
    decreases i,
{
    lemma_queue_kept(runs, models, events, nows, i);
    if i > 0 {
        let p = i - 1;
        law_nothing_left_syncing(runs, models, events, nows, p);
        lemma_queue_kept(runs, models, events, nows, p);
        assert(stepped(runs[p], runs[p + 1], models[p], models[p + 1], events[p], nows[p]));
        lemma_step_syncing(runs[p], runs[p + 1], models[p], models[p + 1], events[p], nows[p]);
    }
}

/// A run meets at most one conflict: the first one ends it.
pub proof fn law_at_most_one_conflict(
    runs: Seq<SyncRun>,
    models: Seq<CacheModel>,
    events: Seq<SyncEvent>,
    nows: Seq<i64>,
    i: int,
)
    requires
        run_trace(runs, models, events, nows),
        0 <= i < runs.len(),
    ensures
        runs[i].conflicts() == runs[0].conflicts() || (runs[i].conflicts().len() == runs[0].conflicts().len() + 1
            && runs[i].phase() == SyncPhase::Done),
    decreases i,
{
    if i > 0 {
        let p = i - 1;
        law_at_most_one_conflict(runs, models, events, nows, p);
        assert(runs[p].inv());
        assert(stepped(runs[p], runs[p + 1], models[p], models[p + 1], events[p], nows[p]));
        lemma_step_shape(runs[p], runs[p + 1], models[p], models[p + 1], events[p], nows[p]);
    }
}

/// Rows with unique keys before an insert-or-replace, when they are
/// unique after it.
proof fn lemma_upserted_keys_back<T: Row>(s: Seq<T>, t: T)
    requires
        crate::table::keys_unique(upserted(s, t)),
    ensures
        crate::table::keys_unique(s),
{
    let u = upserted(s, t);
    assert forall|i: int, j: int| 0 <= i < s.len() && 0 <= j < s.len() && i != j implies #[trigger] s[i].key()
        != #[trigger] s[j].key() by {
        if has_key(s, t.key()) {
            let c = choose|c: int| 0 <= c < s.len() && #[trigger] s[c].key() == t.key();
            assert(u == s.update(c, t));
            if s[i].key() == s[j].key() {
                if c == i {
                    assert(u[i].key() == u[j].key());
                } else if c == j {
                    assert(u[i].key() == u[j].key());
                } else {
                    assert(u[i] == s[i] && u[j] == s[j]);
                }
            }
        } else {
            assert(u[i] == s[i] && u[j] == s[j]);
        }
    }
}

/// Storing options keeps the projects.
proof fn lemma_with_options_projects(m: CacheModel, os: Seq<crate::dtos::StatusOptionDto>)
    requires
        crate::bootstrap::with_options(m, os) is Some,
    ensures
        crate::bootstrap::with_options(m, os)->0.projects == m.projects,
    decreases os.len(),
{
    if os.len() > 0 {
        lemma_with_options_projects(m, os.drop_last());
    }
}

/// Storing tasks keeps everything but the tasks, and each stored task whose
/// id no later one shares reads back.
proof fn lemma_with_tasks_reads(m: CacheModel, ts: Seq<TaskDto>)
    requires
        crate::bootstrap::with_tasks(m, ts) is Some,
        crate::table::keys_unique(crate::bootstrap::with_tasks(m, ts)->0.tasks),
        forall|a: int, b: int| 0 <= a < b < ts.len() ==> #[trigger] ts[a].id@ != #[trigger] ts[b].id@,
    ensures
        crate::bootstrap::with_tasks(m, ts)->0.projects == m.projects,
        forall|i: int| 0 <= i < ts.len() ==> #[trigger] row_with_key(crate::bootstrap::with_tasks(m, ts)->0.tasks, ts[i].id@) == Some(ts[i]),
    decreases ts.len(),
{
    if ts.len() > 0 {
        let init = ts.drop_last();
        let m1 = crate::bootstrap::with_tasks(m, init)->0;
        let last = ts.last();
        let m2 = crate::bootstrap::with_tasks(m, ts)->0;
        assert(m2 == CacheModel { tasks: upserted(m1.tasks, last), ..m1 });
        lemma_upserted_keys_back(m1.tasks, last);
        lemma_with_tasks_reads(m, init);
        assert forall|i: int| 0 <= i < ts.len() implies #[trigger] row_with_key(m2.tasks, ts[i].id@) == Some(ts[i]) by {
            lemma_upserted_lookup(m1.tasks, last, ts[i].id@);
            if i < ts.len() - 1 {
                assert(init[i] == ts[i]);
                assert(row_with_key(m1.tasks, init[i].id@) == Some(init[i]));
            }
        }
    }
}

/// A refreshed project reads back as it was fetched: the project itself,
/// and each of its fetched tasks (their ids distinct), from the cache the
/// refresh leaves (which, like every state of the cache, is valid).
pub proof fn law_refreshed_project_reads_back(m: CacheModel, pid: Seq<char>, d: crate::dtos::GitHubProjectData)
    requires
        m.wf(),
        d.project.id@ == pid,
        crate::bootstrap::with_project_data(crate::bootstrap::with_project(m, d.project), pid, d) is Some,
        crate::bootstrap::with_project_data(crate::bootstrap::with_project(m, d.project), pid, d)->0.wf(),
        forall|a: int, b: int| 0 <= a < b < d.tasks@.len() ==> #[trigger] d.tasks@[a].id@ != #[trigger] d.tasks@[b].id@,
    ensures
        ({
            let m2 = crate::bootstrap::with_project_data(crate::bootstrap::with_project(m, d.project), pid, d)->0;
            &&& row_with_key(m2.projects, pid) == Some(d.project)
            &&& forall|i: int|
                0 <= i < d.tasks@.len() ==> #[trigger] row_with_key(m2.tasks, d.tasks@[i].id@) == Some(d.tasks@[i])
        }),
{
    let m0 = crate::bootstrap::with_project(m, d.project);
    lemma_upserted_lookup(m.projects, d.project, pid);
    let m1 = crate::bootstrap::without_fields_of(m0, pid);
    assert(m1.projects == m0.projects);
    let m4 = match d.status_field {
        Some(f) => {
            let m3 = crate::bootstrap::with_field(m1, f)->0;
            assert(m3.projects == m1.projects);
            let m5 = crate::bootstrap::without_options_of(m3, f.id@);
            lemma_with_options_projects(m5, d.status_options@);
            crate::bootstrap::with_options(m5, d.status_options@)->0
        },
        None => m1,
    };
    assert(m4.projects == m0.projects);
    let m6 = crate::bootstrap::without_tasks_of(m4, pid);
    lemma_with_tasks_reads(m6, d.tasks@);
}

/// A stored task reads back through its project's task listing: the listing
/// holds exactly one task with its id, equal to it, and only tasks of that
/// project.
pub proof fn law_task_listed_with_its_project(m: CacheModel, t: TaskDto)
    requires
        m.wf(),
        crate::bootstrap::with_task(m, t) is Some,
    ensures
        ({
            let listing = crate::bootstrap::with_task(m, t)->0.tasks.filter(
                |x: TaskDto| x.project_id@ == t.project_id@,
            );
            &&& crate::table::keys_unique(listing)
            &&& row_with_key(listing, t.id@) == Some(t)
            &&& forall|i: int| 0 <= i < listing.len() ==> (#[trigger] listing[i]).project_id@ == t.project_id@
        }),
{
    let tasks = crate::bootstrap::with_task(m, t)->0.tasks;
    let pred = |x: TaskDto| x.project_id@ == t.project_id@;
    lemma_upserted_lookup(m.tasks, t, t.id@);
    crate::table::lemma_filter_lookup(tasks, pred, t.id@);
    crate::table::lemma_filter_all_satisfy(tasks, pred);
}

/// `k` is the id of no operation of the queue.
pub open spec fn outside_queue(q: Seq<Operation>, k: Seq<char>) -> bool {
    forall|j: int| 0 <= j < q.len() ==> #[trigger] q[j].id@ != k
}

/// One step changes no operation outside the run's queue.
proof fn lemma_step_outside(r0: SyncRun, r1: SyncRun, m0: CacheModel, m1: CacheModel, event: SyncEvent, now: i64)
    requires
        r0.inv(),
        crate::table::keys_unique(m0.operations),
        stepped(r0, r1, m0, m1, event, now),
    ensures
        crate::table::keys_unique(m1.operations),
        forall|k: Seq<char>|
            outside_queue(r0.queue(), k) ==> #[trigger] row_with_key(m1.operations, k) == row_with_key(m0.operations, k),
{
    r0.lemma_inv();
    lemma_step_shape(r0, r1, m0, m1, event, now);
    let q = r0.queue();
    let n = r0.next();
    match (r0.phase(), event) {
        (SyncPhase::AwaitingStatus, SyncEvent::CurrentStatus(res)) => {
            assert(q[n].id@ == q[n].id@);
            match res {
                Err(e) => {
                    if e.is_abort() {
                        lemma_status_written_rows(m0, m1, q[n].id@, OperationStatus::Pending, None, None);
                    } else {
                        lemma_failed_outside(r0, r1, m0, m1, e, now);
                    }
                },
                Ok(cur) => {
                    if cur matches Some(c) && c@ == r0.current().precondition.expected_from_option_id@ {
                    } else {
                        let mid = choose|mid: CacheModel|
                            #[trigger] status_written(m0, mid, q[n].id@, OperationStatus::Conflict, None, None)
                                && m1.operations == mid.operations;
                        lemma_status_written_rows(m0, mid, q[n].id@, OperationStatus::Conflict, None, None);
                    }
                },
            }
        },
        (SyncPhase::AwaitingUpdate, SyncEvent::StatusUpdated(res)) => {
            assert(q[n].id@ == q[n].id@);
            match res {
                Ok(_) => {
                    let (mid, mid2) = choose|mid: CacheModel, mid2: CacheModel|
                        #[trigger] status_written(m0, mid, q[n].id@, OperationStatus::Completed, None, Some(now))
                            && #[trigger] crate::sync::task_moved(mid, mid2, q[n], now) && if crate::sync::move_refused(
                            mid,
                            q[n],
                            now,
                        ) {
                            m1 == mid
                        } else {
                            crate::sync::advanced(r0, r1, mid2, m1)
                        };
                    lemma_status_written_rows(m0, mid, q[n].id@, OperationStatus::Completed, None, Some(now));
                    assert(mid2.operations == mid.operations);
                    if !crate::sync::move_refused(mid, q[n], now) {
                        lemma_advanced_outside(r0, r1, mid2, m1);
                    }
                },
                Err(e) => {
                    if e.is_abort() {
                        lemma_status_written_rows(m0, m1, q[n].id@, OperationStatus::Pending, None, None);
                    } else {
                        lemma_failed_outside(r0, r1, m0, m1, e, now);
                    }
                },
            }
        },
        _ => {},
    }
}

/// A failed operation and the move to the next one touch only the queue.
proof fn lemma_failed_outside(r0: SyncRun, r1: SyncRun, m0: CacheModel, m1: CacheModel, e: DomainError, now: i64)
    requires
        r0.inv(),
        r0.phase() != SyncPhase::Done,
        crate::table::keys_unique(m0.operations),
        crate::sync::failed_step(r0, r1, m0, m1, e, now),
    ensures
        crate::table::keys_unique(m1.operations),
        forall|k: Seq<char>|
            outside_queue(r0.queue(), k) ==> #[trigger] row_with_key(m1.operations, k) == row_with_key(m0.operations, k),
{
    r0.lemma_inv();
    let q = r0.queue();
    let n = r0.next();
    assert(q[n].id@ == q[n].id@);
    let mid = choose|mid: CacheModel|
        #[trigger] status_written(m0, mid, q[n].id@, OperationStatus::Failed, Some(e.display_text()), Some(now))
            && crate::sync::advanced(r0, r1, mid, m1);
    lemma_status_written_rows(m0, mid, q[n].id@, OperationStatus::Failed, Some(e.display_text()), Some(now));
    lemma_advanced_outside(r0, r1, mid, m1);
}

/// Moving on to the next operation touches only the queue.
proof fn lemma_advanced_outside(r0: SyncRun, r1: SyncRun, mid: CacheModel, m1: CacheModel)
    requires
        r0.inv(),
        r0.phase() != SyncPhase::Done,
        crate::table::keys_unique(mid.operations),
        crate::sync::advanced(r0, r1, mid, m1),
    ensures
        crate::table::keys_unique(m1.operations),
        forall|k: Seq<char>|
            outside_queue(r0.queue(), k) ==> #[trigger] row_with_key(m1.operations, k) == row_with_key(mid.operations, k),
{
    r0.lemma_inv();
    let q = r0.queue();
    if r1.next() < q.len() {
        let nx = r1.next();
        assert(q[nx].id@ == q[nx].id@);
        lemma_status_written_rows(mid, m1, q[nx].id@, OperationStatus::Syncing, None, None);
    }
}

/// A run changes no operation outside its queue: those that were not
/// pending when it started keep their status, message and resolution time.
pub proof fn law_run_keeps_other_operations(
    runs: Seq<SyncRun>,
    models: Seq<CacheModel>,
    events: Seq<SyncEvent>,
    nows: Seq<i64>,
    i: int,
    k: Seq<char>,
)
    requires
        run_trace(runs, models, events, nows),
        0 <= i < runs.len(),
        models[0].wf(),
        outside_queue(runs[0].queue(), k),
    ensures
        row_with_key(models[i].operations, k) == row_with_key(models[0].operations, k),
        crate::table::keys_unique(models[i].operations),
    decreases i,
{
    if i > 0 {
        let p = i - 1;
        law_run_keeps_other_operations(runs, models, events, nows, p, k);
        lemma_queue_kept(runs, models, events, nows, p);
        assert(runs[p].inv());
        assert(stepped(runs[p], runs[p + 1], models[p], models[p + 1], events[p], nows[p]));
        lemma_step_outside(runs[p], runs[p + 1], models[p], models[p + 1], events[p], nows[p]);
    }
}

} // verus!
