//! Queueing operations in the operation log.
use vstd::prelude::*;
use crate::clock;
use crate::dtos::{AppendOperationInput, Operation};
use crate::errors::DomainError;
use crate::store::{CacheModel, CacheStore, foreign_key_message, insert_refused, new_operation};
use crate::table::has_key;

verus! {

broadcast use vstd::seq_lib::group_seq_properties;

/// `ops` are the operations queued for `inputs`, one for one and in order:
/// pending moves with the inputs' payloads and preconditions.
pub open spec fn queued_for(ops: Seq<Operation>, inputs: Seq<AppendOperationInput>) -> bool {
    &&& ops.len() == inputs.len()
    &&& forall|i: int|
        0 <= i < ops.len() ==> #[trigger] ops[i] == new_operation(inputs[i], ops[i].id, ops[i].created_at)
}

/// The operations for `inputs` under the identifiers `ids`, one for one,
/// all created at `now`.
pub open spec fn ops_for(inputs: Seq<AppendOperationInput>, ids: Seq<String>, now: i64) -> Seq<Operation> {
    Seq::new(inputs.len(), |i: int| new_operation(inputs[i], ids[i], now))
}

/// The cache `m` with `ops` queued after its operations.
pub open spec fn with_queued(m: CacheModel, ops: Seq<Operation>) -> CacheModel {
    CacheModel { operations: m.operations + ops, ..m }
}

/// The `i`-th input can be queued after those before it: its identifier is
/// not taken, by a stored operation or one queued before it, and its project
/// is cached.
pub open spec fn insertable(
    m: CacheModel,
    inputs: Seq<AppendOperationInput>,
    ids: Seq<String>,
    now: i64,
    i: int,
) -> bool {
    &&& !has_key(m.operations + ops_for(inputs, ids, now).take(i), ids[i]@)
    &&& has_key(m.projects, inputs[i].project_id@)
}

/// What queueing `inputs` under `ids` at time `now` does to `m0`: every input
/// is queued, in order, when each can be; otherwise those before the first
/// one that cannot are queued and the error is that input's refusal (its
/// identifier taken, else its project missing).
pub open spec fn appended(
    m0: CacheModel,
    m1: CacheModel,
    inputs: Seq<AppendOperationInput>,
    ids: Seq<String>,
    now: i64,
    r: Result<Vec<Operation>, DomainError>,
) -> bool {
    let all = ops_for(inputs, ids, now);
    match r {
        Ok(ops) => {
            &&& forall|i: int| 0 <= i < inputs.len() ==> #[trigger] insertable(m0, inputs, ids, now, i)
            &&& ops@ == all
            &&& m1 == with_queued(m0, all)
        },
        Err(e) => exists|k: int|
            {
                &&& 0 <= k < inputs.len()
                &&& forall|j: int| 0 <= j < k ==> #[trigger] insertable(m0, inputs, ids, now, j)
                &&& !#[trigger] insertable(m0, inputs, ids, now, k)
                &&& m1 == with_queued(m0, all.take(k))
                &&& e is PersistenceError
                &&& e.message() == if has_key(m0.operations + all.take(k), ids[k]@) {
                    "UNIQUE constraint failed: operations.id"@
                } else {
                    foreign_key_message()
                }
            },
    }
}

/// Queues operations in the operation log.
pub struct AppendOperationsUseCase;

impl AppendOperationsUseCase {
    /// The use case.
    pub fn new() -> (r: Self) {
        AppendOperationsUseCase
    }

    /// Queues one pending operation per input, in order, the `i`-th under
    /// identifier `ids[i]`, all created at `now`, and returns them. Stops at
    /// the first input that cannot be queued (its identifier taken or its
    /// project not cached) with that input's error; the operations queued
    /// before it stay.
    pub fn execute_with(
        store: &mut CacheStore,
        inputs: &Vec<AppendOperationInput>,
        ids: &Vec<String>,
        now: i64,
    ) -> (r: Result<Vec<Operation>, DomainError>)
        requires
            old(store).wf(),
            ids.len() == inputs.len(),
        ensures
            final(store).wf(),
            final(store).saved_model() == old(store).saved_model(),
            appended(old(store).model(), final(store).model(), inputs@, ids@, now, r),
    {
        let ghost m0 = store.model();
        let ghost all = ops_for(inputs@, ids@, now);
        let mut created: Vec<Operation> = Vec::new();
        let mut i: usize = 0;
        while i < inputs.len()
            invariant
                store.wf(),
                store.saved_model() == old(store).saved_model(),
                m0 == old(store).model(),
                all == ops_for(inputs@, ids@, now),
                ids.len() == inputs.len(),
                i <= inputs.len(),
                created@ == all.take(i as int),
                store.model() == with_queued(m0, all.take(i as int)),
                forall|j: int| 0 <= j < i ==> #[trigger] insertable(m0, inputs@, ids@, now, j),
            decreases inputs.len() - i,
        {
            let ghost before = store.model();
            match store.insert_operation_with(&inputs[i], ids[i].clone(), now) {
                Ok(op) => {
                    proof {
                        assert(insertable(m0, inputs@, ids@, now, i as int));
                        assert(all.take(i + 1) =~= all.take(i as int).push(op));
                        assert((m0.operations + all.take(i as int)).push(op) =~= m0.operations + all.take(i + 1));
                    }
                    created.push(op);
                },
                Err(e) => {
                    proof {
                        assert(!insertable(m0, inputs@, ids@, now, i as int));
                    }
                    return Err(e);
                },
            }
            i = i + 1;
        }
        assert(all.take(inputs.len() as int) =~= all);
        Ok(created)
    }

    /// Queues one pending operation per input, in order, each under a fresh
    /// random identifier, all created at the time the call reads once, and
    /// returns them: what [`Self::execute_with`] does with the identifiers
    /// and the time drawn. A missing project makes it fail.
    pub fn execute(store: &mut CacheStore, inputs: &Vec<AppendOperationInput>)
        -> (r: Result<Vec<Operation>, DomainError>)
        requires
            old(store).wf(),
        ensures
            final(store).wf(),
            final(store).saved_model() == old(store).saved_model(),
            exists|ids: Seq<String>, now: i64|
                ids.len() == inputs.len()
                    && (forall|i: int| 0 <= i < ids.len() ==> clock::hyphenated_v4(#[trigger] ids[i]@))
                    && #[trigger] appended(old(store).model(), final(store).model(), inputs@, ids, now, r),
            r matches Ok(ops) ==> queued_for(ops@, inputs@) && final(store).model() == with_queued(
                old(store).model(),
                ops@,
            ) && forall|i: int| 0 <= i < ops@.len() ==> #[trigger] ops@[i].created_at == ops@[0].created_at,
            r matches Err(e) ==> exists|k: int, ops: Seq<Operation>|
                0 <= k < inputs.len() && #[trigger] queued_for(ops, inputs@.take(k)) && final(store).model()
                    == with_queued(old(store).model(), ops) && insert_refused(
                    final(store).model(),
                    inputs@[k].project_id@,
                    e,
                ),
            (exists|i: int|
                0 <= i < inputs.len() && !has_key(
                    old(store).model().projects,
                    #[trigger] inputs@[i].project_id@,
                )) ==> r is Err,
    {
        let now = clock::now_epoch_ms();
        let mut ids: Vec<String> = Vec::new();
        let mut i: usize = 0;
        while i < inputs.len()
            invariant
                i <= inputs.len(),
                ids.len() == i,
                forall|j: int| 0 <= j < i ==> clock::hyphenated_v4(#[trigger] ids@[j]@),
            decreases inputs.len() - i,
        {
            ids.push(clock::new_uuid_v4());
            i = i + 1;
        }
        let ghost m0 = store.model();
        let r = Self::execute_with(store, inputs, &ids, now);
        proof {
            lemma_appended_facts(m0, store.model(), inputs@, ids@, now, r);
        }
        r
    }
}

/// What [`appended`] says in terms of the queued operations and the
/// refusal: on success every operation is built from its input, on failure
/// the first refused input is named and its refusal is the error.
proof fn lemma_appended_facts(
    m0: CacheModel,
    m1: CacheModel,
    inputs: Seq<AppendOperationInput>,
    ids: Seq<String>,
    now: i64,
    r: Result<Vec<Operation>, DomainError>,
)
    requires
        ids.len() == inputs.len(),
        forall|i: int| 0 <= i < ids.len() ==> clock::hyphenated_v4(#[trigger] ids[i]@),
        appended(m0, m1, inputs, ids, now, r),
    ensures
        exists|ids2: Seq<String>, now2: i64|
            ids2.len() == inputs.len()
                && (forall|i: int| 0 <= i < ids2.len() ==> clock::hyphenated_v4(#[trigger] ids2[i]@))
                && #[trigger] appended(m0, m1, inputs, ids2, now2, r),
        r matches Ok(ops) ==> queued_for(ops@, inputs) && m1 == with_queued(m0, ops@)
            && forall|i: int| 0 <= i < ops@.len() ==> #[trigger] ops@[i].created_at == ops@[0].created_at,
        r matches Err(e) ==> exists|k: int, ops: Seq<Operation>|
            0 <= k < inputs.len() && #[trigger] queued_for(ops, inputs.take(k)) && m1 == with_queued(m0, ops)
                && insert_refused(m1, inputs[k].project_id@, e),
        (exists|i: int| 0 <= i < inputs.len() && !has_key(m0.projects, #[trigger] inputs[i].project_id@)) ==> r is Err,
{
    let all = ops_for(inputs, ids, now);
    match r {
        Ok(ops) => {
            assert forall|i: int| 0 <= i < ops@.len() implies #[trigger] ops@[i] == new_operation(
                inputs[i],
                ops@[i].id,
                ops@[i].created_at,
            ) by {
                assert(ops@[i] == all[i]);
            }
            assert forall|i: int| 0 <= i < inputs.len() implies has_key(m0.projects, #[trigger] inputs[i].project_id@) by {
                assert(insertable(m0, inputs, ids, now, i));
            }
        },
        Err(e) => {
            let k = choose|k: int|
                {
                    &&& 0 <= k < inputs.len()
                    &&& forall|j: int| 0 <= j < k ==> #[trigger] insertable(m0, inputs, ids, now, j)
                    &&& !#[trigger] insertable(m0, inputs, ids, now, k)
                    &&& m1 == with_queued(m0, all.take(k))
                    &&& e is PersistenceError
                    &&& e.message() == if has_key(m0.operations + all.take(k), ids[k]@) {
                        "UNIQUE constraint failed: operations.id"@
                    } else {
                        foreign_key_message()
                    }
                };
            let ops = all.take(k);
            assert forall|i: int| 0 <= i < ops.len() implies #[trigger] ops[i] == new_operation(
                inputs.take(k)[i],
                ops[i].id,
                ops[i].created_at,
            ) by {
                assert(ops[i] == all[i]);
                assert(inputs.take(k)[i] == inputs[i]);
            }
            assert(queued_for(ops, inputs.take(k)));
            assert(m1.operations == m0.operations + all.take(k));
            if has_key(m0.operations + all.take(k), ids[k]@) {
                assert(clock::hyphenated_v4(ids[k]@) && has_key(m1.operations, ids[k]@));
            }
            assert(insert_refused(m1, inputs[k].project_id@, e));
        },
    }
}

} // verus!
