//! Building the start-up and per-project views from the cache, and replacing
//! the cached copy of GitHub's data after a fetch.
use vstd::prelude::*;
use crate::dtos::{
    BootstrapResponse, ConflictInfo, GitHubProjectData, Operation, OperationStatus,
    ProjectBootstrapResponse, ProjectDto, StatusFieldDto, StatusOptionDto, TaskDto,
};
use crate::errors::DomainError;
use crate::store::{
    CacheModel, CacheStore, fields_with, is_foreign_key_error, listing, nested_transaction_message, options_with, texts_contain,
};
use crate::table::{Row, has_key, row_with_key, upserted};
use crate::text::{concat, string_of};

verus! {

broadcast use vstd::seq_lib::group_seq_properties;

/// The setting key under which the status GitHub reported for a conflicting
/// operation is kept.
pub open spec fn conflict_option_id_key(op_id: Seq<char>) -> Seq<char> {
    "conflict_current_option_id:"@ + op_id
}

/// The setting key under which the name of that status is kept.
pub open spec fn conflict_option_name_key(op_id: Seq<char>) -> Seq<char> {
    "conflict_current_option_name:"@ + op_id
}

/// The setting key of the signed-in user's login.
pub open spec fn current_user_login_key() -> Seq<char> {
    "current_user_login"@
}

/// The setting key of the personal access token.
pub open spec fn pat_key() -> Seq<char> {
    "github_pat"@
}

/// The value of a setting, or the empty text when it is not set.
pub open spec fn setting_or_empty(m: CacheModel, k: Seq<char>) -> Seq<char> {
    match m.setting(k) {
        Some(v) => v,
        None => Seq::empty(),
    }
}

/// `c` describes the conflict of `op` with the status stored for it.
pub open spec fn conflict_info_of(m: CacheModel, c: ConflictInfo, op: Operation) -> bool {
    &&& c.operation == op
    &&& c.current_option_id@ == setting_or_empty(m, conflict_option_id_key(op.id@))
    &&& c.current_option_name@ == setting_or_empty(m, conflict_option_name_key(op.id@))
}

/// `cs` describes the conflicts of `ops`, one for one and in order.
pub open spec fn conflicts_of(m: CacheModel, cs: Seq<ConflictInfo>, ops: Seq<Operation>) -> bool {
    &&& cs.len() == ops.len()
    &&& forall|i: int| 0 <= i < cs.len() ==> conflict_info_of(m, #[trigger] cs[i], ops[i])
}

/// The operations in a status.
pub open spec fn ops_in(m: CacheModel, status: OperationStatus) -> Seq<Operation> {
    m.operations.filter(|o: Operation| o.status == status)
}

/// The operations of a project in a status.
pub open spec fn project_ops_in(m: CacheModel, project_id: Seq<char>, status: OperationStatus) -> Seq<
    Operation,
> {
    m.operations.filter(|o: Operation| o.payload.project_id@ == project_id && o.status == status)
}

/// The setting key for the status reported for a conflicting operation.
pub fn conflict_option_id_setting(op_id: &str) -> (r: String)
    ensures
        r@ == conflict_option_id_key(op_id@),
{
    concat("conflict_current_option_id:", op_id)
}

/// The setting key for the name of that status.
pub fn conflict_option_name_setting(op_id: &str) -> (r: String)
    ensures
        r@ == conflict_option_name_key(op_id@),
{
    concat("conflict_current_option_name:", op_id)
}

/// A setting's value, or the empty text when it is not set or cannot be read.
fn setting_or_default(store: &CacheStore, key: &str) -> (r: String)
    requires
        store.wf(),
    ensures
        r@ == setting_or_empty(store.model(), key@),
{
    proof {
        reveal_strlit("");
    }
    match store.get_setting(key) {
        Ok(Some(v)) => v,
        _ => string_of(""),
    }
}

/// The conflict record of an operation: the operation and the status GitHub
/// reported for it, as stored when the conflict was found (empty when absent).
pub fn build_conflict_info(store: &CacheStore, op: Operation) -> (r: ConflictInfo)
    requires
        store.wf(),
    ensures
        conflict_info_of(store.model(), r, op),
{
    proof {
        reveal_strlit("");
    }
    let id_key = conflict_option_id_setting(op.id.as_str());
    let name_key = conflict_option_name_setting(op.id.as_str());
    let current_option_id = setting_or_default(store, id_key.as_str());
    let current_option_name = setting_or_default(store, name_key.as_str());
    ConflictInfo { operation: op, current_option_id, current_option_name }
}

/// The conflict records of operations, in order.
fn build_conflicts(store: &CacheStore, ops: Vec<Operation>) -> (r: Vec<ConflictInfo>)
    requires
        store.wf(),
    ensures
        conflicts_of(store.model(), r@, ops@),
{
    let mut r: Vec<ConflictInfo> = Vec::new();
    let mut i: usize = 0;
    while i < ops.len()
        invariant
            store.wf(),
            i <= ops.len(),
            r@.len() == i,
            forall|j: int| 0 <= j < i ==> conflict_info_of(store.model(), #[trigger] r@[j], ops@[j]),
        decreases ops.len() - i,
    {
        r.push(build_conflict_info(store, ops[i].dup()));
        i = i + 1;
    }
    r
}

/// Builds views from the cache and replaces the cached copy of GitHub's data.
pub struct FetchBootstrapUseCase;

impl FetchBootstrapUseCase {
    /// Everything the UI needs at start-up, read from the cache: projects by
    /// title, every status field, options by position, every task, the pending
    /// operations and the conflicts by creation time, and the signed-in login
    /// (empty when unknown).
    pub fn from_cache(store: &CacheStore) -> (r: Result<BootstrapResponse, DomainError>)
        requires
            store.wf(),
        ensures
            r matches Ok(b) && {
                let m = store.model();
                &&& listing(b.projects@, m.projects)
                &&& b.status_fields@ == m.status_fields
                &&& listing(b.status_options@, m.status_options)
                &&& b.tasks@ == m.tasks
                &&& listing(b.pending_operations@, ops_in(m, OperationStatus::Pending))
                &&& listing(
                    b.conflicts@.map_values(|c: ConflictInfo| c.operation),
                    ops_in(m, OperationStatus::Conflict),
                )
                &&& conflicts_of(m, b.conflicts@, b.conflicts@.map_values(|c: ConflictInfo| c.operation))
                &&& b.current_user_login@ == setting_or_empty(m, current_user_login_key())
            },
    {
        let projects = store.get_all_projects()?;
        let status_fields = store.get_all_status_fields()?;
        let status_options = store.get_all_status_options()?;
        let tasks = store.get_all_tasks()?;
        let pending_operations = store.get_operations_by_status(&OperationStatus::Pending)?;
        let conflict_operations = store.get_operations_by_status(&OperationStatus::Conflict)?;
        let ghost cops = conflict_operations@;
        let conflicts = build_conflicts(store, conflict_operations);
        assert(conflicts@.map_values(|c: ConflictInfo| c.operation) =~= cops);
        let current_user_login = setting_or_default(store, "current_user_login");
        Ok(BootstrapResponse {
            projects,
            status_fields,
            status_options,
            tasks,
            pending_operations,
            conflicts,
            current_user_login,
        })
    }

    /// Everything the UI needs to show one project, read from the cache: the
    /// project, its status field (if any) and that field's options by
    /// position, its tasks, and its pending operations and conflicts by
    /// creation time. Fails with `NotFound` when the project is not cached.
    pub fn project_from_cache(store: &CacheStore, project_id: &str) -> (r: Result<
        ProjectBootstrapResponse,
        DomainError,
    >)
        requires
            store.wf(),
        ensures
            r is Err <==> !has_key(store.model().projects, project_id@),
            r matches Err(e) ==> e == DomainError::NotFound(e->NotFound_0) && e->NotFound_0@
                == "Project not found: "@ + project_id@,
            r matches Ok(b) ==> {
                let m = store.model();
                let fields = m.status_fields.filter(|f: StatusFieldDto| f.project_id@ == project_id@);
                &&& Some(b.project) == row_with_key(m.projects, project_id@)
                &&& b.status_field == (if fields.len() > 0 {
                    Some(fields[0])
                } else {
                    None::<StatusFieldDto>
                })
                &&& (b.status_field matches Some(f) ==> listing(
                    b.status_options@,
                    m.status_options.filter(|o: StatusOptionDto| o.status_field_id@ == f.id@),
                ))
                &&& (b.status_field is None ==> b.status_options@.len() == 0)
                &&& b.tasks@ == m.tasks.filter(|t: TaskDto| t.project_id@ == project_id@)
                &&& listing(
                    b.pending_operations@,
                    project_ops_in(m, project_id@, OperationStatus::Pending),
                )
                &&& listing(
                    b.conflicts@.map_values(|c: ConflictInfo| c.operation),
                    project_ops_in(m, project_id@, OperationStatus::Conflict),
                )
                &&& conflicts_of(m, b.conflicts@, b.conflicts@.map_values(|c: ConflictInfo| c.operation))
            },
    {
        let project = match store.get_project(project_id)? {
            Some(p) => p,
            None => {
                return Err(DomainError::NotFound(concat("Project not found: ", project_id)));
            },
        };
        let mut status_fields = store.get_status_fields_by_project(project_id)?;
        let status_field = if status_fields.len() > 0 {
            Some(status_fields.remove(0))
        } else {
            None
        };
        let status_options = match &status_field {
            Some(field) => store.get_status_options_by_field(field.id.as_str())?,
            None => Vec::new(),
        };
        let tasks = store.get_tasks_by_project(project_id)?;
        let (pending_operations, conflicts) = Self::project_operations(store, project_id);
        Ok(ProjectBootstrapResponse {
            project,
            status_field,
            status_options,
            tasks,
            pending_operations,
            conflicts,
        })
    }

    /// The pending operations and the conflicts of a project, by creation time.
    fn project_operations(store: &CacheStore, project_id: &str) -> (r: (Vec<Operation>, Vec<ConflictInfo>))
        requires
            store.wf(),
        ensures
            listing(r.0@, project_ops_in(store.model(), project_id@, OperationStatus::Pending)),
            listing(
                r.1@.map_values(|c: ConflictInfo| c.operation),
                project_ops_in(store.model(), project_id@, OperationStatus::Conflict),
            ),
            conflicts_of(store.model(), r.1@, r.1@.map_values(|c: ConflictInfo| c.operation)),
    {
        let m = Ghost(store.model());
        let pending_status = [OperationStatus::Pending];
        let conflict_status = [OperationStatus::Conflict];
        let pending = match store.get_operations_by_project_and_status(project_id, &pending_status) {
            Ok(v) => v,
            Err(_) => Vec::new(),
        };
        assert(m@.operations.filter(
            |o: Operation| o.payload.project_id@ == project_id@ && pending_status@.contains(o.status),
        ) == project_ops_in(m@, project_id@, OperationStatus::Pending)) by {
            assert(pending_status@ =~= seq![OperationStatus::Pending]);
            assert((|o: Operation| o.payload.project_id@ == project_id@ && pending_status@.contains(o.status))
                =~= (|o: Operation| o.payload.project_id@ == project_id@ && o.status == OperationStatus::Pending));
        }
        let conflict_ops = match store.get_operations_by_project_and_status(project_id, &conflict_status) {
            Ok(v) => v,
            Err(_) => Vec::new(),
        };
        assert(m@.operations.filter(
            |o: Operation| o.payload.project_id@ == project_id@ && conflict_status@.contains(o.status),
        ) == project_ops_in(m@, project_id@, OperationStatus::Conflict)) by {
            assert(conflict_status@ =~= seq![OperationStatus::Conflict]);
            assert((|o: Operation| o.payload.project_id@ == project_id@ && conflict_status@.contains(o.status))
                =~= (|o: Operation| o.payload.project_id@ == project_id@ && o.status == OperationStatus::Conflict));
        }
        let ghost cops = conflict_ops@;
        let conflicts = build_conflicts(store, conflict_ops);
        assert(conflicts@.map_values(|c: ConflictInfo| c.operation) =~= cops);
        (pending, conflicts)
    }

    /// The configured personal access token; `AuthenticationError` when none is
    /// set.
    pub fn configured_pat(store: &CacheStore) -> (r: Result<String, DomainError>)
        requires
            store.wf(),
        ensures
            match store.model().setting(pat_key()) {
                Some(v) => r matches Ok(t) && t@ == v,
                None => r matches Err(e) && e == DomainError::AuthenticationError(e->AuthenticationError_0)
                    && e->AuthenticationError_0@ == "PAT is not configured"@,
            },
    {
        match store.get_setting("github_pat")? {
            Some(p) => Ok(p),
            None => Err(DomainError::AuthenticationError(string_of("PAT is not configured"))),
        }
    }
}


// ============================================================
// Replacing the cached copy of GitHub's data
// ============================================================

/// The cache after storing a project.
pub open spec fn with_project(m: CacheModel, p: ProjectDto) -> CacheModel {
    CacheModel { projects: upserted(m.projects, p), ..m }
}

/// The cache after storing projects in order.
pub open spec fn with_projects(m: CacheModel, ps: Seq<ProjectDto>) -> CacheModel
    decreases ps.len(),
{
    if ps.len() == 0 {
        m
    } else {
        with_project(with_projects(m, ps.drop_last()), ps.last())
    }
}

/// The cache after deleting the projects whose ids are not among `ids`.
pub open spec fn without_projects_outside(m: CacheModel, ids: Seq<String>) -> CacheModel {
    CacheModel { projects: m.projects.filter(|p: ProjectDto| texts_contain(ids, p.id@)), ..m }.settled()
}

/// The cache after deleting a project's status fields.
pub open spec fn without_fields_of(m: CacheModel, pid: Seq<char>) -> CacheModel {
    CacheModel { status_fields: m.status_fields.filter(|f: StatusFieldDto| f.project_id@ != pid), ..m }.settled()
}

/// The cache after deleting a field's options.
pub open spec fn without_options_of(m: CacheModel, fid: Seq<char>) -> CacheModel {
    CacheModel {
        status_options: m.status_options.filter(|o: StatusOptionDto| o.status_field_id@ != fid),
        ..m
    }.settled()
}

/// The cache after deleting a project's tasks.
pub open spec fn without_tasks_of(m: CacheModel, pid: Seq<char>) -> CacheModel {
    CacheModel { tasks: m.tasks.filter(|t: TaskDto| t.project_id@ != pid), ..m }
}

/// The cache after storing a status field; `None` when its project is missing.
pub open spec fn with_field(m: CacheModel, f: StatusFieldDto) -> Option<CacheModel> {
    if has_key(m.projects, f.project_id@) {
        Some(CacheModel { status_fields: fields_with(m.status_fields, f), ..m }.settled())
    } else {
        None
    }
}

/// The cache after storing an option; `None` when its field is missing.
pub open spec fn with_option(m: CacheModel, o: StatusOptionDto) -> Option<CacheModel> {
    if has_key(m.status_fields, o.status_field_id@) {
        Some(CacheModel { status_options: options_with(m.status_options, o), ..m }.settled())
    } else {
        None
    }
}

/// The cache after storing a task; `None` when its project or its status option
/// is missing.
pub open spec fn with_task(m: CacheModel, t: TaskDto) -> Option<CacheModel> {
    if has_key(m.projects, t.project_id@) && (t.status_option_id matches Some(o) ==> has_key(
        m.status_options,
        o@,
    )) {
        Some(CacheModel { tasks: upserted(m.tasks, t), ..m })
    } else {
        None
    }
}

/// The cache after storing options in order; `None` at the first failure.
pub open spec fn with_options(m: CacheModel, os: Seq<StatusOptionDto>) -> Option<CacheModel>
    decreases os.len(),
{
    if os.len() == 0 {
        Some(m)
    } else {
        match with_options(m, os.drop_last()) {
            Some(m2) => with_option(m2, os.last()),
            None => None,
        }
    }
}

/// The cache after storing tasks in order; `None` at the first failure.
pub open spec fn with_tasks(m: CacheModel, ts: Seq<TaskDto>) -> Option<CacheModel>
    decreases ts.len(),
{
    if ts.len() == 0 {
        Some(m)
    } else {
        match with_tasks(m, ts.drop_last()) {
            Some(m2) => with_task(m2, ts.last()),
            None => None,
        }
    }
}

/// The cache after replacing the status field, options and tasks of project
/// `pid` by those read from GitHub.
pub open spec fn with_project_data(m: CacheModel, pid: Seq<char>, d: GitHubProjectData) -> Option<
    CacheModel,
> {
    let m1 = without_fields_of(m, pid);
    let m2 = match d.status_field {
        Some(f) => match with_field(m1, f) {
            Some(m3) => with_options(without_options_of(m3, f.id@), d.status_options@),
            None => None,
        },
        None => Some(m1),
    };
    match m2 {
        Some(m4) => with_tasks(without_tasks_of(m4, pid), d.tasks@),
        None => None,
    }
}

/// The cache after replacing the data of each project read from GitHub, in order.
pub open spec fn with_all_project_data(m: CacheModel, ds: Seq<GitHubProjectData>) -> Option<CacheModel>
    decreases ds.len(),
{
    if ds.len() == 0 {
        Some(m)
    } else {
        match with_all_project_data(m, ds.drop_last()) {
            Some(m2) => with_project_data(m2, ds.last().project.id@, ds.last()),
            None => None,
        }
    }
}

/// The cache after a full refresh: the login stored, the fetched projects
/// stored, every other project deleted (with what depends on it), and each
/// project's field, options and tasks replaced. `None` when a write is refused.
pub open spec fn refreshed(
    m: CacheModel,
    login: Seq<char>,
    projects: Seq<ProjectDto>,
    ds: Seq<GitHubProjectData>,
) -> Option<CacheModel> {
    let m1 = CacheModel { settings: m.settings.insert(current_user_login_key(), login), ..m };
    let m2 = with_projects(m1, projects);
    let m3 = without_projects_outside(m2, projects.map_values(|p: ProjectDto| p.id));
    with_all_project_data(m3, ds)
}

/// The status fields read from GitHub, in order.
pub open spec fn fetched_fields(ds: Seq<GitHubProjectData>) -> Seq<StatusFieldDto>
    decreases ds.len(),
{
    if ds.len() == 0 {
        Seq::empty()
    } else {
        fetched_fields(ds.drop_last()) + match ds.last().status_field {
            Some(f) => seq![f],
            None => Seq::empty(),
        }
    }
}

/// The options of the fetched status fields, in order.
pub open spec fn fetched_options(ds: Seq<GitHubProjectData>) -> Seq<StatusOptionDto>
    decreases ds.len(),
{
    if ds.len() == 0 {
        Seq::empty()
    } else {
        fetched_options(ds.drop_last()) + match ds.last().status_field {
            Some(f) => ds.last().status_options@,
            None => Seq::empty(),
        }
    }
}

/// The tasks read from GitHub, in order.
pub open spec fn fetched_tasks(ds: Seq<GitHubProjectData>) -> Seq<TaskDto>
    decreases ds.len(),
{
    if ds.len() == 0 {
        Seq::empty()
    } else {
        fetched_tasks(ds.drop_last()) + ds.last().tasks@
    }
}

/// Appends copies of `src` to `dst`.
fn extend_options(dst: &mut Vec<StatusOptionDto>, src: &Vec<StatusOptionDto>)
    ensures
        final(dst)@ == old(dst)@ + src@,
{
    let mut i: usize = 0;
    let ghost start = dst@;
    while i < src.len()
        invariant
            i <= src.len(),
            dst@ == start + src@.take(i as int),
        decreases src.len() - i,
    {
        dst.push(src[i].dup());
        assert(src@.take(i + 1) =~= src@.take(i as int).push(src@[i as int]));
        i = i + 1;
    }
    assert(src@.take(src.len() as int) =~= src@);
}

/// Appends copies of `src` to `dst`.
fn extend_tasks(dst: &mut Vec<TaskDto>, src: &Vec<TaskDto>)
    ensures
        final(dst)@ == old(dst)@ + src@,
{
    let mut i: usize = 0;
    let ghost start = dst@;
    while i < src.len()
        invariant
            i <= src.len(),
            dst@ == start + src@.take(i as int),
        decreases src.len() - i,
    {
        dst.push(src[i].dup());
        assert(src@.take(i + 1) =~= src@.take(i as int).push(src@[i as int]));
        i = i + 1;
    }
    assert(src@.take(src.len() as int) =~= src@);
}

/// Stores options in order, stopping at the first refusal.
fn store_options(store: &mut CacheStore, os: &Vec<StatusOptionDto>) -> (r: Result<(), DomainError>)
    requires
        old(store).wf(),
    ensures
        final(store).wf(),
        final(store).saved_model() == old(store).saved_model(),
        r is Ok <==> with_options(old(store).model(), os@) is Some,
        r matches Err(e) ==> is_foreign_key_error(e),
        r is Ok ==> final(store).model() == with_options(old(store).model(), os@)->0,
{
    let ghost m0 = store.model();
    let mut i: usize = 0;
    while i < os.len()
        invariant
            store.wf(),
            store.saved_model() == old(store).saved_model(),
            m0 == old(store).model(),
            i <= os.len(),
            with_options(m0, os@.take(i as int)) == Some(store.model()),
        decreases os.len() - i,
    {
        let ghost pre = store.model();
        proof {
            assert(os@.take(i + 1).drop_last() =~= os@.take(i as int));
        }
        match store.upsert_status_option(&os[i]) {
            Ok(()) => {},
            Err(e) => {
                proof {
                    lemma_with_options_stays_none(m0, os@, (i + 1) as int);
                }
                return Err(e);
            },
        }
        i = i + 1;
    }
    assert(os@.take(os.len() as int) =~= os@);
    Ok(())
}

proof fn lemma_with_options_stays_none(m: CacheModel, os: Seq<StatusOptionDto>, k: int)
    requires
        0 <= k <= os.len(),
        with_options(m, os.take(k)) is None,
    ensures
        with_options(m, os) is None,
    decreases os.len() - k,
{
    if k < os.len() {
        assert(os.take(k + 1).drop_last() =~= os.take(k));
        lemma_with_options_stays_none(m, os, k + 1);
    } else {
        assert(os.take(k) =~= os);
    }
}

proof fn lemma_with_tasks_stays_none(m: CacheModel, ts: Seq<TaskDto>, k: int)
    requires
        0 <= k <= ts.len(),
        with_tasks(m, ts.take(k)) is None,
    ensures
        with_tasks(m, ts) is None,
    decreases ts.len() - k,
{
    if k < ts.len() {
        assert(ts.take(k + 1).drop_last() =~= ts.take(k));
        lemma_with_tasks_stays_none(m, ts, k + 1);
    } else {
        assert(ts.take(k) =~= ts);
    }
}

proof fn lemma_with_all_stays_none(m: CacheModel, ds: Seq<GitHubProjectData>, k: int)
    requires
        0 <= k <= ds.len(),
        with_all_project_data(m, ds.take(k)) is None,
    ensures
        with_all_project_data(m, ds) is None,
    decreases ds.len() - k,
{
    if k < ds.len() {
        assert(ds.take(k + 1).drop_last() =~= ds.take(k));
        lemma_with_all_stays_none(m, ds, k + 1);
    } else {
        assert(ds.take(k) =~= ds);
    }
}

/// Stores tasks in order, stopping at the first refusal.
fn store_tasks(store: &mut CacheStore, ts: &Vec<TaskDto>) -> (r: Result<(), DomainError>)
    requires
        old(store).wf(),
    ensures
        final(store).wf(),
        final(store).saved_model() == old(store).saved_model(),
        r is Ok <==> with_tasks(old(store).model(), ts@) is Some,
        r matches Err(e) ==> is_foreign_key_error(e),
        r is Ok ==> final(store).model() == with_tasks(old(store).model(), ts@)->0,
{
    let ghost m0 = store.model();
    let mut i: usize = 0;
    while i < ts.len()
        invariant
            store.wf(),
            store.saved_model() == old(store).saved_model(),
            m0 == old(store).model(),
            i <= ts.len(),
            with_tasks(m0, ts@.take(i as int)) == Some(store.model()),
        decreases ts.len() - i,
    {
        proof {
            assert(ts@.take(i + 1).drop_last() =~= ts@.take(i as int));
        }
        match store.upsert_task(&ts[i]) {
            Ok(()) => {},
            Err(e) => {
                proof {
                    lemma_with_tasks_stays_none(m0, ts@, (i + 1) as int);
                }
                return Err(e);
            },
        }
        i = i + 1;
    }
    assert(ts@.take(ts.len() as int) =~= ts@);
    Ok(())
}

/// Replaces the status field, options and tasks of project `pid` by `d`'s.
fn store_project_data(store: &mut CacheStore, pid: &str, d: &GitHubProjectData) -> (r: Result<(), DomainError>)
    requires
        old(store).wf(),
    ensures
        final(store).wf(),
        final(store).saved_model() == old(store).saved_model(),
        r is Ok <==> with_project_data(old(store).model(), pid@, *d) is Some,
        r matches Err(e) ==> is_foreign_key_error(e),
        r is Ok ==> final(store).model() == with_project_data(old(store).model(), pid@, *d)->0,
{
    store.delete_status_fields_by_project(pid)?;
    match &d.status_field {
        Some(field) => {
            store.upsert_status_field(field)?;
            store.delete_status_options_by_field(field.id.as_str())?;
            store_options(store, &d.status_options)?;
        },
        None => {},
    }
    store.delete_tasks_by_project(pid)?;
    store_tasks(store, &d.tasks)
}

/// The ids of projects, in order.
fn project_ids(projects: &Vec<ProjectDto>) -> (r: Vec<String>)
    ensures
        r@ == projects@.map_values(|p: ProjectDto| p.id),
{
    let mut r: Vec<String> = Vec::new();
    let mut i: usize = 0;
    while i < projects.len()
        invariant
            i <= projects.len(),
            r@.len() == i,
            forall|j: int| 0 <= j < i ==> r@[j] == #[trigger] projects@[j].id,
        decreases projects.len() - i,
    {
        r.push(projects[i].id.clone());
        i = i + 1;
    }
    assert(r@ =~= projects@.map_values(|p: ProjectDto| p.id));
    r
}

/// The writes of a full refresh, in order; stops at the first refusal. Returns
/// the fields, options and tasks that were stored, in the order read.
fn write_refresh(
    store: &mut CacheStore,
    login: &str,
    projects: &Vec<ProjectDto>,
    data: &Vec<GitHubProjectData>,
) -> (r: Result<(Vec<StatusFieldDto>, Vec<StatusOptionDto>, Vec<TaskDto>), DomainError>)
    requires
        old(store).wf(),
    ensures
        final(store).wf(),
        final(store).saved_model() == old(store).saved_model(),
        r is Ok <==> refreshed(old(store).model(), login@, projects@, data@) is Some,
        r matches Err(e) ==> is_foreign_key_error(e),
        r matches Ok(t) ==> final(store).model() == refreshed(old(store).model(), login@, projects@, data@)->0
            && t.0@ == fetched_fields(data@) && t.1@ == fetched_options(data@) && t.2@ == fetched_tasks(
            data@,
        ),
{
    let ghost m = store.model();
    store.set_setting("current_user_login", login)?;
    let ghost m1 = store.model();
    let mut i: usize = 0;
    while i < projects.len()
        invariant
            store.wf(),
            store.saved_model() == old(store).saved_model(),
            i <= projects.len(),
            store.model() == with_projects(m1, projects@.take(i as int)),
        decreases projects.len() - i,
    {
        proof {
            assert(projects@.take(i + 1).drop_last() =~= projects@.take(i as int));
        }
        store.upsert_project(&projects[i])?;
        i = i + 1;
    }
    assert(projects@.take(projects.len() as int) =~= projects@);
    let ids = project_ids(projects);
    store.delete_projects_not_in(ids.as_slice())?;
    let ghost m3 = store.model();
    assert(refreshed(old(store).model(), login@, projects@, data@) == with_all_project_data(m3, data@));
    let mut fields: Vec<StatusFieldDto> = Vec::new();
    let mut options: Vec<StatusOptionDto> = Vec::new();
    let mut tasks: Vec<TaskDto> = Vec::new();
    let mut k: usize = 0;
    while k < data.len()
        invariant
            store.wf(),
            store.saved_model() == old(store).saved_model(),
            k <= data.len(),
            refreshed(old(store).model(), login@, projects@, data@) == with_all_project_data(m3, data@),
            with_all_project_data(m3, data@.take(k as int)) == Some(store.model()),
            fields@ == fetched_fields(data@.take(k as int)),
            options@ == fetched_options(data@.take(k as int)),
            tasks@ == fetched_tasks(data@.take(k as int)),
        decreases data.len() - k,
    {
        let d = &data[k];
        proof {
            assert(data@.take(k + 1).drop_last() =~= data@.take(k as int));
            assert(data@.take(k + 1).last() == data@[k as int]);
        }
        match store_project_data(store, d.project.id.as_str(), d) {
            Ok(()) => {},
            Err(e) => {
                proof {
                    lemma_with_all_stays_none(m3, data@, (k + 1) as int);
                }
                return Err(e);
            },
        }
        match &d.status_field {
            Some(field) => {
                fields.push(field.dup());
                extend_options(&mut options, &d.status_options);
            },
            None => {},
        }
        extend_tasks(&mut tasks, &d.tasks);
        proof {
            assert(fields@ =~= fetched_fields(data@.take(k + 1)));
            assert(options@ =~= fetched_options(data@.take(k + 1)));
        }
        k = k + 1;
    }
    assert(data@.take(data.len() as int) =~= data@);
    Ok((fields, options, tasks))
}

impl FetchBootstrapUseCase {
    /// Replaces the cached copy of GitHub's data with what a fetch returned, in
    /// one transaction: stores the login and the projects, deletes the
    /// projects that were not returned (with what depends on them), and
    /// replaces each project's status field, options and tasks. When a write
    /// is refused the transaction is rolled back and the cache is as before.
    /// Returns the fetched data with the pending operations and conflicts of
    /// the cache.
    pub fn apply_refresh(
        store: &mut CacheStore,
        current_user_login: &str,
        projects: Vec<ProjectDto>,
        project_data: Vec<GitHubProjectData>,
    ) -> (r: Result<BootstrapResponse, DomainError>)
        requires
            old(store).wf(),
        ensures
            final(store).wf(),
            old(store).saved_model() is None ==> (r is Ok <==> refreshed(
                old(store).model(),
                current_user_login@,
                projects@,
                project_data@,
            ) is Some),
            r is Err ==> final(store).model() == old(store).model(),
            r is Err && old(store).saved_model() is None ==> final(store).saved_model() is None,
            r matches Err(e) ==> if old(store).saved_model() is Some {
                e is PersistenceError && e.message() == nested_transaction_message()
            } else {
                is_foreign_key_error(e)
            },
            r matches Ok(b) ==> {
                let m = final(store).model();
                &&& old(store).saved_model() is None
                &&& final(store).saved_model() is None
                &&& m == refreshed(old(store).model(), current_user_login@, projects@, project_data@)->0
                &&& b.projects@ == projects@
                &&& b.status_fields@ == fetched_fields(project_data@)
                &&& b.status_options@ == fetched_options(project_data@)
                &&& b.tasks@ == fetched_tasks(project_data@)
                &&& listing(b.pending_operations@, ops_in(m, OperationStatus::Pending))
                &&& listing(
                    b.conflicts@.map_values(|c: ConflictInfo| c.operation),
                    ops_in(m, OperationStatus::Conflict),
                )
                &&& conflicts_of(m, b.conflicts@, b.conflicts@.map_values(|c: ConflictInfo| c.operation))
                &&& b.current_user_login@ == current_user_login@
            },
    {
        store.begin_transaction()?;
        let written = write_refresh(store, current_user_login, &projects, &project_data);
        match written {
            Ok((status_fields, status_options, tasks)) => {
                store.commit_transaction()?;
                let pending_operations = store.get_operations_by_status(&OperationStatus::Pending)?;
                let conflict_operations = store.get_operations_by_status(&OperationStatus::Conflict)?;
                let ghost cops = conflict_operations@;
                let conflicts = build_conflicts(store, conflict_operations);
                assert(conflicts@.map_values(|c: ConflictInfo| c.operation) =~= cops);
                Ok(BootstrapResponse {
                    projects,
                    status_fields,
                    status_options,
                    tasks,
                    pending_operations,
                    conflicts,
                    current_user_login: string_of(current_user_login),
                })
            },
            Err(e) => {
                let _ = store.rollback_transaction();
                Err(e)
            },
        }
    }

    /// Replaces the cached copy of one project's data with what a fetch
    /// returned, in one transaction: stores the project and replaces its status
    /// field, options and tasks. When a write is refused the transaction is
    /// rolled back and the cache is as before. Returns the fetched data with
    /// the project's pending operations and conflicts.
    pub fn apply_project_refresh(
        store: &mut CacheStore,
        project_id: &str,
        project_data: GitHubProjectData,
    ) -> (r: Result<ProjectBootstrapResponse, DomainError>)
        requires
            old(store).wf(),
        ensures
            final(store).wf(),
            old(store).saved_model() is None ==> (r is Ok <==> with_project_data(
                with_project(old(store).model(), project_data.project),
                project_id@,
                project_data,
            ) is Some),
            r is Err ==> final(store).model() == old(store).model(),
            r is Err && old(store).saved_model() is None ==> final(store).saved_model() is None,
            r matches Err(e) ==> if old(store).saved_model() is Some {
                e is PersistenceError && e.message() == nested_transaction_message()
            } else {
                is_foreign_key_error(e)
            },
            r matches Ok(b) ==> {
                let m = final(store).model();
                &&& old(store).saved_model() is None
                &&& final(store).saved_model() is None
                &&& m == with_project_data(
                    with_project(old(store).model(), project_data.project),
                    project_id@,
                    project_data,
                )->0
                &&& b.project == project_data.project
                &&& b.status_field == project_data.status_field
                &&& b.status_options == project_data.status_options
                &&& b.tasks == project_data.tasks
                &&& listing(
                    b.pending_operations@,
                    project_ops_in(m, project_id@, OperationStatus::Pending),
                )
                &&& listing(
                    b.conflicts@.map_values(|c: ConflictInfo| c.operation),
                    project_ops_in(m, project_id@, OperationStatus::Conflict),
                )
                &&& conflicts_of(m, b.conflicts@, b.conflicts@.map_values(|c: ConflictInfo| c.operation))
            },
    {
        store.begin_transaction()?;
        let written = match store.upsert_project(&project_data.project) {
            Ok(()) => store_project_data(store, project_id, &project_data),
            Err(e) => Err(e),
        };
        match written {
            Ok(()) => {
                store.commit_transaction()?;
            },
            Err(e) => {
                let _ = store.rollback_transaction();
                return Err(e);
            },
        }
        let (pending_operations, conflicts) = Self::project_operations(store, project_id);
        Ok(ProjectBootstrapResponse {
            project: project_data.project,
            status_field: project_data.status_field,
            status_options: project_data.status_options,
            tasks: project_data.tasks,
            pending_operations,
            conflicts,
        })
    }
}

} // verus!
