//! The local cache: settings, projects, status fields and options, tasks and the
//! operation log, with the constraints of the cache schema (primary keys,
//! uniqueness, foreign keys with cascading deletes) and single-level
//! transactions.
use vstd::prelude::*;
use crate::dtos::{
    AppendOperationInput, Operation, OperationPayload, OperationStatus, OperationType,
    Precondition, ProjectDto, StatusFieldDto, StatusOptionDto, TaskDto,
};
use crate::errors::DomainError;
use crate::table::{
    Ordered, Row, RowTest, dup_rows, filter_rows, find_key, get_row, has_key, keys_unique,
    lemma_filter_keys_unique, lemma_filter_subset, ordered, row_with_key, sort_rows, upsert_row,
    upserted,
};
use crate::text::{lemma_bytes_le_total, lemma_bytes_le_transitive, str_eq, string_of, text_le, text_le_exec};
use crate::clock;

verus! {

broadcast use vstd::seq_lib::group_seq_properties;

// ============================================================
// Rows
// ============================================================

/// A key/value setting.
#[derive(Debug, Clone, PartialEq)]
pub struct Setting {
    pub key: String,
    pub value: String,
}

impl Row for Setting {
    open spec fn key(&self) -> Seq<char> {
        self.key@
    }

    fn key_str(&self) -> (r: &str) {
        self.key.as_str()
    }

    fn dup(&self) -> (r: Self) {
        Setting { key: self.key.clone(), value: self.value.clone() }
    }
}

impl Row for ProjectDto {
    open spec fn key(&self) -> Seq<char> {
        self.id@
    }

    fn key_str(&self) -> (r: &str) {
        self.id.as_str()
    }

    fn dup(&self) -> (r: Self) {
        ProjectDto::dup(self)
    }
}

impl Row for StatusFieldDto {
    open spec fn key(&self) -> Seq<char> {
        self.id@
    }

    fn key_str(&self) -> (r: &str) {
        self.id.as_str()
    }

    fn dup(&self) -> (r: Self) {
        StatusFieldDto::dup(self)
    }
}

impl Row for StatusOptionDto {
    open spec fn key(&self) -> Seq<char> {
        self.id@
    }

    fn key_str(&self) -> (r: &str) {
        self.id.as_str()
    }

    fn dup(&self) -> (r: Self) {
        StatusOptionDto::dup(self)
    }
}

impl Row for TaskDto {
    open spec fn key(&self) -> Seq<char> {
        self.id@
    }

    fn key_str(&self) -> (r: &str) {
        self.id.as_str()
    }

    fn dup(&self) -> (r: Self) {
        TaskDto::dup(self)
    }
}

impl Row for Operation {
    open spec fn key(&self) -> Seq<char> {
        self.id@
    }

    fn key_str(&self) -> (r: &str) {
        self.id.as_str()
    }

    fn dup(&self) -> (r: Self) {
        Operation::dup(self)
    }
}

/// Projects are listed by title, in the byte order of the UTF-8 text.
impl Ordered for ProjectDto {
    open spec fn le(a: Self, b: Self) -> bool {
        text_le(a.title@, b.title@)
    }

    fn le_exec(a: &Self, b: &Self) -> (r: bool) {
        text_le_exec(a.title.as_str(), b.title.as_str())
    }

    proof fn lemma_le_total(a: Self, b: Self) {
        lemma_bytes_le_total(
            vstd::utf8::encode_utf8(a.title@),
            vstd::utf8::encode_utf8(b.title@),
        );
    }

    proof fn lemma_le_transitive(a: Self, b: Self, c: Self) {
        lemma_bytes_le_transitive(
            vstd::utf8::encode_utf8(a.title@),
            vstd::utf8::encode_utf8(b.title@),
            vstd::utf8::encode_utf8(c.title@),
        );
    }
}

/// Status options are listed by position.
impl Ordered for StatusOptionDto {
    open spec fn le(a: Self, b: Self) -> bool {
        a.position <= b.position
    }

    fn le_exec(a: &Self, b: &Self) -> (r: bool) {
        a.position <= b.position
    }

    proof fn lemma_le_total(a: Self, b: Self) {
    }

    proof fn lemma_le_transitive(a: Self, b: Self, c: Self) {
    }
}

/// Operations are listed by creation time.
impl Ordered for Operation {
    open spec fn le(a: Self, b: Self) -> bool {
        a.created_at <= b.created_at
    }

    fn le_exec(a: &Self, b: &Self) -> (r: bool) {
        a.created_at <= b.created_at
    }

    proof fn lemma_le_total(a: Self, b: Self) {
    }

    proof fn lemma_le_transitive(a: Self, b: Self, c: Self) {
    }
}

// ============================================================
// The model
// ============================================================

/// The contents of the cache, table by table, in storage order.
pub struct CacheModel {
    pub settings: Map<Seq<char>, Seq<char>>,
    pub projects: Seq<ProjectDto>,
    pub status_fields: Seq<StatusFieldDto>,
    pub status_options: Seq<StatusOptionDto>,
    pub tasks: Seq<TaskDto>,
    pub operations: Seq<Operation>,
}

/// Some element of `ids` is the text `t`.
pub open spec fn texts_contain(ids: Seq<String>, t: Seq<char>) -> bool {
    exists|i: int| 0 <= i < ids.len() && #[trigger] ids[i]@ == t
}

/// A task whose status option is no longer among `options` loses it (the
/// schema's `ON DELETE SET NULL`).
pub open spec fn detached(t: TaskDto, options: Seq<StatusOptionDto>) -> TaskDto {
    match t.status_option_id {
        Some(o) => if has_key(options, o@) {
            t
        } else {
            TaskDto { status_option_id: None, ..t }
        },
        None => t,
    }
}

/// No two status fields belong to the same project.
pub open spec fn fields_one_per_project(s: Seq<StatusFieldDto>) -> bool {
    forall|i: int, j: int|
        0 <= i < s.len() && 0 <= j < s.len() && i != j ==> #[trigger] s[i].project_id@
            != #[trigger] s[j].project_id@
}

/// No two options of one field share a position.
pub open spec fn options_position_unique(s: Seq<StatusOptionDto>) -> bool {
    forall|i: int, j: int|
        0 <= i < s.len() && 0 <= j < s.len() && i != j && #[trigger] s[i].status_field_id@
            == #[trigger] s[j].status_field_id@ ==> s[i].position != s[j].position
}

impl CacheModel {
    /// The value stored for a setting key.
    pub open spec fn setting(self, k: Seq<char>) -> Option<Seq<char>> {
        if self.settings.dom().contains(k) {
            Some(self.settings[k])
        } else {
            None
        }
    }

    /// The model after the rows that referenced removed parents are gone:
    /// fields of missing projects, options of missing fields, tasks and
    /// operations of missing projects, and task statuses of missing options.
    pub open spec fn settled(self) -> CacheModel {
        let fields = self.status_fields.filter(
            |f: StatusFieldDto| has_key(self.projects, f.project_id@),
        );
        let options = self.status_options.filter(
            |o: StatusOptionDto| has_key(fields, o.status_field_id@),
        );
        let tasks = self.tasks.filter(|t: TaskDto| has_key(self.projects, t.project_id@)).map_values(
            |t: TaskDto| detached(t, options),
        );
        let operations = self.operations.filter(
            |o: Operation| has_key(self.projects, o.payload.project_id@),
        );
        CacheModel {
            settings: self.settings,
            projects: self.projects,
            status_fields: fields,
            status_options: options,
            tasks,
            operations,
        }
    }

    /// The schema's constraints: primary keys, uniqueness and foreign keys.
    pub open spec fn wf(self) -> bool {
        &&& keys_unique(self.projects)
        &&& keys_unique(self.status_fields)
        &&& keys_unique(self.status_options)
        &&& keys_unique(self.tasks)
        &&& keys_unique(self.operations)
        &&& fields_one_per_project(self.status_fields)
        &&& options_position_unique(self.status_options)
        &&& forall|i: int|
            0 <= i < self.status_fields.len() ==> has_key(
                self.projects,
                #[trigger] self.status_fields[i].project_id@,
            )
        &&& forall|i: int|
            0 <= i < self.status_options.len() ==> has_key(
                self.status_fields,
                #[trigger] self.status_options[i].status_field_id@,
            )
        &&& forall|i: int|
            0 <= i < self.tasks.len() ==> has_key(self.projects, #[trigger] self.tasks[i].project_id@)
        &&& forall|i: int|
            0 <= i < self.tasks.len() ==> (#[trigger] self.tasks[i].status_option_id matches Some(o)
                ==> has_key(self.status_options, o@))
        &&& forall|i: int|
            0 <= i < self.operations.len() ==> has_key(
                self.projects,
                #[trigger] self.operations[i].payload.project_id@,
            )
    }
}

// ============================================================
// The store
// ============================================================

/// The settings rows as a map from key to value.
pub open spec fn settings_map(s: Seq<Setting>) -> Map<Seq<char>, Seq<char>> {
    Map::new(|k: Seq<char>| has_key(s, k), |k: Seq<char>| row_with_key(s, k)->0.value@)
}

/// The tables of the cache.
pub struct Tables {
    settings: Vec<Setting>,
    projects: Vec<ProjectDto>,
    status_fields: Vec<StatusFieldDto>,
    status_options: Vec<StatusOptionDto>,
    tasks: Vec<TaskDto>,
    operations: Vec<Operation>,
}

impl Tables {
    pub closed spec fn model(&self) -> CacheModel {
        CacheModel {
            settings: settings_map(self.settings@),
            projects: self.projects@,
            status_fields: self.status_fields@,
            status_options: self.status_options@,
            tasks: self.tasks@,
            operations: self.operations@,
        }
    }

    pub closed spec fn settings_ok(&self) -> bool {
        keys_unique(self.settings@)
    }

    fn empty() -> (r: Tables)
        ensures
            r.settings_ok(),
            r.model().settings == Map::<Seq<char>, Seq<char>>::empty(),
            r.model().projects.len() == 0,
            r.model().status_fields.len() == 0,
            r.model().status_options.len() == 0,
            r.model().tasks.len() == 0,
            r.model().operations.len() == 0,
    {
        let r = Tables {
            settings: Vec::new(),
            projects: Vec::new(),
            status_fields: Vec::new(),
            status_options: Vec::new(),
            tasks: Vec::new(),
            operations: Vec::new(),
        };
        assert(r.model().settings =~= Map::<Seq<char>, Seq<char>>::empty());
        r
    }

    fn dup(&self) -> (r: Tables)
        ensures
            r.model() == self.model(),
            r.settings_ok() == self.settings_ok(),
    {
        Tables {
            settings: dup_rows(&self.settings),
            projects: dup_rows(&self.projects),
            status_fields: dup_rows(&self.status_fields),
            status_options: dup_rows(&self.status_options),
            tasks: dup_rows(&self.tasks),
            operations: dup_rows(&self.operations),
        }
    }
}

/// The message of a transaction begun inside another.
pub open spec fn nested_transaction_message() -> Seq<char> {
    "cannot start a transaction within a transaction"@
}

/// The error of a write that a foreign key refuses.
pub open spec fn is_foreign_key_error(e: DomainError) -> bool {
    e is PersistenceError && e.message() == foreign_key_message()
}

/// The message of a refused foreign key.
pub open spec fn foreign_key_message() -> Seq<char> {
    "FOREIGN KEY constraint failed"@
}

fn foreign_key_error() -> (e: DomainError)
    ensures
        e == DomainError::PersistenceError(e->PersistenceError_0),
        e->PersistenceError_0@ == foreign_key_message(),
{
    DomainError::PersistenceError(string_of("FOREIGN KEY constraint failed"))
}

/// The local cache.
pub struct CacheStore {
    tables: Tables,
    saved: Option<Tables>,
}

impl CacheStore {
    /// The current contents.
    pub closed spec fn model(&self) -> CacheModel {
        self.tables.model()
    }

    /// The contents saved when the open transaction began, if one is open.
    pub closed spec fn saved_model(&self) -> Option<CacheModel> {
        match self.saved {
            Some(t) => Some(t.model()),
            None => None,
        }
    }

    /// The store satisfies the schema, and so does the saved contents.
    pub closed spec fn settings_ok(&self) -> bool {
        &&& self.tables.settings_ok()
        &&& (self.saved matches Some(t) ==> t.settings_ok())
    }

    /// The store satisfies the schema, and so does the saved contents.
    pub open spec fn wf(&self) -> bool {
        &&& self.settings_ok()
        &&& self.model().wf()
        &&& (self.saved_model() matches Some(m) ==> m.wf())
    }

    /// The value of a setting.
    pub open spec fn setting(&self, k: Seq<char>) -> Option<Seq<char>> {
        self.model().setting(k)
    }

    /// The store after a change of the contents, with the transaction state kept.
    pub open spec fn changed_to(&self, old: &CacheStore, m: CacheModel) -> bool {
        self.model() == m && self.saved_model() == old.saved_model()
    }

    /// An empty cache.
    pub fn new() -> (r: CacheStore)
        ensures
            r.wf(),
            r.saved_model() is None,
            r.model().settings == Map::<Seq<char>, Seq<char>>::empty(),
            r.model().projects.len() == 0,
            r.model().status_fields.len() == 0,
            r.model().status_options.len() == 0,
            r.model().tasks.len() == 0,
            r.model().operations.len() == 0,
    {
        CacheStore { tables: Tables::empty(), saved: None }
    }

    // ========================================
    // Transaction
    // ========================================

    /// Begins a transaction: the current contents are saved.
    pub fn begin_transaction(&mut self) -> (r: Result<(), DomainError>)
        requires
            old(self).wf(),
        ensures
            final(self).wf(),
            final(self).model() == old(self).model(),
            r is Ok <==> old(self).saved_model() is None,
            r matches Err(e) ==> e is PersistenceError && e.message() == nested_transaction_message(),
            r is Ok ==> final(self).saved_model() == Some(old(self).model()),
            r is Err ==> final(self).saved_model() == old(self).saved_model(),
    {
        if self.saved.is_some() {
            return Err(
                DomainError::PersistenceError(
                    string_of("cannot start a transaction within a transaction"),
                ),
            );
        }
        self.saved = Some(self.tables.dup());
        Ok(())
    }

    /// Commits the open transaction: the changes stay.
    pub fn commit_transaction(&mut self) -> (r: Result<(), DomainError>)
        requires
            old(self).wf(),
        ensures
            final(self).wf(),
            final(self).model() == old(self).model(),
            final(self).saved_model() is None,
            r is Ok <==> old(self).saved_model() is Some,
    {
        if self.saved.is_none() {
            return Err(
                DomainError::PersistenceError(
                    string_of("cannot commit - no transaction is active"),
                ),
            );
        }
        self.saved = None;
        Ok(())
    }

    /// Rolls back the open transaction: the saved contents come back.
    pub fn rollback_transaction(&mut self) -> (r: Result<(), DomainError>)
        requires
            old(self).wf(),
        ensures
            final(self).wf(),
            final(self).saved_model() is None,
            r is Ok <==> old(self).saved_model() is Some,
            match old(self).saved_model() {
                Some(m) => final(self).model() == m,
                None => final(self).model() == old(self).model(),
            },
    {
        let saved = self.saved.take();
        match saved {
            Some(t) => {
                self.tables = t;
                Ok(())
            },
            None => Err(
                DomainError::PersistenceError(
                    string_of("cannot rollback - no transaction is active"),
                ),
            ),
        }
    }
}


/// The text of an optional string.
pub open spec fn opt_text(o: Option<String>) -> Option<Seq<char>> {
    match o {
        Some(s) => Some(s@),
        None => None,
    }
}

/// `r` lists the rows of `rows`, in the row order.
pub open spec fn listing<T: Ordered>(r: Seq<T>, rows: Seq<T>) -> bool {
    ordered(r) && r.to_multiset() == rows.to_multiset()
}

impl CacheStore {
    // ========================================
    // Settings
    // ========================================

    /// The value of a setting.
    pub fn get_setting(&self, key: &str) -> (r: Result<Option<String>, DomainError>)
        requires
            self.wf(),
        ensures
            r is Ok,
            r matches Ok(v) && opt_text(v) == self.setting(key@),
    {
        match get_row(&self.tables.settings, key) {
            Some(s) => Ok(Some(s.value)),
            None => Ok(None),
        }
    }

    /// Every setting, in storage order.
    pub fn get_all_settings(&self) -> (r: Vec<Setting>)
        requires
            self.wf(),
        ensures
            keys_unique(r@),
            settings_map(r@) == self.model().settings,
    {
        dup_rows(&self.tables.settings)
    }

    /// Sets a setting, replacing any value it had.
    pub fn set_setting(&mut self, key: &str, value: &str) -> (r: Result<(), DomainError>)
        requires
            old(self).wf(),
        ensures
            r is Ok,
            final(self).wf(),
            final(self).changed_to(
                old(self),
                CacheModel { settings: old(self).model().settings.insert(key@, value@), ..old(self).model() },
            ),
    {
        let row = Setting { key: string_of(key), value: string_of(value) };
        let ghost old_settings = self.tables.settings@;
        upsert_row(&mut self.tables.settings, row);
        proof {
            let n = settings_map(self.tables.settings@);
            assert forall|k: Seq<char>| #[trigger] n.dom().contains(k) == settings_map(old_settings).insert(key@, value@).dom().contains(k)
                && (n.dom().contains(k) ==> n[k] == settings_map(old_settings).insert(key@, value@)[k]) by {
                crate::table::lemma_upserted_lookup(old_settings, row, k);
            }
            assert(n =~= settings_map(old_settings).insert(key@, value@));
            assert(self.model() =~= CacheModel { settings: old(self).model().settings.insert(key@, value@), ..old(self).model() });
        }
        Ok(())
    }

    /// Removes a setting.
    pub fn delete_setting(&mut self, key: &str) -> (r: Result<(), DomainError>)
        requires
            old(self).wf(),
        ensures
            r is Ok,
            final(self).wf(),
            final(self).changed_to(
                old(self),
                CacheModel { settings: old(self).model().settings.remove(key@), ..old(self).model() },
            ),
    {
        let ghost pred = |s: Setting| s.key@ != key@;
        let test = SettingKeyNot { key };
        let kept = filter_rows(&self.tables.settings, &test);
        assert((|x: Setting| test.holds(x)) =~= pred);
        let ghost old_settings = self.tables.settings@;
        self.tables.settings = kept;
        proof {
            lemma_filter_keys_unique(old_settings, pred);
            let n = settings_map(self.tables.settings@);
            let o = settings_map(old_settings).remove(key@);
            assert forall|k: Seq<char>| #[trigger] n.dom().contains(k) == o.dom().contains(k)
                && (n.dom().contains(k) ==> n[k] == o[k]) by {
                crate::table::lemma_filter_lookup(old_settings, pred, k);
                if has_key(old_settings, k) {
                    crate::table::lemma_row_with_key_at(
                        old_settings,
                        choose|i: int| 0 <= i < old_settings.len() && #[trigger] old_settings[i].key() == k,
                    );
                }
                if has_key(self.tables.settings@, k) {
                    crate::table::lemma_row_with_key_at(
                        self.tables.settings@,
                        choose|i: int| 0 <= i < self.tables.settings@.len() && #[trigger] self.tables.settings@[i].key() == k,
                    );
                }
            }
            assert(n =~= o);
            assert(self.model() =~= CacheModel { settings: o, ..old(self).model() });
        }
        Ok(())
    }

    // ========================================
    // Projects
    // ========================================

    /// Every project, by title.
    pub fn get_all_projects(&self) -> (r: Result<Vec<ProjectDto>, DomainError>)
        requires
            self.wf(),
        ensures
            r matches Ok(v) && listing(v@, self.model().projects),
    {
        Ok(sort_rows(dup_rows(&self.tables.projects)))
    }

    /// The project with the given id.
    pub fn get_project(&self, project_id: &str) -> (r: Result<Option<ProjectDto>, DomainError>)
        requires
            self.wf(),
        ensures
            r == Ok::<Option<ProjectDto>, DomainError>(row_with_key(self.model().projects, project_id@)),
    {
        Ok(get_row(&self.tables.projects, project_id))
    }

    // ========================================
    // Status fields
    // ========================================

    /// Every status field, in storage order.
    pub fn get_all_status_fields(&self) -> (r: Result<Vec<StatusFieldDto>, DomainError>)
        requires
            self.wf(),
        ensures
            r matches Ok(v) && v@ == self.model().status_fields,
    {
        Ok(dup_rows(&self.tables.status_fields))
    }

    /// The status fields of a project, in storage order.
    pub fn get_status_fields_by_project(&self, project_id: &str) -> (r: Result<Vec<StatusFieldDto>, DomainError>)
        requires
            self.wf(),
        ensures
            r matches Ok(v) && v@ == self.model().status_fields.filter(
                |f: StatusFieldDto| f.project_id@ == project_id@,
            ),
    {
        let ghost pred = |f: StatusFieldDto| f.project_id@ == project_id@;
        let test = FieldOfProject { project_id };
        let rows = filter_rows(&self.tables.status_fields, &test);
        assert((|x: StatusFieldDto| test.holds(x)) =~= pred);
        Ok(rows)
    }

    // ========================================
    // Status options
    // ========================================

    /// Every status option, by position.
    pub fn get_all_status_options(&self) -> (r: Result<Vec<StatusOptionDto>, DomainError>)
        requires
            self.wf(),
        ensures
            r matches Ok(v) && listing(v@, self.model().status_options),
    {
        Ok(sort_rows(dup_rows(&self.tables.status_options)))
    }

    /// The options of a status field, by position.
    pub fn get_status_options_by_field(&self, field_id: &str) -> (r: Result<Vec<StatusOptionDto>, DomainError>)
        requires
            self.wf(),
        ensures
            r matches Ok(v) && listing(
                v@,
                self.model().status_options.filter(
                    |o: StatusOptionDto| o.status_field_id@ == field_id@,
                ),
            ),
    {
        let ghost pred = |o: StatusOptionDto| o.status_field_id@ == field_id@;
        let test = OptionOfField { field_id };
        let rows = filter_rows(&self.tables.status_options, &test);
        assert((|x: StatusOptionDto| test.holds(x)) =~= pred);
        Ok(sort_rows(rows))
    }

    /// The status option with the given id.
    pub fn get_status_option(&self, option_id: &str) -> (r: Result<Option<StatusOptionDto>, DomainError>)
        requires
            self.wf(),
        ensures
            r == Ok::<Option<StatusOptionDto>, DomainError>(row_with_key(self.model().status_options, option_id@)),
    {
        Ok(get_row(&self.tables.status_options, option_id))
    }

    // ========================================
    // Tasks
    // ========================================

    /// The task with the given id.
    pub fn get_task(&self, task_id: &str) -> (r: Result<Option<TaskDto>, DomainError>)
        requires
            self.wf(),
        ensures
            r == Ok::<Option<TaskDto>, DomainError>(row_with_key(self.model().tasks, task_id@)),
    {
        Ok(get_row(&self.tables.tasks, task_id))
    }

    /// Every task, in storage order.
    pub fn get_all_tasks(&self) -> (r: Result<Vec<TaskDto>, DomainError>)
        requires
            self.wf(),
        ensures
            r matches Ok(v) && v@ == self.model().tasks,
    {
        Ok(dup_rows(&self.tables.tasks))
    }

    /// The tasks of a project, in storage order.
    pub fn get_tasks_by_project(&self, project_id: &str) -> (r: Result<Vec<TaskDto>, DomainError>)
        requires
            self.wf(),
        ensures
            r matches Ok(v) && v@ == self.model().tasks.filter(
                |t: TaskDto| t.project_id@ == project_id@,
            ),
    {
        let ghost pred = |t: TaskDto| t.project_id@ == project_id@;
        let test = TaskOfProject { project_id };
        let rows = filter_rows(&self.tables.tasks, &test);
        assert((|x: TaskDto| test.holds(x)) =~= pred);
        Ok(rows)
    }

    // ========================================
    // Operations
    // ========================================

    /// Every operation, by creation time.
    pub fn get_all_operations(&self) -> (r: Result<Vec<Operation>, DomainError>)
        requires
            self.wf(),
        ensures
            r matches Ok(v) && listing(v@, self.model().operations),
    {
        Ok(sort_rows(dup_rows(&self.tables.operations)))
    }

    /// The operations in a status, by creation time.
    pub fn get_operations_by_status(&self, status: &OperationStatus) -> (r: Result<Vec<Operation>, DomainError>)
        requires
            self.wf(),
        ensures
            r matches Ok(v) && listing(
                v@,
                self.model().operations.filter(|o: Operation| o.status == *status),
            ),
    {
        let ghost pred = |o: Operation| o.status == *status;
        let test = OperationInStatus { status: *status };
        let rows = filter_rows(&self.tables.operations, &test);
        assert((|x: Operation| test.holds(x)) =~= pred);
        Ok(sort_rows(rows))
    }

    /// The operations of a project whose status is one of `statuses`, by
    /// creation time.
    pub fn get_operations_by_project_and_status(
        &self,
        project_id: &str,
        statuses: &[OperationStatus],
    ) -> (r: Result<Vec<Operation>, DomainError>)
        requires
            self.wf(),
        ensures
            r matches Ok(v) && listing(
                v@,
                self.model().operations.filter(
                    |o: Operation| o.payload.project_id@ == project_id@ && statuses@.contains(o.status),
                ),
            ),
    {
        let ghost pred = |o: Operation|
            o.payload.project_id@ == project_id@ && statuses@.contains(o.status);
        let test = OperationOfProjectIn { project_id, statuses };
        let rows = filter_rows(&self.tables.operations, &test);
        assert((|x: Operation| test.holds(x)) =~= pred);
        Ok(sort_rows(rows))
    }

    /// The operation with the given id.
    pub fn get_operation(&self, operation_id: &str) -> (r: Result<Option<Operation>, DomainError>)
        requires
            self.wf(),
        ensures
            r == Ok::<Option<Operation>, DomainError>(row_with_key(self.model().operations, operation_id@)),
    {
        Ok(get_row(&self.tables.operations, operation_id))
    }
}

/// Settings whose key is not `key`.
pub struct SettingKeyNot<'a> {
    pub key: &'a str,
}

impl<'a> RowTest<Setting> for SettingKeyNot<'a> {
    open spec fn holds(&self, x: Setting) -> bool {
        x.key@ != self.key@
    }

    fn test(&self, x: &Setting) -> (b: bool) {
        !str_eq(x.key.as_str(), self.key)
    }
}

/// Status fields of a project.
pub struct FieldOfProject<'a> {
    pub project_id: &'a str,
}

impl<'a> RowTest<StatusFieldDto> for FieldOfProject<'a> {
    open spec fn holds(&self, x: StatusFieldDto) -> bool {
        x.project_id@ == self.project_id@
    }

    fn test(&self, x: &StatusFieldDto) -> (b: bool) {
        str_eq(x.project_id.as_str(), self.project_id)
    }
}

/// Options of a status field.
pub struct OptionOfField<'a> {
    pub field_id: &'a str,
}

impl<'a> RowTest<StatusOptionDto> for OptionOfField<'a> {
    open spec fn holds(&self, x: StatusOptionDto) -> bool {
        x.status_field_id@ == self.field_id@
    }

    fn test(&self, x: &StatusOptionDto) -> (b: bool) {
        str_eq(x.status_field_id.as_str(), self.field_id)
    }
}

/// Tasks of a project.
pub struct TaskOfProject<'a> {
    pub project_id: &'a str,
}

impl<'a> RowTest<TaskDto> for TaskOfProject<'a> {
    open spec fn holds(&self, x: TaskDto) -> bool {
        x.project_id@ == self.project_id@
    }

    fn test(&self, x: &TaskDto) -> (b: bool) {
        str_eq(x.project_id.as_str(), self.project_id)
    }
}

/// Operations in a status.
pub struct OperationInStatus {
    pub status: OperationStatus,
}

impl RowTest<Operation> for OperationInStatus {
    open spec fn holds(&self, x: Operation) -> bool {
        x.status == self.status
    }

    fn test(&self, x: &Operation) -> (b: bool) {
        x.status == self.status
    }
}

/// Operations of a project whose status is among `statuses`.
pub struct OperationOfProjectIn<'a> {
    pub project_id: &'a str,
    pub statuses: &'a [OperationStatus],
}

impl<'a> RowTest<Operation> for OperationOfProjectIn<'a> {
    open spec fn holds(&self, x: Operation) -> bool {
        x.payload.project_id@ == self.project_id@ && self.statuses@.contains(x.status)
    }

    fn test(&self, x: &Operation) -> (b: bool) {
        str_eq(x.payload.project_id.as_str(), self.project_id) && status_in(x.status, self.statuses)
    }
}

/// Whether `s` is among `statuses`.
fn status_in(s: OperationStatus, statuses: &[OperationStatus]) -> (r: bool)
    ensures
        r == statuses@.contains(s),
{
    let mut i: usize = 0;
    while i < statuses.len()
        invariant
            i <= statuses.len(),
            forall|j: int| 0 <= j < i ==> statuses@[j] != s,
        decreases statuses.len() - i,
    {
        if statuses[i] == s {
            assert(statuses@[i as int] == s);
            return true;
        }
        i = i + 1;
    }
    false
}


// ============================================================
// Keeping the schema: cascades
// ============================================================

impl CacheModel {
    /// The key and uniqueness constraints (the foreign keys aside).
    pub open spec fn keys_ok(self) -> bool {
        &&& keys_unique(self.projects)
        &&& keys_unique(self.status_fields)
        &&& keys_unique(self.status_options)
        &&& keys_unique(self.tasks)
        &&& keys_unique(self.operations)
        &&& fields_one_per_project(self.status_fields)
        &&& options_position_unique(self.status_options)
    }
}

/// Settling a model whose keys are in order gives a model that satisfies the schema.
pub proof fn lemma_settled_wf(m: CacheModel)
    requires
        m.keys_ok(),
    ensures
        m.settled().wf(),
{
    let fp = |f: StatusFieldDto| has_key(m.projects, f.project_id@);
    let fields = m.status_fields.filter(fp);
    let op = |o: StatusOptionDto| has_key(fields, o.status_field_id@);
    let options = m.status_options.filter(op);
    let tp = |t: TaskDto| has_key(m.projects, t.project_id@);
    let tf = m.tasks.filter(tp);
    let dt = |t: TaskDto| detached(t, options);
    let tasks = tf.map_values(dt);
    let pp = |o: Operation| has_key(m.projects, o.payload.project_id@);
    let ops = m.operations.filter(pp);
    let s = m.settled();
    assert(s.status_fields == fields);
    assert(s.status_options == options);
    assert(s.tasks == tasks);
    assert(s.operations == ops);
    lemma_filter_keys_unique(m.status_fields, fp);
    lemma_filter_keys_unique(m.status_options, op);
    lemma_filter_keys_unique(m.tasks, tp);
    lemma_filter_keys_unique(m.operations, pp);
    crate::table::lemma_filter_pairwise(
        m.status_fields,
        fp,
        |a: StatusFieldDto, b: StatusFieldDto| a.project_id@ != b.project_id@,
    );
    crate::table::lemma_filter_pairwise(
        m.status_options,
        op,
        |a: StatusOptionDto, b: StatusOptionDto|
            a.status_field_id@ == b.status_field_id@ ==> a.position != b.position,
    );
    crate::table::lemma_filter_all_satisfy(m.status_fields, fp);
    crate::table::lemma_filter_all_satisfy(m.status_options, op);
    crate::table::lemma_filter_all_satisfy(m.tasks, tp);
    crate::table::lemma_filter_all_satisfy(m.operations, pp);
    assert forall|i: int| 0 <= i < tasks.len() implies #[trigger] tasks[i].key() == tf[i].key()
        && tasks[i].project_id == tf[i].project_id by {}
    assert(keys_unique(tasks)) by {
        assert forall|a: int, b: int|
            0 <= a < tasks.len() && 0 <= b < tasks.len() && a != b implies #[trigger] tasks[a].key()
            != #[trigger] tasks[b].key() by {
            assert(tasks[a].key() == tf[a].key());
            assert(tasks[b].key() == tf[b].key());
        }
    }
    assert forall|i: int| 0 <= i < tasks.len() implies has_key(m.projects, #[trigger] tasks[i].project_id@)
        by {
        assert(tp(tf[i]));
    }
    assert forall|i: int| 0 <= i < tasks.len() implies (#[trigger] tasks[i].status_option_id matches Some(
        o,
    ) ==> has_key(options, o@)) by {}
    assert forall|i: int| 0 <= i < fields.len() implies has_key(m.projects, #[trigger] fields[i].project_id@)
        by {
        assert(fp(fields[i]));
    }
    assert forall|i: int| 0 <= i < options.len() implies has_key(fields, #[trigger] options[i].status_field_id@)
        by {
        assert(op(options[i]));
    }
    assert forall|i: int| 0 <= i < ops.len() implies has_key(m.projects, #[trigger] ops[i].payload.project_id@)
        by {
        assert(pp(ops[i]));
    }
}

/// Settling a model that satisfies the schema changes nothing.
pub proof fn lemma_settled_identity(m: CacheModel)
    requires
        m.wf(),
    ensures
        m.settled() == m,
{
    let fp = |f: StatusFieldDto| has_key(m.projects, f.project_id@);
    crate::table::lemma_filter_all(m.status_fields, fp);
    let op = |o: StatusOptionDto| has_key(m.status_fields, o.status_field_id@);
    crate::table::lemma_filter_all(m.status_options, op);
    let tp = |t: TaskDto| has_key(m.projects, t.project_id@);
    crate::table::lemma_filter_all(m.tasks, tp);
    let pp = |o: Operation| has_key(m.projects, o.payload.project_id@);
    crate::table::lemma_filter_all(m.operations, pp);
    let tasks = m.tasks.map_values(|t: TaskDto| detached(t, m.status_options));
    assert(tasks =~= m.tasks);
    let s = m.settled();
    assert(s.status_fields == m.status_fields);
    assert(s.status_options == m.status_options);
    assert(s.tasks == m.tasks);
    assert(s.operations == m.operations);
}

/// Status fields whose project is among `projects`.
pub struct FieldProjectIn<'a> {
    pub projects: &'a Vec<ProjectDto>,
}

impl<'a> RowTest<StatusFieldDto> for FieldProjectIn<'a> {
    open spec fn holds(&self, x: StatusFieldDto) -> bool {
        has_key(self.projects@, x.project_id@)
    }

    fn test(&self, x: &StatusFieldDto) -> (b: bool) {
        find_key(self.projects, x.project_id.as_str()).is_some()
    }
}

/// Options whose field is among `fields`.
pub struct OptionFieldIn<'a> {
    pub fields: &'a Vec<StatusFieldDto>,
}

impl<'a> RowTest<StatusOptionDto> for OptionFieldIn<'a> {
    open spec fn holds(&self, x: StatusOptionDto) -> bool {
        has_key(self.fields@, x.status_field_id@)
    }

    fn test(&self, x: &StatusOptionDto) -> (b: bool) {
        find_key(self.fields, x.status_field_id.as_str()).is_some()
    }
}

/// Tasks whose project is among `projects`.
pub struct TaskProjectIn<'a> {
    pub projects: &'a Vec<ProjectDto>,
}

impl<'a> RowTest<TaskDto> for TaskProjectIn<'a> {
    open spec fn holds(&self, x: TaskDto) -> bool {
        has_key(self.projects@, x.project_id@)
    }

    fn test(&self, x: &TaskDto) -> (b: bool) {
        find_key(self.projects, x.project_id.as_str()).is_some()
    }
}

/// Operations whose project is among `projects`.
pub struct OperationProjectIn<'a> {
    pub projects: &'a Vec<ProjectDto>,
}

impl<'a> RowTest<Operation> for OperationProjectIn<'a> {
    open spec fn holds(&self, x: Operation) -> bool {
        has_key(self.projects@, x.payload.project_id@)
    }

    fn test(&self, x: &Operation) -> (b: bool) {
        find_key(self.projects, x.payload.project_id.as_str()).is_some()
    }
}

/// The tasks with the status options that are not among `options` cleared.
fn detach_tasks(tasks: &Vec<TaskDto>, options: &Vec<StatusOptionDto>) -> (r: Vec<TaskDto>)
    ensures
        r@ == tasks@.map_values(|t: TaskDto| detached(t, options@)),
{
    let mut r: Vec<TaskDto> = Vec::new();
    let mut i: usize = 0;
    while i < tasks.len()
        invariant
            i <= tasks.len(),
            r@.len() == i,
            forall|j: int| 0 <= j < i ==> #[trigger] r@[j] == detached(tasks@[j], options@),
        decreases tasks.len() - i,
    {
        let t = tasks[i].dup();
        let keep = match &t.status_option_id {
            Some(o) => find_key(options, o.as_str()).is_some(),
            None => true,
        };
        if keep {
            r.push(t);
        } else {
            r.push(TaskDto { status_option_id: None, ..t });
        }
        i = i + 1;
    }
    assert(r@ =~= tasks@.map_values(|t: TaskDto| detached(t, options@)));
    r
}

impl CacheStore {
    /// Removes the rows that reference removed parents (the schema's cascades).
    fn settle(&mut self)
        requires
            old(self).model().keys_ok(),
            old(self).settings_ok(),
            old(self).saved_model() matches Some(m) ==> m.wf(),
        ensures
            final(self).model() == old(self).model().settled(),
            final(self).saved_model() == old(self).saved_model(),
            final(self).wf(),
    {
        let ghost m = self.model();
        let fields = filter_rows(&self.tables.status_fields, &FieldProjectIn { projects: &self.tables.projects });
        assert((|x: StatusFieldDto| (FieldProjectIn { projects: &self.tables.projects }).holds(x)) =~= (
        |f: StatusFieldDto| has_key(m.projects, f.project_id@)));
        let options = filter_rows(&self.tables.status_options, &OptionFieldIn { fields: &fields });
        assert((|x: StatusOptionDto| (OptionFieldIn { fields: &fields }).holds(x)) =~= (
        |o: StatusOptionDto| has_key(fields@, o.status_field_id@)));
        let kept_tasks = filter_rows(&self.tables.tasks, &TaskProjectIn { projects: &self.tables.projects });
        assert((|x: TaskDto| (TaskProjectIn { projects: &self.tables.projects }).holds(x)) =~= (
        |t: TaskDto| has_key(m.projects, t.project_id@)));
        let tasks = detach_tasks(&kept_tasks, &options);
        let operations = filter_rows(
            &self.tables.operations,
            &OperationProjectIn { projects: &self.tables.projects },
        );
        assert((|x: Operation| (OperationProjectIn { projects: &self.tables.projects }).holds(x)) =~= (
        |o: Operation| has_key(m.projects, o.payload.project_id@)));
        self.tables.status_fields = fields;
        self.tables.status_options = options;
        self.tables.tasks = tasks;
        self.tables.operations = operations;
        proof {
            assert(self.model() =~= m.settled());
            lemma_settled_wf(m);
        }
    }

    // ========================================
    // Project writes
    // ========================================

    /// Inserts a project, or replaces the project with its id in place.
    pub fn upsert_project(&mut self, project: &ProjectDto) -> (r: Result<(), DomainError>)
        requires
            old(self).wf(),
        ensures
            r is Ok,
            final(self).wf(),
            final(self).changed_to(
                old(self),
                CacheModel { projects: upserted(old(self).model().projects, *project), ..old(self).model() },
            ),
    {
        let ghost m = self.model();
        upsert_row(&mut self.tables.projects, project.dup());
        proof {
            let n = self.model();
            assert forall|k: Seq<char>| has_key(m.projects, k) implies has_key(n.projects, k) by {
                crate::table::lemma_upserted_lookup(m.projects, *project, k);
            }
            assert forall|i: int| 0 <= i < n.status_fields.len() implies has_key(
                n.projects,
                #[trigger] n.status_fields[i].project_id@,
            ) by {
                assert(has_key(m.projects, m.status_fields[i].project_id@));
            }
            assert forall|i: int| 0 <= i < n.tasks.len() implies has_key(
                n.projects,
                #[trigger] n.tasks[i].project_id@,
            ) by {
                assert(has_key(m.projects, m.tasks[i].project_id@));
            }
            assert forall|i: int| 0 <= i < n.operations.len() implies has_key(
                n.projects,
                #[trigger] n.operations[i].payload.project_id@,
            ) by {
                assert(has_key(m.projects, m.operations[i].payload.project_id@));
            }
            assert(n =~= CacheModel { projects: upserted(m.projects, *project), ..m });
        }
        Ok(())
    }

    /// Deletes every project whose id is not among `project_ids`, with the
    /// rows that depend on them.
    pub fn delete_projects_not_in(&mut self, project_ids: &[String]) -> (r: Result<(), DomainError>)
        requires
            old(self).wf(),
        ensures
            r is Ok,
            final(self).wf(),
            final(self).changed_to(
                old(self),
                CacheModel {
                    projects: old(self).model().projects.filter(
                        |p: ProjectDto| texts_contain(project_ids@, p.id@),
                    ),
                    ..old(self).model()
                }.settled(),
            ),
    {
        let ghost m = self.model();
        let ghost pred = |p: ProjectDto| texts_contain(project_ids@, p.id@);
        let test = ProjectIdIn { ids: project_ids };
        let kept = filter_rows(&self.tables.projects, &test);
        assert((|x: ProjectDto| test.holds(x)) =~= pred);
        self.tables.projects = kept;
        proof {
            lemma_filter_keys_unique(m.projects, pred);
            assert(self.model() =~= CacheModel { projects: m.projects.filter(pred), ..m });
        }
        self.settle();
        Ok(())
    }
}

/// Projects whose id is among `ids`.
pub struct ProjectIdIn<'a> {
    pub ids: &'a [String],
}

impl<'a> RowTest<ProjectDto> for ProjectIdIn<'a> {
    open spec fn holds(&self, x: ProjectDto) -> bool {
        texts_contain(self.ids@, x.id@)
    }

    fn test(&self, x: &ProjectDto) -> (b: bool) {
        let mut i: usize = 0;
        while i < self.ids.len()
            invariant
                i <= self.ids@.len(),
                forall|j: int| 0 <= j < i ==> self.ids@[j]@ != x.id@,
            decreases self.ids@.len() - i,
        {
            if str_eq(self.ids[i].as_str(), x.id.as_str()) {
                assert(self.ids@[i as int]@ == x.id@);
                return true;
            }
            i = i + 1;
        }
        false
    }
}


/// Status fields other than those that would clash with `field`: rows with
/// its id, or rows of another project.
pub open spec fn field_keeps(field: StatusFieldDto, f: StatusFieldDto) -> bool {
    f.id@ == field.id@ || f.project_id@ != field.project_id@
}

/// Options other than those that would clash with `opt`: rows with its id, or
/// rows at another place.
pub open spec fn option_keeps(opt: StatusOptionDto, o: StatusOptionDto) -> bool {
    o.id@ == opt.id@ || !(o.status_field_id@ == opt.status_field_id@ && o.position == opt.position)
}

/// The status fields after storing `field`.
pub open spec fn fields_with(s: Seq<StatusFieldDto>, field: StatusFieldDto) -> Seq<StatusFieldDto> {
    upserted(s.filter(|f: StatusFieldDto| field_keeps(field, f)), field)
}

/// The status options after storing `opt`.
pub open spec fn options_with(s: Seq<StatusOptionDto>, opt: StatusOptionDto) -> Seq<StatusOptionDto> {
    upserted(s.filter(|o: StatusOptionDto| option_keeps(opt, o)), opt)
}

/// Status fields that do not clash with a new field.
pub struct FieldKeeps<'a> {
    pub field: &'a StatusFieldDto,
}

impl<'a> RowTest<StatusFieldDto> for FieldKeeps<'a> {
    open spec fn holds(&self, x: StatusFieldDto) -> bool {
        field_keeps(*self.field, x)
    }

    fn test(&self, x: &StatusFieldDto) -> (b: bool) {
        str_eq(x.id.as_str(), self.field.id.as_str()) || !str_eq(
            x.project_id.as_str(),
            self.field.project_id.as_str(),
        )
    }
}

/// Options that do not clash with a new option.
pub struct OptionKeeps<'a> {
    pub opt: &'a StatusOptionDto,
}

impl<'a> RowTest<StatusOptionDto> for OptionKeeps<'a> {
    open spec fn holds(&self, x: StatusOptionDto) -> bool {
        option_keeps(*self.opt, x)
    }

    fn test(&self, x: &StatusOptionDto) -> (b: bool) {
        str_eq(x.id.as_str(), self.opt.id.as_str()) || !(str_eq(
            x.status_field_id.as_str(),
            self.opt.status_field_id.as_str(),
        ) && x.position == self.opt.position)
    }
}

/// Status fields not of a project.
pub struct FieldNotOfProject<'a> {
    pub project_id: &'a str,
}

impl<'a> RowTest<StatusFieldDto> for FieldNotOfProject<'a> {
    open spec fn holds(&self, x: StatusFieldDto) -> bool {
        x.project_id@ != self.project_id@
    }

    fn test(&self, x: &StatusFieldDto) -> (b: bool) {
        !str_eq(x.project_id.as_str(), self.project_id)
    }
}

/// Options not of a field.
pub struct OptionNotOfField<'a> {
    pub field_id: &'a str,
}

impl<'a> RowTest<StatusOptionDto> for OptionNotOfField<'a> {
    open spec fn holds(&self, x: StatusOptionDto) -> bool {
        x.status_field_id@ != self.field_id@
    }

    fn test(&self, x: &StatusOptionDto) -> (b: bool) {
        !str_eq(x.status_field_id.as_str(), self.field_id)
    }
}

/// Tasks not of a project.
pub struct TaskNotOfProject<'a> {
    pub project_id: &'a str,
}

impl<'a> RowTest<TaskDto> for TaskNotOfProject<'a> {
    open spec fn holds(&self, x: TaskDto) -> bool {
        x.project_id@ != self.project_id@
    }

    fn test(&self, x: &TaskDto) -> (b: bool) {
        !str_eq(x.project_id.as_str(), self.project_id)
    }
}

/// Operations whose id is not `id`.
pub struct OperationIdNot<'a> {
    pub id: &'a str,
}

impl<'a> RowTest<Operation> for OperationIdNot<'a> {
    open spec fn holds(&self, x: Operation) -> bool {
        x.id@ != self.id@
    }

    fn test(&self, x: &Operation) -> (b: bool) {
        !str_eq(x.id.as_str(), self.id)
    }
}

proof fn lemma_fields_with_ok(s: Seq<StatusFieldDto>, field: StatusFieldDto)
    requires
        keys_unique(s),
        fields_one_per_project(s),
    ensures
        keys_unique(fields_with(s, field)),
        fields_one_per_project(fields_with(s, field)),
        has_key(fields_with(s, field), field.id@),
{
    let p = |f: StatusFieldDto| field_keeps(field, f);
    let f = s.filter(p);
    lemma_filter_keys_unique(s, p);
    crate::table::lemma_filter_pairwise(s, p, |a: StatusFieldDto, b: StatusFieldDto| a.project_id@ != b.project_id@);
    crate::table::lemma_filter_all_satisfy(s, p);
    crate::table::lemma_upserted_lookup(f, field, field.id@);
    let u = upserted(f, field);
    assert forall|i: int, j: int| 0 <= i < u.len() && 0 <= j < u.len() && i != j implies #[trigger] u[i].project_id@
        != #[trigger] u[j].project_id@ by {
        if has_key(f, field.id@) {
            let k = choose|k: int| 0 <= k < f.len() && #[trigger] f[k].key() == field.id@;
            assert(u == f.update(k, field));
            if i == k {
                assert(p(f[j]));
                assert(f[j].key() != f[k].key());
            } else if j == k {
                assert(p(f[i]));
                assert(f[i].key() != f[k].key());
            } else {
                assert(u[i] == f[i] && u[j] == f[j]);
            }
        } else {
            assert(u == f.push(field));
            if i == f.len() {
                assert(p(f[j]));
                assert(f[j].id@ != field.id@) by {
                    assert(f[j].key() != field.id@);
                }
            } else if j == f.len() {
                assert(p(f[i]));
                assert(f[i].key() != field.id@);
            } else {
                assert(u[i] == f[i] && u[j] == f[j]);
            }
        }
    }
}

proof fn lemma_options_with_ok(s: Seq<StatusOptionDto>, opt: StatusOptionDto)
    requires
        keys_unique(s),
        options_position_unique(s),
    ensures
        keys_unique(options_with(s, opt)),
        options_position_unique(options_with(s, opt)),
        has_key(options_with(s, opt), opt.id@),
{
    let p = |o: StatusOptionDto| option_keeps(opt, o);
    let f = s.filter(p);
    lemma_filter_keys_unique(s, p);
    crate::table::lemma_filter_pairwise(
        s,
        p,
        |a: StatusOptionDto, b: StatusOptionDto|
            a.status_field_id@ == b.status_field_id@ ==> a.position != b.position,
    );
    crate::table::lemma_filter_all_satisfy(s, p);
    crate::table::lemma_upserted_lookup(f, opt, opt.id@);
    let u = upserted(f, opt);
    assert forall|i: int, j: int|
        0 <= i < u.len() && 0 <= j < u.len() && i != j && #[trigger] u[i].status_field_id@
            == #[trigger] u[j].status_field_id@ implies u[i].position != u[j].position by {
        if has_key(f, opt.id@) {
            let k = choose|k: int| 0 <= k < f.len() && #[trigger] f[k].key() == opt.id@;
            assert(u == f.update(k, opt));
            if i == k {
                assert(p(f[j]));
                assert(f[j].key() != f[k].key());
            } else if j == k {
                assert(p(f[i]));
                assert(f[i].key() != f[k].key());
            } else {
                assert(u[i] == f[i] && u[j] == f[j]);
            }
        } else {
            assert(u == f.push(opt));
            if i == f.len() {
                assert(p(f[j]));
                assert(f[j].key() != opt.id@);
            } else if j == f.len() {
                assert(p(f[i]));
                assert(f[i].key() != opt.id@);
            } else {
                assert(u[i] == f[i] && u[j] == f[j]);
            }
        }
    }
}

impl CacheStore {
    // ========================================
    // Status field writes
    // ========================================

    /// Stores a status field: replaces the field with its id, drops any other
    /// field of its project (with that field's options), and fails when its
    /// project is not cached.
    pub fn upsert_status_field(&mut self, field: &StatusFieldDto) -> (r: Result<(), DomainError>)
        requires
            old(self).wf(),
        ensures
            final(self).wf(),
            r is Ok <==> has_key(old(self).model().projects, field.project_id@),
            r matches Err(e) ==> e == DomainError::PersistenceError(e->PersistenceError_0)
                && e->PersistenceError_0@ == foreign_key_message(),
            r is Ok ==> final(self).changed_to(
                old(self),
                CacheModel {
                    status_fields: fields_with(old(self).model().status_fields, *field),
                    ..old(self).model()
                }.settled(),
            ),
            r is Err ==> final(self).changed_to(old(self), old(self).model()),
    {
        if find_key(&self.tables.projects, field.project_id.as_str()).is_none() {
            return Err(foreign_key_error());
        }
        let ghost m = self.model();
        let test = FieldKeeps { field };
        let kept = filter_rows(&self.tables.status_fields, &test);
        assert((|x: StatusFieldDto| test.holds(x)) =~= (|f: StatusFieldDto| field_keeps(*field, f)));
        self.tables.status_fields = kept;
        proof {
            lemma_filter_keys_unique(m.status_fields, |f: StatusFieldDto| field_keeps(*field, f));
        }
        upsert_row(&mut self.tables.status_fields, field.dup());
        proof {
            lemma_fields_with_ok(m.status_fields, *field);
            assert(self.model() =~= CacheModel {
                status_fields: fields_with(m.status_fields, *field),
                ..m
            });
        }
        self.settle();
        Ok(())
    }

    /// Deletes the status fields of a project, with their options.
    pub fn delete_status_fields_by_project(&mut self, project_id: &str) -> (r: Result<(), DomainError>)
        requires
            old(self).wf(),
        ensures
            r is Ok,
            final(self).wf(),
            final(self).changed_to(
                old(self),
                CacheModel {
                    status_fields: old(self).model().status_fields.filter(
                        |f: StatusFieldDto| f.project_id@ != project_id@,
                    ),
                    ..old(self).model()
                }.settled(),
            ),
    {
        let ghost m = self.model();
        let ghost pred = |f: StatusFieldDto| f.project_id@ != project_id@;
        let test = FieldNotOfProject { project_id };
        let kept = filter_rows(&self.tables.status_fields, &test);
        assert((|x: StatusFieldDto| test.holds(x)) =~= pred);
        self.tables.status_fields = kept;
        proof {
            lemma_filter_keys_unique(m.status_fields, pred);
            crate::table::lemma_filter_pairwise(
                m.status_fields,
                pred,
                |a: StatusFieldDto, b: StatusFieldDto| a.project_id@ != b.project_id@,
            );
            assert(self.model() =~= CacheModel { status_fields: m.status_fields.filter(pred), ..m });
        }
        self.settle();
        Ok(())
    }

    // ========================================
    // Status option writes
    // ========================================

    /// Stores a status option: replaces the option with its id, drops any other
    /// option at its place in its field, and fails when its field is not cached.
    pub fn upsert_status_option(&mut self, option: &StatusOptionDto) -> (r: Result<(), DomainError>)
        requires
            old(self).wf(),
        ensures
            final(self).wf(),
            r is Ok <==> has_key(old(self).model().status_fields, option.status_field_id@),
            r matches Err(e) ==> e == DomainError::PersistenceError(e->PersistenceError_0)
                && e->PersistenceError_0@ == foreign_key_message(),
            r is Ok ==> final(self).changed_to(
                old(self),
                CacheModel {
                    status_options: options_with(old(self).model().status_options, *option),
                    ..old(self).model()
                }.settled(),
            ),
            r is Err ==> final(self).changed_to(old(self), old(self).model()),
    {
        if find_key(&self.tables.status_fields, option.status_field_id.as_str()).is_none() {
            return Err(foreign_key_error());
        }
        let ghost m = self.model();
        let test = OptionKeeps { opt: option };
        let kept = filter_rows(&self.tables.status_options, &test);
        assert((|x: StatusOptionDto| test.holds(x)) =~= (|o: StatusOptionDto| option_keeps(*option, o)));
        self.tables.status_options = kept;
        proof {
            lemma_filter_keys_unique(m.status_options, |o: StatusOptionDto| option_keeps(*option, o));
        }
        upsert_row(&mut self.tables.status_options, option.dup());
        proof {
            lemma_options_with_ok(m.status_options, *option);
            assert(self.model() =~= CacheModel {
                status_options: options_with(m.status_options, *option),
                ..m
            });
        }
        self.settle();
        Ok(())
    }

    /// Deletes the options of a status field; tasks in those options lose their
    /// status.
    pub fn delete_status_options_by_field(&mut self, field_id: &str) -> (r: Result<(), DomainError>)
        requires
            old(self).wf(),
        ensures
            r is Ok,
            final(self).wf(),
            final(self).changed_to(
                old(self),
                CacheModel {
                    status_options: old(self).model().status_options.filter(
                        |o: StatusOptionDto| o.status_field_id@ != field_id@,
                    ),
                    ..old(self).model()
                }.settled(),
            ),
    {
        let ghost m = self.model();
        let ghost pred = |o: StatusOptionDto| o.status_field_id@ != field_id@;
        let test = OptionNotOfField { field_id };
        let kept = filter_rows(&self.tables.status_options, &test);
        assert((|x: StatusOptionDto| test.holds(x)) =~= pred);
        self.tables.status_options = kept;
        proof {
            lemma_filter_keys_unique(m.status_options, pred);
            crate::table::lemma_filter_pairwise(
                m.status_options,
                pred,
                |a: StatusOptionDto, b: StatusOptionDto|
                    a.status_field_id@ == b.status_field_id@ ==> a.position != b.position,
            );
            assert(self.model() =~= CacheModel { status_options: m.status_options.filter(pred), ..m });
        }
        self.settle();
        Ok(())
    }

    // ========================================
    // Task writes
    // ========================================

    /// Stores a task, replacing the task with its id in place; fails when its
    /// project, or its status option when it has one, is not cached.
    pub fn upsert_task(&mut self, task: &TaskDto) -> (r: Result<(), DomainError>)
        requires
            old(self).wf(),
        ensures
            final(self).wf(),
            r is Ok <==> (has_key(old(self).model().projects, task.project_id@) && (
            task.status_option_id matches Some(o) ==> has_key(old(self).model().status_options, o@))),
            r matches Err(e) ==> e == DomainError::PersistenceError(e->PersistenceError_0)
                && e->PersistenceError_0@ == foreign_key_message(),
            r is Ok ==> final(self).changed_to(
                old(self),
                CacheModel { tasks: upserted(old(self).model().tasks, *task), ..old(self).model() },
            ),
            r is Err ==> final(self).changed_to(old(self), old(self).model()),
    {
        if find_key(&self.tables.projects, task.project_id.as_str()).is_none() {
            return Err(foreign_key_error());
        }
        match &task.status_option_id {
            Some(o) => {
                if find_key(&self.tables.status_options, o.as_str()).is_none() {
                    return Err(foreign_key_error());
                }
            },
            None => {},
        }
        let ghost m = self.model();
        upsert_row(&mut self.tables.tasks, task.dup());
        proof {
            let n = self.model();
            let u = upserted(m.tasks, *task);
            assert forall|i: int| 0 <= i < u.len() implies has_key(m.projects, #[trigger] u[i].project_id@)
                && (u[i].status_option_id matches Some(o) ==> has_key(m.status_options, o@)) by {
                if has_key(m.tasks, task.key()) {
                    let k = choose|k: int| 0 <= k < m.tasks.len() && #[trigger] m.tasks[k].key() == task.key();
                    assert(u == m.tasks.update(k, *task));
                    if i != k {
                        assert(u[i] == m.tasks[i]);
                    }
                } else {
                    assert(u == m.tasks.push(*task));
                    if i < m.tasks.len() {
                        assert(u[i] == m.tasks[i]);
                    }
                }
            }
            assert(n =~= CacheModel { tasks: u, ..m });
        }
        Ok(())
    }

    /// Deletes the tasks of a project.
    pub fn delete_tasks_by_project(&mut self, project_id: &str) -> (r: Result<(), DomainError>)
        requires
            old(self).wf(),
        ensures
            r is Ok,
            final(self).wf(),
            final(self).changed_to(
                old(self),
                CacheModel {
                    tasks: old(self).model().tasks.filter(|t: TaskDto| t.project_id@ != project_id@),
                    ..old(self).model()
                },
            ),
    {
        let ghost m = self.model();
        let ghost pred = |t: TaskDto| t.project_id@ != project_id@;
        let test = TaskNotOfProject { project_id };
        let kept = filter_rows(&self.tables.tasks, &test);
        assert((|x: TaskDto| test.holds(x)) =~= pred);
        self.tables.tasks = kept;
        proof {
            lemma_filter_keys_unique(m.tasks, pred);
            crate::table::lemma_filter_all_satisfy(m.tasks, pred);
            let f = m.tasks.filter(pred);
            assert forall|i: int| 0 <= i < f.len() implies has_key(m.projects, #[trigger] f[i].project_id@)
                && (f[i].status_option_id matches Some(o) ==> has_key(m.status_options, o@)) by {
                assert(f.contains(f[i]));
                lemma_filter_subset(m.tasks, pred, f[i]);
            }
            assert(self.model() =~= CacheModel { tasks: f, ..m });
        }
        Ok(())
    }
}


/// Why queueing an operation under a fresh identifier was refused: the
/// identifier drawn was already taken (a uniqueness error), or the
/// operation's project is not cached (a foreign key error).
pub open spec fn insert_refused(m: CacheModel, project_id: Seq<char>, e: DomainError) -> bool {
    e is PersistenceError && (
    (exists|id: Seq<char>| crate::clock::hyphenated_v4(id) && #[trigger] has_key(m.operations, id))
        && e.message() == "UNIQUE constraint failed: operations.id"@
    || !has_key(m.projects, project_id) && e.message() == foreign_key_message())
}

/// The operation that `insert_operation` stores for an input, under an id and
/// a creation time: a pending move with the input's payload and precondition.
pub open spec fn new_operation(input: AppendOperationInput, id: String, now: i64) -> Operation {
    Operation {
        id,
        op_type: OperationType::MoveItemToColumn,
        payload: OperationPayload {
            item_id: input.item_id,
            project_id: input.project_id,
            status_field_id: input.status_field_id,
            to_option_id: input.to_option_id,
        },
        precondition: Precondition {
            base_item_updated_at: input.base_item_updated_at,
            expected_from_option_id: input.expected_from_option_id,
        },
        created_at: now,
        status: OperationStatus::Pending,
        error_message: None,
        resolved_at: None,
    }
}

/// The text of an optional string slice.
pub open spec fn opt_str_text(o: Option<&str>) -> Option<Seq<char>> {
    match o {
        Some(s) => Some(s@),
        None => None,
    }
}

/// When an operation in `status` counts as resolved: completed or failed.
pub open spec fn resolves(status: OperationStatus) -> bool {
    status == OperationStatus::Completed || status == OperationStatus::Failed
}

/// `n` is `o` with a new status, error message and resolution time.
pub open spec fn status_updated(
    n: Operation,
    o: Operation,
    status: OperationStatus,
    error_message: Option<Seq<char>>,
    resolved_at: Option<i64>,
) -> bool {
    &&& n.id == o.id
    &&& n.op_type == o.op_type
    &&& n.payload == o.payload
    &&& n.precondition == o.precondition
    &&& n.created_at == o.created_at
    &&& n.status == status
    &&& opt_text(n.error_message) == error_message
    &&& n.resolved_at == resolved_at
}

/// `n` is `o` with a new expected source option.
pub open spec fn precondition_updated(n: Operation, o: Operation, expected: Seq<char>) -> bool {
    &&& n.id == o.id
    &&& n.op_type == o.op_type
    &&& n.payload == o.payload
    &&& n.precondition.base_item_updated_at == o.precondition.base_item_updated_at
    &&& n.precondition.expected_from_option_id@ == expected
    &&& n.created_at == o.created_at
    &&& n.status == o.status
    &&& n.error_message == o.error_message
    &&& n.resolved_at == o.resolved_at
}

/// The contents after replacing the operation with key `id` by `n`.
pub open spec fn operation_replaced_model(old: CacheModel, new: CacheModel, id: Seq<char>, n: Operation) -> bool {
    &&& row_with_key(new.operations, id) == Some(n)
    &&& new == (CacheModel { operations: upserted(old.operations, n), ..old })
}

/// The store after replacing the operation with key `id` by `n`.
pub open spec fn operation_replaced(old: &CacheStore, new: &CacheStore, id: Seq<char>, n: Operation) -> bool {
    &&& row_with_key(new.model().operations, id) == Some(n)
    &&& new.changed_to(old, CacheModel { operations: upserted(old.model().operations, n), ..old.model() })
}

impl CacheStore {
    proof fn lemma_operations_replaced(m: CacheModel, n: Operation)
        requires
            m.wf(),
            has_key(m.operations, n.key()),
            has_key(m.projects, n.payload.project_id@),
        ensures
            (CacheModel { operations: upserted(m.operations, n), ..m }).wf(),
            row_with_key(upserted(m.operations, n), n.key()) == Some(n),
    {
        crate::table::lemma_upserted_lookup(m.operations, n, n.key());
        let k = choose|k: int| 0 <= k < m.operations.len() && #[trigger] m.operations[k].key() == n.key();
        let u = upserted(m.operations, n);
        assert(u == m.operations.update(k, n));
        assert forall|i: int| 0 <= i < u.len() implies has_key(m.projects, #[trigger] u[i].payload.project_id@) by {
            if i != k {
                assert(u[i] == m.operations[i]);
            }
        }
    }

    // ========================================
    // Operation writes
    // ========================================

    /// Queues an operation for an input, with a fresh id and the current time.
    pub fn insert_operation(&mut self, input: &AppendOperationInput) -> (r: Result<Operation, DomainError>)
        requires
            old(self).wf(),
        ensures
            final(self).wf(),
            r is Err ==> final(self).changed_to(old(self), old(self).model()),
            !has_key(old(self).model().projects, input.project_id@) ==> r is Err,
            r matches Err(e) ==> insert_refused(old(self).model(), input.project_id@, e),
            r matches Ok(op) ==> crate::clock::hyphenated_v4(op.id@) && op == new_operation(*input, op.id, op.created_at)
                && final(self).changed_to(
                old(self),
                CacheModel { operations: old(self).model().operations.push(op), ..old(self).model() },
            ),
    {
        let id = clock::new_uuid_v4();
        let now = clock::now_epoch_ms();
        let ghost m0 = self.model();
        let ghost id_text = id@;
        let r = self.insert_operation_with(input, id, now);
        proof {
            if r is Err && has_key(m0.operations, id_text) {
                assert(crate::clock::hyphenated_v4(id_text) && has_key(m0.operations, id_text));
            }
        }
        r
    }

    /// Queues the operation for an input under the given id and creation time.
    /// Fails when the id is taken, or when the input's project is not cached.
    pub fn insert_operation_with(&mut self, input: &AppendOperationInput, id: String, now: i64) -> (r: Result<
        Operation,
        DomainError,
    >)
        requires
            old(self).wf(),
        ensures
            final(self).wf(),
            r is Ok <==> (!has_key(old(self).model().operations, id@) && has_key(
                old(self).model().projects,
                input.project_id@,
            )),
            r matches Err(e) ==> e == DomainError::PersistenceError(e->PersistenceError_0) && (if has_key(
                old(self).model().operations,
                id@,
            ) {
                e->PersistenceError_0@ == "UNIQUE constraint failed: operations.id"@
            } else {
                e->PersistenceError_0@ == foreign_key_message()
            }),
            r is Err ==> final(self).changed_to(old(self), old(self).model()),
            r matches Ok(op) ==> op == new_operation(*input, id, now) && final(self).changed_to(
                old(self),
                CacheModel { operations: old(self).model().operations.push(op), ..old(self).model() },
            ),
    {
        if find_key(&self.tables.operations, id.as_str()).is_some() {
            return Err(DomainError::PersistenceError(string_of("UNIQUE constraint failed: operations.id")));
        }
        if find_key(&self.tables.projects, input.project_id.as_str()).is_none() {
            return Err(foreign_key_error());
        }
        let op = Operation {
            id,
            op_type: OperationType::MoveItemToColumn,
            payload: OperationPayload {
                item_id: input.item_id.clone(),
                project_id: input.project_id.clone(),
                status_field_id: input.status_field_id.clone(),
                to_option_id: input.to_option_id.clone(),
            },
            precondition: Precondition {
                base_item_updated_at: input.base_item_updated_at,
                expected_from_option_id: input.expected_from_option_id.clone(),
            },
            created_at: now,
            status: OperationStatus::Pending,
            error_message: None,
            resolved_at: None,
        };
        let ghost m = self.model();
        self.tables.operations.push(op.dup());
        proof {
            let u = m.operations.push(op);
            assert forall|a: int, b: int| 0 <= a < u.len() && 0 <= b < u.len() && a != b implies #[trigger] u[a].key()
                != #[trigger] u[b].key() by {
                if a < m.operations.len() && b < m.operations.len() {
                    assert(u[a] == m.operations[a] && u[b] == m.operations[b]);
                } else if a < m.operations.len() {
                    assert(u[a] == m.operations[a]);
                } else {
                    assert(u[b] == m.operations[b]);
                }
            }
            assert forall|i: int| 0 <= i < u.len() implies has_key(m.projects, #[trigger] u[i].payload.project_id@) by {
                if i < m.operations.len() {
                    assert(u[i] == m.operations[i]);
                }
            }
            assert(self.model() =~= CacheModel { operations: u, ..m });
        }
        Ok(op)
    }

    /// Stores an operation row as it is, as when the cache is loaded from
    /// disk. Fails when the id is taken, or when the operation's project is
    /// not cached.
    pub fn restore_operation(&mut self, op: &Operation) -> (r: Result<(), DomainError>)
        requires
            old(self).wf(),
        ensures
            final(self).wf(),
            r is Ok <==> (!has_key(old(self).model().operations, op.id@) && has_key(
                old(self).model().projects,
                op.payload.project_id@,
            )),
            r matches Err(e) ==> e == DomainError::PersistenceError(e->PersistenceError_0) && (if has_key(
                old(self).model().operations,
                op.id@,
            ) {
                e->PersistenceError_0@ == "UNIQUE constraint failed: operations.id"@
            } else {
                e->PersistenceError_0@ == foreign_key_message()
            }),
            r is Err ==> final(self).changed_to(old(self), old(self).model()),
            r is Ok ==> final(self).changed_to(
                old(self),
                CacheModel { operations: old(self).model().operations.push(*op), ..old(self).model() },
            ),
    {
        if find_key(&self.tables.operations, op.id.as_str()).is_some() {
            return Err(DomainError::PersistenceError(string_of("UNIQUE constraint failed: operations.id")));
        }
        if find_key(&self.tables.projects, op.payload.project_id.as_str()).is_none() {
            return Err(foreign_key_error());
        }
        let ghost m = self.model();
        self.tables.operations.push(op.dup());
        proof {
            let u = m.operations.push(*op);
            assert forall|a: int, b: int| 0 <= a < u.len() && 0 <= b < u.len() && a != b implies #[trigger] u[a].key()
                != #[trigger] u[b].key() by {
                if a < m.operations.len() && b < m.operations.len() {
                    assert(u[a] == m.operations[a] && u[b] == m.operations[b]);
                } else if a < m.operations.len() {
                    assert(u[a] == m.operations[a]);
                } else {
                    assert(u[b] == m.operations[b]);
                }
            }
            assert forall|i: int| 0 <= i < u.len() implies has_key(m.projects, #[trigger] u[i].payload.project_id@) by {
                if i < m.operations.len() {
                    assert(u[i] == m.operations[i]);
                }
            }
            assert(self.model() =~= CacheModel { operations: u, ..m });
        }
        Ok(())
    }

    /// Sets the status and error message of an operation; completed and failed
    /// operations are stamped with the current time, others lose the stamp.
    /// An unknown id changes nothing.
    pub fn update_operation_status(
        &mut self,
        operation_id: &str,
        status: &OperationStatus,
        error_message: Option<&str>,
    ) -> (r: Result<(), DomainError>)
        requires
            old(self).wf(),
        ensures
            r is Ok,
            final(self).wf(),
            !has_key(old(self).model().operations, operation_id@) ==> final(self).changed_to(
                old(self),
                old(self).model(),
            ),
            has_key(old(self).model().operations, operation_id@) ==> exists|n: Operation|
                #[trigger] operation_replaced(old(self), final(self), operation_id@, n) && status_updated(
                    n,
                    row_with_key(old(self).model().operations, operation_id@)->0,
                    *status,
                    opt_str_text(error_message),
                    n.resolved_at,
                ) && (resolves(*status) <==> n.resolved_at is Some),
    {
        let now = clock::now_epoch_ms();
        self.update_operation_status_at(operation_id, status, error_message, now)
    }

    /// Sets the status and error message of an operation; completed and failed
    /// operations are stamped with `now`, others lose the stamp. An unknown id
    /// changes nothing.
    pub fn update_operation_status_at(
        &mut self,
        operation_id: &str,
        status: &OperationStatus,
        error_message: Option<&str>,
        now: i64,
    ) -> (r: Result<(), DomainError>)
        requires
            old(self).wf(),
        ensures
            r is Ok,
            final(self).wf(),
            !has_key(old(self).model().operations, operation_id@) ==> final(self).changed_to(
                old(self),
                old(self).model(),
            ),
            has_key(old(self).model().operations, operation_id@) ==> exists|n: Operation|
                #[trigger] operation_replaced(old(self), final(self), operation_id@, n) && status_updated(
                    n,
                    row_with_key(old(self).model().operations, operation_id@)->0,
                    *status,
                    opt_str_text(error_message),
                    if resolves(*status) {
                        Some(now)
                    } else {
                        None
                    },
                ),
    {
        match find_key(&self.tables.operations, operation_id) {
            None => Ok(()),
            Some(i) => {
                let ghost m = self.model();
                proof {
                    crate::table::lemma_row_with_key_at(m.operations, i as int);
                }
                let o = self.tables.operations[i].dup();
                let resolved_at = if *status == OperationStatus::Completed || *status
                    == OperationStatus::Failed {
                    Some(now)
                } else {
                    None
                };
                let msg = match error_message {
                    Some(e) => Some(string_of(e)),
                    None => None,
                };
                let n = Operation { status: *status, error_message: msg, resolved_at, ..o };
                assert(n.key() == operation_id@);
                proof {
                    CacheStore::lemma_operations_replaced(m, n);
                }
                upsert_row(&mut self.tables.operations, n.dup());
                proof {
                    assert(self.model() =~= CacheModel { operations: upserted(m.operations, n), ..m });
                    assert(operation_replaced(old(self), self, operation_id@, n));
                }
                Ok(())
            },
        }
    }

    /// Sets the expected source option of an operation. An unknown id changes
    /// nothing.
    pub fn update_operation_precondition(&mut self, operation_id: &str, expected_from_option_id: &str) -> (r:
        Result<(), DomainError>)
        requires
            old(self).wf(),
        ensures
            r is Ok,
            final(self).wf(),
            !has_key(old(self).model().operations, operation_id@) ==> final(self).changed_to(
                old(self),
                old(self).model(),
            ),
            has_key(old(self).model().operations, operation_id@) ==> exists|n: Operation|
                #[trigger] operation_replaced(old(self), final(self), operation_id@, n) && precondition_updated(
                    n,
                    row_with_key(old(self).model().operations, operation_id@)->0,
                    expected_from_option_id@,
                ),
    {
        match find_key(&self.tables.operations, operation_id) {
            None => Ok(()),
            Some(i) => {
                let ghost m = self.model();
                proof {
                    crate::table::lemma_row_with_key_at(m.operations, i as int);
                }
                let o = self.tables.operations[i].dup();
                let n = Operation {
                    precondition: Precondition {
                        base_item_updated_at: o.precondition.base_item_updated_at,
                        expected_from_option_id: string_of(expected_from_option_id),
                    },
                    ..o
                };
                assert(n.key() == operation_id@);
                proof {
                    CacheStore::lemma_operations_replaced(m, n);
                }
                upsert_row(&mut self.tables.operations, n.dup());
                proof {
                    assert(self.model() =~= CacheModel { operations: upserted(m.operations, n), ..m });
                    assert(operation_replaced(old(self), self, operation_id@, n));
                }
                Ok(())
            },
        }
    }

    /// Deletes an operation.
    pub fn delete_operation(&mut self, operation_id: &str) -> (r: Result<(), DomainError>)
        requires
            old(self).wf(),
        ensures
            r is Ok,
            final(self).wf(),
            final(self).changed_to(
                old(self),
                CacheModel {
                    operations: old(self).model().operations.filter(|o: Operation| o.id@ != operation_id@),
                    ..old(self).model()
                },
            ),
    {
        let ghost m = self.model();
        let ghost pred = |o: Operation| o.id@ != operation_id@;
        let test = OperationIdNot { id: operation_id };
        let kept = filter_rows(&self.tables.operations, &test);
        assert((|x: Operation| test.holds(x)) =~= pred);
        self.tables.operations = kept;
        proof {
            lemma_filter_keys_unique(m.operations, pred);
            let f = m.operations.filter(pred);
            assert forall|i: int| 0 <= i < f.len() implies has_key(m.projects, #[trigger] f[i].payload.project_id@) by {
                assert(f.contains(f[i]));
                lemma_filter_subset(m.operations, pred, f[i]);
            }
            assert(self.model() =~= CacheModel { operations: f, ..m });
        }
        Ok(())
    }
}

} // verus!
