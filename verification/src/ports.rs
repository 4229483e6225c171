//! The storage the use cases need, as a trait, with the in-memory cache as
//! its implementation.
use vstd::prelude::*;
use crate::dtos::{AppendOperationInput, Operation, OperationStatus, ProjectDto, StatusFieldDto, StatusOptionDto, TaskDto};
use crate::errors::DomainError;
use crate::store::{
    CacheModel, CacheStore, fields_with, insert_refused, foreign_key_message, listing, new_operation, operation_replaced_model,
    options_with, opt_str_text, opt_text, precondition_updated, resolves, status_updated, texts_contain,
};
use crate::table::{has_key, row_with_key, upserted};

verus! {

/// The storage of the cache: settings, projects, status fields and options,
/// tasks and the operation log, with single-level transactions.
pub trait PersistencePort: Sized {
    /// The current contents.
    spec fn contents(&self) -> CacheModel;

    /// The contents saved when the open transaction began, if one is open.
    spec fn saved_contents(&self) -> Option<CacheModel>;

    /// The storage is in a consistent state.
    spec fn valid(&self) -> bool;

    /// Begins a transaction.
    fn begin_transaction(&mut self) -> (r: Result<(), DomainError>)
        requires
            old(self).valid(),
        ensures
            final(self).valid(),
            final(self).contents() == old(self).contents(),
            r is Ok <==> old(self).saved_contents() is None,
            r is Ok ==> final(self).saved_contents() == Some(old(self).contents()),
            r is Err ==> final(self).saved_contents() == old(self).saved_contents(),
    ;

    /// Commits the open transaction.
    fn commit_transaction(&mut self) -> (r: Result<(), DomainError>)
        requires
            old(self).valid(),
        ensures
            final(self).valid(),
            final(self).contents() == old(self).contents(),
            final(self).saved_contents() is None,
            r is Ok <==> old(self).saved_contents() is Some,
    ;

    /// Rolls back the open transaction.
    fn rollback_transaction(&mut self) -> (r: Result<(), DomainError>)
        requires
            old(self).valid(),
        ensures
            final(self).valid(),
            final(self).saved_contents() is None,
            r is Ok <==> old(self).saved_contents() is Some,
            match old(self).saved_contents() {
                Some(m) => final(self).contents() == m,
                None => final(self).contents() == old(self).contents(),
            },
    ;

    /// The value of a setting.
    fn get_setting(&self, key: &str) -> (r: Result<Option<String>, DomainError>)
        requires
            self.valid(),
        ensures
            r matches Ok(v) && opt_text(v) == self.contents().setting(key@),
    ;

    /// Sets a setting.
    fn set_setting(&mut self, key: &str, value: &str) -> (r: Result<(), DomainError>)
        requires
            old(self).valid(),
        ensures
            r is Ok,
            final(self).valid(),
            (final(self).contents() == CacheModel { settings: old(self).contents().settings.insert(key@, value@), ..old(self).contents() } && final(self).saved_contents() == old(self).saved_contents()),
    ;

    /// Removes a setting.
    fn delete_setting(&mut self, key: &str) -> (r: Result<(), DomainError>)
        requires
            old(self).valid(),
        ensures
            r is Ok,
            final(self).valid(),
            (final(self).contents() == CacheModel { settings: old(self).contents().settings.remove(key@), ..old(self).contents() } && final(self).saved_contents() == old(self).saved_contents()),
    ;

    /// Every project, by title.
    fn get_all_projects(&self) -> (r: Result<Vec<ProjectDto>, DomainError>)
        requires
            self.valid(),
        ensures
            r matches Ok(v) && listing(v@, self.contents().projects),
    ;

    /// The project with the given id.
    fn get_project(&self, project_id: &str) -> (r: Result<Option<ProjectDto>, DomainError>)
        requires
            self.valid(),
        ensures
            r == Ok::<Option<ProjectDto>, DomainError>(row_with_key(self.contents().projects, project_id@)),
    ;

    /// Inserts or replaces a project.
    fn upsert_project(&mut self, project: &ProjectDto) -> (r: Result<(), DomainError>)
        requires
            old(self).valid(),
        ensures
            r is Ok,
            final(self).valid(),
            (final(self).contents() == CacheModel { projects: upserted(old(self).contents().projects, *project), ..old(self).contents() } && final(self).saved_contents() == old(self).saved_contents()),
    ;

    /// Removes the projects whose ids are not listed, with what depends on them.
    fn delete_projects_not_in(&mut self, project_ids: &[String]) -> (r: Result<(), DomainError>)
        requires
            old(self).valid(),
        ensures
            r is Ok,
            final(self).valid(),
            (final(self).contents() == CacheModel {
                    projects: old(self).contents().projects.filter(
                        |p: ProjectDto| texts_contain(project_ids@, p.id@),
                    ),
                    ..old(self).contents()
                }.settled() && final(self).saved_contents() == old(self).saved_contents()),
    ;

    /// Every status field.
    fn get_all_status_fields(&self) -> (r: Result<Vec<StatusFieldDto>, DomainError>)
        requires
            self.valid(),
        ensures
            r matches Ok(v) && v@ == self.contents().status_fields,
    ;

    /// The status fields of a project.
    fn get_status_fields_by_project(&self, project_id: &str) -> (r: Result<Vec<StatusFieldDto>, DomainError>)
        requires
            self.valid(),
        ensures
            r matches Ok(v) && v@ == self.contents().status_fields.filter(
                |f: StatusFieldDto| f.project_id@ == project_id@,
            ),
    ;

    /// Inserts or replaces the status field of a project.
    fn upsert_status_field(&mut self, field: &StatusFieldDto) -> (r: Result<(), DomainError>)
        requires
            old(self).valid(),
        ensures
            final(self).valid(),
            r is Ok <==> has_key(old(self).contents().projects, field.project_id@),
            r matches Err(e) ==> e == DomainError::PersistenceError(e->PersistenceError_0)
                && e->PersistenceError_0@ == foreign_key_message(),
            r is Ok ==> (final(self).contents() == CacheModel {
                    status_fields: fields_with(old(self).contents().status_fields, *field),
                    ..old(self).contents()
                }.settled() && final(self).saved_contents() == old(self).saved_contents()),
            r is Err ==> (final(self).contents() == old(self).contents() && final(self).saved_contents() == old(self).saved_contents()),
    ;

    /// Removes the status fields of a project, with their options.
    fn delete_status_fields_by_project(&mut self, project_id: &str) -> (r: Result<(), DomainError>)
        requires
            old(self).valid(),
        ensures
            r is Ok,
            final(self).valid(),
            (final(self).contents() == CacheModel {
                    status_fields: old(self).contents().status_fields.filter(
                        |f: StatusFieldDto| f.project_id@ != project_id@,
                    ),
                    ..old(self).contents()
                }.settled() && final(self).saved_contents() == old(self).saved_contents()),
    ;

    /// Every status option, by position.
    fn get_all_status_options(&self) -> (r: Result<Vec<StatusOptionDto>, DomainError>)
        requires
            self.valid(),
        ensures
            r matches Ok(v) && listing(v@, self.contents().status_options),
    ;

    /// The options of a status field, by position.
    fn get_status_options_by_field(&self, field_id: &str) -> (r: Result<Vec<StatusOptionDto>, DomainError>)
        requires
            self.valid(),
        ensures
            r matches Ok(v) && listing(
                v@,
                self.contents().status_options.filter(|o: StatusOptionDto| o.status_field_id@ == field_id@),
            ),
    ;

    /// Inserts or replaces a status option.
    fn upsert_status_option(&mut self, option: &StatusOptionDto) -> (r: Result<(), DomainError>)
        requires
            old(self).valid(),
        ensures
            final(self).valid(),
            r is Ok <==> has_key(old(self).contents().status_fields, option.status_field_id@),
            r matches Err(e) ==> e == DomainError::PersistenceError(e->PersistenceError_0)
                && e->PersistenceError_0@ == foreign_key_message(),
            r is Ok ==> (final(self).contents() == CacheModel {
                    status_options: options_with(old(self).contents().status_options, *option),
                    ..old(self).contents()
                }.settled() && final(self).saved_contents() == old(self).saved_contents()),
            r is Err ==> (final(self).contents() == old(self).contents() && final(self).saved_contents() == old(self).saved_contents()),
    ;

    /// Removes the options of a status field.
    fn delete_status_options_by_field(&mut self, field_id: &str) -> (r: Result<(), DomainError>)
        requires
            old(self).valid(),
        ensures
            r is Ok,
            final(self).valid(),
            (final(self).contents() == CacheModel {
                    status_options: old(self).contents().status_options.filter(
                        |o: StatusOptionDto| o.status_field_id@ != field_id@,
                    ),
                    ..old(self).contents()
                }.settled() && final(self).saved_contents() == old(self).saved_contents()),
    ;

    /// Every task.
    fn get_all_tasks(&self) -> (r: Result<Vec<TaskDto>, DomainError>)
        requires
            self.valid(),
        ensures
            r matches Ok(v) && v@ == self.contents().tasks,
    ;

    /// The tasks of a project.
    fn get_tasks_by_project(&self, project_id: &str) -> (r: Result<Vec<TaskDto>, DomainError>)
        requires
            self.valid(),
        ensures
            r matches Ok(v) && v@ == self.contents().tasks.filter(|t: TaskDto| t.project_id@ == project_id@),
    ;

    /// The task with the given id.
    fn get_task(&self, task_id: &str) -> (r: Result<Option<TaskDto>, DomainError>)
        requires
            self.valid(),
        ensures
            r == Ok::<Option<TaskDto>, DomainError>(row_with_key(self.contents().tasks, task_id@)),
    ;

    /// Inserts or replaces a task.
    fn upsert_task(&mut self, task: &TaskDto) -> (r: Result<(), DomainError>)
        requires
            old(self).valid(),
        ensures
            final(self).valid(),
            r is Ok <==> (has_key(old(self).contents().projects, task.project_id@) && (
            task.status_option_id matches Some(o) ==> has_key(old(self).contents().status_options, o@))),
            r matches Err(e) ==> e == DomainError::PersistenceError(e->PersistenceError_0)
                && e->PersistenceError_0@ == foreign_key_message(),
            r is Ok ==> (final(self).contents() == CacheModel { tasks: upserted(old(self).contents().tasks, *task), ..old(self).contents() } && final(self).saved_contents() == old(self).saved_contents()),
            r is Err ==> (final(self).contents() == old(self).contents() && final(self).saved_contents() == old(self).saved_contents()),
    ;

    /// Removes the tasks of a project.
    fn delete_tasks_by_project(&mut self, project_id: &str) -> (r: Result<(), DomainError>)
        requires
            old(self).valid(),
        ensures
            r is Ok,
            final(self).valid(),
            (final(self).contents() == CacheModel {
                    tasks: old(self).contents().tasks.filter(|t: TaskDto| t.project_id@ != project_id@),
                    ..old(self).contents()
                } && final(self).saved_contents() == old(self).saved_contents()),
    ;

    /// Every operation, in creation order.
    fn get_all_operations(&self) -> (r: Result<Vec<Operation>, DomainError>)
        requires
            self.valid(),
        ensures
            r matches Ok(v) && listing(v@, self.contents().operations),
    ;

    /// The operations in a status, in creation order.
    fn get_operations_by_status(&self, status: &OperationStatus) -> (r: Result<Vec<Operation>, DomainError>)
        requires
            self.valid(),
        ensures
            r matches Ok(v) && listing(v@, self.contents().operations.filter(|o: Operation| o.status == *status)),
    ;

    /// The operations of a project in one of the statuses, in creation order.
    fn get_operations_by_project_and_status(&self, project_id: &str, statuses: &[OperationStatus]) -> (r: Result<
        Vec<Operation>,
        DomainError,
    >)
        requires
            self.valid(),
        ensures
            r matches Ok(v) && listing(
                v@,
                self.contents().operations.filter(
                    |o: Operation| o.payload.project_id@ == project_id@ && statuses@.contains(o.status),
                ),
            ),
    ;

    /// The operation with the given id.
    fn get_operation(&self, operation_id: &str) -> (r: Result<Option<Operation>, DomainError>)
        requires
            self.valid(),
        ensures
            r == Ok::<Option<Operation>, DomainError>(row_with_key(self.contents().operations, operation_id@)),
    ;

    /// Queues an operation under a fresh id at the current time.
    fn insert_operation(&mut self, input: &AppendOperationInput) -> (r: Result<Operation, DomainError>)
        requires
            old(self).valid(),
        ensures
            final(self).valid(),
            r is Err ==> (final(self).contents() == old(self).contents() && final(self).saved_contents() == old(self).saved_contents()),
            !has_key(old(self).contents().projects, input.project_id@) ==> r is Err,
            r matches Err(e) ==> insert_refused(old(self).contents(), input.project_id@, e),
            r matches Ok(op) ==> crate::clock::hyphenated_v4(op.id@) && op == new_operation(*input, op.id, op.created_at)
                && (final(self).contents() == CacheModel { operations: old(self).contents().operations.push(op), ..old(self).contents() } && final(self).saved_contents() == old(self).saved_contents()),
    ;

    /// Sets the status of an operation, with the error message given; the
    /// time of resolution is set when the status resolves it.
    fn update_operation_status(&mut self, operation_id: &str, status: &OperationStatus, error_message: Option<&str>) -> (r:
        Result<(), DomainError>)
        requires
            old(self).valid(),
        ensures
            r is Ok,
            final(self).valid(),
            final(self).saved_contents() == old(self).saved_contents(),
            !has_key(old(self).contents().operations, operation_id@) ==> final(self).contents() == old(self).contents(),
            has_key(old(self).contents().operations, operation_id@) ==> exists|n: Operation|
                #[trigger] operation_replaced_model(old(self).contents(), final(self).contents(), operation_id@, n)
                    && status_updated(
                    n,
                    row_with_key(old(self).contents().operations, operation_id@)->0,
                    *status,
                    opt_str_text(error_message),
                    n.resolved_at,
                ) && (resolves(*status) <==> n.resolved_at is Some),
    ;

    /// Sets the option an operation expects the item to be in.
    fn update_operation_precondition(&mut self, operation_id: &str, expected_from_option_id: &str) -> (r: Result<
        (),
        DomainError,
    >)
        requires
            old(self).valid(),
        ensures
            r is Ok,
            final(self).valid(),
            final(self).saved_contents() == old(self).saved_contents(),
            !has_key(old(self).contents().operations, operation_id@) ==> final(self).contents() == old(self).contents(),
            has_key(old(self).contents().operations, operation_id@) ==> exists|n: Operation|
                #[trigger] operation_replaced_model(old(self).contents(), final(self).contents(), operation_id@, n)
                    && precondition_updated(
                    n,
                    row_with_key(old(self).contents().operations, operation_id@)->0,
                    expected_from_option_id@,
                ),
    ;

    /// Removes an operation.
    fn delete_operation(&mut self, operation_id: &str) -> (r: Result<(), DomainError>)
        requires
            old(self).valid(),
        ensures
            r is Ok,
            final(self).valid(),
            (final(self).contents() == CacheModel {
                    operations: old(self).contents().operations.filter(|o: Operation| o.id@ != operation_id@),
                    ..old(self).contents()
                } && final(self).saved_contents() == old(self).saved_contents()),
    ;
}

impl PersistencePort for CacheStore {
    open spec fn contents(&self) -> CacheModel {
        self.model()
    }

    open spec fn saved_contents(&self) -> Option<CacheModel> {
        self.saved_model()
    }

    open spec fn valid(&self) -> bool {
        self.wf()
    }

    fn begin_transaction(&mut self) -> (r: Result<(), DomainError>) {
        CacheStore::begin_transaction(self)
    }

    fn commit_transaction(&mut self) -> (r: Result<(), DomainError>) {
        CacheStore::commit_transaction(self)
    }

    fn rollback_transaction(&mut self) -> (r: Result<(), DomainError>) {
        CacheStore::rollback_transaction(self)
    }

    fn get_setting(&self, key: &str) -> (r: Result<Option<String>, DomainError>) {
        CacheStore::get_setting(self, key)
    }

    fn set_setting(&mut self, key: &str, value: &str) -> (r: Result<(), DomainError>) {
        CacheStore::set_setting(self, key, value)
    }

    fn delete_setting(&mut self, key: &str) -> (r: Result<(), DomainError>) {
        CacheStore::delete_setting(self, key)
    }

    fn get_all_projects(&self) -> (r: Result<Vec<ProjectDto>, DomainError>) {
        CacheStore::get_all_projects(self)
    }

    fn get_project(&self, project_id: &str) -> (r: Result<Option<ProjectDto>, DomainError>) {
        CacheStore::get_project(self, project_id)
    }

    fn upsert_project(&mut self, project: &ProjectDto) -> (r: Result<(), DomainError>) {
        CacheStore::upsert_project(self, project)
    }

    fn delete_projects_not_in(&mut self, project_ids: &[String]) -> (r: Result<(), DomainError>) {
        CacheStore::delete_projects_not_in(self, project_ids)
    }

    fn get_all_status_fields(&self) -> (r: Result<Vec<StatusFieldDto>, DomainError>) {
        CacheStore::get_all_status_fields(self)
    }

    fn get_status_fields_by_project(&self, project_id: &str) -> (r: Result<Vec<StatusFieldDto>, DomainError>) {
        CacheStore::get_status_fields_by_project(self, project_id)
    }

    fn upsert_status_field(&mut self, field: &StatusFieldDto) -> (r: Result<(), DomainError>) {
        CacheStore::upsert_status_field(self, field)
    }

    fn delete_status_fields_by_project(&mut self, project_id: &str) -> (r: Result<(), DomainError>) {
        CacheStore::delete_status_fields_by_project(self, project_id)
    }

    fn get_all_status_options(&self) -> (r: Result<Vec<StatusOptionDto>, DomainError>) {
        CacheStore::get_all_status_options(self)
    }

    fn get_status_options_by_field(&self, field_id: &str) -> (r: Result<Vec<StatusOptionDto>, DomainError>) {
        CacheStore::get_status_options_by_field(self, field_id)
    }

    fn upsert_status_option(&mut self, option: &StatusOptionDto) -> (r: Result<(), DomainError>) {
        CacheStore::upsert_status_option(self, option)
    }

    fn delete_status_options_by_field(&mut self, field_id: &str) -> (r: Result<(), DomainError>) {
        CacheStore::delete_status_options_by_field(self, field_id)
    }

    fn get_all_tasks(&self) -> (r: Result<Vec<TaskDto>, DomainError>) {
        CacheStore::get_all_tasks(self)
    }

    fn get_tasks_by_project(&self, project_id: &str) -> (r: Result<Vec<TaskDto>, DomainError>) {
        CacheStore::get_tasks_by_project(self, project_id)
    }

    fn get_task(&self, task_id: &str) -> (r: Result<Option<TaskDto>, DomainError>) {
        CacheStore::get_task(self, task_id)
    }

    fn upsert_task(&mut self, task: &TaskDto) -> (r: Result<(), DomainError>) {
        CacheStore::upsert_task(self, task)
    }

    fn delete_tasks_by_project(&mut self, project_id: &str) -> (r: Result<(), DomainError>) {
        CacheStore::delete_tasks_by_project(self, project_id)
    }

    fn get_all_operations(&self) -> (r: Result<Vec<Operation>, DomainError>) {
        CacheStore::get_all_operations(self)
    }

    fn get_operations_by_status(&self, status: &OperationStatus) -> (r: Result<Vec<Operation>, DomainError>) {
        CacheStore::get_operations_by_status(self, status)
    }

    fn get_operations_by_project_and_status(&self, project_id: &str, statuses: &[OperationStatus]) -> (r: Result<
        Vec<Operation>,
        DomainError,
    >) {
        CacheStore::get_operations_by_project_and_status(self, project_id, statuses)
    }

    fn get_operation(&self, operation_id: &str) -> (r: Result<Option<Operation>, DomainError>) {
        CacheStore::get_operation(self, operation_id)
    }

    fn insert_operation(&mut self, input: &AppendOperationInput) -> (r: Result<Operation, DomainError>) {
        CacheStore::insert_operation(self, input)
    }

    fn update_operation_status(&mut self, operation_id: &str, status: &OperationStatus, error_message: Option<&str>) -> (r:
        Result<(), DomainError>) {
        let ghost before = *self;
        let r = CacheStore::update_operation_status(self, operation_id, status, error_message);
        proof {
            if has_key(before.model().operations, operation_id@) {
                let n = choose|n: Operation|
                    #[trigger] crate::store::operation_replaced(&before, self, operation_id@, n) && status_updated(
                        n,
                        row_with_key(before.model().operations, operation_id@)->0,
                        *status,
                        opt_str_text(error_message),
                        n.resolved_at,
                    ) && (resolves(*status) <==> n.resolved_at is Some);
                assert(operation_replaced_model(before.contents(), self.contents(), operation_id@, n));
            }
        }
        r
    }

    fn update_operation_precondition(&mut self, operation_id: &str, expected_from_option_id: &str) -> (r: Result<
        (),
        DomainError,
    >) {
        let ghost before = *self;
        let r = CacheStore::update_operation_precondition(self, operation_id, expected_from_option_id);
        proof {
            if has_key(before.model().operations, operation_id@) {
                let n = choose|n: Operation|
                    #[trigger] crate::store::operation_replaced(&before, self, operation_id@, n) && precondition_updated(
                        n,
                        row_with_key(before.model().operations, operation_id@)->0,
                        expected_from_option_id@,
                    );
                assert(operation_replaced_model(before.contents(), self.contents(), operation_id@, n));
            }
        }
        r
    }

    fn delete_operation(&mut self, operation_id: &str) -> (r: Result<(), DomainError>) {
        CacheStore::delete_operation(self, operation_id)
    }
}

} // verus!
