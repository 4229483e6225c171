use prism::append::AppendOperationsUseCase;
use prism::bootstrap::FetchBootstrapUseCase;
use prism::dtos::{
    AppendOperationInput, ContentType, GitHubProjectData, OperationStatus, OperationType, OwnerType, ProjectDto,
    StatusFieldDto, StatusOptionDto, TaskDto,
};
use prism::errors::DomainError;
use prism::ports::PersistencePort;
use prism::store::CacheStore;

fn project(id: &str, title: &str) -> ProjectDto {
    ProjectDto {
        id: id.to_string(),
        owner_type: OwnerType::User,
        owner_login: "alice".to_string(),
        title: title.to_string(),
        url: format!("https://github.com/users/alice/projects/{}", id),
        updated_at: Some(1),
        synced_at: Some(2),
    }
}

fn field(id: &str, project_id: &str) -> StatusFieldDto {
    StatusFieldDto { id: id.to_string(), project_id: project_id.to_string(), name: "Status".to_string() }
}

fn option(id: &str, field_id: &str, position: i32) -> StatusOptionDto {
    StatusOptionDto {
        id: id.to_string(),
        status_field_id: field_id.to_string(),
        name: format!("Column {}", id),
        color: None,
        position,
    }
}

fn task(id: &str, project_id: &str, status: Option<&str>) -> TaskDto {
    TaskDto {
        id: id.to_string(),
        project_id: project_id.to_string(),
        content_type: ContentType::Issue,
        content_id: Some(format!("I_{}", id)),
        title: format!("Task {}", id),
        body: None,
        status_option_id: status.map(|s| s.to_string()),
        assignee_login: None,
        due_date: None,
        url: None,
        updated_at: Some(10),
        synced_at: Some(20),
    }
}

fn input(item: &str, project_id: &str, from: &str, to: &str) -> AppendOperationInput {
    AppendOperationInput {
        op_type: OperationType::MoveItemToColumn,
        item_id: item.to_string(),
        project_id: project_id.to_string(),
        status_field_id: "F1".to_string(),
        to_option_id: to.to_string(),
        base_item_updated_at: 10,
        expected_from_option_id: from.to_string(),
    }
}

fn seeded() -> CacheStore {
    let mut s = CacheStore::new();
    s.upsert_project(&project("P1", "Beta")).unwrap();
    s.upsert_status_field(&field("F1", "P1")).unwrap();
    s.upsert_status_option(&option("O1", "F1", 0)).unwrap();
    s.upsert_status_option(&option("O2", "F1", 1)).unwrap();
    s.upsert_task(&task("T1", "P1", Some("O1"))).unwrap();
    s
}

#[test]
fn setting_reads_back_what_was_written() {
    let mut s = CacheStore::new();
    assert_eq!(s.get_setting("k").unwrap(), None);
    s.set_setting("k", "v1").unwrap();
    s.set_setting("k", "v2").unwrap();
    s.set_setting("other", "x").unwrap();
    assert_eq!(s.get_setting("k").unwrap(), Some("v2".to_string()));
    assert_eq!(s.get_setting("other").unwrap(), Some("x".to_string()));
    s.delete_setting("k").unwrap();
    assert_eq!(s.get_setting("k").unwrap(), None);
    assert_eq!(s.get_setting("other").unwrap(), Some("x".to_string()));
}

#[test]
fn projects_are_listed_by_title() {
    let mut s = CacheStore::new();
    s.upsert_project(&project("P2", "Zeta")).unwrap();
    s.upsert_project(&project("P1", "Alpha")).unwrap();
    s.upsert_project(&project("P3", "Mid")).unwrap();
    let titles: Vec<String> = s.get_all_projects().unwrap().into_iter().map(|p| p.title).collect();
    assert_eq!(titles, vec!["Alpha", "Mid", "Zeta"]);
}

#[test]
fn upsert_replaces_a_project_in_place() {
    let mut s = CacheStore::new();
    s.upsert_project(&project("P1", "Old")).unwrap();
    s.upsert_project(&project("P1", "New")).unwrap();
    let all = s.get_all_projects().unwrap();
    assert_eq!(all.len(), 1);
    assert_eq!(s.get_project("P1").unwrap().unwrap().title, "New");
    assert_eq!(s.get_project("P9").unwrap(), None);
}

#[test]
fn a_field_needs_its_project() {
    let mut s = CacheStore::new();
    let e = s.upsert_status_field(&field("F1", "P1")).unwrap_err();
    assert_eq!(e, DomainError::PersistenceError("FOREIGN KEY constraint failed".to_string()));
    assert!(s.get_all_status_fields().unwrap().is_empty());
}

#[test]
fn a_task_needs_its_status_option() {
    let mut s = seeded();
    let e = s.upsert_task(&task("T2", "P1", Some("O9"))).unwrap_err();
    assert_eq!(e, DomainError::PersistenceError("FOREIGN KEY constraint failed".to_string()));
    assert!(s.get_task("T2").unwrap().is_none());
    s.upsert_task(&task("T2", "P1", None)).unwrap();
    assert!(s.get_task("T2").unwrap().is_some());
}

#[test]
fn options_are_listed_by_position() {
    let mut s = seeded();
    s.upsert_status_option(&option("O0", "F1", -1)).unwrap();
    let ids: Vec<String> = s.get_status_options_by_field("F1").unwrap().into_iter().map(|o| o.id).collect();
    assert_eq!(ids, vec!["O0", "O1", "O2"]);
}

#[test]
fn deleting_a_project_removes_what_depends_on_it() {
    let mut s = seeded();
    s.upsert_project(&project("P2", "Other")).unwrap();
    AppendOperationsUseCase::execute(&mut s, &vec![input("T1", "P1", "O1", "O2")]).unwrap();
    s.delete_projects_not_in(&["P2".to_string()]).unwrap();
    assert!(s.get_project("P1").unwrap().is_none());
    assert!(s.get_all_status_fields().unwrap().is_empty());
    assert!(s.get_all_status_options().unwrap().is_empty());
    assert!(s.get_all_tasks().unwrap().is_empty());
    assert!(s.get_all_operations().unwrap().is_empty());
    assert_eq!(s.get_all_projects().unwrap().len(), 1);
}

#[test]
fn deleting_options_detaches_tasks() {
    let mut s = seeded();
    s.delete_status_options_by_field("F1").unwrap();
    let t = s.get_task("T1").unwrap().unwrap();
    assert_eq!(t.status_option_id, None);
}

#[test]
fn rollback_restores_the_contents() {
    let mut s = seeded();
    s.begin_transaction().unwrap();
    s.set_setting("k", "v").unwrap();
    s.delete_tasks_by_project("P1").unwrap();
    s.rollback_transaction().unwrap();
    assert_eq!(s.get_setting("k").unwrap(), None);
    assert_eq!(s.get_all_tasks().unwrap().len(), 1);
}

#[test]
fn transactions_do_not_nest() {
    let mut s = CacheStore::new();
    s.begin_transaction().unwrap();
    assert_eq!(
        s.begin_transaction().unwrap_err(),
        DomainError::PersistenceError("cannot start a transaction within a transaction".to_string())
    );
    s.commit_transaction().unwrap();
    assert_eq!(
        s.commit_transaction().unwrap_err(),
        DomainError::PersistenceError("cannot commit - no transaction is active".to_string())
    );
    assert_eq!(
        s.rollback_transaction().unwrap_err(),
        DomainError::PersistenceError("cannot rollback - no transaction is active".to_string())
    );
}

#[test]
fn appended_operations_are_pending_in_order() {
    let mut s = seeded();
    let ops = AppendOperationsUseCase::execute(
        &mut s,
        &vec![input("T1", "P1", "O1", "O2"), input("T1", "P1", "O2", "O1")],
    )
    .unwrap();
    assert_eq!(ops.len(), 2);
    for op in &ops {
        assert_eq!(op.status, OperationStatus::Pending);
        assert_eq!(op.id.len(), 36);
        let cs: Vec<char> = op.id.chars().collect();
        for (i, c) in cs.iter().enumerate() {
            if i == 8 || i == 13 || i == 18 || i == 23 {
                assert_eq!(*c, '-');
            } else {
                assert!(c.is_ascii_hexdigit() && !c.is_ascii_uppercase());
            }
        }
        assert_eq!(cs[14], '4');
        assert_eq!(op.error_message, None);
        assert_eq!(op.resolved_at, None);
    }
    assert_ne!(ops[0].id, ops[1].id);
    assert_eq!(ops[0].payload.to_option_id, "O2");
    assert_eq!(ops[1].precondition.expected_from_option_id, "O2");
    let pending = s.get_operations_by_status(&OperationStatus::Pending).unwrap();
    assert_eq!(pending.len(), 2);
    assert_eq!(ops[0].created_at, ops[1].created_at);
}

#[test]
fn appending_for_an_unknown_project_fails() {
    let mut s = seeded();
    let r = AppendOperationsUseCase::execute(
        &mut s,
        &vec![input("T1", "P1", "O1", "O2"), input("T1", "P9", "O1", "O2")],
    );
    assert_eq!(r.unwrap_err(), DomainError::PersistenceError("FOREIGN KEY constraint failed".to_string()));
    assert_eq!(s.get_all_operations().unwrap().len(), 1);
}

#[test]
fn restoring_an_operation_twice_fails() {
    let mut s = seeded();
    let op = s.insert_operation_with(&input("T1", "P1", "O1", "O2"), "op-1".to_string(), 5).unwrap();
    let mut other = seeded();
    other.restore_operation(&op).unwrap();
    assert_eq!(
        other.restore_operation(&op).unwrap_err(),
        DomainError::PersistenceError("UNIQUE constraint failed: operations.id".to_string())
    );
    assert_eq!(other.get_operation("op-1").unwrap(), Some(op));
}

#[test]
fn operations_of_a_project_by_status() {
    let mut s = seeded();
    s.insert_operation_with(&input("T1", "P1", "O1", "O2"), "a".to_string(), 3).unwrap();
    s.insert_operation_with(&input("T1", "P1", "O2", "O1"), "b".to_string(), 1).unwrap();
    s.update_operation_status("a", &OperationStatus::Conflict, None).unwrap();
    let ops = s
        .get_operations_by_project_and_status("P1", &[OperationStatus::Pending, OperationStatus::Conflict])
        .unwrap();
    let ids: Vec<String> = ops.into_iter().map(|o| o.id).collect();
    assert_eq!(ids, vec!["b", "a"]);
    let none = s.get_operations_by_project_and_status("P2", &[OperationStatus::Pending]).unwrap();
    assert!(none.is_empty());
}

#[test]
fn a_completed_status_is_stamped() {
    let mut s = seeded();
    s.insert_operation_with(&input("T1", "P1", "O1", "O2"), "a".to_string(), 3).unwrap();
    s.update_operation_status("a", &OperationStatus::Failed, Some("boom")).unwrap();
    let op = s.get_operation("a").unwrap().unwrap();
    assert_eq!(op.status, OperationStatus::Failed);
    assert_eq!(op.error_message, Some("boom".to_string()));
    assert!(op.resolved_at.is_some());
    s.update_operation_status("a", &OperationStatus::Pending, None).unwrap();
    let op = s.get_operation("a").unwrap().unwrap();
    assert_eq!(op.resolved_at, None);
    s.update_operation_precondition("a", "O2").unwrap();
    assert_eq!(s.get_operation("a").unwrap().unwrap().precondition.expected_from_option_id, "O2");
}

#[test]
fn bootstrap_from_cache_lists_the_cache() {
    let mut s = seeded();
    s.set_setting("current_user_login", "alice").unwrap();
    AppendOperationsUseCase::execute(&mut s, &vec![input("T1", "P1", "O1", "O2")]).unwrap();
    let b = FetchBootstrapUseCase::from_cache(&s).unwrap();
    assert_eq!(b.projects.len(), 1);
    assert_eq!(b.status_fields.len(), 1);
    assert_eq!(b.status_options.len(), 2);
    assert_eq!(b.tasks.len(), 1);
    assert_eq!(b.pending_operations.len(), 1);
    assert!(b.conflicts.is_empty());
    assert_eq!(b.current_user_login, "alice");
}

#[test]
fn project_bootstrap_of_an_unknown_project() {
    let s = seeded();
    let e = FetchBootstrapUseCase::project_from_cache(&s, "P9").unwrap_err();
    assert_eq!(e, DomainError::NotFound("Project not found: P9".to_string()));
    let b = FetchBootstrapUseCase::project_from_cache(&s, "P1").unwrap();
    assert_eq!(b.project.id, "P1");
    assert_eq!(b.status_field.unwrap().id, "F1");
    assert_eq!(b.status_options.len(), 2);
    assert_eq!(b.tasks.len(), 1);
}

#[test]
fn a_refresh_replaces_the_cached_projects() {
    let mut s = seeded();
    let data = GitHubProjectData {
        project: project("P2", "Fresh"),
        status_field: Some(field("F2", "P2")),
        status_options: vec![option("Q1", "F2", 0)],
        tasks: vec![task("T9", "P2", Some("Q1"))],
    };
    let b = FetchBootstrapUseCase::apply_refresh(&mut s, "bob", vec![project("P2", "Fresh")], vec![data]).unwrap();
    assert_eq!(b.current_user_login, "bob");
    assert_eq!(b.projects.len(), 1);
    assert!(s.get_project("P1").unwrap().is_none());
    assert_eq!(s.get_task("T9").unwrap().unwrap().status_option_id, Some("Q1".to_string()));
    assert_eq!(s.get_setting("current_user_login").unwrap(), Some("bob".to_string()));
}

#[test]
fn a_refused_refresh_leaves_the_cache_as_it_was() {
    let mut s = seeded();
    let data = GitHubProjectData {
        project: project("P1", "Beta"),
        status_field: Some(field("F1", "P1")),
        status_options: vec![option("O1", "F1", 0)],
        tasks: vec![task("T5", "P1", Some("missing"))],
    };
    let before = FetchBootstrapUseCase::from_cache(&s).unwrap();
    let r = FetchBootstrapUseCase::apply_refresh(&mut s, "bob", vec![project("P1", "Beta")], vec![data]);
    assert!(r.is_err());
    let after = FetchBootstrapUseCase::from_cache(&s).unwrap();
    assert_eq!(before, after);
    assert_eq!(s.get_setting("current_user_login").unwrap(), None);
}

fn read_back<P: PersistencePort>(p: &mut P) -> Option<String> {
    p.set_setting("k", "v").unwrap();
    p.get_setting("k").unwrap()
}

#[test]
fn the_port_is_the_cache() {
    let mut s = CacheStore::new();
    assert_eq!(read_back(&mut s), Some("v".to_string()));
}

#[test]
fn keeping_every_project_changes_nothing() {
    let mut s = seeded();
    AppendOperationsUseCase::execute(&mut s, &vec![input("T1", "P1", "O1", "O2")]).unwrap();
    let before = FetchBootstrapUseCase::from_cache(&s).unwrap();
    s.delete_projects_not_in(&["P1".to_string()]).unwrap();
    let after = FetchBootstrapUseCase::from_cache(&s).unwrap();
    assert_eq!(before, after);
}

#[test]
fn queueing_with_given_ids_stops_at_the_first_refusal() {
    let mut s = seeded();
    let inputs = vec![input("T1", "P1", "O1", "O2"), input("T1", "P1", "O2", "O1"), input("T1", "P1", "O1", "O2")];
    let ids = vec!["x".to_string(), "y".to_string(), "x".to_string()];
    let e = AppendOperationsUseCase::execute_with(&mut s, &inputs, &ids, 1).unwrap_err();
    assert_eq!(e, DomainError::PersistenceError("UNIQUE constraint failed: operations.id".to_string()));
    let stored: Vec<String> = s.get_all_operations().unwrap().into_iter().map(|o| o.id).collect();
    assert_eq!(stored, vec!["x", "y"]);
}

#[test]
fn queueing_with_given_ids_builds_each_operation() {
    let mut s = seeded();
    let inputs = vec![input("T1", "P1", "O1", "O2"), input("T1", "P1", "O2", "O1")];
    let ids = vec!["a".to_string(), "b".to_string()];
    let ops = AppendOperationsUseCase::execute_with(&mut s, &inputs, &ids, 10).unwrap();
    assert_eq!(ops.len(), 2);
    assert_eq!(ops[0].id, "a");
    assert_eq!(ops[0].created_at, 10);
    assert_eq!(ops[1].created_at, 10);
    assert_eq!(ops[1].payload.to_option_id, "O1");
    assert_eq!(ops[1].status, OperationStatus::Pending);
    let e = AppendOperationsUseCase::execute_with(&mut s, &vec![input("T1", "P9", "O1", "O2")], &vec!["c".to_string()], 1)
        .unwrap_err();
    assert_eq!(e, DomainError::PersistenceError("FOREIGN KEY constraint failed".to_string()));
}

#[test]
fn a_refused_refresh_returns_the_refusal() {
    let mut s = seeded();
    let data = GitHubProjectData {
        project: project("P1", "Beta"),
        status_field: Some(field("F1", "P1")),
        status_options: vec![],
        tasks: vec![task("T5", "P1", Some("missing"))],
    };
    let e = FetchBootstrapUseCase::apply_project_refresh(&mut s, "P1", data).unwrap_err();
    assert_eq!(e, DomainError::PersistenceError("FOREIGN KEY constraint failed".to_string()));
    s.begin_transaction().unwrap();
    let e = FetchBootstrapUseCase::apply_refresh(&mut s, "bob", vec![], vec![]).unwrap_err();
    assert_eq!(e, DomainError::PersistenceError("cannot start a transaction within a transaction".to_string()));
}
