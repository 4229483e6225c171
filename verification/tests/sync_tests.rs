use prism::append::AppendOperationsUseCase;
use prism::codes::{
    content_type_to_str, operation_status_to_str, operation_type_to_str, owner_type_to_str, parse_content_type,
    parse_operation_status, parse_owner_type, parse_sync_status, sync_status_to_str,
};
use prism::dtos::{
    AppendOperationInput, ContentType, OperationStatus, OperationType, OwnerType, ProjectDto, StatusFieldDto,
    StatusOptionDto, SyncStatus, TaskDto,
};
use prism::errors::DomainError;
use prism::settings::{
    clear_pat, endpoint_for_channel, get_update_channel, has_pat, newest_log_index, progress_payload, set_pat,
    set_update_channel, LogTail, MAX_LINES,
};
use prism::store::CacheStore;
use prism::sync::{SyncAction, SyncEvent, SyncToGitHubUseCase};
use prism::text::{i64_to_decimal, join_strings, parse_i64_decimal, str_contains};

fn seeded() -> CacheStore {
    let mut s = CacheStore::new();
    s.upsert_project(&ProjectDto {
        id: "P1".to_string(),
        owner_type: OwnerType::User,
        owner_login: "alice".to_string(),
        title: "Board".to_string(),
        url: "u".to_string(),
        updated_at: None,
        synced_at: None,
    })
    .unwrap();
    s.upsert_status_field(&StatusFieldDto { id: "F1".to_string(), project_id: "P1".to_string(), name: "Status".to_string() })
        .unwrap();
    for (i, id) in ["O1", "O2", "O3"].iter().enumerate() {
        s.upsert_status_option(&StatusOptionDto {
            id: id.to_string(),
            status_field_id: "F1".to_string(),
            name: format!("Col{}", i),
            color: None,
            position: i as i32,
        })
        .unwrap();
    }
    for t in ["T1", "T2"] {
        s.upsert_task(&TaskDto {
            id: t.to_string(),
            project_id: "P1".to_string(),
            content_type: ContentType::Issue,
            content_id: None,
            title: t.to_string(),
            body: None,
            status_option_id: Some("O1".to_string()),
            assignee_login: None,
            due_date: None,
            url: None,
            updated_at: None,
            synced_at: None,
        })
        .unwrap();
    }
    s.set_setting("github_pat", "ghp_token").unwrap();
    s
}

fn queue(s: &mut CacheStore, item: &str, id: &str, created: i64) {
    let input = AppendOperationInput {
        op_type: OperationType::MoveItemToColumn,
        item_id: item.to_string(),
        project_id: "P1".to_string(),
        status_field_id: "F1".to_string(),
        to_option_id: "O2".to_string(),
        base_item_updated_at: 0,
        expected_from_option_id: "O1".to_string(),
    };
    s.insert_operation_with(&input, id.to_string(), created).unwrap();
}

fn status_of(s: &CacheStore, id: &str) -> OperationStatus {
    s.get_operation(id).unwrap().unwrap().status
}

#[test]
fn a_run_without_token_is_refused() {
    let mut s = CacheStore::new();
    let e = SyncToGitHubUseCase::start(&mut s).err().unwrap();
    assert_eq!(e, DomainError::AuthenticationError("No token configured".to_string()));
}

#[test]
fn an_empty_run_finishes_at_once() {
    let mut s = seeded();
    let (run, a) = SyncToGitHubUseCase::start(&mut s).unwrap();
    assert_eq!(a, SyncAction::Finished);
    assert_eq!(run.token(), "ghp_token");
    let r = run.finish(&mut s).unwrap();
    assert!(r.completed.is_empty());
    assert_eq!(r.state.status, SyncStatus::Idle);
    assert!(r.state.last_sync_attempt_at.is_some());
    assert!(r.state.last_sync_success_at.is_some());
}

#[test]
fn a_matching_status_is_moved() {
    let mut s = seeded();
    queue(&mut s, "T1", "a", 1);
    let (mut run, a) = SyncToGitHubUseCase::start(&mut s).unwrap();
    assert_eq!(
        a,
        SyncAction::FetchCurrentStatus {
            operation_id: "a".to_string(),
            item_id: "T1".to_string(),
            status_field_id: "F1".to_string()
        }
    );
    assert_eq!(status_of(&s, "a"), OperationStatus::Syncing);
    let a = run.step(&mut s, SyncEvent::CurrentStatus(Ok(Some("O1".to_string()))));
    assert_eq!(
        a,
        SyncAction::UpdateStatus {
            operation_id: "a".to_string(),
            project_id: "P1".to_string(),
            item_id: "T1".to_string(),
            status_field_id: "F1".to_string(),
            option_id: "O2".to_string()
        }
    );
    let a = run.step(&mut s, SyncEvent::StatusUpdated(Ok(())));
    assert_eq!(a, SyncAction::Finished);
    let r = run.finish(&mut s).unwrap();
    assert_eq!(r.completed.len(), 1);
    assert_eq!(status_of(&s, "a"), OperationStatus::Completed);
    assert!(s.get_operation("a").unwrap().unwrap().resolved_at.is_some());
    assert_eq!(s.get_task("T1").unwrap().unwrap().status_option_id, Some("O2".to_string()));
    assert_eq!(r.state.status, SyncStatus::Idle);
    assert_eq!(r.state.pending_count, 0);
}

#[test]
fn a_conflict_stops_the_run() {
    let mut s = seeded();
    queue(&mut s, "T1", "a", 1);
    queue(&mut s, "T2", "b", 2);
    let (mut run, _) = SyncToGitHubUseCase::start(&mut s).unwrap();
    let a = run.step(&mut s, SyncEvent::CurrentStatus(Ok(Some("O3".to_string()))));
    assert_eq!(a, SyncAction::Finished);
    assert_eq!(status_of(&s, "a"), OperationStatus::Conflict);
    assert_eq!(status_of(&s, "b"), OperationStatus::Pending);
    let r = run.finish(&mut s).unwrap();
    assert_eq!(r.conflicts.len(), 1);
    assert_eq!(r.conflicts[0].current_option_id, "O3");
    assert_eq!(r.conflicts[0].current_option_name, "Col2");
    assert_eq!(r.state.status, SyncStatus::PausedConflict);
    assert_eq!(r.state.conflict_count, 1);
    assert_eq!(r.state.pending_count, 1);
    assert_eq!(s.get_task("T1").unwrap().unwrap().status_option_id, Some("O1".to_string()));
}

#[test]
fn a_conflict_resolved_with_the_operation_is_queued_again() {
    let mut s = seeded();
    queue(&mut s, "T1", "a", 1);
    let (mut run, _) = SyncToGitHubUseCase::start(&mut s).unwrap();
    run.step(&mut s, SyncEvent::CurrentStatus(Ok(None)));
    run.finish(&mut s).unwrap();
    assert_eq!(status_of(&s, "a"), OperationStatus::Conflict);
    SyncToGitHubUseCase::resolve_conflict_with_operation(&mut s, "a", "O3").unwrap();
    let op = s.get_operation("a").unwrap().unwrap();
    assert_eq!(op.status, OperationStatus::Pending);
    assert_eq!(op.precondition.expected_from_option_id, "O3");
    let state = SyncToGitHubUseCase::get_sync_state(&s).unwrap();
    assert_eq!(state.status, SyncStatus::Idle);
    assert_eq!(state.pending_count, 1);
    let e = SyncToGitHubUseCase::resolve_conflict_with_operation(&mut s, "a", "O3").unwrap_err();
    assert!(matches!(e, DomainError::InvalidInput(_)));
    let e = SyncToGitHubUseCase::resolve_conflict_with_operation(&mut s, "zz", "O3").unwrap_err();
    assert!(matches!(e, DomainError::NotFound(_)));
}

#[test]
fn a_conflict_resolved_with_the_current_status_drops_the_operation() {
    let mut s = seeded();
    queue(&mut s, "T1", "a", 1);
    let (mut run, _) = SyncToGitHubUseCase::start(&mut s).unwrap();
    run.step(&mut s, SyncEvent::CurrentStatus(Ok(Some("O2".to_string()))));
    run.finish(&mut s).unwrap();
    SyncToGitHubUseCase::resolve_conflict_with_current(&mut s, "a").unwrap();
    assert!(s.get_operation("a").unwrap().is_none());
    assert_eq!(s.get_setting("conflict_current_option_id:a").unwrap(), None);
}

#[test]
fn a_network_error_puts_the_operation_back() {
    let mut s = seeded();
    queue(&mut s, "T1", "a", 1);
    queue(&mut s, "T2", "b", 2);
    let (mut run, _) = SyncToGitHubUseCase::start(&mut s).unwrap();
    let a = run.step(&mut s, SyncEvent::CurrentStatus(Err(DomainError::NetworkError("offline".to_string()))));
    assert_eq!(a, SyncAction::Finished);
    assert_eq!(status_of(&s, "a"), OperationStatus::Pending);
    assert_eq!(status_of(&s, "b"), OperationStatus::Pending);
    let r = run.finish(&mut s).unwrap();
    assert_eq!(r.state.status, SyncStatus::Error);
    assert_eq!(r.state.last_error, Some("Network error: offline".to_string()));
}

#[test]
fn a_rate_limit_pauses_for_an_hour() {
    let mut s = seeded();
    queue(&mut s, "T1", "a", 1);
    let (mut run, _) = SyncToGitHubUseCase::start(&mut s).unwrap();
    run.step(&mut s, SyncEvent::CurrentStatus(Ok(Some("O1".to_string()))));
    run.step(&mut s, SyncEvent::StatusUpdated(Err(DomainError::RateLimitExceeded("slow down".to_string()))));
    let r = run.finish(&mut s).unwrap();
    assert_eq!(status_of(&s, "a"), OperationStatus::Pending);
    assert_eq!(r.state.status, SyncStatus::PausedRateLimited);
    let attempt = r.state.last_sync_attempt_at.unwrap();
    let reset = r.state.rate_limit_reset_at.unwrap();
    assert!(reset >= attempt + 3600000);
}

#[test]
fn a_refused_move_fails_and_the_run_goes_on() {
    let mut s = seeded();
    queue(&mut s, "T1", "a", 1);
    queue(&mut s, "T2", "b", 2);
    let (mut run, _) = SyncToGitHubUseCase::start(&mut s).unwrap();
    run.step(&mut s, SyncEvent::CurrentStatus(Ok(Some("O1".to_string()))));
    let a = run.step(&mut s, SyncEvent::StatusUpdated(Err(DomainError::GitHubApiError("denied".to_string()))));
    assert!(matches!(a, SyncAction::FetchCurrentStatus { .. }));
    assert_eq!(status_of(&s, "a"), OperationStatus::Failed);
    assert_eq!(
        s.get_operation("a").unwrap().unwrap().error_message,
        Some("GitHub API error: denied".to_string())
    );
    assert_eq!(status_of(&s, "b"), OperationStatus::Syncing);
    run.step(&mut s, SyncEvent::CurrentStatus(Ok(Some("O1".to_string()))));
    run.step(&mut s, SyncEvent::StatusUpdated(Ok(())));
    let r = run.finish(&mut s).unwrap();
    assert_eq!(r.failed.len(), 1);
    assert_eq!(r.failed[0].error, "GitHub API error: denied");
    assert_eq!(r.completed.len(), 1);
}

#[test]
fn an_event_out_of_turn_changes_nothing() {
    let mut s = seeded();
    queue(&mut s, "T1", "a", 1);
    let (mut run, _) = SyncToGitHubUseCase::start(&mut s).unwrap();
    let a = run.step(&mut s, SyncEvent::StatusUpdated(Ok(())));
    assert!(matches!(a, SyncAction::FetchCurrentStatus { .. }));
    assert_eq!(status_of(&s, "a"), OperationStatus::Syncing);
}

#[test]
fn only_pending_or_conflicting_operations_can_be_cancelled() {
    let mut s = seeded();
    queue(&mut s, "T1", "a", 1);
    SyncToGitHubUseCase::cancel_operation(&mut s, "a").unwrap();
    assert!(s.get_operation("a").unwrap().is_none());
    queue(&mut s, "T1", "b", 2);
    s.update_operation_status("b", &OperationStatus::Completed, None).unwrap();
    let e = SyncToGitHubUseCase::cancel_operation(&mut s, "b").unwrap_err();
    assert_eq!(e, DomainError::InvalidInput("Operation cannot be cancelled: b".to_string()));
    let e = SyncToGitHubUseCase::cancel_operation(&mut s, "zz").unwrap_err();
    assert_eq!(e, DomainError::NotFound("Operation not found: zz".to_string()));
}

#[test]
fn the_token_can_be_set_and_cleared() {
    let mut s = CacheStore::new();
    assert_eq!(has_pat(&s).unwrap(), false);
    set_pat(&mut s, "ghp_x").unwrap();
    s.set_setting("current_user_login", "alice").unwrap();
    assert_eq!(has_pat(&s).unwrap(), true);
    clear_pat(&mut s).unwrap();
    assert_eq!(has_pat(&s).unwrap(), false);
    assert_eq!(s.get_setting("current_user_login").unwrap(), None);
}

#[test]
fn the_update_channel_defaults_to_stable() {
    let mut s = CacheStore::new();
    assert_eq!(get_update_channel(&s).unwrap(), "stable");
    set_update_channel(&mut s, "nightly").unwrap();
    assert_eq!(get_update_channel(&s).unwrap(), "nightly");
    let e = set_update_channel(&mut s, "beta").unwrap_err();
    assert_eq!(e, "Invalid channel. Must be \"stable\" or \"nightly\".");
    assert_eq!(get_update_channel(&s).unwrap(), "nightly");
}

#[test]
fn channels_have_their_feeds() {
    assert_eq!(
        endpoint_for_channel("nightly"),
        "https://github.com/Minto312/projects-prism/releases/download/nightly/latest.json"
    );
    assert_eq!(
        endpoint_for_channel("stable"),
        "https://github.com/Minto312/projects-prism/releases/latest/download/latest.json"
    );
    assert_eq!(endpoint_for_channel("other"), endpoint_for_channel("stable"));
    let p = progress_payload(512, Some(2048));
    assert_eq!(p.chunk_length, 512);
    assert_eq!(p.content_length, Some(2048));
}

#[test]
fn the_log_tail_keeps_the_last_lines() {
    let mut tail = LogTail::new();
    assert_eq!(tail.text(), "");
    for i in 0..(MAX_LINES + 3) {
        tail.push(format!("line {}", i));
    }
    let text = tail.text();
    let lines: Vec<&str> = text.split('\n').collect();
    assert_eq!(lines.len(), MAX_LINES);
    assert_eq!(lines[0], "line 3");
    assert_eq!(lines[MAX_LINES - 1], format!("line {}", MAX_LINES + 2));
}

#[test]
fn the_newest_log_is_the_last_of_the_latest() {
    assert_eq!(newest_log_index(&vec![]), None);
    assert_eq!(newest_log_index(&vec![5, 9, 2]), Some(1));
    assert_eq!(newest_log_index(&vec![9, 3, 9, 1]), Some(2));
}

#[test]
fn codes_read_back() {
    for t in [OwnerType::Organization, OwnerType::User] {
        assert_eq!(parse_owner_type(owner_type_to_str(t)), t);
    }
    for t in [ContentType::Issue, ContentType::DraftIssue, ContentType::PullRequest] {
        assert_eq!(parse_content_type(content_type_to_str(t)), t);
    }
    for st in [
        OperationStatus::Pending,
        OperationStatus::Syncing,
        OperationStatus::Completed,
        OperationStatus::Conflict,
        OperationStatus::Failed,
    ] {
        assert_eq!(parse_operation_status(operation_status_to_str(&st)), st);
    }
    for st in [
        SyncStatus::Idle,
        SyncStatus::Syncing,
        SyncStatus::PausedConflict,
        SyncStatus::PausedRateLimited,
        SyncStatus::PausedAuthError,
        SyncStatus::Error,
    ] {
        assert_eq!(parse_sync_status(sync_status_to_str(st)), st);
    }
    assert_eq!(operation_status_to_str(&OperationStatus::Conflict), "conflict");
    assert_eq!(operation_type_to_str(OperationType::MoveItemToColumn), "MoveItemToColumn");
    assert_eq!(parse_operation_status("???"), OperationStatus::Pending);
    assert_eq!(parse_owner_type("organization"), OwnerType::Organization);
}

#[test]
fn decimals_read_back() {
    for v in [0i64, 7, -7, 1704067200000, i64::MAX, i64::MIN] {
        assert_eq!(parse_i64_decimal(&i64_to_decimal(v)), Some(v));
        assert_eq!(i64_to_decimal(v), v.to_string());
    }
    assert_eq!(parse_i64_decimal(""), None);
    assert_eq!(parse_i64_decimal("12a"), None);
    assert_eq!(parse_i64_decimal("9223372036854775808"), None);
}

#[test]
fn texts_are_searched_and_joined() {
    assert!(str_contains("API rate limit exceeded", "rate limit"));
    assert!(!str_contains("rate", "rate limit"));
    assert!(str_contains("x", ""));
    assert_eq!(join_strings(&vec!["a".to_string(), "b".to_string(), "c".to_string()], "; "), "a; b; c");
    assert_eq!(join_strings(&vec![], "; "), "");
}

#[test]
fn errors_show_their_kind() {
    let e = DomainError::RateLimitExceeded("wait".to_string());
    assert_eq!(e.variant_name(), "RateLimitExceeded");
    assert_eq!(e.to_display_string(), "Rate limit exceeded: wait");
    assert!(SyncToGitHubUseCase::is_abort_error(&e));
    assert!(SyncToGitHubUseCase::is_abort_error(&DomainError::AuthenticationError("x".to_string())));
    assert!(SyncToGitHubUseCase::is_abort_error(&DomainError::NetworkError("x".to_string())));
    assert!(!SyncToGitHubUseCase::is_abort_error(&DomainError::GitHubApiError("x".to_string())));
    assert_eq!(DomainError::NotFound("p".to_string()).to_display_string(), "Not found: p");
}

#[test]
fn a_move_the_cache_refuses_stops_the_run_with_its_error() {
    let mut s = seeded();
    let input = AppendOperationInput {
        op_type: OperationType::MoveItemToColumn,
        item_id: "T1".to_string(),
        project_id: "P1".to_string(),
        status_field_id: "F1".to_string(),
        to_option_id: "O9".to_string(),
        base_item_updated_at: 0,
        expected_from_option_id: "O1".to_string(),
    };
    s.insert_operation_with(&input, "a".to_string(), 1).unwrap();
    queue(&mut s, "T2", "b", 2);
    let (mut run, _) = SyncToGitHubUseCase::start(&mut s).unwrap();
    run.step(&mut s, SyncEvent::CurrentStatus(Ok(Some("O1".to_string()))));
    let a = run.step(&mut s, SyncEvent::StatusUpdated(Ok(())));
    assert_eq!(a, SyncAction::Finished);
    assert_eq!(status_of(&s, "a"), OperationStatus::Completed);
    assert_eq!(status_of(&s, "b"), OperationStatus::Pending);
    assert_eq!(s.get_task("T1").unwrap().unwrap().status_option_id, Some("O1".to_string()));
    let e = run.finish(&mut s).unwrap_err();
    assert_eq!(e, DomainError::PersistenceError("FOREIGN KEY constraint failed".to_string()));
}
