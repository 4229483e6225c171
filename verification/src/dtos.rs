//! The records that the cache holds and that the commands hand to the UI.
use vstd::prelude::*;

verus! {

// ============================================================
// Enums
// ============================================================

/// Who owns a project.
#[derive(Debug, Clone, Copy, PartialEq, Eq, Structural)]
pub enum OwnerType {
    Organization,
    User,
}

/// The kind of content a project item wraps.
#[derive(Debug, Clone, Copy, PartialEq, Eq, Structural)]
pub enum ContentType {
    Issue,
    DraftIssue,
    PullRequest,
}

/// The kinds of queued operation.
#[derive(Debug, Clone, Copy, PartialEq, Eq, Structural)]
pub enum OperationType {
    MoveItemToColumn,
}

/// Where a queued operation stands.
#[derive(Debug, Clone, Copy, PartialEq, Eq, Structural)]
pub enum OperationStatus {
    Pending,
    Syncing,
    Completed,
    Conflict,
    Failed,
}

/// The state of the synchroniser as the UI shows it.
#[derive(Debug, Clone, Copy, PartialEq, Eq, Structural)]
pub enum SyncStatus {
    Idle,
    Syncing,
    PausedConflict,
    PausedRateLimited,
    PausedAuthError,
    Error,
}

// ============================================================
// Records
// ============================================================

/// A cached project.
#[derive(Debug, Clone, PartialEq)]
pub struct ProjectDto {
    pub id: String,
    pub owner_type: OwnerType,
    pub owner_login: String,
    pub title: String,
    pub url: String,
    pub updated_at: Option<i64>,
    pub synced_at: Option<i64>,
}

/// A cached project item.
#[derive(Debug, Clone, PartialEq)]
pub struct TaskDto {
    pub id: String,
    pub project_id: String,
    pub content_type: ContentType,
    pub content_id: Option<String>,
    pub title: String,
    pub body: Option<String>,
    pub status_option_id: Option<String>,
    pub assignee_login: Option<String>,
    pub due_date: Option<String>,
    pub url: Option<String>,
    pub updated_at: Option<i64>,
    pub synced_at: Option<i64>,
}

/// The "Status" single-select field of a project.
#[derive(Debug, Clone, PartialEq)]
pub struct StatusFieldDto {
    pub id: String,
    pub project_id: String,
    pub name: String,
}

/// One option (one kanban column) of a status field.
#[derive(Debug, Clone, PartialEq)]
pub struct StatusOptionDto {
    pub id: String,
    pub status_field_id: String,
    pub name: String,
    pub color: Option<String>,
    pub position: i32,
}

/// What a move operation changes.
#[derive(Debug, Clone, PartialEq)]
pub struct OperationPayload {
    pub item_id: String,
    pub project_id: String,
    pub status_field_id: String,
    pub to_option_id: String,
}

/// What the item looked like when the operation was made.
#[derive(Debug, Clone, PartialEq)]
pub struct Precondition {
    pub base_item_updated_at: i64,
    pub expected_from_option_id: String,
}

/// A queued operation.
#[derive(Debug, Clone, PartialEq)]
pub struct Operation {
    pub id: String,
    pub op_type: OperationType,
    pub payload: OperationPayload,
    pub precondition: Precondition,
    pub created_at: i64,
    pub status: OperationStatus,
    pub error_message: Option<String>,
    pub resolved_at: Option<i64>,
}

/// An operation that stopped on a conflict, with the status GitHub reported.
#[derive(Debug, Clone, PartialEq)]
pub struct ConflictInfo {
    pub operation: Operation,
    pub current_option_id: String,
    pub current_option_name: String,
}

/// Everything the UI needs at start-up.
#[derive(Debug, Clone, PartialEq)]
pub struct BootstrapResponse {
    pub projects: Vec<ProjectDto>,
    pub status_fields: Vec<StatusFieldDto>,
    pub status_options: Vec<StatusOptionDto>,
    pub tasks: Vec<TaskDto>,
    pub pending_operations: Vec<Operation>,
    pub conflicts: Vec<ConflictInfo>,
    pub current_user_login: String,
}

/// Everything the UI needs to show one project.
#[derive(Debug, Clone, PartialEq)]
pub struct ProjectBootstrapResponse {
    pub project: ProjectDto,
    pub status_field: Option<StatusFieldDto>,
    pub status_options: Vec<StatusOptionDto>,
    pub tasks: Vec<TaskDto>,
    pub pending_operations: Vec<Operation>,
    pub conflicts: Vec<ConflictInfo>,
}

/// The synchroniser's state.
#[derive(Debug, Clone, PartialEq)]
pub struct SyncState {
    pub status: SyncStatus,
    pub pending_count: i32,
    pub conflict_count: i32,
    pub rate_limit_reset_at: Option<i64>,
    pub last_error: Option<String>,
    pub last_sync_attempt_at: Option<i64>,
    pub last_sync_success_at: Option<i64>,
}

/// An operation that GitHub refused, with the error text.
#[derive(Debug, Clone, PartialEq)]
pub struct SyncResultFailure {
    pub operation: Operation,
    pub error: String,
}

/// What one synchronisation run did.
#[derive(Debug, Clone, PartialEq)]
pub struct SyncResult {
    pub completed: Vec<Operation>,
    pub failed: Vec<SyncResultFailure>,
    pub conflicts: Vec<ConflictInfo>,
    pub state: SyncState,
}

/// A request to queue a move.
#[derive(Debug, Clone, PartialEq)]
pub struct AppendOperationInput {
    pub op_type: OperationType,
    pub item_id: String,
    pub project_id: String,
    pub status_field_id: String,
    pub to_option_id: String,
    pub base_item_updated_at: i64,
    pub expected_from_option_id: String,
}

/// One project as read from GitHub: the project, its status field and options,
/// and its items.
#[derive(Debug, Clone, PartialEq)]
pub struct GitHubProjectData {
    pub project: ProjectDto,
    pub status_field: Option<StatusFieldDto>,
    pub status_options: Vec<StatusOptionDto>,
    pub tasks: Vec<TaskDto>,
}

// ============================================================
// Copies with a stated result
// ============================================================

/// A copy of an optional string.
pub fn dup_opt_string(o: &Option<String>) -> (r: Option<String>)
    ensures
        r == *o,
{
    match o {
        Some(s) => Some(s.clone()),
        None => None,
    }
}

impl ProjectDto {
    /// A field-by-field copy.
    pub fn dup(&self) -> (r: Self)
        ensures
            r == *self,
    {
        ProjectDto {
            id: self.id.clone(),
            owner_type: self.owner_type,
            owner_login: self.owner_login.clone(),
            title: self.title.clone(),
            url: self.url.clone(),
            updated_at: self.updated_at,
            synced_at: self.synced_at,
        }
    }
}

impl TaskDto {
    /// A field-by-field copy.
    pub fn dup(&self) -> (r: Self)
        ensures
            r == *self,
    {
        TaskDto {
            id: self.id.clone(),
            project_id: self.project_id.clone(),
            content_type: self.content_type,
            content_id: dup_opt_string(&self.content_id),
            title: self.title.clone(),
            body: dup_opt_string(&self.body),
            status_option_id: dup_opt_string(&self.status_option_id),
            assignee_login: dup_opt_string(&self.assignee_login),
            due_date: dup_opt_string(&self.due_date),
            url: dup_opt_string(&self.url),
            updated_at: self.updated_at,
            synced_at: self.synced_at,
        }
    }
}

impl StatusFieldDto {
    /// A field-by-field copy.
    pub fn dup(&self) -> (r: Self)
        ensures
            r == *self,
    {
        StatusFieldDto {
            id: self.id.clone(),
            project_id: self.project_id.clone(),
            name: self.name.clone(),
        }
    }
}

impl StatusOptionDto {
    /// A field-by-field copy.
    pub fn dup(&self) -> (r: Self)
        ensures
            r == *self,
    {
        StatusOptionDto {
            id: self.id.clone(),
            status_field_id: self.status_field_id.clone(),
            name: self.name.clone(),
            color: dup_opt_string(&self.color),
            position: self.position,
        }
    }
}

impl Operation {
    /// A field-by-field copy.
    pub fn dup(&self) -> (r: Self)
        ensures
            r == *self,
    {
        Operation {
            id: self.id.clone(),
            op_type: self.op_type,
            payload: OperationPayload {
                item_id: self.payload.item_id.clone(),
                project_id: self.payload.project_id.clone(),
                status_field_id: self.payload.status_field_id.clone(),
                to_option_id: self.payload.to_option_id.clone(),
            },
            precondition: Precondition {
                base_item_updated_at: self.precondition.base_item_updated_at,
                expected_from_option_id: self.precondition.expected_from_option_id.clone(),
            },
            created_at: self.created_at,
            status: self.status,
            error_message: dup_opt_string(&self.error_message),
            resolved_at: self.resolved_at,
        }
    }
}

} // verus!
