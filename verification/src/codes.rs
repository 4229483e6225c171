//! The text codes that the enums take in storage and on the wire.
use vstd::prelude::*;
use crate::dtos::{ContentType, OperationStatus, OperationType, OwnerType, SyncStatus};
use crate::text::str_eq;

verus! {

// ------------------------------------------------------------------
// OwnerType
// ------------------------------------------------------------------

/// The stored code of an owner type.
pub open spec fn owner_type_code(t: OwnerType) -> Seq<char> {
    match t {
        OwnerType::Organization => "organization"@,
        OwnerType::User => "user"@,
    }
}

/// Reading an owner type: `"organization"`, and anything else is a user.
pub open spec fn owner_type_of(s: Seq<char>) -> OwnerType {
    if s == "organization"@ {
        OwnerType::Organization
    } else {
        OwnerType::User
    }
}

/// The stored code of an owner type.
pub fn owner_type_to_str(t: OwnerType) -> (r: &'static str)
    ensures
        r@ == owner_type_code(t),
{
    match t {
        OwnerType::Organization => "organization",
        OwnerType::User => "user",
    }
}

/// Reads a stored owner type; unknown codes read as a user.
pub fn parse_owner_type(s: &str) -> (r: OwnerType)
    ensures
        r == owner_type_of(s@),
{
    if str_eq(s, "organization") {
        OwnerType::Organization
    } else {
        OwnerType::User
    }
}

/// Reading back the code of an owner type gives that owner type.
pub proof fn lemma_owner_type_roundtrip(t: OwnerType)
    ensures
        owner_type_of(owner_type_code(t)) == t,
{
    reveal_strlit("organization");
    reveal_strlit("user");
    if t == OwnerType::User {
        assert(owner_type_code(t)[0] != "organization"@[0]);
    }
}

// ------------------------------------------------------------------
// ContentType
// ------------------------------------------------------------------

/// The stored code of a content type.
pub open spec fn content_type_code(t: ContentType) -> Seq<char> {
    match t {
        ContentType::Issue => "Issue"@,
        ContentType::DraftIssue => "DraftIssue"@,
        ContentType::PullRequest => "PullRequest"@,
    }
}

/// Reading a content type; unknown codes read as an issue.
pub open spec fn content_type_of(s: Seq<char>) -> ContentType {
    if s == "DraftIssue"@ {
        ContentType::DraftIssue
    } else if s == "PullRequest"@ {
        ContentType::PullRequest
    } else {
        ContentType::Issue
    }
}

/// The stored code of a content type.
pub fn content_type_to_str(t: ContentType) -> (r: &'static str)
    ensures
        r@ == content_type_code(t),
{
    match t {
        ContentType::Issue => "Issue",
        ContentType::DraftIssue => "DraftIssue",
        ContentType::PullRequest => "PullRequest",
    }
}

/// Reads a stored content type; unknown codes read as an issue.
pub fn parse_content_type(s: &str) -> (r: ContentType)
    ensures
        r == content_type_of(s@),
{
    if str_eq(s, "DraftIssue") {
        ContentType::DraftIssue
    } else if str_eq(s, "PullRequest") {
        ContentType::PullRequest
    } else {
        ContentType::Issue
    }
}

/// Reading back the code of a content type gives that content type.
pub proof fn lemma_content_type_roundtrip(t: ContentType)
    ensures
        content_type_of(content_type_code(t)) == t,
{
    reveal_strlit("Issue");
    reveal_strlit("DraftIssue");
    reveal_strlit("PullRequest");
    assert("Issue"@ != "DraftIssue"@ && "Issue"@ != "PullRequest"@ && "DraftIssue"@
        != "PullRequest"@) by {
        assert("Issue"@.len() != "DraftIssue"@.len());
        assert("Issue"@.len() != "PullRequest"@.len());
        assert("DraftIssue"@[0] != "PullRequest"@[0]);
    }
}

// ------------------------------------------------------------------
// OperationType
// ------------------------------------------------------------------

/// The stored code of an operation type.
pub open spec fn operation_type_code(t: OperationType) -> Seq<char> {
    match t {
        OperationType::MoveItemToColumn => "MoveItemToColumn"@,
    }
}

/// The stored code of an operation type.
pub fn operation_type_to_str(t: OperationType) -> (r: &'static str)
    ensures
        r@ == operation_type_code(t),
{
    match t {
        OperationType::MoveItemToColumn => "MoveItemToColumn",
    }
}

// ------------------------------------------------------------------
// OperationStatus
// ------------------------------------------------------------------

/// The stored code of an operation status.
pub open spec fn operation_status_code(s: OperationStatus) -> Seq<char> {
    match s {
        OperationStatus::Pending => "pending"@,
        OperationStatus::Syncing => "syncing"@,
        OperationStatus::Completed => "completed"@,
        OperationStatus::Conflict => "conflict"@,
        OperationStatus::Failed => "failed"@,
    }
}

/// Reading an operation status; unknown codes read as pending.
pub open spec fn operation_status_of(s: Seq<char>) -> OperationStatus {
    if s == "syncing"@ {
        OperationStatus::Syncing
    } else if s == "completed"@ {
        OperationStatus::Completed
    } else if s == "conflict"@ {
        OperationStatus::Conflict
    } else if s == "failed"@ {
        OperationStatus::Failed
    } else {
        OperationStatus::Pending
    }
}

/// The stored code of an operation status.
pub fn operation_status_to_str(s: &OperationStatus) -> (r: &'static str)
    ensures
        r@ == operation_status_code(*s),
{
    match s {
        OperationStatus::Pending => "pending",
        OperationStatus::Syncing => "syncing",
        OperationStatus::Completed => "completed",
        OperationStatus::Conflict => "conflict",
        OperationStatus::Failed => "failed",
    }
}

/// Reads a stored operation status; unknown codes read as pending.
pub fn parse_operation_status(s: &str) -> (r: OperationStatus)
    ensures
        r == operation_status_of(s@),
{
    if str_eq(s, "syncing") {
        OperationStatus::Syncing
    } else if str_eq(s, "completed") {
        OperationStatus::Completed
    } else if str_eq(s, "conflict") {
        OperationStatus::Conflict
    } else if str_eq(s, "failed") {
        OperationStatus::Failed
    } else {
        OperationStatus::Pending
    }
}

/// Reading back the code of an operation status gives that status.
pub proof fn lemma_operation_status_roundtrip(s: OperationStatus)
    ensures
        operation_status_of(operation_status_code(s)) == s,
{
    reveal_strlit("pending");
    reveal_strlit("syncing");
    reveal_strlit("completed");
    reveal_strlit("conflict");
    reveal_strlit("failed");
    assert("pending"@ != "syncing"@ && "pending"@ != "completed"@ && "pending"@ != "conflict"@
        && "pending"@ != "failed"@) by {
        assert("pending"@[0] != "syncing"@[0]);
        assert("pending"@[0] != "completed"@[0]);
        assert("pending"@[0] != "conflict"@[0]);
        assert("pending"@[0] != "failed"@[0]);
    }
    assert("syncing"@ != "completed"@ && "syncing"@ != "conflict"@ && "syncing"@ != "failed"@)
        by {
        assert("syncing"@[0] != "completed"@[0]);
        assert("syncing"@[0] != "conflict"@[0]);
        assert("syncing"@[0] != "failed"@[0]);
    }
    assert("completed"@ != "conflict"@ && "completed"@ != "failed"@) by {
        assert("completed"@[2] != "conflict"@[2]);
        assert("completed"@[0] != "failed"@[0]);
    }
    assert("conflict"@ != "failed"@) by {
        assert("conflict"@[0] != "failed"@[0]);
    }
}

// ------------------------------------------------------------------
// SyncStatus
// ------------------------------------------------------------------

/// The wire code of a synchroniser status.
pub open spec fn sync_status_code(s: SyncStatus) -> Seq<char> {
    match s {
        SyncStatus::Idle => "idle"@,
        SyncStatus::Syncing => "syncing"@,
        SyncStatus::PausedConflict => "paused_conflict"@,
        SyncStatus::PausedRateLimited => "paused_rate_limited"@,
        SyncStatus::PausedAuthError => "paused_auth_error"@,
        SyncStatus::Error => "error"@,
    }
}

/// Reading a synchroniser status; unknown codes read as idle.
pub open spec fn sync_status_of(s: Seq<char>) -> SyncStatus {
    if s == "syncing"@ {
        SyncStatus::Syncing
    } else if s == "paused_conflict"@ {
        SyncStatus::PausedConflict
    } else if s == "paused_rate_limited"@ {
        SyncStatus::PausedRateLimited
    } else if s == "paused_auth_error"@ {
        SyncStatus::PausedAuthError
    } else if s == "error"@ {
        SyncStatus::Error
    } else {
        SyncStatus::Idle
    }
}

/// The wire code of a synchroniser status.
pub fn sync_status_to_str(s: SyncStatus) -> (r: &'static str)
    ensures
        r@ == sync_status_code(s),
{
    match s {
        SyncStatus::Idle => "idle",
        SyncStatus::Syncing => "syncing",
        SyncStatus::PausedConflict => "paused_conflict",
        SyncStatus::PausedRateLimited => "paused_rate_limited",
        SyncStatus::PausedAuthError => "paused_auth_error",
        SyncStatus::Error => "error",
    }
}

/// Reads a synchroniser status; unknown codes read as idle.
pub fn parse_sync_status(s: &str) -> (r: SyncStatus)
    ensures
        r == sync_status_of(s@),
{
    if str_eq(s, "syncing") {
        SyncStatus::Syncing
    } else if str_eq(s, "paused_conflict") {
        SyncStatus::PausedConflict
    } else if str_eq(s, "paused_rate_limited") {
        SyncStatus::PausedRateLimited
    } else if str_eq(s, "paused_auth_error") {
        SyncStatus::PausedAuthError
    } else if str_eq(s, "error") {
        SyncStatus::Error
    } else {
        SyncStatus::Idle
    }
}

/// Reading back the code of a synchroniser status gives that status.
pub proof fn lemma_sync_status_roundtrip(s: SyncStatus)
    ensures
        sync_status_of(sync_status_code(s)) == s,
{
    reveal_strlit("idle");
    reveal_strlit("syncing");
    reveal_strlit("paused_conflict");
    reveal_strlit("paused_rate_limited");
    reveal_strlit("paused_auth_error");
    reveal_strlit("error");
    assert("idle"@[0] != "syncing"@[0]);
    assert("idle"@[0] != "paused_conflict"@[0]);
    assert("idle"@[0] != "paused_rate_limited"@[0]);
    assert("idle"@[0] != "paused_auth_error"@[0]);
    assert("idle"@[0] != "error"@[0]);
    assert("syncing"@[0] != "paused_conflict"@[0]);
    assert("syncing"@[0] != "paused_rate_limited"@[0]);
    assert("syncing"@[0] != "paused_auth_error"@[0]);
    assert("syncing"@[0] != "error"@[0]);
    assert("paused_conflict"@[7] != "paused_rate_limited"@[7]);
    assert("paused_conflict"@[7] != "paused_auth_error"@[7]);
    assert("paused_conflict"@[0] != "error"@[0]);
    assert("paused_rate_limited"@[7] != "paused_auth_error"@[7]);
    assert("paused_rate_limited"@[0] != "error"@[0]);
    assert("paused_auth_error"@[0] != "error"@[0]);
}

} // verus!
