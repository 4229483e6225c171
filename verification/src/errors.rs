//! The error classification shared by every layer.
use vstd::prelude::*;
use crate::text::concat;

verus! {

/// An error, classified by where it came from; each carries a message.
#[derive(Debug, Clone, PartialEq)]
pub enum DomainError {
    AuthenticationError(String),
    GitHubApiError(String),
    RateLimitExceeded(String),
    PersistenceError(String),
    ConflictDetected(String),
    NotFound(String),
    InvalidInput(String),
    NetworkError(String),
}

impl DomainError {
    /// The message the error carries.
    pub open spec fn message(&self) -> Seq<char> {
        match self {
            DomainError::AuthenticationError(m) => m@,
            DomainError::GitHubApiError(m) => m@,
            DomainError::RateLimitExceeded(m) => m@,
            DomainError::PersistenceError(m) => m@,
            DomainError::ConflictDetected(m) => m@,
            DomainError::NotFound(m) => m@,
            DomainError::InvalidInput(m) => m@,
            DomainError::NetworkError(m) => m@,
        }
    }

    /// The name of the variant, as the serialised form's `type` field holds it.
    pub open spec fn kind_name(&self) -> Seq<char> {
        match self {
            DomainError::AuthenticationError(_) => "AuthenticationError"@,
            DomainError::GitHubApiError(_) => "GitHubApiError"@,
            DomainError::RateLimitExceeded(_) => "RateLimitExceeded"@,
            DomainError::PersistenceError(_) => "PersistenceError"@,
            DomainError::ConflictDetected(_) => "ConflictDetected"@,
            DomainError::NotFound(_) => "NotFound"@,
            DomainError::InvalidInput(_) => "InvalidInput"@,
            DomainError::NetworkError(_) => "NetworkError"@,
        }
    }

    /// The text put before the message when the error is shown.
    pub open spec fn display_prefix(&self) -> Seq<char> {
        match self {
            DomainError::AuthenticationError(_) => "Authentication error: "@,
            DomainError::GitHubApiError(_) => "GitHub API error: "@,
            DomainError::RateLimitExceeded(_) => "Rate limit exceeded: "@,
            DomainError::PersistenceError(_) => "Persistence error: "@,
            DomainError::ConflictDetected(_) => "Conflict detected: "@,
            DomainError::NotFound(_) => "Not found: "@,
            DomainError::InvalidInput(_) => "Invalid input: "@,
            DomainError::NetworkError(_) => "Network error: "@,
        }
    }

    /// The text the error shows: its prefix, then its message.
    pub open spec fn display_text(&self) -> Seq<char> {
        self.display_prefix() + self.message()
    }

    /// The name of the variant.
    pub fn variant_name(&self) -> (r: &'static str)
        ensures
            r@ == self.kind_name(),
    {
        match self {
            DomainError::AuthenticationError(_) => "AuthenticationError",
            DomainError::GitHubApiError(_) => "GitHubApiError",
            DomainError::RateLimitExceeded(_) => "RateLimitExceeded",
            DomainError::PersistenceError(_) => "PersistenceError",
            DomainError::ConflictDetected(_) => "ConflictDetected",
            DomainError::NotFound(_) => "NotFound",
            DomainError::InvalidInput(_) => "InvalidInput",
            DomainError::NetworkError(_) => "NetworkError",
        }
    }

    /// The message the error carries.
    pub fn message_text(&self) -> (r: &str)
        ensures
            r@ == self.message(),
    {
        match self {
            DomainError::AuthenticationError(m) => m.as_str(),
            DomainError::GitHubApiError(m) => m.as_str(),
            DomainError::RateLimitExceeded(m) => m.as_str(),
            DomainError::PersistenceError(m) => m.as_str(),
            DomainError::ConflictDetected(m) => m.as_str(),
            DomainError::NotFound(m) => m.as_str(),
            DomainError::InvalidInput(m) => m.as_str(),
            DomainError::NetworkError(m) => m.as_str(),
        }
    }

    /// The text the error shows (what its `to_string` gives).
    pub fn to_display_string(&self) -> (r: String)
        ensures
            r@ == self.display_text(),
    {
        let prefix = match self {
            DomainError::AuthenticationError(_) => "Authentication error: ",
            DomainError::GitHubApiError(_) => "GitHub API error: ",
            DomainError::RateLimitExceeded(_) => "Rate limit exceeded: ",
            DomainError::PersistenceError(_) => "Persistence error: ",
            DomainError::ConflictDetected(_) => "Conflict detected: ",
            DomainError::NotFound(_) => "Not found: ",
            DomainError::InvalidInput(_) => "Invalid input: ",
            DomainError::NetworkError(_) => "Network error: ",
        };
        concat(prefix, self.message_text())
    }

    /// A copy equal to the error.
    pub fn dup(&self) -> (r: Self)
        ensures
            r == *self,
    {
        match self {
            DomainError::AuthenticationError(m) => DomainError::AuthenticationError(m.clone()),
            DomainError::GitHubApiError(m) => DomainError::GitHubApiError(m.clone()),
            DomainError::RateLimitExceeded(m) => DomainError::RateLimitExceeded(m.clone()),
            DomainError::PersistenceError(m) => DomainError::PersistenceError(m.clone()),
            DomainError::ConflictDetected(m) => DomainError::ConflictDetected(m.clone()),
            DomainError::NotFound(m) => DomainError::NotFound(m.clone()),
            DomainError::InvalidInput(m) => DomainError::InvalidInput(m.clone()),
            DomainError::NetworkError(m) => DomainError::NetworkError(m.clone()),
        }
    }

    /// Whether the error should stop a synchronisation run and leave the
    /// operation queued: authentication failures, rate limiting and network
    /// failures.
    pub open spec fn is_abort(&self) -> bool {
        self is AuthenticationError || self is RateLimitExceeded || self is NetworkError
    }
}

} // verus!
