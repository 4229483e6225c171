//! What a GitHub GraphQL reply means, and how the pages of a project's items
//! are put together. The requests themselves are sent by the caller.
use vstd::prelude::*;
use crate::dtos::{GitHubProjectData, StatusFieldDto, StatusOptionDto, TaskDto, ProjectDto};
use crate::errors::DomainError;
use crate::json::{JsonValue, as_array, as_text, get, json_array, json_get, json_str};
use crate::text::{concat, has_substring, i64_to_decimal, int_decimal, join_strings, joined, str_contains, string_of};

verus! {

broadcast use vstd::seq_lib::group_seq_properties;

// ============================================================
// The HTTP status
// ============================================================

/// How a reply is read, by its HTTP status.
#[derive(Debug, Clone, Copy, PartialEq, Eq, Structural)]
pub enum ResponsePlan {
    /// 401: the token is refused; the body is not read.
    Unauthorized,
    /// 403: the JSON body says whether a rate limit was hit.
    Forbidden,
    /// Another status outside 200..=299: the body is read as text.
    HttpError,
    /// A success: the JSON body is the GraphQL reply.
    Success,
}

/// How a reply with HTTP status `status` is read.
pub open spec fn plan_of(status: u16) -> ResponsePlan {
    if status == 401 {
        ResponsePlan::Unauthorized
    } else if status == 403 {
        ResponsePlan::Forbidden
    } else if !(200 <= status <= 299) {
        ResponsePlan::HttpError
    } else {
        ResponsePlan::Success
    }
}

/// How a reply with HTTP status `status` is read.
pub fn response_plan(status: u16) -> (r: ResponsePlan)
    ensures
        r == plan_of(status),
{
    if status == 401 {
        ResponsePlan::Unauthorized
    } else if status == 403 {
        ResponsePlan::Forbidden
    } else if status < 200 || status > 299 {
        ResponsePlan::HttpError
    } else {
        ResponsePlan::Success
    }
}

/// The error of a refused token.
pub fn unauthorized_error() -> (e: DomainError)
    ensures
        e is AuthenticationError,
        e.message() == "Invalid or expired PAT"@,
{
    DomainError::AuthenticationError(string_of("Invalid or expired PAT"))
}

/// A 403 reply's message names a rate limit.
pub open spec fn names_rate_limit(message: Seq<char>) -> bool {
    has_substring(message, "rate limit"@) || has_substring(message, "API rate limit"@)
}

/// `e` is the error of a 403 reply whose JSON body is `body`, shown as
/// `rendered`.
pub open spec fn forbidden_reply(body: JsonValue, rendered: Seq<char>, e: DomainError) -> bool {
    match as_text(get(Some(body), "message"@)) {
        Some(m) => if names_rate_limit(m) {
            e is RateLimitExceeded && e.message() == m
        } else {
            e is GitHubApiError && e.message() == "Forbidden: "@ + rendered
        },
        None => e is GitHubApiError && e.message() == "Forbidden: "@ + rendered,
    }
}

/// The error of a 403 reply whose JSON body is `body`; `rendered` is the body
/// as the error shows it. A `message` that names a rate limit makes it a rate
/// limit error carrying that message; anything else is a refusal.
pub fn forbidden_error(body: &JsonValue, rendered: &str) -> (e: DomainError)
    ensures
        forbidden_reply(*body, rendered@, e),
{
    match json_str(json_get(Some(body), "message")) {
        Some(m) => {
            if str_contains(m, "rate limit") || str_contains(m, "API rate limit") {
                return DomainError::RateLimitExceeded(string_of(m));
            }
        },
        None => {},
    }
    DomainError::GitHubApiError(concat("Forbidden: ", rendered))
}

/// The error of a reply with a status that is neither a success, 401 nor
/// 403: the status and the body's text, or "Unknown error" when the body
/// could not be read.
pub fn http_error(status: u16, body: Option<&str>) -> (e: DomainError)
    ensures
        e is GitHubApiError,
        e.message() == "HTTP "@ + int_decimal(status as int) + ": "@ + match body {
            Some(b) => b@,
            None => "Unknown error"@,
        },
{
    let code = i64_to_decimal(status as i64);
    let head = concat("HTTP ", code.as_str());
    let head = concat(head.as_str(), ": ");
    let text = match body {
        Some(b) => concat(head.as_str(), b),
        None => concat(head.as_str(), "Unknown error"),
    };
    DomainError::GitHubApiError(text)
}

// ============================================================
// GraphQL errors
// ============================================================

/// The messages of GraphQL error objects that carry one, in order.
pub open spec fn error_messages(errors: Seq<JsonValue>) -> Seq<Seq<char>>
    decreases errors.len(),
{
    if errors.len() == 0 {
        Seq::empty()
    } else {
        let rest = error_messages(errors.drop_last());
        match as_text(get(Some(errors.last()), "message"@)) {
            Some(m) => rest.push(m),
            None => rest,
        }
    }
}

/// A successful reply: the reply itself, unless it lists GraphQL errors, in
/// which case their messages joined by "; ".
pub fn graphql_result(reply: JsonValue) -> (r: Result<JsonValue, DomainError>)
    ensures
        match as_array(get(Some(reply), "errors"@)) {
            Some(errors) if errors.len() > 0 => r matches Err(e)
                && e is GitHubApiError
                && e.message() == joined(error_messages(errors), "; "@),
            _ => r == Ok::<JsonValue, DomainError>(reply),
        },
{
    let mut messages: Vec<String> = Vec::new();
    let mut failed = false;
    match json_array(json_get(Some(&reply), "errors")) {
        Some(errors) => {
            if errors.len() > 0 {
                failed = true;
                let mut i: usize = 0;
                while i < errors.len()
                    invariant
                        i <= errors.len(),
                        messages@.map_values(|s: String| s@) == error_messages(errors@.take(i as int)),
                    decreases errors.len() - i,
                {
                    assert(errors@.take(i + 1).drop_last() =~= errors@.take(i as int));
                    match json_str(json_get(Some(&errors[i]), "message")) {
                        Some(m) => {
                            messages.push(string_of(m));
                        },
                        None => {},
                    }
                    assert(messages@.map_values(|s: String| s@) =~= error_messages(errors@.take(i + 1)));
                    i = i + 1;
                }
                assert(errors@.take(errors.len() as int) =~= errors@);
            }
        },
        None => {},
    }
    if failed {
        Err(DomainError::GitHubApiError(join_strings(&messages, "; ")))
    } else {
        Ok(reply)
    }
}

// ============================================================
// The pages of a project's items
// ============================================================

/// The pages of a project's items read so far: the project, its status field
/// and options as the first page gave them, and the tasks of every page.
pub struct ProjectItemsPages {
    first: Option<GitHubProjectData>,
    tasks: Vec<TaskDto>,
}

impl ProjectItemsPages {
    /// The first page, if one was read; its tasks are not kept there.
    pub closed spec fn first(&self) -> Option<GitHubProjectData> {
        self.first
    }

    /// The tasks of the pages read, in page order.
    pub closed spec fn tasks(&self) -> Seq<TaskDto> {
        self.tasks@
    }

    /// No page read yet.
    pub fn new() -> (r: ProjectItemsPages)
        ensures
            r.first() is None,
            r.tasks() == Seq::<TaskDto>::empty(),
    {
        ProjectItemsPages { first: None, tasks: Vec::new() }
    }

    /// Takes in the next page, read with the cursor of the page after it;
    /// returns the cursor to request next, or nothing when that page was the
    /// last.
    pub fn add_page(&mut self, page: GitHubProjectData, cursor: Option<String>) -> (next: Option<String>)
        ensures
            next == cursor,
            final(self).tasks() == old(self).tasks() + page.tasks@,
            match old(self).first() {
                Some(f) => final(self).first() == Some(f),
                None => final(self).first() matches Some(f)
                    && f.project == page.project
                    && f.status_field == page.status_field
                    && f.status_options@ == page.status_options@
                    && f.tasks@.len() == 0,
            },
    {
        let GitHubProjectData { project, status_field, status_options, tasks } = page;
        let mut tasks = tasks;
        self.tasks.append(&mut tasks);
        if self.first.is_none() {
            self.first = Some(GitHubProjectData { project, status_field, status_options, tasks: Vec::new() });
        }
        cursor
    }

    /// The project with the tasks of every page; nothing when no page was
    /// read.
    pub fn finish(self) -> (r: Option<GitHubProjectData>)
        ensures
            match self.first() {
                Some(f) => r matches Some(d)
                    && d.project == f.project
                    && d.status_field == f.status_field
                    && d.status_options@ == f.status_options@
                    && d.tasks@ == self.tasks(),
                None => r is None,
            },
    {
        match self.first {
            Some(f) => {
                let GitHubProjectData { project, status_field, status_options, tasks: _ } = f;
                Some(GitHubProjectData { project, status_field, status_options, tasks: self.tasks })
            },
            None => None,
        }
    }
}


// ============================================================
// The pages of the viewer's projects
// ============================================================

/// The projects read so far, in page order.
pub struct ProjectPages {
    projects: Vec<ProjectDto>,
}

impl ProjectPages {
    /// The projects of the pages read.
    pub closed spec fn projects(&self) -> Seq<ProjectDto> {
        self.projects@
    }

    /// No page read yet.
    pub fn new() -> (r: ProjectPages)
        ensures
            r.projects() == Seq::<ProjectDto>::empty(),
    {
        ProjectPages { projects: Vec::new() }
    }

    /// Takes in the next page, read with the cursor of the page after it;
    /// returns the cursor to request next, or nothing when that page was the
    /// last.
    pub fn add_page(&mut self, page: Vec<ProjectDto>, cursor: Option<String>) -> (next: Option<String>)
        ensures
            next == cursor,
            final(self).projects() == old(self).projects() + page@,
    {
        let mut page = page;
        self.projects.append(&mut page);
        cursor
    }

    /// The projects of every page, in order.
    pub fn finish(self) -> (r: Vec<ProjectDto>)
        ensures
            r@ == self.projects(),
    {
        self.projects
    }
}

} // verus!
