//! Reading the records of the cache out of GitHub GraphQL responses.
//!
//! A missing or mistyped member reads as empty text (or as nothing where the
//! record's field is optional); only a missing list of nodes is an error.
use vstd::prelude::*;
use crate::clock::{rfc3339_epoch_ms, rfc3339_to_epoch_ms, now_epoch_ms};
use crate::dtos::{ContentType, GitHubProjectData, OwnerType, ProjectDto, StatusFieldDto, StatusOptionDto, TaskDto};
use crate::errors::DomainError;
use crate::json::{JsonValue, as_array, as_bool, as_text, deref, get, json_array, json_bool, json_get, json_str, json_string, json_string_or_empty, text_or_empty};
use crate::store::opt_text;
use crate::text::{str_eq, string_of, concat};

verus! {

broadcast use vstd::seq_lib::group_seq_properties;

// ============================================================
// What a response says
// ============================================================

/// The time an RFC 3339 text member denotes, in milliseconds since the epoch.
pub open spec fn time_of(v: Option<JsonValue>) -> Option<i64> {
    match as_text(v) {
        Some(t) => rfc3339_epoch_ms(t),
        None => None,
    }
}

/// The owner of a project node: an organization when its `__typename` says
/// so, a user otherwise; and its login.
pub open spec fn owner_type_of(owner: Option<JsonValue>) -> OwnerType {
    if as_text(get(owner, "__typename"@)) == Some("Organization"@) {
        OwnerType::Organization
    } else {
        OwnerType::User
    }
}

/// The cursor of the next page: the `endCursor` of `pageInfo` when
/// `hasNextPage` is true.
pub open spec fn next_cursor(listing: Option<JsonValue>) -> Option<Seq<char>> {
    let info = get(listing, "pageInfo"@);
    if as_bool(get(info, "hasNextPage"@)) == Some(true) {
        as_text(get(info, "endCursor"@))
    } else {
        None
    }
}

/// `p` is the project that `node` describes, owned as given, read at `now`.
pub open spec fn project_of_node(
    p: ProjectDto,
    node: Option<JsonValue>,
    owner_type: OwnerType,
    owner_login: Seq<char>,
    now: i64,
) -> bool {
    &&& p.id@ == text_or_empty(get(node, "id"@))
    &&& p.owner_type == owner_type
    &&& p.owner_login@ == owner_login
    &&& p.title@ == text_or_empty(get(node, "title"@))
    &&& p.url@ == text_or_empty(get(node, "url"@))
    &&& p.updated_at == time_of(get(node, "updatedAt"@))
    &&& p.synced_at == Some(now)
}

/// `p` is the project `node` describes, with the owner the node names.
pub open spec fn viewer_project_of(p: ProjectDto, node: JsonValue, now: i64) -> bool {
    let owner = get(Some(node), "owner"@);
    project_of_node(p, Some(node), owner_type_of(owner), text_or_empty(get(owner, "login"@)), now)
}

/// `ps` are the projects of the nodes, one for each, in order; owned by the
/// organization `org` where one is given, else as each node says.
pub open spec fn projects_of_nodes(ps: Seq<ProjectDto>, nodes: Seq<JsonValue>, org: Option<Seq<char>>, now: i64) -> bool {
    &&& ps.len() == nodes.len()
    &&& forall|i: int| 0 <= i < nodes.len() ==> match org {
        Some(login) => project_of_node(#[trigger] ps[i], Some(nodes[i]), OwnerType::Organization, login, now),
        None => viewer_project_of(#[trigger] ps[i], nodes[i], now),
    }
}

/// `r` is a page of projects read from the listing `listing`: the error
/// `message` when it has no list of nodes.
pub open spec fn projects_page(
    r: Result<(Vec<ProjectDto>, Option<String>), DomainError>,
    listing: Option<JsonValue>,
    org: Option<Seq<char>>,
    now: i64,
    message: Seq<char>,
) -> bool {
    match as_array(get(listing, "nodes"@)) {
        Some(nodes) => match r {
            Ok((ps, cursor)) => projects_of_nodes(ps@, nodes, org, now) && opt_text(cursor) == next_cursor(listing),
            Err(_) => false,
        },
        None => match r {
            Ok(_) => false,
            Err(e) => e is GitHubApiError && e.message() == message,
        },
    }
}

/// `response.data.viewer`.
pub open spec fn viewer_of(response: JsonValue) -> Option<JsonValue> {
    get(get(Some(response), "data"@), "viewer"@)
}

/// The logins that the organization nodes carry, in order; nodes without one
/// are passed over.
pub open spec fn logins_of(nodes: Seq<JsonValue>) -> Seq<Seq<char>>
    decreases nodes.len(),
{
    if nodes.len() == 0 {
        Seq::empty()
    } else {
        let rest = logins_of(nodes.drop_last());
        match as_text(get(Some(nodes.last()), "login"@)) {
            Some(l) => rest.push(l),
            None => rest,
        }
    }
}

// ============================================================
// Reading members
// ============================================================

/// A member's text, or the empty text.
fn text_member(v: Option<&JsonValue>, key: &str) -> (r: String)
    ensures
        r@ == text_or_empty(get(deref(v), key@)),
{
    json_string_or_empty(json_get(v, key))
}

/// A member's text, if it is text.
fn opt_text_member(v: Option<&JsonValue>, key: &str) -> (r: Option<String>)
    ensures
        opt_text(r) == as_text(get(deref(v), key@)),
{
    json_string(json_get(v, key))
}

/// Milliseconds since the epoch of an RFC 3339 text; nothing when there is no
/// text or chrono does not accept it.
pub fn parse_datetime_to_epoch_ms(datetime_str: Option<&str>) -> (r: Option<i64>)
    ensures
        r == match datetime_str {
            Some(s) => rfc3339_epoch_ms(s@),
            None => None,
        },
{
    match datetime_str {
        Some(s) => rfc3339_to_epoch_ms(s),
        None => None,
    }
}

/// The time a member denotes.
fn time_member(v: Option<&JsonValue>, key: &str) -> (r: Option<i64>)
    ensures
        r == time_of(get(deref(v), key@)),
{
    parse_datetime_to_epoch_ms(json_str(json_get(v, key)))
}

/// The kind and login of a project's owner.
pub fn extract_owner(owner: Option<&JsonValue>) -> (r: (OwnerType, String))
    ensures
        r.0 == owner_type_of(deref(owner)),
        r.1@ == text_or_empty(get(deref(owner), "login"@)),
{
    let typename = json_str(json_get(owner, "__typename"));
    let owner_type = match typename {
        Some(t) => if str_eq(t, "Organization") {
            OwnerType::Organization
        } else {
            OwnerType::User
        },
        None => OwnerType::User,
    };
    (owner_type, text_member(owner, "login"))
}

/// The cursor of the next page of a listing.
fn page_cursor(listing: Option<&JsonValue>) -> (r: Option<String>)
    ensures
        opt_text(r) == next_cursor(deref(listing)),
{
    let info = json_get(listing, "pageInfo");
    match json_bool(json_get(info, "hasNextPage")) {
        Some(true) => opt_text_member(info, "endCursor"),
        _ => None,
    }
}

/// The projects of a listing, read at `now`, owned by `org` where one is
/// given; `message` is the error when the listing has no nodes.
fn projects_from_listing(
    listing: Option<&JsonValue>,
    org: Option<&str>,
    now: i64,
    message: &str,
) -> (r: Result<(Vec<ProjectDto>, Option<String>), DomainError>)
    ensures
        projects_page(
            r,
            deref(listing),
            match org {
                Some(o) => Some(o@),
                None => None,
            },
            now,
            message@,
        ),
{
    let ghost org_text = match org {
        Some(o) => Some(o@),
        None => None::<Seq<char>>,
    };
    let nodes = match json_array(json_get(listing, "nodes")) {
        Some(n) => n,
        None => {
            return Err(DomainError::GitHubApiError(string_of(message)));
        },
    };
    let mut projects: Vec<ProjectDto> = Vec::new();
    let mut i: usize = 0;
    while i < nodes.len()
        invariant
            i <= nodes.len(),
            projects@.len() == i,
            org_text == match org {
                Some(o) => Some(o@),
                None => None::<Seq<char>>,
            },
            forall|k: int| 0 <= k < i ==> match org_text {
                Some(login) => project_of_node(#[trigger] projects@[k], Some(nodes@[k]), OwnerType::Organization, login, now),
                None => viewer_project_of(#[trigger] projects@[k], nodes@[k], now),
            },
        decreases nodes.len() - i,
    {
        let node = Some(&nodes[i]);
        let id = text_member(node, "id");
        let title = text_member(node, "title");
        let url = text_member(node, "url");
        let updated_at = time_member(node, "updatedAt");
        let (owner_type, owner_login) = match org {
            Some(o) => (OwnerType::Organization, string_of(o)),
            None => extract_owner(json_get(node, "owner")),
        };
        projects.push(ProjectDto { id, owner_type, owner_login, title, url, updated_at, synced_at: Some(now) });
        i = i + 1;
    }
    let cursor = page_cursor(listing);
    Ok((projects, cursor))
}

// ============================================================
// The extractions
// ============================================================

/// The login of the authenticated user (`data.viewer.login`).
pub fn extract_viewer_login(response: &JsonValue) -> (r: Result<String, DomainError>)
    ensures
        match as_text(get(viewer_of(*response), "login"@)) {
            Some(l) => r matches Ok(s) && s@ == l,
            None => r matches Err(e) && e is GitHubApiError && e.message() == "Failed to extract viewer login"@,
        },
{
    let viewer = json_get(json_get(Some(response), "data"), "viewer");
    match json_string(json_get(viewer, "login")) {
        Some(s) => Ok(s),
        None => Err(DomainError::GitHubApiError(string_of("Failed to extract viewer login"))),
    }
}

/// The projects the viewer can reach, from one page of
/// `data.viewer.projectsV2`, stamped as synced at `now`, with the cursor of
/// the next page.
pub fn extract_viewer_projects_at(response: &JsonValue, now: i64) -> (r: Result<(Vec<ProjectDto>, Option<String>), DomainError>)
    ensures
        projects_page(r, get(viewer_of(*response), "projectsV2"@), None, now, "Failed to parse projects nodes"@),
{
    let viewer = json_get(json_get(Some(response), "data"), "viewer");
    projects_from_listing(json_get(viewer, "projectsV2"), None, now, "Failed to parse projects nodes")
}

/// [`extract_viewer_projects_at`], stamped with the current time.
pub fn extract_viewer_projects(response: &JsonValue) -> (r: Result<(Vec<ProjectDto>, Option<String>), DomainError>)
    ensures
        exists|now: i64| #[trigger] projects_page(r, get(viewer_of(*response), "projectsV2"@), None, now, "Failed to parse projects nodes"@),
{
    let now = now_epoch_ms();
    extract_viewer_projects_at(response, now)
}

/// The logins of the viewer's organizations, from one page of
/// `data.viewer.organizations`, with the cursor of the next page.
pub fn extract_viewer_organizations(response: &JsonValue) -> (r: Result<(Vec<String>, Option<String>), DomainError>)
    ensures
        ({
            let listing = get(viewer_of(*response), "organizations"@);
            match as_array(get(listing, "nodes"@)) {
                Some(nodes) => r matches Ok((logins, cursor))
                    && logins@.map_values(|s: String| s@) == logins_of(nodes)
                    && opt_text(cursor) == next_cursor(listing),
                None => r matches Err(e) && e is GitHubApiError && e.message() == "Failed to parse organizations nodes"@,
            }
        }),
{
    let viewer = json_get(json_get(Some(response), "data"), "viewer");
    let listing = json_get(viewer, "organizations");
    let nodes = match json_array(json_get(listing, "nodes")) {
        Some(n) => n,
        None => {
            return Err(DomainError::GitHubApiError(string_of("Failed to parse organizations nodes")));
        },
    };
    let mut logins: Vec<String> = Vec::new();
    let mut i: usize = 0;
    while i < nodes.len()
        invariant
            i <= nodes.len(),
            logins@.map_values(|s: String| s@) == logins_of(nodes@.take(i as int)),
        decreases nodes.len() - i,
    {
        assert(nodes@.take(i + 1).drop_last() =~= nodes@.take(i as int));
        match json_string(json_get(Some(&nodes[i]), "login")) {
            Some(l) => {
                logins.push(l);
            },
            None => {},
        }
        assert(logins@.map_values(|s: String| s@) =~= logins_of(nodes@.take(i + 1)));
        i = i + 1;
    }
    assert(nodes@.take(nodes.len() as int) =~= nodes@);
    let cursor = page_cursor(listing);
    Ok((logins, cursor))
}

/// The projects of organization `org_login`, from one page of
/// `data.organization.projectsV2`, stamped as synced at `now`, with the
/// cursor of the next page.
pub fn extract_org_projects_at(response: &JsonValue, org_login: &str, now: i64) -> (r: Result<(Vec<ProjectDto>, Option<String>), DomainError>)
    ensures
        projects_page(
            r,
            get(get(get(Some(*response), "data"@), "organization"@), "projectsV2"@),
            Some(org_login@),
            now,
            "Failed to parse org projects nodes for "@ + org_login@,
        ),
{
    let org = json_get(json_get(Some(response), "data"), "organization");
    let message = concat("Failed to parse org projects nodes for ", org_login);
    projects_from_listing(json_get(org, "projectsV2"), Some(org_login), now, message.as_str())
}

/// [`extract_org_projects_at`], stamped with the current time.
pub fn extract_org_projects(response: &JsonValue, org_login: &str) -> (r: Result<(Vec<ProjectDto>, Option<String>), DomainError>)
    ensures
        exists|now: i64| #[trigger] projects_page(
            r,
            get(get(get(Some(*response), "data"@), "organization"@), "projectsV2"@),
            Some(org_login@),
            now,
            "Failed to parse org projects nodes for "@ + org_login@,
        ),
{
    let now = now_epoch_ms();
    extract_org_projects_at(response, org_login, now)
}

/// The status option an item has in the status field
/// (`data.node.fieldValueByName.optionId`).
pub fn extract_item_status(response: &JsonValue) -> (r: Result<Option<String>, DomainError>)
    ensures
        r matches Ok(o) && opt_text(o) == as_text(
            get(get(get(get(Some(*response), "data"@), "node"@), "fieldValueByName"@), "optionId"@),
        ),
{
    let node = json_get(json_get(Some(response), "data"), "node");
    Ok(opt_text_member(json_get(node, "fieldValueByName"), "optionId"))
}

/// When the rate limit resets (`data.rateLimit.resetAt`), if the response
/// says so in a form chrono reads.
pub fn extract_rate_limit_reset(response: &JsonValue) -> (r: Result<Option<i64>, DomainError>)
    ensures
        r == Ok::<Option<i64>, DomainError>(time_of(get(get(get(Some(*response), "data"@), "rateLimit"@), "resetAt"@))),
{
    let rate = json_get(json_get(Some(response), "data"), "rateLimit");
    Ok(time_member(rate, "resetAt"))
}


// ============================================================
// A page of a project's items
// ============================================================

/// A field node that is the status field: it has an id and is named "Status".
pub open spec fn is_status_field(f: JsonValue) -> bool {
    &&& as_text(get(Some(f), "id"@)) is Some
    &&& text_or_empty(get(Some(f), "name"@)) == "Status"@
}

/// `i` is the first status field among `fields`.
pub open spec fn first_status_at(fields: Seq<JsonValue>, i: int) -> bool {
    &&& 0 <= i < fields.len()
    &&& is_status_field(fields[i])
    &&& forall|j: int| 0 <= j < i ==> !is_status_field(#[trigger] fields[j])
}

/// `o` is the option that `node` describes, the `pos`-th of field `field_id`.
pub open spec fn option_of_node(o: StatusOptionDto, node: JsonValue, field_id: Seq<char>, pos: int) -> bool {
    &&& o.id@ == text_or_empty(get(Some(node), "id"@))
    &&& o.status_field_id@ == field_id
    &&& o.name@ == text_or_empty(get(Some(node), "name"@))
    &&& opt_text(o.color) == as_text(get(Some(node), "color"@))
    &&& o.position == pos as i32
}

/// `os` are the options of the field node, in order, each with its place.
pub open spec fn options_of_field(os: Seq<StatusOptionDto>, field: JsonValue, field_id: Seq<char>) -> bool {
    match as_array(get(Some(field), "options"@)) {
        Some(nodes) => {
            &&& os.len() == nodes.len()
            &&& forall|k: int| 0 <= k < nodes.len() ==> option_of_node(#[trigger] os[k], nodes[k], field_id, k)
        },
        None => os.len() == 0,
    }
}

/// The status field of a project and its options, read from the project's
/// field nodes: those of the first field node that is the status field, or
/// none.
pub open spec fn status_of_fields(
    sf: Option<StatusFieldDto>,
    os: Seq<StatusOptionDto>,
    fields: Option<Seq<JsonValue>>,
    project_id: Seq<char>,
) -> bool {
    match fields {
        Some(fs) => if exists|i: int| first_status_at(fs, i) {
            forall|i: int| #[trigger] first_status_at(fs, i) ==> match sf {
                Some(f) => {
                    &&& Some(f.id@) == as_text(get(Some(fs[i]), "id"@))
                    &&& f.project_id@ == project_id
                    &&& f.name@ == "Status"@
                    &&& options_of_field(os, fs[i], f.id@)
                },
                None => false,
            }
        } else {
            sf is None && os.len() == 0
        },
        None => sf is None && os.len() == 0,
    }
}

/// The kind of content a project item wraps, from the content's
/// `__typename`; items of other kinds are passed over.
pub open spec fn item_kind(node: JsonValue) -> Option<ContentType> {
    let t = text_or_empty(get(get(Some(node), "content"@), "__typename"@));
    if t == "Issue"@ {
        Some(ContentType::Issue)
    } else if t == "DraftIssue"@ {
        Some(ContentType::DraftIssue)
    } else if t == "PullRequest"@ {
        Some(ContentType::PullRequest)
    } else {
        None
    }
}

/// The items that become tasks.
pub open spec fn kept_items(items: Seq<JsonValue>) -> Seq<JsonValue> {
    items.filter(|n: JsonValue| item_kind(n) is Some)
}

/// The login of the first assignee of a content node.
pub open spec fn first_assignee(content: Option<JsonValue>) -> Option<Seq<char>> {
    match as_array(get(get(content, "assignees"@), "nodes"@)) {
        Some(nodes) => if nodes.len() > 0 {
            as_text(get(Some(nodes[0]), "login"@))
        } else {
            None
        },
        None => None,
    }
}

/// `t` is the task that the item `node` of project `project_id` describes,
/// read at `now`. A draft issue has no content id and no URL; no item
/// carries a due date.
pub open spec fn task_of_item(t: TaskDto, node: JsonValue, project_id: Seq<char>, now: i64) -> bool {
    let content = get(Some(node), "content"@);
    let draft = item_kind(node) == Some(ContentType::DraftIssue);
    &&& item_kind(node) == Some(t.content_type)
    &&& t.id@ == text_or_empty(get(Some(node), "id"@))
    &&& t.project_id@ == project_id
    &&& opt_text(t.content_id) == (if draft { None } else { as_text(get(content, "id"@)) })
    &&& t.title@ == text_or_empty(get(content, "title"@))
    &&& opt_text(t.body) == as_text(get(content, "body"@))
    &&& opt_text(t.status_option_id) == as_text(get(get(Some(node), "fieldValueByName"@), "optionId"@))
    &&& opt_text(t.assignee_login) == first_assignee(content)
    &&& t.due_date is None
    &&& opt_text(t.url) == (if draft { None } else { as_text(get(content, "url"@)) })
    &&& t.updated_at == time_of(get(Some(node), "updatedAt"@))
    &&& t.synced_at == Some(now)
}

/// `ts` are the tasks of the kept items, one for each, in order.
pub open spec fn tasks_of_items(ts: Seq<TaskDto>, items: Seq<JsonValue>, project_id: Seq<char>, now: i64) -> bool {
    &&& ts.len() == kept_items(items).len()
    &&& forall|k: int| 0 <= k < ts.len() ==> task_of_item(#[trigger] ts[k], kept_items(items)[k], project_id, now)
}

/// `data.node` of a project items response.
pub open spec fn project_node_of(response: JsonValue) -> Option<JsonValue> {
    get(get(Some(response), "data"@), "node"@)
}

/// `r` is the page of project `project_id` that `response` holds, read at
/// `now`: the project, its status field and options, the tasks of the page
/// and the cursor of the next page; an error when there are no item nodes.
pub open spec fn project_items_page(
    r: Result<(GitHubProjectData, Option<String>), DomainError>,
    response: JsonValue,
    project_id: Seq<char>,
    now: i64,
) -> bool {
    let node = project_node_of(response);
    let owner = get(node, "owner"@);
    let items = get(node, "items"@);
    match as_array(get(items, "nodes"@)) {
        Some(item_nodes) => match r {
            Ok((d, cursor)) => {
                &&& d.project.id@ == project_id
                &&& d.project.owner_type == owner_type_of(owner)
                &&& d.project.owner_login@ == text_or_empty(get(owner, "login"@))
                &&& d.project.title@ == text_or_empty(get(node, "title"@))
                &&& d.project.url@ == text_or_empty(get(node, "url"@))
                &&& d.project.updated_at == time_of(get(node, "updatedAt"@))
                &&& d.project.synced_at == Some(now)
                &&& status_of_fields(d.status_field, d.status_options@, as_array(get(get(node, "fields"@), "nodes"@)), project_id)
                &&& tasks_of_items(d.tasks@, item_nodes, project_id, now)
                &&& opt_text(cursor) == next_cursor(items)
            },
            Err(_) => false,
        },
        None => r matches Err(e) && e is GitHubApiError && e.message() == "Failed to parse items nodes"@,
    }
}

/// Whether a field node is the status field.
fn status_field_test(f: &JsonValue) -> (r: bool)
    ensures
        r == is_status_field(*f),
{
    match json_str(json_get(Some(f), "id")) {
        Some(_) => {
            let name = text_member(Some(f), "name");
            str_eq(name.as_str(), "Status")
        },
        None => false,
    }
}

/// The index of the first status field.
fn find_status_field(fields: &Vec<JsonValue>) -> (r: Option<usize>)
    ensures
        match r {
            Some(i) => first_status_at(fields@, i as int),
            None => forall|j: int| 0 <= j < fields@.len() ==> !is_status_field(#[trigger] fields@[j]),
        },
{
    let mut i: usize = 0;
    while i < fields.len()
        invariant
            i <= fields.len(),
            forall|j: int| 0 <= j < i ==> !is_status_field(#[trigger] fields@[j]),
        decreases fields.len() - i,
    {
        if status_field_test(&fields[i]) {
            return Some(i);
        }
        i = i + 1;
    }
    None
}

/// The options of a status field node.
fn options_of(field: &JsonValue, field_id: &str) -> (r: Vec<StatusOptionDto>)
    ensures
        options_of_field(r@, *field, field_id@),
{
    let mut r: Vec<StatusOptionDto> = Vec::new();
    match json_array(json_get(Some(field), "options")) {
        Some(options) => {
            let mut pos: usize = 0;
            while pos < options.len()
                invariant
                    pos <= options.len(),
                    r@.len() == pos,
                    forall|k: int| 0 <= k < pos ==> option_of_node(#[trigger] r@[k], options@[k], field_id@, k),
                decreases options.len() - pos,
            {
                let opt = Some(&options[pos]);
                let id = text_member(opt, "id");
                let name = text_member(opt, "name");
                let color = opt_text_member(opt, "color");
                #[verifier::truncate]
                let position = pos as i32;
                r.push(StatusOptionDto { id, status_field_id: string_of(field_id), name, color, position });
                pos = pos + 1;
            }
        },
        None => {},
    }
    r
}

/// The login of the first assignee of a content node.
pub fn extract_first_assignee(content: Option<&JsonValue>) -> (r: Option<String>)
    ensures
        opt_text(r) == first_assignee(deref(content)),
{
    match json_array(json_get(json_get(content, "assignees"), "nodes")) {
        Some(nodes) => if nodes.len() > 0 {
            opt_text_member(Some(&nodes[0]), "login")
        } else {
            None
        },
        None => None,
    }
}

/// The due date of a content node: none is read, since the query asks for no
/// date field.
pub fn extract_due_date_from_labels(_content: Option<&JsonValue>) -> (r: Option<String>)
    ensures
        r is None,
{
    None
}

/// The kind of content of an item.
fn item_kind_of(node: &JsonValue) -> (r: Option<ContentType>)
    ensures
        r == item_kind(*node),
{
    let t = text_member(json_get(Some(node), "content"), "__typename");
    if str_eq(t.as_str(), "Issue") {
        Some(ContentType::Issue)
    } else if str_eq(t.as_str(), "DraftIssue") {
        Some(ContentType::DraftIssue)
    } else if str_eq(t.as_str(), "PullRequest") {
        Some(ContentType::PullRequest)
    } else {
        None
    }
}

/// The task of an item of a kept kind.
fn task_of(node: &JsonValue, kind: ContentType, project_id: &str, now: i64) -> (r: TaskDto)
    requires
        item_kind(*node) == Some(kind),
    ensures
        task_of_item(r, *node, project_id@, now),
{
    let n = Some(node);
    let content = json_get(n, "content");
    let draft = match kind {
        ContentType::DraftIssue => true,
        _ => false,
    };
    let content_id = if draft { None } else { opt_text_member(content, "id") };
    let url = if draft { None } else { opt_text_member(content, "url") };
    TaskDto {
        id: text_member(n, "id"),
        project_id: string_of(project_id),
        content_type: kind,
        content_id,
        title: text_member(content, "title"),
        body: opt_text_member(content, "body"),
        status_option_id: opt_text_member(json_get(n, "fieldValueByName"), "optionId"),
        assignee_login: extract_first_assignee(content),
        due_date: extract_due_date_from_labels(content),
        url,
        updated_at: time_member(n, "updatedAt"),
        synced_at: Some(now),
    }
}

/// The tasks of the items of a page.
fn tasks_of(items: &Vec<JsonValue>, project_id: &str, now: i64) -> (r: Vec<TaskDto>)
    ensures
        tasks_of_items(r@, items@, project_id@, now),
{
    let ghost pred = |n: JsonValue| item_kind(n) is Some;
    let mut r: Vec<TaskDto> = Vec::new();
    let mut i: usize = 0;
    while i < items.len()
        invariant
            i <= items.len(),
            pred == (|n: JsonValue| item_kind(n) is Some),
            r@.len() == items@.take(i as int).filter(pred).len(),
            forall|k: int| 0 <= k < r@.len() ==> task_of_item(#[trigger] r@[k], items@.take(i as int).filter(pred)[k], project_id@, now),
        decreases items.len() - i,
    {
        let ghost prefix = items@.take(i as int);
        assert(items@.take(i + 1) =~= prefix.push(items@[i as int]));
        proof {
            prefix.lemma_filter_push(items@[i as int], pred);
        }
        match item_kind_of(&items[i]) {
            Some(kind) => {
                let t = task_of(&items[i], kind, project_id, now);
                r.push(t);
            },
            None => {},
        }
        i = i + 1;
    }
    assert(items@.take(items.len() as int) =~= items@);
    r
}

/// One page of the items of project `project_id`, with the project itself and
/// its status field, stamped as synced at `now`, and the cursor of the next
/// page.
pub fn extract_project_items_at(response: &JsonValue, project_id: &str, now: i64) -> (r: Result<(GitHubProjectData, Option<String>), DomainError>)
    ensures
        project_items_page(r, *response, project_id@, now),
{
    let node = json_get(json_get(Some(response), "data"), "node");
    let (owner_type, owner_login) = extract_owner(json_get(node, "owner"));
    let project = ProjectDto {
        id: string_of(project_id),
        owner_type,
        owner_login,
        title: text_member(node, "title"),
        url: text_member(node, "url"),
        updated_at: time_member(node, "updatedAt"),
        synced_at: Some(now),
    };
    let mut status_field: Option<StatusFieldDto> = None;
    let mut status_options: Vec<StatusOptionDto> = Vec::new();
    match json_array(json_get(json_get(node, "fields"), "nodes")) {
        Some(fields) => {
            match find_status_field(fields) {
                Some(i) => {
                    let field_id = match json_string(json_get(Some(&fields[i]), "id")) {
                        Some(s) => s,
                        None => string_of(""),
                    };
                    status_options = options_of(&fields[i], field_id.as_str());
                    status_field = Some(StatusFieldDto {
                        id: field_id,
                        project_id: string_of(project_id),
                        name: string_of("Status"),
                    });
                    proof {
                        assert forall|j: int| #[trigger] first_status_at(fields@, j) implies j == i by {
                            if j < i {
                                assert(!is_status_field(fields@[j]));
                            }
                            if j > i {
                                assert(!is_status_field(fields@[i as int]));
                            }
                        }
                    }
                },
                None => {},
            }
        },
        None => {},
    }
    let items = json_get(node, "items");
    let item_nodes = match json_array(json_get(items, "nodes")) {
        Some(n) => n,
        None => {
            return Err(DomainError::GitHubApiError(string_of("Failed to parse items nodes")));
        },
    };
    let tasks = tasks_of(item_nodes, project_id, now);
    let cursor = page_cursor(items);
    Ok((GitHubProjectData { project, status_field, status_options, tasks }, cursor))
}

/// [`extract_project_items_at`], stamped with the current time.
pub fn extract_project_items(response: &JsonValue, project_id: &str) -> (r: Result<(GitHubProjectData, Option<String>), DomainError>)
    ensures
        exists|now: i64| #[trigger] project_items_page(r, *response, project_id@, now),
{
    let now = now_epoch_ms();
    extract_project_items_at(response, project_id, now)
}

} // verus!
