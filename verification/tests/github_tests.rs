use prism::dtos::{ContentType, GitHubProjectData, OwnerType, ProjectDto, StatusFieldDto};
use prism::errors::DomainError;
use prism::github::{forbidden_error, graphql_result, http_error, response_plan, unauthorized_error, ProjectItemsPages, ResponsePlan};
use prism::json::JsonValue;
use prism::mapper::{
    extract_first_assignee, extract_item_status, extract_org_projects, extract_org_projects_at, extract_owner,
    extract_project_items, extract_project_items_at, extract_rate_limit_reset, extract_viewer_login,
    extract_viewer_organizations, extract_viewer_projects, extract_viewer_projects_at, parse_datetime_to_epoch_ms,
};

fn text(s: &str) -> JsonValue {
    JsonValue::Text(s.to_string())
}

fn obj(members: Vec<(&str, JsonValue)>) -> JsonValue {
    JsonValue::Object(members.into_iter().map(|(k, v)| (k.to_string(), v)).collect())
}

fn page_info(has_next: bool, cursor: &str) -> JsonValue {
    obj(vec![("hasNextPage", JsonValue::Bool(has_next)), ("endCursor", text(cursor))])
}

fn viewer_projects_response() -> JsonValue {
    let p1 = obj(vec![
        ("id", text("PVT_1")),
        ("title", text("Roadmap")),
        ("url", text("https://github.com/orgs/acme/projects/1")),
        ("updatedAt", text("2024-01-01T00:00:00Z")),
        ("owner", obj(vec![("__typename", text("Organization")), ("login", text("acme"))])),
    ]);
    let p2 = obj(vec![("id", text("PVT_2")), ("title", text("Mine")), ("owner", obj(vec![("login", text("alice"))]))]);
    obj(vec![(
        "data",
        obj(vec![(
            "viewer",
            obj(vec![
                ("login", text("alice")),
                (
                    "projectsV2",
                    obj(vec![("pageInfo", page_info(true, "CUR1")), ("nodes", JsonValue::Array(vec![p1, p2]))]),
                ),
            ]),
        )]),
    )])
}

fn items_response(has_next: bool) -> JsonValue {
    let fields = JsonValue::Array(vec![
        obj(vec![]),
        obj(vec![("id", text("F_title")), ("name", text("Title"))]),
        obj(vec![
            ("id", text("F_status")),
            ("name", text("Status")),
            (
                "options",
                JsonValue::Array(vec![
                    obj(vec![("id", text("O_todo")), ("name", text("Todo")), ("color", text("GRAY"))]),
                    obj(vec![("id", text("O_done")), ("name", text("Done"))]),
                ]),
            ),
        ]),
        obj(vec![("id", text("F_status2")), ("name", text("Status"))]),
    ]);
    let issue = obj(vec![
        ("id", text("ITEM_1")),
        ("updatedAt", text("2024-01-01T00:00:01Z")),
        ("fieldValueByName", obj(vec![("optionId", text("O_todo"))])),
        (
            "content",
            obj(vec![
                ("__typename", text("Issue")),
                ("id", text("I_1")),
                ("title", text("Fix bug")),
                ("body", text("details")),
                ("url", text("https://github.com/acme/repo/issues/1")),
                (
                    "assignees",
                    obj(vec![(
                        "nodes",
                        JsonValue::Array(vec![obj(vec![("login", text("bob"))]), obj(vec![("login", text("carol"))])]),
                    )]),
                ),
            ]),
        ),
    ]);
    let draft = obj(vec![
        ("id", text("ITEM_2")),
        (
            "content",
            obj(vec![
                ("__typename", text("DraftIssue")),
                ("id", text("DI_2")),
                ("title", text("Idea")),
                ("url", text("ignored")),
            ]),
        ),
    ]);
    let other = obj(vec![("id", text("ITEM_3")), ("content", obj(vec![("__typename", text("Redacted"))]))]);
    let pr = obj(vec![
        ("id", text("ITEM_4")),
        ("content", obj(vec![("__typename", text("PullRequest")), ("id", text("PR_4")), ("title", text("Add"))])),
    ]);
    obj(vec![(
        "data",
        obj(vec![(
            "node",
            obj(vec![
                ("title", text("Roadmap")),
                ("url", text("https://github.com/orgs/acme/projects/1")),
                ("owner", obj(vec![("__typename", text("Organization")), ("login", text("acme"))])),
                ("fields", obj(vec![("nodes", fields)])),
                (
                    "items",
                    obj(vec![
                        ("pageInfo", page_info(has_next, "ICUR")),
                        ("nodes", JsonValue::Array(vec![issue, draft, other, pr])),
                    ]),
                ),
            ]),
        )]),
    )])
}

#[test]
fn viewer_login_is_read() {
    let r = viewer_projects_response();
    assert_eq!(extract_viewer_login(&r).unwrap(), "alice");
    let e = extract_viewer_login(&obj(vec![])).unwrap_err();
    assert_eq!(e, DomainError::GitHubApiError("Failed to extract viewer login".to_string()));
}

#[test]
fn viewer_projects_are_read_with_their_owner() {
    let (ps, cursor) = extract_viewer_projects_at(&viewer_projects_response(), 77).unwrap();
    assert_eq!(cursor, Some("CUR1".to_string()));
    assert_eq!(ps.len(), 2);
    assert_eq!(ps[0].id, "PVT_1");
    assert_eq!(ps[0].owner_type, OwnerType::Organization);
    assert_eq!(ps[0].owner_login, "acme");
    assert_eq!(ps[0].updated_at, Some(1704067200000));
    assert_eq!(ps[0].synced_at, Some(77));
    assert_eq!(ps[1].owner_type, OwnerType::User);
    assert_eq!(ps[1].owner_login, "alice");
    assert_eq!(ps[1].url, "");
    assert_eq!(ps[1].updated_at, None);
    let (again, _) = extract_viewer_projects(&viewer_projects_response()).unwrap();
    assert_eq!(again.len(), 2);
    assert!(again[0].synced_at.is_some());
}

#[test]
fn a_listing_without_nodes_is_an_error() {
    let e = extract_viewer_projects(&obj(vec![])).unwrap_err();
    assert_eq!(e, DomainError::GitHubApiError("Failed to parse projects nodes".to_string()));
    let e = extract_org_projects(&obj(vec![]), "acme").unwrap_err();
    assert_eq!(e, DomainError::GitHubApiError("Failed to parse org projects nodes for acme".to_string()));
}

#[test]
fn the_last_page_has_no_cursor() {
    let listing = obj(vec![("pageInfo", page_info(false, "END")), ("nodes", JsonValue::Array(vec![]))]);
    let r = obj(vec![("data", obj(vec![("organization", obj(vec![("projectsV2", listing)]))]))]);
    let (ps, cursor) = extract_org_projects_at(&r, "acme", 5).unwrap();
    assert!(ps.is_empty());
    assert_eq!(cursor, None);
}

#[test]
fn org_projects_belong_to_the_org() {
    let node = obj(vec![("id", text("PVT_9")), ("title", text("Org board"))]);
    let listing = obj(vec![("nodes", JsonValue::Array(vec![node]))]);
    let r = obj(vec![("data", obj(vec![("organization", obj(vec![("projectsV2", listing)]))]))]);
    let (ps, cursor) = extract_org_projects_at(&r, "acme", 5).unwrap();
    assert_eq!(cursor, None);
    assert_eq!(
        ps,
        vec![ProjectDto {
            id: "PVT_9".to_string(),
            owner_type: OwnerType::Organization,
            owner_login: "acme".to_string(),
            title: "Org board".to_string(),
            url: "".to_string(),
            updated_at: None,
            synced_at: Some(5),
        }]
    );
}

#[test]
fn organizations_without_login_are_passed_over() {
    let nodes = JsonValue::Array(vec![
        obj(vec![("login", text("acme"))]),
        obj(vec![]),
        obj(vec![("login", JsonValue::Null)]),
        obj(vec![("login", text("globex"))]),
    ]);
    let listing = obj(vec![("pageInfo", page_info(true, "ORG2")), ("nodes", nodes)]);
    let r = obj(vec![("data", obj(vec![("viewer", obj(vec![("organizations", listing)]))]))]);
    let (logins, cursor) = extract_viewer_organizations(&r).unwrap();
    assert_eq!(logins, vec!["acme".to_string(), "globex".to_string()]);
    assert_eq!(cursor, Some("ORG2".to_string()));
    let e = extract_viewer_organizations(&obj(vec![])).unwrap_err();
    assert_eq!(e, DomainError::GitHubApiError("Failed to parse organizations nodes".to_string()));
}

#[test]
fn project_items_are_read() {
    let (d, cursor) = extract_project_items_at(&items_response(true), "PVT_1", 9).unwrap();
    assert_eq!(cursor, Some("ICUR".to_string()));
    assert_eq!(d.project.id, "PVT_1");
    assert_eq!(d.project.owner_type, OwnerType::Organization);
    assert_eq!(d.project.title, "Roadmap");
    assert_eq!(d.project.synced_at, Some(9));
    assert_eq!(
        d.status_field,
        Some(StatusFieldDto { id: "F_status".to_string(), project_id: "PVT_1".to_string(), name: "Status".to_string() })
    );
    assert_eq!(d.status_options.len(), 2);
    assert_eq!(d.status_options[0].id, "O_todo");
    assert_eq!(d.status_options[0].color, Some("GRAY".to_string()));
    assert_eq!(d.status_options[0].position, 0);
    assert_eq!(d.status_options[1].position, 1);
    assert_eq!(d.status_options[1].color, None);
    assert_eq!(d.status_options[1].status_field_id, "F_status");
    assert_eq!(d.tasks.len(), 3);
    let t = &d.tasks[0];
    assert_eq!(t.id, "ITEM_1");
    assert_eq!(t.content_type, ContentType::Issue);
    assert_eq!(t.content_id, Some("I_1".to_string()));
    assert_eq!(t.status_option_id, Some("O_todo".to_string()));
    assert_eq!(t.assignee_login, Some("bob".to_string()));
    assert_eq!(t.body, Some("details".to_string()));
    assert_eq!(t.updated_at, Some(1704067201000));
    assert_eq!(t.due_date, None);
    let draft = &d.tasks[1];
    assert_eq!(draft.content_type, ContentType::DraftIssue);
    assert_eq!(draft.content_id, None);
    assert_eq!(draft.url, None);
    assert_eq!(draft.status_option_id, None);
    assert_eq!(d.tasks[2].content_type, ContentType::PullRequest);
    assert_eq!(d.tasks[2].content_id, Some("PR_4".to_string()));
    assert_eq!(d.tasks[2].project_id, "PVT_1");
}

#[test]
fn project_items_without_item_nodes_fail() {
    let r = obj(vec![("data", obj(vec![("node", obj(vec![("title", text("x"))]))]))]);
    let e = extract_project_items(&r, "PVT_1").unwrap_err();
    assert_eq!(e, DomainError::GitHubApiError("Failed to parse items nodes".to_string()));
}

#[test]
fn a_project_without_status_field_has_no_options() {
    let r = obj(vec![(
        "data",
        obj(vec![("node", obj(vec![("items", obj(vec![("nodes", JsonValue::Array(vec![]))]))]))]),
    )]);
    let (d, cursor) = extract_project_items(&r, "PVT_1").unwrap();
    assert_eq!(d.status_field, None);
    assert!(d.status_options.is_empty());
    assert!(d.tasks.is_empty());
    assert_eq!(cursor, None);
    assert_eq!(d.project.owner_type, OwnerType::User);
}

#[test]
fn item_status_and_rate_limit_are_read() {
    let r = obj(vec![(
        "data",
        obj(vec![
            ("node", obj(vec![("fieldValueByName", obj(vec![("optionId", text("O_done"))]))])),
            ("rateLimit", obj(vec![("resetAt", text("1970-01-01T00:00:01Z"))])),
        ]),
    )]);
    assert_eq!(extract_item_status(&r).unwrap(), Some("O_done".to_string()));
    assert_eq!(extract_rate_limit_reset(&r).unwrap(), Some(1000));
    assert_eq!(extract_item_status(&obj(vec![])).unwrap(), None);
    assert_eq!(extract_rate_limit_reset(&obj(vec![])).unwrap(), None);
}

#[test]
fn rfc3339_texts_are_read_as_milliseconds() {
    assert_eq!(parse_datetime_to_epoch_ms(Some("2024-01-01T09:00:00+09:00")), Some(1704067200000));
    assert_eq!(parse_datetime_to_epoch_ms(Some("not a date")), None);
    assert_eq!(parse_datetime_to_epoch_ms(None), None);
}

#[test]
fn owners_and_assignees() {
    let org = obj(vec![("__typename", text("Organization")), ("login", text("acme"))]);
    assert_eq!(extract_owner(Some(&org)), (OwnerType::Organization, "acme".to_string()));
    assert_eq!(extract_owner(None), (OwnerType::User, "".to_string()));
    let content = obj(vec![("assignees", obj(vec![("nodes", JsonValue::Array(vec![]))]))]);
    assert_eq!(extract_first_assignee(Some(&content)), None);
}

#[test]
fn http_statuses_decide_how_a_reply_is_read() {
    assert_eq!(response_plan(401), ResponsePlan::Unauthorized);
    assert_eq!(response_plan(403), ResponsePlan::Forbidden);
    assert_eq!(response_plan(404), ResponsePlan::HttpError);
    assert_eq!(response_plan(199), ResponsePlan::HttpError);
    assert_eq!(response_plan(200), ResponsePlan::Success);
    assert_eq!(response_plan(299), ResponsePlan::Success);
    assert_eq!(unauthorized_error(), DomainError::AuthenticationError("Invalid or expired PAT".to_string()));
}

#[test]
fn a_forbidden_reply_may_be_a_rate_limit() {
    let body = obj(vec![("message", text("API rate limit exceeded for user"))]);
    assert_eq!(
        forbidden_error(&body, "{...}"),
        DomainError::RateLimitExceeded("API rate limit exceeded for user".to_string())
    );
    let body = obj(vec![("message", text("Resource not accessible"))]);
    assert_eq!(forbidden_error(&body, "BODY"), DomainError::GitHubApiError("Forbidden: BODY".to_string()));
    assert_eq!(forbidden_error(&JsonValue::Null, "Null"), DomainError::GitHubApiError("Forbidden: Null".to_string()));
}

#[test]
fn other_statuses_are_api_errors() {
    assert_eq!(http_error(502, Some("Bad gateway")), DomainError::GitHubApiError("HTTP 502: Bad gateway".to_string()));
    assert_eq!(http_error(404, None), DomainError::GitHubApiError("HTTP 404: Unknown error".to_string()));
}

#[test]
fn graphql_errors_are_joined() {
    let reply = obj(vec![(
        "errors",
        JsonValue::Array(vec![
            obj(vec![("message", text("first"))]),
            obj(vec![("type", text("NOT_FOUND"))]),
            obj(vec![("message", text("second"))]),
        ]),
    )]);
    assert_eq!(graphql_result(reply).unwrap_err(), DomainError::GitHubApiError("first; second".to_string()));
    let ok = obj(vec![("errors", JsonValue::Array(vec![])), ("data", JsonValue::Null)]);
    assert!(graphql_result(ok).is_ok());
}

#[test]
fn pages_of_items_are_put_together() {
    let (first, _) = extract_project_items_at(&items_response(true), "PVT_1", 1).unwrap();
    let (second, _) = extract_project_items_at(&items_response(false), "PVT_1", 2).unwrap();
    let mut pages = ProjectItemsPages::new();
    assert_eq!(pages.add_page(first, Some("C2".to_string())), Some("C2".to_string()));
    assert_eq!(pages.add_page(GitHubProjectData { status_field: None, ..second }, None), None);
    let all = pages.finish().unwrap();
    assert_eq!(all.tasks.len(), 6);
    assert_eq!(all.project.synced_at, Some(1));
    assert_eq!(all.status_field.unwrap().id, "F_status");
    assert_eq!(all.tasks[3].id, "ITEM_1");
    assert!(ProjectItemsPages::new().finish().is_none());
}

#[test]
fn pages_of_projects_are_put_together() {
    let mut pages = prism::github::ProjectPages::new();
    let p = |id: &str| ProjectDto {
        id: id.to_string(),
        owner_type: OwnerType::User,
        owner_login: "alice".to_string(),
        title: id.to_string(),
        url: "".to_string(),
        updated_at: None,
        synced_at: None,
    };
    assert_eq!(pages.add_page(vec![p("A"), p("B")], Some("NEXT".to_string())), Some("NEXT".to_string()));
    assert_eq!(pages.add_page(vec![p("C")], None), None);
    let all: Vec<String> = pages.finish().into_iter().map(|x| x.id).collect();
    assert_eq!(all, vec!["A", "B", "C"]);
}
