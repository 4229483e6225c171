//! What the records read from GitHub, queued in the log and listed from the
//! cache hold, stated member by member over the operations' contracts.
use vstd::prelude::*;
use crate::append::{appended, queued_for};
use crate::clock::rfc3339_epoch_ms;
use crate::dtos::{
    AppendOperationInput, ContentType, GitHubProjectData, Operation, OperationStatus, OperationType, OwnerType,
    ProjectDto, StatusOptionDto,
};
use crate::errors::DomainError;
use crate::github::forbidden_reply;
use crate::json::{JsonValue, as_array, as_text, get, text_or_empty};
use crate::mapper::{first_status_at, project_items_page, projects_page};
use crate::store::{listing, opt_text};
use crate::text::{has_substring, occurs_at, text_le};
use crate::table::Ordered;

verus! {

/// The time a text member denotes, read by chrono.
pub open spec fn member_time(v: Option<JsonValue>, key: Seq<char>) -> Option<i64> {
    match as_text(get(v, key)) {
        Some(t) => rfc3339_epoch_ms(t),
        None => None,
    }
}

/// Each project read from a page of a projects listing carries the `id`,
/// `title` and `url` texts and the `updatedAt` time of its node, the read
/// time, and its owner: the organization listed, or else the node's
/// `owner` (an organization when its `__typename` says so, with its
/// `login`). There is one project per node, and a page with nodes is read.
pub proof fn law_listed_projects_read(
    r: Result<(Vec<ProjectDto>, Option<String>), DomainError>,
    listing_node: Option<JsonValue>,
    org: Option<Seq<char>>,
    now: i64,
    message: Seq<char>,
    i: int,
)
    requires
        projects_page(r, listing_node, org, now, message),
        as_array(get(listing_node, "nodes"@)) is Some,
        0 <= i < as_array(get(listing_node, "nodes"@))->0.len(),
    ensures
        r is Ok,
        ({
            let nodes = as_array(get(listing_node, "nodes"@))->0;
            let ps = r->Ok_0.0@;
            let node = Some(nodes[i]);
            let owner = get(node, "owner"@);
            &&& ps.len() == nodes.len()
            &&& ps[i].id@ == text_or_empty(get(node, "id"@))
            &&& ps[i].title@ == text_or_empty(get(node, "title"@))
            &&& ps[i].url@ == text_or_empty(get(node, "url"@))
            &&& ps[i].updated_at == member_time(node, "updatedAt"@)
            &&& ps[i].synced_at == Some(now)
            &&& match org {
                Some(login) => ps[i].owner_type == OwnerType::Organization && ps[i].owner_login@ == login,
                None => {
                    &&& ps[i].owner_type == (if as_text(get(owner, "__typename"@)) == Some("Organization"@) {
                        OwnerType::Organization
                    } else {
                        OwnerType::User
                    })
                    &&& ps[i].owner_login@ == text_or_empty(get(owner, "login"@))
                },
            }
        }),
{
    let nodes = as_array(get(listing_node, "nodes"@))->0;
    let ps = r->Ok_0.0@;
    match org {
        Some(login) => {
            assert(crate::mapper::project_of_node(ps[i], Some(nodes[i]), OwnerType::Organization, login, now));
        },
        None => {
            assert(crate::mapper::viewer_project_of(ps[i], nodes[i], now));
        },
    }
}

/// Each status option read from a project's status field (the first field
/// node with an id and the name "Status") carries the `id`, `name` and
/// `color` of its option node, the field's id, and its place among the
/// field's options; there is one option per option node.
pub proof fn law_status_options_read(
    r: Result<(GitHubProjectData, Option<String>), DomainError>,
    response: JsonValue,
    project_id: Seq<char>,
    now: i64,
    fields: Seq<JsonValue>,
    i: int,
    k: int,
)
    requires
        project_items_page(r, response, project_id, now),
        r is Ok,
        as_array(get(get(get(get(Some(response), "data"@), "node"@), "fields"@), "nodes"@)) == Some(fields),
        first_status_at(fields, i),
        as_array(get(Some(fields[i]), "options"@)) is Some,
        0 <= k < as_array(get(Some(fields[i]), "options"@))->0.len(),
    ensures
        ({
            let d = r->Ok_0.0;
            let opts = as_array(get(Some(fields[i]), "options"@))->0;
            let o = d.status_options@[k];
            let opt = Some(opts[k]);
            &&& d.status_field is Some
            &&& Some(d.status_field->0.id@) == as_text(get(Some(fields[i]), "id"@))
            &&& d.status_field->0.name@ == "Status"@
            &&& d.status_field->0.project_id@ == project_id
            &&& d.status_options@.len() == opts.len()
            &&& o.id@ == text_or_empty(get(opt, "id"@))
            &&& o.name@ == text_or_empty(get(opt, "name"@))
            &&& opt_text(o.color) == as_text(get(opt, "color"@))
            &&& o.position == k as i32
            &&& o.status_field_id@ == d.status_field->0.id@
        }),
{
    let d = r->Ok_0.0;
    let opts = as_array(get(Some(fields[i]), "options"@))->0;
    assert(first_status_at(fields, i));
    assert(crate::mapper::option_of_node(d.status_options@[k], opts[k], d.status_field->0.id@, k));
}

/// Status options listed from the cache come by position; projects come by
/// title (in byte order) and operations by creation time.
pub proof fn law_listings_in_order(
    options: Seq<StatusOptionDto>,
    option_rows: Seq<StatusOptionDto>,
    projects: Seq<ProjectDto>,
    project_rows: Seq<ProjectDto>,
    ops: Seq<Operation>,
    op_rows: Seq<Operation>,
)
    ensures
        listing(options, option_rows) ==> forall|a: int, b: int|
            0 <= a < b < options.len() ==> #[trigger] options[a].position <= #[trigger] options[b].position,
        listing(projects, project_rows) ==> forall|a: int, b: int|
            0 <= a < b < projects.len() ==> text_le(#[trigger] projects[a].title@, #[trigger] projects[b].title@),
        listing(ops, op_rows) ==> forall|a: int, b: int|
            0 <= a < b < ops.len() ==> #[trigger] ops[a].created_at <= #[trigger] ops[b].created_at,
{
    if listing(options, option_rows) {
        let leq = |x: StatusOptionDto, y: StatusOptionDto| <StatusOptionDto as Ordered>::le(x, y);
        assert forall|a: int, b: int| 0 <= a < b < options.len() implies #[trigger] options[a].position
            <= #[trigger] options[b].position by {
            assert(leq(options[a], options[b]));
        }
    }
    if listing(projects, project_rows) {
        let leq = |x: ProjectDto, y: ProjectDto| <ProjectDto as Ordered>::le(x, y);
        assert forall|a: int, b: int| 0 <= a < b < projects.len() implies text_le(
            #[trigger] projects[a].title@,
            #[trigger] projects[b].title@,
        ) by {
            assert(leq(projects[a], projects[b]));
        }
    }
    if listing(ops, op_rows) {
        let leq = |x: Operation, y: Operation| <Operation as Ordered>::le(x, y);
        assert forall|a: int, b: int| 0 <= a < b < ops.len() implies #[trigger] ops[a].created_at
            <= #[trigger] ops[b].created_at by {
            assert(leq(ops[a], ops[b]));
        }
    }
}

/// A 403 reply whose message contains "rate limit" is a rate limit error
/// carrying that message; one whose message does not, or that has no
/// message, is a refusal showing the body.
pub proof fn law_forbidden_rate_limit(body: JsonValue, rendered: Seq<char>, e: DomainError)
    requires
        forbidden_reply(body, rendered, e),
    ensures
        match as_text(get(Some(body), "message"@)) {
            Some(m) => if has_substring(m, "rate limit"@) {
                e is RateLimitExceeded && e.message() == m
            } else {
                e is GitHubApiError && e.message() == "Forbidden: "@ + rendered
            },
            None => e is GitHubApiError && e.message() == "Forbidden: "@ + rendered,
        },
{
    match as_text(get(Some(body), "message"@)) {
        Some(m) => {
            if has_substring(m, "API rate limit"@) {
                let i = choose|i: int| occurs_at(m, "API rate limit"@, i);
                reveal_strlit("API rate limit");
                reveal_strlit("rate limit");
                assert(m.subrange(i + 4, i + 14) =~= m.subrange(i, i + 14).subrange(4, 14));
                assert("API rate limit"@.subrange(4, 14) =~= "rate limit"@);
                assert(occurs_at(m, "rate limit"@, i + 4));
            }
        },
        None => {},
    }
}

/// Every queued operation is a pending move of its input: the input's item,
/// project, field and target option, the input's `base_item_updated_at`
/// and expected option, no error and no resolution time.
pub proof fn law_queued_operations_keep_their_input(ops: Seq<Operation>, inputs: Seq<AppendOperationInput>, k: int)
    requires
        queued_for(ops, inputs),
        0 <= k < ops.len(),
    ensures
        ops.len() == inputs.len(),
        ops[k].op_type == OperationType::MoveItemToColumn,
        ops[k].payload.item_id == inputs[k].item_id,
        ops[k].payload.project_id == inputs[k].project_id,
        ops[k].payload.status_field_id == inputs[k].status_field_id,
        ops[k].payload.to_option_id == inputs[k].to_option_id,
        ops[k].precondition.base_item_updated_at == inputs[k].base_item_updated_at,
        ops[k].precondition.expected_from_option_id == inputs[k].expected_from_option_id,
        ops[k].status == OperationStatus::Pending,
        ops[k].error_message is None,
        ops[k].resolved_at is None,
{
    assert(ops[k] == crate::store::new_operation(inputs[k], ops[k].id, ops[k].created_at));
}

/// Queueing under given identifiers and time: on success the `k`-th
/// operation has the `k`-th identifier, the time given, and the `k`-th
/// input's payload and precondition, as a pending move.
pub proof fn law_appended_operations(
    m0: crate::store::CacheModel,
    m1: crate::store::CacheModel,
    inputs: Seq<AppendOperationInput>,
    ids: Seq<String>,
    now: i64,
    r: Result<Vec<Operation>, DomainError>,
    k: int,
)
    requires
        appended(m0, m1, inputs, ids, now, r),
        r is Ok,
        0 <= k < inputs.len(),
    ensures
        ({
            let op = r->Ok_0@[k];
            &&& r->Ok_0@.len() == inputs.len()
            &&& op.id == ids[k]
            &&& op.created_at == now
            &&& op.op_type == OperationType::MoveItemToColumn
            &&& op.payload.item_id == inputs[k].item_id
            &&& op.payload.project_id == inputs[k].project_id
            &&& op.payload.status_field_id == inputs[k].status_field_id
            &&& op.payload.to_option_id == inputs[k].to_option_id
            &&& op.precondition.base_item_updated_at == inputs[k].base_item_updated_at
            &&& op.precondition.expected_from_option_id == inputs[k].expected_from_option_id
            &&& op.status == OperationStatus::Pending
            &&& op.error_message is None
            &&& op.resolved_at is None
        }),
{
    assert(r->Ok_0@[k] == crate::append::ops_for(inputs, ids, now)[k]);
}

/// Each task read from a page of a project's items carries its item's `id`
/// and `updatedAt`, the content's title, body and first assignee, the
/// item's status option, the project's id and the read time; only issues,
/// draft issues and pull requests become tasks, and a draft issue has no
/// content id or URL.
pub proof fn law_tasks_read(
    r: Result<(GitHubProjectData, Option<String>), DomainError>,
    response: JsonValue,
    project_id: Seq<char>,
    now: i64,
    k: int,
)
    requires
        project_items_page(r, response, project_id, now),
        r is Ok,
        0 <= k < r->Ok_0.0.tasks@.len(),
    ensures
        ({
            let items = as_array(get(get(get(get(Some(response), "data"@), "node"@), "items"@), "nodes"@))->0;
            let t = r->Ok_0.0.tasks@[k];
            let node = crate::mapper::kept_items(items)[k];
            let content = get(Some(node), "content"@);
            let kind = text_or_empty(get(content, "__typename"@));
            &&& items.contains(node)
            &&& (kind == "Issue"@ || kind == "DraftIssue"@ || kind == "PullRequest"@)
            &&& (t.content_type == ContentType::Issue <==> kind == "Issue"@)
            &&& (t.content_type == ContentType::DraftIssue <==> kind == "DraftIssue"@)
            &&& t.id@ == text_or_empty(get(Some(node), "id"@))
            &&& t.project_id@ == project_id
            &&& t.title@ == text_or_empty(get(content, "title"@))
            &&& opt_text(t.body) == as_text(get(content, "body"@))
            &&& opt_text(t.status_option_id) == as_text(get(get(Some(node), "fieldValueByName"@), "optionId"@))
            &&& t.updated_at == member_time(Some(node), "updatedAt"@)
            &&& t.synced_at == Some(now)
            &&& t.due_date is None
            &&& (kind == "DraftIssue"@ ==> t.content_id is None && t.url is None)
            &&& (kind != "DraftIssue"@ ==> opt_text(t.content_id) == as_text(get(content, "id"@)) && opt_text(t.url)
                == as_text(get(content, "url"@)))
        }),
{
    let items = as_array(get(get(get(get(Some(response), "data"@), "node"@), "items"@), "nodes"@))->0;
    let pred = |n: JsonValue| crate::mapper::item_kind(n) is Some;
    let t = r->Ok_0.0.tasks@[k];
    let node = crate::mapper::kept_items(items)[k];
    assert(crate::mapper::kept_items(items) == items.filter(pred));
    assert(crate::mapper::task_of_item(t, node, project_id, now));
    assert(items.filter(pred).contains(node));
    crate::table::lemma_filter_subset(items, pred, node);
    assert(items.contains(node));
    reveal_strlit("Issue");
    reveal_strlit("DraftIssue");
    reveal_strlit("PullRequest");
    assert("Issue"@.len() != "DraftIssue"@.len());
    assert("PullRequest"@.len() != "DraftIssue"@.len());
    assert("Issue"@ != "PullRequest"@);
}

} // verus!
