//! Plain contents of the workbench records, field-by-field copies, and the orders in which
//! they are listed.
use vstd::prelude::*;

use crate::models::api_client::{
    ApiEnvironment, ApiGroup, ApiProject, ApiRequest, ApiRequestHistory, BodyKind, ExecutionStatus,
    RequestBody, RequestSnapshot, copy_opt_string, copy_rows, opt_view, rows_view,
};
use crate::order::{lex_le, lex_le_exec, lemma_lex_total, lemma_lex_transitive};
use crate::repositories::agent_profile::{pair_le, pair_le_exec, lemma_pair_total, lemma_pair_transitive};
use crate::store::keyed::Duplicate;
use crate::store::ranked::Ranked;
use crate::text::chars_of;

verus! {

pub type RowView = (Seq<char>, bool, Seq<char>, Seq<char>);

pub ghost struct ProjectView {
    pub id: Seq<char>,
    pub name: Seq<char>,
    pub description: Seq<char>,
    pub sort: i64,
    pub created_at: i64,
    pub updated_at: i64,
}

impl View for ApiProject {
    type V = ProjectView;

    open spec fn view(&self) -> ProjectView {
        ProjectView {
            id: self.id@,
            name: self.name@,
            description: self.description@,
            sort: self.sort,
            created_at: self.created_at,
            updated_at: self.updated_at,
        }
    }
}

pub ghost struct GroupView {
    pub id: Seq<char>,
    pub project_id: Seq<char>,
    pub parent_group_id: Option<Seq<char>>,
    pub name: Seq<char>,
    pub sort: i64,
    pub created_at: i64,
    pub updated_at: i64,
}

impl View for ApiGroup {
    type V = GroupView;

    open spec fn view(&self) -> GroupView {
        GroupView {
            id: self.id@,
            project_id: self.project_id@,
            parent_group_id: opt_view(self.parent_group_id),
            name: self.name@,
            sort: self.sort,
            created_at: self.created_at,
            updated_at: self.updated_at,
        }
    }
}

pub ghost struct BodyView {
    pub kind: BodyKind,
    pub text: Seq<char>,
    pub form: Seq<RowView>,
}

pub open spec fn body_view(b: RequestBody) -> BodyView {
    BodyView { kind: b.kind, text: b.text@, form: rows_view(b.form@) }
}

pub ghost struct RequestView {
    pub id: Seq<char>,
    pub group_id: Seq<char>,
    pub project_id: Seq<char>,
    pub name: Seq<char>,
    pub method: Seq<char>,
    pub url: Seq<char>,
    pub query: Seq<RowView>,
    pub headers: Seq<RowView>,
    pub body: BodyView,
    pub timeout_ms: u64,
    pub ai_prompt: Seq<char>,
    pub ai_reference: Seq<char>,
    pub sort: i64,
    pub created_at: i64,
    pub updated_at: i64,
}

impl View for ApiRequest {
    type V = RequestView;

    open spec fn view(&self) -> RequestView {
        RequestView {
            id: self.id@,
            group_id: self.group_id@,
            project_id: self.project_id@,
            name: self.name@,
            method: self.method@,
            url: self.url@,
            query: rows_view(self.query@),
            headers: rows_view(self.headers@),
            body: body_view(self.body),
            timeout_ms: self.timeout_ms,
            ai_prompt: self.ai_prompt@,
            ai_reference: self.ai_reference@,
            sort: self.sort,
            created_at: self.created_at,
            updated_at: self.updated_at,
        }
    }
}

pub ghost struct EnvironmentView {
    pub id: Seq<char>,
    pub project_id: Seq<char>,
    pub name: Seq<char>,
    pub base_url: Seq<char>,
    pub variables: Seq<RowView>,
    pub created_at: i64,
    pub updated_at: i64,
}

impl View for ApiEnvironment {
    type V = EnvironmentView;

    open spec fn view(&self) -> EnvironmentView {
        EnvironmentView {
            id: self.id@,
            project_id: self.project_id@,
            name: self.name@,
            base_url: self.base_url@,
            variables: rows_view(self.variables@),
            created_at: self.created_at,
            updated_at: self.updated_at,
        }
    }
}

pub ghost struct SnapshotView {
    pub method: Seq<char>,
    pub url: Seq<char>,
    pub query: Seq<RowView>,
    pub headers: Seq<RowView>,
    pub body: BodyView,
    pub timeout_ms: u64,
    pub environment_name: Option<Seq<char>>,
}

pub open spec fn snapshot_view(s: RequestSnapshot) -> SnapshotView {
    SnapshotView {
        method: s.method@,
        url: s.url@,
        query: rows_view(s.query@),
        headers: rows_view(s.headers@),
        body: body_view(s.body),
        timeout_ms: s.timeout_ms,
        environment_name: opt_view(s.environment_name),
    }
}

pub ghost struct HistoryView {
    pub id: Seq<char>,
    pub request_id: Seq<char>,
    pub environment_name: Option<Seq<char>>,
    pub request_snapshot: SnapshotView,
    pub status: ExecutionStatus,
    pub status_code: Option<u16>,
    pub response_headers: Seq<RowView>,
    pub response_body_preview: Seq<char>,
    pub response_body_truncated: bool,
    pub duration_ms: u64,
    pub error_message: Option<Seq<char>>,
    pub executed_at: i64,
}

impl View for ApiRequestHistory {
    type V = HistoryView;

    open spec fn view(&self) -> HistoryView {
        HistoryView {
            id: self.id@,
            request_id: self.request_id@,
            environment_name: opt_view(self.environment_name),
            request_snapshot: snapshot_view(self.request_snapshot),
            status: self.status,
            status_code: self.status_code,
            response_headers: rows_view(self.response_headers@),
            response_body_preview: self.response_body_preview@,
            response_body_truncated: self.response_body_truncated,
            duration_ms: self.duration_ms,
            error_message: opt_view(self.error_message),
            executed_at: self.executed_at,
        }
    }
}

pub fn copy_body(b: &RequestBody) -> (r: RequestBody)
    ensures
        body_view(r) == body_view(*b),
{
    RequestBody { kind: b.kind, text: b.text.clone(), form: copy_rows(b.form.as_slice()) }
}

pub fn copy_snapshot(s: &RequestSnapshot) -> (r: RequestSnapshot)
    ensures
        snapshot_view(r) == snapshot_view(*s),
{
    RequestSnapshot {
        method: s.method.clone(),
        url: s.url.clone(),
        query: copy_rows(s.query.as_slice()),
        headers: copy_rows(s.headers.as_slice()),
        body: copy_body(&s.body),
        timeout_ms: s.timeout_ms,
        environment_name: copy_opt_string(&s.environment_name),
    }
}

impl Duplicate for ApiProject {
    fn duplicate(&self) -> (r: ApiProject) {
        ApiProject {
            id: self.id.clone(),
            name: self.name.clone(),
            description: self.description.clone(),
            sort: self.sort,
            created_at: self.created_at,
            updated_at: self.updated_at,
        }
    }
}

impl Duplicate for ApiGroup {
    fn duplicate(&self) -> (r: ApiGroup) {
        ApiGroup {
            id: self.id.clone(),
            project_id: self.project_id.clone(),
            parent_group_id: copy_opt_string(&self.parent_group_id),
            name: self.name.clone(),
            sort: self.sort,
            created_at: self.created_at,
            updated_at: self.updated_at,
        }
    }
}

impl Duplicate for ApiRequest {
    fn duplicate(&self) -> (r: ApiRequest) {
        ApiRequest {
            id: self.id.clone(),
            group_id: self.group_id.clone(),
            project_id: self.project_id.clone(),
            name: self.name.clone(),
            method: self.method.clone(),
            url: self.url.clone(),
            query: copy_rows(self.query.as_slice()),
            headers: copy_rows(self.headers.as_slice()),
            body: copy_body(&self.body),
            timeout_ms: self.timeout_ms,
            ai_prompt: self.ai_prompt.clone(),
            ai_reference: self.ai_reference.clone(),
            sort: self.sort,
            created_at: self.created_at,
            updated_at: self.updated_at,
        }
    }
}

impl Duplicate for ApiEnvironment {
    fn duplicate(&self) -> (r: ApiEnvironment) {
        ApiEnvironment {
            id: self.id.clone(),
            project_id: self.project_id.clone(),
            name: self.name.clone(),
            base_url: self.base_url.clone(),
            variables: copy_rows(self.variables.as_slice()),
            created_at: self.created_at,
            updated_at: self.updated_at,
        }
    }
}

impl Duplicate for ApiRequestHistory {
    fn duplicate(&self) -> (r: ApiRequestHistory) {
        ApiRequestHistory {
            id: self.id.clone(),
            request_id: self.request_id.clone(),
            environment_name: copy_opt_string(&self.environment_name),
            request_snapshot: copy_snapshot(&self.request_snapshot),
            status: self.status,
            status_code: self.status_code,
            response_headers: copy_rows(self.response_headers.as_slice()),
            response_body_preview: self.response_body_preview.clone(),
            response_body_truncated: self.response_body_truncated,
            duration_ms: self.duration_ms,
            error_message: copy_opt_string(&self.error_message),
            executed_at: self.executed_at,
        }
    }
}

/// `(sort, created_at, id)` is at most `(sort2, created_at2, id2)`, comparing in that order.
pub open spec fn position_le(s1: i64, c1: i64, id1: Seq<char>, s2: i64, c2: i64, id2: Seq<char>) -> bool {
    s1 < s2 || (s1 == s2 && (c1 < c2 || (c1 == c2 && lex_le(id1, id2))))
}

pub proof fn lemma_position_total(s1: i64, c1: i64, id1: Seq<char>, s2: i64, c2: i64, id2: Seq<char>)
    ensures
        position_le(s1, c1, id1, s2, c2, id2) || position_le(s2, c2, id2, s1, c1, id1),
{
    lemma_lex_total(id1, id2);
}

pub proof fn lemma_position_transitive(
    s1: i64,
    c1: i64,
    id1: Seq<char>,
    s2: i64,
    c2: i64,
    id2: Seq<char>,
    s3: i64,
    c3: i64,
    id3: Seq<char>,
)
    requires
        position_le(s1, c1, id1, s2, c2, id2),
        position_le(s2, c2, id2, s3, c3, id3),
    ensures
        position_le(s1, c1, id1, s3, c3, id3),
{
    if s1 == s2 && s2 == s3 && c1 == c2 && c2 == c3 {
        lemma_lex_transitive(id1, id2, id3);
    }
}

pub fn position_le_exec(s1: i64, c1: i64, id1: &str, s2: i64, c2: i64, id2: &str) -> (r: bool)
    ensures
        r == position_le(s1, c1, id1@, s2, c2, id2@),
{
    if s1 != s2 {
        return s1 < s2;
    }
    if c1 != c2 {
        return c1 < c2;
    }
    lex_le_exec(chars_of(id1).as_slice(), chars_of(id2).as_slice())
}

/// Projects are listed by `sort`, then creation time, then id.
impl Ranked for ApiProject {
    open spec fn rank_le(a: ProjectView, b: ProjectView) -> bool {
        position_le(a.sort, a.created_at, a.id, b.sort, b.created_at, b.id)
    }

    proof fn lemma_rank_total(a: ProjectView, b: ProjectView) {
        lemma_position_total(a.sort, a.created_at, a.id, b.sort, b.created_at, b.id);
    }

    proof fn lemma_rank_transitive(a: ProjectView, b: ProjectView, c: ProjectView) {
        lemma_position_transitive(a.sort, a.created_at, a.id, b.sort, b.created_at, b.id, c.sort, c.created_at, c.id);
    }

    fn rank_le_exec(&self, other: &ApiProject) -> (r: bool) {
        position_le_exec(self.sort, self.created_at, self.id.as_str(), other.sort, other.created_at, other.id.as_str())
    }
}

/// Groups are listed by `sort`, then creation time, then id.
impl Ranked for ApiGroup {
    open spec fn rank_le(a: GroupView, b: GroupView) -> bool {
        position_le(a.sort, a.created_at, a.id, b.sort, b.created_at, b.id)
    }

    proof fn lemma_rank_total(a: GroupView, b: GroupView) {
        lemma_position_total(a.sort, a.created_at, a.id, b.sort, b.created_at, b.id);
    }

    proof fn lemma_rank_transitive(a: GroupView, b: GroupView, c: GroupView) {
        lemma_position_transitive(a.sort, a.created_at, a.id, b.sort, b.created_at, b.id, c.sort, c.created_at, c.id);
    }

    fn rank_le_exec(&self, other: &ApiGroup) -> (r: bool) {
        position_le_exec(self.sort, self.created_at, self.id.as_str(), other.sort, other.created_at, other.id.as_str())
    }
}

/// Environments are listed by name, then id.
impl Ranked for ApiEnvironment {
    open spec fn rank_le(a: EnvironmentView, b: EnvironmentView) -> bool {
        pair_le(a.name, a.id, b.name, b.id)
    }

    proof fn lemma_rank_total(a: EnvironmentView, b: EnvironmentView) {
        lemma_pair_total(a.name, a.id, b.name, b.id);
    }

    proof fn lemma_rank_transitive(a: EnvironmentView, b: EnvironmentView, c: EnvironmentView) {
        lemma_pair_transitive(a.name, a.id, b.name, b.id, c.name, c.id);
    }

    fn rank_le_exec(&self, other: &ApiEnvironment) -> (r: bool) {
        pair_le_exec(
            chars_of(self.name.as_str()).as_slice(),
            chars_of(self.id.as_str()).as_slice(),
            chars_of(other.name.as_str()).as_slice(),
            chars_of(other.id.as_str()).as_slice(),
        )
    }
}

/// `a` was executed after `b`, or at the same time with an id not smaller.
pub open spec fn newer_or_same(a: HistoryView, b: HistoryView) -> bool {
    a.executed_at > b.executed_at || (a.executed_at == b.executed_at && lex_le(b.id, a.id))
}

/// History is listed newest first, ties by id from the largest.
impl Ranked for ApiRequestHistory {
    open spec fn rank_le(a: HistoryView, b: HistoryView) -> bool {
        newer_or_same(a, b)
    }

    proof fn lemma_rank_total(a: HistoryView, b: HistoryView) {
        lemma_lex_total(a.id, b.id);
    }

    proof fn lemma_rank_transitive(a: HistoryView, b: HistoryView, c: HistoryView) {
        if a.executed_at == b.executed_at && b.executed_at == c.executed_at {
            lemma_lex_transitive(c.id, b.id, a.id);
        }
    }

    fn rank_le_exec(&self, other: &ApiRequestHistory) -> (r: bool) {
        if self.executed_at != other.executed_at {
            return self.executed_at > other.executed_at;
        }
        lex_le_exec(chars_of(other.id.as_str()).as_slice(), chars_of(self.id.as_str()).as_slice())
    }
}

/// A request with the `sort` of its group, as the listing query joins them.
pub struct JoinedRequest {
    pub group_sort: i64,
    pub request: ApiRequest,
}

impl View for JoinedRequest {
    type V = (i64, RequestView);

    open spec fn view(&self) -> (i64, RequestView) {
        (self.group_sort, self.request@)
    }
}

/// `(group sort, sort, created_at, id)` is at most the other, comparing in that order.
pub open spec fn joined_le(a: (i64, RequestView), b: (i64, RequestView)) -> bool {
    a.0 < b.0 || (a.0 == b.0 && position_le(a.1.sort, a.1.created_at, a.1.id, b.1.sort, b.1.created_at, b.1.id))
}

/// Requests are listed by their group's `sort`, then their own, then creation time, then id.
impl Ranked for JoinedRequest {
    open spec fn rank_le(a: (i64, RequestView), b: (i64, RequestView)) -> bool {
        joined_le(a, b)
    }

    proof fn lemma_rank_total(a: (i64, RequestView), b: (i64, RequestView)) {
        lemma_position_total(a.1.sort, a.1.created_at, a.1.id, b.1.sort, b.1.created_at, b.1.id);
    }

    proof fn lemma_rank_transitive(a: (i64, RequestView), b: (i64, RequestView), c: (i64, RequestView)) {
        if a.0 == b.0 && b.0 == c.0 {
            lemma_position_transitive(
                a.1.sort,
                a.1.created_at,
                a.1.id,
                b.1.sort,
                b.1.created_at,
                b.1.id,
                c.1.sort,
                c.1.created_at,
                c.1.id,
            );
        }
    }

    fn rank_le_exec(&self, other: &JoinedRequest) -> (r: bool) {
        if self.group_sort != other.group_sort {
            return self.group_sort < other.group_sort;
        }
        position_le_exec(
            self.request.sort,
            self.request.created_at,
            self.request.id.as_str(),
            other.request.sort,
            other.request.created_at,
            other.request.id.as_str(),
        )
    }
}

} // verus!
