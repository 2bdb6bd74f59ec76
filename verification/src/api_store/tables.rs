//! The workbench's tables and the rules they keep: ids are unique in each table, a new
//! record goes after its siblings, and deleting a record deletes what belongs to it.
use vstd::prelude::*;

use crate::api_client_rules::{DeletionSummary, require_name, required_name};
use crate::api_http::request_prep::string_views;
use crate::api_store::rows::{EnvironmentView, GroupView, HistoryView, ProjectView, RequestView};
use crate::api_store::table::{
    Ordered, Row, count_rows, find_row, has_key, keys_of, keys_unique, lemma_unique_filter,
    lemma_unique_push, lemma_unique_update, lookup, max_sort_where, next_sort, row_keys, select_rows,
    sorts_of, contains_string,
};
use crate::models::api_client::{ApiEnvironment, ApiGroup, ApiProject, ApiRequest, ApiRequestHistory};
use crate::repositories::common::{not_found_message, not_found_text};
use crate::store::keyed::{Duplicate, seq_views};
use crate::store::ranked::{is_ranked_permutation, sort_ranked};
use crate::store::stamp::{is_short_id, now_millis, random_id};
use crate::text::{chars_of, push_str, seq_eq, string_of, trim};

verus! {

impl Row for ApiProject {
    open spec fn key_of(v: ProjectView) -> Seq<char> {
        v.id
    }

    fn key(&self) -> (r: &str) {
        self.id.as_str()
    }
}

impl Ordered for ApiProject {
    open spec fn sort_of(v: ProjectView) -> i64 {
        v.sort
    }

    fn sort_value(&self) -> (r: i64) {
        self.sort
    }
}

impl Row for ApiGroup {
    open spec fn key_of(v: GroupView) -> Seq<char> {
        v.id
    }

    fn key(&self) -> (r: &str) {
        self.id.as_str()
    }
}

impl Ordered for ApiGroup {
    open spec fn sort_of(v: GroupView) -> i64 {
        v.sort
    }

    fn sort_value(&self) -> (r: i64) {
        self.sort
    }
}

impl Row for ApiRequest {
    open spec fn key_of(v: RequestView) -> Seq<char> {
        v.id
    }

    fn key(&self) -> (r: &str) {
        self.id.as_str()
    }
}

impl Ordered for ApiRequest {
    open spec fn sort_of(v: RequestView) -> i64 {
        v.sort
    }

    fn sort_value(&self) -> (r: i64) {
        self.sort
    }
}

impl Row for ApiEnvironment {
    open spec fn key_of(v: EnvironmentView) -> Seq<char> {
        v.id
    }

    fn key(&self) -> (r: &str) {
        self.id.as_str()
    }
}

impl Row for ApiRequestHistory {
    open spec fn key_of(v: HistoryView) -> Seq<char> {
        v.id
    }

    fn key(&self) -> (r: &str) {
        self.id.as_str()
    }
}

/// Rows a table can hold: the largest row id SQLite gives out.
pub open spec fn row_limit() -> int {
    0x7fff_ffff_ffff_ffff
}

/// `数据库操作失败: {detail}`, the message of a failed statement.
pub open spec fn db_message(detail: Seq<char>) -> Seq<char> {
    "数据库操作失败: "@ + detail
}

pub fn db_error(detail: &str) -> (r: String)
    ensures
        r@ == db_message(detail@),
{
    let mut out = chars_of("数据库操作失败: ");
    push_str(&mut out, detail);
    string_of(out.as_slice())
}

/// `prefix` followed by the random part of a new id.
pub fn prefixed(prefix: &str, fresh_id: &str) -> (r: String)
    ensures
        r@ == prefix@ + fresh_id@,
{
    let mut out = chars_of(prefix);
    push_str(&mut out, fresh_id);
    string_of(out.as_slice())
}

/// A table of `n` rows is past the row limit.
fn past_row_limit(n: usize) -> (r: bool)
    ensures
        r == (n >= row_limit()),
{
    (n as u64) >= 0x7fff_ffff_ffff_ffffu64
}

/// A table of `n` rows has no room for one more.
fn table_full(n: usize) -> (r: bool)
    ensures
        r == (n + 1 >= row_limit()),
{
    (n as u64) >= 0x7fff_ffff_ffff_fffeu64
}

/// The position after the last one, when it fits.
pub open spec fn next_position(sorts: Seq<i64>) -> Option<i64> {
    if next_sort(sorts) <= i64::MAX {
        Some(next_sort(sorts) as i64)
    } else {
        None
    }
}

/// The message when the next position does not fit: SQLite computes it as a real number,
/// which an integer column cannot be read from.
pub open spec fn position_overflow_message() -> Seq<char> {
    db_message("Invalid column type Real at index: 0, name: COALESCE(MAX(sort), -1) + 1"@)
}

fn position_after(best: Option<i64>) -> (r: Result<i64, String>)
    ensures
        match best {
            None => r == Ok::<i64, String>(0),
            Some(m) => if m < i64::MAX {
                r == Ok::<i64, String>((m + 1) as i64)
            } else {
                r is Err && r->Err_0@ == position_overflow_message()
            },
        },
{
    match best {
        None => Ok(0),
        Some(m) => if m < i64::MAX {
            Ok(m + 1)
        } else {
            Err(db_error("Invalid column type Real at index: 0, name: COALESCE(MAX(sort), -1) + 1"))
        },
    }
}

/// The projects of the workbench with their groups, requests, environments and history.
pub struct ApiClientRepository {
    projects: Vec<ApiProject>,
    groups: Vec<ApiGroup>,
    requests: Vec<ApiRequest>,
    environments: Vec<ApiEnvironment>,
    histories: Vec<ApiRequestHistory>,
}

/// The name given to the group every new project starts with.
pub const DEFAULT_GROUP_NAME: &'static str = "默认分组";

/// Groups of project `p`.
pub open spec fn in_project(p: Seq<char>) -> spec_fn(GroupView) -> bool {
    |g: GroupView| g.project_id == p
}

pub open spec fn not_in_project(p: Seq<char>) -> spec_fn(GroupView) -> bool {
    |g: GroupView| g.project_id != p
}

/// Environments of project `p`.
pub open spec fn env_in_project(p: Seq<char>) -> spec_fn(EnvironmentView) -> bool {
    |e: EnvironmentView| e.project_id == p
}

pub open spec fn env_not_in_project(p: Seq<char>) -> spec_fn(EnvironmentView) -> bool {
    |e: EnvironmentView| e.project_id != p
}

/// Requests in one of the groups `ids`.
pub open spec fn in_groups(ids: Seq<Seq<char>>) -> spec_fn(RequestView) -> bool {
    |r: RequestView| ids.contains(r.group_id)
}

pub open spec fn not_in_groups(ids: Seq<Seq<char>>) -> spec_fn(RequestView) -> bool {
    |r: RequestView| !ids.contains(r.group_id)
}

/// History of one of the requests `ids`.
pub open spec fn of_requests(ids: Seq<Seq<char>>) -> spec_fn(HistoryView) -> bool {
    |h: HistoryView| ids.contains(h.request_id)
}

pub open spec fn not_of_requests(ids: Seq<Seq<char>>) -> spec_fn(HistoryView) -> bool {
    |h: HistoryView| !ids.contains(h.request_id)
}

/// Projects other than `p`.
pub open spec fn project_other_than(p: Seq<char>) -> spec_fn(ProjectView) -> bool {
    |q: ProjectView| q.id != p
}

pub open spec fn every_project() -> spec_fn(ProjectView) -> bool {
    |q: ProjectView| true
}

/// What deleting project `p` takes with it: its groups, the requests in them, and their
/// history, counted.
pub open spec fn project_summary(
    groups: Seq<GroupView>,
    requests: Seq<RequestView>,
    histories: Seq<HistoryView>,
    p: Seq<char>,
) -> (int, int, int) {
    let gs = groups.filter(in_project(p));
    let rs = requests.filter(in_groups(keys_of::<ApiGroup>(gs)));
    let hs = histories.filter(of_requests(keys_of::<ApiRequest>(rs)));
    (gs.len() as int, rs.len() as int, hs.len() as int)
}

impl ApiClientRepository {
    pub closed spec fn projects(&self) -> Seq<ProjectView> {
        seq_views(self.projects@)
    }

    pub closed spec fn groups(&self) -> Seq<GroupView> {
        seq_views(self.groups@)
    }

    pub closed spec fn requests(&self) -> Seq<RequestView> {
        seq_views(self.requests@)
    }

    pub closed spec fn environments(&self) -> Seq<EnvironmentView> {
        seq_views(self.environments@)
    }

    pub closed spec fn histories(&self) -> Seq<HistoryView> {
        seq_views(self.histories@)
    }

    /// Ids are unique in each table and no table is past the row limit.
    pub open spec fn wf(&self) -> bool {
        &&& keys_unique::<ApiProject>(self.projects())
        &&& keys_unique::<ApiGroup>(self.groups())
        &&& keys_unique::<ApiRequest>(self.requests())
        &&& keys_unique::<ApiEnvironment>(self.environments())
        &&& keys_unique::<ApiRequestHistory>(self.histories())
        &&& self.projects().len() < row_limit()
        &&& self.groups().len() < row_limit()
        &&& self.requests().len() < row_limit()
        &&& self.environments().len() < row_limit()
        &&& self.histories().len() < row_limit()
    }

    /// Empty tables.
    pub fn new() -> (r: Self)
        ensures
            r.wf(),
            r.projects().len() == 0,
            r.groups().len() == 0,
            r.requests().len() == 0,
            r.environments().len() == 0,
            r.histories().len() == 0,
    {
        let r = ApiClientRepository {
            projects: Vec::new(),
            groups: Vec::new(),
            requests: Vec::new(),
            environments: Vec::new(),
            histories: Vec::new(),
        };
        assert(r.projects() =~= Seq::<ProjectView>::empty());
        assert(r.groups() =~= Seq::<GroupView>::empty());
        assert(r.requests() =~= Seq::<RequestView>::empty());
        assert(r.environments() =~= Seq::<EnvironmentView>::empty());
        assert(r.histories() =~= Seq::<HistoryView>::empty());
        r
    }

    /// The projects, by `sort`, then creation time, then id.
    pub fn list_projects(&self) -> (r: Result<Vec<ApiProject>, String>)
        requires
            self.wf(),
        ensures
            r is Ok,
            is_ranked_permutation::<ApiProject>(self.projects(), seq_views(r->Ok_0@)),
    {
        let all = select_rows(&self.projects, |q: &ApiProject| -> (b: bool) ensures b == true { true }, Ghost(every_project()));
        proof {
            let s = self.projects();
            assert(s.filter(every_project()) =~= s) by {
                lemma_filter_all(s, every_project());
            }
        }
        Ok(sort_ranked(all))
    }
}

impl ApiClientRepository {
    /// The two values hold the same records.
    pub open spec fn same_tables(&self, other: &Self) -> bool {
        &&& self.projects() == other.projects()
        &&& self.groups() == other.groups()
        &&& self.requests() == other.requests()
        &&& self.environments() == other.environments()
        &&& self.histories() == other.histories()
    }

    /// What `create_project_with` does: its result and the tables it leaves.
    pub open spec fn create_project_outcome(old: Self, fin: Self, name: &str, description: &str, now: i64, project_fresh: Seq<char>, group_fresh: Seq<char>, r: Result<ApiProject, String>) -> bool {
        &&& (required_name(name@, "项目名称"@) is Err ==> r is Err && r->Err_0@ == required_name(name@, "项目名称"@)->Err_0 && fin.same_tables(&old))
        &&& (r is Err ==> fin.same_tables(&old))
        &&& (r is Ok <==> (required_name(name@, "项目名称"@) is Ok
            && next_position(sorts_of::<ApiProject>(old.projects())) is Some
            && !has_key::<ApiProject>(old.projects(), "apj_"@ + project_fresh)
            && !has_key::<ApiGroup>(old.groups(), "agr_"@ + group_fresh)
            && old.projects().len() + 1 < row_limit()
            && old.groups().len() + 1 < row_limit()))
        &&& (r is Ok ==> {
            let p = r->Ok_0@;
            &&& p == (ProjectView {
                id: "apj_"@ + project_fresh,
                name: trim(name@),
                description: trim(description@),
                sort: next_position(sorts_of::<ApiProject>(old.projects()))->Some_0,
                created_at: now,
                updated_at: now,
            })
            &&& fin.projects() == old.projects().push(p)
            &&& fin.groups() == old.groups().push(GroupView {
                id: "agr_"@ + group_fresh,
                project_id: p.id,
                parent_group_id: None,
                name: DEFAULT_GROUP_NAME@,
                sort: 0,
                created_at: now,
                updated_at: now,
            })
            &&& fin.requests() == old.requests()
            &&& fin.environments() == old.environments()
            &&& fin.histories() == old.histories()
        })
    }

    /// Creates a project, trimmed, after the last one, with its default group, both stamped
    /// `now`; `project_fresh` and `group_fresh` are the random parts of their ids.
    pub fn create_project_with(
        &mut self,
        name: &str,
        description: &str,
        now: i64,
        project_fresh: &str,
        group_fresh: &str,
    ) -> (r: Result<ApiProject, String>)
        requires
            old(self).wf(),
        ensures
            final(self).wf(),
            Self::create_project_outcome(*old(self), *final(self), name, description, now, project_fresh@, group_fresh@, r),
    {
        let name = match require_name(name, "项目名称") {
            Ok(n) => n,
            Err(e) => return Err(e),
        };
        let best = max_sort_where(&self.projects, |q: &ApiProject| -> (b: bool) ensures b == true { true }, Ghost(every_project()));
        proof {
            lemma_filter_all(self.projects(), every_project());
        }
        let sort = match position_after(best) {
            Ok(s) => s,
            Err(e) => return Err(e),
        };
        let id = prefixed("apj_", project_fresh);
        if find_row(&self.projects, id.as_str()).is_some() {
            return Err(db_error("UNIQUE constraint failed: api_projects.id"));
        }
        if table_full(self.projects.len()) {
            return Err(db_error("database or disk is full"));
        }
        let group_id = prefixed("agr_", group_fresh);
        if find_row(&self.groups, group_id.as_str()).is_some() {
            return Err(db_error("UNIQUE constraint failed: api_groups.id"));
        }
        if table_full(self.groups.len()) {
            return Err(db_error("database or disk is full"));
        }
        let description = string_of(crate::text::trimmed(chars_of(description).as_slice()).as_slice());
        let project = ApiProject { id, name, description, sort, created_at: now, updated_at: now };
        let group = ApiGroup {
            id: group_id,
            project_id: project.id.clone(),
            parent_group_id: None,
            name: DEFAULT_GROUP_NAME.to_owned(),
            sort: 0,
            created_at: now,
            updated_at: now,
        };
        let ghost ps = self.projects();
        let ghost gs = self.groups();
        proof {
            lemma_unique_push::<ApiProject>(ps, project@);
            lemma_unique_push::<ApiGroup>(gs, group@);
        }
        let created = project.duplicate();
        self.projects.push(project);
        self.groups.push(group);
        assert(self.projects() =~= ps.push(created@));
        assert(self.groups() =~= gs.push(group@));
        Ok(created)
    }

    /// Creates a project with its default group, now, under fresh random ids.
    pub fn create_project(&mut self, name: &str, description: &str) -> (r: Result<ApiProject, String>)
        requires
            old(self).wf(),
        ensures
            final(self).wf(),
            required_name(name@, "项目名称"@) is Err ==> r is Err && r->Err_0@ == required_name(name@, "项目名称"@)->Err_0,
            r is Err ==> final(self).same_tables(old(self)),
            r is Ok ==> {
                let p = r->Ok_0@;
                &&& p.name == trim(name@)
                &&& p.description == trim(description@)
                &&& p.sort == next_position(sorts_of::<ApiProject>(old(self).projects()))->Some_0
                &&& final(self).projects() == old(self).projects().push(p)
                &&& final(self).groups().len() == old(self).groups().len() + 1
                &&& final(self).groups().last().project_id == p.id
                &&& final(self).groups().last().name == DEFAULT_GROUP_NAME@
                &&& final(self).groups().last().parent_group_id is None
                &&& final(self).requests() == old(self).requests()
            },
            exists|now: i64, project_fresh: Seq<char>, group_fresh: Seq<char>|
                is_short_id(project_fresh) && is_short_id(group_fresh) && #[trigger] Self::create_project_outcome(*old(self), *final(self), name, description, now, project_fresh, group_fresh, r),
    {
        let now = now_millis();
        let project_fresh = random_id(10);
        let group_fresh = random_id(10);
        self.create_project_with(name, description, now, project_fresh.as_str(), group_fresh.as_str())
    }

    /// What `rename_project_with` does: its result and the tables it leaves.
    pub open spec fn rename_project_outcome(old: Self, fin: Self, project_id: &str, name: &str, now: i64, r: Result<ApiProject, String>) -> bool {
        &&& (r is Err ==> fin.same_tables(&old))
        &&& (required_name(name@, "项目名称"@) is Err ==> r is Err && r->Err_0@ == required_name(name@, "项目名称"@)->Err_0)
        &&& (required_name(name@, "项目名称"@) is Ok && !has_key::<ApiProject>(old.projects(), project_id@) ==> r
            is Err && r->Err_0@ == not_found_message(project_id@, "项目"@))
        &&& (required_name(name@, "项目名称"@) is Ok && has_key::<ApiProject>(old.projects(), project_id@) ==> {
            let q = lookup::<ApiProject>(old.projects(), project_id@)->Some_0;
            let p = ProjectView { name: trim(name@), updated_at: now, ..q };
            &&& r is Ok && r->Ok_0@ == p
            &&& fin.projects() == old.projects().update(
                crate::api_store::table::key_index::<ApiProject>(old.projects(), project_id@),
                p,
            )
            &&& fin.groups() == old.groups()
            &&& fin.requests() == old.requests()
            &&& fin.environments() == old.environments()
            &&& fin.histories() == old.histories()
        })
    }

    /// Renames a project and stamps it `now`.
    pub fn rename_project_with(&mut self, project_id: &str, name: &str, now: i64) -> (r: Result<ApiProject, String>)
        requires
            old(self).wf(),
        ensures
            final(self).wf(),
            Self::rename_project_outcome(*old(self), *final(self), project_id, name, now, r),
    {
        let name = match require_name(name, "项目名称") {
            Ok(n) => n,
            Err(e) => return Err(e),
        };
        let i = match find_row(&self.projects, project_id) {
            Some(i) => i,
            None => return Err(not_found_text(project_id, "项目")),
        };
        let old_project = self.projects[i].duplicate();
        let project = ApiProject { name, updated_at: now, ..old_project };
        let ghost ps = self.projects();
        proof { lemma_unique_update::<ApiProject>(ps, i as int, project@); }
        let result = project.duplicate();
        self.projects.set(i, project);
        assert(self.projects() =~= ps.update(i as int, result@));
        Ok(result)
    }

    /// Renames a project, now.
    pub fn rename_project(&mut self, project_id: &str, name: &str) -> (r: Result<ApiProject, String>)
        requires
            old(self).wf(),
        ensures
            final(self).wf(),
            r is Err ==> final(self).same_tables(old(self)),
            required_name(name@, "项目名称"@) is Err ==> r is Err && r->Err_0@ == required_name(name@, "项目名称"@)->Err_0,
            required_name(name@, "项目名称"@) is Ok && !has_key::<ApiProject>(old(self).projects(), project_id@) ==> r
                is Err && r->Err_0@ == not_found_message(project_id@, "项目"@),
            r is Ok ==> r->Ok_0@.name == trim(name@) && r->Ok_0@.id == project_id@,
            exists|now: i64|
                #[trigger] Self::rename_project_outcome(*old(self), *final(self), project_id, name, now, r),
    {
        let now = now_millis();
        self.rename_project_with(project_id, name, now)
    }

    /// What `update_project_with` does: its result and the tables it leaves.
    pub open spec fn update_project_outcome(old: Self, fin: Self, project_id: &str, name: &str, description: &str, now: i64, r: Result<ApiProject, String>) -> bool {
        &&& (r is Err ==> fin.same_tables(&old))
        &&& (required_name(name@, "项目名称"@) is Err ==> r is Err && r->Err_0@ == required_name(name@, "项目名称"@)->Err_0)
        &&& (required_name(name@, "项目名称"@) is Ok && !has_key::<ApiProject>(old.projects(), project_id@) ==> r
            is Err && r->Err_0@ == not_found_message(project_id@, "项目"@))
        &&& (required_name(name@, "项目名称"@) is Ok && has_key::<ApiProject>(old.projects(), project_id@) ==> {
            let q = lookup::<ApiProject>(old.projects(), project_id@)->Some_0;
            let p = ProjectView { name: trim(name@), description: trim(description@), updated_at: now, ..q };
            &&& r is Ok && r->Ok_0@ == p
            &&& fin.projects() == old.projects().update(
                crate::api_store::table::key_index::<ApiProject>(old.projects(), project_id@),
                p,
            )
            &&& fin.groups() == old.groups()
            &&& fin.requests() == old.requests()
            &&& fin.environments() == old.environments()
            &&& fin.histories() == old.histories()
        })
    }

    /// Sets a project's name and description, both trimmed, and stamps it `now`.
    pub fn update_project_with(&mut self, project_id: &str, name: &str, description: &str, now: i64) -> (r: Result<ApiProject, String>)
        requires
            old(self).wf(),
        ensures
            final(self).wf(),
            Self::update_project_outcome(*old(self), *final(self), project_id, name, description, now, r),
    {
        let name = match require_name(name, "项目名称") {
            Ok(n) => n,
            Err(e) => return Err(e),
        };
        let i = match find_row(&self.projects, project_id) {
            Some(i) => i,
            None => return Err(not_found_text(project_id, "项目")),
        };
        let description = string_of(crate::text::trimmed(chars_of(description).as_slice()).as_slice());
        let old_project = self.projects[i].duplicate();
        let project = ApiProject { name, description, updated_at: now, ..old_project };
        let ghost ps = self.projects();
        proof { lemma_unique_update::<ApiProject>(ps, i as int, project@); }
        let result = project.duplicate();
        self.projects.set(i, project);
        assert(self.projects() =~= ps.update(i as int, result@));
        Ok(result)
    }

    /// Sets a project's name and description, now.
    pub fn update_project(&mut self, project_id: &str, name: &str, description: &str) -> (r: Result<ApiProject, String>)
        requires
            old(self).wf(),
        ensures
            final(self).wf(),
            r is Err ==> final(self).same_tables(old(self)),
            required_name(name@, "项目名称"@) is Err ==> r is Err && r->Err_0@ == required_name(name@, "项目名称"@)->Err_0,
            required_name(name@, "项目名称"@) is Ok && !has_key::<ApiProject>(old(self).projects(), project_id@) ==> r
                is Err && r->Err_0@ == not_found_message(project_id@, "项目"@),
            r is Ok ==> r->Ok_0@.name == trim(name@) && r->Ok_0@.description == trim(description@)
                && r->Ok_0@.id == project_id@,
            exists|now: i64|
                #[trigger] Self::update_project_outcome(*old(self), *final(self), project_id, name, description, now, r),
    {
        let now = now_millis();
        self.update_project_with(project_id, name, description, now)
    }
}

impl ApiClientRepository {
    /// The ids of the groups of a project, of the requests in them, and the count of their
    /// history.
    fn project_members(&self, project_id: &str) -> (r: (Vec<String>, Vec<String>, usize))
        requires
            self.wf(),
        ensures
            ({
                let gs = self.groups().filter(in_project(project_id@));
                let rs = self.requests().filter(in_groups(keys_of::<ApiGroup>(gs)));
                &&& string_views(r.0@) == keys_of::<ApiGroup>(gs)
                &&& string_views(r.1@) == keys_of::<ApiRequest>(rs)
                &&& r.2 == self.histories().filter(of_requests(keys_of::<ApiRequest>(rs))).len()
            }),
    {
        let pid = chars_of(project_id);
        let gs = select_rows(
            &self.groups,
            |g: &ApiGroup| -> (b: bool) ensures b == (g.project_id@ == pid@) { seq_eq(chars_of(g.project_id.as_str()).as_slice(), pid.as_slice()) },
            Ghost(in_project(project_id@)),
        );
        let gids = row_keys(&gs);
        let rs = select_rows(
            &self.requests,
            |q: &ApiRequest| -> (b: bool) ensures b == string_views(gids@).contains(q.group_id@) { contains_string(&gids, q.group_id.as_str()) },
            Ghost(in_groups(string_views(gids@))),
        );
        let rids = row_keys(&rs);
        let n = count_rows(
            &self.histories,
            |h: &ApiRequestHistory| -> (b: bool) ensures b == string_views(rids@).contains(h.request_id@) { contains_string(&rids, h.request_id.as_str()) },
            Ghost(of_requests(string_views(rids@))),
        );
        (gids, rids, n)
    }

    /// What deleting a project would take with it, changing nothing; a project that does
    /// not exist takes nothing.
    pub fn preview_project_deletion(&self, project_id: &str) -> (r: Result<DeletionSummary, String>)
        requires
            self.wf(),
        ensures
            r is Ok,
            ({
                let (g, q, h) = project_summary(self.groups(), self.requests(), self.histories(), project_id@);
                r->Ok_0.deleted_groups == g && r->Ok_0.deleted_requests == q && r->Ok_0.deleted_histories == h
            }),
    {
        let (gids, rids, n) = self.project_members(project_id);
        proof {
            let gs = self.groups().filter(in_project(project_id@));
            let rs = self.requests().filter(in_groups(keys_of::<ApiGroup>(gs)));
            assert(gs.len() <= self.groups().len());
            assert(rs.len() <= self.requests().len());
            assert(self.histories().filter(of_requests(keys_of::<ApiRequest>(rs))).len() <= self.histories().len());
            assert(string_views(gids@).len() == gids@.len());
            assert(string_views(rids@).len() == rids@.len());
        }
        Ok(DeletionSummary { deleted_groups: gids.len() as i64, deleted_requests: rids.len() as i64, deleted_histories: n as i64 })
    }

    /// Deletes a project with its groups, their requests and history, and its environments;
    /// returns what went with it.
    pub fn delete_project(&mut self, project_id: &str) -> (r: Result<DeletionSummary, String>)
        requires
            old(self).wf(),
        ensures
            final(self).wf(),
            !has_key::<ApiProject>(old(self).projects(), project_id@) ==> r is Err && r->Err_0@ == not_found_message(
                project_id@,
                "项目"@,
            ) && final(self).same_tables(old(self)),
            has_key::<ApiProject>(old(self).projects(), project_id@) ==> {
                let gs = old(self).groups().filter(in_project(project_id@));
                let gids = keys_of::<ApiGroup>(gs);
                let rs = old(self).requests().filter(in_groups(gids));
                let rids = keys_of::<ApiRequest>(rs);
                let (g, q, h) = project_summary(old(self).groups(), old(self).requests(), old(self).histories(), project_id@);
                &&& r is Ok
                &&& r->Ok_0.deleted_groups == g && r->Ok_0.deleted_requests == q && r->Ok_0.deleted_histories == h
                &&& final(self).projects() == old(self).projects().filter(project_other_than(project_id@))
                &&& final(self).groups() == old(self).groups().filter(not_in_project(project_id@))
                &&& final(self).requests() == old(self).requests().filter(not_in_groups(gids))
                &&& final(self).histories() == old(self).histories().filter(not_of_requests(rids))
                &&& final(self).environments() == old(self).environments().filter(env_not_in_project(project_id@))
            },
    {
        if find_row(&self.projects, project_id).is_none() {
            return Err(not_found_text(project_id, "项目"));
        }
        let summary = match self.preview_project_deletion(project_id) {
            Ok(s) => s,
            Err(e) => return Err(e),
        };
        let (gids, rids, _) = self.project_members(project_id);
        let pid = chars_of(project_id);
        let projects = select_rows(
            &self.projects,
            |q: &ApiProject| -> (b: bool) ensures b == (q.id@ != pid@) { !seq_eq(chars_of(q.id.as_str()).as_slice(), pid.as_slice()) },
            Ghost(project_other_than(project_id@)),
        );
        let groups = select_rows(
            &self.groups,
            |g: &ApiGroup| -> (b: bool) ensures b == (g.project_id@ != pid@) { !seq_eq(chars_of(g.project_id.as_str()).as_slice(), pid.as_slice()) },
            Ghost(not_in_project(project_id@)),
        );
        let requests = select_rows(
            &self.requests,
            |q: &ApiRequest| -> (b: bool) ensures b == !string_views(gids@).contains(q.group_id@) { !contains_string(&gids, q.group_id.as_str()) },
            Ghost(not_in_groups(string_views(gids@))),
        );
        let histories = select_rows(
            &self.histories,
            |h: &ApiRequestHistory| -> (b: bool) ensures b == !string_views(rids@).contains(h.request_id@) { !contains_string(&rids, h.request_id.as_str()) },
            Ghost(not_of_requests(string_views(rids@))),
        );
        let environments = select_rows(
            &self.environments,
            |e: &ApiEnvironment| -> (b: bool) ensures b == (e.project_id@ != pid@) { !seq_eq(chars_of(e.project_id.as_str()).as_slice(), pid.as_slice()) },
            Ghost(env_not_in_project(project_id@)),
        );
        proof {
            lemma_unique_filter::<ApiProject>(self.projects(), project_other_than(project_id@));
            lemma_unique_filter::<ApiGroup>(self.groups(), not_in_project(project_id@));
            lemma_unique_filter::<ApiRequest>(self.requests(), not_in_groups(string_views(gids@)));
            lemma_unique_filter::<ApiRequestHistory>(self.histories(), not_of_requests(string_views(rids@)));
            lemma_unique_filter::<ApiEnvironment>(self.environments(), env_not_in_project(project_id@));
            assert(self.projects().filter(project_other_than(project_id@)).len() <= self.projects().len());
            assert(self.groups().filter(not_in_project(project_id@)).len() <= self.groups().len());
            assert(self.requests().filter(not_in_groups(string_views(gids@))).len() <= self.requests().len());
            assert(self.histories().filter(not_of_requests(string_views(rids@))).len() <= self.histories().len());
            assert(self.environments().filter(env_not_in_project(project_id@)).len() <= self.environments().len());
        }
        self.projects = projects;
        self.groups = groups;
        self.requests = requests;
        self.histories = histories;
        self.environments = environments;
        Ok(summary)
    }
}

/// The group `id` exists and belongs to project `p`.
pub open spec fn belongs(gs: Seq<GroupView>, p: Seq<char>, id: Seq<char>) -> bool {
    has_key::<ApiGroup>(gs, id) && lookup::<ApiGroup>(gs, id)->Some_0.project_id == p
}

/// The position of the last occurrence of `x` in `ids`, or -1.
pub open spec fn last_position(ids: Seq<Seq<char>>, x: Seq<char>) -> int
    decreases ids.len(),
{
    if ids.len() == 0 {
        -1
    } else if ids.last() == x {
        ids.len() - 1
    } else {
        last_position(ids.drop_last(), x)
    }
}

pub proof fn lemma_last_position(ids: Seq<Seq<char>>, x: Seq<char>)
    ensures
        ids.contains(x) ==> 0 <= last_position(ids, x) < ids.len() && ids[last_position(ids, x)] == x,
        !ids.contains(x) ==> last_position(ids, x) == -1,
    decreases ids.len(),
{
    if ids.len() > 0 {
        lemma_last_position(ids.drop_last(), x);
        if ids.last() != x {
            if ids.contains(x) {
                let i = choose|i: int| 0 <= i < ids.len() && ids[i] == x;
                assert(ids.drop_last()[i] == x);
            }
            if ids.drop_last().contains(x) {
                let i = choose|i: int| 0 <= i < ids.drop_last().len() && ids.drop_last()[i] == x;
                assert(ids[i] == x);
            }
        } else {
            assert(ids[ids.len() - 1] == x);
        }
    }
}

/// The groups after giving each group of project `p` listed in `ids` the position of its
/// last mention there, stamped `now`.
pub open spec fn regrouped(gs: Seq<GroupView>, p: Seq<char>, ids: Seq<Seq<char>>, now: i64) -> Seq<GroupView> {
    Seq::new(
        gs.len(),
        |j: int|
            if gs[j].project_id == p && ids.contains(gs[j].id) {
                GroupView { sort: last_position(ids, gs[j].id) as i64, updated_at: now, ..gs[j] }
            } else {
                gs[j]
            },
    )
}

/// The parent chain from group `from` reaches `target` within `fuel` steps.
pub open spec fn chain_reaches(gs: Seq<GroupView>, from: Seq<char>, target: Seq<char>, fuel: nat) -> bool
    decreases fuel,
{
    if from == target {
        true
    } else if fuel == 0 {
        false
    } else {
        match lookup::<ApiGroup>(gs, from) {
            Some(g) => match g.parent_group_id {
                Some(p) => chain_reaches(gs, p, target, (fuel - 1) as nat),
                None => false,
            },
            None => false,
        }
    }
}

/// Group `g` is `target` or below it: its parent chain reaches `target` in as many steps as
/// there are groups.
pub open spec fn under(gs: Seq<GroupView>, target: Seq<char>) -> spec_fn(GroupView) -> bool {
    |g: GroupView| chain_reaches(gs, g.id, target, gs.len())
}

pub open spec fn not_under(gs: Seq<GroupView>, target: Seq<char>) -> spec_fn(GroupView) -> bool {
    |g: GroupView| !chain_reaches(gs, g.id, target, gs.len())
}

/// Requests of group `id`.
pub open spec fn in_group(id: Seq<char>) -> spec_fn(RequestView) -> bool {
    |r: RequestView| r.group_id == id
}

/// Whether the parent chain from `from` reaches `target` within as many steps as there are
/// groups.
fn chain_reaches_exec(groups: &Vec<ApiGroup>, from: &str, target: &str) -> (r: bool)
    requires
        keys_unique::<ApiGroup>(seq_views(groups@)),
    ensures
        r == chain_reaches(seq_views(groups@), from@, target@, groups@.len() as nat),
{
    let ghost gs = seq_views(groups@);
    let n = groups.len();
    let t = chars_of(target);
    let mut cursor = chars_of(from);
    let mut k: usize = 0;
    loop
        invariant
            gs == seq_views(groups@),
            keys_unique::<ApiGroup>(gs),
            n == groups@.len(),
            k <= n,
            t@ == target@,
            chain_reaches(gs, from@, target@, n as nat) == chain_reaches(gs, cursor@, target@, (n - k) as nat),
        decreases n - k,
    {
        if seq_eq(cursor.as_slice(), t.as_slice()) {
            return true;
        }
        if k == n {
            return false;
        }
        let here = string_of(cursor.as_slice());
        match find_row(groups, here.as_str()) {
            None => return false,
            Some(i) => match &groups[i].parent_group_id {
                None => return false,
                Some(parent) => {
                    cursor = chars_of(parent.as_str());
                },
            },
        }
        k += 1;
    }
}

impl ApiClientRepository {
    /// The groups of a project, by `sort`, then creation time, then id.
    pub fn list_groups(&self, project_id: &str) -> (r: Result<Vec<ApiGroup>, String>)
        requires
            self.wf(),
        ensures
            r is Ok,
            is_ranked_permutation::<ApiGroup>(self.groups().filter(in_project(project_id@)), seq_views(r->Ok_0@)),
    {
        let pid = chars_of(project_id);
        let picked = select_rows(
            &self.groups,
            |g: &ApiGroup| -> (b: bool) ensures b == (g.project_id@ == pid@) { seq_eq(chars_of(g.project_id.as_str()).as_slice(), pid.as_slice()) },
            Ghost(in_project(project_id@)),
        );
        Ok(sort_ranked(picked))
    }

    /// What `create_group_with` does: its result and the tables it leaves.
    pub open spec fn create_group_outcome(old: Self, fin: Self, project_id: &str, parent_group_id: Option<&str>, name: &str, now: i64, fresh_id: Seq<char>, r: Result<ApiGroup, String>) -> bool {
        &&& (r is Err ==> fin.same_tables(&old))
        &&& (required_name(name@, "分组名称"@) is Err ==> r is Err && r->Err_0@ == required_name(name@, "分组名称"@)->Err_0)
        &&& (required_name(name@, "分组名称"@) is Ok && !has_key::<ApiProject>(old.projects(), project_id@) ==> r
            is Err && r->Err_0@ == not_found_message(project_id@, "项目"@))
        &&& (({
            let gs = old.groups();
            required_name(name@, "分组名称"@) is Ok && has_key::<ApiProject>(old.projects(), project_id@)
                && parent_group_id is Some ==> {
                let q = parent_group_id->Some_0@;
                &&& !has_key::<ApiGroup>(gs, q) ==> r is Err && r->Err_0@ == not_found_message(q, "分组"@)
                &&& has_key::<ApiGroup>(gs, q) && lookup::<ApiGroup>(gs, q)->Some_0.project_id != project_id@ ==> r
                    is Err && r->Err_0@ == "父分组 "@ + q + " 不属于项目 "@ + project_id@
            }
        }))
        &&& (r is Ok <==> ({
            let gs = old.groups();
            &&& required_name(name@, "分组名称"@) is Ok
            &&& has_key::<ApiProject>(old.projects(), project_id@)
            &&& parent_group_id is Some ==> belongs(gs, project_id@, parent_group_id->Some_0@)
            &&& next_position(sorts_of::<ApiGroup>(gs.filter(in_project(project_id@)))) is Some
            &&& !has_key::<ApiGroup>(gs, "agr_"@ + fresh_id)
            &&& gs.len() + 1 < row_limit()
        }))
        &&& (r is Ok ==> {
            let g = r->Ok_0@;
            &&& g == (GroupView {
                id: "agr_"@ + fresh_id,
                project_id: project_id@,
                parent_group_id: match parent_group_id { Some(q) => Some(q@), None => None },
                name: trim(name@),
                sort: next_position(sorts_of::<ApiGroup>(old.groups().filter(in_project(project_id@))))->Some_0,
                created_at: now,
                updated_at: now,
            })
            &&& fin.groups() == old.groups().push(g)
            &&& fin.projects() == old.projects()
            &&& fin.requests() == old.requests()
            &&& fin.environments() == old.environments()
            &&& fin.histories() == old.histories()
        })
    }

    /// Creates a group of a project, under `parent_group_id` when given, after the last group
    /// of the project, stamped `now`; `fresh_id` is the random part of its id.
    pub fn create_group_with(
        &mut self,
        project_id: &str,
        parent_group_id: Option<&str>,
        name: &str,
        now: i64,
        fresh_id: &str,
    ) -> (r: Result<ApiGroup, String>)
        requires
            old(self).wf(),
        ensures
            final(self).wf(),
            Self::create_group_outcome(*old(self), *final(self), project_id, parent_group_id, name, now, fresh_id@, r),
    {
        let name = match require_name(name, "分组名称") {
            Ok(n) => n,
            Err(e) => return Err(e),
        };
        if find_row(&self.projects, project_id).is_none() {
            return Err(not_found_text(project_id, "项目"));
        }
        if let Some(parent) = parent_group_id {
            match find_row(&self.groups, parent) {
                None => return Err(not_found_text(parent, "分组")),
                Some(i) => {
                    if !seq_eq(chars_of(self.groups[i].project_id.as_str()).as_slice(), chars_of(project_id).as_slice()) {
                        let mut msg = chars_of("父分组 ");
                        push_str(&mut msg, parent);
                        push_str(&mut msg, " 不属于项目 ");
                        push_str(&mut msg, project_id);
                        return Err(string_of(msg.as_slice()));
                    }
                },
            }
        }
        let pid = chars_of(project_id);
        let best = max_sort_where(
            &self.groups,
            |g: &ApiGroup| -> (b: bool) ensures b == (g.project_id@ == pid@) { seq_eq(chars_of(g.project_id.as_str()).as_slice(), pid.as_slice()) },
            Ghost(in_project(project_id@)),
        );
        let sort = match position_after(best) {
            Ok(s) => s,
            Err(e) => return Err(e),
        };
        let id = prefixed("agr_", fresh_id);
        if find_row(&self.groups, id.as_str()).is_some() {
            return Err(db_error("UNIQUE constraint failed: api_groups.id"));
        }
        if table_full(self.groups.len()) {
            return Err(db_error("database or disk is full"));
        }
        let group = ApiGroup {
            id,
            project_id: project_id.to_owned(),
            parent_group_id: match parent_group_id {
                Some(q) => Some(q.to_owned()),
                None => None,
            },
            name,
            sort,
            created_at: now,
            updated_at: now,
        };
        let ghost gs = self.groups();
        proof { lemma_unique_push::<ApiGroup>(gs, group@); }
        let created = group.duplicate();
        self.groups.push(group);
        assert(self.groups() =~= gs.push(created@));
        Ok(created)
    }

    /// Creates a top-level group of a project, now, under a fresh random id.
    pub fn create_group(&mut self, project_id: &str, name: &str) -> (r: Result<ApiGroup, String>)
        requires
            old(self).wf(),
        ensures
            final(self).wf(),
            r is Err ==> final(self).same_tables(old(self)),
            required_name(name@, "分组名称"@) is Err ==> r is Err && r->Err_0@ == required_name(name@, "分组名称"@)->Err_0,
            required_name(name@, "分组名称"@) is Ok && !has_key::<ApiProject>(old(self).projects(), project_id@) ==> r
                is Err && r->Err_0@ == not_found_message(project_id@, "项目"@),
            r is Ok ==> {
                let g = r->Ok_0@;
                &&& g.project_id == project_id@ && g.parent_group_id is None && g.name == trim(name@)
                &&& g.sort == next_position(sorts_of::<ApiGroup>(old(self).groups().filter(in_project(project_id@))))->Some_0
                &&& final(self).groups() == old(self).groups().push(g)
                &&& final(self).requests() == old(self).requests()
            },
            exists|now: i64, fresh: Seq<char>|
                is_short_id(fresh) && #[trigger] Self::create_group_outcome(*old(self), *final(self), project_id, None::<&str>, name, now, fresh, r),
    {
        let now = now_millis();
        let fresh = random_id(10);
        self.create_group_with(project_id, None, name, now, fresh.as_str())
    }

    /// What `rename_group_with` does: its result and the tables it leaves.
    pub open spec fn rename_group_outcome(old: Self, fin: Self, group_id: &str, name: &str, now: i64, r: Result<ApiGroup, String>) -> bool {
        &&& (r is Err ==> fin.same_tables(&old))
        &&& (required_name(name@, "分组名称"@) is Err ==> r is Err && r->Err_0@ == required_name(name@, "分组名称"@)->Err_0)
        &&& (required_name(name@, "分组名称"@) is Ok && !has_key::<ApiGroup>(old.groups(), group_id@) ==> r
            is Err && r->Err_0@ == not_found_message(group_id@, "分组"@))
        &&& (required_name(name@, "分组名称"@) is Ok && has_key::<ApiGroup>(old.groups(), group_id@) ==> {
            let q = lookup::<ApiGroup>(old.groups(), group_id@)->Some_0;
            let g = GroupView { name: trim(name@), updated_at: now, ..q };
            &&& r is Ok && r->Ok_0@ == g
            &&& fin.groups() == old.groups().update(
                crate::api_store::table::key_index::<ApiGroup>(old.groups(), group_id@),
                g,
            )
            &&& fin.projects() == old.projects()
            &&& fin.requests() == old.requests()
            &&& fin.environments() == old.environments()
            &&& fin.histories() == old.histories()
        })
    }

    /// Renames a group and stamps it `now`.
    pub fn rename_group_with(&mut self, group_id: &str, name: &str, now: i64) -> (r: Result<ApiGroup, String>)
        requires
            old(self).wf(),
        ensures
            final(self).wf(),
            Self::rename_group_outcome(*old(self), *final(self), group_id, name, now, r),
    {
        let name = match require_name(name, "分组名称") {
            Ok(n) => n,
            Err(e) => return Err(e),
        };
        let i = match find_row(&self.groups, group_id) {
            Some(i) => i,
            None => return Err(not_found_text(group_id, "分组")),
        };
        let old_group = self.groups[i].duplicate();
        let group = ApiGroup { name, updated_at: now, ..old_group };
        let ghost gs = self.groups();
        proof { lemma_unique_update::<ApiGroup>(gs, i as int, group@); }
        let result = group.duplicate();
        self.groups.set(i, group);
        assert(self.groups() =~= gs.update(i as int, result@));
        Ok(result)
    }

    /// Renames a group, now.
    pub fn rename_group(&mut self, group_id: &str, name: &str) -> (r: Result<ApiGroup, String>)
        requires
            old(self).wf(),
        ensures
            final(self).wf(),
            r is Err ==> final(self).same_tables(old(self)),
            required_name(name@, "分组名称"@) is Err ==> r is Err && r->Err_0@ == required_name(name@, "分组名称"@)->Err_0,
            required_name(name@, "分组名称"@) is Ok && !has_key::<ApiGroup>(old(self).groups(), group_id@) ==> r
                is Err && r->Err_0@ == not_found_message(group_id@, "分组"@),
            r is Ok ==> r->Ok_0@.name == trim(name@) && r->Ok_0@.id == group_id@,
            exists|now: i64|
                #[trigger] Self::rename_group_outcome(*old(self), *final(self), group_id, name, now, r),
    {
        let now = now_millis();
        self.rename_group_with(group_id, name, now)
    }
}

/// The message when a group would become its own ancestor.
pub open spec fn cycle_message(group_id: Seq<char>, parent_id: Seq<char>) -> Seq<char> {
    "将分组 "@ + group_id + " 移入父分组 "@ + parent_id + " 会产生循环"@
}

/// The message when a listed group is not one of the project's.
pub open spec fn stray_group_message(group_id: Seq<char>, project_id: Seq<char>) -> Seq<char> {
    "分组 "@ + group_id + " 不属于项目 "@ + project_id
}

impl ApiClientRepository {
    /// What `move_group_with` does: its result and the tables it leaves.
    pub open spec fn move_group_outcome(old: Self, fin: Self, group_id: &str, parent_group_id: Option<&str>, now: i64, r: Result<ApiGroup, String>) -> bool {
        &&& (r is Err ==> fin.same_tables(&old))
        &&& (({
            let gs = old.groups();
            let cur = lookup::<ApiGroup>(gs, group_id@)->Some_0;
            &&& !has_key::<ApiGroup>(gs, group_id@) ==> r is Err && r->Err_0@ == not_found_message(group_id@, "分组"@)
            &&& has_key::<ApiGroup>(gs, group_id@) && parent_group_id is Some ==> {
                let q = parent_group_id->Some_0@;
                &&& q == group_id@ ==> r is Err && r->Err_0@ == "分组不能将自身设为父分组"@
                &&& q != group_id@ && !has_key::<ApiGroup>(gs, q) ==> r is Err && r->Err_0@ == not_found_message(q, "分组"@)
                &&& q != group_id@ && has_key::<ApiGroup>(gs, q) && lookup::<ApiGroup>(gs, q)->Some_0.project_id
                    != cur.project_id ==> r is Err && r->Err_0@ == "父分组 "@ + q + " 不属于项目 "@ + cur.project_id
                &&& q != group_id@ && belongs(gs, cur.project_id, q) && chain_reaches(gs, q, group_id@, gs.len())
                    ==> r is Err && r->Err_0@ == cycle_message(group_id@, q)
            }
            &&& r is Ok <==> has_key::<ApiGroup>(gs, group_id@) && (parent_group_id is Some ==> {
                let q = parent_group_id->Some_0@;
                q != group_id@ && belongs(gs, cur.project_id, q) && !chain_reaches(gs, q, group_id@, gs.len())
            })
            &&& r is Ok ==> {
                let g = GroupView {
                    parent_group_id: match parent_group_id { Some(q) => Some(q@), None => None },
                    updated_at: now,
                    ..cur
                };
                &&& r->Ok_0@ == g
                &&& fin.groups() == gs.update(crate::api_store::table::key_index::<ApiGroup>(gs, group_id@), g)
                &&& fin.projects() == old.projects()
                &&& fin.requests() == old.requests()
                &&& fin.environments() == old.environments()
                &&& fin.histories() == old.histories()
            }
        }))
    }

    /// Moves a group under another group of its project, or to the top level, and stamps it
    /// `now`; it keeps its `sort`. A group cannot become its own parent or ancestor.
    pub fn move_group_with(&mut self, group_id: &str, parent_group_id: Option<&str>, now: i64) -> (r: Result<ApiGroup, String>)
        requires
            old(self).wf(),
        ensures
            final(self).wf(),
            Self::move_group_outcome(*old(self), *final(self), group_id, parent_group_id, now, r),
    {
        let i = match find_row(&self.groups, group_id) {
            Some(i) => i,
            None => return Err(not_found_text(group_id, "分组")),
        };
        if let Some(parent) = parent_group_id {
            if seq_eq(chars_of(parent).as_slice(), chars_of(group_id).as_slice()) {
                return Err(String::from_str("分组不能将自身设为父分组"));
            }
            match find_row(&self.groups, parent) {
                None => return Err(not_found_text(parent, "分组")),
                Some(j) => {
                    if !seq_eq(
                        chars_of(self.groups[j].project_id.as_str()).as_slice(),
                        chars_of(self.groups[i].project_id.as_str()).as_slice(),
                    ) {
                        let mut msg = chars_of("父分组 ");
                        push_str(&mut msg, parent);
                        push_str(&mut msg, " 不属于项目 ");
                        push_str(&mut msg, self.groups[i].project_id.as_str());
                        return Err(string_of(msg.as_slice()));
                    }
                },
            }
            if chain_reaches_exec(&self.groups, parent, group_id) {
                let mut msg = chars_of("将分组 ");
                push_str(&mut msg, group_id);
                push_str(&mut msg, " 移入父分组 ");
                push_str(&mut msg, parent);
                push_str(&mut msg, " 会产生循环");
                return Err(string_of(msg.as_slice()));
            }
        }
        let old_group = self.groups[i].duplicate();
        let group = ApiGroup {
            parent_group_id: match parent_group_id {
                Some(q) => Some(q.to_owned()),
                None => None,
            },
            updated_at: now,
            ..old_group
        };
        let ghost gs = self.groups();
        proof { lemma_unique_update::<ApiGroup>(gs, i as int, group@); }
        let result = group.duplicate();
        self.groups.set(i, group);
        assert(self.groups() =~= gs.update(i as int, result@));
        Ok(result)
    }

    /// Moves a group, now.
    pub fn move_group(&mut self, group_id: &str, parent_group_id: Option<&str>) -> (r: Result<ApiGroup, String>)
        requires
            old(self).wf(),
        ensures
            final(self).wf(),
            r is Err ==> final(self).same_tables(old(self)),
            ({
                let gs = old(self).groups();
                let cur = lookup::<ApiGroup>(gs, group_id@)->Some_0;
                &&& !has_key::<ApiGroup>(gs, group_id@) ==> r is Err && r->Err_0@ == not_found_message(group_id@, "分组"@)
                &&& r is Ok <==> has_key::<ApiGroup>(gs, group_id@) && (parent_group_id is Some ==> {
                    let q = parent_group_id->Some_0@;
                    q != group_id@ && belongs(gs, cur.project_id, q) && !chain_reaches(gs, q, group_id@, gs.len())
                })
                &&& r is Ok ==> r->Ok_0@.id == group_id@ && r->Ok_0@.parent_group_id == match parent_group_id {
                    Some(q) => Some(q@),
                    None => None,
                }
            }),
            exists|now: i64|
                #[trigger] Self::move_group_outcome(*old(self), *final(self), group_id, parent_group_id, now, r),
    {
        let now = now_millis();
        self.move_group_with(group_id, parent_group_id, now)
    }

    /// Deletes a group with the groups below it, their requests and the requests' history.
    /// The summary counts the group itself, its own requests and their history.
    pub fn delete_group(&mut self, group_id: &str) -> (r: Result<DeletionSummary, String>)
        requires
            old(self).wf(),
        ensures
            final(self).wf(),
            !has_key::<ApiGroup>(old(self).groups(), group_id@) ==> r is Err && r->Err_0@ == not_found_message(
                group_id@,
                "分组"@,
            ) && final(self).same_tables(old(self)),
            has_key::<ApiGroup>(old(self).groups(), group_id@) ==> {
                let gs = old(self).groups();
                let own = old(self).requests().filter(in_group(group_id@));
                let gids = keys_of::<ApiGroup>(gs.filter(under(gs, group_id@)));
                let rs = old(self).requests().filter(in_groups(gids));
                let rids = keys_of::<ApiRequest>(rs);
                &&& r is Ok
                &&& r->Ok_0.deleted_groups == 1
                &&& r->Ok_0.deleted_requests == own.len()
                &&& r->Ok_0.deleted_histories == old(self).histories().filter(of_requests(keys_of::<ApiRequest>(own))).len()
                &&& final(self).groups() == gs.filter(not_under(gs, group_id@))
                &&& final(self).requests() == old(self).requests().filter(not_in_groups(gids))
                &&& final(self).histories() == old(self).histories().filter(not_of_requests(rids))
                &&& final(self).projects() == old(self).projects()
                &&& final(self).environments() == old(self).environments()
            },
    {
        if find_row(&self.groups, group_id).is_none() {
            return Err(not_found_text(group_id, "分组"));
        }
        let gid = chars_of(group_id);
        let own = select_rows(
            &self.requests,
            |q: &ApiRequest| -> (b: bool) ensures b == (q.group_id@ == gid@) { seq_eq(chars_of(q.group_id.as_str()).as_slice(), gid.as_slice()) },
            Ghost(in_group(group_id@)),
        );
        let own_ids = row_keys(&own);
        let own_histories = count_rows(
            &self.histories,
            |h: &ApiRequestHistory| -> (b: bool) ensures b == string_views(own_ids@).contains(h.request_id@) { contains_string(&own_ids, h.request_id.as_str()) },
            Ghost(of_requests(string_views(own_ids@))),
        );
        let ghost gs = self.groups();
        let groups_ref = &self.groups;
        let below = select_rows(
            groups_ref,
            |g: &ApiGroup| -> (b: bool) ensures b == chain_reaches(seq_views(groups_ref@), g.id@, group_id@, groups_ref@.len() as nat) { chain_reaches_exec(groups_ref, g.id.as_str(), group_id) },
            Ghost(under(gs, group_id@)),
        );
        let gids = row_keys(&below);
        let kept_groups = select_rows(
            groups_ref,
            |g: &ApiGroup| -> (b: bool) ensures b == !chain_reaches(seq_views(groups_ref@), g.id@, group_id@, groups_ref@.len() as nat) { !chain_reaches_exec(groups_ref, g.id.as_str(), group_id) },
            Ghost(not_under(gs, group_id@)),
        );
        let doomed = select_rows(
            &self.requests,
            |q: &ApiRequest| -> (b: bool) ensures b == string_views(gids@).contains(q.group_id@) { contains_string(&gids, q.group_id.as_str()) },
            Ghost(in_groups(string_views(gids@))),
        );
        let rids = row_keys(&doomed);
        let requests = select_rows(
            &self.requests,
            |q: &ApiRequest| -> (b: bool) ensures b == !string_views(gids@).contains(q.group_id@) { !contains_string(&gids, q.group_id.as_str()) },
            Ghost(not_in_groups(string_views(gids@))),
        );
        let histories = select_rows(
            &self.histories,
            |h: &ApiRequestHistory| -> (b: bool) ensures b == !string_views(rids@).contains(h.request_id@) { !contains_string(&rids, h.request_id.as_str()) },
            Ghost(not_of_requests(string_views(rids@))),
        );
        proof {
            lemma_unique_filter::<ApiGroup>(self.groups(), not_under(gs, group_id@));
            lemma_unique_filter::<ApiRequest>(self.requests(), not_in_groups(string_views(gids@)));
            lemma_unique_filter::<ApiRequestHistory>(self.histories(), not_of_requests(string_views(rids@)));
            assert(self.groups().filter(not_under(gs, group_id@)).len() <= self.groups().len());
            assert(self.requests().filter(not_in_groups(string_views(gids@))).len() <= self.requests().len());
            assert(self.histories().filter(not_of_requests(string_views(rids@))).len() <= self.histories().len());
            assert(self.requests().filter(in_group(group_id@)).len() <= self.requests().len());
            assert(self.histories().filter(of_requests(string_views(own_ids@))).len() <= self.histories().len());
            assert(string_views(own_ids@).len() == own_ids@.len());
        }
        let summary = DeletionSummary {
            deleted_groups: 1,
            deleted_requests: own_ids.len() as i64,
            deleted_histories: own_histories as i64,
        };
        self.groups = kept_groups;
        self.requests = requests;
        self.histories = histories;
        Ok(summary)
    }
}

impl ApiClientRepository {
    /// What `reorder_groups_with` does: its result and the tables it leaves.
    pub open spec fn reorder_groups_outcome(old: Self, fin: Self, project_id: &str, group_ids: &[String], now: i64, r: Result<Vec<ApiGroup>, String>) -> bool {
        &&& (({
            let gs = old.groups();
            let ids = string_views(group_ids@);
            &&& r is Err <==> exists|i: int| 0 <= i < ids.len() && !belongs(gs, project_id@, #[trigger] ids[i])
            &&& r is Err ==> fin.same_tables(&old) && exists|i: int|
                0 <= i < ids.len() && !belongs(gs, project_id@, #[trigger] ids[i]) && (forall|j: int|
                    0 <= j < i ==> belongs(gs, project_id@, #[trigger] ids[j])) && r->Err_0@ == stray_group_message(
                    ids[i],
                    project_id@,
                )
            &&& r is Ok ==> {
                &&& fin.groups() == regrouped(gs, project_id@, ids, now)
                &&& is_ranked_permutation::<ApiGroup>(
                    fin.groups().filter(in_project(project_id@)),
                    seq_views(r->Ok_0@),
                )
                &&& fin.projects() == old.projects()
                &&& fin.requests() == old.requests()
                &&& fin.environments() == old.environments()
                &&& fin.histories() == old.histories()
            }
        }))
    }

    /// Gives each listed group of a project the position of its last mention in `group_ids`
    /// and stamps it `now`; then lists the project's groups. Nothing changes when a listed
    /// group is not one of the project's.
    pub fn reorder_groups_with(&mut self, project_id: &str, group_ids: &[String], now: i64) -> (r: Result<Vec<ApiGroup>, String>)
        requires
            old(self).wf(),
            group_ids@.len() <= isize::MAX,
        ensures
            final(self).wf(),
            Self::reorder_groups_outcome(*old(self), *final(self), project_id, group_ids, now, r),
    {
        let ghost gs = self.groups();
        let ghost ids = string_views(group_ids@);
        let pid = chars_of(project_id);
        for i in 0..group_ids.len()
            invariant
                gs == self.groups(),
                ids == string_views(group_ids@),
                keys_unique::<ApiGroup>(gs),
                pid@ == project_id@,
                self.wf(),
                self.same_tables(old(self)),
                forall|j: int| 0 <= j < i ==> belongs(gs, project_id@, #[trigger] ids[j]),
        {
            assert(ids[i as int] == group_ids@[i as int]@);
            let ok = match find_row(&self.groups, group_ids[i].as_str()) {
                Some(j) => seq_eq(chars_of(self.groups[j].project_id.as_str()).as_slice(), pid.as_slice()),
                None => false,
            };
            if !ok {
                let mut msg = chars_of("分组 ");
                push_str(&mut msg, group_ids[i].as_str());
                push_str(&mut msg, " 不属于项目 ");
                push_str(&mut msg, project_id);
                return Err(string_of(msg.as_slice()));
            }
        }
        assert(seq_views(self.groups@) == gs);
        assert(regrouped(gs, project_id@, ids.take(0), now) =~= gs);
        for i in 0..group_ids.len()
            invariant
                ids == string_views(group_ids@),
                keys_unique::<ApiGroup>(gs),
                forall|j: int| 0 <= j < ids.len() ==> belongs(gs, project_id@, #[trigger] ids[j]),
                self.groups() == regrouped(gs, project_id@, ids.take(i as int), now),
                self.projects() == old(self).projects(),
                self.requests() == old(self).requests(),
                self.environments() == old(self).environments(),
                self.histories() == old(self).histories(),
                gs == old(self).groups(),
                old(self).wf(),
                group_ids@.len() <= isize::MAX,
        {
            assert(ids[i as int] == group_ids@[i as int]@);
            assert(belongs(gs, project_id@, ids[i as int]));
            let ghost cur = self.groups();
            proof {
                assert forall|a: int, b: int| 0 <= a < b < cur.len() implies #[trigger] cur[a].id != #[trigger] cur[b].id by {
                    assert(cur[a].id == gs[a].id && cur[b].id == gs[b].id);
                    assert(ApiGroup::key_of(gs[a]) != ApiGroup::key_of(gs[b]));
                }
                assert(keys_unique::<ApiGroup>(cur));
            }
            proof {
                let k = choose|k: int| 0 <= k < gs.len() && ApiGroup::key_of(#[trigger] gs[k]) == ids[i as int];
                assert(cur[k].id == gs[k].id);
                assert(has_key::<ApiGroup>(cur, ids[i as int]));
            }
            let j = find_row(&self.groups, group_ids[i].as_str()).unwrap();
            let old_group = self.groups[j].duplicate();
            let group = ApiGroup { sort: i as i64, updated_at: now, ..old_group };
            let ghost gv = group@;
            assert(gv == GroupView { sort: i as i64, updated_at: now, ..gs[j as int] });
            self.groups.set(j, group);
            assert(self.groups() =~= cur.update(j as int, gv));
            proof {
                let next = ids.take(i + 1);
                assert(ids.take(i as int).push(ids[i as int]) =~= next);
                assert(next.drop_last() =~= ids.take(i as int));
                lemma_unique_filter::<ApiGroup>(gs, |g: GroupView| true);
                assert(gs[j as int].id == ids[i as int]);
                lemma_lookup_at_key(gs, j as int);
                assert(gs[j as int].project_id == project_id@);
                assert forall|k: int| 0 <= k < gs.len() implies #[trigger] self.groups()[k] == regrouped(gs, project_id@, next, now)[k] by {
                    if k == j {
                        assert(next.contains(ids[i as int])) by { assert(next[i as int] == ids[i as int]); }
                        assert(last_position(next, gs[k].id) == i);
                    } else {
                        assert(gs[k].id != gs[j as int].id) by {
                            if k < j {
                                assert(ApiGroup::key_of(gs[k]) != ApiGroup::key_of(gs[j as int]));
                            } else {
                                assert(ApiGroup::key_of(gs[j as int]) != ApiGroup::key_of(gs[k]));
                            }
                        }
                        assert(next.contains(gs[k].id) == ids.take(i as int).contains(gs[k].id)) by {
                            if next.contains(gs[k].id) {
                                let m = choose|m: int| 0 <= m < next.len() && next[m] == gs[k].id;
                                if m < i {
                                    assert(ids.take(i as int)[m] == gs[k].id);
                                }
                            }
                            if ids.take(i as int).contains(gs[k].id) {
                                let m = choose|m: int| 0 <= m < i && ids.take(i as int)[m] == gs[k].id;
                                assert(next[m] == gs[k].id);
                            }
                        }
                        assert(last_position(next, gs[k].id) == last_position(ids.take(i as int), gs[k].id));
                    }
                }
                assert(self.groups() =~= regrouped(gs, project_id@, next, now));
            }
        }
        proof {
            assert(ids.take(ids.len() as int) =~= ids);
            let fin = self.groups();
            assert forall|a: int, b: int| 0 <= a < b < fin.len() implies ApiGroup::key_of(#[trigger] fin[a]) != ApiGroup::key_of(#[trigger] fin[b]) by {
                assert(fin[a].id == gs[a].id && fin[b].id == gs[b].id);
                assert(ApiGroup::key_of(gs[a]) != ApiGroup::key_of(gs[b]));
            }
        }
        self.list_groups(project_id)
    }

    /// Reorders a project's groups, now.
    pub fn reorder_groups(&mut self, project_id: &str, group_ids: &[String]) -> (r: Result<Vec<ApiGroup>, String>)
        requires
            old(self).wf(),
            group_ids@.len() <= isize::MAX,
        ensures
            final(self).wf(),
            ({
                let gs = old(self).groups();
                let ids = string_views(group_ids@);
                &&& r is Err <==> exists|i: int| 0 <= i < ids.len() && !belongs(gs, project_id@, #[trigger] ids[i])
                &&& r is Err ==> final(self).same_tables(old(self))
                &&& r is Ok ==> seq_views(r->Ok_0@).len() == gs.filter(in_project(project_id@)).len()
                    && forall|i: int| 0 <= i < ids.len() ==> lookup::<ApiGroup>(final(self).groups(), #[trigger] ids[i])->Some_0.sort == last_position(ids, ids[i])
            }),
            r is Ok ==> is_ranked_permutation::<ApiGroup>(
                final(self).groups().filter(in_project(project_id@)),
                seq_views(r->Ok_0@),
            ),
            exists|now: i64|
                #[trigger] Self::reorder_groups_outcome(*old(self), *final(self), project_id, group_ids, now, r),
    {
        let now = now_millis();
        let r = self.reorder_groups_with(project_id, group_ids, now);
        proof {
            broadcast use vstd::seq_lib::group_to_multiset_ensures;
            let gs = old(self).groups();
            let ids = string_views(group_ids@);
            if r is Ok {
                assert(seq_views(r->Ok_0@).to_multiset().len() == seq_views(r->Ok_0@).len());
                let fin = self.groups();
                lemma_filter_len_same(gs, fin, project_id@, ids, now);
                assert forall|i: int| 0 <= i < ids.len() implies lookup::<ApiGroup>(fin, #[trigger] ids[i])->Some_0.sort == last_position(ids, ids[i]) by {
                    assert(belongs(gs, project_id@, ids[i]));
                    let k = crate::api_store::table::key_index::<ApiGroup>(gs, ids[i]);
                    assert(0 <= k < gs.len() && gs[k].id == ids[i]);
                    lemma_lookup_at_key(gs, k);
                    assert(fin[k].id == ids[i]);
                    crate::api_store::table::lemma_lookup_at::<ApiGroup>(fin, k);
                    assert(ids.contains(ids[i]));
                    lemma_last_position(ids, ids[i]);
                    assert(gs[k].project_id == project_id@);
                    assert(fin[k].sort == last_position(ids, ids[i]) as i64);
                    assert(ids.len() == group_ids@.len());
                }
            }
        }
        r
    }
}

/// The position of a group found by its id.
pub proof fn lemma_lookup_at_key(gs: Seq<GroupView>, k: int)
    requires
        keys_unique::<ApiGroup>(gs),
        0 <= k < gs.len(),
    ensures
        lookup::<ApiGroup>(gs, gs[k].id) == Some(gs[k]),
        crate::api_store::table::key_index::<ApiGroup>(gs, gs[k].id) == k,
{
    crate::api_store::table::lemma_lookup_at::<ApiGroup>(gs, k);
}

/// Reordering changes no group's project.
pub proof fn lemma_filter_len_same(gs: Seq<GroupView>, fin: Seq<GroupView>, p: Seq<char>, ids: Seq<Seq<char>>, now: i64)
    requires
        fin == regrouped(gs, p, ids, now),
    ensures
        fin.filter(in_project(p)).len() == gs.filter(in_project(p)).len(),
    decreases gs.len(),
{
    reveal(Seq::filter);
    if gs.len() > 0 {
        let gd = gs.drop_last();
        let fd = fin.drop_last();
        assert(fd =~= regrouped(gd, p, ids, now));
        lemma_filter_len_same(gd, fd, p, ids, now);
        assert(fin.last().project_id == gs.last().project_id);
    }
}

/// A request as it is read: with its group's `sort`, and the group's project as its own.
pub open spec fn joined_view(gs: Seq<GroupView>, r: RequestView) -> (i64, RequestView) {
    let g = lookup::<ApiGroup>(gs, r.group_id)->Some_0;
    (g.sort, RequestView { project_id: g.project_id, ..r })
}

/// Requests whose group belongs to project `p`.
pub open spec fn via_project(gs: Seq<GroupView>, p: Seq<char>) -> spec_fn(RequestView) -> bool {
    |r: RequestView| belongs(gs, p, r.group_id)
}

/// The requests that `pred` selects, as they are read.
pub open spec fn joined_where(gs: Seq<GroupView>, rs: Seq<RequestView>, pred: spec_fn(RequestView) -> bool) -> Seq<(i64, RequestView)> {
    rs.filter(pred).map_values(|r: RequestView| joined_view(gs, r))
}

/// A listing of requests with the `sort` of each one's group beside it.
pub open spec fn with_group_sorts(gs: Seq<GroupView>, out: Seq<RequestView>) -> Seq<(i64, RequestView)> {
    Seq::new(out.len(), |i: int| (lookup::<ApiGroup>(gs, out[i].group_id)->Some_0.sort, out[i]))
}

/// The request `id` as it is read, when it and its group exist.
pub open spec fn read_request(gs: Seq<GroupView>, rs: Seq<RequestView>, id: Seq<char>) -> Option<RequestView> {
    match lookup::<ApiRequest>(rs, id) {
        Some(r) => if has_key::<ApiGroup>(gs, r.group_id) {
            Some(joined_view(gs, r).1)
        } else {
            None
        },
        None => None,
    }
}

/// The check of a request's method, as `normalize_method` makes it.
pub open spec fn method_checked(m: Seq<char>) -> Result<Seq<char>, Seq<char>> {
    if crate::models::api_client::supported_method(crate::models::api_client::method_key(m)) {
        Ok(crate::models::api_client::method_key(m))
    } else if crate::models::api_client::method_key(m).len() == 0 {
        Err("HTTP 方法不能为空"@)
    } else {
        Err("不支持的 HTTP 方法: "@ + crate::models::api_client::method_key(m))
    }
}

fn check_method(method: &str) -> (r: Result<String, String>)
    ensures
        match method_checked(method@) {
            Ok(m) => r is Ok && r->Ok_0@ == m,
            Err(e) => r is Err && r->Err_0@ == e,
        },
{
    crate::models::api_client::normalize_method(method)
}

impl ApiClientRepository {
    /// The requests that `keep` selects, each with its group's `sort` and project; every
    /// selected request's group exists.
    fn joined_rows<F: Fn(&ApiRequest) -> bool>(&self, keep: F, Ghost(pred): Ghost<spec_fn(RequestView) -> bool>) -> (r: Vec<crate::api_store::rows::JoinedRequest>)
        requires
            self.wf(),
            forall|t: &ApiRequest| #[trigger] keep.requires((t,)),
            forall|t: &ApiRequest, b: bool| keep.ensures((t,), b) ==> b == pred(t@),
            forall|q: RequestView| #[trigger] pred(q) ==> has_key::<ApiGroup>(self.groups(), q.group_id),
        ensures
            seq_views(r@) == joined_where(self.groups(), self.requests(), pred),
    {
        let ghost gs = self.groups();
        let ghost rs = self.requests();
        let mut out: Vec<crate::api_store::rows::JoinedRequest> = Vec::new();
        assert(rs.take(0) =~= Seq::<RequestView>::empty());
        assert(rs.take(0).filter(pred) =~= Seq::<RequestView>::empty()) by { reveal(Seq::filter); }
        assert(seq_views(out@) =~= joined_where(gs, rs.take(0), pred));
        for i in 0..self.requests.len()
            invariant
                self.wf(),
                gs == self.groups(),
                rs == self.requests(),
                forall|t: &ApiRequest| #[trigger] keep.requires((t,)),
                forall|t: &ApiRequest, b: bool| keep.ensures((t,), b) ==> b == pred(t@),
                forall|q: RequestView| #[trigger] pred(q) ==> has_key::<ApiGroup>(gs, q.group_id),
                seq_views(out@) == joined_where(gs, rs.take(i as int), pred),
        {
            let ghost before = seq_views(out@);
            let b = keep(&self.requests[i]);
            proof {
                assert(rs[i as int] == self.requests@[i as int]@);
                assert(rs.take(i as int).push(rs[i as int]) =~= rs.take(i + 1));
                rs.take(i as int).lemma_filter_push(rs[i as int], pred);
            }
            if b {
                let r = &self.requests[i];
                let j = find_row(&self.groups, r.group_id.as_str()).unwrap();
                let g = &self.groups[j];
                let copy = r.duplicate();
                let joined = crate::api_store::rows::JoinedRequest {
                    group_sort: g.sort,
                    request: ApiRequest { project_id: g.project_id.clone(), ..copy },
                };
                out.push(joined);
                proof {
                    let f = rs.take(i as int).filter(pred);
                    assert(f.push(rs[i as int]).map_values(|r: RequestView| joined_view(gs, r)) =~= f.map_values(
                        |r: RequestView| joined_view(gs, r),
                    ).push(joined_view(gs, rs[i as int])));
                    assert(seq_views(out@) =~= before.push(joined_view(gs, rs[i as int])));
                }
            }
        }
        assert(rs.take(self.requests@.len() as int) =~= rs);
        out
    }

    /// Requests of the rows, in their order.
    fn strip_joined(rows: Vec<crate::api_store::rows::JoinedRequest>, Ghost(gs): Ghost<Seq<GroupView>>) -> (r: Vec<ApiRequest>)
        requires
            forall|k: int| 0 <= k < rows@.len() ==> rows@[k].group_sort == lookup::<ApiGroup>(gs, #[trigger] rows@[k].request@.group_id)->Some_0.sort,
        ensures
            with_group_sorts(gs, seq_views(r@)) == seq_views(rows@),
    {
        let mut out: Vec<ApiRequest> = Vec::new();
        for i in 0..rows.len()
            invariant
                out@.len() == i,
                forall|k: int| 0 <= k < i ==> #[trigger] out@[k]@ == rows@[k].request@,
        {
            out.push(rows[i].request.duplicate());
        }
        assert(with_group_sorts(gs, seq_views(out@)) =~= seq_views(rows@));
        out
    }

    /// Sorts the rows and keeps their requests.
    fn sorted_requests(rows: Vec<crate::api_store::rows::JoinedRequest>, Ghost(gs): Ghost<Seq<GroupView>>) -> (r: Vec<ApiRequest>)
        requires
            forall|k: int| 0 <= k < rows@.len() ==> (#[trigger] rows@[k])@.0 == lookup::<ApiGroup>(gs, rows@[k]@.1.group_id)->Some_0.sort,
        ensures
            is_ranked_permutation::<crate::api_store::rows::JoinedRequest>(seq_views(rows@), with_group_sorts(gs, seq_views(r@))),
    {
        let ghost before = seq_views(rows@);
        let sorted = sort_ranked(rows);
        proof {
            broadcast use vstd::seq_lib::group_to_multiset_ensures;
            let after = seq_views(sorted@);
            assert forall|k: int| 0 <= k < sorted@.len() implies sorted@[k].group_sort == lookup::<ApiGroup>(gs, #[trigger] sorted@[k].request@.group_id)->Some_0.sort by {
                assert(after[k] == sorted@[k]@);
                assert(after.contains(after[k]));
                assert(after.to_multiset().count(after[k]) > 0);
                assert(before.to_multiset().count(after[k]) > 0);
                assert(before.contains(after[k]));
                let m = choose|m: int| 0 <= m < before.len() && before[m] == after[k];
                assert(before[m] == rows@[m]@);
            }
        }
        Self::strip_joined(sorted, Ghost(gs))
    }

    /// The requests of a project, by their group's `sort`, then their own, then creation
    /// time, then id, each with its group's project.
    pub fn list_requests(&self, project_id: &str) -> (r: Result<Vec<ApiRequest>, String>)
        requires
            self.wf(),
        ensures
            r is Ok,
            is_ranked_permutation::<crate::api_store::rows::JoinedRequest>(
                joined_where(self.groups(), self.requests(), via_project(self.groups(), project_id@)),
                with_group_sorts(self.groups(), seq_views(r->Ok_0@)),
            ),
    {
        let pid = chars_of(project_id);
        let groups = &self.groups;
        let rows = self.joined_rows(
            |q: &ApiRequest| -> (b: bool) ensures b == belongs(seq_views(groups@), pid@, q.group_id@) { match find_row(groups, q.group_id.as_str()) { Some(j) => seq_eq(chars_of(groups[j].project_id.as_str()).as_slice(), pid.as_slice()), None => false } },
            Ghost(via_project(self.groups(), project_id@)),
        );
        proof {
            let gs = self.groups();
            let rs = self.requests();
            let f = rs.filter(via_project(gs, project_id@));
            assert forall|k: int| 0 <= k < rows@.len() implies (#[trigger] rows@[k])@.0 == lookup::<ApiGroup>(gs, rows@[k]@.1.group_id)->Some_0.sort by {
                let jw = joined_where(gs, rs, via_project(gs, project_id@));
                assert(seq_views(rows@) == jw);
                assert(jw.len() == f.len());
                assert(seq_views(rows@)[k] == rows@[k]@);
                assert(jw[k] == joined_view(gs, f[k]));
            }
        }
        Ok(Self::sorted_requests(rows, Ghost(self.groups())))
    }

    /// The request with id `request_id`, with its group's project.
    pub fn get_request(&self, request_id: &str) -> (r: Result<Option<ApiRequest>, String>)
        requires
            self.wf(),
        ensures
            r is Ok,
            match r->Ok_0 {
                Some(q) => read_request(self.groups(), self.requests(), request_id@) == Some(q@),
                None => read_request(self.groups(), self.requests(), request_id@) is None,
            },
    {
        match find_row(&self.requests, request_id) {
            None => Ok(None),
            Some(i) => {
                let r = &self.requests[i];
                match find_row(&self.groups, r.group_id.as_str()) {
                    None => Ok(None),
                    Some(j) => {
                        let copy = r.duplicate();
                        Ok(Some(ApiRequest { project_id: self.groups[j].project_id.clone(), ..copy }))
                    },
                }
            },
        }
    }
}

/// A new request of group `g`: a `GET` with nothing filled in, stamped `now`.
pub open spec fn new_request_view(gs: Seq<GroupView>, id: Seq<char>, g: Seq<char>, name: Seq<char>, sort: i64, now: i64) -> RequestView {
    RequestView {
        id: id,
        group_id: g,
        project_id: lookup::<ApiGroup>(gs, g)->Some_0.project_id,
        name: trim(name),
        method: "GET"@,
        url: Seq::empty(),
        query: Seq::empty(),
        headers: Seq::empty(),
        body: crate::api_store::rows::BodyView {
            kind: crate::models::api_client::BodyKind::NoBody,
            text: Seq::empty(),
            form: Seq::empty(),
        },
        timeout_ms: crate::models::api_client::DEFAULT_TIMEOUT_MS,
        ai_prompt: Seq::empty(),
        ai_reference: Seq::empty(),
        sort: sort,
        created_at: now,
        updated_at: now,
    }
}

/// The requests of group `g`, by position.
pub open spec fn group_sorts(rs: Seq<RequestView>, g: Seq<char>) -> Seq<i64> {
    sorts_of::<ApiRequest>(rs.filter(in_group(g)))
}

impl ApiClientRepository {
    /// What `create_request_with` does: its result and the tables it leaves.
    pub open spec fn create_request_outcome(old: Self, fin: Self, group_id: &str, name: &str, now: i64, fresh_id: Seq<char>, r: Result<ApiRequest, String>) -> bool {
        &&& (r is Err ==> fin.same_tables(&old))
        &&& (required_name(name@, "请求名称"@) is Err ==> r is Err && r->Err_0@ == required_name(name@, "请求名称"@)->Err_0)
        &&& (required_name(name@, "请求名称"@) is Ok && !has_key::<ApiGroup>(old.groups(), group_id@) ==> r is Err
            && r->Err_0@ == not_found_message(group_id@, "分组"@))
        &&& (r is Ok <==> ({
            &&& required_name(name@, "请求名称"@) is Ok
            &&& has_key::<ApiGroup>(old.groups(), group_id@)
            &&& next_position(group_sorts(old.requests(), group_id@)) is Some
            &&& !has_key::<ApiRequest>(old.requests(), "areq_"@ + fresh_id)
            &&& old.requests().len() + 1 < row_limit()
        }))
        &&& (r is Ok ==> {
            &&& r->Ok_0@ == new_request_view(
                old.groups(),
                "areq_"@ + fresh_id,
                group_id@,
                name@,
                next_position(group_sorts(old.requests(), group_id@))->Some_0,
                now,
            )
            &&& fin.requests() == old.requests().push(r->Ok_0@)
            &&& fin.projects() == old.projects()
            &&& fin.groups() == old.groups()
            &&& fin.environments() == old.environments()
            &&& fin.histories() == old.histories()
        })
    }

    /// Creates a request in a group, after its last request: a `GET` with nothing filled in,
    /// stamped `now`; `fresh_id` is the random part of its id.
    pub fn create_request_with(&mut self, group_id: &str, name: &str, now: i64, fresh_id: &str) -> (r: Result<ApiRequest, String>)
        requires
            old(self).wf(),
        ensures
            final(self).wf(),
            Self::create_request_outcome(*old(self), *final(self), group_id, name, now, fresh_id@, r),
    {
        let name = match require_name(name, "请求名称") {
            Ok(n) => n,
            Err(e) => return Err(e),
        };
        let j = match find_row(&self.groups, group_id) {
            Some(j) => j,
            None => return Err(not_found_text(group_id, "分组")),
        };
        let gid = chars_of(group_id);
        let best = max_sort_where(
            &self.requests,
            |q: &ApiRequest| -> (b: bool) ensures b == (q.group_id@ == gid@) { seq_eq(chars_of(q.group_id.as_str()).as_slice(), gid.as_slice()) },
            Ghost(in_group(group_id@)),
        );
        let sort = match position_after(best) {
            Ok(s) => s,
            Err(e) => return Err(e),
        };
        let id = prefixed("areq_", fresh_id);
        if find_row(&self.requests, id.as_str()).is_some() {
            return Err(db_error("UNIQUE constraint failed: api_requests.id"));
        }
        if table_full(self.requests.len()) {
            return Err(db_error("database or disk is full"));
        }
        let request = ApiRequest {
            id,
            group_id: group_id.to_owned(),
            project_id: self.groups[j].project_id.clone(),
            name,
            method: String::from_str("GET"),
            url: String::new(),
            query: Vec::new(),
            headers: Vec::new(),
            body: crate::models::api_client::RequestBody::empty(),
            timeout_ms: crate::models::api_client::DEFAULT_TIMEOUT_MS,
            ai_prompt: String::new(),
            ai_reference: String::new(),
            sort,
            created_at: now,
            updated_at: now,
        };
        proof {
            reveal_strlit("GET");
            assert(request@.query =~= Seq::<crate::api_store::rows::RowView>::empty());
            assert(request@.headers =~= Seq::<crate::api_store::rows::RowView>::empty());
            assert(request@.body.form =~= Seq::<crate::api_store::rows::RowView>::empty());
        }
        let ghost rs = self.requests();
        proof { lemma_unique_push::<ApiRequest>(rs, request@); }
        let created = request.duplicate();
        self.requests.push(request);
        assert(self.requests() =~= rs.push(created@));
        Ok(created)
    }

    /// Creates a request in a group, now, under a fresh random id.
    pub fn create_request(&mut self, group_id: &str, name: &str) -> (r: Result<ApiRequest, String>)
        requires
            old(self).wf(),
        ensures
            final(self).wf(),
            r is Err ==> final(self).same_tables(old(self)),
            required_name(name@, "请求名称"@) is Err ==> r is Err && r->Err_0@ == required_name(name@, "请求名称"@)->Err_0,
            required_name(name@, "请求名称"@) is Ok && !has_key::<ApiGroup>(old(self).groups(), group_id@) ==> r is Err
                && r->Err_0@ == not_found_message(group_id@, "分组"@),
            r is Ok ==> {
                let q = r->Ok_0@;
                &&& q.group_id == group_id@ && q.name == trim(name@) && q.method == "GET"@
                &&& q.project_id == lookup::<ApiGroup>(old(self).groups(), group_id@)->Some_0.project_id
                &&& q.sort == next_position(group_sorts(old(self).requests(), group_id@))->Some_0
                &&& final(self).requests() == old(self).requests().push(q)
                &&& final(self).groups() == old(self).groups()
            },
            exists|now: i64, fresh: Seq<char>|
                is_short_id(fresh) && #[trigger] Self::create_request_outcome(*old(self), *final(self), group_id, name, now, fresh, r),
    {
        let now = now_millis();
        let fresh = random_id(10);
        self.create_request_with(group_id, name, now, fresh.as_str())
    }
}

/// The stored request `old_r` after saving `req` over it: the definition from `req`, name
/// and URL trimmed, the method normalised, in `req`'s group and its project, stamped `now`;
/// position and creation time kept.
pub open spec fn saved_request(old_r: RequestView, req: RequestView, project: Seq<char>, method: Seq<char>, now: i64) -> RequestView {
    RequestView {
        id: old_r.id,
        group_id: req.group_id,
        project_id: project,
        name: trim(req.name),
        method: method,
        url: trim(req.url),
        query: req.query,
        headers: req.headers,
        body: req.body,
        timeout_ms: req.timeout_ms,
        ai_prompt: req.ai_prompt,
        ai_reference: req.ai_reference,
        sort: old_r.sort,
        created_at: old_r.created_at,
        updated_at: now,
    }
}

impl ApiClientRepository {
    /// What `update_request_with` does: its result and the tables it leaves.
    pub open spec fn update_request_outcome(old: Self, fin: Self, request: &ApiRequest, now: i64, r: Result<ApiRequest, String>) -> bool {
        &&& (r is Err ==> fin.same_tables(&old))
        &&& (({
            let q = request@;
            let gs = old.groups();
            let rs = old.requests();
            &&& required_name(q.name, "请求名称"@) is Err ==> r is Err && r->Err_0@ == required_name(q.name, "请求名称"@)->Err_0
            &&& required_name(q.name, "请求名称"@) is Ok && method_checked(q.method) is Err ==> r is Err && r->Err_0@
                == method_checked(q.method)->Err_0
            &&& required_name(q.name, "请求名称"@) is Ok && method_checked(q.method) is Ok && q.timeout_ms == 0 ==> r is Err
                && r->Err_0@ == "超时时间必须大于 0"@
            &&& required_name(q.name, "请求名称"@) is Ok && method_checked(q.method) is Ok && q.timeout_ms > 0
                && !has_key::<ApiGroup>(gs, q.group_id) ==> r is Err && r->Err_0@ == not_found_message(q.group_id, "分组"@)
            &&& required_name(q.name, "请求名称"@) is Ok && method_checked(q.method) is Ok && q.timeout_ms > 0
                && has_key::<ApiGroup>(gs, q.group_id) && !has_key::<ApiRequest>(rs, q.id) ==> r is Err && r->Err_0@
                == not_found_message(q.id, "请求"@)
            &&& r is Ok <==> required_name(q.name, "请求名称"@) is Ok && method_checked(q.method) is Ok && q.timeout_ms > 0
                && has_key::<ApiGroup>(gs, q.group_id) && has_key::<ApiRequest>(rs, q.id)
            &&& r is Ok ==> {
                let saved = saved_request(
                    lookup::<ApiRequest>(rs, q.id)->Some_0,
                    q,
                    lookup::<ApiGroup>(gs, q.group_id)->Some_0.project_id,
                    method_checked(q.method)->Ok_0,
                    now,
                );
                &&& r->Ok_0@ == saved
                &&& fin.requests() == rs.update(crate::api_store::table::key_index::<ApiRequest>(rs, q.id), saved)
                &&& fin.projects() == old.projects()
                &&& fin.groups() == gs
                &&& fin.environments() == old.environments()
                &&& fin.histories() == old.histories()
            }
        }))
    }

    /// Saves a request definition over the stored one with its id, stamped `now`. The name
    /// must not be blank, the method must be supported and the timeout positive.
    pub fn update_request_with(&mut self, request: &ApiRequest, now: i64) -> (r: Result<ApiRequest, String>)
        requires
            old(self).wf(),
        ensures
            final(self).wf(),
            Self::update_request_outcome(*old(self), *final(self), request, now, r),
    {
        let name = match require_name(request.name.as_str(), "请求名称") {
            Ok(n) => n,
            Err(e) => return Err(e),
        };
        let method = match check_method(request.method.as_str()) {
            Ok(m) => m,
            Err(e) => return Err(e),
        };
        let timeout_ms = match crate::api_client_rules::require_timeout(request.timeout_ms) {
            Ok(t) => t,
            Err(e) => return Err(e),
        };
        let j = match find_row(&self.groups, request.group_id.as_str()) {
            Some(j) => j,
            None => return Err(not_found_text(request.group_id.as_str(), "分组")),
        };
        let i = match find_row(&self.requests, request.id.as_str()) {
            Some(i) => i,
            None => return Err(not_found_text(request.id.as_str(), "请求")),
        };
        let stored = &self.requests[i];
        let saved = ApiRequest {
            id: stored.id.clone(),
            group_id: request.group_id.clone(),
            project_id: self.groups[j].project_id.clone(),
            name,
            method,
            url: string_of(crate::text::trimmed(chars_of(request.url.as_str()).as_slice()).as_slice()),
            query: crate::models::api_client::copy_rows(request.query.as_slice()),
            headers: crate::models::api_client::copy_rows(request.headers.as_slice()),
            body: crate::api_store::rows::copy_body(&request.body),
            timeout_ms,
            ai_prompt: request.ai_prompt.clone(),
            ai_reference: request.ai_reference.clone(),
            sort: stored.sort,
            created_at: stored.created_at,
            updated_at: now,
        };
        let ghost rs = self.requests();
        proof { lemma_unique_update::<ApiRequest>(rs, i as int, saved@); }
        let result = saved.duplicate();
        self.requests.set(i, saved);
        assert(self.requests() =~= rs.update(i as int, result@));
        Ok(result)
    }

    /// Saves a request definition, now.
    pub fn update_request(&mut self, request: &ApiRequest) -> (r: Result<ApiRequest, String>)
        requires
            old(self).wf(),
        ensures
            final(self).wf(),
            r is Err ==> final(self).same_tables(old(self)),
            ({
                let q = request@;
                let gs = old(self).groups();
                let rs = old(self).requests();
                &&& required_name(q.name, "请求名称"@) is Err ==> r is Err && r->Err_0@ == required_name(q.name, "请求名称"@)->Err_0
                &&& required_name(q.name, "请求名称"@) is Ok && method_checked(q.method) is Err ==> r is Err && r->Err_0@
                    == method_checked(q.method)->Err_0
                &&& r is Ok <==> required_name(q.name, "请求名称"@) is Ok && method_checked(q.method) is Ok && q.timeout_ms > 0
                    && has_key::<ApiGroup>(gs, q.group_id) && has_key::<ApiRequest>(rs, q.id)
                &&& r is Ok ==> r->Ok_0@.id == q.id && r->Ok_0@.name == trim(q.name) && r->Ok_0@.method == method_checked(q.method)->Ok_0
                    && r->Ok_0@.query == q.query && r->Ok_0@.headers == q.headers && r->Ok_0@.body == q.body
                    && r->Ok_0@.project_id == lookup::<ApiGroup>(gs, q.group_id)->Some_0.project_id
                    && read_request(final(self).groups(), final(self).requests(), q.id) == Some(r->Ok_0@)
            }),
            exists|now: i64|
                #[trigger] Self::update_request_outcome(*old(self), *final(self), request, now, r),
    {
        let now = now_millis();
        let r = self.update_request_with(request, now);
        proof {
            if r is Ok {
                let rs = old(self).requests();
                let k = crate::api_store::table::key_index::<ApiRequest>(rs, request@.id);
                assert(0 <= k < rs.len() && ApiRequest::key_of(rs[k]) == request@.id);
                let fin = self.requests();
                assert(fin[k] == r->Ok_0@);
                crate::api_store::table::lemma_lookup_at::<ApiRequest>(fin, k);
            }
        }
        r
    }
}

/// Requests other than `id`.
pub open spec fn request_other_than(id: Seq<char>) -> spec_fn(RequestView) -> bool {
    |r: RequestView| r.id != id
}

/// History of request `id`.
pub open spec fn of_request(id: Seq<char>) -> spec_fn(HistoryView) -> bool {
    |h: HistoryView| h.request_id == id
}

pub open spec fn not_of_request(id: Seq<char>) -> spec_fn(HistoryView) -> bool {
    |h: HistoryView| h.request_id != id
}

impl ApiClientRepository {
    /// What `duplicate_request_with` does: its result and the tables it leaves.
    pub open spec fn duplicate_request_outcome(old: Self, fin: Self, request_id: &str, now: i64, fresh_id: Seq<char>, r: Result<ApiRequest, String>) -> bool {
        &&& (r is Err ==> fin.same_tables(&old))
        &&& (({
            let gs = old.groups();
            let rs = old.requests();
            let src = read_request(gs, rs, request_id@);
            &&& src is None ==> r is Err && r->Err_0@ == not_found_message(request_id@, "请求"@)
            &&& r is Ok <==> src is Some && next_position(group_sorts(rs, src->Some_0.group_id)) is Some
                && !has_key::<ApiRequest>(rs, "areq_"@ + fresh_id) && rs.len() + 1 < row_limit()
            &&& r is Ok ==> {
                let copy = RequestView {
                    id: "areq_"@ + fresh_id,
                    name: src->Some_0.name + " 副本"@,
                    sort: next_position(group_sorts(rs, src->Some_0.group_id))->Some_0,
                    created_at: now,
                    updated_at: now,
                    ..src->Some_0
                };
                &&& r->Ok_0@ == copy
                &&& fin.requests() == rs.push(copy)
                &&& fin.projects() == old.projects()
                &&& fin.groups() == gs
                &&& fin.environments() == old.environments()
                &&& fin.histories() == old.histories()
            }
        }))
    }

    /// Copies a request into its group, after its last request, named with ` 副本` and
    /// stamped `now`; `fresh_id` is the random part of the copy's id.
    pub fn duplicate_request_with(&mut self, request_id: &str, now: i64, fresh_id: &str) -> (r: Result<ApiRequest, String>)
        requires
            old(self).wf(),
        ensures
            final(self).wf(),
            Self::duplicate_request_outcome(*old(self), *final(self), request_id, now, fresh_id@, r),
    {
        let source = match self.get_request(request_id) {
            Ok(Some(q)) => q,
            _ => return Err(not_found_text(request_id, "请求")),
        };
        let gid = chars_of(source.group_id.as_str());
        let best = max_sort_where(
            &self.requests,
            |q: &ApiRequest| -> (b: bool) ensures b == (q.group_id@ == gid@) { seq_eq(chars_of(q.group_id.as_str()).as_slice(), gid.as_slice()) },
            Ghost(in_group(source.group_id@)),
        );
        let sort = match position_after(best) {
            Ok(s) => s,
            Err(e) => return Err(e),
        };
        let id = prefixed("areq_", fresh_id);
        if find_row(&self.requests, id.as_str()).is_some() {
            return Err(db_error("UNIQUE constraint failed: api_requests.id"));
        }
        if table_full(self.requests.len()) {
            return Err(db_error("database or disk is full"));
        }
        let mut name = chars_of(source.name.as_str());
        push_str(&mut name, " 副本");
        let copy = ApiRequest { id, name: string_of(name.as_slice()), sort, created_at: now, updated_at: now, ..source };
        let ghost rs = self.requests();
        proof { lemma_unique_push::<ApiRequest>(rs, copy@); }
        let created = copy.duplicate();
        self.requests.push(copy);
        assert(self.requests() =~= rs.push(created@));
        Ok(created)
    }

    /// Copies a request, now, under a fresh random id.
    pub fn duplicate_request(&mut self, request_id: &str) -> (r: Result<ApiRequest, String>)
        requires
            old(self).wf(),
        ensures
            final(self).wf(),
            r is Err ==> final(self).same_tables(old(self)),
            ({
                let src = read_request(old(self).groups(), old(self).requests(), request_id@);
                &&& src is None ==> r is Err && r->Err_0@ == not_found_message(request_id@, "请求"@)
                &&& r is Ok ==> {
                    let q = r->Ok_0@;
                    &&& q.name == src->Some_0.name + " 副本"@
                    &&& q.group_id == src->Some_0.group_id && q.url == src->Some_0.url && q.method == src->Some_0.method
                    &&& q.query == src->Some_0.query && q.headers == src->Some_0.headers && q.body == src->Some_0.body
                    &&& q.id != request_id@
                    &&& final(self).requests() == old(self).requests().push(q)
                }
            }),
            exists|now: i64, fresh: Seq<char>|
                is_short_id(fresh) && #[trigger] Self::duplicate_request_outcome(*old(self), *final(self), request_id, now, fresh, r),
    {
        let now = now_millis();
        let fresh = random_id(10);
        self.duplicate_request_with(request_id, now, fresh.as_str())
    }

    /// What `move_request_with` does: its result and the tables it leaves.
    pub open spec fn move_request_outcome(old: Self, fin: Self, request_id: &str, target_group_id: &str, now: i64, r: Result<ApiRequest, String>) -> bool {
        &&& (r is Err ==> fin.same_tables(&old))
        &&& (({
            let gs = old.groups();
            let rs = old.requests();
            let src = read_request(gs, rs, request_id@);
            let target = lookup::<ApiGroup>(gs, target_group_id@);
            &&& src is None ==> r is Err && r->Err_0@ == not_found_message(request_id@, "请求"@)
            &&& src is Some && target is None ==> r is Err && r->Err_0@ == not_found_message(target_group_id@, "分组"@)
            &&& src is Some && target is Some && target->Some_0.project_id != src->Some_0.project_id ==> r is Err
                && r->Err_0@ == "不能把请求移动到其他项目的分组"@
            &&& r is Ok <==> src is Some && target is Some && target->Some_0.project_id == src->Some_0.project_id
                && next_position(group_sorts(rs, target_group_id@)) is Some
            &&& r is Ok ==> {
                let moved = RequestView {
                    group_id: target_group_id@,
                    sort: next_position(group_sorts(rs, target_group_id@))->Some_0,
                    updated_at: now,
                    ..src->Some_0
                };
                &&& r->Ok_0@ == moved
                &&& fin.requests() == rs.update(crate::api_store::table::key_index::<ApiRequest>(rs, request_id@), moved)
                &&& fin.projects() == old.projects()
                &&& fin.groups() == gs
                &&& fin.environments() == old.environments()
                &&& fin.histories() == old.histories()
            }
        }))
    }

    /// Moves a request to another group of its project, after that group's last request,
    /// and stamps it `now`.
    pub fn move_request_with(&mut self, request_id: &str, target_group_id: &str, now: i64) -> (r: Result<ApiRequest, String>)
        requires
            old(self).wf(),
        ensures
            final(self).wf(),
            Self::move_request_outcome(*old(self), *final(self), request_id, target_group_id, now, r),
    {
        let source = match self.get_request(request_id) {
            Ok(Some(q)) => q,
            _ => return Err(not_found_text(request_id, "请求")),
        };
        let j = match find_row(&self.groups, target_group_id) {
            Some(j) => j,
            None => return Err(not_found_text(target_group_id, "分组")),
        };
        if !seq_eq(chars_of(self.groups[j].project_id.as_str()).as_slice(), chars_of(source.project_id.as_str()).as_slice()) {
            return Err(String::from_str("不能把请求移动到其他项目的分组"));
        }
        let gid = chars_of(target_group_id);
        let best = max_sort_where(
            &self.requests,
            |q: &ApiRequest| -> (b: bool) ensures b == (q.group_id@ == gid@) { seq_eq(chars_of(q.group_id.as_str()).as_slice(), gid.as_slice()) },
            Ghost(in_group(target_group_id@)),
        );
        let sort = match position_after(best) {
            Ok(s) => s,
            Err(e) => return Err(e),
        };
        let i = match find_row(&self.requests, request_id) {
            Some(i) => i,
            None => return Err(not_found_text(request_id, "请求")),
        };
        let moved = ApiRequest { group_id: target_group_id.to_owned(), sort, updated_at: now, ..source };
        let ghost rs = self.requests();
        proof { lemma_unique_update::<ApiRequest>(rs, i as int, moved@); }
        let result = moved.duplicate();
        self.requests.set(i, moved);
        assert(self.requests() =~= rs.update(i as int, result@));
        Ok(result)
    }

    /// Moves a request to another group of its project, now.
    pub fn move_request(&mut self, request_id: &str, target_group_id: &str) -> (r: Result<ApiRequest, String>)
        requires
            old(self).wf(),
        ensures
            final(self).wf(),
            r is Err ==> final(self).same_tables(old(self)),
            ({
                let gs = old(self).groups();
                let rs = old(self).requests();
                let src = read_request(gs, rs, request_id@);
                let target = lookup::<ApiGroup>(gs, target_group_id@);
                &&& src is None ==> r is Err && r->Err_0@ == not_found_message(request_id@, "请求"@)
                &&& src is Some && target is None ==> r is Err && r->Err_0@ == not_found_message(target_group_id@, "分组"@)
                &&& src is Some && target is Some && target->Some_0.project_id != src->Some_0.project_id ==> r is Err
                    && r->Err_0@ == "不能把请求移动到其他项目的分组"@
                &&& r is Ok ==> r->Ok_0@.group_id == target_group_id@ && r->Ok_0@.id == request_id@
            }),
            exists|now: i64|
                #[trigger] Self::move_request_outcome(*old(self), *final(self), request_id, target_group_id, now, r),
    {
        let now = now_millis();
        self.move_request_with(request_id, target_group_id, now)
    }

    /// Deletes a request with its history.
    pub fn delete_request(&mut self, request_id: &str) -> (r: Result<DeletionSummary, String>)
        requires
            old(self).wf(),
        ensures
            final(self).wf(),
            !has_key::<ApiRequest>(old(self).requests(), request_id@) ==> r is Err && r->Err_0@ == not_found_message(
                request_id@,
                "请求"@,
            ) && final(self).same_tables(old(self)),
            has_key::<ApiRequest>(old(self).requests(), request_id@) ==> {
                &&& r is Ok
                &&& r->Ok_0.deleted_groups == 0 && r->Ok_0.deleted_requests == 1
                &&& r->Ok_0.deleted_histories == old(self).histories().filter(of_request(request_id@)).len()
                &&& final(self).requests() == old(self).requests().filter(request_other_than(request_id@))
                &&& final(self).histories() == old(self).histories().filter(not_of_request(request_id@))
                &&& final(self).projects() == old(self).projects()
                &&& final(self).groups() == old(self).groups()
                &&& final(self).environments() == old(self).environments()
            },
    {
        let rid = chars_of(request_id);
        let count = count_rows(
            &self.histories,
            |h: &ApiRequestHistory| -> (b: bool) ensures b == (h.request_id@ == rid@) { seq_eq(chars_of(h.request_id.as_str()).as_slice(), rid.as_slice()) },
            Ghost(of_request(request_id@)),
        );
        if find_row(&self.requests, request_id).is_none() {
            return Err(not_found_text(request_id, "请求"));
        }
        let requests = select_rows(
            &self.requests,
            |q: &ApiRequest| -> (b: bool) ensures b == (q.id@ != rid@) { !seq_eq(chars_of(q.id.as_str()).as_slice(), rid.as_slice()) },
            Ghost(request_other_than(request_id@)),
        );
        let histories = select_rows(
            &self.histories,
            |h: &ApiRequestHistory| -> (b: bool) ensures b == (h.request_id@ != rid@) { !seq_eq(chars_of(h.request_id.as_str()).as_slice(), rid.as_slice()) },
            Ghost(not_of_request(request_id@)),
        );
        proof {
            lemma_unique_filter::<ApiRequest>(self.requests(), request_other_than(request_id@));
            lemma_unique_filter::<ApiRequestHistory>(self.histories(), not_of_request(request_id@));
            assert(self.requests().filter(request_other_than(request_id@)).len() <= self.requests().len());
            assert(self.histories().filter(not_of_request(request_id@)).len() <= self.histories().len());
            assert(self.histories().filter(of_request(request_id@)).len() <= self.histories().len());
        }
        self.requests = requests;
        self.histories = histories;
        Ok(DeletionSummary { deleted_groups: 0, deleted_requests: 1, deleted_histories: count as i64 })
    }
}

/// Environments other than `id`.
pub open spec fn environment_other_than(id: Seq<char>) -> spec_fn(EnvironmentView) -> bool {
    |e: EnvironmentView| e.id != id
}

impl ApiClientRepository {
    /// The environments of a project, by name, then id.
    pub fn list_environments(&self, project_id: &str) -> (r: Result<Vec<ApiEnvironment>, String>)
        requires
            self.wf(),
        ensures
            r is Ok,
            is_ranked_permutation::<ApiEnvironment>(self.environments().filter(env_in_project(project_id@)), seq_views(r->Ok_0@)),
    {
        let pid = chars_of(project_id);
        let picked = select_rows(
            &self.environments,
            |e: &ApiEnvironment| -> (b: bool) ensures b == (e.project_id@ == pid@) { seq_eq(chars_of(e.project_id.as_str()).as_slice(), pid.as_slice()) },
            Ghost(env_in_project(project_id@)),
        );
        Ok(sort_ranked(picked))
    }

    /// What `upsert_environment_with` does: its result and the tables it leaves.
    pub open spec fn upsert_environment_outcome(old: Self, fin: Self, environment: &ApiEnvironment, now: i64, fresh_id: Seq<char>, r: Result<ApiEnvironment, String>) -> bool {
        &&& (r is Err ==> fin.same_tables(&old))
        &&& (({
            let e = environment@;
            let es = old.environments();
            let id = if trim(e.id).len() == 0 { "aenv_"@ + fresh_id } else { trim(e.id) };
            &&& required_name(e.name, "环境名称"@) is Err ==> r is Err && r->Err_0@ == required_name(e.name, "环境名称"@)->Err_0
            &&& required_name(e.name, "环境名称"@) is Ok && !has_key::<ApiProject>(old.projects(), e.project_id) ==> r is Err
                && r->Err_0@ == not_found_message(e.project_id, "项目"@)
            &&& r is Ok <==> required_name(e.name, "环境名称"@) is Ok && has_key::<ApiProject>(old.projects(), e.project_id)
                && (has_key::<ApiEnvironment>(es, id) || es.len() + 1 < row_limit())
            &&& r is Ok && has_key::<ApiEnvironment>(es, id) ==> {
                let stored = lookup::<ApiEnvironment>(es, id)->Some_0;
                let saved = EnvironmentView {
                    name: trim(e.name),
                    base_url: trim(e.base_url),
                    variables: e.variables,
                    updated_at: now,
                    ..stored
                };
                &&& r->Ok_0@ == saved
                &&& fin.environments() == es.update(crate::api_store::table::key_index::<ApiEnvironment>(es, id), saved)
            }
            &&& r is Ok && !has_key::<ApiEnvironment>(es, id) ==> {
                let saved = EnvironmentView {
                    id: id,
                    project_id: e.project_id,
                    name: trim(e.name),
                    base_url: trim(e.base_url),
                    variables: e.variables,
                    created_at: now,
                    updated_at: now,
                };
                &&& r->Ok_0@ == saved
                &&& fin.environments() == es.push(saved)
            }
            &&& fin.projects() == old.projects()
            &&& fin.groups() == old.groups()
            &&& fin.requests() == old.requests()
            &&& fin.histories() == old.histories()
        }))
    }

    /// Saves an environment of an existing project, stamped `now`: a new one under an
    /// `aenv_` id with `fresh_id` when its id is blank or unknown, else in place, keeping the
    /// stored project and creation time. Name and base URL are trimmed.
    pub fn upsert_environment_with(&mut self, environment: &ApiEnvironment, now: i64, fresh_id: &str) -> (r: Result<ApiEnvironment, String>)
        requires
            old(self).wf(),
        ensures
            final(self).wf(),
            Self::upsert_environment_outcome(*old(self), *final(self), environment, now, fresh_id@, r),
    {
        let name = match require_name(environment.name.as_str(), "环境名称") {
            Ok(n) => n,
            Err(e) => return Err(e),
        };
        if find_row(&self.projects, environment.project_id.as_str()).is_none() {
            return Err(not_found_text(environment.project_id.as_str(), "项目"));
        }
        let given = crate::text::trimmed(chars_of(environment.id.as_str()).as_slice());
        let id = if given.len() == 0 {
            prefixed("aenv_", fresh_id)
        } else {
            string_of(given.as_slice())
        };
        let base_url = string_of(crate::text::trimmed(chars_of(environment.base_url.as_str()).as_slice()).as_slice());
        let variables = crate::models::api_client::copy_rows(environment.variables.as_slice());
        let ghost es = self.environments();
        match find_row(&self.environments, id.as_str()) {
            Some(i) => {
                let stored = self.environments[i].duplicate();
                let saved = ApiEnvironment { name, base_url, variables, updated_at: now, ..stored };
                proof { lemma_unique_update::<ApiEnvironment>(es, i as int, saved@); }
                let result = saved.duplicate();
                self.environments.set(i, saved);
                assert(self.environments() =~= es.update(i as int, result@));
                Ok(result)
            },
            None => {
                if table_full(self.environments.len()) {
                    return Err(db_error("database or disk is full"));
                }
                let saved = ApiEnvironment {
                    id,
                    project_id: environment.project_id.clone(),
                    name,
                    base_url,
                    variables,
                    created_at: now,
                    updated_at: now,
                };
                proof { lemma_unique_push::<ApiEnvironment>(es, saved@); }
                let result = saved.duplicate();
                self.environments.push(saved);
                assert(self.environments() =~= es.push(result@));
                Ok(result)
            },
        }
    }

    /// Saves an environment, now, under a fresh random id when it is new.
    pub fn upsert_environment(&mut self, environment: &ApiEnvironment) -> (r: Result<ApiEnvironment, String>)
        requires
            old(self).wf(),
        ensures
            final(self).wf(),
            r is Err ==> final(self).same_tables(old(self)),
            ({
                let e = environment@;
                &&& required_name(e.name, "环境名称"@) is Err ==> r is Err && r->Err_0@ == required_name(e.name, "环境名称"@)->Err_0
                &&& required_name(e.name, "环境名称"@) is Ok && !has_key::<ApiProject>(old(self).projects(), e.project_id) ==> r is Err
                    && r->Err_0@ == not_found_message(e.project_id, "项目"@)
                &&& r is Ok ==> r->Ok_0@.name == trim(e.name) && r->Ok_0@.base_url == trim(e.base_url) && r->Ok_0@.variables == e.variables
                &&& r is Ok && trim(e.id).len() > 0 ==> r->Ok_0@.id == trim(e.id)
                &&& r is Ok && trim(e.id).len() > 0 && has_key::<ApiEnvironment>(old(self).environments(), trim(e.id)) ==> final(self).environments().len()
                    == old(self).environments().len()
            }),
            exists|now: i64, fresh: Seq<char>|
                is_short_id(fresh) && #[trigger] Self::upsert_environment_outcome(*old(self), *final(self), environment, now, fresh, r),
    {
        let now = now_millis();
        let fresh = random_id(10);
        self.upsert_environment_with(environment, now, fresh.as_str())
    }

    /// Deletes an environment and answers its id.
    pub fn delete_environment(&mut self, environment_id: &str) -> (r: Result<String, String>)
        requires
            old(self).wf(),
        ensures
            final(self).wf(),
            !has_key::<ApiEnvironment>(old(self).environments(), environment_id@) ==> r is Err && r->Err_0@
                == not_found_message(environment_id@, "环境"@) && final(self).same_tables(old(self)),
            has_key::<ApiEnvironment>(old(self).environments(), environment_id@) ==> r is Ok && r->Ok_0@ == environment_id@
                && final(self).environments() == old(self).environments().filter(environment_other_than(environment_id@))
                && final(self).projects() == old(self).projects() && final(self).groups() == old(self).groups()
                && final(self).requests() == old(self).requests() && final(self).histories() == old(self).histories(),
    {
        if find_row(&self.environments, environment_id).is_none() {
            return Err(not_found_text(environment_id, "环境"));
        }
        let eid = chars_of(environment_id);
        let kept = select_rows(
            &self.environments,
            |e: &ApiEnvironment| -> (b: bool) ensures b == (e.id@ != eid@) { !seq_eq(chars_of(e.id.as_str()).as_slice(), eid.as_slice()) },
            Ghost(environment_other_than(environment_id@)),
        );
        proof {
            lemma_unique_filter::<ApiEnvironment>(self.environments(), environment_other_than(environment_id@));
            assert(self.environments().filter(environment_other_than(environment_id@)).len() <= self.environments().len());
        }
        self.environments = kept;
        Ok(environment_id.to_owned())
    }

    /// The environment chosen for a request, checked to be of the request's project; none
    /// when no id, or a blank one, is given.
    pub fn resolve_environment_for_request(&self, request_id: &str, environment_id: Option<&str>) -> (r: Result<Option<ApiEnvironment>, String>)
        requires
            self.wf(),
        ensures
            ({
                let gs = self.groups();
                let rs = self.requests();
                let es = self.environments();
                match environment_id {
                    None => r == Ok::<Option<ApiEnvironment>, String>(None),
                    Some(raw) => {
                        let id = trim(raw@);
                        let req = read_request(gs, rs, request_id@);
                        let env = lookup::<ApiEnvironment>(es, id);
                        &&& id.len() == 0 ==> r == Ok::<Option<ApiEnvironment>, String>(None)
                        &&& id.len() > 0 && req is None ==> r is Err && r->Err_0@ == not_found_message(request_id@, "请求"@)
                        &&& id.len() > 0 && req is Some && env is None ==> r is Err && r->Err_0@ == not_found_message(id, "环境"@)
                        &&& id.len() > 0 && req is Some && env is Some && env->Some_0.project_id != req->Some_0.project_id ==> r is Err
                            && r->Err_0@ == "所选环境与请求不属于同一项目"@
                        &&& id.len() > 0 && req is Some && env is Some && env->Some_0.project_id == req->Some_0.project_id ==> r is Ok
                            && r->Ok_0 is Some && r->Ok_0->Some_0@ == env->Some_0
                    },
                }
            }),
    {
        let raw = match environment_id {
            None => return Ok(None),
            Some(raw) => raw,
        };
        let id = crate::text::trimmed(chars_of(raw).as_slice());
        if id.len() == 0 {
            return Ok(None);
        }
        let request = match self.get_request(request_id) {
            Ok(Some(q)) => q,
            _ => return Err(not_found_text(request_id, "请求")),
        };
        let id = string_of(id.as_slice());
        let i = match find_row(&self.environments, id.as_str()) {
            Some(i) => i,
            None => return Err(not_found_text(id.as_str(), "环境")),
        };
        if !seq_eq(chars_of(self.environments[i].project_id.as_str()).as_slice(), chars_of(request.project_id.as_str()).as_slice()) {
            return Err(String::from_str("所选环境与请求不属于同一项目"));
        }
        Ok(Some(self.environments[i].duplicate()))
    }
}

/// `x` was executed after `h`, or at the same time with a larger id.
pub open spec fn strictly_newer(x: HistoryView, h: HistoryView) -> bool {
    x.executed_at > h.executed_at || (x.executed_at == h.executed_at && crate::order::lex_le(h.id, x.id) && h.id != x.id)
}

/// History of request `rid` newer than `h`.
pub open spec fn newer_of(rid: Seq<char>, h: HistoryView) -> spec_fn(HistoryView) -> bool {
    |x: HistoryView| x.request_id == rid && strictly_newer(x, h)
}

/// What stays of the history after an entry of request `rid` is written: of that request's
/// entries, the newest ones up to the limit; the rest untouched.
pub open spec fn kept_after_append(hs: Seq<HistoryView>, rid: Seq<char>) -> spec_fn(HistoryView) -> bool {
    |h: HistoryView| h.request_id != rid || hs.filter(newer_of(rid, h)).len() < crate::models::api_client::MAX_HISTORY_PER_REQUEST
}

fn strictly_newer_exec(x: &ApiRequestHistory, h: &ApiRequestHistory) -> (r: bool)
    ensures
        r == strictly_newer(x@, h@),
{
    if x.executed_at != h.executed_at {
        return x.executed_at > h.executed_at;
    }
    let a = chars_of(h.id.as_str());
    let b = chars_of(x.id.as_str());
    crate::order::lex_le_exec(a.as_slice(), b.as_slice()) && !seq_eq(a.as_slice(), b.as_slice())
}

fn stays_after_append(all: &Vec<ApiRequestHistory>, rid: &[char], h: &ApiRequestHistory) -> (b: bool)
    ensures
        b == kept_after_append(seq_views(all@), rid@)(h@),
{
    if !seq_eq(chars_of(h.request_id.as_str()).as_slice(), rid) {
        return true;
    }
    let newer = count_rows(
        all,
        |x: &ApiRequestHistory| -> (c: bool) ensures c == newer_of(rid@, h@)(x@) { seq_eq(chars_of(x.request_id.as_str()).as_slice(), rid) && strictly_newer_exec(x, h) },
        Ghost(newer_of(rid@, h@)),
    );
    newer < crate::models::api_client::MAX_HISTORY_PER_REQUEST
}

impl ApiClientRepository {
    /// The history of a request, newest first, ties by id from the largest.
    pub fn list_histories(&self, request_id: &str) -> (r: Result<Vec<ApiRequestHistory>, String>)
        requires
            self.wf(),
        ensures
            r is Ok,
            is_ranked_permutation::<ApiRequestHistory>(self.histories().filter(of_request(request_id@)), seq_views(r->Ok_0@)),
    {
        let rid = chars_of(request_id);
        let picked = select_rows(
            &self.histories,
            |h: &ApiRequestHistory| -> (b: bool) ensures b == (h.request_id@ == rid@) { seq_eq(chars_of(h.request_id.as_str()).as_slice(), rid.as_slice()) },
            Ghost(of_request(request_id@)),
        );
        Ok(sort_ranked(picked))
    }

    /// The history entry with id `history_id`.
    pub fn get_history(&self, history_id: &str) -> (r: Result<Option<ApiRequestHistory>, String>)
        requires
            self.wf(),
        ensures
            r is Ok,
            match r->Ok_0 {
                Some(h) => lookup::<ApiRequestHistory>(self.histories(), history_id@) == Some(h@),
                None => lookup::<ApiRequestHistory>(self.histories(), history_id@) is None,
            },
    {
        match find_row(&self.histories, history_id) {
            Some(i) => Ok(Some(self.histories[i].duplicate())),
            None => Ok(None),
        }
    }

    /// Deletes the history of a request and answers how many entries went.
    pub fn clear_histories(&mut self, request_id: &str) -> (r: Result<usize, String>)
        requires
            old(self).wf(),
        ensures
            final(self).wf(),
            r == Ok::<usize, String>(old(self).histories().filter(of_request(request_id@)).len() as usize),
            final(self).histories() == old(self).histories().filter(not_of_request(request_id@)),
            final(self).projects() == old(self).projects(),
            final(self).groups() == old(self).groups(),
            final(self).requests() == old(self).requests(),
            final(self).environments() == old(self).environments(),
    {
        let rid = chars_of(request_id);
        let n = count_rows(
            &self.histories,
            |h: &ApiRequestHistory| -> (b: bool) ensures b == (h.request_id@ == rid@) { seq_eq(chars_of(h.request_id.as_str()).as_slice(), rid.as_slice()) },
            Ghost(of_request(request_id@)),
        );
        let kept = select_rows(
            &self.histories,
            |h: &ApiRequestHistory| -> (b: bool) ensures b == (h.request_id@ != rid@) { !seq_eq(chars_of(h.request_id.as_str()).as_slice(), rid.as_slice()) },
            Ghost(not_of_request(request_id@)),
        );
        proof {
            lemma_unique_filter::<ApiRequestHistory>(self.histories(), not_of_request(request_id@));
            assert(self.histories().filter(not_of_request(request_id@)).len() <= self.histories().len());
        }
        self.histories = kept;
        Ok(n)
    }

    /// What `append_history_with` does: its result and the tables it leaves.
    pub open spec fn append_history_outcome(old: Self, fin: Self, history: &ApiRequestHistory, now: i64, fresh_id: Seq<char>, r: Result<ApiRequestHistory, String>) -> bool {
        &&& (r is Err ==> fin.same_tables(&old))
        &&& (({
            let hs = old.histories();
            let rid = history.request_id@;
            let id = crate::history::id_or_fresh(history.id@, "ahis_"@, fresh_id);
            &&& !has_key::<ApiRequest>(old.requests(), rid) ==> r is Err && r->Err_0@ == db_message(
                "FOREIGN KEY constraint failed"@,
            )
            &&& has_key::<ApiRequest>(old.requests(), rid) && has_key::<ApiRequestHistory>(hs, id) ==> r is Err
                && r->Err_0@ == db_message("UNIQUE constraint failed: api_request_histories.id"@)
            &&& r is Ok <==> has_key::<ApiRequest>(old.requests(), rid) && !has_key::<ApiRequestHistory>(hs, id)
                && hs.len() + 1 < row_limit()
            &&& r is Ok ==> {
                let all = hs.push(r->Ok_0@);
                &&& crate::history::is_prepared_record(r->Ok_0, *history, now, fresh_id)
                &&& fin.histories() == all.filter(kept_after_append(all, rid))
                &&& fin.projects() == old.projects()
                &&& fin.groups() == old.groups()
                &&& fin.requests() == old.requests()
                &&& fin.environments() == old.environments()
            }
        }))
    }

    /// Writes an execution record, prepared as `prepare_history_record` does with `now` and
    /// `fresh_id`, for an existing request; then keeps only that request's newest entries up
    /// to the limit.
    pub fn append_history_with(&mut self, history: &ApiRequestHistory, now: i64, fresh_id: &str) -> (r: Result<ApiRequestHistory, String>)
        requires
            old(self).wf(),
        ensures
            final(self).wf(),
            Self::append_history_outcome(*old(self), *final(self), history, now, fresh_id@, r),
    {
        let record = crate::history::prepare_history_record(history, now, fresh_id);
        if find_row(&self.requests, record.request_id.as_str()).is_none() {
            return Err(db_error("FOREIGN KEY constraint failed"));
        }
        if find_row(&self.histories, record.id.as_str()).is_some() {
            return Err(db_error("UNIQUE constraint failed: api_request_histories.id"));
        }
        if table_full(self.histories.len()) {
            return Err(db_error("database or disk is full"));
        }
        let ghost hs = self.histories();
        proof { lemma_unique_push::<ApiRequestHistory>(hs, record@); }
        let stored = record.duplicate();
        let mut all = crate::api_store::table::copy_all(&self.histories);
        let ghost before = seq_views(all@);
        all.push(stored);
        let ghost all_v = hs.push(record@);
        assert(seq_views(all@) =~= before.push(record@));
        assert(seq_views(all@) =~= all_v);
        let rid = chars_of(history.request_id.as_str());
        let all_ref = &all;
        let kept = select_rows(
            all_ref,
            |h: &ApiRequestHistory| -> (b: bool) ensures b == kept_after_append(seq_views(all_ref@), rid@)(h@) { stays_after_append(all_ref, rid.as_slice(), h) },
            Ghost(kept_after_append(all_v, rid@)),
        );
        proof {
            lemma_unique_filter::<ApiRequestHistory>(all_v, kept_after_append(all_v, rid@));
            lemma_kept_shrinks(all_v, rid@);
        }
        self.histories = kept;
        Ok(record)
    }

    /// Writes an execution record, now, under a fresh random id when it has none.
    pub fn append_history(&mut self, history: &ApiRequestHistory) -> (r: Result<ApiRequestHistory, String>)
        requires
            old(self).wf(),
        ensures
            final(self).wf(),
            r is Err ==> final(self).same_tables(old(self)),
            !has_key::<ApiRequest>(old(self).requests(), history.request_id@) ==> r is Err && r->Err_0@ == db_message(
                "FOREIGN KEY constraint failed"@,
            ),
            r is Ok ==> {
                let all = old(self).histories().push(r->Ok_0@);
                &&& r->Ok_0@.request_id == history.request_id@
                &&& final(self).histories() == all.filter(kept_after_append(all, history.request_id@))
            },
            exists|now: i64, fresh: Seq<char>|
                is_short_id(fresh) && #[trigger] Self::append_history_outcome(*old(self), *final(self), history, now, fresh, r),
    {
        let now = now_millis();
        let fresh = random_id(10);
        self.append_history_with(history, now, fresh.as_str())
    }
}

/// Pruning after a write leaves at most the old number of entries.
proof fn lemma_kept_shrinks(all: Seq<HistoryView>, rid: Seq<char>)
    requires
        all.len() >= 1,
        all.last().request_id == rid,
    ensures
        all.filter(kept_after_append(all, rid)).len() <= all.len(),
{
    broadcast use vstd::seq_lib::group_filter_ensures;
}

/// Request `id` exists and is in group `g`.
pub open spec fn in_group_of(rs: Seq<RequestView>, g: Seq<char>, id: Seq<char>) -> bool {
    has_key::<ApiRequest>(rs, id) && lookup::<ApiRequest>(rs, id)->Some_0.group_id == g
}

/// The requests after giving each request of group `g` listed in `ids` the position of its
/// last mention there, stamped `now`.
pub open spec fn rerequested(rs: Seq<RequestView>, g: Seq<char>, ids: Seq<Seq<char>>, now: i64) -> Seq<RequestView> {
    Seq::new(
        rs.len(),
        |j: int|
            if rs[j].group_id == g && ids.contains(rs[j].id) {
                RequestView { sort: last_position(ids, rs[j].id) as i64, updated_at: now, ..rs[j] }
            } else {
                rs[j]
            },
    )
}

/// The message when a listed request is not in the group.
pub open spec fn stray_request_message(request_id: Seq<char>, group_id: Seq<char>) -> Seq<char> {
    "请求 "@ + request_id + " 不属于分组 "@ + group_id
}

impl ApiClientRepository {
    /// What `reorder_requests_with` does: its result and the tables it leaves.
    pub open spec fn reorder_requests_outcome(old: Self, fin: Self, group_id: &str, request_ids: &[String], now: i64, r: Result<Vec<ApiRequest>, String>) -> bool {
        &&& (({
            let gs = old.groups();
            let rs = old.requests();
            let ids = string_views(request_ids@);
            let all_in = forall|i: int| 0 <= i < ids.len() ==> in_group_of(rs, group_id@, #[trigger] ids[i]);
            &&& r is Err <==> !all_in || !has_key::<ApiGroup>(gs, group_id@)
            &&& r is Err ==> fin.same_tables(&old)
            &&& !all_in ==> exists|i: int|
                0 <= i < ids.len() && !in_group_of(rs, group_id@, #[trigger] ids[i]) && (forall|j: int|
                    0 <= j < i ==> in_group_of(rs, group_id@, #[trigger] ids[j])) && r->Err_0@ == stray_request_message(ids[i], group_id@)
            &&& all_in && !has_key::<ApiGroup>(gs, group_id@) ==> r->Err_0@ == not_found_message(group_id@, "分组"@)
            &&& r is Ok ==> {
                &&& fin.requests() == rerequested(rs, group_id@, ids, now)
                &&& is_ranked_permutation::<crate::api_store::rows::JoinedRequest>(
                    joined_where(gs, fin.requests(), in_group(group_id@)),
                    with_group_sorts(gs, seq_views(r->Ok_0@)),
                )
                &&& fin.projects() == old.projects()
                &&& fin.groups() == gs
                &&& fin.environments() == old.environments()
                &&& fin.histories() == old.histories()
            }
        }))
    }

    /// Gives each listed request of a group the position of its last mention in
    /// `request_ids` and stamps it `now`; then lists the group's requests. Nothing changes
    /// when a listed request is not in the group, or the group does not exist.
    pub fn reorder_requests_with(&mut self, group_id: &str, request_ids: &[String], now: i64) -> (r: Result<Vec<ApiRequest>, String>)
        requires
            old(self).wf(),
            request_ids@.len() <= isize::MAX,
        ensures
            final(self).wf(),
            Self::reorder_requests_outcome(*old(self), *final(self), group_id, request_ids, now, r),
    {
        let ghost rs = self.requests();
        let ghost ids = string_views(request_ids@);
        let gid = chars_of(group_id);
        for i in 0..request_ids.len()
            invariant
                rs == self.requests(),
                ids == string_views(request_ids@),
                keys_unique::<ApiRequest>(rs),
                gid@ == group_id@,
                self.wf(),
                self.same_tables(old(self)),
                forall|j: int| 0 <= j < i ==> in_group_of(rs, group_id@, #[trigger] ids[j]),
        {
            assert(ids[i as int] == request_ids@[i as int]@);
            let ok = match find_row(&self.requests, request_ids[i].as_str()) {
                Some(j) => seq_eq(chars_of(self.requests[j].group_id.as_str()).as_slice(), gid.as_slice()),
                None => false,
            };
            if !ok {
                let mut msg = chars_of("请求 ");
                push_str(&mut msg, request_ids[i].as_str());
                push_str(&mut msg, " 不属于分组 ");
                push_str(&mut msg, group_id);
                return Err(string_of(msg.as_slice()));
            }
        }
        if find_row(&self.groups, group_id).is_none() {
            return Err(not_found_text(group_id, "分组"));
        }
        assert(rerequested(rs, group_id@, ids.take(0), now) =~= rs);
        for i in 0..request_ids.len()
            invariant
                ids == string_views(request_ids@),
                keys_unique::<ApiRequest>(rs),
                forall|j: int| 0 <= j < ids.len() ==> in_group_of(rs, group_id@, #[trigger] ids[j]),
                self.requests() == rerequested(rs, group_id@, ids.take(i as int), now),
                self.projects() == old(self).projects(),
                self.groups() == old(self).groups(),
                self.environments() == old(self).environments(),
                self.histories() == old(self).histories(),
                rs == old(self).requests(),
                old(self).wf(),
                request_ids@.len() <= isize::MAX,
        {
            assert(ids[i as int] == request_ids@[i as int]@);
            assert(in_group_of(rs, group_id@, ids[i as int]));
            let ghost cur = self.requests();
            proof {
                assert forall|a: int, b: int| 0 <= a < b < cur.len() implies #[trigger] cur[a].id != #[trigger] cur[b].id by {
                    assert(cur[a].id == rs[a].id && cur[b].id == rs[b].id);
                    assert(ApiRequest::key_of(rs[a]) != ApiRequest::key_of(rs[b]));
                }
                assert(keys_unique::<ApiRequest>(cur));
            }
            proof {
                let k = choose|k: int| 0 <= k < rs.len() && ApiRequest::key_of(#[trigger] rs[k]) == ids[i as int];
                assert(cur[k].id == rs[k].id);
                assert(has_key::<ApiRequest>(cur, ids[i as int]));
            }
            let j = find_row(&self.requests, request_ids[i].as_str()).unwrap();
            let old_request = self.requests[j].duplicate();
            let request = ApiRequest { sort: i as i64, updated_at: now, ..old_request };
            let ghost rv = request@;
            assert(rv == RequestView { sort: i as i64, updated_at: now, ..rs[j as int] });
            self.requests.set(j, request);
            assert(self.requests() =~= cur.update(j as int, rv));
            proof {
                let next = ids.take(i + 1);
                assert(ids.take(i as int).push(ids[i as int]) =~= next);
                assert(next.drop_last() =~= ids.take(i as int));
                assert(rs[j as int].id == ids[i as int]);
                crate::api_store::table::lemma_lookup_at::<ApiRequest>(rs, j as int);
                assert(rs[j as int].group_id == group_id@);
                assert forall|k: int| 0 <= k < rs.len() implies #[trigger] self.requests()[k] == rerequested(rs, group_id@, next, now)[k] by {
                    if k == j {
                        assert(next.contains(ids[i as int])) by { assert(next[i as int] == ids[i as int]); }
                        assert(last_position(next, rs[k].id) == i);
                    } else {
                        assert(rs[k].id != rs[j as int].id) by {
                            if k < j {
                                assert(ApiRequest::key_of(rs[k]) != ApiRequest::key_of(rs[j as int]));
                            } else {
                                assert(ApiRequest::key_of(rs[j as int]) != ApiRequest::key_of(rs[k]));
                            }
                        }
                        assert(next.contains(rs[k].id) == ids.take(i as int).contains(rs[k].id)) by {
                            if next.contains(rs[k].id) {
                                let m = choose|m: int| 0 <= m < next.len() && next[m] == rs[k].id;
                                if m < i {
                                    assert(ids.take(i as int)[m] == rs[k].id);
                                }
                            }
                            if ids.take(i as int).contains(rs[k].id) {
                                let m = choose|m: int| 0 <= m < i && ids.take(i as int)[m] == rs[k].id;
                                assert(next[m] == rs[k].id);
                            }
                        }
                        assert(last_position(next, rs[k].id) == last_position(ids.take(i as int), rs[k].id));
                    }
                }
                assert(self.requests() =~= rerequested(rs, group_id@, next, now));
            }
        }
        proof {
            assert(ids.take(ids.len() as int) =~= ids);
            let fin = self.requests();
            assert forall|a: int, b: int| 0 <= a < b < fin.len() implies ApiRequest::key_of(#[trigger] fin[a]) != ApiRequest::key_of(#[trigger] fin[b]) by {
                assert(fin[a].id == rs[a].id && fin[b].id == rs[b].id);
                assert(ApiRequest::key_of(rs[a]) != ApiRequest::key_of(rs[b]));
            }
        }
        let rows = self.joined_rows(
            |q: &ApiRequest| -> (b: bool) ensures b == (q.group_id@ == gid@) { seq_eq(chars_of(q.group_id.as_str()).as_slice(), gid.as_slice()) },
            Ghost(in_group(group_id@)),
        );
        proof {
            let gs = self.groups();
            let f = self.requests().filter(in_group(group_id@));
            assert forall|k: int| 0 <= k < rows@.len() implies (#[trigger] rows@[k])@.0 == lookup::<ApiGroup>(gs, rows@[k]@.1.group_id)->Some_0.sort by {
                let jw = joined_where(gs, self.requests(), in_group(group_id@));
                assert(seq_views(rows@) == jw);
                assert(jw.len() == f.len());
                assert(seq_views(rows@)[k] == rows@[k]@);
                assert(jw[k] == joined_view(gs, f[k]));
            }
        }
        Ok(Self::sorted_requests(rows, Ghost(self.groups())))
    }

    /// Reorders a group's requests, now.
    pub fn reorder_requests(&mut self, group_id: &str, request_ids: &[String]) -> (r: Result<Vec<ApiRequest>, String>)
        requires
            old(self).wf(),
            request_ids@.len() <= isize::MAX,
        ensures
            final(self).wf(),
            ({
                let rs = old(self).requests();
                let ids = string_views(request_ids@);
                let all_in = forall|i: int| 0 <= i < ids.len() ==> in_group_of(rs, group_id@, #[trigger] ids[i]);
                &&& r is Err <==> !all_in || !has_key::<ApiGroup>(old(self).groups(), group_id@)
                &&& r is Err ==> final(self).same_tables(old(self))
                &&& r is Ok ==> final(self).requests().len() == rs.len()
                    && seq_views(r->Ok_0@).len() == final(self).requests().filter(in_group(group_id@)).len()
                    && forall|i: int| 0 <= i < ids.len() ==> lookup::<ApiRequest>(final(self).requests(), #[trigger] ids[i])->Some_0.sort
                        == last_position(ids, ids[i])
            }),
            r is Ok ==> is_ranked_permutation::<crate::api_store::rows::JoinedRequest>(
                joined_where(old(self).groups(), final(self).requests(), in_group(group_id@)),
                with_group_sorts(old(self).groups(), seq_views(r->Ok_0@)),
            ),
            exists|now: i64|
                #[trigger] Self::reorder_requests_outcome(*old(self), *final(self), group_id, request_ids, now, r),
    {
        let now = now_millis();
        let r = self.reorder_requests_with(group_id, request_ids, now);
        proof {
            broadcast use vstd::seq_lib::group_to_multiset_ensures;
            if r is Ok {
                let gs = self.groups();
                let w = with_group_sorts(gs, seq_views(r->Ok_0@));
                assert(w.to_multiset().len() == w.len());
                let jw = joined_where(gs, self.requests(), in_group(group_id@));
                assert(jw.to_multiset().len() == jw.len());
                let rs = old(self).requests();
                let ids = string_views(request_ids@);
                let fin = self.requests();
                assert forall|i: int| 0 <= i < ids.len() implies lookup::<ApiRequest>(fin, #[trigger] ids[i])->Some_0.sort == last_position(ids, ids[i]) by {
                    assert(in_group_of(rs, group_id@, ids[i]));
                    let k = crate::api_store::table::key_index::<ApiRequest>(rs, ids[i]);
                    assert(0 <= k < rs.len() && rs[k].id == ids[i]);
                    crate::api_store::table::lemma_lookup_at::<ApiRequest>(rs, k);
                    assert(fin[k].id == ids[i]);
                    crate::api_store::table::lemma_lookup_at::<ApiRequest>(fin, k);
                    assert(ids.contains(ids[i]));
                    lemma_last_position(ids, ids[i]);
                    assert(rs[k].group_id == group_id@);
                    assert(fin[k].sort == last_position(ids, ids[i]) as i64);
                    assert(ids.len() == request_ids@.len());
                }
            }
        }
        r
    }
}

impl ApiClientRepository {
    /// Tables as loaded from storage, when ids are unique in each and none is past the row
    /// limit.
    pub fn from_tables(
        projects: Vec<ApiProject>,
        groups: Vec<ApiGroup>,
        requests: Vec<ApiRequest>,
        environments: Vec<ApiEnvironment>,
        histories: Vec<ApiRequestHistory>,
    ) -> (r: Option<Self>)
        ensures
            r is Some <==> ({
                &&& keys_unique::<ApiProject>(seq_views(projects@))
                &&& keys_unique::<ApiGroup>(seq_views(groups@))
                &&& keys_unique::<ApiRequest>(seq_views(requests@))
                &&& keys_unique::<ApiEnvironment>(seq_views(environments@))
                &&& keys_unique::<ApiRequestHistory>(seq_views(histories@))
                &&& projects@.len() < row_limit() && groups@.len() < row_limit() && requests@.len() < row_limit()
                &&& environments@.len() < row_limit() && histories@.len() < row_limit()
            }),
            r is Some ==> {
                let t = r->Some_0;
                &&& t.wf()
                &&& t.projects() == seq_views(projects@)
                &&& t.groups() == seq_views(groups@)
                &&& t.requests() == seq_views(requests@)
                &&& t.environments() == seq_views(environments@)
                &&& t.histories() == seq_views(histories@)
            },
    {
        if !crate::api_store::table::keys_are_unique(&projects) || !crate::api_store::table::keys_are_unique(&groups)
            || !crate::api_store::table::keys_are_unique(&requests) || !crate::api_store::table::keys_are_unique(&environments)
            || !crate::api_store::table::keys_are_unique(&histories) {
            return None;
        }
        if past_row_limit(projects.len()) || past_row_limit(groups.len()) || past_row_limit(requests.len())
            || past_row_limit(environments.len()) || past_row_limit(histories.len()) {
            return None;
        }
        Some(ApiClientRepository { projects, groups, requests, environments, histories })
    }

    /// Copies of the tables, for storage.
    pub fn tables(&self) -> (r: (Vec<ApiProject>, Vec<ApiGroup>, Vec<ApiRequest>, Vec<ApiEnvironment>, Vec<ApiRequestHistory>))
        ensures
            seq_views(r.0@) == self.projects(),
            seq_views(r.1@) == self.groups(),
            seq_views(r.2@) == self.requests(),
            seq_views(r.3@) == self.environments(),
            seq_views(r.4@) == self.histories(),
    {
        (
            crate::api_store::table::copy_all(&self.projects),
            crate::api_store::table::copy_all(&self.groups),
            crate::api_store::table::copy_all(&self.requests),
            crate::api_store::table::copy_all(&self.environments),
            crate::api_store::table::copy_all(&self.histories),
        )
    }
}

/// Filtering by a condition every item meets keeps everything.
pub proof fn lemma_filter_all<A>(s: Seq<A>, pred: spec_fn(A) -> bool)
    requires
        forall|a: A| #[trigger] pred(a),
    ensures
        s.filter(pred) == s,
    decreases s.len(),
{
    reveal(Seq::filter);
    if s.len() > 0 {
        lemma_filter_all(s.drop_last(), pred);
        assert(s.drop_last().push(s.last()) =~= s);
    }
}

} // verus!
