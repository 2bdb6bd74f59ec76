use eidolon::api_store::tables::{ApiClientRepository, DEFAULT_GROUP_NAME};
use eidolon::models::api_client::{
    ApiEnvironment, ApiGroup, ApiProject, ApiRequest, ApiRequestHistory, BodyKind, ExecutionStatus, KeyValueRow,
    RequestBody, RequestSnapshot, MAX_HISTORY_BODY_BYTES, MAX_HISTORY_PER_REQUEST,
};

fn seeded_project(repo: &mut ApiClientRepository) -> (ApiProject, ApiGroup) {
    let project = repo.create_project("订单系统", "订单相关接口").expect("project should be created");
    let groups = repo.list_groups(&project.id).expect("groups should load");
    (project, groups[0].clone())
}

fn seeded_request(repo: &mut ApiClientRepository) -> String {
    let (_, group) = seeded_project(repo);
    repo.create_request(&group.id, "新增订单").expect("request").id
}

fn snapshot() -> RequestSnapshot {
    RequestSnapshot {
        method: "POST".to_string(),
        url: "https://test.example.com/orders".to_string(),
        query: vec![KeyValueRow::new("token", "plain-secret")],
        headers: vec![
            KeyValueRow::new("Authorization", "Bearer real-token"),
            KeyValueRow::new("Content-Type", "application/json"),
        ],
        body: RequestBody { kind: BodyKind::Json, text: "{\"items\":3}".to_string(), form: Vec::new() },
        timeout_ms: 30_000,
        environment_name: Some("测试环境".to_string()),
    }
}

fn create_project_also_creates_default_group_case() {
    let mut repo = ApiClientRepository::new();
    let project = repo.create_project("订单系统", "订单相关接口").expect("project should be created");
    let groups = repo.list_groups(&project.id).expect("groups should load");
    assert_eq!(groups.len(), 1);
    assert_eq!(groups[0].project_id, project.id);
    assert_eq!(groups[0].name, DEFAULT_GROUP_NAME);
    assert_eq!(groups[0].parent_group_id, None);
}

#[test]
fn api_client_create_project_also_creates_default_group() {
    create_project_also_creates_default_group_case();
}

#[test]
fn api_project_repo_create_project_also_creates_default_group() {
    create_project_also_creates_default_group_case();
}

fn create_project_rejects_blank_name_case() {
    let mut repo = ApiClientRepository::new();
    let error = repo.create_project("   ", "").expect_err("blank name must be rejected");
    assert!(error.contains("项目名称"), "got {error}");
}

#[test]
fn api_client_create_project_rejects_blank_name() {
    create_project_rejects_blank_name_case();
}

#[test]
fn api_project_repo_create_project_rejects_blank_name() {
    create_project_rejects_blank_name_case();
}

fn request_round_trips_case() {
    let mut repo = ApiClientRepository::new();
    let (project, group) = seeded_project(&mut repo);
    let created = repo.create_request(&group.id, "新增订单").expect("request should be created");
    let saved = repo
        .update_request(&ApiRequest {
            method: "post".to_string(),
            url: "{{base_url}}/orders".to_string(),
            query: vec![KeyValueRow::new("tag", "a"), KeyValueRow::new("tag", "b"), KeyValueRow::disabled("debug", "1")],
            headers: vec![KeyValueRow::new("Authorization", "Bearer {{token}}")],
            body: RequestBody { kind: BodyKind::Json, text: "{\"items\":3}".to_string(), form: Vec::new() },
            timeout_ms: 15_000,
            ai_prompt: "生成一个包含三件商品的订单".to_string(),
            ai_reference: "字段说明：items 为数组".to_string(),
            ..created.clone()
        })
        .expect("request should be saved");
    assert_eq!(saved.method, "POST");
    assert_eq!(saved.project_id, project.id);
    assert_eq!(saved.query.len(), 3, "duplicate keys must be preserved");
    assert_eq!(saved.query[0].key, "tag");
    assert_eq!(saved.query[1].value, "b");
    assert!(!saved.query[2].enabled, "disabled rows keep their state");
    assert_eq!(saved.body.kind, BodyKind::Json);
    assert_eq!(saved.body.text, "{\"items\":3}");
    assert_eq!(saved.timeout_ms, 15_000);
    assert_eq!(saved.ai_prompt, "生成一个包含三件商品的订单");
    assert_eq!(saved.ai_reference, "字段说明：items 为数组");
    let reloaded = repo.get_request(&created.id).expect("lookup should succeed").expect("request should exist");
    assert_eq!(reloaded, saved);
}

#[test]
fn api_client_request_round_trips_all_fields_including_ai_inputs() {
    request_round_trips_case();
}

#[test]
fn api_request_repo_request_round_trips_all_fields_including_ai_inputs() {
    request_round_trips_case();
}

fn update_request_rejects_case() {
    let mut repo = ApiClientRepository::new();
    let (_, group) = seeded_project(&mut repo);
    let created = repo.create_request(&group.id, "新增订单").expect("created");
    let method_error = repo
        .update_request(&ApiRequest { method: "TRACE".to_string(), ..created.clone() })
        .expect_err("unsupported method must be rejected");
    assert!(method_error.contains("不支持的 HTTP 方法"), "got {method_error}");
    let name_error = repo
        .update_request(&ApiRequest { name: " ".to_string(), ..created })
        .expect_err("blank name must be rejected");
    assert!(name_error.contains("请求名称"), "got {name_error}");
}

#[test]
fn api_client_update_request_rejects_unsupported_method_and_blank_name() {
    update_request_rejects_case();
}

#[test]
fn api_request_repo_update_request_rejects_unsupported_method_and_blank_name() {
    update_request_rejects_case();
}

fn move_request_across_projects_case() {
    let mut repo = ApiClientRepository::new();
    let (first_project, first_group) = seeded_project(&mut repo);
    let second_project = repo.create_project("库存系统", "").expect("second project should be created");
    let second_group = repo.list_groups(&second_project.id).expect("groups should load")[0].clone();
    let request = repo.create_request(&first_group.id, "新增订单").expect("request should be created");
    let error = repo.move_request(&request.id, &second_group.id).expect_err("cross-project move must be rejected");
    assert!(error.contains("其他项目"), "got {error}");
    let same_project_group = repo.create_group(&first_project.id, "订单查询").expect("group should be created");
    let moved = repo.move_request(&request.id, &same_project_group.id).expect("same-project move should succeed");
    assert_eq!(moved.group_id, same_project_group.id);
}

#[test]
fn api_client_move_request_across_projects_is_rejected() {
    move_request_across_projects_case();
}

#[test]
fn api_request_repo_move_request_across_projects_is_rejected() {
    move_request_across_projects_case();
}

fn reorder_groups_case() {
    let mut repo = ApiClientRepository::new();
    let (project, default_group) = seeded_project(&mut repo);
    let second = repo.create_group(&project.id, "订单查询").expect("group b");
    let third = repo.create_group(&project.id, "订单统计").expect("group c");
    let reordered = repo
        .reorder_groups(&project.id, &[third.id.clone(), default_group.id.clone(), second.id.clone()])
        .expect("reorder should succeed");
    let ids = reordered.iter().map(|group| group.id.as_str()).collect::<Vec<_>>();
    assert_eq!(ids, vec![third.id.as_str(), default_group.id.as_str(), second.id.as_str()]);
    let other_project = repo.create_project("库存系统", "").expect("other project");
    let error = repo
        .reorder_groups(&other_project.id, &[second.id.clone()])
        .expect_err("group from another project must be rejected");
    assert!(error.contains("不属于项目"), "got {error}");
}

#[test]
fn api_client_reorder_groups_is_stable_and_scoped_to_project() {
    reorder_groups_case();
}

#[test]
fn api_group_repo_reorder_groups_is_stable_and_scoped_to_project() {
    reorder_groups_case();
}

fn duplicate_request_case() {
    let mut repo = ApiClientRepository::new();
    let (_, group) = seeded_project(&mut repo);
    let created = repo.create_request(&group.id, "新增订单").expect("created");
    let saved = repo
        .update_request(&ApiRequest {
            url: "/orders".to_string(),
            headers: vec![KeyValueRow::new("X-Tenant", "1")],
            ..created
        })
        .expect("saved");
    let copy = repo.duplicate_request(&saved.id).expect("copy should be created");
    assert_ne!(copy.id, saved.id);
    assert_eq!(copy.name, "新增订单 副本");
    assert_eq!(copy.url, "/orders");
    assert_eq!(copy.headers, saved.headers);
}

#[test]
fn api_client_duplicate_request_copies_configuration_into_new_id() {
    duplicate_request_case();
}

#[test]
fn api_request_repo_duplicate_request_copies_configuration_into_new_id() {
    duplicate_request_case();
}

#[test]
fn delete_project_reports_cascade_counts() {
    let mut repo = ApiClientRepository::new();
    let (project, group) = seeded_project(&mut repo);
    repo.create_request(&group.id, "新增订单").expect("request one");
    repo.create_request(&group.id, "订单详情").expect("request two");
    let preview = repo.preview_project_deletion(&project.id).expect("preview should succeed");
    assert_eq!(preview.deleted_groups, 1);
    assert_eq!(preview.deleted_requests, 2);
    let summary = repo.delete_project(&project.id).expect("delete should succeed");
    assert_eq!(summary.deleted_requests, 2);
    assert!(repo.list_projects().expect("list").is_empty());
    assert!(repo.list_requests(&project.id).expect("requests").is_empty());
}

#[test]
fn environment_upsert_and_ownership_validation() {
    let mut repo = ApiClientRepository::new();
    let (project, group) = seeded_project(&mut repo);
    let request = repo.create_request(&group.id, "新增订单").expect("request");
    let environment = repo
        .upsert_environment(&ApiEnvironment {
            project_id: project.id.clone(),
            name: "测试环境".to_string(),
            base_url: "https://test.example.com".to_string(),
            variables: vec![KeyValueRow::new("token", "abc")],
            ..Default::default()
        })
        .expect("environment should be created");
    assert_eq!(environment.variables.len(), 1);
    let renamed = repo
        .upsert_environment(&ApiEnvironment { name: "预发环境".to_string(), ..environment.clone() })
        .expect("environment should update in place");
    assert_eq!(renamed.id, environment.id);
    assert_eq!(renamed.name, "预发环境");
    assert_eq!(repo.list_environments(&project.id).expect("list").len(), 1);
    let resolved = repo
        .resolve_environment_for_request(&request.id, Some(&environment.id))
        .expect("same-project environment should resolve")
        .expect("environment should be present");
    assert_eq!(resolved.id, environment.id);
    let other_project = repo.create_project("库存系统", "").expect("other project");
    let foreign_environment = repo
        .upsert_environment(&ApiEnvironment { project_id: other_project.id, name: "测试环境".to_string(), ..Default::default() })
        .expect("foreign environment should be created");
    let error = repo
        .resolve_environment_for_request(&request.id, Some(&foreign_environment.id))
        .expect_err("foreign environment must be rejected");
    assert!(error.contains("同一项目"), "got {error}");
    assert!(repo.resolve_environment_for_request(&request.id, None).expect("no environment is allowed").is_none());
}

#[test]
fn delete_group_reports_request_and_history_counts() {
    let mut repo = ApiClientRepository::new();
    let (project, group) = seeded_project(&mut repo);
    repo.create_request(&group.id, "新增订单").expect("request");
    let summary = repo.delete_group(&group.id).expect("delete should succeed");
    assert_eq!(summary.deleted_groups, 1);
    assert_eq!(summary.deleted_requests, 1);
    assert!(repo.list_groups(&project.id).expect("groups").is_empty());
}

#[test]
fn upsert_environment_creates_and_updates_in_place() {
    let mut repo = ApiClientRepository::new();
    let project = repo.create_project("订单系统", "").expect("project");
    let environment = repo
        .upsert_environment(&ApiEnvironment {
            project_id: project.id.clone(),
            name: "测试环境".to_string(),
            base_url: "https://test.example.com".to_string(),
            variables: vec![KeyValueRow::new("token", "abc")],
            ..Default::default()
        })
        .expect("environment should be created");
    assert_eq!(environment.variables.len(), 1);
    let updated = repo
        .upsert_environment(&ApiEnvironment { name: "预发环境".to_string(), ..environment.clone() })
        .expect("environment should update in place");
    assert_eq!(updated.id, environment.id);
    assert_eq!(updated.name, "预发环境");
    let listed = repo.list_environments(&project.id).expect("list");
    assert_eq!(listed.len(), 1);
    let deleted = repo.delete_environment(&environment.id).expect("delete should succeed");
    assert_eq!(deleted, environment.id);
    assert!(repo.list_environments(&project.id).expect("list").is_empty());
}

#[test]
fn upsert_environment_rejects_unknown_project() {
    let mut repo = ApiClientRepository::new();
    let error = repo
        .upsert_environment(&ApiEnvironment { project_id: "missing".to_string(), name: "测试环境".to_string(), ..Default::default() })
        .expect_err("unknown project must be rejected");
    assert!(error.contains("未找到"), "got {error}");
}

#[test]
fn create_group_then_rename_and_delete_reports_counts() {
    let mut repo = ApiClientRepository::new();
    let (project, _) = seeded_project(&mut repo);
    let group = repo.create_group(&project.id, "订单查询").expect("group should be created");
    assert_eq!(group.parent_group_id, None);
    let renamed = repo.rename_group(&group.id, "订单详情").expect("rename should succeed");
    assert_eq!(renamed.name, "订单详情");
    let deleted = repo.delete_group(&group.id).expect("delete should succeed");
    assert_eq!(deleted.deleted_groups, 1);
    assert_eq!(deleted.deleted_requests, 0);
}

#[test]
fn create_child_group_attaches_parent() {
    let mut repo = ApiClientRepository::new();
    let (project, _) = seeded_project(&mut repo);
    let parent = repo.create_group(&project.id, "订单").expect("parent should be created");
    let child = repo
        .create_group_with(&project.id, Some(&parent.id), "订单查询", 1, "childgroup")
        .expect("child should be created");
    assert_eq!(child.parent_group_id.as_deref(), Some(parent.id.as_str()));
    assert_eq!(child.project_id, project.id);
    let listed = repo.list_groups(&project.id).expect("list groups");
    let listed_ids: Vec<&str> = listed.iter().map(|group| group.id.as_str()).collect();
    assert!(listed_ids.contains(&parent.id.as_str()));
    assert!(listed_ids.contains(&child.id.as_str()));
}

#[test]
fn move_group_to_child_then_back_to_root() {
    let mut repo = ApiClientRepository::new();
    let (project, _) = seeded_project(&mut repo);
    let parent = repo.create_group(&project.id, "订单").expect("parent");
    let child = repo.create_group(&project.id, "订单查询").expect("child");
    let moved = repo.move_group(&child.id, Some(&parent.id)).expect("move into parent should succeed");
    assert_eq!(moved.parent_group_id.as_deref(), Some(parent.id.as_str()));
    let promoted = repo.move_group(&child.id, None).expect("move to root should succeed");
    assert_eq!(promoted.parent_group_id, None);
}

#[test]
fn move_group_rejects_self_parent() {
    let mut repo = ApiClientRepository::new();
    let (project, _) = seeded_project(&mut repo);
    let group = repo.create_group(&project.id, "订单").expect("group");
    let error = repo.move_group(&group.id, Some(&group.id)).expect_err("self-parent must be rejected");
    assert!(error.contains("不能将自身设为父分组"), "got {error}");
}

#[test]
fn move_group_rejects_cycle() {
    let mut repo = ApiClientRepository::new();
    let (project, _) = seeded_project(&mut repo);
    let root = repo.create_group(&project.id, "root").expect("root");
    let middle = repo.create_group_with(&project.id, Some(&root.id), "middle", 1, "middlegrp0").expect("middle");
    let leaf = repo.create_group_with(&project.id, Some(&middle.id), "leaf", 1, "leafgroup0").expect("leaf");
    let error = repo.move_group(&root.id, Some(&leaf.id)).expect_err("cycle must be rejected");
    assert!(error.contains("循环"), "got {error}");
    let root_after = repo
        .list_groups(&project.id)
        .expect("list")
        .into_iter()
        .find(|group| group.id == root.id)
        .expect("root still present");
    assert_eq!(root_after.parent_group_id, None);
}

#[test]
fn move_group_rejects_cross_project_parent() {
    let mut repo = ApiClientRepository::new();
    let (project, _) = seeded_project(&mut repo);
    let other_project = repo.create_project("库存系统", "").expect("other project");
    let other_default = repo.list_groups(&other_project.id).expect("list other")[0].id.clone();
    let group = repo.create_group(&project.id, "订单").expect("group");
    let error = repo.move_group(&group.id, Some(&other_default)).expect_err("cross-project parent must be rejected");
    assert!(error.contains("不属于项目"), "got {error}");
}

#[test]
fn delete_group_cascades_to_descendants() {
    let mut repo = ApiClientRepository::new();
    let (project, _) = seeded_project(&mut repo);
    let parent = repo.create_group(&project.id, "订单").expect("parent");
    let child = repo.create_group_with(&project.id, Some(&parent.id), "订单查询", 1, "childgroup").expect("child");
    let grand = repo.create_group_with(&project.id, Some(&child.id), "订单详情", 1, "grandgroup").expect("grand");
    let deleted = repo.delete_group(&parent.id).expect("delete should succeed");
    assert_eq!(deleted.deleted_groups, 1);
    let remaining = repo.list_groups(&project.id).expect("list");
    let remaining_ids: Vec<&str> = remaining.iter().map(|group| group.id.as_str()).collect();
    assert!(!remaining_ids.contains(&parent.id.as_str()));
    assert!(!remaining_ids.contains(&child.id.as_str()));
    assert!(!remaining_ids.contains(&grand.id.as_str()));
}

#[test]
fn append_redacts_auth_headers_and_sensitive_query() {
    let mut repo = ApiClientRepository::new();
    let request_id = seeded_request(&mut repo);
    let saved = repo
        .append_history(&ApiRequestHistory {
            request_id: request_id.clone(),
            environment_name: Some("测试环境".to_string()),
            request_snapshot: snapshot(),
            status: ExecutionStatus::Success,
            status_code: Some(200),
            response_headers: vec![KeyValueRow::new("Set-Cookie", "session=abc"), KeyValueRow::new("Content-Type", "application/json")],
            response_body_preview: "{\"id\":1}".to_string(),
            duration_ms: 42,
            ..Default::default()
        })
        .expect("history should be written");
    let auth = saved
        .request_snapshot
        .headers
        .iter()
        .find(|row| row.key == "Authorization")
        .expect("authorization header should be kept as a name");
    assert_eq!(auth.value, "***", "credential value must not be stored");
    let content_type = saved.request_snapshot.headers.iter().find(|row| row.key == "Content-Type").expect("content type stays");
    assert_eq!(content_type.value, "application/json");
    assert_eq!(saved.request_snapshot.query[0].value, "***");
    assert_eq!(saved.response_headers.iter().find(|row| row.key == "Set-Cookie").expect("set-cookie row").value, "***");
    let reloaded = repo.list_histories(&request_id).expect("history should load");
    assert_eq!(reloaded.len(), 1);
    assert_eq!(reloaded[0].status, ExecutionStatus::Success);
    assert_eq!(reloaded[0].status_code, Some(200));
    assert!(!reloaded[0].request_snapshot.headers.iter().any(|row| row.value.contains("real-token")));
}

#[test]
fn append_truncates_response_body_beyond_history_limit() {
    let mut repo = ApiClientRepository::new();
    let request_id = seeded_request(&mut repo);
    let oversized = "a".repeat(MAX_HISTORY_BODY_BYTES + 1024);
    let saved = repo
        .append_history(&ApiRequestHistory {
            request_id,
            request_snapshot: snapshot(),
            status: ExecutionStatus::Success,
            status_code: Some(200),
            response_body_preview: oversized,
            ..Default::default()
        })
        .expect("history should be written");
    assert!(saved.response_body_truncated, "oversized body must be flagged");
    assert_eq!(saved.response_body_preview.len(), MAX_HISTORY_BODY_BYTES);
}

#[test]
fn append_keeps_only_recent_hundred_entries() {
    let mut repo = ApiClientRepository::new();
    let request_id = seeded_request(&mut repo);
    for index in 0..(MAX_HISTORY_PER_REQUEST + 5) {
        repo.append_history(&ApiRequestHistory {
            request_id: request_id.clone(),
            request_snapshot: snapshot(),
            status: ExecutionStatus::Success,
            status_code: Some(200),
            response_body_preview: format!("{{\"index\":{index}}}"),
            executed_at: 1_000 + index as i64,
            ..Default::default()
        })
        .expect("history should be written");
    }
    let stored = repo.list_histories(&request_id).expect("history should load");
    assert_eq!(stored.len(), MAX_HISTORY_PER_REQUEST);
    assert_eq!(stored[0].response_body_preview, format!("{{\"index\":{}}}", MAX_HISTORY_PER_REQUEST + 4), "newest entry must stay");
    assert!(!stored.iter().any(|entry| entry.response_body_preview == "{\"index\":0}"), "oldest entries must be pruned");
}

#[test]
fn append_stores_error_states_without_status_code() {
    let mut repo = ApiClientRepository::new();
    let request_id = seeded_request(&mut repo);
    for status in [ExecutionStatus::NetworkError, ExecutionStatus::Timeout, ExecutionStatus::Cancelled] {
        repo.append_history(&ApiRequestHistory {
            request_id: request_id.clone(),
            request_snapshot: snapshot(),
            status,
            status_code: None,
            error_message: Some("连接失败".to_string()),
            ..Default::default()
        })
        .expect("error history should be written");
    }
    let stored = repo.list_histories(&request_id).expect("history should load");
    assert_eq!(stored.len(), 3);
    assert!(stored.iter().all(|entry| entry.status_code.is_none()));
    assert!(stored.iter().all(|entry| entry.error_message.as_deref() == Some("连接失败")));
}

#[test]
fn append_for_unknown_request_is_rejected_without_losing_response() {
    let mut repo = ApiClientRepository::new();
    let _request_id = seeded_request(&mut repo);
    let error = repo
        .append_history(&ApiRequestHistory {
            request_id: "missing".to_string(),
            request_snapshot: snapshot(),
            status: ExecutionStatus::Success,
            ..Default::default()
        })
        .expect_err("history for unknown request must fail");
    assert!(error.contains("数据库操作失败"), "got {error}");
}

#[test]
fn clear_removes_all_history_for_request() {
    let mut repo = ApiClientRepository::new();
    let request_id = seeded_request(&mut repo);
    repo.append_history(&ApiRequestHistory {
        request_id: request_id.clone(),
        request_snapshot: snapshot(),
        status: ExecutionStatus::Success,
        ..Default::default()
    })
    .expect("history should be written");
    assert_eq!(repo.clear_histories(&request_id).expect("clear should succeed"), 1);
    assert!(repo.list_histories(&request_id).expect("history should load").is_empty());
}

#[test]
fn rename_and_delete_project_reports_cascade_counts() {
    let mut repo = ApiClientRepository::new();
    let project = repo.create_project("订单系统", "").expect("project");
    let groups = repo.list_groups(&project.id).expect("groups");
    repo.create_request(&groups[0].id, "新增订单").expect("request one");
    repo.create_request(&groups[0].id, "订单详情").expect("request two");
    let preview = repo.preview_project_deletion(&project.id).expect("preview should succeed");
    assert_eq!(preview.deleted_groups, 1);
    assert_eq!(preview.deleted_requests, 2);
    let renamed = repo.rename_project(&project.id, "订单服务").expect("rename should succeed");
    assert_eq!(renamed.name, "订单服务");
    let updated = repo.update_project(&project.id, "订单服务", "正式环境").expect("update should succeed");
    assert_eq!(updated.name, "订单服务");
    assert_eq!(updated.description, "正式环境");
    let summary = repo.delete_project(&project.id).expect("delete should succeed");
    assert_eq!(summary.deleted_requests, 2);
    assert!(repo.list_projects().expect("list").is_empty());
}

#[test]
fn delete_request_reports_history_count() {
    let mut repo = ApiClientRepository::new();
    let request_id = seeded_request(&mut repo);
    repo.append_history(&ApiRequestHistory {
        request_id: request_id.clone(),
        request_snapshot: RequestSnapshot::default(),
        status: ExecutionStatus::Success,
        ..Default::default()
    })
    .expect("history should be written");
    let summary = repo.delete_request(&request_id).expect("delete should succeed");
    assert_eq!(summary.deleted_requests, 1);
    assert_eq!(summary.deleted_histories, 1);
    assert!(repo.get_request(&request_id).expect("get").is_none());
}

#[test]
fn resolve_environment_rejects_cross_project_use() {
    let mut repo = ApiClientRepository::new();
    let (project, group) = seeded_project(&mut repo);
    let request = repo.create_request(&group.id, "新增订单").expect("request");
    let env = repo
        .upsert_environment(&ApiEnvironment {
            project_id: project.id.clone(),
            name: "测试环境".to_string(),
            base_url: "https://test.example.com".to_string(),
            ..Default::default()
        })
        .expect("environment should be created");
    let resolved = repo
        .resolve_environment_for_request(&request.id, Some(&env.id))
        .expect("same-project environment should resolve")
        .expect("environment should be present");
    assert_eq!(resolved.id, env.id);
    let other = repo.create_project("库存系统", "").expect("other project");
    let foreign_env = repo
        .upsert_environment(&ApiEnvironment { project_id: other.id, name: "测试环境".to_string(), ..Default::default() })
        .expect("foreign environment should be created");
    let error = repo
        .resolve_environment_for_request(&request.id, Some(&foreign_env.id))
        .expect_err("foreign environment must be rejected");
    assert!(error.contains("同一项目"), "got {error}");
    assert!(repo.resolve_environment_for_request(&request.id, None).expect("no environment is allowed").is_none());
}

#[test]
fn deleting_project_cascades_groups_requests_and_histories() {
    let project = ApiProject {
        id: "p1".to_string(),
        name: "订单系统".to_string(),
        description: String::new(),
        sort: 0,
        created_at: 1,
        updated_at: 1,
    };
    let group = ApiGroup {
        id: "g1".to_string(),
        project_id: "p1".to_string(),
        parent_group_id: None,
        name: "默认分组".to_string(),
        sort: 0,
        created_at: 1,
        updated_at: 1,
    };
    let request = ApiRequest {
        id: "r1".to_string(),
        group_id: "g1".to_string(),
        project_id: "p1".to_string(),
        name: "新增订单".to_string(),
        method: "POST".to_string(),
        url: "/orders".to_string(),
        query: Vec::new(),
        headers: Vec::new(),
        body: RequestBody { kind: BodyKind::Json, text: "{}".to_string(), form: Vec::new() },
        timeout_ms: 30_000,
        ai_prompt: String::new(),
        ai_reference: String::new(),
        sort: 0,
        created_at: 1,
        updated_at: 1,
    };
    let history = ApiRequestHistory {
        id: "h1".to_string(),
        request_id: "r1".to_string(),
        environment_name: Some("测试环境".to_string()),
        status_code: Some(200),
        response_body_preview: "{}".to_string(),
        duration_ms: 12,
        executed_at: 1,
        ..Default::default()
    };
    let mut repo = ApiClientRepository::from_tables(vec![project], vec![group], vec![request], Vec::new(), vec![history])
        .expect("tables with unique ids load");
    repo.delete_project("p1").expect("delete should succeed");
    let (projects, groups, requests, environments, histories) = repo.tables();
    assert_eq!(groups.len(), 0, "api_groups should be cascaded");
    assert_eq!(requests.len(), 0, "api_requests should be cascaded");
    assert_eq!(histories.len(), 0, "api_request_histories should be cascaded");
    assert!(projects.is_empty() && environments.is_empty());
}

#[test]
fn tables_with_repeated_ids_are_refused() {
    let group = |id: &str| ApiGroup {
        id: id.to_string(),
        project_id: "p1".to_string(),
        parent_group_id: None,
        name: "分组".to_string(),
        sort: 0,
        created_at: 1,
        updated_at: 1,
    };
    assert!(ApiClientRepository::from_tables(Vec::new(), vec![group("g1"), group("g1")], Vec::new(), Vec::new(), Vec::new()).is_none());
    assert!(ApiClientRepository::from_tables(Vec::new(), vec![group("g1"), group("g2")], Vec::new(), Vec::new(), Vec::new()).is_some());
}

#[test]
fn new_rows_go_after_their_siblings_and_names_are_trimmed() {
    let mut repo = ApiClientRepository::new();
    let first = repo.create_project_with("  订单系统  ", "  说明 ", 7, "aaaaaaaaaa", "bbbbbbbbbb").expect("first");
    assert_eq!(first.id, "apj_aaaaaaaaaa");
    assert_eq!(first.name, "订单系统");
    assert_eq!(first.description, "说明");
    assert_eq!((first.sort, first.created_at, first.updated_at), (0, 7, 7));
    let second = repo.create_project_with("库存", "", 8, "cccccccccc", "dddddddddd").expect("second");
    assert_eq!(second.sort, 1);
    let clash = repo.create_project_with("重复", "", 9, "aaaaaaaaaa", "eeeeeeeeee").expect_err("id clash");
    assert_eq!(clash, "数据库操作失败: UNIQUE constraint failed: api_projects.id");
    let group = repo.create_group_with(&first.id, None, "查询", 10, "ffffffffff").expect("group");
    assert_eq!(group.sort, 1, "after the default group");
    let request = repo.create_request_with(&group.id, "列表", 11, "gggggggggg").expect("request");
    assert_eq!((request.id.as_str(), request.method.as_str(), request.sort, request.timeout_ms), ("areq_gggggggggg", "GET", 0, 30_000));
    assert_eq!(request.project_id, first.id);
    let unknown = repo.create_request_with("agr_missing", "列表", 11, "hhhhhhhhhh").expect_err("unknown group");
    assert_eq!(unknown, "未找到 id 为 agr_missing 的分组");
}

#[test]
fn reorder_requests_gives_positions_in_the_listed_order() {
    let mut repo = ApiClientRepository::new();
    let (_, group) = seeded_project(&mut repo);
    let a = repo.create_request(&group.id, "a").expect("a");
    let b = repo.create_request(&group.id, "b").expect("b");
    let c = repo.create_request(&group.id, "c").expect("c");
    let listed = repo.reorder_requests(&group.id, &[c.id.clone(), a.id.clone(), b.id.clone()]).expect("reorder");
    let names: Vec<&str> = listed.iter().map(|request| request.name.as_str()).collect();
    assert_eq!(names, vec!["c", "a", "b"]);
    let error = repo.reorder_requests(&group.id, &["areq_missing".to_string()]).expect_err("stray request");
    assert_eq!(error, format!("请求 areq_missing 不属于分组 {}", group.id));
}

#[test]
fn environments_are_listed_by_name() {
    let mut repo = ApiClientRepository::new();
    let (project, _) = seeded_project(&mut repo);
    for name in ["预发", "测试", "正式"] {
        repo.upsert_environment(&ApiEnvironment { project_id: project.id.clone(), name: name.to_string(), ..Default::default() })
            .expect("environment");
    }
    let names: Vec<String> = repo.list_environments(&project.id).expect("list").into_iter().map(|e| e.name).collect();
    let mut sorted = names.clone();
    sorted.sort();
    assert_eq!(names, sorted);
}

#[test]
fn reorder_leaves_other_projects_untouched() {
    let mut repo = ApiClientRepository::new();
    let (first, first_default) = seeded_project(&mut repo);
    let second_group = repo.create_group(&first.id, "第二").expect("group");
    let other = repo.create_project("库存系统", "").expect("other");
    let other_before = repo.list_groups(&other.id).expect("other groups");
    repo.reorder_groups(&first.id, &[second_group.id.clone(), first_default.id.clone()]).expect("reorder");
    let other_after = repo.list_groups(&other.id).expect("other groups");
    assert_eq!(other_before, other_after);
}

#[test]
fn missing_records_are_reported_by_id() {
    let mut repo = ApiClientRepository::new();
    let (project, group) = seeded_project(&mut repo);
    assert_eq!(repo.rename_project("apj_missing", "名称").unwrap_err(), "未找到 id 为 apj_missing 的项目");
    assert_eq!(repo.rename_group("agr_missing", "名称").unwrap_err(), "未找到 id 为 agr_missing 的分组");
    assert_eq!(repo.delete_request("areq_missing").unwrap_err(), "未找到 id 为 areq_missing 的请求");
    assert_eq!(repo.delete_environment("aenv_missing").unwrap_err(), "未找到 id 为 aenv_missing 的环境");
    assert_eq!(repo.delete_project("apj_missing").unwrap_err(), "未找到 id 为 apj_missing 的项目");
    assert_eq!(repo.delete_group("agr_missing").unwrap_err(), "未找到 id 为 agr_missing 的分组");
    assert_eq!(repo.move_group(&group.id, Some("agr_missing")).unwrap_err(), "未找到 id 为 agr_missing 的分组");
    let preview = repo.preview_project_deletion("apj_missing").expect("preview of an unknown project");
    assert_eq!((preview.deleted_groups, preview.deleted_requests, preview.deleted_histories), (0, 0, 0));
    let foreign = repo.create_project("库存系统", "").expect("other project");
    let foreign_group = repo.list_groups(&foreign.id).expect("groups")[0].clone();
    let error = repo.create_group_with(&project.id, Some(&foreign_group.id), "子分组", 1, "kkkkkkkkkk").unwrap_err();
    assert_eq!(error, format!("父分组 {} 不属于项目 {}", foreign_group.id, project.id));
    assert_eq!(repo.create_group("apj_missing", "分组").unwrap_err(), "未找到 id 为 apj_missing 的项目");
}

#[test]
fn blank_environment_id_resolves_to_none_and_unknown_one_is_reported() {
    let mut repo = ApiClientRepository::new();
    let request_id = seeded_request(&mut repo);
    assert!(repo.resolve_environment_for_request(&request_id, Some("   ")).expect("blank id").is_none());
    assert_eq!(
        repo.resolve_environment_for_request(&request_id, Some(" aenv_x ")).unwrap_err(),
        "未找到 id 为 aenv_x 的环境"
    );
    assert_eq!(
        repo.resolve_environment_for_request("areq_missing", Some("aenv_x")).unwrap_err(),
        "未找到 id 为 areq_missing 的请求"
    );
}

#[test]
fn saving_a_request_trims_and_keeps_position() {
    let mut repo = ApiClientRepository::new();
    let (_, group) = seeded_project(&mut repo);
    let created = repo.create_request_with(&group.id, "列表", 5, "qqqqqqqqqq").expect("created");
    let saved = repo
        .update_request_with(&ApiRequest { name: "  订单列表 ".to_string(), url: "  /orders  ".to_string(), method: " patch ".to_string(), ..created.clone() }, 9)
        .expect("saved");
    assert_eq!((saved.name.as_str(), saved.url.as_str(), saved.method.as_str()), ("订单列表", "/orders", "PATCH"));
    assert_eq!((saved.sort, saved.created_at, saved.updated_at), (created.sort, 5, 9));
    let timeout = repo.update_request_with(&ApiRequest { timeout_ms: 0, ..created.clone() }, 9).unwrap_err();
    assert_eq!(timeout, "超时时间必须大于 0");
    let blank_method = repo.update_request_with(&ApiRequest { method: "  ".to_string(), ..created }, 9).unwrap_err();
    assert_eq!(blank_method, "HTTP 方法不能为空");
}

#[test]
fn history_is_listed_newest_first_and_found_by_id() {
    let mut repo = ApiClientRepository::new();
    let request_id = seeded_request(&mut repo);
    for (at, fresh) in [(5, "aaaaaaaaaa"), (9, "bbbbbbbbbb"), (7, "cccccccccc")] {
        repo.append_history_with(
            &ApiRequestHistory { request_id: request_id.clone(), executed_at: at, ..Default::default() },
            1,
            fresh,
        )
        .expect("history");
    }
    let listed: Vec<i64> = repo.list_histories(&request_id).expect("list").iter().map(|h| h.executed_at).collect();
    assert_eq!(listed, vec![9, 7, 5]);
    let found = repo.get_history("ahis_cccccccccc").expect("get").expect("present");
    assert_eq!(found.executed_at, 7);
    assert!(repo.get_history("ahis_missing").expect("get").is_none());
    let clash = repo
        .append_history_with(&ApiRequestHistory { request_id: request_id.clone(), ..Default::default() }, 1, "aaaaaaaaaa")
        .unwrap_err();
    assert_eq!(clash, "数据库操作失败: UNIQUE constraint failed: api_request_histories.id");
    let stamped = repo
        .append_history_with(&ApiRequestHistory { request_id, ..Default::default() }, 42, "dddddddddd")
        .expect("stamped");
    assert_eq!((stamped.id.as_str(), stamped.executed_at), ("ahis_dddddddddd", 42));
}
