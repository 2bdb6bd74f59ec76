use eidolon::assistant::snapshot::plan_snapshot_turn;
use eidolon::assistant::chat::ChatRole;
use eidolon::models::agent_conversation::AgentConversationMessage;
use eidolon::models::agent_profile::AgentProfile;
use eidolon::models::default_model::DefaultModelSetting;
use eidolon::models::mcp_service::{McpDiscoveredTool, McpService, McpServiceDiscovery, McpTransportType};
use eidolon::models::model_config::{ProviderModel, ProviderModelCapabilities, ProviderSetting};
use eidolon::repositories::agent_conversation::AgentConversationRepository;
use eidolon::repositories::agent_profile::{normalize_profile, AgentProfileRepository};
use eidolon::repositories::conversation_title::build_conversation_title;
use eidolon::repositories::default_model::DefaultModelSettingRepository;
use eidolon::repositories::mcp_service::McpServiceRepository;
use eidolon::repositories::model_config::{
    load_provider_model_cache, load_provider_setting_cache, FlatLegacyProviderConfig, FlatLegacyProviderModel,
    LegacyProviderModelCapabilities, MonolithLegacyProviderCatalog, MonolithLegacyProviderConfig,
    MonolithLegacyProviderConnection, MonolithLegacyProviderModel, ProviderModelRepository, ProviderSettingRepository, sort_models,
};
use eidolon::store::local::LocalJsonStore;

fn persist_profile(repo: &mut AgentProfileRepository, name: &str, updated_at: i64) -> AgentProfile {
    let id = repo
        .upsert(&AgentProfile {
            name: name.to_string(),
            provider_id: "openai".to_string(),
            model_id: "gpt-4.1".to_string(),
            temperature: "0.3".to_string(),
            max_tokens: "2048".to_string(),
            system_prompt: format!("System prompt for {name}"),
            enabled_mcp_service_ids: vec!["mcp_filesystem".to_string()],
            enabled_tool_keys: vec!["mcp_filesystem:read_file".to_string()],
            updated_at,
            ..Default::default()
        })
        .expect("profile should persist");
    repo.get(&id).expect("lookup should succeed").expect("profile should exist")
}

#[test]
fn upsert_generates_agent_id_and_persists_profile() {
    let mut repository = AgentProfileRepository::new(Vec::new());
    let profile = AgentProfile {
        name: "Filesystem Assistant".to_string(),
        description: "Manage local files safely.".to_string(),
        provider_id: "openai".to_string(),
        model_id: "gpt-4.1".to_string(),
        system_prompt: "Help me manage local files safely.".to_string(),
        work_directory: "/tmp/eidolon-workspace".to_string(),
        enabled_mcp_service_ids: vec!["mcp_filesystem".to_string()],
        enabled_tool_keys: vec!["mcp_filesystem:read_file".to_string()],
        ..Default::default()
    };

    let profile_id = repository.upsert(&profile).expect("profile should be persisted");
    assert!(profile_id.starts_with("agent_"));
    assert_eq!(profile_id.len(), "agent_".len() + 10);

    let persisted = repository.snapshot();
    let stored = &persisted.iter().find(|(key, _)| *key == profile_id).expect("persisted profile should exist").1;
    assert_eq!(stored.enabled_mcp_service_ids, vec!["mcp_filesystem"]);
    assert_eq!(stored.enabled_tool_keys, vec!["mcp_filesystem:read_file"]);
    assert_eq!(stored.work_directory, "/tmp/eidolon-workspace");
}

#[test]
fn upsert_normalizes_blank_work_directory() {
    let mut repository = AgentProfileRepository::new(Vec::new());
    let profile_id = repository
        .upsert(&AgentProfile {
            name: "Chat Only".to_string(),
            provider_id: "openai".to_string(),
            model_id: "gpt-4.1".to_string(),
            system_prompt: "Chat safely.".to_string(),
            work_directory: "   ".to_string(),
            ..Default::default()
        })
        .expect("profile should persist");
    let stored = repository.get(&profile_id).expect("lookup should succeed").expect("profile should exist");
    assert_eq!(stored.work_directory, "");
}

#[test]
fn list_sorts_by_updated_at_descending() {
    let mut repository = AgentProfileRepository::new(Vec::new());
    let older = persist_profile(&mut repository, "Older", 1);
    let newer = persist_profile(&mut repository, "Newer", 2);
    let profiles = repository.list().expect("profiles should list");
    assert_eq!(profiles[0].id, newer.id);
    assert_eq!(profiles[1].id, older.id);
}

#[test]
fn delete_removes_persisted_profile() {
    let mut repository = AgentProfileRepository::new(Vec::new());
    let profile = persist_profile(&mut repository, "Delete Me", 0);
    repository.delete(&profile.id).expect("profile should be deleted");
    assert!(repository.get(&profile.id).expect("profile lookup should succeed").is_none());
    assert_eq!(
        repository.delete(&profile.id).expect_err("second delete fails"),
        format!("未找到 id 为 {} 的 Agent", profile.id)
    );
}

#[test]
fn normalize_profile_applies_defaults_and_keeps_creation_time() {
    let input = AgentProfile {
        id: "  agent_x ".to_string(),
        name: " Bot ".to_string(),
        provider_id: "openai".to_string(),
        model_id: "gpt".to_string(),
        system_prompt: "p".to_string(),
        temperature: " ".to_string(),
        enabled_tool_keys: vec![" a ".to_string(), "  ".to_string(), "b".to_string()],
        ..Default::default()
    };
    let existing = AgentProfile { created_at: 5, ..Default::default() };
    let out = normalize_profile(&input, Some(&existing), 99, "ignored").expect("valid");
    assert_eq!(out.id, "agent_x");
    assert_eq!(out.name, "Bot");
    assert_eq!(out.temperature, "0.7");
    assert_eq!(out.max_tokens, "4096");
    assert_eq!(out.enabled_tool_keys, vec!["a", "b"]);
    assert_eq!(out.created_at, 5);
    assert_eq!(out.updated_at, 99);
    let fresh = normalize_profile(&AgentProfile { id: String::new(), ..input.clone() }, None, 7, "abcdefghij").expect("valid");
    assert_eq!(fresh.id, "agent_abcdefghij");
    assert_eq!(fresh.created_at, 7);
    assert_eq!(
        normalize_profile(&AgentProfile { system_prompt: " ".to_string(), ..input }, None, 1, "x").expect_err("prompt"),
        "system_prompt 不能为空"
    );
}

#[test]
fn upserting_a_stored_profile_again_changes_nothing() {
    let mut repository = AgentProfileRepository::new(Vec::new());
    let stored = persist_profile(&mut repository, "Stable", 10);
    repository.upsert(&stored).expect("again");
    let again = repository.get(&stored.id).expect("lookup").expect("exists");
    assert_eq!(again, stored);
}

#[test]
fn create_conversation_snapshots_agent_profile() {
    let mut profiles = AgentProfileRepository::new(Vec::new());
    let profile = persist_profile(&mut profiles, "Filesystem Assistant", 42);
    let mut repo = AgentConversationRepository::new(Vec::new(), Vec::new());
    let conversation = repo.create_from_profile(&profile).expect("conversation should be created");
    assert_eq!(conversation.agent_profile_id, profile.id);
    assert_eq!(conversation.snapshot_agent_name, "Filesystem Assistant");
    assert_eq!(conversation.snapshot_model_id, "gpt-4.1");
    assert_eq!(conversation.created_from_profile_updated_at, 42);
    assert_eq!(conversation.snapshot_enabled_tool_keys, vec!["mcp_filesystem:read_file"]);
    assert_eq!(conversation.title, "新对话");
    assert!(conversation.id.starts_with("conv_"));
}

#[test]
fn list_by_agent_sorts_by_updated_at_descending() {
    let mut profiles = AgentProfileRepository::new(Vec::new());
    let profile = persist_profile(&mut profiles, "Filesystem Assistant", 42);
    let mut repo = AgentConversationRepository::new(Vec::new(), Vec::new());
    let older = repo.create_from_profile_with(&profile, 100, "older00000").expect("older conversation should be created");
    let newer = repo.create_from_profile_with(&profile, 200, "newer00000").expect("newer conversation should be created");
    let listed = repo.list_by_agent(&profile.id).expect("conversation list should load");
    assert_eq!(listed[0].id, newer.id);
    assert_eq!(listed[1].id, older.id);
    assert!(repo.list_by_agent("someone-else").expect("list").is_empty());
}

#[test]
fn append_message_updates_conversation_timestamp_and_message_order() {
    let mut profiles = AgentProfileRepository::new(Vec::new());
    let profile = persist_profile(&mut profiles, "Filesystem Assistant", 42);
    let mut repo = AgentConversationRepository::new(Vec::new(), Vec::new());
    let conversation = repo.create_from_profile_with(&profile, 100, "conv000000").expect("conversation should be created");
    let first = repo
        .append_message_with(
            &AgentConversationMessage {
                conversation_id: conversation.id.clone(),
                role: "user".to_string(),
                content: "First message".to_string(),
                ..Default::default()
            },
            150,
            "m000000001",
            160,
        )
        .expect("first message should append");
    let second = repo
        .append_message_with(
            &AgentConversationMessage {
                conversation_id: conversation.id.clone(),
                role: "assistant".to_string(),
                content: "Second message".to_string(),
                ..Default::default()
            },
            170,
            "m000000002",
            180,
        )
        .expect("second message should append");
    assert_eq!(first.status, "done");
    let updated = repo.get(&conversation.id).expect("conversation lookup should succeed").expect("conversation should exist");
    assert_eq!(updated.updated_at, 180);
    assert_eq!(updated.title, "First message");
    let messages = repo.list_messages(&conversation.id).expect("messages should load");
    assert_eq!(messages.len(), 2);
    assert_eq!(messages[0].id, first.id);
    assert_eq!(messages[1].id, second.id);
}

#[test]
fn delete_removes_conversation_and_messages() {
    let mut profiles = AgentProfileRepository::new(Vec::new());
    let profile = persist_profile(&mut profiles, "Filesystem Assistant", 42);
    let mut repo = AgentConversationRepository::new(Vec::new(), Vec::new());
    let conversation = repo.create_from_profile(&profile).expect("conversation should be created");
    repo.append_user_message(&conversation.id, "Delete me").expect("message should append");
    repo.delete(&conversation.id).expect("conversation should delete");
    assert!(repo.get(&conversation.id).expect("lookup should succeed").is_none());
    assert!(repo.list_messages(&conversation.id).expect("messages should load").is_empty());
}

#[test]
fn list_recent_returns_conversations_across_agents_descending() {
    let mut profiles = AgentProfileRepository::new(Vec::new());
    let a = persist_profile(&mut profiles, "Filesystem Assistant", 10);
    let b = persist_profile(&mut profiles, "Docs Assistant", 10);
    let mut repo = AgentConversationRepository::new(Vec::new(), Vec::new());
    let older = repo.create_from_profile_with(&a, 1, "aaaaaaaaaa").expect("older conversation should be created");
    let newer = repo.create_from_profile_with(&b, 2, "bbbbbbbbbb").expect("newer conversation should be created");
    let recent = repo.list_recent(Some(10)).expect("recent conversations should load");
    assert_eq!(recent.len(), 2);
    assert_eq!(recent[0].id, newer.id);
    assert_eq!(recent[1].id, older.id);
    assert_eq!(repo.list_recent(Some(1)).expect("one").len(), 1);
}

#[test]
fn append_to_unknown_conversation_is_rejected() {
    let mut repo = AgentConversationRepository::new(Vec::new(), Vec::new());
    let error = repo.append_user_message("conv_missing", "hi").expect_err("unknown");
    assert_eq!(error, "未找到 id 为 conv_missing 的会话");
    let bad_role = AgentConversationMessage { conversation_id: "x".to_string(), role: "tool".to_string(), content: "c".to_string(), ..Default::default() };
    assert!(repo.append_message(&bad_role).is_err());
}

#[test]
fn conversation_title_collapses_whitespace_and_cuts_long_text() {
    assert_eq!(build_conversation_title("  hello \n\t world  "), "hello world");
    assert_eq!(build_conversation_title("   "), "新对话");
    assert_eq!(build_conversation_title("一二三四五六七八九十一二三四五六七八九"), "一二三四五六七八九十一二三四五六七八...");
    assert_eq!(build_conversation_title("abcdefghijklmnopqr"), "abcdefghijklmnopqr");
}

#[test]
fn snapshot_turn_uses_frozen_profile_and_last_user_message() {
    let mut profiles = AgentProfileRepository::new(Vec::new());
    let profile = persist_profile(&mut profiles, "Assistant", 1);
    let mut repo = AgentConversationRepository::new(Vec::new(), Vec::new());
    let conversation = repo.create_from_profile_with(&profile, 1, "cccccccccc").expect("conversation");
    let history = vec![
        AgentConversationMessage { role: "user".to_string(), content: "q1".to_string(), ..Default::default() },
        AgentConversationMessage { role: "assistant".to_string(), content: "a1".to_string(), ..Default::default() },
        AgentConversationMessage { role: "tool".to_string(), content: "t".to_string(), ..Default::default() },
        AgentConversationMessage { role: "user".to_string(), content: "q2".to_string(), ..Default::default() },
    ];
    let providers = vec![ProviderSetting { provider_id: "openai".to_string(), enabled: true, api_key: " sk ".to_string(), base_url: "https://api".to_string() }];
    let plan = plan_snapshot_turn(&conversation, &providers, &history).expect("plan");
    assert_eq!(plan.prompt, "q2");
    assert_eq!(plan.api_key, "sk");
    assert_eq!(plan.model_id, "gpt-4.1");
    assert_eq!(plan.temperature.as_deref(), Some("0.3"));
    assert_eq!(plan.max_tokens, Some(2048));
    let roles: Vec<ChatRole> = plan.history.iter().map(|m| m.role).collect();
    assert_eq!(roles, vec![ChatRole::System, ChatRole::User, ChatRole::Assistant]);
    assert_eq!(plan.history[1].content, "q1");
    let missing = plan_snapshot_turn(&conversation, &[], &history).expect_err("no provider");
    assert_eq!(missing, "未找到 openai 的模型服务配置，请先在设置中配置");
    let no_user = plan_snapshot_turn(&conversation, &providers, &history[1..3]).expect_err("no user");
    assert_eq!(no_user, "用户消息不能为空");
}

#[test]
fn upsert_persists_default_model_setting() {
    let mut repository = DefaultModelSettingRepository::new(Vec::new());
    let setting = DefaultModelSetting {
        key: "assistant".to_string(),
        provider_id: "deepseek".to_string(),
        model_id: "deepseek-chat".to_string(),
        temperature: "0.7".to_string(),
        top_p: "0.9".to_string(),
        max_tokens: "4096".to_string(),
        presence_penalty: "0".to_string(),
        frequency_penalty: "0".to_string(),
    };
    assert_eq!(repository.upsert(&setting).expect("default model setting should persist"), "assistant");
    let persisted = repository.snapshot();
    assert_eq!(persisted.len(), 1);
    assert_eq!(persisted[0].0, "assistant");
    assert_eq!(persisted[0].1.provider_id, "deepseek");
    assert_eq!(persisted[0].1.top_p, "0.9");
    let blank = DefaultModelSetting { model_id: " ".to_string(), ..setting };
    assert_eq!(repository.upsert(&blank).expect_err("blank model"), "model_id 不能为空");
}

fn sample_setting() -> ProviderSetting {
    ProviderSetting {
        provider_id: "deepseek".to_string(),
        enabled: true,
        api_key: "sk-test".to_string(),
        base_url: "https://api.deepseek.com/v1".to_string(),
    }
}

#[test]
fn upsert_persists_provider_settings_without_model_fields() {
    let mut repository = ProviderSettingRepository::new(Vec::new());
    repository.upsert(&sample_setting()).expect("setting should be persisted");
    let persisted = repository.snapshot();
    assert_eq!(persisted.len(), 1);
    assert_eq!(persisted[0].0, "deepseek");
    assert_eq!(persisted[0].1, sample_setting());
    assert_eq!(
        repository.delete("other").expect_err("unknown"),
        "未找到 provider_id 为 other 的配置"
    );
    assert_eq!(repository.delete("deepseek").expect("delete"), "deepseek");
    assert!(repository.list().expect("list").is_empty());
}

#[test]
fn replace_for_provider_persists_models_separately() {
    let mut repository = ProviderModelRepository::new(Vec::new());
    let model = ProviderModel {
        provider_id: "deepseek".to_string(),
        model_id: "deepseek-chat".to_string(),
        capabilities: ProviderModelCapabilities { chat: true, vision: false, tool_call: true, reasoning: false, embedding: false },
    };
    repository.replace_for_provider("deepseek", &[model.clone()]).expect("models should be persisted");
    let persisted = repository.snapshot();
    assert_eq!(persisted, vec![model.clone()]);
    let other = ProviderModel { provider_id: "openai".to_string(), model_id: "a".to_string(), capabilities: ProviderModelCapabilities::default() };
    assert_eq!(
        repository.replace_for_provider("deepseek", &[other.clone()]).expect_err("foreign model"),
        "模型 provider_id 不合法"
    );
    repository.replace_for_provider("openai", &[other.clone()]).expect("second provider");
    assert_eq!(repository.list().expect("list"), vec![model, other]);
    repository.delete_by_provider("openai").expect("delete");
    assert_eq!(repository.list().expect("list").len(), 1);
}

fn caps(chat: bool, tool_call: bool, reasoning: bool) -> LegacyProviderModelCapabilities {
    LegacyProviderModelCapabilities { chat, vision: false, tool_call, reasoning, embedding: false }
}

#[test]
fn repositories_migrate_legacy_monolith_shape() {
    let monolith = vec![(
        "deepseek".to_string(),
        MonolithLegacyProviderConfig {
            provider_key: "deepseek".to_string(),
            enabled: true,
            connection: MonolithLegacyProviderConnection {
                api_key: Some("sk-legacy".to_string()),
                base_url: Some("https://api.deepseek.com/v1".to_string()),
            },
            catalog: MonolithLegacyProviderCatalog {
                items: vec![MonolithLegacyProviderModel { id: "deepseek-chat".to_string(), capabilities: caps(true, true, false) }],
            },
        },
    )];
    let (setting_repo, moved) = load_provider_setting_cache(Ok(Vec::new()), Ok(Vec::new()), Ok(monolith.clone()));
    assert!(moved);
    let (model_repo, moved_models) = load_provider_model_cache(Ok(Vec::new()), Ok(Vec::new()), Ok(monolith));
    assert!(moved_models);

    let settings = setting_repo.list().expect("legacy settings should migrate");
    let models = model_repo.list().expect("legacy models should migrate");

    assert_eq!(settings.len(), 1);
    assert_eq!(settings[0].provider_id, "deepseek");
    assert_eq!(settings[0].api_key, "sk-legacy");
    assert_eq!(settings[0].base_url, "https://api.deepseek.com/v1");

    assert_eq!(models.len(), 1);
    assert_eq!(models[0].provider_id, "deepseek");
    assert_eq!(models[0].model_id, "deepseek-chat");
    assert!(models[0].capabilities.chat);
    assert!(models[0].capabilities.tool_call);
    assert!(!models[0].capabilities.reasoning);
}

#[test]
fn model_repository_migrates_flat_provider_config_shape() {
    let flat = vec![(
        "deepseek".to_string(),
        FlatLegacyProviderConfig {
            provider_id: "deepseek".to_string(),
            enabled: true,
            api_key: "sk-legacy".to_string(),
            base_url: "https://api.deepseek.com/v1".to_string(),
            models: vec![
                FlatLegacyProviderModel { model_id: "deepseek-chat".to_string(), capabilities: caps(true, false, true) },
                FlatLegacyProviderModel { model_id: "  ".to_string(), capabilities: caps(false, false, false) },
            ],
        },
    )];
    let (model_repo, moved) = load_provider_model_cache(Ok(Vec::new()), Ok(flat), Err("unused".to_string()));
    assert!(moved);
    let models = model_repo.list().expect("flat legacy models should migrate");
    assert_eq!(models.len(), 1);
    assert_eq!(models[0].provider_id, "deepseek");
    assert_eq!(models[0].model_id, "deepseek-chat");
    assert!(models[0].capabilities.chat);
    assert!(models[0].capabilities.reasoning);
}

#[test]
fn current_settings_win_over_legacy_and_read_failures_give_nothing() {
    let current = vec![("a".to_string(), ProviderSetting { provider_id: "a".to_string(), ..sample_setting() })];
    let (repo, moved) = load_provider_setting_cache(Ok(current), Err("broken".to_string()), Err("broken".to_string()));
    assert!(!moved);
    assert_eq!(repo.list().expect("list").len(), 1);
    let (repo, moved) = load_provider_setting_cache(Err("broken".to_string()), Ok(Vec::new()), Ok(Vec::new()));
    assert!(!moved);
    assert!(repo.list().expect("list").is_empty());
}

#[test]
fn upsert_generates_id_and_persists_discovery_snapshot() {
    let mut repository = McpServiceRepository::new(Vec::new());
    let service = McpService {
        name: "filesystem".to_string(),
        description: "Read local files".to_string(),
        transport_type: McpTransportType::Stdio,
        command: "npx".to_string(),
        args: "@modelcontextprotocol/server-filesystem\n/Users/demo".to_string(),
        discovery: Some(McpServiceDiscovery {
            server_name: "filesystem".to_string(),
            tools: vec![McpDiscoveredTool {
                name: "read_file".to_string(),
                description: "Read a file".to_string(),
                ..Default::default()
            }],
            ..Default::default()
        }),
        ..Default::default()
    };
    let service_id = repository.upsert(&service).expect("service should be persisted");
    assert!(service_id.starts_with("mcp_"));
    let persisted = repository.snapshot();
    let stored = &persisted[0].1;
    let discovery = stored.discovery.as_ref().expect("discovery kept");
    assert_eq!(discovery.server_name, "filesystem");
    assert_eq!(discovery.tools[0].name, "read_file");
}

#[test]
fn upsert_requires_transport_specific_fields() {
    let mut repository = McpServiceRepository::new(Vec::new());
    let stdio_error = repository
        .upsert(&McpService { name: "bad-stdio".to_string(), transport_type: McpTransportType::Stdio, ..Default::default() })
        .expect_err("stdio service without command should fail");
    assert!(stdio_error.contains("命令不能为空"));
    let http_error = repository
        .upsert(&McpService { name: "bad-http".to_string(), transport_type: McpTransportType::StreamableHttp, ..Default::default() })
        .expect_err("http service without url should fail");
    assert!(http_error.contains("地址不能为空"));
}

#[test]
fn mcp_services_are_listed_by_lowercase_name() {
    let mut repository = McpServiceRepository::new(Vec::new());
    for (id, name) in [("1", "beta"), ("2", "Alpha"), ("3", "alpha")] {
        repository
            .upsert(&McpService { id: id.to_string(), name: name.to_string(), command: "x".to_string(), timeout_seconds: 0, ..Default::default() })
            .expect("stored");
    }
    let listed = repository.list().expect("list");
    let ids: Vec<&str> = listed.iter().map(|s| s.id.as_str()).collect();
    assert_eq!(ids, vec!["2", "3", "1"]);
    assert_eq!(listed[0].timeout_seconds, 1);
    assert_eq!(repository.delete("9").expect_err("unknown"), "未找到 id 为 9 的 MCP 服务");
}

#[test]
fn local_store_names_files_after_collections() {
    let store = LocalJsonStore::new("/data".to_string());
    assert_eq!(store.data_dir(), "/data");
    assert_eq!(store.file_name("agent_profiles"), "agent_profiles.json");
}

#[test]
fn titled_conversation_keeps_its_title() {
    let mut profiles = AgentProfileRepository::new(Vec::new());
    let profile = persist_profile(&mut profiles, "Assistant", 1);
    let mut repo = AgentConversationRepository::new(Vec::new(), Vec::new());
    let conversation = repo.create_from_profile_with(&profile, 1, "tttttttttt").expect("conversation");
    for (text, at) in [("first words here", 10), ("second", 20)] {
        repo.append_message_with(
            &AgentConversationMessage {
                conversation_id: conversation.id.clone(),
                role: "user".to_string(),
                content: text.to_string(),
                ..Default::default()
            },
            at,
            "mmmmmmmmmm",
            at + 1,
        )
        .expect("append");
    }
    let stored = repo.get(&conversation.id).expect("lookup").expect("exists");
    assert_eq!(stored.title, "first words here");
    assert_eq!(stored.updated_at, 21);
}

#[test]
fn recorded_agent_reply_marks_errors() {
    let mut profiles = AgentProfileRepository::new(Vec::new());
    let profile = persist_profile(&mut profiles, "Assistant", 1);
    let mut repo = AgentConversationRepository::new(Vec::new(), Vec::new());
    let conversation = repo.create_from_profile(&profile).expect("conversation");
    let ok = repo.record_agent_reply(&conversation.id, Ok("answer".to_string())).expect("ok reply");
    assert_eq!((ok.role.as_str(), ok.status.as_str(), ok.content.as_str()), ("assistant", "done", "answer"));
    let failed = repo.record_agent_reply(&conversation.id, Err("模型请求失败".to_string())).expect("error reply");
    assert_eq!((failed.status.as_str(), failed.content.as_str()), ("error", "模型请求失败"));
}

#[test]
fn repository_snapshot_reloads_whole() {
    let mut repository = AgentProfileRepository::new(Vec::new());
    let a = persist_profile(&mut repository, "A", 1);
    let b = persist_profile(&mut repository, "B", 2);
    let reloaded = AgentProfileRepository::new(repository.snapshot());
    assert_eq!(reloaded.get(&a.id).expect("get"), Some(a));
    assert_eq!(reloaded.get(&b.id).expect("get"), Some(b));
    assert_eq!(reloaded.list().expect("list").len(), 2);
    let duplicated = AgentProfileRepository::new(vec![
        ("k".to_string(), AgentProfile { name: "first".to_string(), ..Default::default() }),
        ("k".to_string(), AgentProfile { name: "second".to_string(), ..Default::default() }),
    ]);
    assert_eq!(duplicated.get("k").expect("get").expect("exists").name, "second");
}

#[test]
fn storing_a_normalized_service_again_changes_nothing() {
    let mut repository = McpServiceRepository::new(Vec::new());
    let id = repository
        .upsert(&McpService { name: " docs ".to_string(), url: " http://x ".to_string(), transport_type: McpTransportType::StreamableHttp, ..Default::default() })
        .expect("stored");
    let first = repository.snapshot();
    let stored = first[0].1.clone();
    assert_eq!(stored.id, id);
    assert_eq!(stored.name, "docs");
    repository.upsert(&stored).expect("again");
    let second = repository.snapshot();
    assert_eq!(second.len(), 1);
    assert_eq!(second[0].1.name, stored.name);
    assert_eq!(second[0].1.url, stored.url);
    assert_eq!(second[0].1.id, stored.id);
}

#[test]
fn upsert_then_list_replaces_setting_under_its_key() {
    let mut repository = DefaultModelSettingRepository::new(Vec::new());
    let base = DefaultModelSetting {
        key: "requestBodyGenerator".to_string(),
        provider_id: "openai".to_string(),
        model_id: "gpt-4.1".to_string(),
        temperature: String::new(),
        top_p: String::new(),
        max_tokens: String::new(),
        presence_penalty: String::new(),
        frequency_penalty: String::new(),
    };
    repository.upsert(&base).expect("first setting");
    let assistant = DefaultModelSetting { key: "assistant".to_string(), ..base.clone() };
    repository.upsert(&assistant).expect("second setting");
    let replaced = DefaultModelSetting { model_id: "gpt-4.1-mini".to_string(), ..assistant.clone() };
    repository.upsert(&replaced).expect("replacement");
    let listed = repository.list().expect("list");
    let keys: Vec<&str> = listed.iter().map(|s| s.key.as_str()).collect();
    assert_eq!(keys, vec!["assistant", "requestBodyGenerator"]);
    assert_eq!(listed[0].model_id, "gpt-4.1-mini");
    assert_eq!(listed[1].model_id, "gpt-4.1");
    let refused = DefaultModelSetting { provider_id: " ".to_string(), ..base };
    assert_eq!(repository.upsert(&refused).expect_err("blank provider"), "provider_id 不能为空");
    assert_eq!(repository.list().expect("list").len(), 2);
}

#[test]
fn models_with_the_same_ids_keep_their_order() {
    let first = ProviderModel {
        provider_id: "openai".to_string(),
        model_id: "gpt-4.1".to_string(),
        capabilities: ProviderModelCapabilities { chat: true, ..ProviderModelCapabilities::default() },
    };
    let second = ProviderModel {
        capabilities: ProviderModelCapabilities { vision: true, ..ProviderModelCapabilities::default() },
        ..first.clone()
    };
    let earlier = ProviderModel { model_id: "a".to_string(), ..first.clone() };
    assert_eq!(
        sort_models(vec![first.clone(), earlier.clone(), second.clone()]),
        vec![earlier.clone(), first.clone(), second.clone()]
    );
    assert_eq!(sort_models(vec![second.clone(), first.clone()]), vec![second.clone(), first.clone()]);
    let mut repository = ProviderModelRepository::new(Vec::new());
    repository.replace_for_provider("openai", &[second.clone(), earlier.clone(), first.clone()]).expect("replace");
    assert_eq!(repository.list().expect("list"), vec![earlier, second, first]);
}
