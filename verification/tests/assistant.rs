use eidolon::assistant::chat::{
    build_chat_messages, plan_chat_request, resolve_chat_target, ChatRole, ConversationMessageInput,
};
use eidolon::assistant::connection::{format_test_connection_error, TestConnectionRequest, TestConnectionResponse};
use eidolon::assistant::generate::{
    build_candidate, build_generation_prompt, candidate_from_check, join_reply_text,
    resolve_generation_target, strip_code_fence, GenerateBodyInput,
};
use eidolon::assistant::target::{parse_optional_float, parse_optional_u64};
use eidolon::models::api_client::BODY_GENERATION_MODEL_KEY;
use eidolon::models::default_model::DefaultModelSetting;
use eidolon::models::model_config::ProviderSetting;
use eidolon::numbers::{is_float_text, parse_u64};

fn provider(provider_id: &str) -> ProviderSetting {
    ProviderSetting {
        provider_id: provider_id.to_string(),
        enabled: true,
        api_key: "sk-test".to_string(),
        base_url: "https://api.deepseek.com/v1".to_string(),
    }
}

fn default_setting(key: &str) -> DefaultModelSetting {
    DefaultModelSetting {
        key: key.to_string(),
        provider_id: "deepseek".to_string(),
        model_id: "deepseek-chat".to_string(),
        temperature: "0.2".to_string(),
        top_p: String::new(),
        max_tokens: "2048".to_string(),
        presence_penalty: String::new(),
        frequency_penalty: String::new(),
    }
}

#[test]
fn generation_uses_its_own_default_model_key_not_the_chat_one() {
    let error = resolve_generation_target(&[default_setting("assistant")], &[provider("deepseek")])
        .expect_err("chat default model must not be reused");
    assert!(error.contains("请求体生成模型"), "got {error}");

    let target = resolve_generation_target(
        &[default_setting("assistant"), default_setting(BODY_GENERATION_MODEL_KEY)],
        &[provider("deepseek")],
    )
    .expect("dedicated key should resolve");

    assert_eq!(target.model_id, "deepseek-chat");
    assert_eq!(
        target.temperature.as_deref().map(|t| t.parse::<f64>().expect("checked float")),
        Some(0.2)
    );
    assert_eq!(target.max_tokens, Some(2048));
    assert_eq!(target.label(), "deepseek / deepseek-chat");
}

#[test]
fn generation_requires_an_enabled_provider_with_credentials() {
    let missing = resolve_generation_target(&[default_setting(BODY_GENERATION_MODEL_KEY)], &[])
        .expect_err("provider setting is required");
    assert!(missing.contains("模型服务配置"), "got {missing}");

    let disabled = resolve_generation_target(
        &[default_setting(BODY_GENERATION_MODEL_KEY)],
        &[ProviderSetting { enabled: false, ..provider("deepseek") }],
    )
    .expect_err("disabled provider must be rejected");
    assert!(disabled.contains("已被禁用"), "got {disabled}");

    let no_key = resolve_generation_target(
        &[default_setting(BODY_GENERATION_MODEL_KEY)],
        &[ProviderSetting { api_key: "  ".to_string(), ..provider("deepseek") }],
    )
    .expect_err("empty api key must be rejected");
    assert!(no_key.contains("API Key"), "got {no_key}");
}

#[test]
fn generation_target_reports_blank_base_url_and_bad_numbers() {
    let no_url = resolve_generation_target(
        &[default_setting(BODY_GENERATION_MODEL_KEY)],
        &[ProviderSetting { base_url: " ".to_string(), ..provider("deepseek") }],
    )
    .expect_err("blank base url must be rejected");
    assert_eq!(no_url, "deepseek 的 Base URL 不能为空");

    let bad_temperature = resolve_generation_target(
        &[DefaultModelSetting { temperature: "warm".to_string(), ..default_setting(BODY_GENERATION_MODEL_KEY) }],
        &[provider("deepseek")],
    )
    .expect_err("temperature must parse");
    assert_eq!(bad_temperature, "temperature 格式不正确");

    let bad_tokens = resolve_generation_target(
        &[DefaultModelSetting {
            temperature: "warm".to_string(),
            max_tokens: "-1".to_string(),
            ..default_setting(BODY_GENERATION_MODEL_KEY)
        }],
        &[provider("deepseek")],
    )
    .expect_err("temperature is checked first");
    assert_eq!(bad_tokens, "temperature 格式不正确");

    let blank_numbers = resolve_generation_target(
        &[DefaultModelSetting {
            temperature: "  ".to_string(),
            max_tokens: String::new(),
            ..default_setting(BODY_GENERATION_MODEL_KEY)
        }],
        &[provider("deepseek")],
    )
    .expect("blank numbers are unset");
    assert_eq!(blank_numbers.temperature, None);
    assert_eq!(blank_numbers.max_tokens, None);
}

#[test]
fn context_excludes_headers_and_only_includes_opted_in_body() {
    let without_body = build_generation_prompt(&GenerateBodyInput {
        prompt: "生成一个订单，包含三件商品".to_string(),
        reference: "items 为数组".to_string(),
        current_body: None,
        request_name: "新增订单".to_string(),
        method: "POST".to_string(),
        url: "{{base_url}}/orders".to_string(),
    })
    .expect("prompt should build");

    assert!(without_body.contains("生成一个订单，包含三件商品"));
    assert!(without_body.contains("items 为数组"));
    assert!(without_body.contains("新增订单"));
    assert!(without_body.contains("{{base_url}}/orders"), "unexpanded url is context");
    assert!(!without_body.contains("当前请求体"), "body must be opt-in");
    assert!(!without_body.to_lowercase().contains("authorization"));

    let with_body = build_generation_prompt(&GenerateBodyInput {
        prompt: "补齐字段".to_string(),
        current_body: Some("{\"userId\":1}".to_string()),
        ..Default::default()
    })
    .expect("prompt should build");

    assert!(with_body.contains("## 当前请求体"));
    assert!(with_body.contains("{\"userId\":1}"));
}

#[test]
fn generation_prompt_has_exact_sections() {
    let prompt = build_generation_prompt(&GenerateBodyInput {
        prompt: " 生成订单 ".to_string(),
        reference: String::new(),
        current_body: Some("  ".to_string()),
        request_name: "新增订单".to_string(),
        method: String::new(),
        url: "/orders".to_string(),
    })
    .expect("prompt should build");
    assert_eq!(
        prompt,
        "## 接口信息\n名称: 新增订单\n地址: /orders\n\n## 生成要求\n生成订单\n\n## 输出要求\n只输出 JSON 本身。"
    );
}

#[test]
fn empty_prompt_and_reference_are_rejected() {
    let error = build_generation_prompt(&GenerateBodyInput {
        current_body: Some("{}".to_string()),
        ..Default::default()
    })
    .expect_err("nothing to generate from");

    assert!(error.contains("生成要求"), "got {error}");
}

#[test]
fn candidate_accepts_objects_arrays_and_scalars() {
    for content in ["{\"a\":1}", "[1,2,3]", "\"text\"", "42", "true", "null"] {
        let candidate = build_candidate(content, "deepseek / deepseek-chat");
        assert!(candidate.is_json_valid, "{content} should be valid JSON");
        assert!(candidate.json_error.is_none());
        assert_eq!(candidate.content, content);
    }
}

#[test]
fn candidate_reports_invalid_json_without_dropping_content() {
    let candidate = build_candidate("{\"a\": }", "deepseek / deepseek-chat");

    assert!(!candidate.is_json_valid);
    assert!(candidate.json_error.as_deref().unwrap_or_default().contains("JSON 语法错误"));
    assert_eq!(candidate.content, "{\"a\": }", "content must be preserved for editing");
}

#[test]
fn candidate_from_check_prefixes_the_parser_message() {
    let candidate = candidate_from_check("x", "m", Some("expected value".to_string()));
    assert_eq!(candidate.json_error.as_deref(), Some("JSON 语法错误: expected value"));
    assert_eq!(candidate.model_label, "m");
    let valid = candidate_from_check("1", "m", None);
    assert!(valid.is_json_valid);
}

#[test]
fn markdown_fences_are_stripped_before_validation() {
    let fenced = "```json\n{\"a\": 1}\n```";
    assert_eq!(strip_code_fence(fenced), "{\"a\": 1}");
    assert!(build_candidate(&strip_code_fence(fenced), "m").is_json_valid);

    let bare = "{\"a\": 1}";
    assert_eq!(strip_code_fence(bare), bare);
}

#[test]
fn fence_without_newline_is_kept_whole() {
    assert_eq!(strip_code_fence("  ```{}```  "), "```{}```");
    assert_eq!(strip_code_fence("```\n[1]\n``` \n"), "[1]");
}

#[test]
fn reply_parts_are_joined_and_trimmed() {
    assert_eq!(join_reply_text(&[" a".to_string(), "b ".to_string()]), Some("a\nb".to_string()));
    assert_eq!(join_reply_text(&[" ".to_string()]), None);
    assert_eq!(join_reply_text(&[]), None);
}

fn assistant_default() -> DefaultModelSetting {
    DefaultModelSetting {
        key: "assistant".to_string(),
        provider_id: "deepseek".to_string(),
        model_id: "deepseek-chat".to_string(),
        temperature: "0.7".to_string(),
        top_p: "0.9".to_string(),
        max_tokens: "4096".to_string(),
        presence_penalty: "0".to_string(),
        frequency_penalty: "0".to_string(),
    }
}

#[test]
fn resolve_chat_target_requires_assistant_default_model() {
    let error = resolve_chat_target(&[], &[provider("deepseek")])
        .expect_err("assistant default model should be required");
    assert!(error.contains("默认模型"));
}

#[test]
fn resolve_chat_target_requires_matching_provider_setting() {
    let error = resolve_chat_target(&[assistant_default()], &[])
        .expect_err("provider setting should be required");
    assert!(error.contains("模型服务配置"));
}

#[test]
fn resolve_chat_target_reads_sampling_settings() {
    let target = resolve_chat_target(&[assistant_default()], &[provider("deepseek")]).expect("target");
    assert_eq!(target.temperature.as_deref(), Some("0.7"));
    assert_eq!(target.top_p.as_deref(), Some("0.9"));
    assert_eq!(target.max_tokens, Some(4096));
    let bad = resolve_chat_target(
        &[DefaultModelSetting { top_p: "high".to_string(), ..assistant_default() }],
        &[provider("deepseek")],
    )
    .expect_err("top_p must parse");
    assert_eq!(bad, "top_p 格式不正确");
    let disabled = resolve_chat_target(
        &[assistant_default()],
        &[ProviderSetting { enabled: false, ..provider("deepseek") }],
    )
    .expect_err("disabled");
    assert_eq!(disabled, "deepseek 已被禁用，请先启用后再对话");
}

#[test]
fn build_rig_messages_rejects_unknown_roles() {
    let error = build_chat_messages(&[ConversationMessageInput {
        role: "tool".to_string(),
        content: "hello".to_string(),
    }])
    .expect_err("unknown roles should be rejected");
    assert!(error.contains("不支持的消息角色"));
}

#[test]
fn chat_messages_skip_blank_and_require_one() {
    let error = build_chat_messages(&[ConversationMessageInput { role: "tool".to_string(), content: "  ".to_string() }])
        .expect_err("nothing to send");
    assert_eq!(error, "消息不能为空");
    let plan = plan_chat_request(&[
        ConversationMessageInput { role: "system".to_string(), content: " be brief ".to_string() },
        ConversationMessageInput { role: "user".to_string(), content: "hi".to_string() },
    ])
    .expect("plan");
    assert_eq!(plan.history.len(), 1);
    assert_eq!(plan.history[0].role, ChatRole::System);
    assert_eq!(plan.history[0].content, "be brief");
    assert_eq!(plan.prompt.content, "hi");
    let not_user = plan_chat_request(&[ConversationMessageInput { role: "assistant".to_string(), content: "x".to_string() }])
        .expect_err("last must be user");
    assert_eq!(not_user, "最后一条消息必须是用户消息");
}

#[test]
fn connection_error_hints_at_the_base_url_on_404() {
    assert_eq!(
        format_test_connection_error("HTTP 404 Not Found", "https://x"),
        "测试请求失败: HTTP 404 Not Found。请确认 Base URL 是否正确，并且该服务支持 OpenAI Chat Completions 兼容接口；当前地址: https://x"
    );
    assert_eq!(format_test_connection_error("timeout", "https://x"), "测试请求失败: timeout");
    let ok = TestConnectionResponse::succeeded();
    assert!(ok.success);
    assert_eq!(ok.message, "连接成功!");
    let request = TestConnectionRequest { api_key: " k ".to_string(), base_url: "u ".to_string(), model: " m".to_string() };
    assert_eq!(request.trimmed_fields(), ("k".to_string(), "u".to_string(), "m".to_string()));
}

#[test]
fn numbers_follow_the_standard_parsers() {
    for text in ["0.2", "+1", "-1.5e3", ".5", "5.", "inf", "-Infinity", "NaN", "1E-7"] {
        let chars: Vec<char> = text.chars().collect();
        assert!(is_float_text(&chars), "{text}");
        assert!(text.parse::<f64>().is_ok(), "{text}");
    }
    for text in ["", ".", "e5", "1e", "1.2.3", "0x10", "--1", " 1"] {
        let chars: Vec<char> = text.chars().collect();
        assert!(!is_float_text(&chars), "{text}");
        assert!(text.parse::<f64>().is_err(), "{text}");
    }
    for (text, expected) in [("42", Some(42u64)), ("+7", Some(7)), ("18446744073709551615", Some(u64::MAX)), ("18446744073709551616", None), ("-0", None), ("", None), ("+", None)] {
        let chars: Vec<char> = text.chars().collect();
        assert_eq!(parse_u64(&chars), expected, "{text}");
        assert_eq!(text.parse::<u64>().ok(), expected, "{text}");
    }
    assert_eq!(parse_optional_u64(" 12 ", "max_tokens"), Ok(Some(12)));
    assert_eq!(parse_optional_u64("x", "max_tokens"), Err("max_tokens 格式不正确".to_string()));
    assert_eq!(parse_optional_float(" ", "top_p"), Ok(None));
    assert_eq!(parse_optional_float(" 0.5 ", "top_p"), Ok(Some("0.5".to_string())));
}

#[test]
fn decimal_text_reads_back_as_its_number() {
    for n in [0u64, 7, 10, 4096, 18446744073709551615] {
        let chars: Vec<char> = n.to_string().chars().collect();
        assert_eq!(parse_u64(&chars), Some(n));
    }
}
