use eidolon::api_http::request_prep::{prepare_request, resolve_variables, PrepareError, VariableScope};
use eidolon::api_http::registry::ExecutionRegistry;
use eidolon::api_http::response::{cancelled_result, is_binary_response, BodyBuffer};
use eidolon::history::{history_error_message, prepare_history_record, resolve_execution_id};
use eidolon::models::api_client::{
    ApiEnvironment, ApiRequestHistory, BodyKind, ExecutionStatus, KeyValueRow, RequestBody, RequestSnapshot,
    MAX_RESPONSE_BYTES,
};

fn environment(base_url: &str, variables: &[(&str, &str)]) -> ApiEnvironment {
    ApiEnvironment {
        id: "env1".to_string(),
        project_id: "p1".to_string(),
        name: "测试环境".to_string(),
        base_url: base_url.to_string(),
        variables: variables.iter().map(|(key, value)| KeyValueRow::new(key, value)).collect(),
        created_at: 0,
        updated_at: 0,
    }
}

fn snapshot() -> RequestSnapshot {
    RequestSnapshot {
        method: "GET".to_string(),
        url: "/orders".to_string(),
        query: Vec::new(),
        headers: Vec::new(),
        body: RequestBody::default(),
        timeout_ms: 30_000,
        environment_name: Some("测试环境".to_string()),
    }
}

fn check_relative_url_resolves_through_environment_base_url() {
    let environment = environment("https://test.example.com/api", &[]);
    let prepared = prepare_request(&snapshot(), Some(&environment)).expect("prepare");

    assert_eq!(prepared.url, "https://test.example.com/api/orders");
    assert_eq!(prepared.method, "GET");
    assert!(prepared.body.is_none());
}

#[test]
fn api_http_relative_url_resolves_through_environment_base_url() {
    check_relative_url_resolves_through_environment_base_url();
}

#[test]
fn request_prep_relative_url_resolves_through_environment_base_url() {
    check_relative_url_resolves_through_environment_base_url();
}

fn check_absolute_url_is_used_as_is() {
    let environment = environment("https://test.example.com", &[]);
    let prepared = prepare_request(
        &RequestSnapshot { url: "http://127.0.0.1:8080/health".to_string(), ..snapshot() },
        Some(&environment),
    )
    .expect("prepare");

    assert_eq!(prepared.url, "http://127.0.0.1:8080/health");
}

#[test]
fn api_http_absolute_url_is_used_as_is() {
    check_absolute_url_is_used_as_is();
}

#[test]
fn request_prep_absolute_url_is_used_as_is() {
    check_absolute_url_is_used_as_is();
}

fn check_variables_are_replaced_in_url_headers_query_and_body() {
    let environment = environment("https://test.example.com", &[("token", "abc123"), ("tenant", "acme")]);

    let prepared = prepare_request(
        &RequestSnapshot {
            method: "POST".to_string(),
            url: "{{base_url}}/tenants/{{tenant}}/orders".to_string(),
            headers: vec![KeyValueRow::new("Authorization", "Bearer {{token}}")],
            query: vec![KeyValueRow::new("tenant", "{{tenant}}")],
            body: RequestBody {
                kind: BodyKind::Json,
                text: "{\"tenant\":\"{{tenant}}\"}".to_string(),
                form: Vec::new(),
            },
            ..snapshot()
        },
        Some(&environment),
    )
    .expect("prepare");

    assert_eq!(prepared.url, "https://test.example.com/tenants/acme/orders?tenant=acme");
    assert_eq!(
        prepared.headers.iter().find(|row| row.key == "Authorization").expect("auth header").value,
        "Bearer abc123"
    );
    assert_eq!(String::from_utf8(prepared.body.expect("body")).expect("utf8"), "{\"tenant\":\"acme\"}");
}

#[test]
fn api_http_variables_are_replaced_in_url_headers_query_and_body() {
    check_variables_are_replaced_in_url_headers_query_and_body();
}

#[test]
fn request_prep_variables_are_replaced_in_url_headers_query_and_body() {
    check_variables_are_replaced_in_url_headers_query_and_body();
}

fn check_missing_variables_block_the_request_and_are_listed() {
    let environment = environment("https://test.example.com", &[]);

    let error = prepare_request(
        &RequestSnapshot {
            url: "{{base_url}}/orders/{{order_id}}".to_string(),
            headers: vec![KeyValueRow::new("X-Trace", "{{trace_id}}")],
            ..snapshot()
        },
        Some(&environment),
    )
    .expect_err("missing variables must block sending");

    match error {
        PrepareError::MissingVariables(names) => {
            assert!(names.contains(&"order_id".to_string()), "got {names:?}");
            assert!(names.contains(&"trace_id".to_string()), "got {names:?}");
        }
        other => panic!("expected missing variables, got {other:?}"),
    }
}

#[test]
fn api_http_missing_variables_block_the_request_and_are_listed() {
    check_missing_variables_block_the_request_and_are_listed();
}

#[test]
fn request_prep_missing_variables_block_the_request_and_are_listed() {
    check_missing_variables_block_the_request_and_are_listed();
}

fn check_duplicate_query_keys_and_disabled_rows_are_handled() {
    let environment = environment("https://test.example.com", &[]);

    let prepared = prepare_request(
        &RequestSnapshot {
            query: vec![
                KeyValueRow::new("tag", "a"),
                KeyValueRow::new("tag", "b"),
                KeyValueRow::disabled("debug", "1"),
            ],
            headers: vec![
                KeyValueRow::new("X-Multi", "one"),
                KeyValueRow::new("X-Multi", "two"),
                KeyValueRow::disabled("X-Skip", "no"),
            ],
            ..snapshot()
        },
        Some(&environment),
    )
    .expect("prepare");

    assert!(prepared.url.ends_with("/orders?tag=a&tag=b"), "got {}", prepared.url);
    assert_eq!(prepared.headers.len(), 2, "disabled header must be dropped");

    let values = prepared
        .headers
        .iter()
        .filter(|row| row.key.eq_ignore_ascii_case("x-multi"))
        .map(|row| row.value.as_str())
        .collect::<Vec<_>>();
    assert_eq!(values, vec!["one", "two"], "duplicate headers must be kept");
}

#[test]
fn api_http_duplicate_query_keys_and_disabled_rows_are_handled() {
    check_duplicate_query_keys_and_disabled_rows_are_handled();
}

#[test]
fn request_prep_duplicate_query_keys_and_disabled_rows_are_handled() {
    check_duplicate_query_keys_and_disabled_rows_are_handled();
}

fn check_json_body_is_validated_after_variable_substitution() {
    let environment = environment("https://test.example.com", &[("name", "订单")]);

    let error = prepare_request(
        &RequestSnapshot {
            method: "POST".to_string(),
            body: RequestBody { kind: BodyKind::Json, text: "{\"name\": {{name}}}".to_string(), form: Vec::new() },
            ..snapshot()
        },
        Some(&environment),
    )
    .expect_err("text substitution producing invalid JSON must be rejected");

    assert!(error.message().contains("合法 JSON"), "got {}", error.message());

    let ok = prepare_request(
        &RequestSnapshot {
            method: "POST".to_string(),
            body: RequestBody { kind: BodyKind::Json, text: "{\"name\": \"{{name}}\"}".to_string(), form: Vec::new() },
            ..snapshot()
        },
        Some(&environment),
    )
    .expect("quoted substitution is valid JSON");

    assert_eq!(String::from_utf8(ok.body.expect("body")).expect("utf8"), "{\"name\": \"订单\"}");
}

#[test]
fn api_http_json_body_is_validated_after_variable_substitution() {
    check_json_body_is_validated_after_variable_substitution();
}

#[test]
fn request_prep_json_body_is_validated_after_variable_substitution() {
    check_json_body_is_validated_after_variable_substitution();
}

fn check_default_content_type_is_added_only_when_absent() {
    let environment = environment("https://test.example.com", &[]);

    let prepared = prepare_request(
        &RequestSnapshot {
            method: "POST".to_string(),
            body: RequestBody { kind: BodyKind::Json, text: "{}".to_string(), form: Vec::new() },
            ..snapshot()
        },
        Some(&environment),
    )
    .expect("prepare");

    assert_eq!(
        prepared.headers.iter().find(|row| row.key.eq_ignore_ascii_case("content-type")).expect("content type").value,
        "application/json"
    );

    let explicit = prepare_request(
        &RequestSnapshot {
            method: "POST".to_string(),
            headers: vec![KeyValueRow::new("content-type", "application/vnd.api+json")],
            body: RequestBody { kind: BodyKind::Json, text: "{}".to_string(), form: Vec::new() },
            ..snapshot()
        },
        Some(&environment),
    )
    .expect("prepare");

    let content_types =
        explicit.headers.iter().filter(|row| row.key.eq_ignore_ascii_case("content-type")).collect::<Vec<_>>();
    assert_eq!(content_types.len(), 1, "user value must win");
    assert_eq!(content_types[0].value, "application/vnd.api+json");
}

#[test]
fn api_http_default_content_type_is_added_only_when_absent() {
    check_default_content_type_is_added_only_when_absent();
}

#[test]
fn request_prep_default_content_type_is_added_only_when_absent() {
    check_default_content_type_is_added_only_when_absent();
}

fn check_form_body_is_url_encoded_with_duplicate_keys() {
    let environment = environment("https://test.example.com", &[]);

    let prepared = prepare_request(
        &RequestSnapshot {
            method: "POST".to_string(),
            body: RequestBody {
                kind: BodyKind::Form,
                text: String::new(),
                form: vec![
                    KeyValueRow::new("tag", "a b"),
                    KeyValueRow::new("tag", "c"),
                    KeyValueRow::disabled("skip", "1"),
                ],
            },
            ..snapshot()
        },
        Some(&environment),
    )
    .expect("prepare");

    assert_eq!(String::from_utf8(prepared.body.expect("body")).expect("utf8"), "tag=a+b&tag=c");
    assert_eq!(
        prepared.headers.iter().find(|row| row.key.eq_ignore_ascii_case("content-type")).expect("content type").value,
        "application/x-www-form-urlencoded"
    );
}

#[test]
fn api_http_form_body_is_url_encoded_with_duplicate_keys() {
    check_form_body_is_url_encoded_with_duplicate_keys();
}

#[test]
fn request_prep_form_body_is_url_encoded_with_duplicate_keys() {
    check_form_body_is_url_encoded_with_duplicate_keys();
}

fn check_non_http_schemes_are_rejected() {
    let error = prepare_request(&RequestSnapshot { url: "ftp://example.com/file".to_string(), ..snapshot() }, None)
        .expect_err("non-http scheme must be rejected");

    assert!(error.message().contains("HTTP"), "got {}", error.message());
}

#[test]
fn api_http_non_http_schemes_are_rejected() {
    check_non_http_schemes_are_rejected();
}

#[test]
fn request_prep_non_http_schemes_are_rejected() {
    check_non_http_schemes_are_rejected();
}

fn check_relative_url_without_environment_is_rejected() {
    let error = prepare_request(&snapshot(), None).expect_err("relative url needs a base url");
    assert!(error.message().contains("基础地址"), "got {}", error.message());
}

#[test]
fn api_http_relative_url_without_environment_is_rejected() {
    check_relative_url_without_environment_is_rejected();
}

#[test]
fn request_prep_relative_url_without_environment_is_rejected() {
    check_relative_url_without_environment_is_rejected();
}

fn check_unsupported_method_is_rejected_before_sending() {
    let error = prepare_request(
        &RequestSnapshot { method: "TRACE".to_string(), url: "https://example.com".to_string(), ..snapshot() },
        None,
    )
    .expect_err("unsupported method must be rejected");

    assert!(error.message().contains("不支持的 HTTP 方法"));
}

#[test]
fn api_http_unsupported_method_is_rejected_before_sending() {
    check_unsupported_method_is_rejected_before_sending();
}

#[test]
fn request_prep_unsupported_method_is_rejected_before_sending() {
    check_unsupported_method_is_rejected_before_sending();
}

fn check_resolve_variables_leaves_unclosed_placeholder_untouched() {
    let scope = VariableScope::from_environment(None);
    assert_eq!(resolve_variables("prefix {{unclosed", &scope).expect("no variable was resolved"), "prefix {{unclosed");
}

#[test]
fn api_http_resolve_variables_leaves_unclosed_placeholder_untouched() {
    check_resolve_variables_leaves_unclosed_placeholder_untouched();
}

#[test]
fn request_prep_resolve_variables_leaves_unclosed_placeholder_untouched() {
    check_resolve_variables_leaves_unclosed_placeholder_untouched();
}

fn check_binary_detection() {
    assert!(is_binary_response(Some("image/png"), b"\x89PNG"));
    assert!(is_binary_response(Some("application/octet-stream"), b"abc"));
    assert!(!is_binary_response(Some("application/json"), b"{}"));
    assert!(!is_binary_response(Some("text/plain; charset=utf-8"), b"hello"));
    assert!(is_binary_response(None, b"ab\0cd"));
    assert!(!is_binary_response(None, "中文".as_bytes()));
}

#[test]
fn api_http_binary_detection_uses_content_type_then_content() {
    check_binary_detection();
}

#[test]
fn response_binary_detection_uses_content_type_then_content() {
    check_binary_detection();
}

#[test]
fn binary_detection_falls_back_to_content_for_other_types() {
    assert!(is_binary_response(Some("application/x-custom"), &[0xff, 0xfe]));
    assert!(!is_binary_response(Some("APPLICATION/X-CUSTOM"), b"plain"));
    assert!(!is_binary_response(Some("Application/JSON"), &[0]));
}

#[test]
fn cancelled_result_reports_the_wait() {
    let result = cancelled_result("exec-1", 42);
    assert_eq!(result.execution_id, "exec-1");
    assert_eq!(result.status, ExecutionStatus::Cancelled);
    assert_eq!(result.duration_ms, 42);
    assert_eq!(result.error_message.as_deref(), Some("已取消等待，服务端可能已经执行"));
    assert!(result.status_code.is_none());
}

#[test]
fn scope_keeps_last_definition_and_trims_names() {
    let mut env = environment(" https://h.example ", &[("a", "1"), (" a ", "2"), ("", "x")]);
    env.variables.push(KeyValueRow::disabled("b", "3"));
    let scope = VariableScope::from_environment(Some(&env));
    assert_eq!(scope.base_url(), "https://h.example");
    assert_eq!(scope.get("a").map(|v| v.as_str()), Some("2"));
    assert_eq!(scope.get("base_url").map(|v| v.as_str()), Some("https://h.example"));
    assert!(scope.get("b").is_none());
    assert_eq!(resolve_variables("{{ a }}-{{a}}", &scope).unwrap(), "2-2");
    match resolve_variables("{{x}}{{y}}{{x}}", &scope) {
        Err(PrepareError::MissingVariables(names)) => assert_eq!(names, vec!["x".to_string(), "y".to_string()]),
        other => panic!("unexpected {other:?}"),
    }
}

#[test]
fn missing_variables_message_lists_names() {
    let error = PrepareError::MissingVariables(vec!["a".to_string(), "b".to_string()]);
    assert_eq!(error.message(), "存在未定义变量: a, b");
    assert_eq!(PrepareError::Invalid("x".to_string()).message(), "x");
}

#[test]
fn zero_timeout_becomes_one_millisecond() {
    let environment = environment("https://test.example.com", &[]);
    let prepared = prepare_request(&RequestSnapshot { timeout_ms: 0, ..snapshot() }, Some(&environment)).unwrap();
    assert_eq!(prepared.timeout_ms, 1);
    let empty = prepare_request(&RequestSnapshot { url: "  ".to_string(), ..snapshot() }, Some(&environment));
    assert_eq!(empty.unwrap_err().message(), "请求地址不能为空");
}

#[test]
fn body_buffer_keeps_the_start_of_the_stream_up_to_the_limit() {
    let mut small = BodyBuffer::new();
    assert!(small.push_chunk(b"abc"));
    assert!(small.push_chunk(b"de"));
    assert_eq!(small.bytes(), b"abcde");
    assert!(!small.is_oversized());

    let mut big = BodyBuffer::new();
    let chunk = vec![7u8; MAX_RESPONSE_BYTES - 1];
    assert!(big.push_chunk(&chunk));
    assert!(!big.push_chunk(&[1, 2, 3]));
    assert_eq!(big.bytes().len(), MAX_RESPONSE_BYTES);
    assert_eq!(big.bytes()[MAX_RESPONSE_BYTES - 1], 1);
    assert!(big.is_oversized());

    let mut exact = BodyBuffer::new();
    assert!(!exact.push_chunk(&vec![0u8; MAX_RESPONSE_BYTES]));
    assert!(exact.is_oversized());
}

#[test]
fn history_record_is_redacted_and_stamped() {
    let mut history = ApiRequestHistory::default();
    history.request_snapshot.headers = vec![KeyValueRow::new("Authorization", "Bearer x")];
    history.response_body_preview = "ok".to_string();
    let record = prepare_history_record(&history, 123, "hhhhhhhhhh");
    assert_eq!(record.id, "ahis_hhhhhhhhhh");
    assert_eq!(record.executed_at, 123);
    assert_eq!(record.request_snapshot.headers[0].value, "***");
    assert_eq!(record.response_body_preview, "ok");
    assert!(!record.response_body_truncated);
    assert_eq!(history_error_message("disk full"), "响应已收到，但历史未保存: disk full");
    assert_eq!(resolve_execution_id(Some("  run-1 ")), "run-1");
    let fresh = resolve_execution_id(Some("  "));
    assert!(fresh.starts_with("aexe_") && fresh.len() == 17);
}

#[test]
fn api_http_cancel_marks_unknown_execution_as_not_inflight() {
    let mut registry = ExecutionRegistry::new();
    assert!(!registry.is_inflight("missing"));
    assert!(!registry.cancel("missing").expect("cancel should not fail"));
}

#[test]
fn client_cancel_marks_unknown_execution_as_not_inflight() {
    let mut registry = ExecutionRegistry::new();
    assert!(!registry.is_inflight("missing"));
    assert!(!registry.cancel("missing").expect("cancel should not fail"));
}

#[test]
fn cancel_flags_a_registered_execution_until_it_ends() {
    let mut registry = ExecutionRegistry::new();
    registry.register("run-1");
    assert!(registry.is_inflight("run-1"));
    assert!(!registry.is_cancelled("run-1"));
    assert!(registry.cancel("run-1").expect("cancel should not fail"));
    assert!(registry.is_cancelled("run-1"));
    assert!(!registry.is_cancelled("run-2"));
    registry.unregister("run-1");
    assert!(!registry.is_inflight("run-1"));
    assert!(!registry.cancel("run-1").expect("cancel should not fail"));
}

#[test]
fn prepare_error_converts_into_its_message() {
    let missing = PrepareError::MissingVariables(vec!["order_id".to_string(), "trace_id".to_string()]);
    assert_eq!(String::from(missing.clone()), missing.message());
    assert_eq!(String::from(missing), "存在未定义变量: order_id, trace_id");
    let text: String = PrepareError::Invalid("x".to_string()).into();
    assert_eq!(text, "x");
}
