use eidolon::models::api_client::{normalize_method, BodyKind, ExecutionStatus};

#[test]
fn normalize_method_accepts_supported_methods_case_insensitively() {
    assert_eq!(normalize_method("get").expect("get"), "GET");
    assert_eq!(normalize_method(" Patch ").expect("patch"), "PATCH");
    assert_eq!(normalize_method("OPTIONS").expect("options"), "OPTIONS");
}

#[test]
fn normalize_method_rejects_unsupported_methods() {
    assert!(normalize_method("TRACE").is_err());
    assert!(normalize_method("").is_err());
}

#[test]
fn body_kind_round_trips_through_string() {
    for kind in [
        BodyKind::NoBody,
        BodyKind::Json,
        BodyKind::Text,
        BodyKind::Form,
    ] {
        assert_eq!(BodyKind::parse(kind.as_str()).expect("parse"), kind);
    }
    assert!(BodyKind::parse("multipart").is_err());
}

#[test]
fn execution_status_round_trips_through_string() {
    for status in [
        ExecutionStatus::Success,
        ExecutionStatus::HttpError,
        ExecutionStatus::NetworkError,
        ExecutionStatus::Timeout,
        ExecutionStatus::Cancelled,
        ExecutionStatus::Oversize,
    ] {
        assert_eq!(
            ExecutionStatus::parse(status.as_str()).expect("parse"),
            status
        );
    }
    assert!(ExecutionStatus::parse("retrying").is_err());
}

#[test]
fn json_body_default_content_type_is_application_json() {
    assert_eq!(
        BodyKind::Json.default_content_type(),
        Some("application/json")
    );
    assert_eq!(BodyKind::NoBody.default_content_type(), None);
}

#[test]
fn normalize_method_error_messages() {
    assert_eq!(normalize_method("  ").unwrap_err(), "HTTP 方法不能为空");
    assert_eq!(normalize_method(" trace").unwrap_err(), "不支持的 HTTP 方法: TRACE");
    assert_eq!(BodyKind::parse("multipart").unwrap_err(), "不支持的请求体类型: multipart");
    assert_eq!(ExecutionStatus::parse("x").unwrap_err(), "不支持的执行状态: x");
    assert_eq!(
        BodyKind::Form.default_content_type(),
        Some("application/x-www-form-urlencoded")
    );
    assert_eq!(BodyKind::Text.default_content_type(), Some("text/plain; charset=utf-8"));
}
