use eidolon::history::{is_sensitive_key, redact_rows, redact_snapshot, truncate_body};
use eidolon::models::api_client::{KeyValueRow, RequestSnapshot, MAX_HISTORY_BODY_BYTES};

#[test]
fn truncate_body_keeps_utf8_boundaries() {
    let body = "中".repeat(MAX_HISTORY_BODY_BYTES);
    let (truncated, was_truncated) = truncate_body(&body);
    assert!(was_truncated);
    assert!(truncated.len() <= MAX_HISTORY_BODY_BYTES);
    assert!(truncated.chars().all(|character| character == '中'));
}

#[test]
fn truncate_body_keeps_short_bodies_and_cuts_at_limit() {
    let (kept, cut) = truncate_body("hello");
    assert_eq!(kept, "hello");
    assert!(!cut);
    let body = "a".repeat(MAX_HISTORY_BODY_BYTES + 3);
    let (kept, cut) = truncate_body(&body);
    assert!(cut);
    assert_eq!(kept.len(), MAX_HISTORY_BODY_BYTES);
    let exact = "b".repeat(MAX_HISTORY_BODY_BYTES);
    let (kept, cut) = truncate_body(&exact);
    assert!(!cut);
    assert_eq!(kept.len(), MAX_HISTORY_BODY_BYTES);
}

#[test]
fn is_sensitive_key_matches_common_credential_names() {
    for key in [
        "Authorization",
        "cookie",
        "X-API-Key",
        "x-auth-token",
        "refresh_token",
        "USER_PASSWORD",
    ] {
        assert!(
            is_sensitive_key(key),
            "{key} should be treated as sensitive"
        );
    }

    for key in ["Content-Type", "Accept", "page", "userId"] {
        assert!(!is_sensitive_key(key), "{key} should not be redacted");
    }
}

#[test]
fn redaction_replaces_only_sensitive_values() {
    let rows = vec![
        KeyValueRow::new("Authorization", "Bearer real-token"),
        KeyValueRow::new("Content-Type", "application/json"),
        KeyValueRow::disabled("  ", "x"),
    ];
    let redacted = redact_rows(&rows);
    assert_eq!(redacted[0].value, "***");
    assert_eq!(redacted[0].key, "Authorization");
    assert_eq!(redacted[1].value, "application/json");
    assert_eq!(redacted[2].value, "x");
    assert!(!redacted[2].enabled);

    let snapshot = RequestSnapshot {
        query: vec![KeyValueRow::new("token", "plain-secret")],
        headers: rows,
        ..RequestSnapshot::default()
    };
    let safe = redact_snapshot(&snapshot);
    assert_eq!(safe.query[0].value, "***");
    assert_eq!(safe.headers[0].value, "***");
    assert_eq!(safe.method, "GET");
    assert_eq!(safe.timeout_ms, 30_000);
}
