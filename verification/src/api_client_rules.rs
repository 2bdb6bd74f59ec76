//! Rules the API-client records follow before they are written: required names, positive
//! timeouts, and the summaries and previews shown to the user.
use vstd::prelude::*;
use crate::api_http::request_prep::PreparedRequest;
use crate::models::api_client::{KeyValueRow, copy_rows, rows_view};
use crate::text::{trim, trimmed, chars_of, push_str, string_of};

verus! {

/// A name that must not be blank, trimmed; `field` names it in the error.
pub open spec fn required_name(value: Seq<char>, field: Seq<char>) -> Result<Seq<char>, Seq<char>> {
    if trim(value).len() == 0 {
        Err(field + "不能为空"@)
    } else {
        Ok(trim(value))
    }
}

/// Checks that a name is not blank, and trims it.
pub fn require_name(value: &str, field: &str) -> (r: Result<String, String>)
    ensures
        match required_name(value@, field@) {
            Ok(v) => r is Ok && r->Ok_0@ == v,
            Err(e) => r is Err && r->Err_0@ == e,
        },
{
    let t = trimmed(chars_of(value).as_slice());
    if t.len() == 0 {
        let mut out = chars_of(field);
        push_str(&mut out, "不能为空");
        return Err(string_of(out.as_slice()));
    }
    Ok(string_of(t.as_slice()))
}

/// Checks that a timeout is positive.
pub fn require_timeout(timeout_ms: u64) -> (r: Result<u64, String>)
    ensures
        timeout_ms == 0 ==> r is Err && r->Err_0@ == "超时时间必须大于 0"@,
        timeout_ms > 0 ==> r == Ok::<u64, String>(timeout_ms),
{
    if timeout_ms == 0 {
        return Err(String::from_str("超时时间必须大于 0"));
    }
    Ok(timeout_ms)
}

/// The columns of a stored request, in the order the queries read them.
pub fn request_columns() -> (r: &'static str)
    ensures
        r@ == "r.id, r.group_id, g.project_id, r.name, r.method, r.url, r.query_json, r.headers_json,\n     r.body_kind, r.body_text, r.body_form_json, r.timeout_ms, r.ai_prompt, r.ai_reference,\n     r.sort, r.created_at, r.updated_at"@,
{
    "r.id, r.group_id, g.project_id, r.name, r.method, r.url, r.query_json, r.headers_json,\n     r.body_kind, r.body_text, r.body_form_json, r.timeout_ms, r.ai_prompt, r.ai_reference,\n     r.sort, r.created_at, r.updated_at"
}

/// What went with a deleted project or group.
#[derive(Debug, Clone, Copy, PartialEq, Eq, Default, Structural)]
pub struct DeletionSummary {
    /// Groups deleted with it.
    pub deleted_groups: i64,
    /// Requests deleted with it.
    pub deleted_requests: i64,
    /// History entries deleted with it.
    pub deleted_histories: i64,
}

/// A checked request, as shown before sending: the body only by its size.
#[derive(Debug, Clone)]
pub struct PreparedRequestPreview {
    pub method: String,
    pub url: String,
    pub headers: Vec<KeyValueRow>,
    pub body_size_bytes: usize,
    pub environment_name: Option<String>,
}

/// The preview of a prepared request.
pub fn preview_of(prepared: &PreparedRequest, environment_name: Option<String>) -> (r: PreparedRequestPreview)
    ensures
        r.method@ == prepared@.method,
        r.url@ == prepared@.url,
        rows_view(r.headers@) == prepared@.headers,
        r.body_size_bytes == match prepared@.body { Some(b) => b.len(), None => 0 },
        r.environment_name == environment_name,
{
    PreparedRequestPreview {
        method: prepared.method.clone(),
        url: prepared.url.clone(),
        headers: copy_rows(prepared.headers.as_slice()),
        body_size_bytes: match &prepared.body {
            Some(b) => b.len(),
            None => 0,
        },
        environment_name,
    }
}

/// The application's data and log directories.
#[derive(Debug, Clone)]
pub struct AppPaths {
    pub app_data: String,
    pub app_log: String,
}

} // verus!
