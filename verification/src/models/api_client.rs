//! Projects, groups, requests, environments and execution records of the API workbench.
use vstd::prelude::*;
use crate::text::{chars_of, eq_str, push_all, string_of, trimmed, to_upper, upper, trim};

verus! {

/// Default request timeout in milliseconds.
pub const DEFAULT_TIMEOUT_MS: u64 = 30_000;

/// Upper bound on the bytes of a response that are read: 5 MiB.
pub const MAX_RESPONSE_BYTES: usize = 5 * 1024 * 1024;

/// Upper bound on the bytes of a response body kept in history: 1 MiB.
pub const MAX_HISTORY_BODY_BYTES: usize = 1024 * 1024;

/// History entries kept per request.
pub const MAX_HISTORY_PER_REQUEST: usize = 100;

/// Default-model key of body generation, distinct from the chat key `assistant`.
pub const BODY_GENERATION_MODEL_KEY: &'static str = "api_body_generation";

/// A key/value row that can be switched off; duplicate keys are allowed and order is kept.
#[derive(Debug, Clone, PartialEq, Eq)]
pub struct KeyValueRow {
    pub id: String,
    pub enabled: bool,
    pub key: String,
    pub value: String,
}

impl KeyValueRow {
    /// An enabled row without id.
    pub fn new(key: &str, value: &str) -> (r: KeyValueRow)
        ensures
            r.id@ == Seq::<char>::empty(),
            r.enabled,
            r.key@ == key@,
            r.value@ == value@,
    {
        KeyValueRow { id: String::new(), enabled: true, key: key.to_owned(), value: value.to_owned() }
    }

    /// A disabled row without id.
    pub fn disabled(key: &str, value: &str) -> (r: KeyValueRow)
        ensures
            r.id@ == Seq::<char>::empty(),
            !r.enabled,
            r.key@ == key@,
            r.value@ == value@,
    {
        KeyValueRow { enabled: false, ..Self::new(key, value) }
    }
}

/// The plain content of a row.
pub open spec fn row_view(r: KeyValueRow) -> (Seq<char>, bool, Seq<char>, Seq<char>) {
    (r.id@, r.enabled, r.key@, r.value@)
}

pub open spec fn rows_view(v: Seq<KeyValueRow>) -> Seq<(Seq<char>, bool, Seq<char>, Seq<char>)> {
    Seq::new(v.len(), |i: int| row_view(v[i]))
}

impl KeyValueRow {
    /// A field-by-field copy.
    pub fn copy(&self) -> (r: KeyValueRow)
        ensures
            row_view(r) == row_view(*self),
    {
        KeyValueRow {
            id: self.id.clone(),
            enabled: self.enabled,
            key: self.key.clone(),
            value: self.value.clone(),
        }
    }
}

/// A copy of every row.
pub fn copy_rows(rows: &[KeyValueRow]) -> (r: Vec<KeyValueRow>)
    ensures
        rows_view(r@) == rows_view(rows@),
{
    let mut r: Vec<KeyValueRow> = Vec::new();
    for i in 0..rows.len()
        invariant
            r@.len() == i,
            forall|j: int| 0 <= j < i ==> row_view(#[trigger] r@[j]) == row_view(rows@[j]),
    {
        r.push(rows[i].copy());
    }
    assert(rows_view(r@) =~= rows_view(rows@));
    r
}

pub fn copy_opt_string(s: &Option<String>) -> (r: Option<String>)
    ensures
        opt_view(r) == opt_view(*s),
{
    match s {
        Some(v) => Some(v.clone()),
        None => None,
    }
}

pub open spec fn opt_view(s: Option<String>) -> Option<Seq<char>> {
    match s {
        Some(v) => Some(v@),
        None => None,
    }
}

/// Kind of a request body.
#[derive(Debug, Clone, Copy, PartialEq, Eq, Structural)]
pub enum BodyKind {
    NoBody,
    Json,
    Text,
    Form,
}

/// Wire name of a body kind.
pub open spec fn body_kind_name(k: BodyKind) -> Seq<char> {
    match k {
        BodyKind::NoBody => "none"@,
        BodyKind::Json => "json"@,
        BodyKind::Text => "text"@,
        BodyKind::Form => "form"@,
    }
}

/// Body kind named by `s`, if any.
pub open spec fn body_kind_named(s: Seq<char>) -> Option<BodyKind> {
    if s == "none"@ {
        Some(BodyKind::NoBody)
    } else if s == "json"@ {
        Some(BodyKind::Json)
    } else if s == "text"@ {
        Some(BodyKind::Text)
    } else if s == "form"@ {
        Some(BodyKind::Form)
    } else {
        None
    }
}

/// Content-Type added by default for a body kind.
pub open spec fn default_content_type_of(k: BodyKind) -> Option<Seq<char>> {
    match k {
        BodyKind::NoBody => None,
        BodyKind::Json => Some("application/json"@),
        BodyKind::Text => Some("text/plain; charset=utf-8"@),
        BodyKind::Form => Some("application/x-www-form-urlencoded"@),
    }
}

impl BodyKind {
    pub fn as_str(self) -> (r: &'static str)
        ensures
            r@ == body_kind_name(self),
    {
        match self {
            BodyKind::NoBody => "none",
            BodyKind::Json => "json",
            BodyKind::Text => "text",
            BodyKind::Form => "form",
        }
    }

    pub fn parse(value: &str) -> (r: Result<BodyKind, String>)
        ensures
            match body_kind_named(value@) {
                Some(k) => r == Ok::<BodyKind, String>(k),
                None => r is Err && r->Err_0@ == "不支持的请求体类型: "@ + value@,
            },
    {
        let v = chars_of(value);
        if eq_str(v.as_slice(), "none") {
            Ok(BodyKind::NoBody)
        } else if eq_str(v.as_slice(), "json") {
            Ok(BodyKind::Json)
        } else if eq_str(v.as_slice(), "text") {
            Ok(BodyKind::Text)
        } else if eq_str(v.as_slice(), "form") {
            Ok(BodyKind::Form)
        } else {
            let mut m = chars_of("不支持的请求体类型: ");
            push_all(&mut m, v.as_slice());
            Err(string_of(m.as_slice()))
        }
    }

    /// Content-Type to add by default; `None` adds nothing.
    pub fn default_content_type(self) -> (r: Option<&'static str>)
        ensures
            match default_content_type_of(self) {
                Some(t) => r is Some && r->0@ == t,
                None => r is None,
            },
    {
        match self {
            BodyKind::NoBody => None,
            BodyKind::Json => Some("application/json"),
            BodyKind::Text => Some("text/plain; charset=utf-8"),
            BodyKind::Form => Some("application/x-www-form-urlencoded"),
        }
    }
}

pub proof fn law_body_kind_round_trip(k: BodyKind)
    ensures
        body_kind_named(body_kind_name(k)) == Some(k),
{
    reveal_strlit("none");
    reveal_strlit("json");
    reveal_strlit("text");
    reveal_strlit("form");
    assert("none"@[0] == 'n' && "json"@[0] == 'j' && "text"@[0] == 't' && "form"@[0] == 'f');
}

/// A request body: text for JSON and text bodies, rows for form bodies.
#[derive(Debug, Clone, PartialEq, Eq)]
pub struct RequestBody {
    pub kind: BodyKind,
    pub text: String,
    pub form: Vec<KeyValueRow>,
}

impl RequestBody {
    /// The empty body.
    pub fn empty() -> (r: RequestBody)
        ensures
            r.kind == BodyKind::NoBody,
            r.text@ == Seq::<char>::empty(),
            r.form@ == Seq::<KeyValueRow>::empty(),
    {
        RequestBody { kind: BodyKind::NoBody, text: String::new(), form: Vec::new() }
    }
}

impl Default for RequestBody {
    fn default() -> (r: RequestBody)
        ensures
            r.kind == BodyKind::NoBody,
            r.text@ == Seq::<char>::empty(),
            r.form@ == Seq::<KeyValueRow>::empty(),
    {
        RequestBody::empty()
    }
}

#[derive(Debug, Clone, PartialEq, Eq)]
pub struct ApiProject {
    pub id: String,
    pub name: String,
    pub description: String,
    pub sort: i64,
    pub created_at: i64,
    pub updated_at: i64,
}

#[derive(Debug, Clone, PartialEq, Eq)]
pub struct ApiGroup {
    pub id: String,
    pub project_id: String,
    /// Reserved for nested groups.
    pub parent_group_id: Option<String>,
    pub name: String,
    pub sort: i64,
    pub created_at: i64,
    pub updated_at: i64,
}

/// A request definition; `project_id` is derived from its group when read.
#[derive(Debug, Clone, PartialEq, Eq)]
pub struct ApiRequest {
    pub id: String,
    pub group_id: String,
    pub project_id: String,
    pub name: String,
    pub method: String,
    pub url: String,
    pub query: Vec<KeyValueRow>,
    pub headers: Vec<KeyValueRow>,
    pub body: RequestBody,
    pub timeout_ms: u64,
    pub ai_prompt: String,
    pub ai_reference: String,
    pub sort: i64,
    pub created_at: i64,
    pub updated_at: i64,
}

#[derive(Debug, Clone, PartialEq, Eq)]
pub struct ApiEnvironment {
    pub id: String,
    pub project_id: String,
    pub name: String,
    pub base_url: String,
    pub variables: Vec<KeyValueRow>,
    pub created_at: i64,
    pub updated_at: i64,
}

impl Default for ApiEnvironment {
    fn default() -> (r: ApiEnvironment)
        ensures
            r.id@ == Seq::<char>::empty(),
            r.project_id@ == Seq::<char>::empty(),
            r.name@ == Seq::<char>::empty(),
            r.base_url@ == Seq::<char>::empty(),
            r.variables@.len() == 0,
            r.created_at == 0,
            r.updated_at == 0,
    {
        ApiEnvironment {
            id: String::new(),
            project_id: String::new(),
            name: String::new(),
            base_url: String::new(),
            variables: Vec::new(),
            created_at: 0,
            updated_at: 0,
        }
    }
}

/// Outcome of an execution; 4xx/5xx responses are received responses, unlike
/// connection failures, timeouts and cancellations.
#[derive(Debug, Clone, Copy, PartialEq, Eq, Structural)]
pub enum ExecutionStatus {
    Success,
    HttpError,
    NetworkError,
    Timeout,
    Cancelled,
    Oversize,
}

pub open spec fn status_name(k: ExecutionStatus) -> Seq<char> {
    match k {
        ExecutionStatus::Success => "success"@,
        ExecutionStatus::HttpError => "http_error"@,
        ExecutionStatus::NetworkError => "network_error"@,
        ExecutionStatus::Timeout => "timeout"@,
        ExecutionStatus::Cancelled => "cancelled"@,
        ExecutionStatus::Oversize => "oversize"@,
    }
}

pub open spec fn status_named(s: Seq<char>) -> Option<ExecutionStatus> {
    if s == "success"@ {
        Some(ExecutionStatus::Success)
    } else if s == "http_error"@ {
        Some(ExecutionStatus::HttpError)
    } else if s == "network_error"@ {
        Some(ExecutionStatus::NetworkError)
    } else if s == "timeout"@ {
        Some(ExecutionStatus::Timeout)
    } else if s == "cancelled"@ {
        Some(ExecutionStatus::Cancelled)
    } else if s == "oversize"@ {
        Some(ExecutionStatus::Oversize)
    } else {
        None
    }
}

impl ExecutionStatus {
    pub fn as_str(self) -> (r: &'static str)
        ensures
            r@ == status_name(self),
    {
        match self {
            ExecutionStatus::Success => "success",
            ExecutionStatus::HttpError => "http_error",
            ExecutionStatus::NetworkError => "network_error",
            ExecutionStatus::Timeout => "timeout",
            ExecutionStatus::Cancelled => "cancelled",
            ExecutionStatus::Oversize => "oversize",
        }
    }

    pub fn parse(value: &str) -> (r: Result<ExecutionStatus, String>)
        ensures
            match status_named(value@) {
                Some(k) => r == Ok::<ExecutionStatus, String>(k),
                None => r is Err && r->Err_0@ == "不支持的执行状态: "@ + value@,
            },
    {
        let v = chars_of(value);
        if eq_str(v.as_slice(), "success") {
            Ok(ExecutionStatus::Success)
        } else if eq_str(v.as_slice(), "http_error") {
            Ok(ExecutionStatus::HttpError)
        } else if eq_str(v.as_slice(), "network_error") {
            Ok(ExecutionStatus::NetworkError)
        } else if eq_str(v.as_slice(), "timeout") {
            Ok(ExecutionStatus::Timeout)
        } else if eq_str(v.as_slice(), "cancelled") {
            Ok(ExecutionStatus::Cancelled)
        } else if eq_str(v.as_slice(), "oversize") {
            Ok(ExecutionStatus::Oversize)
        } else {
            let mut m = chars_of("不支持的执行状态: ");
            push_all(&mut m, v.as_slice());
            Err(string_of(m.as_slice()))
        }
    }
}

pub proof fn law_status_round_trip(k: ExecutionStatus)
    ensures
        status_named(status_name(k)) == Some(k),
{
    reveal_strlit("success");
    reveal_strlit("http_error");
    reveal_strlit("network_error");
    reveal_strlit("timeout");
    reveal_strlit("cancelled");
    reveal_strlit("oversize");
    assert("success"@[0] == 's' && "http_error"@[0] == 'h' && "network_error"@[0] == 'n'
        && "timeout"@[0] == 't' && "cancelled"@[0] == 'c' && "oversize"@[0] == 'o');
}

/// The request as frozen when it is sent.
#[derive(Debug, Clone, PartialEq, Eq)]
pub struct RequestSnapshot {
    pub method: String,
    pub url: String,
    pub query: Vec<KeyValueRow>,
    pub headers: Vec<KeyValueRow>,
    pub body: RequestBody,
    pub timeout_ms: u64,
    pub environment_name: Option<String>,
}

impl Default for RequestSnapshot {
    fn default() -> (r: RequestSnapshot)
        ensures
            r.method@ == "GET"@,
            r.url@ == Seq::<char>::empty(),
            r.query@.len() == 0,
            r.headers@.len() == 0,
            r.body.kind == BodyKind::NoBody,
            r.body.text@ == Seq::<char>::empty(),
            r.body.form@.len() == 0,
            r.timeout_ms == DEFAULT_TIMEOUT_MS,
            r.environment_name is None,
    {
        RequestSnapshot {
            method: String::from_str("GET"),
            url: String::new(),
            query: Vec::new(),
            headers: Vec::new(),
            body: RequestBody::empty(),
            timeout_ms: DEFAULT_TIMEOUT_MS,
            environment_name: None,
        }
    }
}

/// An execution record; the snapshot and the body preview are redacted and truncated.
#[derive(Debug, Clone)]
pub struct ApiRequestHistory {
    pub id: String,
    pub request_id: String,
    pub environment_name: Option<String>,
    pub request_snapshot: RequestSnapshot,
    pub status: ExecutionStatus,
    pub status_code: Option<u16>,
    pub response_headers: Vec<KeyValueRow>,
    pub response_body_preview: String,
    pub response_body_truncated: bool,
    pub duration_ms: u64,
    pub error_message: Option<String>,
    pub executed_at: i64,
}

impl Default for ApiRequestHistory {
    fn default() -> (r: ApiRequestHistory)
        ensures
            r.id@ == Seq::<char>::empty(),
            r.request_id@ == Seq::<char>::empty(),
            r.environment_name is None,
            r.status == ExecutionStatus::Success,
            r.status_code is None,
            r.response_headers@.len() == 0,
            r.response_body_preview@ == Seq::<char>::empty(),
            !r.response_body_truncated,
            r.duration_ms == 0,
            r.error_message is None,
            r.executed_at == 0,
    {
        ApiRequestHistory {
            id: String::new(),
            request_id: String::new(),
            environment_name: None,
            request_snapshot: RequestSnapshot::default(),
            status: ExecutionStatus::Success,
            status_code: None,
            response_headers: Vec::new(),
            response_body_preview: String::new(),
            response_body_truncated: false,
            duration_ms: 0,
            error_message: None,
            executed_at: 0,
        }
    }
}

/// Result of one execution as shown to the user, not truncated.
#[derive(Debug, Clone)]
pub struct ExecutionResult {
    /// Id that links cancellation and the reply to this execution.
    pub execution_id: String,
    pub status: ExecutionStatus,
    pub status_code: Option<u16>,
    pub response_headers: Vec<KeyValueRow>,
    pub body_text: String,
    /// Bytes of the body received.
    pub body_size_bytes: usize,
    pub content_type: Option<String>,
    /// Binary bodies are reported by type and size only.
    pub is_binary: bool,
    /// The body went over the read limit and reading stopped.
    pub is_oversized: bool,
    pub duration_ms: u64,
    pub error_message: Option<String>,
    /// Set when writing history failed; the response itself is kept.
    pub history_error: Option<String>,
    pub history_id: Option<String>,
}

/// Methods accepted for sending.
pub open spec fn supported_method(m: Seq<char>) -> bool {
    ||| m == "GET"@
    ||| m == "POST"@
    ||| m == "PUT"@
    ||| m == "PATCH"@
    ||| m == "DELETE"@
    ||| m == "HEAD"@
    ||| m == "OPTIONS"@
}

/// Method as sent: trimmed and ASCII upper-cased.
pub open spec fn method_key(m: Seq<char>) -> Seq<char> {
    upper(trim(m))
}

/// Whether a row is enabled when storage does not say.
pub fn default_true() -> (r: bool)
    ensures
        r,
{
    true
}

/// Method of a request stored without one.
pub fn default_method() -> (r: String)
    ensures
        r@ == "GET"@,
{
    String::from_str("GET")
}

/// Timeout of a request stored without one.
pub fn default_timeout_ms() -> (r: u64)
    ensures
        r == DEFAULT_TIMEOUT_MS,
{
    DEFAULT_TIMEOUT_MS
}

/// Checks and normalises an HTTP method.
pub fn normalize_method(method: &str) -> (r: Result<String, String>)
    ensures
        supported_method(method_key(method@)) ==> r is Ok && r->Ok_0@ == method_key(method@),
        !supported_method(method_key(method@)) ==> r is Err,
        !supported_method(method_key(method@)) && method_key(method@).len() == 0 ==> r->Err_0@
            == "HTTP 方法不能为空"@,
        !supported_method(method_key(method@)) && method_key(method@).len() > 0 ==> r->Err_0@
            == "不支持的 HTTP 方法: "@ + method_key(method@),
{
    let m = chars_of(method);
    let t = trimmed(m.as_slice());
    let up = to_upper(t.as_slice());
    let u = up.as_slice();
    if eq_str(u, "GET") || eq_str(u, "POST") || eq_str(u, "PUT") || eq_str(u, "PATCH") || eq_str(
        u,
        "DELETE",
    ) || eq_str(u, "HEAD") || eq_str(u, "OPTIONS") {
        Ok(string_of(u))
    } else if up.len() == 0 {
        Err(String::from_str("HTTP 方法不能为空"))
    } else {
        let mut e = chars_of("不支持的 HTTP 方法: ");
        push_all(&mut e, u);
        Err(string_of(e.as_slice()))
    }
}

} // verus!
