//! Testing a provider connection: what is sent, and how the outcome is reported.
use vstd::prelude::*;
use crate::text::{contains_seq, contains_str, chars_of, push_str, string_of, trim};

verus! {

/// Credentials and model to test.
#[derive(Debug, Clone)]
pub struct TestConnectionRequest {
    pub api_key: String,
    pub base_url: String,
    pub model: String,
}

/// Outcome of a connection test.
#[derive(Debug, Clone)]
pub struct TestConnectionResponse {
    pub success: bool,
    pub message: String,
}

impl TestConnectionResponse {
    /// The answer when the test request went through.
    pub fn succeeded() -> (r: TestConnectionResponse)
        ensures
            r.success,
            r.message@ == "连接成功!"@,
    {
        TestConnectionResponse { success: true, message: String::from_str("连接成功!") }
    }
}

/// The values a test request is made with: each field trimmed.
pub open spec fn request_fields(api_key: Seq<char>, base_url: Seq<char>, model: Seq<char>) -> (Seq<char>, Seq<char>, Seq<char>) {
    (trim(api_key), trim(base_url), trim(model))
}

impl TestConnectionRequest {
    /// The trimmed API key, base URL and model.
    pub fn trimmed_fields(&self) -> (r: (String, String, String))
        ensures
            (r.0@, r.1@, r.2@) == request_fields(self.api_key@, self.base_url@, self.model@),
    {
        let a = crate::text::trimmed(chars_of(self.api_key.as_str()).as_slice());
        let b = crate::text::trimmed(chars_of(self.base_url.as_str()).as_slice());
        let m = crate::text::trimmed(chars_of(self.model.as_str()).as_slice());
        (string_of(a.as_slice()), string_of(b.as_slice()), string_of(m.as_slice()))
    }
}

/// The message for a failed test request; a 404 adds a hint about the base URL and the
/// endpoint the service must offer.
pub open spec fn test_connection_error(error: Seq<char>, base_url: Seq<char>) -> Seq<char> {
    if contains_seq(error, "404"@) {
        "测试请求失败: "@ + error
            + "。请确认 Base URL 是否正确，并且该服务支持 OpenAI Chat Completions 兼容接口；当前地址: "@
            + base_url
    } else {
        "测试请求失败: "@ + error
    }
}

/// Formats the error of a failed test request.
pub fn format_test_connection_error(error: &str, base_url: &str) -> (r: String)
    ensures
        r@ == test_connection_error(error@, base_url@),
{
    let e = chars_of(error);
    let mut out = chars_of("测试请求失败: ");
    push_str(&mut out, error);
    if contains_str(e.as_slice(), "404") {
        push_str(&mut out, "。请确认 Base URL 是否正确，并且该服务支持 OpenAI Chat Completions 兼容接口；当前地址: ");
        push_str(&mut out, base_url);
    }
    string_of(out.as_slice())
}

} // verus!
