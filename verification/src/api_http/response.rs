//! Reading of responses: binary detection and the result of a cancelled wait.
use vstd::prelude::*;
use vstd::utf8::{valid_utf8, decode_utf8};
use crate::text::{chars_of, lower, to_lower, has_prefix, contains_seq, starts_with_str, contains_str, string_of};
use crate::models::api_client::{ExecutionResult, ExecutionStatus, KeyValueRow, opt_view, MAX_RESPONSE_BYTES};

verus! {

/// Content types that are shown as text.
pub open spec fn textual_type(l: Seq<char>) -> bool {
    ||| has_prefix(l, "text/"@)
    ||| contains_seq(l, "json"@)
    ||| contains_seq(l, "xml"@)
    ||| contains_seq(l, "javascript"@)
    ||| contains_seq(l, "x-www-form-urlencoded"@)
}

/// Content types that are binary whatever the content.
pub open spec fn binary_type(l: Seq<char>) -> bool {
    ||| has_prefix(l, "image/"@)
    ||| has_prefix(l, "audio/"@)
    ||| has_prefix(l, "video/"@)
    ||| has_prefix(l, "application/octet-stream"@)
    ||| has_prefix(l, "application/pdf"@)
    ||| has_prefix(l, "application/zip"@)
}

/// Content that is binary: a NUL byte, or not UTF-8.
pub open spec fn binary_content(body: Seq<u8>) -> bool {
    body.contains(0u8) || !valid_utf8(body)
}

/// A response is binary by its (ASCII lower-cased) content type when that decides, else by
/// its content.
pub open spec fn binary_response(content_type: Option<Seq<char>>, body: Seq<u8>) -> bool {
    match content_type {
        Some(c) => {
            let l = lower(c);
            if textual_type(l) {
                false
            } else if binary_type(l) {
                true
            } else {
                binary_content(body)
            }
        },
        None => binary_content(body),
    }
}

/// Calls `std::str::from_utf8`, which accepts exactly the well-formed UTF-8 byte strings.
#[verifier::external_body]
fn utf8_ok(body: &[u8]) -> (r: bool)
    ensures
        r == valid_utf8(body@),
{
    std::str::from_utf8(body).is_ok()
}

fn has_nul(body: &[u8]) -> (r: bool)
    ensures
        r == body@.contains(0u8),
{
    let mut i: usize = 0;
    while i < body.len()
        invariant
            i <= body@.len(),
            forall|j: int| 0 <= j < i ==> body@[j] != 0u8,
        decreases body@.len() - i,
    {
        if body[i] == 0u8 {
            assert(body@[i as int] == 0u8);
            return true;
        }
        i += 1;
    }
    false
}

/// Binary responses are only described by type and size, not turned into text.
pub fn is_binary_response(content_type: Option<&str>, body: &[u8]) -> (r: bool)
    ensures
        r == binary_response(
            match content_type {
                Some(c) => Some(c@),
                None => None,
            },
            body@,
        ),
{
    if let Some(c) = content_type {
        let lv = to_lower(chars_of(c).as_slice());
        let l = lv.as_slice();
        let textual = starts_with_str(l, "text/") || contains_str(l, "json") || contains_str(l, "xml")
            || contains_str(l, "javascript") || contains_str(l, "x-www-form-urlencoded");
        if textual {
            return false;
        }
        if starts_with_str(l, "image/") || starts_with_str(l, "audio/") || starts_with_str(l, "video/")
            || starts_with_str(l, "application/octet-stream") || starts_with_str(l, "application/pdf")
            || starts_with_str(l, "application/zip") {
            return true;
        }
    }
    has_nul(body) || !utf8_ok(body)
}

/// Result of an execution whose wait was cancelled after `duration_ms`.
pub fn cancelled_result(execution_id: &str, duration_ms: u64) -> (r: ExecutionResult)
    ensures
        r.execution_id@ == execution_id@,
        r.status == ExecutionStatus::Cancelled,
        r.status_code is None,
        r.response_headers@.len() == 0,
        r.body_text@ == Seq::<char>::empty(),
        r.body_size_bytes == 0,
        r.content_type is None,
        !r.is_binary,
        !r.is_oversized,
        r.duration_ms == duration_ms,
        opt_view(r.error_message) == Some("已取消等待，服务端可能已经执行"@),
        r.history_error is None,
        r.history_id is None,
{
    ExecutionResult {
        execution_id: execution_id.to_owned(),
        status: ExecutionStatus::Cancelled,
        status_code: None,
        response_headers: Vec::new(),
        body_text: String::new(),
        body_size_bytes: 0,
        content_type: None,
        is_binary: false,
        is_oversized: false,
        duration_ms,
        error_message: Some("已取消等待，服务端可能已经执行".to_owned()),
        history_error: None,
        history_id: None,
    }
}

/// Bytes of a response body read so far, and whether the size limit cut it short.
pub struct BodyBuffer {
    bytes: Vec<u8>,
    oversized: bool,
}

pub ghost struct BodyView {
    pub bytes: Seq<u8>,
    pub oversized: bool,
}

impl View for BodyBuffer {
    type V = BodyView;

    closed spec fn view(&self) -> BodyView {
        BodyView { bytes: self.bytes@, oversized: self.oversized }
    }
}

/// The buffer after a chunk: the part that fits under the limit is kept; reaching or
/// passing the limit marks it oversized.
pub open spec fn after_chunk(b: BodyView, chunk: Seq<u8>) -> BodyView {
    let remaining = MAX_RESPONSE_BYTES - b.bytes.len();
    if chunk.len() > remaining {
        BodyView { bytes: b.bytes + chunk.take(remaining), oversized: true }
    } else {
        BodyView { bytes: b.bytes + chunk, oversized: b.bytes.len() + chunk.len() >= MAX_RESPONSE_BYTES }
    }
}

/// The chunks of a stream, one after the other.
pub open spec fn flatten_chunks(chunks: Seq<Seq<u8>>) -> Seq<u8>
    decreases chunks.len(),
{
    if chunks.len() == 0 {
        Seq::empty()
    } else {
        flatten_chunks(chunks.drop_last()) + chunks.last()
    }
}

/// The buffer after the chunks were fed to an empty one, reading stopping once it is
/// oversized.
pub open spec fn fed(chunks: Seq<Seq<u8>>) -> BodyView
    decreases chunks.len(),
{
    if chunks.len() == 0 {
        BodyView { bytes: Seq::empty(), oversized: false }
    } else {
        let b = fed(chunks.drop_last());
        if b.oversized {
            b
        } else {
            after_chunk(b, chunks.last())
        }
    }
}

/// Whatever the chunks of a response, what is kept is the start of the body, never more
/// than `MAX_RESPONSE_BYTES`: the whole body when it is shorter than the limit, else its
/// first `MAX_RESPONSE_BYTES` bytes, marked oversized.
pub proof fn law_body_is_stream_prefix(chunks: Seq<Seq<u8>>)
    ensures
        fed(chunks).oversized == (flatten_chunks(chunks).len() >= MAX_RESPONSE_BYTES),
        fed(chunks).bytes == if flatten_chunks(chunks).len() >= MAX_RESPONSE_BYTES {
            flatten_chunks(chunks).take(MAX_RESPONSE_BYTES as int)
        } else {
            flatten_chunks(chunks)
        },
    decreases chunks.len(),
{
    if chunks.len() > 0 {
        let prev = chunks.drop_last();
        let c = chunks.last();
        law_body_is_stream_prefix(prev);
        let f0 = flatten_chunks(prev);
        let f = flatten_chunks(chunks);
        assert(f == f0 + c);
        let m = MAX_RESPONSE_BYTES as int;
        if fed(prev).oversized {
            assert(f.take(m) =~= f0.take(m));
        } else {
            let remaining = m - f0.len();
            if c.len() > remaining {
                assert(f0 + c.take(remaining) =~= f.take(m));
            }
        }
    }
}

impl BodyBuffer {
    pub fn new() -> (r: Self)
        ensures
            r@ == (BodyView { bytes: Seq::empty(), oversized: false }),
    {
        BodyBuffer { bytes: Vec::new(), oversized: false }
    }

    pub fn bytes(&self) -> (r: &[u8])
        ensures
            r@ == self@.bytes,
    {
        self.bytes.as_slice()
    }

    pub fn is_oversized(&self) -> (r: bool)
        ensures
            r == self@.oversized,
    {
        self.oversized
    }

    /// Adds a chunk read from the stream; answers whether reading goes on.
    pub fn push_chunk(&mut self, chunk: &[u8]) -> (go_on: bool)
        requires
            old(self)@.bytes.len() < MAX_RESPONSE_BYTES,
            !old(self)@.oversized,
        ensures
            final(self)@ == after_chunk(old(self)@, chunk@),
            go_on == !final(self)@.oversized,
            final(self)@.bytes.len() <= MAX_RESPONSE_BYTES,
            go_on ==> final(self)@.bytes.len() < MAX_RESPONSE_BYTES,
    {
        let remaining = MAX_RESPONSE_BYTES - self.bytes.len();
        let take = if chunk.len() > remaining { remaining } else { chunk.len() };
        let ghost start = self.bytes@;
        for i in 0..take
            invariant
                take <= chunk@.len(),
                self.bytes@ == start + chunk@.take(i as int),
        {
            self.bytes.push(chunk[i]);
            assert(start + chunk@.take(i + 1) =~= (start + chunk@.take(i as int)).push(chunk@[i as int]));
        }
        if chunk.len() > remaining {
            self.oversized = true;
        } else {
            assert(chunk@.take(take as int) =~= chunk@);
            self.oversized = self.bytes.len() >= MAX_RESPONSE_BYTES;
        }
        !self.oversized
    }
}

/// What `String::from_utf8_lossy` makes of a byte string: its characters, with a
/// replacement character for each ill-formed sequence.
pub uninterp spec fn lossy_text(bytes: Seq<u8>) -> Seq<char>;

/// Calls `String::from_utf8_lossy`: the result is named `lossy_text` of the bytes, and for
/// well-formed UTF-8 it is the decoded characters. How ill-formed sequences are replaced
/// is left to the name.
#[verifier::external_body]
fn utf8_lossy(bytes: &[u8]) -> (r: String)
    ensures
        r@ == lossy_text(bytes@),
        valid_utf8(bytes@) ==> r@ == decode_utf8(bytes@),
{
    String::from_utf8_lossy(bytes).to_string()
}

/// Outcome of a finished read: over the limit, an HTTP error status, or success.
pub open spec fn read_status(oversized: bool, status_code: u16) -> ExecutionStatus {
    if oversized {
        ExecutionStatus::Oversize
    } else if 400 <= status_code && status_code < 600 {
        ExecutionStatus::HttpError
    } else {
        ExecutionStatus::Success
    }
}

/// Result of a response read to its end or to the limit.
pub fn finish_response(
    execution_id: &str,
    status_code: u16,
    response_headers: Vec<KeyValueRow>,
    content_type: Option<String>,
    body: &BodyBuffer,
    duration_ms: u64,
) -> (r: ExecutionResult)
    ensures
        r.execution_id@ == execution_id@,
        r.status == read_status(body@.oversized, status_code),
        r.status_code == Some(status_code),
        r.response_headers@ == response_headers@,
        r.body_size_bytes == body@.bytes.len(),
        opt_view(r.content_type) == opt_view(content_type),
        r.is_binary == binary_response(opt_view(content_type), body@.bytes),
        r.is_binary ==> r.body_text@ == Seq::<char>::empty(),
        !r.is_binary ==> r.body_text@ == lossy_text(body@.bytes),
        !r.is_binary && valid_utf8(body@.bytes) ==> r.body_text@ == decode_utf8(body@.bytes),
        r.is_oversized == body@.oversized,
        r.duration_ms == duration_ms,
        opt_view(r.error_message) == if body@.oversized {
            Some("响应超过上限（5 MiB），已停止继续读取"@)
        } else {
            None
        },
        r.history_error is None,
        r.history_id is None,
{
    let bytes = body.bytes();
    let is_binary = match &content_type {
        Some(c) => is_binary_response(Some(c.as_str()), bytes),
        None => is_binary_response(None, bytes),
    };
    let body_text = if is_binary { String::new() } else { utf8_lossy(bytes) };
    let oversized = body.is_oversized();
    let status = if oversized {
        ExecutionStatus::Oversize
    } else if 400 <= status_code && status_code < 600 {
        ExecutionStatus::HttpError
    } else {
        ExecutionStatus::Success
    };
    ExecutionResult {
        execution_id: execution_id.to_owned(),
        status,
        status_code: Some(status_code),
        response_headers,
        body_text,
        body_size_bytes: bytes.len(),
        content_type,
        is_binary,
        is_oversized: oversized,
        duration_ms,
        error_message: if oversized { Some("响应超过上限（5 MiB），已停止继续读取".to_owned()) } else { None },
        history_error: None,
        history_id: None,
    }
}

/// Message of a failed send: a timeout, a failed connection, or another failure with the
/// error's text.
pub open spec fn failure_message(timeout: bool, connect: bool, error_text: Seq<char>) -> Seq<char> {
    if timeout {
        "请求超时"@
    } else if connect {
        "连接失败: "@ + error_text
    } else {
        "请求失败: "@ + error_text
    }
}

/// Result of a send that failed before a response arrived.
pub fn error_result(execution_id: &str, duration_ms: u64, timeout: bool, connect: bool, error_text: &str) -> (r: ExecutionResult)
    ensures
        r.execution_id@ == execution_id@,
        r.status == (if timeout { ExecutionStatus::Timeout } else { ExecutionStatus::NetworkError }),
        r.status_code is None,
        r.response_headers@.len() == 0,
        r.body_text@ == Seq::<char>::empty(),
        r.body_size_bytes == 0,
        r.content_type is None,
        !r.is_binary,
        !r.is_oversized,
        r.duration_ms == duration_ms,
        opt_view(r.error_message) == Some(failure_message(timeout, connect, error_text@)),
        r.history_error is None,
        r.history_id is None,
{
    let message = if timeout {
        "请求超时".to_owned()
    } else {
        let mut m = if connect { chars_of("连接失败: ") } else { chars_of("请求失败: ") };
        crate::text::push_all(&mut m, chars_of(error_text).as_slice());
        string_of(m.as_slice())
    };
    ExecutionResult {
        execution_id: execution_id.to_owned(),
        status: if timeout { ExecutionStatus::Timeout } else { ExecutionStatus::NetworkError },
        status_code: None,
        response_headers: Vec::new(),
        body_text: String::new(),
        body_size_bytes: 0,
        content_type: None,
        is_binary: false,
        is_oversized: false,
        duration_ms,
        error_message: Some(message),
        history_error: None,
        history_id: None,
    }
}

} // verus!
