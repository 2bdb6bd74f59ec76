//! Redaction and truncation applied to execution records before they are kept.
use vstd::prelude::*;
use vstd::utf8::{encode_utf8, encode_scalar, char_is_scalar};
use crate::text::{chars_of, trim, lower, trimmed, to_lower, contains, contains_seq, string_of};
use crate::models::api_client::{
    KeyValueRow, RequestSnapshot, RequestBody, row_view, rows_view, copy_rows, copy_opt_string,
    opt_view, MAX_HISTORY_BODY_BYTES, ApiRequestHistory, ExecutionResult,
};
use crate::store::stamp::{random_id, is_id_of_len};

verus! {

/// Fragments of credential-like names, matched case-insensitively.
pub open spec fn sensitive_hints() -> Seq<Seq<char>> {
    seq![
        "authorization"@,
        "cookie"@,
        "set-cookie"@,
        "proxy-authorization"@,
        "x-api-key"@,
        "api-key"@,
        "x-auth-token"@,
        "x-access-token"@,
        "token"@,
        "secret"@,
        "password"@,
    ]
}

fn sensitive_hint(i: usize) -> (r: &'static str)
    requires
        i < 11,
    ensures
        r@ == sensitive_hints()[i as int],
{
    match i {
        0 => "authorization",
        1 => "cookie",
        2 => "set-cookie",
        3 => "proxy-authorization",
        4 => "x-api-key",
        5 => "api-key",
        6 => "x-auth-token",
        7 => "x-access-token",
        8 => "token",
        9 => "secret",
        _ => "password",
    }
}

/// A key is sensitive when, trimmed and lower-cased, it is non-empty and holds a hint.
pub open spec fn key_is_sensitive(key: Seq<char>) -> bool {
    let l = lower(trim(key));
    l.len() > 0 && exists|i: int| 0 <= i < sensitive_hints().len() && contains_seq(l, #[trigger] sensitive_hints()[i])
}

/// Placeholder written in place of a sensitive value.
pub open spec fn redacted() -> Seq<char> {
    "***"@
}

pub fn is_sensitive_key(key: &str) -> (r: bool)
    ensures
        r == key_is_sensitive(key@),
{
    let k = chars_of(key);
    let t = trimmed(k.as_slice());
    let l = to_lower(t.as_slice());
    if l.len() == 0 {
        return false;
    }
    let mut i: usize = 0;
    while i < 11
        invariant
            i <= 11,
            l@ == lower(trim(key@)),
            l@.len() > 0,
            forall|j: int| 0 <= j < i ==> !contains_seq(l@, #[trigger] sensitive_hints()[j]),
        decreases 11 - i,
    {
        let h = chars_of(sensitive_hint(i));
        if contains(l.as_slice(), h.as_slice()) {
            assert(contains_seq(l@, sensitive_hints()[i as int]));
            assert(sensitive_hints().len() == 11);
            return true;
        }
        i += 1;
    }
    assert(sensitive_hints().len() == 11);
    false
}

/// The redacted form of a row.
pub open spec fn redact_view(r: KeyValueRow) -> (Seq<char>, bool, Seq<char>, Seq<char>) {
    if key_is_sensitive(r.key@) {
        (r.id@, r.enabled, r.key@, redacted())
    } else {
        row_view(r)
    }
}

/// Rows with the values of sensitive keys replaced by `***`.
pub fn redact_rows(rows: &[KeyValueRow]) -> (r: Vec<KeyValueRow>)
    ensures
        r@.len() == rows@.len(),
        forall|i: int| 0 <= i < rows@.len() ==> row_view(#[trigger] r@[i]) == redact_view(rows@[i]),
{
    let mut r: Vec<KeyValueRow> = Vec::new();
    for i in 0..rows.len()
        invariant
            r@.len() == i,
            forall|j: int| 0 <= j < i ==> row_view(#[trigger] r@[j]) == redact_view(rows@[j]),
    {
        let row = &rows[i];
        if is_sensitive_key(row.key.as_str()) {
            r.push(KeyValueRow {
                id: row.id.clone(),
                enabled: row.enabled,
                key: row.key.clone(),
                value: String::from_str("***"),
            });
        } else {
            r.push(row.copy());
        }
    }
    r
}

/// A snapshot whose headers and query rows are redacted; everything else is kept.
pub fn redact_snapshot(snapshot: &RequestSnapshot) -> (r: RequestSnapshot)
    ensures
        r.method@ == snapshot.method@,
        r.url@ == snapshot.url@,
        r.headers@.len() == snapshot.headers@.len(),
        forall|i: int| 0 <= i < snapshot.headers@.len() ==> row_view(#[trigger] r.headers@[i]) == redact_view(snapshot.headers@[i]),
        r.query@.len() == snapshot.query@.len(),
        forall|i: int| 0 <= i < snapshot.query@.len() ==> row_view(#[trigger] r.query@[i]) == redact_view(snapshot.query@[i]),
        r.body.kind == snapshot.body.kind,
        r.body.text@ == snapshot.body.text@,
        rows_view(r.body.form@) == rows_view(snapshot.body.form@),
        r.timeout_ms == snapshot.timeout_ms,
        opt_view(r.environment_name) == opt_view(snapshot.environment_name),
{
    RequestSnapshot {
        method: snapshot.method.clone(),
        url: snapshot.url.clone(),
        query: redact_rows(snapshot.query.as_slice()),
        headers: redact_rows(snapshot.headers.as_slice()),
        body: RequestBody {
            kind: snapshot.body.kind,
            text: snapshot.body.text.clone(),
            form: copy_rows(snapshot.body.form.as_slice()),
        },
        timeout_ms: snapshot.timeout_ms,
        environment_name: copy_opt_string(&snapshot.environment_name),
    }
}

/// Bytes of the UTF-8 encoding of `s`.
pub open spec fn byte_len(s: Seq<char>) -> nat {
    encode_utf8(s).len()
}

proof fn lemma_encode_push(s: Seq<char>, c: char)
    ensures
        encode_utf8(s.push(c)) == encode_utf8(s) + encode_scalar(c as u32),
    decreases s.len(),
{
    if s.len() == 0 {
        assert(s.push(c).drop_first() =~= Seq::<char>::empty());
        assert(encode_utf8(Seq::<char>::empty()) =~= Seq::<u8>::empty());
        assert(encode_utf8(s.push(c)) =~= encode_scalar(c as u32) + encode_utf8(Seq::<char>::empty()));
        assert(encode_utf8(s) =~= Seq::<u8>::empty());
        assert(encode_utf8(s.push(c)) =~= encode_utf8(s) + encode_scalar(c as u32));
    } else {
        lemma_encode_push(s.drop_first(), c);
        assert(s.push(c).drop_first() =~= s.drop_first().push(c));
        assert(encode_utf8(s.push(c)) =~= encode_utf8(s) + encode_scalar(c as u32));
    }
}

/// Bytes that `c` takes in UTF-8.
fn utf8_width(c: char) -> (r: usize)
    ensures
        r == encode_scalar(c as u32).len(),
        1 <= r <= 4,
{
    proof {
        char_is_scalar(c);
    }
    let v = c as u32;
    if v < 0x80 {
        1
    } else if v < 0x800 {
        2
    } else if v < 0x10000 {
        3
    } else {
        4
    }
}

/// A body cut to at most `MAX_HISTORY_BODY_BYTES` bytes at a character boundary, and
/// whether anything was cut.
pub fn truncate_body(body: &str) -> (r: (String, bool))
    ensures
        byte_len(body@) <= MAX_HISTORY_BODY_BYTES ==> r.0@ == body@ && !r.1,
        byte_len(body@) > MAX_HISTORY_BODY_BYTES ==> r.1 && r.0@.len() < body@.len() && r.0@
            == body@.take(r.0@.len() as int) && byte_len(r.0@) <= MAX_HISTORY_BODY_BYTES
            && byte_len(body@.take(r.0@.len() as int + 1)) > MAX_HISTORY_BODY_BYTES,
{
    let b = chars_of(body);
    let mut used: usize = 0;
    let mut i: usize = 0;
    while i < b.len()
        invariant
            b@ == body@,
            i <= b@.len(),
            used == byte_len(b@.take(i as int)),
            used <= MAX_HISTORY_BODY_BYTES,
        decreases b@.len() - i,
    {
        let w = utf8_width(b[i]);
        proof {
            lemma_encode_push(b@.take(i as int), b@[i as int]);
            assert(b@.take(i as int).push(b@[i as int]) =~= b@.take(i + 1));
        }
        if used + w > MAX_HISTORY_BODY_BYTES {
            proof {
                lemma_byte_len_prefix_mono(b@, i as int + 1);
            }
            let cut = crate::text::slice_of(b.as_slice(), 0, i);
            return (string_of(cut.as_slice()), true);
        }
        used = used + w;
        i += 1;
    }
    assert(b@.take(b@.len() as int) =~= b@);
    (string_of(b.as_slice()), false)
}

proof fn lemma_byte_len_prefix_mono(s: Seq<char>, k: int)
    requires
        0 <= k <= s.len(),
    ensures
        byte_len(s.take(k)) <= byte_len(s),
    decreases s.len() - k,
{
    if k < s.len() {
        lemma_byte_len_prefix_mono(s, k + 1);
        lemma_encode_push(s.take(k), s[k]);
        assert(s.take(k).push(s[k]) =~= s.take(k + 1));
    } else {
        assert(s.take(k) =~= s);
    }
}

/// `s` trimmed, ten random characters after `prefix` when that leaves nothing.
pub open spec fn id_or_fresh(s: Seq<char>, prefix: Seq<char>, fresh_id: Seq<char>) -> Seq<char> {
    if trim(s).len() == 0 {
        prefix + fresh_id
    } else {
        s
    }
}

/// `r` is `history` as it is written: an `ahis_` id with `fresh_id` when it has none, `now`
/// when it has no time, the snapshot and response headers redacted, and the body preview cut
/// to the history limit; the preview counts as truncated when it already was or is cut now.
pub open spec fn is_prepared_record(r: ApiRequestHistory, history: ApiRequestHistory, now: i64, fresh_id: Seq<char>) -> bool {
    &&& r.id@ == id_or_fresh(history.id@, "ahis_"@, fresh_id)
    &&& r.executed_at == if history.executed_at == 0 { now } else { history.executed_at }
    &&& r.request_id@ == history.request_id@
    &&& opt_view(r.environment_name) == opt_view(history.environment_name)
    &&& r.status == history.status
    &&& r.status_code == history.status_code
    &&& r.duration_ms == history.duration_ms
    &&& opt_view(r.error_message) == opt_view(history.error_message)
    &&& r.request_snapshot.method@ == history.request_snapshot.method@
    &&& r.request_snapshot.url@ == history.request_snapshot.url@
    &&& r.request_snapshot.headers@.len() == history.request_snapshot.headers@.len()
    &&& forall|i: int| 0 <= i < history.request_snapshot.headers@.len() ==> row_view(#[trigger] r.request_snapshot.headers@[i])
        == redact_view(history.request_snapshot.headers@[i])
    &&& r.request_snapshot.query@.len() == history.request_snapshot.query@.len()
    &&& forall|i: int| 0 <= i < history.request_snapshot.query@.len() ==> row_view(#[trigger] r.request_snapshot.query@[i])
        == redact_view(history.request_snapshot.query@[i])
    &&& r.request_snapshot.body.kind == history.request_snapshot.body.kind
    &&& r.request_snapshot.body.text@ == history.request_snapshot.body.text@
    &&& rows_view(r.request_snapshot.body.form@) == rows_view(history.request_snapshot.body.form@)
    &&& r.request_snapshot.timeout_ms == history.request_snapshot.timeout_ms
    &&& opt_view(r.request_snapshot.environment_name) == opt_view(history.request_snapshot.environment_name)
    &&& r.response_headers@.len() == history.response_headers@.len()
    &&& forall|i: int| 0 <= i < history.response_headers@.len() ==> row_view(#[trigger] r.response_headers@[i])
        == redact_view(history.response_headers@[i])
    &&& byte_len(history.response_body_preview@) <= MAX_HISTORY_BODY_BYTES ==> r.response_body_preview@
        == history.response_body_preview@ && r.response_body_truncated == history.response_body_truncated
    &&& byte_len(history.response_body_preview@) > MAX_HISTORY_BODY_BYTES ==> r.response_body_truncated
        && r.response_body_preview@.len() < history.response_body_preview@.len()
        && r.response_body_preview@ == history.response_body_preview@.take(r.response_body_preview@.len() as int)
        && byte_len(r.response_body_preview@) <= MAX_HISTORY_BODY_BYTES
        && byte_len(history.response_body_preview@.take(r.response_body_preview@.len() as int + 1)) > MAX_HISTORY_BODY_BYTES
}

/// `history` as it is written.
pub fn prepare_history_record(history: &ApiRequestHistory, now: i64, fresh_id: &str) -> (r: ApiRequestHistory)
    ensures
        is_prepared_record(r, *history, now, fresh_id@),
{
    let id = if trimmed(chars_of(history.id.as_str()).as_slice()).len() == 0 {
        let mut out = chars_of("ahis_");
        crate::text::push_str(&mut out, fresh_id);
        string_of(out.as_slice())
    } else {
        history.id.clone()
    };
    let (preview, truncated) = truncate_body(history.response_body_preview.as_str());
    ApiRequestHistory {
        id,
        request_id: history.request_id.clone(),
        environment_name: copy_opt_string(&history.environment_name),
        request_snapshot: redact_snapshot(&history.request_snapshot),
        status: history.status,
        status_code: history.status_code,
        response_headers: redact_rows(history.response_headers.as_slice()),
        response_body_preview: preview,
        response_body_truncated: history.response_body_truncated || truncated,
        duration_ms: history.duration_ms,
        error_message: copy_opt_string(&history.error_message),
        executed_at: if history.executed_at == 0 { now } else { history.executed_at },
    }
}

/// The record of an execution, before it is written: the snapshot sent, tagged with the
/// environment it ran in, and what came back.
pub fn history_from_result(
    request_id: &str,
    environment_name: Option<String>,
    snapshot: &RequestSnapshot,
    result: &ExecutionResult,
) -> (r: ApiRequestHistory)
    ensures
        r.id@ == Seq::<char>::empty(),
        r.executed_at == 0,
        r.request_id@ == request_id@,
        opt_view(r.environment_name) == opt_view(environment_name),
        opt_view(r.request_snapshot.environment_name) == opt_view(environment_name),
        r.request_snapshot.method@ == snapshot.method@,
        r.request_snapshot.url@ == snapshot.url@,
        rows_view(r.request_snapshot.query@) == rows_view(snapshot.query@),
        rows_view(r.request_snapshot.headers@) == rows_view(snapshot.headers@),
        r.request_snapshot.body.kind == snapshot.body.kind,
        r.request_snapshot.body.text@ == snapshot.body.text@,
        rows_view(r.request_snapshot.body.form@) == rows_view(snapshot.body.form@),
        r.request_snapshot.timeout_ms == snapshot.timeout_ms,
        r.status == result.status,
        r.status_code == result.status_code,
        rows_view(r.response_headers@) == rows_view(result.response_headers@),
        r.response_body_preview@ == result.body_text@,
        r.response_body_truncated == result.is_oversized,
        r.duration_ms == result.duration_ms,
        opt_view(r.error_message) == opt_view(result.error_message),
{
    ApiRequestHistory {
        id: String::new(),
        request_id: string_of(chars_of(request_id).as_slice()),
        environment_name: copy_opt_string(&environment_name),
        request_snapshot: RequestSnapshot {
            method: snapshot.method.clone(),
            url: snapshot.url.clone(),
            query: copy_rows(snapshot.query.as_slice()),
            headers: copy_rows(snapshot.headers.as_slice()),
            body: RequestBody {
                kind: snapshot.body.kind,
                text: snapshot.body.text.clone(),
                form: copy_rows(snapshot.body.form.as_slice()),
            },
            timeout_ms: snapshot.timeout_ms,
            environment_name,
        },
        status: result.status,
        status_code: result.status_code,
        response_headers: copy_rows(result.response_headers.as_slice()),
        response_body_preview: result.body_text.clone(),
        response_body_truncated: result.is_oversized,
        duration_ms: result.duration_ms,
        error_message: copy_opt_string(&result.error_message),
        executed_at: 0,
    }
}

/// What an execution reports when its record could not be written; the response is kept.
pub fn history_error_message(error: &str) -> (r: String)
    ensures
        r@ == "响应已收到，但历史未保存: "@ + error@,
{
    let mut out = chars_of("响应已收到，但历史未保存: ");
    crate::text::push_str(&mut out, error);
    string_of(out.as_slice())
}

/// The id of an execution: the one given, trimmed, when it is not blank; else `aexe_` and
/// twelve random characters.
pub fn resolve_execution_id(provided: Option<&str>) -> (r: String)
    ensures
        match provided {
            Some(p) if trim(p@).len() > 0 => r@ == trim(p@),
            _ => r@.len() == 17 && r@.take(5) == "aexe_"@ && is_id_of_len(r@.skip(5), 12),
        },
{
    match provided {
        Some(p) => {
            let t = trimmed(chars_of(p).as_slice());
            if t.len() > 0 {
                return string_of(t.as_slice());
            }
        },
        None => {},
    }
    new_execution_id()
}

/// A fresh execution id: `aexe_` and twelve random characters.
pub fn new_execution_id() -> (r: String)
    ensures
        r@.len() == 17,
        r@.take(5) == "aexe_"@,
        is_id_of_len(r@.skip(5), 12),
{
    let id = random_id(12);
    let mut out = chars_of("aexe_");
    crate::text::push_str(&mut out, id.as_str());
    proof { reveal_strlit("aexe_"); }
    assert(out@.take(5) =~= "aexe_"@);
    assert(out@.skip(5) =~= id@);
    string_of(out.as_slice())
}

} // verus!
