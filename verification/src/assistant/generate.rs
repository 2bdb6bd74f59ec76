//! Generating a request body with a language model: the model to use, the prompt it is sent,
//! and how its answer is cleaned and checked as JSON.
use vstd::prelude::*;
use crate::api_http::url_ops::{json_error, json_syntax_error};
use crate::assistant::target::{lookup, lookup_model, lookup_failure_text, lookup_message, default_views, provider_views, first_key, default_keys, provider_ids, optional_float, optional_u64, parse_optional_float, parse_optional_u64, opt_text};
use crate::models::api_client::BODY_GENERATION_MODEL_KEY;
use crate::models::default_model::DefaultModelSetting;
use crate::models::model_config::ProviderSetting;
use crate::text::{trim, trim_end, join, views, has_prefix, occ_from, chars_of, trimmed, push_str, push_all, join_with, string_of, starts_with_str, find_occ, occurs_at};

verus! {

/// Instructions sent with every generation request.
pub const SYSTEM_PROMPT: &'static str = "你是接口请求体生成助手。根据用户提供的生成要求和参考内容，输出一个可直接作为 HTTP 请求体使用的 JSON。只输出 JSON 本身，不要输出解释文字，不要使用 Markdown 代码块。JSON 顶层可以是对象、数组或其他合法 JSON 值。";

/// What the user asks for; only what they supplied goes into the prompt.
#[derive(Debug, Clone)]
pub struct GenerateBodyInput {
    /// What to generate.
    pub prompt: String,
    /// Field notes, documentation excerpts or sample JSON.
    pub reference: String,
    /// The current body, only when the user opts to include it.
    pub current_body: Option<String>,
    pub request_name: String,
    pub method: String,
    /// The URL with its variables unexpanded.
    pub url: String,
}

pub ghost struct GenerateInputView {
    pub prompt: Seq<char>,
    pub reference: Seq<char>,
    pub current_body: Option<Seq<char>>,
    pub request_name: Seq<char>,
    pub method: Seq<char>,
    pub url: Seq<char>,
}

impl View for GenerateBodyInput {
    type V = GenerateInputView;

    open spec fn view(&self) -> GenerateInputView {
        GenerateInputView {
            prompt: self.prompt@,
            reference: self.reference@,
            current_body: opt_text(self.current_body),
            request_name: self.request_name@,
            method: self.method@,
            url: self.url@,
        }
    }
}

impl Default for GenerateBodyInput {
    fn default() -> (r: GenerateBodyInput)
        ensures
            r@ == (GenerateInputView {
                prompt: Seq::empty(),
                reference: Seq::empty(),
                current_body: None,
                request_name: Seq::empty(),
                method: Seq::empty(),
                url: Seq::empty(),
            }),
    {
        GenerateBodyInput {
            prompt: String::new(),
            reference: String::new(),
            current_body: None,
            request_name: String::new(),
            method: String::new(),
            url: String::new(),
        }
    }
}

/// A generated body with the result of its JSON check; the content is kept either way.
#[derive(Debug, Clone)]
pub struct GeneratedBodyCandidate {
    pub content: String,
    pub is_json_valid: bool,
    pub json_error: Option<String>,
    pub model_label: String,
}

pub ghost struct CandidateView {
    pub content: Seq<char>,
    pub is_json_valid: bool,
    pub json_error: Option<Seq<char>>,
    pub model_label: Seq<char>,
}

impl View for GeneratedBodyCandidate {
    type V = CandidateView;

    open spec fn view(&self) -> CandidateView {
        CandidateView {
            content: self.content@,
            is_json_valid: self.is_json_valid,
            json_error: opt_text(self.json_error),
            model_label: self.model_label@,
        }
    }
}

/// The model a generation request goes to.
#[derive(Debug, Clone, PartialEq)]
pub struct GenerationTarget {
    pub model_id: String,
    pub api_key: String,
    pub base_url: String,
    pub provider_id: String,
    /// Trimmed text of the temperature, which `f64::from_str` accepts.
    pub temperature: Option<String>,
    pub max_tokens: Option<u64>,
}

pub ghost struct TargetView {
    pub model_id: Seq<char>,
    pub api_key: Seq<char>,
    pub base_url: Seq<char>,
    pub provider_id: Seq<char>,
    pub temperature: Option<Seq<char>>,
    pub max_tokens: Option<u64>,
}

impl View for GenerationTarget {
    type V = TargetView;

    open spec fn view(&self) -> TargetView {
        TargetView {
            model_id: self.model_id@,
            api_key: self.api_key@,
            base_url: self.base_url@,
            provider_id: self.provider_id@,
            temperature: opt_text(self.temperature),
            max_tokens: self.max_tokens,
        }
    }
}

/// `{provider_id} / {model_id}`.
pub open spec fn target_label(t: TargetView) -> Seq<char> {
    t.provider_id + " / "@ + t.model_id
}

impl GenerationTarget {
    /// The label shown with a candidate.
    pub fn label(&self) -> (r: String)
        ensures
            r@ == target_label(self@),
    {
        let mut out = chars_of(self.provider_id.as_str());
        push_str(&mut out, " / ");
        push_str(&mut out, self.model_id.as_str());
        string_of(out.as_slice())
    }
}

pub open spec fn missing_generation_default() -> Seq<char> {
    "请先在“默认模型”中配置请求体生成模型，配置前仍可手动编辑和发送请求"@
}

pub open spec fn generation_disabled_suffix() -> Seq<char> {
    " 已被禁用，请先启用后再生成请求体"@
}

/// The target for body generation: the default model stored under its own key, never the
/// chat default, with an enabled provider that has an API key and a base URL.
pub open spec fn generation_target(
    d: Seq<DefaultModelSetting>,
    p: Seq<ProviderSetting>,
) -> Result<TargetView, Seq<char>> {
    let dv = default_views(d);
    let pv = provider_views(p);
    let key = BODY_GENERATION_MODEL_KEY@;
    match lookup(dv, pv, key) {
        Err(f) => {
            let i = first_key(default_keys(dv), key)->Some_0;
            let j = first_key(provider_ids(pv), dv[i].provider_id)->Some_0;
            Err(lookup_message(f, dv[i].provider_id, pv[j].provider_id, missing_generation_default(), generation_disabled_suffix()))
        },
        Ok((i, j)) => match optional_float(dv[i].temperature, "temperature"@) {
            Err(e) => Err(e),
            Ok(temperature) => match optional_u64(dv[i].max_tokens, "max_tokens"@) {
                Err(e) => Err(e),
                Ok(max_tokens) => Ok(TargetView {
                    model_id: dv[i].model_id,
                    api_key: pv[j].api_key,
                    base_url: pv[j].base_url,
                    provider_id: pv[j].provider_id,
                    temperature,
                    max_tokens,
                }),
            },
        },
    }
}

/// Body generation never falls back on another default model: without a setting under its
/// own key, it is refused, whatever else is configured.
pub proof fn law_generation_ignores_other_defaults(d: Seq<DefaultModelSetting>, p: Seq<ProviderSetting>)
    requires
        forall|i: int| 0 <= i < d.len() ==> #[trigger] d[i].key@ != BODY_GENERATION_MODEL_KEY@,
    ensures
        generation_target(d, p) == Err::<TargetView, Seq<char>>(missing_generation_default()),
{
    let keys = default_keys(default_views(d));
    assert forall|j: int| 0 <= j < keys.len() implies keys[j] != BODY_GENERATION_MODEL_KEY@ by {
        assert(keys[j] == d[j].key@);
    }
    crate::assistant::target::lemma_first_key_none(keys, BODY_GENERATION_MODEL_KEY@);
}

/// Resolves the model that generates request bodies.
pub fn resolve_generation_target(
    default_settings: &[DefaultModelSetting],
    provider_settings: &[ProviderSetting],
) -> (r: Result<GenerationTarget, String>)
    ensures
        match generation_target(default_settings@, provider_settings@) {
            Ok(t) => r is Ok && r->Ok_0@ == t,
            Err(e) => r is Err && r->Err_0@ == e,
        },
{
    let (i, j) = match lookup_model(default_settings, provider_settings, BODY_GENERATION_MODEL_KEY) {
        Ok(found) => found,
        Err(f) => {
            return Err(
                lookup_failure_text(
                    default_settings,
                    provider_settings,
                    BODY_GENERATION_MODEL_KEY,
                    f,
                    "请先在“默认模型”中配置请求体生成模型，配置前仍可手动编辑和发送请求",
                    " 已被禁用，请先启用后再生成请求体",
                ),
            );
        },
    };
    let d = &default_settings[i];
    let p = &provider_settings[j];
    assert(default_views(default_settings@)[i as int] == d@);
    assert(provider_views(provider_settings@)[j as int] == p@);
    let temperature = match parse_optional_float(d.temperature.as_str(), "temperature") {
        Ok(t) => t,
        Err(e) => {
            return Err(e);
        },
    };
    let max_tokens = match parse_optional_u64(d.max_tokens.as_str(), "max_tokens") {
        Ok(m) => m,
        Err(e) => {
            return Err(e);
        },
    };
    Ok(GenerationTarget {
        model_id: d.model_id.clone(),
        api_key: p.api_key.clone(),
        base_url: p.base_url.clone(),
        provider_id: p.provider_id.clone(),
        temperature,
        max_tokens,
    })
}

/// Lines describing the request: name, method and URL, each where given.
pub open spec fn meta_lines(name: Seq<char>, method: Seq<char>, url: Seq<char>) -> Seq<Seq<char>> {
    (if name.len() > 0 { seq!["名称: "@ + name] } else { Seq::empty() })
        + (if method.len() > 0 { seq!["方法: "@ + method] } else { Seq::empty() })
        + (if url.len() > 0 { seq!["地址: "@ + url] } else { Seq::empty() })
}

/// A section when its body is not empty.
pub open spec fn section_if(head: Seq<char>, body: Seq<char>) -> Seq<Seq<char>> {
    if body.len() > 0 {
        seq![head + body]
    } else {
        Seq::empty()
    }
}

pub open spec fn body_text(b: Option<Seq<char>>) -> Seq<char> {
    match b {
        Some(s) => trim(s),
        None => Seq::empty(),
    }
}

/// The sections of the prompt: request details, what to generate, the reference, the
/// current body where the user opted in, and the output rule. Headers, variable values and
/// responses are never part of it.
pub open spec fn prompt_sections(v: GenerateInputView) -> Seq<Seq<char>> {
    let meta = meta_lines(trim(v.request_name), trim(v.method), trim(v.url));
    (if meta.len() > 0 { seq!["## 接口信息\n"@ + join(meta, "\n"@)] } else { Seq::empty() })
        + section_if("## 生成要求\n"@, trim(v.prompt))
        + section_if("## 参考内容\n"@, trim(v.reference))
        + section_if("## 当前请求体\n"@, body_text(v.current_body))
        + seq!["## 输出要求\n只输出 JSON 本身。"@]
}

/// The prompt, or the refusal when neither a requirement nor a reference was given.
pub open spec fn generation_prompt(v: GenerateInputView) -> Result<Seq<char>, Seq<char>> {
    if trim(v.prompt).len() == 0 && trim(v.reference).len() == 0 {
        Err("请先填写生成要求或参考内容"@)
    } else {
        Ok(join(prompt_sections(v), "\n\n"@))
    }
}

fn push_line(lines: &mut Vec<Vec<char>>, head: &str, body: &[char])
    ensures
        views(final(lines)@) == views(old(lines)@).push(head@ + body@),
{
    let mut line = chars_of(head);
    push_all(&mut line, body);
    let ghost before = old(lines)@;
    lines.push(line);
    assert(views(lines@) =~= views(before).push(head@ + body@));
}

fn push_section_if(lines: &mut Vec<Vec<char>>, head: &str, body: &[char])
    ensures
        views(final(lines)@) == views(old(lines)@) + section_if(head@, body@),
{
    if body.len() > 0 {
        push_line(lines, head, body);
        assert(views(old(lines)@).push(head@ + body@) =~= views(old(lines)@) + section_if(head@, body@));
    } else {
        assert(views(old(lines)@) =~= views(old(lines)@) + section_if(head@, body@));
    }
}

fn trimmed_of(s: &str) -> (r: Vec<char>)
    ensures
        r@ == trim(s@),
{
    let c = chars_of(s);
    trimmed(c.as_slice())
}

/// Builds the prompt from what the user supplied.
pub fn build_generation_prompt(input: &GenerateBodyInput) -> (r: Result<String, String>)
    ensures
        match generation_prompt(input@) {
            Ok(p) => r is Ok && r->Ok_0@ == p,
            Err(e) => r is Err && r->Err_0@ == e,
        },
{
    let prompt = trimmed_of(input.prompt.as_str());
    let reference = trimmed_of(input.reference.as_str());
    if prompt.len() == 0 && reference.len() == 0 {
        return Err(String::from_str("请先填写生成要求或参考内容"));
    }
    let name = trimmed_of(input.request_name.as_str());
    let method = trimmed_of(input.method.as_str());
    let url = trimmed_of(input.url.as_str());
    let mut meta: Vec<Vec<char>> = Vec::new();
    assert(views(meta@) =~= Seq::<Seq<char>>::empty());
    push_section_if(&mut meta, "名称: ", name.as_slice());
    push_section_if(&mut meta, "方法: ", method.as_slice());
    push_section_if(&mut meta, "地址: ", url.as_slice());
    assert(views(meta@) =~= meta_lines(name@, method@, url@));
    let mut sections: Vec<Vec<char>> = Vec::new();
    assert(views(sections@) =~= Seq::<Seq<char>>::empty());
    if meta.len() > 0 {
        let joined = join_with(meta.as_slice(), "\n");
        push_line(&mut sections, "## 接口信息\n", joined.as_slice());
    }
    let ghost first = views(sections@);
    push_section_if(&mut sections, "## 生成要求\n", prompt.as_slice());
    push_section_if(&mut sections, "## 参考内容\n", reference.as_slice());
    let body: Vec<char> = match &input.current_body {
        Some(b) => trimmed_of(b.as_str()),
        None => Vec::new(),
    };
    assert(body@ == body_text(input@.current_body));
    push_section_if(&mut sections, "## 当前请求体\n", body.as_slice());
    let ghost before_last = views(sections@);
    let last = chars_of("## 输出要求\n只输出 JSON 本身。");
    let ghost prior = sections@;
    sections.push(last);
    assert(views(sections@) =~= before_last.push("## 输出要求\n只输出 JSON 本身。"@));
    assert(views(sections@) =~= prompt_sections(input@));
    let out = join_with(sections.as_slice(), "\n\n");
    Ok(string_of(out.as_slice()))
}

/// The candidate for `content` given the JSON check's outcome: `None` when it parsed, else
/// the parser's message.
pub open spec fn candidate(content: Seq<char>, label: Seq<char>, check: Option<Seq<char>>) -> CandidateView {
    match check {
        None => CandidateView { content, is_json_valid: true, json_error: None, model_label: label },
        Some(e) => CandidateView {
            content,
            is_json_valid: false,
            json_error: Some("JSON 语法错误: "@ + e),
            model_label: label,
        },
    }
}

/// Builds a candidate from the outcome of a JSON check.
pub fn candidate_from_check(content: &str, model_label: &str, check: Option<String>) -> (r:
    GeneratedBodyCandidate)
    ensures
        r@ == candidate(content@, model_label@, opt_text(check)),
{
    let c = string_of(chars_of(content).as_slice());
    let l = string_of(chars_of(model_label).as_slice());
    match check {
        None => GeneratedBodyCandidate { content: c, is_json_valid: true, json_error: None, model_label: l },
        Some(e) => {
            let mut m = chars_of("JSON 语法错误: ");
            push_str(&mut m, e.as_str());
            GeneratedBodyCandidate {
                content: c,
                is_json_valid: false,
                json_error: Some(string_of(m.as_slice())),
                model_label: l,
            }
        },
    }
}

/// Checks `content` as JSON (any value: object, array or scalar) and builds the candidate.
pub fn build_candidate(content: &str, model_label: &str) -> (r: GeneratedBodyCandidate)
    ensures
        r@ == candidate(content@, model_label@, json_error(content@)),
{
    let check = json_syntax_error(content);
    candidate_from_check(content, model_label, check)
}

/// `s` without its leading `c`s, as `str::trim_start_matches(c)`.
pub open spec fn strip_leading(s: Seq<char>, c: char) -> Seq<char>
    decreases s.len(),
{
    if s.len() > 0 && s[0] == c {
        strip_leading(s.drop_first(), c)
    } else {
        s
    }
}

/// `s` without its trailing `c`s, as `str::trim_end_matches(c)`.
pub open spec fn strip_trailing(s: Seq<char>, c: char) -> Seq<char>
    decreases s.len(),
{
    if s.len() > 0 && s.last() == c {
        strip_trailing(s.drop_last(), c)
    } else {
        s
    }
}

fn strip_leading_exec(s: &[char], c: char) -> (r: Vec<char>)
    ensures
        r@ == strip_leading(s@, c),
{
    let mut i: usize = 0;
    assert(s@.skip(0) =~= s@);
    while i < s.len() && s[i] == c
        invariant
            i <= s.len(),
            strip_leading(s@, c) == strip_leading(s@.skip(i as int), c),
        decreases s.len() - i,
    {
        assert(s@.skip(i as int).drop_first() =~= s@.skip(i + 1));
        i += 1;
    }
    crate::text::slice_of(s, i, s.len())
}

fn strip_trailing_exec(s: &[char], c: char) -> (r: Vec<char>)
    ensures
        r@ == strip_trailing(s@, c),
{
    let mut n: usize = s.len();
    assert(s@.take(n as int) =~= s@);
    while n > 0 && s[n - 1] == c
        invariant
            n <= s.len(),
            strip_trailing(s@, c) == strip_trailing(s@.take(n as int), c),
        decreases n,
    {
        assert(s@.take(n as int).drop_last() =~= s@.take(n - 1));
        n -= 1;
    }
    let r = crate::text::slice_of(s, 0, n);
    assert(r@ =~= s@.take(n as int));
    r
}

/// What is left of a model's answer once a Markdown code fence around it is removed; the
/// content itself is not changed.
pub open spec fn fence_stripped(raw: Seq<char>) -> Seq<char> {
    let t = trim(raw);
    if !has_prefix(t, "```"@) {
        t
    } else {
        let w = strip_leading(t, '`');
        match occ_from(w, seq!['\n'], 0) {
            None => t,
            Some(i) => trim_end(strip_trailing(trim_end(w.skip(i + 1)), '`')),
        }
    }
}

fn trim_end_exec(s: &[char]) -> (r: Vec<char>)
    ensures
        r@ == trim_end(s@),
{
    let mut n: usize = s.len();
    assert(s@.take(n as int) =~= s@);
    while n > 0 && crate::text::is_whitespace(s[n - 1])
        invariant
            n <= s.len(),
            trim_end(s@) == trim_end(s@.take(n as int)),
        decreases n,
    {
        assert(s@.take(n as int).drop_last() =~= s@.take(n - 1));
        n -= 1;
    }
    let r = crate::text::slice_of(s, 0, n);
    assert(r@ =~= s@.take(n as int));
    r
}

/// Removes a Markdown code fence around a model's answer.
pub fn strip_code_fence(raw: &str) -> (r: String)
    ensures
        r@ == fence_stripped(raw@),
{
    let t = trimmed_of(raw);
    proof { reveal_strlit("```"); }
    if !starts_with_str(t.as_slice(), "```") {
        return string_of(t.as_slice());
    }
    let w = strip_leading_exec(t.as_slice(), '`');
    let nl: Vec<char> = vec!['\n'];
    assert(nl@ =~= seq!['\n']);
    match find_occ(w.as_slice(), nl.as_slice(), 0) {
        None => string_of(t.as_slice()),
        Some(i) => {
            assert(occurs_at(w@, nl@, i as int));
            assert(nl@.len() == 1);
            assert(i < w.len());
            let body = crate::text::slice_of(w.as_slice(), i + 1, w.len());
            assert(body@ =~= w@.skip(i + 1));
            let a = trim_end_exec(body.as_slice());
            let b = strip_trailing_exec(a.as_slice(), '`');
            let c = trim_end_exec(b.as_slice());
            string_of(c.as_slice())
        },
    }
}

/// The text parts of a model's answer joined by newlines and trimmed; `None` when nothing
/// is left.
pub open spec fn reply_text(parts: Seq<Seq<char>>) -> Option<Seq<char>> {
    let t = trim(join(parts, "\n"@));
    if t.len() == 0 {
        None
    } else {
        Some(t)
    }
}

pub open spec fn string_seq_views(v: Seq<String>) -> Seq<Seq<char>> {
    Seq::new(v.len(), |i: int| v[i]@)
}

/// Joins the text parts of a model's answer.
pub fn join_reply_text(parts: &[String]) -> (r: Option<String>)
    ensures
        opt_text(r) == reply_text(string_seq_views(parts@)),
{
    let mut chunks: Vec<Vec<char>> = Vec::new();
    let mut i: usize = 0;
    while i < parts.len()
        invariant
            i <= parts@.len(),
            chunks@.len() == i,
            forall|k: int| 0 <= k < i ==> #[trigger] chunks@[k]@ == parts@[k]@,
        decreases parts@.len() - i,
    {
        let piece = chars_of(parts[i].as_str());
        chunks.push(piece);
        i += 1;
    }
    assert(views(chunks@) =~= string_seq_views(parts@));
    let joined = join_with(chunks.as_slice(), "\n");
    let t = trimmed(joined.as_slice());
    if t.len() == 0 {
        None
    } else {
        Some(string_of(t.as_slice()))
    }
}

} // verus!
