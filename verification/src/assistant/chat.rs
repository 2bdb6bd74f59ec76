//! Chatting with the default assistant model: the model to use, and the messages it is sent.
use vstd::prelude::*;
use crate::assistant::target::{
    lookup, lookup_model, lookup_failure_text, lookup_message, default_views, provider_views,
    first_key, default_keys, provider_ids, optional_float, optional_u64, parse_optional_float,
    parse_optional_u64, opt_text,
};
use crate::models::default_model::DefaultModelSetting;
use crate::models::model_config::ProviderSetting;
use crate::text::{trim, chars_of, trimmed, push_str, string_of, eq_str};

verus! {

/// A message of the conversation as the user interface sends it.
#[derive(Debug, Clone)]
pub struct ConversationMessageInput {
    pub role: String,
    pub content: String,
}

/// The model's answer.
#[derive(Debug, Clone)]
pub struct ConversationReply {
    pub content: String,
}

/// Who wrote a message.
#[derive(Debug, Clone, Copy, PartialEq, Eq, Structural)]
pub enum ChatRole {
    User,
    Assistant,
    System,
}

/// A message to send: its role and its trimmed, non-empty text.
#[derive(Debug, Clone)]
pub struct ChatMessage {
    pub role: ChatRole,
    pub content: String,
}

/// The model a chat goes to, and the sampling settings given for it.
#[derive(Debug, Clone)]
pub struct ChatTarget {
    pub model_id: String,
    pub api_key: String,
    pub base_url: String,
    /// Trimmed texts of floating-point settings, each accepted by `f64::from_str`.
    pub temperature: Option<String>,
    pub max_tokens: Option<u64>,
    pub top_p: Option<String>,
    pub presence_penalty: Option<String>,
    pub frequency_penalty: Option<String>,
}

pub ghost struct ChatTargetView {
    pub model_id: Seq<char>,
    pub api_key: Seq<char>,
    pub base_url: Seq<char>,
    pub temperature: Option<Seq<char>>,
    pub max_tokens: Option<u64>,
    pub top_p: Option<Seq<char>>,
    pub presence_penalty: Option<Seq<char>>,
    pub frequency_penalty: Option<Seq<char>>,
}

impl View for ChatTarget {
    type V = ChatTargetView;

    open spec fn view(&self) -> ChatTargetView {
        ChatTargetView {
            model_id: self.model_id@,
            api_key: self.api_key@,
            base_url: self.base_url@,
            temperature: opt_text(self.temperature),
            max_tokens: self.max_tokens,
            top_p: opt_text(self.top_p),
            presence_penalty: opt_text(self.presence_penalty),
            frequency_penalty: opt_text(self.frequency_penalty),
        }
    }
}

pub open spec fn missing_chat_default() -> Seq<char> {
    "请先在“默认模型”中配置默认模型"@
}

pub open spec fn chat_disabled_suffix() -> Seq<char> {
    " 已被禁用，请先启用后再对话"@
}

/// The four floating-point settings and the token limit, read in the order they are
/// checked: temperature, max_tokens, top_p, presence_penalty, frequency_penalty.
pub open spec fn chat_settings(d: crate::models::default_model::DefaultModelView) -> Result<
    (Option<Seq<char>>, Option<u64>, Option<Seq<char>>, Option<Seq<char>>, Option<Seq<char>>),
    Seq<char>,
> {
    match optional_float(d.temperature, "temperature"@) {
        Err(e) => Err(e),
        Ok(t) => match optional_u64(d.max_tokens, "max_tokens"@) {
            Err(e) => Err(e),
            Ok(m) => match optional_float(d.top_p, "top_p"@) {
                Err(e) => Err(e),
                Ok(p) => match optional_float(d.presence_penalty, "presence_penalty"@) {
                    Err(e) => Err(e),
                    Ok(pp) => match optional_float(d.frequency_penalty, "frequency_penalty"@) {
                        Err(e) => Err(e),
                        Ok(fp) => Ok((t, m, p, pp, fp)),
                    },
                },
            },
        },
    }
}

/// The chat target: the default model stored under `assistant`, with an enabled provider
/// that has an API key and a base URL, and well-formed sampling settings.
pub open spec fn chat_target(d: Seq<DefaultModelSetting>, p: Seq<ProviderSetting>) -> Result<ChatTargetView, Seq<char>> {
    let dv = default_views(d);
    let pv = provider_views(p);
    let key = "assistant"@;
    match lookup(dv, pv, key) {
        Err(f) => {
            let i = first_key(default_keys(dv), key)->Some_0;
            let j = first_key(provider_ids(pv), dv[i].provider_id)->Some_0;
            Err(lookup_message(f, dv[i].provider_id, pv[j].provider_id, missing_chat_default(), chat_disabled_suffix()))
        },
        Ok((i, j)) => match chat_settings(dv[i]) {
            Err(e) => Err(e),
            Ok((t, m, tp, pp, fp)) => Ok(ChatTargetView {
                model_id: dv[i].model_id,
                api_key: pv[j].api_key,
                base_url: pv[j].base_url,
                temperature: t,
                max_tokens: m,
                top_p: tp,
                presence_penalty: pp,
                frequency_penalty: fp,
            }),
        },
    }
}

/// Resolves the model the assistant chat goes to.
pub fn resolve_chat_target(
    default_settings: &[DefaultModelSetting],
    provider_settings: &[ProviderSetting],
) -> (r: Result<ChatTarget, String>)
    ensures
        match chat_target(default_settings@, provider_settings@) {
            Ok(t) => r is Ok && r->Ok_0@ == t,
            Err(e) => r is Err && r->Err_0@ == e,
        },
{
    proof { reveal_strlit("assistant"); }
    let (i, j) = match lookup_model(default_settings, provider_settings, "assistant") {
        Ok(found) => found,
        Err(f) => {
            return Err(
                lookup_failure_text(
                    default_settings,
                    provider_settings,
                    "assistant",
                    f,
                    "请先在“默认模型”中配置默认模型",
                    " 已被禁用，请先启用后再对话",
                ),
            );
        },
    };
    let d = &default_settings[i];
    let p = &provider_settings[j];
    assert(default_views(default_settings@)[i as int] == d@);
    assert(provider_views(provider_settings@)[j as int] == p@);
    let temperature = match parse_optional_float(d.temperature.as_str(), "temperature") {
        Ok(v) => v,
        Err(e) => {
            return Err(e);
        },
    };
    let max_tokens = match parse_optional_u64(d.max_tokens.as_str(), "max_tokens") {
        Ok(v) => v,
        Err(e) => {
            return Err(e);
        },
    };
    let top_p = match parse_optional_float(d.top_p.as_str(), "top_p") {
        Ok(v) => v,
        Err(e) => {
            return Err(e);
        },
    };
    let presence_penalty = match parse_optional_float(d.presence_penalty.as_str(), "presence_penalty") {
        Ok(v) => v,
        Err(e) => {
            return Err(e);
        },
    };
    let frequency_penalty = match parse_optional_float(d.frequency_penalty.as_str(), "frequency_penalty") {
        Ok(v) => v,
        Err(e) => {
            return Err(e);
        },
    };
    Ok(ChatTarget {
        model_id: d.model_id.clone(),
        api_key: p.api_key.clone(),
        base_url: p.base_url.clone(),
        temperature,
        max_tokens,
        top_p,
        presence_penalty,
        frequency_penalty,
    })
}

/// The role a role name stands for.
pub open spec fn role_of(name: Seq<char>) -> Option<ChatRole> {
    if name == "user"@ {
        Some(ChatRole::User)
    } else if name == "assistant"@ {
        Some(ChatRole::Assistant)
    } else if name == "system"@ {
        Some(ChatRole::System)
    } else {
        None
    }
}

pub open spec fn input_views(v: Seq<ConversationMessageInput>) -> Seq<(Seq<char>, Seq<char>)> {
    Seq::new(v.len(), |i: int| (v[i].role@, v[i].content@))
}

pub open spec fn message_views(v: Seq<ChatMessage>) -> Seq<(ChatRole, Seq<char>)> {
    Seq::new(v.len(), |i: int| (v[i].role, v[i].content@))
}

/// The messages kept, in order: blank ones are skipped, and the first non-blank message
/// with an unknown role is refused.
pub open spec fn kept_messages(ms: Seq<(Seq<char>, Seq<char>)>) -> Result<Seq<(ChatRole, Seq<char>)>, Seq<char>>
    decreases ms.len(),
{
    if ms.len() == 0 {
        Ok(Seq::empty())
    } else {
        match kept_messages(ms.drop_last()) {
            Err(e) => Err(e),
            Ok(acc) => {
                let (role, content) = ms.last();
                let t = trim(content);
                if t.len() == 0 {
                    Ok(acc)
                } else {
                    match role_of(role) {
                        None => Err("不支持的消息角色: "@ + role),
                        Some(r) => Ok(acc.push((r, t))),
                    }
                }
            },
        }
    }
}

/// The messages to send, or why there are none.
pub open spec fn chat_messages(ms: Seq<(Seq<char>, Seq<char>)>) -> Result<Seq<(ChatRole, Seq<char>)>, Seq<char>> {
    match kept_messages(ms) {
        Err(e) => Err(e),
        Ok(acc) => if acc.len() == 0 {
            Err("消息不能为空"@)
        } else {
            Ok(acc)
        },
    }
}

fn role_from_name(name: &str) -> (r: Option<ChatRole>)
    ensures
        r == role_of(name@),
{
    let n = chars_of(name);
    if eq_str(n.as_slice(), "user") {
        Some(ChatRole::User)
    } else if eq_str(n.as_slice(), "assistant") {
        Some(ChatRole::Assistant)
    } else if eq_str(n.as_slice(), "system") {
        Some(ChatRole::System)
    } else {
        None
    }
}

/// Turns the conversation into the messages to send.
pub fn build_chat_messages(messages: &[ConversationMessageInput]) -> (r: Result<Vec<ChatMessage>, String>)
    ensures
        match chat_messages(input_views(messages@)) {
            Ok(v) => r is Ok && message_views(r->Ok_0@) == v,
            Err(e) => r is Err && r->Err_0@ == e,
        },
{
    let ghost ms = input_views(messages@);
    let mut results: Vec<ChatMessage> = Vec::new();
    let mut i: usize = 0;
    assert(ms.take(0) =~= Seq::<(Seq<char>, Seq<char>)>::empty());
    assert(message_views(results@) =~= Seq::<(ChatRole, Seq<char>)>::empty());
    while i < messages.len()
        invariant
            i <= messages@.len(),
            ms == input_views(messages@),
            kept_messages(ms.take(i as int)) == Ok::<Seq<(ChatRole, Seq<char>)>, Seq<char>>(message_views(results@)),
        decreases messages@.len() - i,
    {
        let m = &messages[i];
        assert(ms.take(i + 1).drop_last() =~= ms.take(i as int));
        assert(ms.take(i + 1).last() == (m.role@, m.content@));
        let content = trimmed(chars_of(m.content.as_str()).as_slice());
        if content.len() > 0 {
            match role_from_name(m.role.as_str()) {
                None => {
                    let mut msg = chars_of("不支持的消息角色: ");
                    push_str(&mut msg, m.role.as_str());
                    proof {
                        lemma_kept_err_sticks(ms, (i + 1) as int);
                    }
                    return Err(string_of(msg.as_slice()));
                },
                Some(role) => {
                    let ghost before = results@;
                    results.push(ChatMessage { role, content: string_of(content.as_slice()) });
                    assert(message_views(results@) =~= message_views(before).push((role, content@)));
                },
            }
        }
        i += 1;
    }
    assert(ms.take(messages@.len() as int) =~= ms);
    if results.len() == 0 {
        return Err(String::from_str("消息不能为空"));
    }
    Ok(results)
}

/// An error on a prefix stays the error of the whole list.
pub proof fn lemma_kept_err_sticks(ms: Seq<(Seq<char>, Seq<char>)>, k: int)
    requires
        0 <= k <= ms.len(),
        kept_messages(ms.take(k)) is Err,
    ensures
        kept_messages(ms) == kept_messages(ms.take(k)),
    decreases ms.len() - k,
{
    if k < ms.len() {
        let t = ms.take(k + 1);
        assert(t.drop_last() =~= ms.take(k));
        lemma_kept_err_sticks(ms, k + 1);
    } else {
        assert(ms.take(k) =~= ms);
    }
}

/// What a chat request is made of: the earlier messages and the prompt.
#[derive(Debug, Clone)]
pub struct ChatRequestPlan {
    pub history: Vec<ChatMessage>,
    pub prompt: ChatMessage,
}

/// The request for a conversation: the last kept message is the prompt and must come from
/// the user; the history is the kept messages, at most one fewer than the conversation had.
pub open spec fn chat_request(ms: Seq<(Seq<char>, Seq<char>)>) -> Result<
    (Seq<(ChatRole, Seq<char>)>, (ChatRole, Seq<char>)),
    Seq<char>,
> {
    match chat_messages(ms) {
        Err(e) => Err(e),
        Ok(kept) => if kept.last().0 != ChatRole::User {
            Err("最后一条消息必须是用户消息"@)
        } else {
            let n = if ms.len() == 0 { 0 } else { ms.len() - 1 };
            let h = if n < kept.len() { n } else { kept.len() as int };
            Ok((kept.take(h), kept.last()))
        },
    }
}

/// Plans a chat request from the conversation.
pub fn plan_chat_request(messages: &[ConversationMessageInput]) -> (r: Result<ChatRequestPlan, String>)
    ensures
        match chat_request(input_views(messages@)) {
            Ok((h, p)) => r is Ok && message_views(r->Ok_0.history@) == h && (r->Ok_0.prompt.role, r->Ok_0.prompt.content@) == p,
            Err(e) => r is Err && r->Err_0@ == e,
        },
{
    let kept = match build_chat_messages(messages) {
        Ok(v) => v,
        Err(e) => {
            return Err(e);
        },
    };
    let last = kept.len() - 1;
    assert(message_views(kept@)[last as int] == (kept@[last as int].role, kept@[last as int].content@));
    if kept[last].role != ChatRole::User {
        return Err(String::from_str("最后一条消息必须是用户消息"));
    }
    let n: usize = if messages.len() == 0 { 0 } else { messages.len() - 1 };
    let h: usize = if n < kept.len() { n } else { kept.len() };
    let mut history: Vec<ChatMessage> = Vec::new();
    let mut k: usize = 0;
    while k < h
        invariant
            k <= h <= kept@.len(),
            history@.len() == k,
            forall|q: int| 0 <= q < k ==> #[trigger] history@[q].role == kept@[q].role && history@[q].content@ == kept@[q].content@,
        decreases h - k,
    {
        history.push(ChatMessage { role: kept[k].role, content: kept[k].content.clone() });
        k += 1;
    }
    assert(message_views(history@) =~= message_views(kept@).take(h as int));
    let prompt = ChatMessage { role: kept[last].role, content: kept[last].content.clone() };
    Ok(ChatRequestPlan { history, prompt })
}

} // verus!
