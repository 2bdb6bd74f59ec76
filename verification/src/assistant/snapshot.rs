//! An agent's turn in a conversation: the request is built from the conversation's frozen
//! profile and its stored messages, never from the live profile.
use vstd::prelude::*;
use crate::assistant::chat::{ChatMessage, ChatRole};
use crate::assistant::target::{first_key, provider_ids, provider_views};
use crate::models::agent_conversation::{AgentConversation, AgentConversationMessage, ConversationView, MessageView};
use crate::models::model_config::{ProviderSetting};
use crate::numbers::{is_float_literal, u64_of, parse_u64, is_float_text};
use crate::store::keyed::seq_views;
use crate::text::{trim, trimmed, chars_of, push_str, string_of, eq_str, seq_eq};

verus! {

/// What an agent's turn sends: to whom, with which credentials, the earlier messages and
/// the prompt, and the sampling settings that could be read.
#[derive(Debug, Clone)]
pub struct SnapshotTurnPlan {
    pub api_key: String,
    pub base_url: String,
    pub model_id: String,
    pub history: Vec<ChatMessage>,
    pub prompt: String,
    /// Trimmed temperature text, when `f64::from_str` accepts it.
    pub temperature: Option<String>,
    pub max_tokens: Option<u64>,
}

pub open spec fn role_named(name: Seq<char>) -> Option<ChatRole> {
    if name == "user"@ {
        Some(ChatRole::User)
    } else if name == "assistant"@ {
        Some(ChatRole::Assistant)
    } else if name == "system"@ {
        Some(ChatRole::System)
    } else {
        None
    }
}

/// Number of user messages.
pub open spec fn user_count(h: Seq<MessageView>) -> nat
    decreases h.len(),
{
    if h.len() == 0 {
        0
    } else {
        user_count(h.drop_last()) + if h.last().role == "user"@ { 1nat } else { 0nat }
    }
}

/// The stored messages sent before the prompt: all with a known role, in order, except the
/// last user message, which is the prompt; `total` is the number of user messages.
pub open spec fn earlier_messages(h: Seq<MessageView>, total: nat) -> Seq<(ChatRole, Seq<char>)>
    decreases h.len(),
{
    if h.len() == 0 {
        Seq::empty()
    } else {
        let rest = earlier_messages(h.drop_last(), total);
        let m = h.last();
        if m.role == "user"@ && user_count(h) == total {
            rest
        } else {
            match role_named(m.role) {
                Some(r) => rest.push((r, m.content)),
                None => rest,
            }
        }
    }
}

/// The text of the last user message, empty when there is none.
pub open spec fn last_user_text(h: Seq<MessageView>) -> Seq<char>
    decreases h.len(),
{
    if h.len() == 0 {
        Seq::empty()
    } else if h.last().role == "user"@ {
        h.last().content
    } else {
        last_user_text(h.drop_last())
    }
}

pub open spec fn snapshot_history(c: ConversationView, h: Seq<MessageView>) -> Seq<(ChatRole, Seq<char>)> {
    (if trim(c.snapshot_system_prompt).len() > 0 {
        seq![(ChatRole::System, c.snapshot_system_prompt)]
    } else {
        Seq::empty()
    }) + earlier_messages(h, user_count(h))
}

/// A setting read leniently: kept when `f64::from_str` accepts its trimmed text.
pub open spec fn lenient_float(v: Seq<char>) -> Option<Seq<char>> {
    if trim(v).len() > 0 && is_float_literal(trim(v)) {
        Some(trim(v))
    } else {
        None
    }
}

/// A token limit read leniently: kept when `str::parse::<u64>` accepts its trimmed text.
pub open spec fn lenient_u64(v: Seq<char>) -> Option<u64> {
    if trim(v).len() > 0 {
        u64_of(trim(v))
    } else {
        None
    }
}

pub ghost struct TurnPlanView {
    pub api_key: Seq<char>,
    pub base_url: Seq<char>,
    pub model_id: Seq<char>,
    pub history: Seq<(ChatRole, Seq<char>)>,
    pub prompt: Seq<char>,
    pub temperature: Option<Seq<char>>,
    pub max_tokens: Option<u64>,
}

pub open spec fn chat_views(v: Seq<ChatMessage>) -> Seq<(ChatRole, Seq<char>)> {
    Seq::new(v.len(), |i: int| (v[i].role, v[i].content@))
}

pub open spec fn opt_text(v: Option<String>) -> Option<Seq<char>> {
    match v {
        Some(s) => Some(s@),
        None => None,
    }
}

impl View for SnapshotTurnPlan {
    type V = TurnPlanView;

    open spec fn view(&self) -> TurnPlanView {
        TurnPlanView {
            api_key: self.api_key@,
            base_url: self.base_url@,
            model_id: self.model_id@,
            history: chat_views(self.history@),
            prompt: self.prompt@,
            temperature: opt_text(self.temperature),
            max_tokens: self.max_tokens,
        }
    }
}

/// The turn for conversation `c` over its messages `h`, with the provider settings `p`:
/// the provider frozen in the conversation must be configured, enabled and credentialed,
/// and there must be a user message.
pub open spec fn snapshot_turn(c: ConversationView, p: Seq<ProviderSetting>, h: Seq<MessageView>) -> Result<TurnPlanView, Seq<char>> {
    let pv = provider_views(p);
    match first_key(provider_ids(pv), c.snapshot_provider_id) {
        None => Err("未找到 "@ + c.snapshot_provider_id + " 的模型服务配置，请先在设置中配置"@),
        Some(j) => if !pv[j].enabled {
            Err(pv[j].provider_id + " 已被禁用，请先启用后再对话"@)
        } else if trim(pv[j].api_key).len() == 0 {
            Err(pv[j].provider_id + " 的 API Key 不能为空"@)
        } else if trim(pv[j].base_url).len() == 0 {
            Err(pv[j].provider_id + " 的 Base URL 不能为空"@)
        } else if last_user_text(h).len() == 0 {
            Err("用户消息不能为空"@)
        } else {
            Ok(TurnPlanView {
                api_key: trim(pv[j].api_key),
                base_url: trim(pv[j].base_url),
                model_id: c.snapshot_model_id,
                history: snapshot_history(c, h),
                prompt: last_user_text(h),
                temperature: lenient_float(c.snapshot_temperature),
                max_tokens: lenient_u64(c.snapshot_max_tokens),
            })
        },
    }
}

fn provider_index(p: &[ProviderSetting], id: &str) -> (r: Option<usize>)
    ensures
        match r {
            Some(i) => first_key(provider_ids(provider_views(p@)), id@) == Some(i as int),
            None => first_key(provider_ids(provider_views(p@)), id@) is None,
        },
{
    let ghost ids = provider_ids(provider_views(p@));
    let k = chars_of(id);
    let mut i: usize = 0;
    while i < p.len()
        invariant
            i <= p.len(),
            k@ == id@,
            ids == provider_ids(provider_views(p@)),
            forall|j: int| 0 <= j < i ==> ids[j] != id@,
        decreases p.len() - i,
    {
        assert(ids[i as int] == p@[i as int].provider_id@);
        if seq_eq(chars_of(p[i].provider_id.as_str()).as_slice(), k.as_slice()) {
            proof { crate::assistant::target::lemma_first_key_unique(ids, id@, i as int); }
            return Some(i);
        }
        i += 1;
    }
    None
}

fn is_blank(s: &str) -> (r: bool)
    ensures
        r == (trim(s@).len() == 0),
{
    trimmed(chars_of(s).as_slice()).len() == 0
}

fn role_from(name: &str) -> (r: Option<ChatRole>)
    ensures
        r == role_named(name@),
{
    let n = chars_of(name);
    if eq_str(n.as_slice(), "user") {
        Some(ChatRole::User)
    } else if eq_str(n.as_slice(), "assistant") {
        Some(ChatRole::Assistant)
    } else if eq_str(n.as_slice(), "system") {
        Some(ChatRole::System)
    } else {
        None
    }
}

fn is_user(name: &str) -> (r: bool)
    ensures
        r == (name@ == "user"@),
{
    eq_str(chars_of(name).as_slice(), "user")
}

/// Plans an agent's turn from the conversation, the provider settings and the messages.
pub fn plan_snapshot_turn(
    conversation: &AgentConversation,
    provider_settings: &[ProviderSetting],
    history: &[AgentConversationMessage],
) -> (r: Result<SnapshotTurnPlan, String>)
    ensures
        match snapshot_turn(conversation@, provider_settings@, seq_views(history@)) {
            Ok(v) => r is Ok && r->Ok_0@ == v,
            Err(e) => r is Err && r->Err_0@ == e,
        },
{
    let ghost h = seq_views(history@);
    let j = match provider_index(provider_settings, conversation.snapshot_provider_id.as_str()) {
        Some(j) => j,
        None => {
            let mut out = chars_of("未找到 ");
            push_str(&mut out, conversation.snapshot_provider_id.as_str());
            push_str(&mut out, " 的模型服务配置，请先在设置中配置");
            return Err(string_of(out.as_slice()));
        },
    };
    let p = &provider_settings[j];
    assert(provider_views(provider_settings@)[j as int] == p@);
    if !p.enabled {
        let mut out = chars_of(p.provider_id.as_str());
        push_str(&mut out, " 已被禁用，请先启用后再对话");
        return Err(string_of(out.as_slice()));
    }
    if is_blank(p.api_key.as_str()) {
        let mut out = chars_of(p.provider_id.as_str());
        push_str(&mut out, " 的 API Key 不能为空");
        return Err(string_of(out.as_slice()));
    }
    if is_blank(p.base_url.as_str()) {
        let mut out = chars_of(p.provider_id.as_str());
        push_str(&mut out, " 的 Base URL 不能为空");
        return Err(string_of(out.as_slice()));
    }
    // Count the user messages and find the last one.
    let mut total: usize = 0;
    let mut last_user: Option<usize> = None;
    let mut i: usize = 0;
    assert(h.take(0) =~= Seq::<MessageView>::empty());
    while i < history.len()
        invariant
            i <= history@.len(),
            h == seq_views(history@),
            total as nat == user_count(h.take(i as int)),
            total <= i,
            match last_user {
                Some(k) => k < i && h[k as int].role == "user"@ && last_user_text(h.take(i as int)) == h[k as int].content,
                None => last_user_text(h.take(i as int)) == Seq::<char>::empty(),
            },
        decreases history@.len() - i,
    {
        assert(h.take(i + 1).drop_last() =~= h.take(i as int));
        assert(h.take(i + 1).last() == history@[i as int]@);
        if is_user(history[i].role.as_str()) {
            total += 1;
            last_user = Some(i);
        }
        i += 1;
    }
    assert(h.take(history@.len() as int) =~= h);
    let prompt = match last_user {
        Some(k) => history[k].content.clone(),
        None => String::new(),
    };
    if chars_of(prompt.as_str()).len() == 0 {
        return Err(String::from_str("用户消息不能为空"));
    }
    let mut messages: Vec<ChatMessage> = Vec::new();
    if !is_blank(conversation.snapshot_system_prompt.as_str()) {
        messages.push(ChatMessage { role: ChatRole::System, content: conversation.snapshot_system_prompt.clone() });
    }
    let ghost head = chat_views(messages@);
    assert(head =~= (if trim(conversation@.snapshot_system_prompt).len() > 0 {
        seq![(ChatRole::System, conversation@.snapshot_system_prompt)]
    } else {
        Seq::<(ChatRole, Seq<char>)>::empty()
    }));
    let mut seen: usize = 0;
    let mut i: usize = 0;
    assert(head =~= head + earlier_messages(h.take(0), total as nat));
    while i < history.len()
        invariant
            i <= history@.len(),
            h == seq_views(history@),
            total as nat == user_count(h),
            seen as nat == user_count(h.take(i as int)),
            seen <= i,
            chat_views(messages@) == head + earlier_messages(h.take(i as int), total as nat),
        decreases history@.len() - i,
    {
        let m = &history[i];
        assert(h.take(i + 1).drop_last() =~= h.take(i as int));
        assert(h.take(i + 1).last() == m@);
        let user = is_user(m.role.as_str());
        if user {
            seen += 1;
        }
        if !(user && seen == total) {
            match role_from(m.role.as_str()) {
                Some(role) => {
                    let ghost before = chat_views(messages@);
                    messages.push(ChatMessage { role, content: m.content.clone() });
                    assert(chat_views(messages@) =~= before.push((role, m@.content)));
                },
                None => {},
            }
        }
        i += 1;
    }
    assert(h.take(history@.len() as int) =~= h);
    let t = trimmed(chars_of(conversation.snapshot_temperature.as_str()).as_slice());
    let temperature = if t.len() > 0 && is_float_text(t.as_slice()) {
        Some(string_of(t.as_slice()))
    } else {
        None
    };
    let mt = trimmed(chars_of(conversation.snapshot_max_tokens.as_str()).as_slice());
    let max_tokens = if mt.len() > 0 {
        parse_u64(mt.as_slice())
    } else {
        None
    };
    Ok(SnapshotTurnPlan {
        api_key: string_of(trimmed(chars_of(p.api_key.as_str()).as_slice()).as_slice()),
        base_url: string_of(trimmed(chars_of(p.base_url.as_str()).as_slice()).as_slice()),
        model_id: conversation.snapshot_model_id.clone(),
        history: messages,
        prompt,
        temperature,
        max_tokens,
    })
}

} // verus!
