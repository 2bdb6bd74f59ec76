//! Conversations with agents and their messages. A conversation freezes the profile it was
//! started from; appending a message names an untitled conversation after it and marks the
//! conversation as updated.
use vstd::prelude::*;

use crate::models::agent_conversation::{AgentConversation, AgentConversationMessage, ConversationView, MessageView};
use crate::models::agent_profile::{AgentProfile, ProfileView};
use crate::repositories::agent_profile::pair_le_exec;
use crate::repositories::agent_profile::{pair_le, lemma_pair_total, lemma_pair_transitive};
use crate::repositories::common::{trimmed_string, or_fallback, normalize_optional_string, copy_strings, not_found_message, not_found_text};
use crate::repositories::conversation_title::{conversation_title, build_conversation_title};
use crate::order::{lex_le, lex_le_exec};
use crate::store::keyed::{Duplicate, KeyedStore, map_of, entry_views, seq_views, values_of};
use crate::store::ranked::{Ranked, sort_ranked, is_ranked_permutation};
use crate::store::stamp::{now_millis, short_id, is_short_id};
use crate::text::{trim, trimmed, chars_of, push_str, string_of, eq_str, seq_eq};

verus! {

impl Duplicate for AgentConversation {
    fn duplicate(&self) -> (r: AgentConversation) {
        AgentConversation {
            id: self.id.clone(),
            agent_profile_id: self.agent_profile_id.clone(),
            title: self.title.clone(),
            snapshot_version: self.snapshot_version,
            created_from_profile_updated_at: self.created_from_profile_updated_at,
            snapshot_agent_name: self.snapshot_agent_name.clone(),
            snapshot_provider_id: self.snapshot_provider_id.clone(),
            snapshot_model_id: self.snapshot_model_id.clone(),
            snapshot_temperature: self.snapshot_temperature.clone(),
            snapshot_max_tokens: self.snapshot_max_tokens.clone(),
            snapshot_system_prompt: self.snapshot_system_prompt.clone(),
            snapshot_enabled_mcp_service_ids: copy_strings(&self.snapshot_enabled_mcp_service_ids),
            snapshot_enabled_tool_keys: copy_strings(&self.snapshot_enabled_tool_keys),
            created_at: self.created_at,
            updated_at: self.updated_at,
        }
    }
}

impl Duplicate for AgentConversationMessage {
    fn duplicate(&self) -> (r: AgentConversationMessage) {
        AgentConversationMessage {
            id: self.id.clone(),
            conversation_id: self.conversation_id.clone(),
            role: self.role.clone(),
            content: self.content.clone(),
            status: self.status.clone(),
            created_at: self.created_at,
        }
    }
}

/// Conversations are listed newest first, then by title, then by id.
impl Ranked for AgentConversation {
    open spec fn rank_le(a: ConversationView, b: ConversationView) -> bool {
        a.updated_at > b.updated_at || (a.updated_at == b.updated_at && pair_le(a.title, a.id, b.title, b.id))
    }

    proof fn lemma_rank_total(a: ConversationView, b: ConversationView) {
        lemma_pair_total(a.title, a.id, b.title, b.id);
    }

    proof fn lemma_rank_transitive(a: ConversationView, b: ConversationView, c: ConversationView) {
        if a.updated_at == b.updated_at && b.updated_at == c.updated_at {
            lemma_pair_transitive(a.title, a.id, b.title, b.id, c.title, c.id);
        }
    }

    fn rank_le_exec(&self, other: &AgentConversation) -> (r: bool) {
        if self.updated_at != other.updated_at {
            return self.updated_at > other.updated_at;
        }
        pair_le_exec(
            chars_of(self.title.as_str()).as_slice(),
            chars_of(self.id.as_str()).as_slice(),
            chars_of(other.title.as_str()).as_slice(),
            chars_of(other.id.as_str()).as_slice(),
        )
    }
}

/// Messages are listed oldest first, then by id.
impl Ranked for AgentConversationMessage {
    open spec fn rank_le(a: MessageView, b: MessageView) -> bool {
        a.created_at < b.created_at || (a.created_at == b.created_at && lex_le(a.id, b.id))
    }

    proof fn lemma_rank_total(a: MessageView, b: MessageView) {
        crate::order::lemma_lex_total(a.id, b.id);
    }

    proof fn lemma_rank_transitive(a: MessageView, b: MessageView, c: MessageView) {
        if a.created_at == b.created_at && b.created_at == c.created_at {
            crate::order::lemma_lex_transitive(a.id, b.id, c.id);
        }
    }

    fn rank_le_exec(&self, other: &AgentConversationMessage) -> (r: bool) {
        if self.created_at != other.created_at {
            return self.created_at < other.created_at;
        }
        lex_le_exec(chars_of(self.id.as_str()).as_slice(), chars_of(other.id.as_str()).as_slice())
    }
}

/// The messages of one conversation, in stored order.
#[derive(Debug, Clone)]
pub struct MessageList {
    pub items: Vec<AgentConversationMessage>,
}

impl View for MessageList {
    type V = Seq<MessageView>;

    open spec fn view(&self) -> Seq<MessageView> {
        seq_views(self.items@)
    }
}

impl Duplicate for MessageList {
    fn duplicate(&self) -> (r: MessageList) {
        let mut items: Vec<AgentConversationMessage> = Vec::new();
        let mut i: usize = 0;
        while i < self.items.len()
            invariant
                i <= self.items@.len(),
                items@.len() == i,
                forall|j: int| 0 <= j < i ==> #[trigger] items@[j]@ == self.items@[j]@,
            decreases self.items@.len() - i,
        {
            items.push(self.items[i].duplicate());
            i += 1;
        }
        let r = MessageList { items };
        assert(r@ =~= self@);
        r
    }
}

/// The conversations started from agent `agent`, in stored order.
pub open spec fn of_agent(v: Seq<ConversationView>, agent: Seq<char>) -> Seq<ConversationView>
    decreases v.len(),
{
    if v.len() == 0 {
        Seq::empty()
    } else if v.last().agent_profile_id == agent {
        of_agent(v.drop_last(), agent).push(v.last())
    } else {
        of_agent(v.drop_last(), agent)
    }
}

/// A new conversation frozen on `p`; `now` is the creation time and `fresh_id` the random
/// part of its `conv_` id.
pub open spec fn conversation_from(p: ProfileView, now: i64, fresh_id: Seq<char>) -> ConversationView {
    ConversationView {
        id: "conv_"@ + fresh_id,
        agent_profile_id: p.id,
        title: "新对话"@,
        snapshot_version: 1,
        created_from_profile_updated_at: p.updated_at,
        snapshot_agent_name: p.name,
        snapshot_provider_id: p.provider_id,
        snapshot_model_id: p.model_id,
        snapshot_temperature: p.temperature,
        snapshot_max_tokens: p.max_tokens,
        snapshot_system_prompt: p.system_prompt,
        snapshot_enabled_mcp_service_ids: p.enabled_mcp_service_ids,
        snapshot_enabled_tool_keys: p.enabled_tool_keys,
        created_at: now,
        updated_at: now,
    }
}

pub open spec fn is_role(role: Seq<char>) -> bool {
    role == "user"@ || role == "assistant"@ || role == "system"@
}

/// The message as stored: fields trimmed, an id `msg_` and `fresh_id` when none is given,
/// status `done` when blank, and `now` when no creation time is given.
pub open spec fn normalized_message(m: MessageView, now: i64, fresh_id: Seq<char>) -> Result<MessageView, Seq<char>> {
    if trim(m.conversation_id).len() == 0 {
        Err("conversation_id 不能为空"@)
    } else if !is_role(trim(m.role)) {
        Err("不支持的消息角色: "@ + trim(m.role))
    } else if trim(m.content).len() == 0 {
        Err("消息内容不能为空"@)
    } else {
        Ok(MessageView {
            id: if trim(m.id).len() == 0 { "msg_"@ + fresh_id } else { trim(m.id) },
            conversation_id: trim(m.conversation_id),
            role: trim(m.role),
            content: trim(m.content),
            status: or_fallback(m.status, "done"@),
            created_at: if m.created_at > 0 { m.created_at } else { now },
        })
    }
}

fn is_blank(s: &str) -> (r: bool)
    ensures
        r == (trim(s@).len() == 0),
{
    trimmed(chars_of(s).as_slice()).len() == 0
}

/// Validates and normalizes a message; `now` and `fresh_id` stand for the clock and the
/// random part of a new id.
pub fn normalize_message(message: &AgentConversationMessage, now: i64, fresh_id: &str) -> (r: Result<
    AgentConversationMessage,
    String,
>)
    ensures
        match normalized_message(message@, now, fresh_id@) {
            Ok(v) => r is Ok && r->Ok_0@ == v,
            Err(e) => r is Err && r->Err_0@ == e,
        },
{
    if is_blank(message.conversation_id.as_str()) {
        return Err(String::from_str("conversation_id 不能为空"));
    }
    let role = trimmed(chars_of(message.role.as_str()).as_slice());
    proof {
        reveal_strlit("user");
        reveal_strlit("assistant");
        reveal_strlit("system");
    }
    if !(eq_str(role.as_slice(), "user") || eq_str(role.as_slice(), "assistant") || eq_str(
        role.as_slice(),
        "system",
    )) {
        let mut out = chars_of("不支持的消息角色: ");
        crate::text::push_all(&mut out, role.as_slice());
        return Err(string_of(out.as_slice()));
    }
    if is_blank(message.content.as_str()) {
        return Err(String::from_str("消息内容不能为空"));
    }
    let id = if is_blank(message.id.as_str()) {
        let mut out = chars_of("msg_");
        push_str(&mut out, fresh_id);
        string_of(out.as_slice())
    } else {
        trimmed_string(message.id.as_str())
    };
    Ok(AgentConversationMessage {
        id,
        conversation_id: trimmed_string(message.conversation_id.as_str()),
        role: string_of(role.as_slice()),
        content: trimmed_string(message.content.as_str()),
        status: normalize_optional_string(message.status.as_str(), "done"),
        created_at: if message.created_at > 0 { message.created_at } else { now },
    })
}

/// The conversation after a message with `content` was added at `now`: an untitled one
/// takes its title from the message, and it is marked as updated.
pub open spec fn touched(c: ConversationView, content: Seq<char>, now: i64) -> ConversationView {
    ConversationView {
        title: if c.title == "新对话"@ && trim(content).len() > 0 {
            conversation_title(content)
        } else {
            c.title
        },
        updated_at: now,
        ..c
    }
}

/// The stored messages of a conversation, none when it has no entry.
pub open spec fn messages_of(m: Map<Seq<char>, Seq<MessageView>>, id: Seq<char>) -> Seq<MessageView> {
    if m.contains_key(id) {
        m[id]
    } else {
        Seq::empty()
    }
}

/// Conversations under their ids, and the messages of each.
pub struct AgentConversationRepository {
    conversation_cache: KeyedStore<AgentConversation>,
    message_cache: KeyedStore<MessageList>,
}

impl AgentConversationRepository {
    pub closed spec fn wf(&self) -> bool {
        self.conversation_cache.wf() && self.message_cache.wf()
    }

    /// The stored conversations, by key.
    pub closed spec fn conversations(&self) -> Map<Seq<char>, ConversationView> {
        self.conversation_cache.map()
    }

    /// The stored conversations, in stored order.
    pub closed spec fn conversation_entries(&self) -> Seq<(Seq<char>, ConversationView)> {
        self.conversation_cache.entries()
    }

    /// The stored messages, by conversation key.
    pub closed spec fn messages(&self) -> Map<Seq<char>, Seq<MessageView>> {
        self.message_cache.map()
    }

    /// A repository over the conversations and message lists read from the store.
    pub fn new(conversations: Vec<(String, AgentConversation)>, messages: Vec<(String, MessageList)>) -> (r: Self)
        ensures
            r.wf(),
            r.conversations() == map_of(entry_views(conversations@)),
            r.messages() == map_of(entry_views(messages@)),
    {
        AgentConversationRepository {
            conversation_cache: KeyedStore::from_entries(conversations),
            message_cache: KeyedStore::from_entries(messages),
        }
    }

    /// The conversation entries to write back to the store.
    pub fn conversation_snapshot(&self) -> (r: Vec<(String, AgentConversation)>)
        requires
            self.wf(),
        ensures
            map_of(entry_views(r@)) == self.conversations(),
    {
        self.conversation_cache.pairs()
    }

    /// The message entries to write back to the store.
    pub fn message_snapshot(&self) -> (r: Vec<(String, MessageList)>)
        requires
            self.wf(),
        ensures
            map_of(entry_views(r@)) == self.messages(),
    {
        self.message_cache.pairs()
    }

    /// The conversations started from agent `agent_profile_id`, newest first.
    pub fn list_by_agent(&self, agent_profile_id: &str) -> (r: Result<Vec<AgentConversation>, String>)
        requires
            self.wf(),
        ensures
            r is Ok,
            is_ranked_permutation::<AgentConversation>(
                of_agent(values_of(self.conversation_entries()), agent_profile_id@),
                seq_views(r->Ok_0@),
            ),
    {
        let all = self.conversation_cache.values();
        let ghost vals = values_of(self.conversation_entries());
        let agent = chars_of(agent_profile_id);
        let mut picked: Vec<AgentConversation> = Vec::new();
        let mut rest = all;
        let ghost full = seq_views(rest@);
        assert(full.take(0) =~= Seq::<ConversationView>::empty());
        assert(seq_views(picked@) =~= Seq::<ConversationView>::empty());
        let n = rest.len();
        let mut k: usize = 0;
        assert(seq_views(rest@) =~= full.skip(0));
        while k < n
            invariant
                k <= n,
                n == full.len(),
                full == vals,
                agent@ == agent_profile_id@,
                seq_views(rest@) == full.skip(k as int),
                seq_views(picked@) == of_agent(full.take(k as int), agent_profile_id@),
            decreases n - k,
        {
            let ghost before_rest = rest@;
            assert(seq_views(before_rest).len() == before_rest.len());
            let c = rest.remove(0);
            assert(c@ == seq_views(before_rest)[0]);
            assert(c@ == full[k as int]);
            assert forall|q: int| 0 <= q < rest@.len() implies #[trigger] seq_views(rest@)[q] == full.skip(k + 1)[q] by {
                assert(rest@[q] == before_rest[q + 1]);
                assert(seq_views(before_rest)[q + 1] == full.skip(k as int)[q + 1]);
            }
            assert(seq_views(rest@) =~= full.skip(k + 1));
            assert(full.take(k + 1).drop_last() =~= full.take(k as int));
            let here = chars_of(c.agent_profile_id.as_str());
            if seq_eq(here.as_slice(), agent.as_slice()) {
                let ghost before = seq_views(picked@);
                picked.push(c);
                assert(seq_views(picked@) =~= before.push(full[k as int]));
            }
            k += 1;
        }
        assert(full.take(n as int) =~= full);
        Ok(sort_ranked(picked))
    }

    /// All conversations, newest first, cut to `limit` when one is given.
    pub fn list_recent(&self, limit: Option<usize>) -> (r: Result<Vec<AgentConversation>, String>)
        requires
            self.wf(),
        ensures
            r is Ok,
            exists|sorted: Seq<ConversationView>|
                #[trigger] is_ranked_permutation::<AgentConversation>(values_of(self.conversation_entries()), sorted)
                    && seq_views(r->Ok_0@) == match limit {
                    Some(n) => if n < sorted.len() { sorted.take(n as int) } else { sorted },
                    None => sorted,
                },
    {
        let all = self.conversation_cache.values();
        let mut sorted = sort_ranked(all);
        let ghost full = seq_views(sorted@);
        assert(is_ranked_permutation::<AgentConversation>(values_of(self.conversation_entries()), full));
        match limit {
            Some(n) => {
                let len = sorted.len();
                sorted.truncate(n);
                if n < len {
                    assert(seq_views(sorted@) =~= full.take(n as int));
                } else {
                    assert(seq_views(sorted@) =~= full);
                }
            },
            None => {},
        }
        Ok(sorted)
    }

    /// The conversation stored under `conversation_id`.
    pub fn get(&self, conversation_id: &str) -> (r: Result<Option<AgentConversation>, String>)
        requires
            self.wf(),
        ensures
            r is Ok,
            match r->Ok_0 {
                Some(c) => self.conversations().contains_key(conversation_id@) && c@ == self.conversations()[conversation_id@],
                None => !self.conversations().contains_key(conversation_id@),
            },
    {
        match self.conversation_cache.get(conversation_id) {
            Some(c) => Ok(Some(c.duplicate())),
            None => Ok(None),
        }
    }

    /// Starts a conversation frozen on `profile`, at `now`, with `conv_` and `fresh_id` as
    /// its id; it gets an empty message list unless one is stored under that id.
    pub fn create_from_profile_with(&mut self, profile: &AgentProfile, now: i64, fresh_id: &str) -> (r: Result<AgentConversation, String>)
        requires
            old(self).wf(),
        ensures
            final(self).wf(),
            r is Ok,
            r->Ok_0@ == conversation_from(profile@, now, fresh_id@),
            final(self).conversations() == old(self).conversations().insert(r->Ok_0@.id, r->Ok_0@),
            final(self).messages() == if old(self).messages().contains_key(r->Ok_0@.id) {
                old(self).messages()
            } else {
                old(self).messages().insert(r->Ok_0@.id, Seq::empty())
            },
    {
        let mut id = chars_of("conv_");
        push_str(&mut id, fresh_id);
        let id = string_of(id.as_slice());
        let conversation = AgentConversation {
            id: id.clone(),
            agent_profile_id: profile.id.clone(),
            title: String::from_str("新对话"),
            snapshot_version: 1,
            created_from_profile_updated_at: profile.updated_at,
            snapshot_agent_name: profile.name.clone(),
            snapshot_provider_id: profile.provider_id.clone(),
            snapshot_model_id: profile.model_id.clone(),
            snapshot_temperature: profile.temperature.clone(),
            snapshot_max_tokens: profile.max_tokens.clone(),
            snapshot_system_prompt: profile.system_prompt.clone(),
            snapshot_enabled_mcp_service_ids: copy_strings(&profile.enabled_mcp_service_ids),
            snapshot_enabled_tool_keys: copy_strings(&profile.enabled_tool_keys),
            created_at: now,
            updated_at: now,
        };
        let out = conversation.duplicate();
        self.conversation_cache.insert(id.clone(), conversation);
        if !self.message_cache.contains(id.as_str()) {
            let empty = MessageList { items: Vec::new() };
            assert(empty@ =~= Seq::<MessageView>::empty());
            self.message_cache.insert(id, empty);
        }
        Ok(out)
    }

    /// Starts a conversation frozen on `profile`, stamped with the current time and a
    /// `conv_` id with ten random characters.
    pub fn create_from_profile(&mut self, profile: &AgentProfile) -> (r: Result<AgentConversation, String>)
        requires
            old(self).wf(),
        ensures
            final(self).wf(),
            r is Ok,
            exists|now: i64, fresh: Seq<char>|
                is_short_id(fresh) && r->Ok_0@ == #[trigger] conversation_from(profile@, now, fresh),
            final(self).conversations() == old(self).conversations().insert(r->Ok_0@.id, r->Ok_0@),
            final(self).messages() == if old(self).messages().contains_key(r->Ok_0@.id) {
                old(self).messages()
            } else {
                old(self).messages().insert(r->Ok_0@.id, Seq::empty())
            },
    {
        let now = now_millis();
        let fresh = short_id();
        self.create_from_profile_with(profile, now, fresh.as_str())
    }

    /// Removes a conversation and its messages.
    pub fn delete(&mut self, conversation_id: &str) -> (r: Result<String, String>)
        requires
            old(self).wf(),
        ensures
            final(self).wf(),
            old(self).conversations().contains_key(conversation_id@) ==> r is Ok && r->Ok_0@ == conversation_id@
                && final(self).conversations() == old(self).conversations().remove(conversation_id@)
                && final(self).messages() == old(self).messages().remove(conversation_id@),
            !old(self).conversations().contains_key(conversation_id@) ==> r is Err && r->Err_0@
                == not_found_message(conversation_id@, "会话"@) && final(self).conversations()
                == old(self).conversations() && final(self).messages() == old(self).messages(),
    {
        match self.conversation_cache.remove(conversation_id) {
            Some(_) => {
                let _ = self.message_cache.remove(conversation_id);
                Ok(string_of(chars_of(conversation_id).as_slice()))
            },
            None => {
                assert(old(self).conversations().remove(conversation_id@) =~= old(self).conversations());
                Err(not_found_text(conversation_id, "会话"))
            },
        }
    }

    /// The messages of a conversation, oldest first.
    pub fn list_messages(&self, conversation_id: &str) -> (r: Result<Vec<AgentConversationMessage>, String>)
        requires
            self.wf(),
        ensures
            r is Ok,
            is_ranked_permutation::<AgentConversationMessage>(
                messages_of(self.messages(), conversation_id@),
                seq_views(r->Ok_0@),
            ),
    {
        let items: Vec<AgentConversationMessage> = match self.message_cache.get(conversation_id) {
            Some(list) => list.duplicate().items,
            None => {
                let v: Vec<AgentConversationMessage> = Vec::new();
                assert(seq_views(v@) =~= Seq::<MessageView>::empty());
                v
            },
        };
        Ok(sort_ranked(items))
    }

    /// Appends a message given the clock readings and the random part of a new id: `now`
    /// stamps a message without a creation time, `touch_now` marks the conversation.
    pub fn append_message_with(
        &mut self,
        message: &AgentConversationMessage,
        now: i64,
        fresh_id: &str,
        touch_now: i64,
    ) -> (r: Result<AgentConversationMessage, String>)
        requires
            old(self).wf(),
        ensures
            final(self).wf(),
            !old(self).conversations().contains_key(message@.conversation_id) ==> r is Err && r->Err_0@
                == not_found_message(message@.conversation_id, "会话"@) && final(self).conversations()
                == old(self).conversations() && final(self).messages() == old(self).messages(),
            old(self).conversations().contains_key(message@.conversation_id) ==> appended(
                old(self).conversations(),
                old(self).messages(),
                final(self).conversations(),
                final(self).messages(),
                message@,
                now,
                fresh_id@,
                touch_now,
                r,
            ),
    {
        if !self.conversation_cache.contains(message.conversation_id.as_str()) {
            return Err(not_found_text(message.conversation_id.as_str(), "会话"));
        }
        let normalized = match normalize_message(message, now, fresh_id) {
            Ok(m) => m,
            Err(e) => {
                return Err(e);
            },
        };
        let key = normalized.conversation_id.clone();
        let mut list = match self.message_cache.remove(key.as_str()) {
            Some(l) => l,
            None => {
                let l = MessageList { items: Vec::new() };
                assert(l@ =~= Seq::<MessageView>::empty());
                l
            },
        };
        let ghost before_list = list@;
        list.items.push(normalized.duplicate());
        assert(list@ =~= before_list.push(normalized@));
        self.message_cache.insert(key.clone(), list);
        assert(self.messages() =~= old(self).messages().insert(
            normalized@.conversation_id,
            messages_of(old(self).messages(), normalized@.conversation_id).push(normalized@),
        ));
        match self.conversation_cache.remove(key.as_str()) {
            None => {
                assert(self.conversations() =~= old(self).conversations());
                Err(not_found_text(key.as_str(), "会话"))
            },
            Some(mut c) => {
                let ghost c0 = c@;
                proof { reveal_strlit("新对话"); }
                let untitled = seq_eq(chars_of(c.title.as_str()).as_slice(), chars_of("新对话").as_slice());
                if untitled && !is_blank(normalized.content.as_str()) {
                    c.title = build_conversation_title(normalized.content.as_str());
                }
                c.updated_at = touch_now;
                assert(c@ == touched(c0, normalized@.content, touch_now));
                self.conversation_cache.insert(key, c);
                assert(self.conversations() =~= old(self).conversations().insert(
                    normalized@.conversation_id,
                    touched(old(self).conversations()[normalized@.conversation_id], normalized@.content, touch_now),
                ));
                Ok(normalized)
            },
        }
    }

    /// Appends a message, stamped with the current time; a message without an id gets
    /// `msg_` and ten random characters.
    pub fn append_message(&mut self, message: &AgentConversationMessage) -> (r: Result<AgentConversationMessage, String>)
        requires
            old(self).wf(),
        ensures
            final(self).wf(),
            !old(self).conversations().contains_key(message@.conversation_id) ==> r is Err && r->Err_0@
                == not_found_message(message@.conversation_id, "会话"@) && final(self).conversations()
                == old(self).conversations() && final(self).messages() == old(self).messages(),
            old(self).conversations().contains_key(message@.conversation_id) ==> exists|now: i64, fresh: Seq<char>, touch_now: i64|
                is_short_id(fresh) && #[trigger] appended(old(self).conversations(), old(self).messages(), final(self).conversations(), final(self).messages(), message@, now, fresh, touch_now, r),
    {
        let now = now_millis();
        let fresh = short_id();
        let touch_now = now_millis();
        let r = self.append_message_with(message, now, fresh.as_str(), touch_now);
        proof {
            if old(self).conversations().contains_key(message@.conversation_id) {
                assert(appended(old(self).conversations(), old(self).messages(), self.conversations(), self.messages(), message@, now, fresh@, touch_now, r));
            }
        }
        r
    }

    /// Appends a user message with status `done`.
    pub fn append_user_message(&mut self, conversation_id: &str, content: &str) -> (r: Result<AgentConversationMessage, String>)
        requires
            old(self).wf(),
        ensures
            final(self).wf(),
            !old(self).conversations().contains_key(conversation_id@) ==> r is Err && final(self).conversations()
                == old(self).conversations() && final(self).messages() == old(self).messages(),
            old(self).conversations().contains_key(conversation_id@) ==> exists|now: i64, fresh: Seq<char>, touch_now: i64|
                is_short_id(fresh) && #[trigger] appended(old(self).conversations(), old(self).messages(), final(self).conversations(), final(self).messages(), MessageView {
                    id: Seq::empty(),
                    conversation_id: conversation_id@,
                    role: "user"@,
                    content: content@,
                    status: "done"@,
                    created_at: 0,
                }, now, fresh, touch_now, r),
    {
        let message = AgentConversationMessage {
            id: String::new(),
            conversation_id: string_of(chars_of(conversation_id).as_slice()),
            role: String::from_str("user"),
            content: string_of(chars_of(content).as_slice()),
            status: String::from_str("done"),
            created_at: 0,
        };
        self.append_message(&message)
    }

    /// Appends an assistant message with the given status.
    pub fn append_assistant_message(&mut self, conversation_id: &str, content: &str, status: &str) -> (r: Result<AgentConversationMessage, String>)
        requires
            old(self).wf(),
        ensures
            final(self).wf(),
            !old(self).conversations().contains_key(conversation_id@) ==> r is Err && final(self).conversations()
                == old(self).conversations() && final(self).messages() == old(self).messages(),
            old(self).conversations().contains_key(conversation_id@) ==> exists|now: i64, fresh: Seq<char>, touch_now: i64|
                is_short_id(fresh) && #[trigger] appended(old(self).conversations(), old(self).messages(), final(self).conversations(), final(self).messages(), MessageView {
                    id: Seq::empty(),
                    conversation_id: conversation_id@,
                    role: "assistant"@,
                    content: content@,
                    status: status@,
                    created_at: 0,
                }, now, fresh, touch_now, r),
    {
        let message = AgentConversationMessage {
            id: String::new(),
            conversation_id: string_of(chars_of(conversation_id).as_slice()),
            role: String::from_str("assistant"),
            content: string_of(chars_of(content).as_slice()),
            status: string_of(chars_of(status).as_slice()),
            created_at: 0,
        };
        self.append_message(&message)
    }

    /// Records the outcome of an agent's turn as an assistant message: the reply with
    /// status `done`, or the error text with status `error`.
    pub fn record_agent_reply(&mut self, conversation_id: &str, outcome: Result<String, String>) -> (r: Result<AgentConversationMessage, String>)
        requires
            old(self).wf(),
        ensures
            final(self).wf(),
            !old(self).conversations().contains_key(conversation_id@) ==> r is Err && final(self).conversations()
                == old(self).conversations() && final(self).messages() == old(self).messages(),
            old(self).conversations().contains_key(conversation_id@) ==> exists|now: i64, fresh: Seq<char>, touch_now: i64|
                is_short_id(fresh) && #[trigger] appended(old(self).conversations(), old(self).messages(), final(self).conversations(), final(self).messages(), MessageView {
                    id: Seq::empty(),
                    conversation_id: conversation_id@,
                    role: "assistant"@,
                    content: reply_content(outcome),
                    status: reply_status(outcome),
                    created_at: 0,
                }, now, fresh, touch_now, r),
    {
        match outcome {
            Ok(text) => self.append_assistant_message(conversation_id, text.as_str(), "done"),
            Err(error) => self.append_assistant_message(conversation_id, error.as_str(), "error"),
        }
    }
}

/// The text recorded for an agent's turn: the reply, or the error.
pub open spec fn reply_content(outcome: Result<String, String>) -> Seq<char> {
    match outcome {
        Ok(t) => t@,
        Err(e) => e@,
    }
}

/// The status recorded for an agent's turn.
pub open spec fn reply_status(outcome: Result<String, String>) -> Seq<char> {
    match outcome {
        Ok(_) => "done"@,
        Err(_) => "error"@,
    }
}

/// The outcome of appending `message` to a conversation that is stored.
pub open spec fn appended(
    conversations: Map<Seq<char>, ConversationView>,
    messages: Map<Seq<char>, Seq<MessageView>>,
    conversations_after: Map<Seq<char>, ConversationView>,
    messages_after: Map<Seq<char>, Seq<MessageView>>,
    message: MessageView,
    now: i64,
    fresh_id: Seq<char>,
    touch_now: i64,
    r: Result<AgentConversationMessage, String>,
) -> bool {
    match normalized_message(message, now, fresh_id) {
        Err(e) => r is Err && r->Err_0@ == e && conversations_after == conversations && messages_after == messages,
        Ok(m) => {
            &&& messages_after == messages.insert(m.conversation_id, messages_of(messages, m.conversation_id).push(m))
            &&& if conversations.contains_key(m.conversation_id) {
                &&& r is Ok && r->Ok_0@ == m
                &&& conversations_after == conversations.insert(
                    m.conversation_id,
                    touched(conversations[m.conversation_id], m.content, touch_now),
                )
            } else {
                &&& r is Err && r->Err_0@ == not_found_message(m.conversation_id, "会话"@)
                &&& conversations_after == conversations
            }
        },
    }
}

} // verus!

verus! {

/// A message that was appended is listed with its conversation, after the messages it had.
pub proof fn law_appended_message_is_listed(
    conversations: Map<Seq<char>, ConversationView>,
    messages: Map<Seq<char>, Seq<MessageView>>,
    conversations_after: Map<Seq<char>, ConversationView>,
    messages_after: Map<Seq<char>, Seq<MessageView>>,
    message: MessageView,
    now: i64,
    fresh_id: Seq<char>,
    touch_now: i64,
    r: Result<AgentConversationMessage, String>,
)
    requires
        appended(conversations, messages, conversations_after, messages_after, message, now, fresh_id, touch_now, r),
        r is Ok,
    ensures
        ({
            let m = r->Ok_0@;
            &&& messages_of(messages_after, m.conversation_id) == messages_of(messages, m.conversation_id).push(m)
            &&& messages_of(messages_after, m.conversation_id).contains(m)
            &&& conversations_after[m.conversation_id].updated_at == touch_now
        }),
{
    let m = r->Ok_0@;
    let l = messages_of(messages_after, m.conversation_id);
    assert(l[l.len() - 1] == m);
}

/// What the conversation lists after a message was appended: what it listed before, and the
/// new message once more, in the message order.
pub proof fn law_appended_message_in_listing(
    conversations: Map<Seq<char>, ConversationView>,
    messages: Map<Seq<char>, Seq<MessageView>>,
    conversations_after: Map<Seq<char>, ConversationView>,
    messages_after: Map<Seq<char>, Seq<MessageView>>,
    message: MessageView,
    now: i64,
    fresh_id: Seq<char>,
    touch_now: i64,
    r: Result<AgentConversationMessage, String>,
    listed_before: Seq<MessageView>,
    listed_after: Seq<MessageView>,
)
    requires
        appended(conversations, messages, conversations_after, messages_after, message, now, fresh_id, touch_now, r),
        r is Ok,
        is_ranked_permutation::<AgentConversationMessage>(messages_of(messages, r->Ok_0@.conversation_id), listed_before),
        is_ranked_permutation::<AgentConversationMessage>(
            messages_of(messages_after, r->Ok_0@.conversation_id),
            listed_after,
        ),
    ensures
        listed_after.to_multiset() == listed_before.to_multiset().insert(r->Ok_0@),
        listed_after.contains(r->Ok_0@),
        listed_after.len() == listed_before.len() + 1,
{
    broadcast use vstd::seq_lib::to_multiset_build, vstd::seq_lib::to_multiset_len, vstd::seq_lib::to_multiset_contains;
    let m = r->Ok_0@;
    let old_list = messages_of(messages, m.conversation_id);
    law_appended_message_is_listed(conversations, messages, conversations_after, messages_after, message, now, fresh_id, touch_now, r);
    assert(old_list.push(m).to_multiset() =~= old_list.to_multiset().insert(m));
    assert(listed_after.to_multiset().count(m) > 0);
    assert(listed_after.len() == listed_after.to_multiset().len());
    assert(listed_before.len() == listed_before.to_multiset().len());
}

/// A conversation that has a title keeps it when messages are added; only an untitled one
/// takes the first non-blank message's words.
pub proof fn law_titled_conversation_keeps_title(c: ConversationView, content: Seq<char>, now: i64)
    ensures
        c.title != "新对话"@ ==> touched(c, content, now).title == c.title,
        c.title == "新对话"@ && trim(content).len() > 0 ==> touched(c, content, now).title == conversation_title(content),
        touched(c, content, now).id == c.id,
        touched(c, content, now).snapshot_model_id == c.snapshot_model_id,
{
}

/// Storing a message that was just normalized again changes nothing, whatever the time and
/// the fresh id then, once it has a creation time after the epoch.
pub proof fn law_message_normalization_idempotent(m: MessageView, now: i64, fresh_id: Seq<char>, later: i64, other_id: Seq<char>)
    requires
        is_short_id(fresh_id),
        normalized_message(m, now, fresh_id) is Ok,
        normalized_message(m, now, fresh_id)->Ok_0.created_at > 0,
    ensures
        ({
            let v = normalized_message(m, now, fresh_id)->Ok_0;
            normalized_message(v, later, other_id) == Ok::<MessageView, Seq<char>>(v)
        }),
{
    crate::text::lemma_trim_idempotent(m.conversation_id);
    crate::text::lemma_trim_idempotent(m.role);
    crate::text::lemma_trim_idempotent(m.content);
    crate::text::lemma_trim_idempotent(m.id);
    reveal_strlit("done");
    reveal_strlit("msg_");
    assert(trim("done"@) == "done"@) by {
        crate::text::lemma_trim_start_skip("done"@, 0);
        assert("done"@.skip(0) =~= "done"@);
        crate::text::lemma_trim_end_take("done"@, 4);
        assert("done"@.take(4) =~= "done"@);
    }
    crate::repositories::common::lemma_or_fallback_idempotent(m.status, "done"@);
    if trim(m.id).len() == 0 {
        crate::repositories::agent_profile::lemma_fresh_id_trimmed("msg_"@, fresh_id);
    }
}

} // verus!
