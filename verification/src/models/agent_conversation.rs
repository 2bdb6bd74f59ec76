//! A conversation with an agent, frozen on the profile it was started from, and its messages.
use vstd::prelude::*;
use crate::api_http::request_prep::string_views;

verus! {

/// A conversation; the `snapshot_*` fields copy the agent profile at creation time.
#[derive(Debug, Clone, PartialEq, Eq)]
pub struct AgentConversation {
    pub id: String,
    pub agent_profile_id: String,
    pub title: String,
    pub snapshot_version: u32,
    pub created_from_profile_updated_at: i64,
    pub snapshot_agent_name: String,
    pub snapshot_provider_id: String,
    pub snapshot_model_id: String,
    pub snapshot_temperature: String,
    pub snapshot_max_tokens: String,
    pub snapshot_system_prompt: String,
    pub snapshot_enabled_mcp_service_ids: Vec<String>,
    pub snapshot_enabled_tool_keys: Vec<String>,
    pub created_at: i64,
    pub updated_at: i64,
}

/// Plain content of a conversation.
pub ghost struct ConversationView {
    pub id: Seq<char>,
    pub agent_profile_id: Seq<char>,
    pub title: Seq<char>,
    pub snapshot_version: u32,
    pub created_from_profile_updated_at: i64,
    pub snapshot_agent_name: Seq<char>,
    pub snapshot_provider_id: Seq<char>,
    pub snapshot_model_id: Seq<char>,
    pub snapshot_temperature: Seq<char>,
    pub snapshot_max_tokens: Seq<char>,
    pub snapshot_system_prompt: Seq<char>,
    pub snapshot_enabled_mcp_service_ids: Seq<Seq<char>>,
    pub snapshot_enabled_tool_keys: Seq<Seq<char>>,
    pub created_at: i64,
    pub updated_at: i64,
}

impl View for AgentConversation {
    type V = ConversationView;

    open spec fn view(&self) -> ConversationView {
        ConversationView {
            id: self.id@,
            agent_profile_id: self.agent_profile_id@,
            title: self.title@,
            snapshot_version: self.snapshot_version,
            created_from_profile_updated_at: self.created_from_profile_updated_at,
            snapshot_agent_name: self.snapshot_agent_name@,
            snapshot_provider_id: self.snapshot_provider_id@,
            snapshot_model_id: self.snapshot_model_id@,
            snapshot_temperature: self.snapshot_temperature@,
            snapshot_max_tokens: self.snapshot_max_tokens@,
            snapshot_system_prompt: self.snapshot_system_prompt@,
            snapshot_enabled_mcp_service_ids: string_views(self.snapshot_enabled_mcp_service_ids@),
            snapshot_enabled_tool_keys: string_views(self.snapshot_enabled_tool_keys@),
            created_at: self.created_at,
            updated_at: self.updated_at,
        }
    }
}

/// One message of a conversation.
#[derive(Debug, Clone, PartialEq, Eq)]
pub struct AgentConversationMessage {
    pub id: String,
    pub conversation_id: String,
    pub role: String,
    pub content: String,
    pub status: String,
    pub created_at: i64,
}

/// Plain content of a message.
pub ghost struct MessageView {
    pub id: Seq<char>,
    pub conversation_id: Seq<char>,
    pub role: Seq<char>,
    pub content: Seq<char>,
    pub status: Seq<char>,
    pub created_at: i64,
}

impl View for AgentConversationMessage {
    type V = MessageView;

    open spec fn view(&self) -> MessageView {
        MessageView {
            id: self.id@,
            conversation_id: self.conversation_id@,
            role: self.role@,
            content: self.content@,
            status: self.status@,
            created_at: self.created_at,
        }
    }
}

/// Title of a conversation that has none yet, when read from storage.
pub fn default_title() -> (r: String)
    ensures
        r@ == "新对话"@,
{
    String::from_str("新对话")
}

/// Snapshot version of a conversation stored without one.
pub fn default_snapshot_version() -> (r: u32)
    ensures
        r == 1,
{
    1
}

/// Temperature of a snapshot stored without one.
pub fn default_temperature() -> (r: String)
    ensures
        r@ == "0.7"@,
{
    String::from_str("0.7")
}

/// Token limit of a snapshot stored without one.
pub fn default_max_tokens() -> (r: String)
    ensures
        r@ == "4096"@,
{
    String::from_str("4096")
}

/// Status of a message stored without one.
pub fn default_status() -> (r: String)
    ensures
        r@ == "done"@,
{
    String::from_str("done")
}

impl Default for AgentConversation {
    fn default() -> (r: AgentConversation)
        ensures
            r@ == (ConversationView {
                id: Seq::empty(),
                agent_profile_id: Seq::empty(),
                title: Seq::empty(),
                snapshot_version: 0,
                created_from_profile_updated_at: 0,
                snapshot_agent_name: Seq::empty(),
                snapshot_provider_id: Seq::empty(),
                snapshot_model_id: Seq::empty(),
                snapshot_temperature: Seq::empty(),
                snapshot_max_tokens: Seq::empty(),
                snapshot_system_prompt: Seq::empty(),
                snapshot_enabled_mcp_service_ids: Seq::empty(),
                snapshot_enabled_tool_keys: Seq::empty(),
                created_at: 0,
                updated_at: 0,
            }),
    {
        let r = AgentConversation {
            id: String::new(),
            agent_profile_id: String::new(),
            title: String::new(),
            snapshot_version: 0,
            created_from_profile_updated_at: 0,
            snapshot_agent_name: String::new(),
            snapshot_provider_id: String::new(),
            snapshot_model_id: String::new(),
            snapshot_temperature: String::new(),
            snapshot_max_tokens: String::new(),
            snapshot_system_prompt: String::new(),
            snapshot_enabled_mcp_service_ids: Vec::new(),
            snapshot_enabled_tool_keys: Vec::new(),
            created_at: 0,
            updated_at: 0,
        };
        assert(r@.snapshot_enabled_mcp_service_ids =~= Seq::<Seq<char>>::empty());
        assert(r@.snapshot_enabled_tool_keys =~= Seq::<Seq<char>>::empty());
        r
    }
}

impl Default for AgentConversationMessage {
    fn default() -> (r: AgentConversationMessage)
        ensures
            r@ == (MessageView {
                id: Seq::empty(),
                conversation_id: Seq::empty(),
                role: Seq::empty(),
                content: Seq::empty(),
                status: Seq::empty(),
                created_at: 0,
            }),
    {
        AgentConversationMessage {
            id: String::new(),
            conversation_id: String::new(),
            role: String::new(),
            content: String::new(),
            status: String::new(),
            created_at: 0,
        }
    }
}

} // verus!
