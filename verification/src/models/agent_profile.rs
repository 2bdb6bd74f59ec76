//! An agent: the model it talks to, its instructions, working directory and tools.
use vstd::prelude::*;
use crate::api_http::request_prep::string_views;

verus! {

#[derive(Debug, Clone, PartialEq, Eq)]
pub struct AgentProfile {
    pub id: String,
    pub name: String,
    pub description: String,
    pub provider_id: String,
    pub model_id: String,
    pub temperature: String,
    pub max_tokens: String,
    pub system_prompt: String,
    pub work_directory: String,
    pub enabled_mcp_service_ids: Vec<String>,
    pub enabled_tool_keys: Vec<String>,
    pub created_at: i64,
    pub updated_at: i64,
}

/// Plain content of an agent profile.
pub ghost struct ProfileView {
    pub id: Seq<char>,
    pub name: Seq<char>,
    pub description: Seq<char>,
    pub provider_id: Seq<char>,
    pub model_id: Seq<char>,
    pub temperature: Seq<char>,
    pub max_tokens: Seq<char>,
    pub system_prompt: Seq<char>,
    pub work_directory: Seq<char>,
    pub enabled_mcp_service_ids: Seq<Seq<char>>,
    pub enabled_tool_keys: Seq<Seq<char>>,
    pub created_at: i64,
    pub updated_at: i64,
}

impl View for AgentProfile {
    type V = ProfileView;

    open spec fn view(&self) -> ProfileView {
        ProfileView {
            id: self.id@,
            name: self.name@,
            description: self.description@,
            provider_id: self.provider_id@,
            model_id: self.model_id@,
            temperature: self.temperature@,
            max_tokens: self.max_tokens@,
            system_prompt: self.system_prompt@,
            work_directory: self.work_directory@,
            enabled_mcp_service_ids: string_views(self.enabled_mcp_service_ids@),
            enabled_tool_keys: string_views(self.enabled_tool_keys@),
            created_at: self.created_at,
            updated_at: self.updated_at,
        }
    }
}

impl Default for AgentProfile {
    fn default() -> (r: AgentProfile)
        ensures
            r@ == (ProfileView {
                id: Seq::empty(),
                name: Seq::empty(),
                description: Seq::empty(),
                provider_id: Seq::empty(),
                model_id: Seq::empty(),
                temperature: Seq::empty(),
                max_tokens: Seq::empty(),
                system_prompt: Seq::empty(),
                work_directory: Seq::empty(),
                enabled_mcp_service_ids: Seq::empty(),
                enabled_tool_keys: Seq::empty(),
                created_at: 0,
                updated_at: 0,
            }),
    {
        let r = AgentProfile {
            id: String::new(),
            name: String::new(),
            description: String::new(),
            provider_id: String::new(),
            model_id: String::new(),
            temperature: String::new(),
            max_tokens: String::new(),
            system_prompt: String::new(),
            work_directory: String::new(),
            enabled_mcp_service_ids: Vec::new(),
            enabled_tool_keys: Vec::new(),
            created_at: 0,
            updated_at: 0,
        };
        assert(r@.enabled_mcp_service_ids =~= Seq::<Seq<char>>::empty());
        assert(r@.enabled_tool_keys =~= Seq::<Seq<char>>::empty());
        r
    }
}

} // verus!
