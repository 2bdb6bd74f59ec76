//! Repositories of the local store: records under their ids, how each kind is listed,
//! and the rules a record passes before it is stored.
pub mod common;
pub mod agent_profile;
pub mod conversation_title;
pub mod agent_conversation;
pub mod default_model;
pub mod model_config;
pub mod mcp_service;
