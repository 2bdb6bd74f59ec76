//! Data model of the workbench.
pub mod api_client;
pub mod agent_profile;
pub mod agent_conversation;
pub mod default_model;
pub mod model_config;
pub mod mcp_service;
