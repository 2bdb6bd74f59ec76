//! Verified core of the API workbench and CRUD code generator.
use vstd::prelude::*;

pub mod text;
pub mod unicode;
pub mod order;
pub mod numbers;
pub mod models;
pub mod history;
pub mod work_directory;
pub mod codegen;
pub mod api_http;
pub mod assistant;
pub mod store;
pub mod repositories;
pub mod mcp;
pub mod api_client_rules;
pub mod api_store;

verus! {
} // verus!
