//! Calls to a language model: choosing the model, building what it is sent, and reading
//! what it answers.
pub mod target;
pub mod generate;
pub mod chat;
pub mod connection;
pub mod snapshot;
