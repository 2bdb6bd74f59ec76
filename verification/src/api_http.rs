//! Preparing HTTP requests from saved requests and environments, and reading responses.
pub mod url_ops;
pub mod request_prep;
pub mod response;
pub mod registry;
