//! Parsing of SQL DDL and Go sources, and generation of CRUD code from them.
pub mod types;
pub mod sql_lexer;
pub mod pattern;
pub mod naming;
pub mod sql_statement;
pub mod sql_parser;
pub mod go_parser;
pub mod go_generator;
pub mod ts_generator;
