//! The API workbench's tables held as plain records: projects, their groups, the requests in
//! the groups, the environments of each project and the execution history of each request,
//! with the rules the database applies when they change.
pub mod rows;
pub mod table;
pub mod tables;
pub mod laws;
