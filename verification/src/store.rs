//! The local JSON store: where the data lives, and the records kept in it.
pub mod keyed;
pub mod ranked;
pub mod stamp;
pub mod local;
