//! What the MCP tools decide and answer. A tool answers with a result or with
//! an error text.
pub mod commit;
pub mod dispatch;
pub mod health;
pub mod lifecycle;
pub mod merge;
pub mod params;
pub mod query;
pub mod session;
pub mod wait;
