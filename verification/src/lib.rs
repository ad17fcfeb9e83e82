//! Decision core of the compas orchestrator: dashboard views and state,
//! thread lifecycle rules, and the logic behind the MCP tools.
pub mod clock;
pub mod dashboard;
pub mod double;
pub mod error;
pub mod events;
pub mod health;
pub mod hooks;
pub mod ids;
pub mod json;
pub mod lifecycle;
pub mod mcp;
pub mod sort;
pub mod store;
pub mod style;
pub mod text;
