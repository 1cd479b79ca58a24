//! Verified core of a multi-tab terminal client for agent-term MCP servers:
//! command history, scrollback, key bindings, tab and application state.

pub mod text;
pub mod history;
pub mod config;
pub mod client;
pub mod tab;
pub mod input;
pub mod app;
pub mod view;

