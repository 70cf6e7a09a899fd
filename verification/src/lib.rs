//! Verified core logic of the Dohee local coding agent.

pub mod text;
pub mod context;
pub mod toolcall;
pub mod sandbox;
pub mod agent;
pub mod providers;
pub mod tools;
pub mod config;
pub mod prompt;
pub mod engine;
pub mod tui;
pub mod tui_commands;
pub mod tui_input;
pub mod worker;
pub mod mcp;
pub mod tui_view;
pub mod index;
pub mod syntax;
