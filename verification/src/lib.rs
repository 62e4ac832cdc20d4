//! llmspec: the decision logic behind ranking local LLMs against a machine.

pub mod text;
pub mod models;
pub mod fit;
pub mod verify;
pub mod config;
pub mod theme;
pub mod serve;
pub mod providers;
pub mod hardware;
pub mod display;
pub mod doctor;
pub mod tui;
pub mod cli;
pub mod mcp;
pub mod form;
pub mod keys;
pub mod discovery;
pub mod json;
