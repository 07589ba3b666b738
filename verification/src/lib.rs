//! A local code-review tool's core: unified-diff parsing, review comments,
//! markdown export, the terminal review state machine and its preferences.
pub mod text;
pub mod types;
pub mod diff_parser;
pub mod markdown;
pub mod session;
pub mod file_writer;
pub mod config;
pub mod cli;
pub mod mcp;
pub mod review;
pub mod server;
pub mod tui;
