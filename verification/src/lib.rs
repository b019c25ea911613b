use vstd::prelude::*;

pub mod agui_run;
pub mod builtin;
pub mod cli;
pub mod clipboard;
pub mod config;
pub mod extension;
pub mod extensions;
pub mod fs_tools;
pub mod json;
pub mod llm;
pub mod matcher;
pub mod mcp;
pub mod markdown;
pub mod ollama;
pub mod registry;
pub mod server;
pub mod session;
pub mod sort;
pub mod sse;
pub mod storage;
pub mod table;
pub mod terminal;
pub mod text;
pub mod transcript;
pub mod tool;
pub mod tool_run;
pub mod tui;
