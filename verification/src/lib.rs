//! UnicOS: a small operating layer for autonomous agents.

pub mod agent;
pub mod bus;
pub mod cli;
pub mod common;
pub mod completion;
pub mod config;
pub mod context;
pub mod conversation;
pub mod daemon;
pub mod decision;
pub mod ipc;
pub mod json;
pub mod llm;
pub mod name_map;
pub mod names;
pub mod orchestrator;
pub mod path;
pub mod pingpong;
pub mod responses;
pub mod stamp;
pub mod text;
pub mod tools;
