//! Verified core of a personal wiki assistant: text and path handling,
//! version snapshot naming, line diffs, outline generation, skills,
//! conversation bookkeeping and the chat turn state machine.

pub mod text;
pub mod paths;
pub mod wiki;
pub mod settings;
pub mod diff;
pub mod outline;
pub mod conversation;
pub mod infra;
pub mod sessions;
pub mod skills;
pub mod file_tools;
pub mod chat;
pub mod tool_schema;
pub mod anthropic;
