//! Conversation engine of a terminal chat client: provider stream decoding,
//! three synchronized message views, and a permission-guarded tool loop.

pub mod app;
pub mod blocks;
pub mod commands;
pub mod config;
pub mod editing;
pub mod executor;
pub mod history;
pub mod json;
pub mod keybinds;
pub mod neovim;
pub mod search;
pub mod sse;
pub mod text;
pub mod tools;
