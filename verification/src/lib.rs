//! Verified core of the Uplink desktop client: configuration, keybinds,
//! text handling for the chat input, message and file selection rules,
//! and the decision logic of the Warp runner.

pub mod config;
pub mod text;
pub mod input;
pub mod typing;
pub mod messages;
pub mod files;
pub mod keybinds;
pub mod warp_runner;
pub mod extensions;
pub mod prism;
pub mod components;
pub mod friends;
pub mod profile;
pub mod calls;
pub mod diagnostics;
pub mod clipboard;
pub mod seed;
