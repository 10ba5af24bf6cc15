//! A pluggable command launcher's core: layered configuration, plugin
//! resolution and invocation, remote plugin fetching, the display cache,
//! prompt chains and combined palettes, with the item stream they share.
pub mod json;
pub mod text;
pub mod items;
pub mod remote;
pub mod config;
pub mod plugin;
pub mod prompts;
pub mod combine;
pub mod cache;
pub mod launch;
pub mod glob;
pub mod hosts;
pub mod cli;
pub mod render;
pub mod fzf;
pub mod rofi;
pub mod builtins;
pub mod layers;
