//! Core logic of the Hypixel guild chat bridge: the grammar of the Minecraft
//! chat lines the bridge reacts to, the checks that turn Discord input into
//! Minecraft commands, and the decisions that turn Minecraft events into
//! Discord messages.

pub mod text;
pub mod grammar;
pub mod chat;
pub mod events;
pub mod sanitizer;
pub mod commands;
pub mod guild;
pub mod legacy;
pub mod reactions;
pub mod registration;
pub mod chat_command;
pub mod inbound;
pub mod mentions;
pub mod minecraft;
pub mod execute;
pub mod help;
pub mod interactions;
pub mod discord;
pub mod relay;
pub mod status;
pub mod autocomplete;
pub mod config;
pub mod bridge_config;
