//! Button mapping for a Kindle: what the daemon decides, apart from the
//! devices, files and sockets it talks to.

pub mod action;
pub mod config;
pub mod input;
pub mod koreader;
pub mod laws;
pub mod laws_action;
pub mod laws_config;
pub mod laws_keyboard;
pub mod laws_text;
pub mod mappings;
pub mod nodes;
pub mod outside;
pub mod reload;
pub mod text;
pub mod touch;
pub mod vkeyboard;
