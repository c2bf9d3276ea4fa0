//! Keyboard-shortcut cheat sheet: turning COSMIC key bindings into a
//! searchable, groupable list of rows, plus the language, configuration and
//! single-open rules around it.

pub mod config;
pub mod data;
pub mod describe;
pub mod i18n;
pub mod ipc;
pub mod keys;
pub mod listing;
pub mod laws;
pub mod order;
pub mod sheet;
pub mod shortcuts;
pub mod text;
