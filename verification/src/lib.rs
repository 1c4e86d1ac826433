//! Core logic of a dictation desktop app.

pub mod actions;
pub mod laws;
pub mod settings;
pub mod shortcut;
pub mod table;
pub mod text;
