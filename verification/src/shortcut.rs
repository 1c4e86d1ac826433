//! Global keyboard shortcuts.

pub mod grammar;
pub mod interception_hook;
pub mod laws;
pub mod lifecycle;
pub mod manager;
pub mod tracker;
pub mod windows_hook;
