//! What the operations of the library do, said of what goes in and what comes out.

pub mod dictation;
pub mod flush;
pub mod hooks;
pub mod keys;
pub mod operations;
pub mod output;
pub mod pipeline;
pub mod post_process;
pub mod table;
pub mod text;
pub mod tracking;
