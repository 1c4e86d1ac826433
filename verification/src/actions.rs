//! What shortcuts do: record, transcribe, post-process and insert text.

pub mod flush;
pub mod output;
pub mod pipeline;
pub mod post_process;
pub mod prompt;
pub mod recording;
pub mod transcribe;
