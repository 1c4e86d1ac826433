//! The settings that the library reads.

use crate::table::StringTable;
use vstd::prelude::*;

verus! {

/// A shortcut as the settings hold it.
#[derive(Debug)]
pub struct ShortcutBinding {
    pub id: String,
    pub current_binding: String,
}

impl Clone for ShortcutBinding {
    fn clone(&self) -> (r: Self)
        ensures
            r == *self,
    {
        ShortcutBinding { id: self.id.clone(), current_binding: self.current_binding.clone() }
    }
}

/// A service that runs a language model.
#[derive(Debug)]
pub struct PostProcessProvider {
    pub id: String,
    pub supports_structured_output: bool,
}

/// A prompt of the user's.
#[derive(Debug)]
pub struct PostProcessPrompt {
    pub id: String,
    pub prompt: String,
}

/// How much of a session the model is shown with each chunk.
#[derive(Clone, Copy, Debug, PartialEq, Eq, Structural)]
pub enum FlushPostProcessContext {
    FullSession,
    ChunkOnly,
}

/// The settings. The provider is the active one, if any is; the id of the one that
/// runs on the device itself stands beside it.
pub struct AppSettings {
    pub bindings: StringTable<ShortcutBinding>,
    pub selected_language: String,
    pub always_on_microphone: bool,
    pub post_process_enabled: bool,
    pub post_process_provider: Option<PostProcessProvider>,
    pub apple_intelligence_provider_id: String,
    pub post_process_models: StringTable<String>,
    pub post_process_api_keys: StringTable<String>,
    pub post_process_selected_prompt_id: Option<String>,
    pub post_process_prompts: Vec<PostProcessPrompt>,
    pub flush_post_process_context: FlushPostProcessContext,
}

} // verus!
