//! The concept-exploration page: language-model adapters and prompt handling.

pub mod llm_adapters;
pub mod prompt;

use crate::mind::llm_adapters::ollama_adapter::OllamaAdapter;
use crate::mind::llm_adapters::LLMAdapterWrapper;
use vstd::prelude::*;

verus! {

/// The state of the dialog that adds a provider: whether it is open, and the
/// provider being configured.
pub struct AddLLMProvierConfig {
    pub open_modal: bool,
    pub provider: LLMAdapterWrapper,
}

impl Default for AddLLMProvierConfig {
    /// A closed dialog offering a local Ollama provider for `llama3.3`.
    fn default() -> (c: Self)
        ensures
            !c.open_modal,
            c.provider matches LLMAdapterWrapper::Ollama(a) && a.model@ == "llama3.3"@
                && a.base_url@ == "http://localhost:11434"@,
    {
        let a = OllamaAdapter::new("llama3.3".to_owned(), None);
        AddLLMProvierConfig { open_modal: false, provider: LLMAdapterWrapper::Ollama(a) }
    }
}

} // verus!
