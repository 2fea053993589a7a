//! The model picker's list of available models.

use vstd::prelude::*;

verus! {

/// The available models and the one chosen.
pub struct OllamaWrapper {
    pub current_model: Option<String>,
    pub model_list: Vec<String>,
}

impl OllamaWrapper {
    /// No model chosen, and the models `llm-1`, `llm-2` and `llm-3` on offer.
    pub fn new() -> (w: Self)
        ensures
            w.current_model is None,
            w.model_list@.len() == 3,
            w.model_list@[0]@ == "llm-1"@,
            w.model_list@[1]@ == "llm-2"@,
            w.model_list@[2]@ == "llm-3"@,
    {
        let mut model_list: Vec<String> = Vec::new();
        model_list.push("llm-1".to_owned());
        model_list.push("llm-2".to_owned());
        model_list.push("llm-3".to_owned());
        OllamaWrapper { current_model: None, model_list }
    }
}

} // verus!
