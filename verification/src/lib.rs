//! Verified core of the Scepter mind-mapping assistant: concept stream
//! parsing, prompt construction, LLM adapter bookkeeping and page navigation.

pub mod text;
pub mod xml;
pub mod concept_tags;
pub mod mind_page;
pub mod mind;
pub mod home_mind;
pub mod navigation;
pub mod llama;
pub mod ollama_wrapper;
pub mod page;
pub mod colors;
