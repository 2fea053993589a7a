//! The first mind page, which talked to a single Ollama server.

pub mod ollama_adapter;
