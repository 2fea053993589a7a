//! The mind page: concept exploration driven by a language model.

pub mod plan;
pub mod prompt;
