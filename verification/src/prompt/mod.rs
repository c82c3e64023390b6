//! Prompt templates, kept apart from the calls to the language model: a
//! fixed system prompt and deterministic user prompts.
pub mod templates;

pub use templates::{
    CandidatesBySense, DerivationPromptInput, NarrationPromptInput, build_derivation_prompt,
    build_narration_prompt, build_system_prompt,
};
