//! Derivation of a character's perception by a language model: requests,
//! the model's output contracts, and the prompts that are sent.
pub mod contract;
pub mod generator;
pub mod prompts;

pub use contract::LlmContextTagSelection;
pub use generator::{ContextTagRequest, DerivationRequest};
pub use crate::models::VocabularyCandidate;
