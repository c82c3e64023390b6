//! Derivation and tag-selection requests: everything the model is given.
use vstd::prelude::*;
use crate::models::{
    Character, CharacterMemory, Scene, SensorySelection, StoredPlotDevelopment,
    VocabularyCandidate,
};

verus! {

/// A request to select context tags for a character in a scene.
#[derive(Debug, Clone)]
pub struct ContextTagRequest {
    pub character: Character,
    pub scene: Scene,
    pub prior_plot_developments: Vec<StoredPlotDevelopment>,
    pub available_tags: Vec<String>,
}

/// A derivation request: the character, the scene, its recent memories
/// (newest first), the sensations of its previous scene, the candidate
/// fragments and the earlier plot developments (newest first).
#[derive(Debug, Clone)]
pub struct DerivationRequest {
    pub character: Character,
    pub scene: Scene,
    pub recent_memories: Vec<CharacterMemory>,
    pub last_sensation: Option<SensorySelection>,
    pub candidates: Vec<VocabularyCandidate>,
    pub prior_plot_developments: Vec<StoredPlotDevelopment>,
}

} // verus!
