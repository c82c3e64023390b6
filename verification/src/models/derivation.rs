//! Results of deriving a character's perception of a scene.
use vstd::prelude::*;
use super::ids::{CharacterId, SceneId};
use super::memory::CharacterMemoryDraft;
use super::plot::PlotDevelopment;
use super::sensation::SensorySelection;

verus! {

/// A character's derivation for a scene: chosen sensations, new memory and
/// plot developments.
#[derive(Debug, Clone)]
pub struct CharacterDerivation {
    pub character_id: CharacterId,
    pub scene_id: SceneId,
    pub sensations: SensorySelection,
    pub new_memory: CharacterMemoryDraft,
    pub plot_development: Vec<PlotDevelopment>,
}

} // verus!
