//! Narration requests and the candidate fragments they carry.
use vstd::prelude::*;
use crate::models::{Character, CharacterDerivation, CharacterId, Scene};
use super::plan_contract::LlmScenePlan;

verus! {

/// A candidate description fragment offered to the narration model; it is
/// referenced by its id `"<sense>.<key>"`.
#[derive(Debug, Clone)]
pub struct ProseCandidate {
    pub id: String,
    pub sense: String,
    pub text: String,
    pub tags: Vec<String>,
}

/// All candidate fragments of one character for the scene.
#[derive(Debug, Clone)]
pub struct CharacterProseCandidates {
    pub character_id: CharacterId,
    pub candidates: Vec<ProseCandidate>,
}

/// A narration request: the scene, its characters and derivations, each
/// character's candidate fragments (aligned with `characters`) and the
/// scene plan whose camera beats the narration covers.
#[derive(Debug, Clone)]
pub struct NarrateRequest {
    pub scene: Scene,
    pub characters: Vec<Character>,
    pub derivations: Vec<CharacterDerivation>,
    pub candidates: Vec<CharacterProseCandidates>,
    pub plan: LlmScenePlan,
}

} // verus!
