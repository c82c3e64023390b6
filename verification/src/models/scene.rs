//! Scenes.
use vstd::prelude::*;
use super::ids::{CharacterId, SceneId};
use super::time::Timestamp;

verus! {

/// A scene: the objective event, its participants and when it occurred.
#[derive(Debug, Clone)]
pub struct Scene {
    pub id: SceneId,
    pub objective_event: String,
    pub participant_ids: Vec<CharacterId>,
    pub occurred_at: Timestamp,
}

/// Request to create a scene (the id is assigned on creation).
#[derive(Debug, Clone)]
pub struct CreateScene {
    pub objective_event: String,
    pub participant_ids: Vec<CharacterId>,
    pub occurred_at: Timestamp,
}

} // verus!
