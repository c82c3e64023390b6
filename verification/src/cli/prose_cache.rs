//! Narration cache of the interactive loop.
use vstd::prelude::*;
use crate::models::ids::SceneId;
use crate::prose::AssembledProse;

verus! {

/// The last narration of the interactive loop: its scene and prose.
#[derive(Debug, Clone)]
pub struct ProseCache {
    pub scene_id: Option<SceneId>,
    pub prose: Option<AssembledProse>,
}

impl ProseCache {
    /// An empty cache.
    pub fn new() -> (c: Self)
        ensures
            c.scene_id is None,
            c.prose is None,
    {
        ProseCache { scene_id: None, prose: None }
    }

    /// Whether the cached prose serves a `show prose` request: with a scene
    /// given, the cached scene must be that scene; without one, any cached
    /// narration serves.
    pub fn serves(&self, requested: Option<SceneId>) -> (r: bool)
        ensures
            r == (self.prose is Some && match (self.scene_id, requested) {
                (Some(c), Some(q)) => c == q,
                (Some(_), None) => true,
                _ => false,
            }),
    {
        if self.prose.is_none() {
            return false;
        }
        match (self.scene_id, requested) {
            (Some(c), Some(q)) => c == q,
            (Some(_), None) => true,
            _ => false,
        }
    }
}

} // verus!
