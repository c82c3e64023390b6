//! Character memories.
use vstd::prelude::*;
use super::ids::{CharacterId, MemoryId, SceneId};
use super::memory_source::{Certainty, MemorySource};
use super::time::Timestamp;

verus! {

/// A memory as stored for a character.
#[derive(Debug, Clone)]
pub struct CharacterMemory {
    pub id: MemoryId,
    pub character_id: CharacterId,
    pub scene_id: SceneId,
    pub content: String,
    pub source: MemorySource,
    pub certainty: Certainty,
    pub created_at: Timestamp,
}

/// A memory as the language model drafts it (no id, no timestamp).
#[derive(Debug, Clone)]
pub struct CharacterMemoryDraft {
    pub content: String,
    pub source: MemorySource,
    pub certainty: Certainty,
}

} // verus!
