//! Domain model: identifiers, characters, scenes, memories, sensations,
//! plot developments, relationships, structured actions and errors.
pub mod action;
pub mod candidate;
pub mod character;
pub mod derivation;
pub mod error;
pub mod ids;
pub mod memory;
pub mod memory_source;
pub mod plot;
pub mod relationship;
pub mod scene;
pub mod sensation;
pub mod text_guard;
pub mod time;

pub use action::{ActionKind, PlotReasonSlot, StructuredAction};
pub use candidate::VocabularyCandidate;
pub use character::{Character, CharacterState};
pub use derivation::CharacterDerivation;
pub use error::{LlmErrorKind, StoryError, classify_debug};
pub use ids::{
    CharacterId, MemoryId, RelationshipCandidateId, RelationshipFactId, SceneId, VocabularyId,
};
pub use memory::{CharacterMemory, CharacterMemoryDraft};
pub use memory_source::{Certainty, MemorySource};
pub use plot::{PlotDevelopment, PlotDevelopmentKind, StoredPlotDevelopment};
pub use relationship::{
    CandidateStatus, GraphEdge, GraphNode, GraphSnapshot, RelationshipFact, RelationshipRevision,
    RelationshipType, RevisionStatus, validate_score,
};
pub use scene::{CreateScene, Scene};
pub use sensation::SensorySelection;
pub use time::Timestamp;
