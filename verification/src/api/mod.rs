//! The HTTP interface's data: request and response bodies, their
//! conversions from the domain model, and API errors.
pub mod dto;
pub mod errors;
pub mod relationship_dtos;
pub mod scene_dtos;

pub use dto::{CharacterDto, CreateCharacterRequest, CreateSceneRequest, SceneDto};
pub use errors::{ApiError, FieldError};
pub use relationship_dtos::{
    CandidateDecision, GraphEdgeDto, GraphNodeDto, GraphSnapshotDto, RelationshipRevisionDto,
    ResolveCandidateRequest, ScoresDto,
};
pub use scene_dtos::{MemoryDto, PlotDto, SensorySelectionDto};
