//! Narration: turning derivations into prose.
//!
//! The language model only writes the narrative skeleton (actions); every
//! description is pulled by id from the vocabulary of source fragments, and
//! references outside a character's candidates are stripped.  A scene
//! planner first lays out the outline and the camera beats to cover.
pub mod assembly;
pub mod contract;
pub mod generator;
pub mod mock;
pub mod plan_contract;
pub mod planner_mock;
pub mod prompt;

pub use assembly::AssembledProse;
pub use contract::{LlmNarrative, NarrativeBeat};
pub use plan_contract::{CameraBeat, LlmScenePlan, OutlineAct, SceneCard, StoryOutline};
pub use planner_mock::{MockScenePlanner, PlanRequest};
pub use generator::{CharacterProseCandidates, NarrateRequest, ProseCandidate};
pub use mock::MockProseGenerator;
