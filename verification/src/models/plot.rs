//! Plot developments.
use vstd::prelude::*;
use super::action::PlotReasonSlot;
use super::ids::{CharacterId, SceneId};
use super::time::Timestamp;

verus! {

/// Kind of narrative development a scene may trigger.
#[derive(Debug, Clone, Copy, PartialEq, Eq, Structural)]
pub enum PlotDevelopmentKind {
    SuspicionRaised,
    ConflictEscalated,
    GoalChanged,
    RelationshipShifted,
    NewClue,
}

pub open spec fn plot_kind_name(k: PlotDevelopmentKind) -> Seq<char> {
    match k {
        PlotDevelopmentKind::SuspicionRaised => "SuspicionRaised"@,
        PlotDevelopmentKind::ConflictEscalated => "ConflictEscalated"@,
        PlotDevelopmentKind::GoalChanged => "GoalChanged"@,
        PlotDevelopmentKind::RelationshipShifted => "RelationshipShifted"@,
        PlotDevelopmentKind::NewClue => "NewClue"@,
    }
}

impl PlotDevelopmentKind {
    /// The variant name (`{:?}`).
    pub fn debug_name(&self) -> (s: &'static str)
        ensures
            s@ == plot_kind_name(*self),
    {
        match self {
            PlotDevelopmentKind::SuspicionRaised => "SuspicionRaised",
            PlotDevelopmentKind::ConflictEscalated => "ConflictEscalated",
            PlotDevelopmentKind::GoalChanged => "GoalChanged",
            PlotDevelopmentKind::RelationshipShifted => "RelationshipShifted",
            PlotDevelopmentKind::NewClue => "NewClue",
        }
    }
}

/// A plot development with its structured reason slot.
#[derive(Debug, Clone)]
pub struct PlotDevelopment {
    pub kind: PlotDevelopmentKind,
    pub reason: PlotReasonSlot,
}

/// A plot development as stored for a character in a scene.
#[derive(Debug, Clone)]
pub struct StoredPlotDevelopment {
    pub character_id: CharacterId,
    pub scene_id: SceneId,
    pub development: PlotDevelopment,
    pub created_at: Timestamp,
}

/// The name of each plot development kind is the variant's own name.
pub proof fn lemma_plot_kind_names()
    ensures
        plot_kind_name(PlotDevelopmentKind::SuspicionRaised) == "SuspicionRaised"@,
        plot_kind_name(PlotDevelopmentKind::ConflictEscalated) == "ConflictEscalated"@,
        plot_kind_name(PlotDevelopmentKind::GoalChanged) == "GoalChanged"@,
        plot_kind_name(PlotDevelopmentKind::RelationshipShifted) == "RelationshipShifted"@,
        plot_kind_name(PlotDevelopmentKind::NewClue) == "NewClue"@,
{
}

} // verus!
