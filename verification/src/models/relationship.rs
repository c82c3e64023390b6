//! Relationships between characters: types, candidate workflow, facts,
//! revisions and graph snapshots.
use vstd::prelude::*;
use crate::text::{decimal, owned, push_decimal, push_str};
use super::error::StoryError;
use super::ids::{CharacterId, MemoryId, RelationshipFactId, SceneId};
use super::time::Timestamp;

verus! {

/// Relationship kinds.
#[derive(Debug, Clone, Copy, PartialEq, Eq, Structural)]
pub enum RelationshipType {
    Knows,
    AlliedWith,
    Distrusts,
    Owes,
    FamilyOf,
    Mentors,
    ConflictsWith,
}

/// The variant name (`{:?}`) of a relationship type.
pub open spec fn relationship_type_name(t: RelationshipType) -> Seq<char> {
    match t {
        RelationshipType::Knows => "Knows"@,
        RelationshipType::AlliedWith => "AlliedWith"@,
        RelationshipType::Distrusts => "Distrusts"@,
        RelationshipType::Owes => "Owes"@,
        RelationshipType::FamilyOf => "FamilyOf"@,
        RelationshipType::Mentors => "Mentors"@,
        RelationshipType::ConflictsWith => "ConflictsWith"@,
    }
}

impl RelationshipType {
    pub fn debug_name(&self) -> (s: &'static str)
        ensures
            s@ == relationship_type_name(*self),
    {
        match self {
            RelationshipType::Knows => "Knows",
            RelationshipType::AlliedWith => "AlliedWith",
            RelationshipType::Distrusts => "Distrusts",
            RelationshipType::Owes => "Owes",
            RelationshipType::FamilyOf => "FamilyOf",
            RelationshipType::Mentors => "Mentors",
            RelationshipType::ConflictsWith => "ConflictsWith",
        }
    }
}

/// State of a relationship candidate awaiting the author's decision.
#[derive(Debug, Clone, Copy, PartialEq, Eq, Structural)]
pub enum CandidateStatus {
    Pending,
    Accepted,
    Rejected,
}

/// A candidate moves only from `Pending`, to `Accepted` or `Rejected`.
pub open spec fn candidate_transition(from: CandidateStatus, to: CandidateStatus) -> bool {
    from == CandidateStatus::Pending && (to == CandidateStatus::Accepted || to
        == CandidateStatus::Rejected)
}

pub open spec fn candidate_status_name(s: CandidateStatus) -> Seq<char> {
    match s {
        CandidateStatus::Pending => "Pending"@,
        CandidateStatus::Accepted => "Accepted"@,
        CandidateStatus::Rejected => "Rejected"@,
    }
}

impl CandidateStatus {
    pub fn can_transition_to(self, next: Self) -> (r: bool)
        ensures
            r == candidate_transition(self, next),
    {
        match (self, next) {
            (CandidateStatus::Pending, CandidateStatus::Accepted) => true,
            (CandidateStatus::Pending, CandidateStatus::Rejected) => true,
            _ => false,
        }
    }

    /// The variant name (`{:?}`).
    pub fn debug_name(&self) -> (s: &'static str)
        ensures
            s@ == candidate_status_name(*self),
    {
        match self {
            CandidateStatus::Pending => "Pending",
            CandidateStatus::Accepted => "Accepted",
            CandidateStatus::Rejected => "Rejected",
        }
    }
}

/// Accepted and rejected candidates are final; no status returns to an
/// earlier one, so a candidate is decided at most once.
pub proof fn lemma_candidate_decisions_final(a: CandidateStatus, b: CandidateStatus, c: CandidateStatus)
    ensures
        a != CandidateStatus::Pending ==> !candidate_transition(a, b),
        !candidate_transition(a, a),
        candidate_transition(a, b) ==> !candidate_transition(b, c),
{
}

/// Relationship fact (persisted).
#[derive(Debug, Clone)]
pub struct RelationshipFact {
    pub id: RelationshipFactId,
    pub from_character_id: CharacterId,
    pub to_character_id: CharacterId,
    pub relationship_type: RelationshipType,
    pub created_at: Timestamp,
}

/// Status of a revision of a fact.
#[derive(Debug, Clone, Copy, PartialEq, Eq, Structural)]
pub enum RevisionStatus {
    Active,
    Superseded,
}

pub open spec fn revision_status_name(s: RevisionStatus) -> Seq<char> {
    match s {
        RevisionStatus::Active => "Active"@,
        RevisionStatus::Superseded => "Superseded"@,
    }
}

impl RevisionStatus {
    pub fn debug_name(&self) -> (s: &'static str)
        ensures
            s@ == revision_status_name(*self),
    {
        match self {
            RevisionStatus::Active => "Active",
            RevisionStatus::Superseded => "Superseded",
        }
    }
}

/// Relationship revision (persisted history).
#[derive(Debug, Clone)]
pub struct RelationshipRevision {
    pub id: RelationshipFactId,
    pub relationship_fact_id: RelationshipFactId,
    pub scene_id: SceneId,
    pub valid_from_scene_id: SceneId,
    pub valid_until_scene_id: Option<SceneId>,
    pub status: RevisionStatus,
    pub summary: String,
    pub tension_score: Option<u8>,
    pub trust_score: Option<u8>,
    pub affection_score: Option<u8>,
    pub power_score: Option<u8>,
    pub evidence_memory_id: Option<MemoryId>,
    pub created_at: Timestamp,
}

/// Graph snapshot (for visualisation).
#[derive(Debug, Clone)]
pub struct GraphSnapshot {
    pub nodes: Vec<GraphNode>,
    pub edges: Vec<GraphEdge>,
}

/// Graph node (a character).
#[derive(Debug, Clone)]
pub struct GraphNode {
    pub id: CharacterId,
    pub name: String,
}

/// Graph edge (a relationship).
#[derive(Debug, Clone)]
pub struct GraphEdge {
    pub fact_id: RelationshipFactId,
    pub from: CharacterId,
    pub to: CharacterId,
    pub relationship_type: RelationshipType,
    pub summary: String,
    pub active: bool,
    pub tension_score: Option<u8>,
    pub trust_score: Option<u8>,
    pub affection_score: Option<u8>,
    pub power_score: Option<u8>,
}

/// A score is valid when absent or at most 100.
pub open spec fn score_ok(score: Option<u8>) -> bool {
    match score {
        Some(s) => s <= 100,
        None => true,
    }
}

pub open spec fn score_error_message(s: u8) -> Seq<char> {
    "score "@ + decimal(s as nat) + " exceeds maximum 100"@
}

/// Validates a score (0-100).
pub fn validate_score(score: Option<u8>) -> (r: Result<(), StoryError>)
    ensures
        r is Ok <==> score_ok(score),
        score matches Some(s) ==> (s > 100 ==> (r matches Err(
            StoryError::InvalidRelationshipCandidate(m),
        ) && m@ == score_error_message(s))),
{
    if let Some(s) = score {
        if s > 100 {
            let mut m = owned("score ");
            push_decimal(&mut m, s as usize);
            push_str(&mut m, " exceeds maximum 100");
            return Err(StoryError::InvalidRelationshipCandidate(m));
        }
    }
    Ok(())
}

/// The name of each relationship type is the variant's own name.
pub proof fn lemma_relationship_type_names()
    ensures
        relationship_type_name(RelationshipType::Knows) == "Knows"@,
        relationship_type_name(RelationshipType::AlliedWith) == "AlliedWith"@,
        relationship_type_name(RelationshipType::Distrusts) == "Distrusts"@,
        relationship_type_name(RelationshipType::Owes) == "Owes"@,
        relationship_type_name(RelationshipType::FamilyOf) == "FamilyOf"@,
        relationship_type_name(RelationshipType::Mentors) == "Mentors"@,
        relationship_type_name(RelationshipType::ConflictsWith) == "ConflictsWith"@,
{
}
/// The name of each candidate status is the variant's own name.
pub proof fn lemma_candidate_status_names()
    ensures
        candidate_status_name(CandidateStatus::Pending) == "Pending"@,
        candidate_status_name(CandidateStatus::Accepted) == "Accepted"@,
        candidate_status_name(CandidateStatus::Rejected) == "Rejected"@,
{
}
/// The name of each revision status is the variant's own name.
pub proof fn lemma_revision_status_names()
    ensures
        revision_status_name(RevisionStatus::Active) == "Active"@,
        revision_status_name(RevisionStatus::Superseded) == "Superseded"@,
{
}

} // verus!
