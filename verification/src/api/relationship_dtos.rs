//! Bodies of the relationship graph and its history.
use vstd::prelude::*;
use crate::models::ids::{uuid_string, uuid_text};
use crate::models::relationship::{relationship_type_name, revision_status_name};
use crate::models::{GraphEdge, GraphNode, GraphSnapshot, RelationshipRevision};
use crate::text::owned;

verus! {

/// A graph node as the API shows it.
#[derive(Debug, Clone)]
pub struct GraphNodeDto {
    pub id: String,
    pub name: String,
}

impl GraphNodeDto {
    pub fn from_node(value: GraphNode) -> (d: Self)
        ensures
            d.id@ == uuid_text(value.id.0),
            d.name == value.name,
    {
        GraphNodeDto { id: uuid_string(value.id.0), name: value.name }
    }
}

/// The four relationship scores.
#[derive(Debug, Clone, Copy, PartialEq, Eq)]
pub struct ScoresDto {
    pub tension: Option<u8>,
    pub trust: Option<u8>,
    pub affection: Option<u8>,
    pub power: Option<u8>,
}

impl ScoresDto {
    /// The scores of a revision.
    pub fn from_revision(value: &RelationshipRevision) -> (d: Self)
        ensures
            d.tension == value.tension_score,
            d.trust == value.trust_score,
            d.affection == value.affection_score,
            d.power == value.power_score,
    {
        ScoresDto {
            tension: value.tension_score,
            trust: value.trust_score,
            affection: value.affection_score,
            power: value.power_score,
        }
    }
}

/// A graph edge as the API shows it.
#[derive(Debug, Clone)]
pub struct GraphEdgeDto {
    pub fact_id: String,
    pub from_character_id: String,
    pub to_character_id: String,
    pub relationship_type: String,
    pub summary: String,
    pub scores: ScoresDto,
    pub active: bool,
}

impl GraphEdgeDto {
    /// The body of an edge: ids as UUID text, the type's variant name, the
    /// summary, the scores and whether it is active.
    pub fn from_edge(value: GraphEdge) -> (d: Self)
        ensures
            d.fact_id@ == uuid_text(value.fact_id.0),
            d.from_character_id@ == uuid_text(value.from.0),
            d.to_character_id@ == uuid_text(value.to.0),
            d.relationship_type@ == relationship_type_name(value.relationship_type),
            d.summary == value.summary,
            d.scores == (ScoresDto {
                tension: value.tension_score,
                trust: value.trust_score,
                affection: value.affection_score,
                power: value.power_score,
            }),
            d.active == value.active,
    {
        GraphEdgeDto {
            fact_id: uuid_string(value.fact_id.0),
            from_character_id: uuid_string(value.from.0),
            to_character_id: uuid_string(value.to.0),
            relationship_type: owned(value.relationship_type.debug_name()),
            scores: ScoresDto {
                tension: value.tension_score,
                trust: value.trust_score,
                affection: value.affection_score,
                power: value.power_score,
            },
            active: value.active,
            summary: value.summary,
        }
    }
}

/// A graph snapshot as the API shows it.
#[derive(Debug, Clone)]
pub struct GraphSnapshotDto {
    pub nodes: Vec<GraphNodeDto>,
    pub edges: Vec<GraphEdgeDto>,
}

impl GraphSnapshotDto {
    /// The body of a snapshot: every node and every edge, in order.
    pub fn from_snapshot(value: GraphSnapshot) -> (d: Self)
        ensures
            d.nodes@.len() == value.nodes@.len(),
            forall|i: int|
                0 <= i < d.nodes@.len() ==> (#[trigger] d.nodes@[i]).id@ == uuid_text(
                    value.nodes@[i].id.0,
                ) && d.nodes@[i].name@ == value.nodes@[i].name@,
            d.edges@.len() == value.edges@.len(),
            forall|i: int|
                0 <= i < d.edges@.len() ==> (#[trigger] d.edges@[i]).fact_id@ == uuid_text(
                    value.edges@[i].fact_id.0,
                ) && d.edges@[i].from_character_id@ == uuid_text(value.edges@[i].from.0)
                    && d.edges@[i].to_character_id@ == uuid_text(value.edges@[i].to.0)
                    && d.edges@[i].relationship_type@ == relationship_type_name(
                    value.edges@[i].relationship_type,
                ) && d.edges@[i].summary@ == value.edges@[i].summary@ && d.edges@[i].scores
                    == (ScoresDto {
                    tension: value.edges@[i].tension_score,
                    trust: value.edges@[i].trust_score,
                    affection: value.edges@[i].affection_score,
                    power: value.edges@[i].power_score,
                }) && d.edges@[i].active == value.edges@[i].active,
    {
        let mut nodes: Vec<GraphNodeDto> = Vec::new();
        let mut i: usize = 0;
        while i < value.nodes.len()
            invariant
                i <= value.nodes.len(),
                nodes@.len() == i,
                forall|j: int|
                    0 <= j < i ==> (#[trigger] nodes@[j]).id@ == uuid_text(value.nodes@[j].id.0)
                        && nodes@[j].name@ == value.nodes@[j].name@,
            decreases value.nodes.len() - i,
        {
            let n = &value.nodes[i];
            nodes.push(GraphNodeDto { id: uuid_string(n.id.0), name: n.name.clone() });
            i = i + 1;
        }
        let mut edges: Vec<GraphEdgeDto> = Vec::new();
        let mut k: usize = 0;
        while k < value.edges.len()
            invariant
                k <= value.edges.len(),
                edges@.len() == k,
                forall|j: int|
                    0 <= j < k ==> (#[trigger] edges@[j]).fact_id@ == uuid_text(
                        value.edges@[j].fact_id.0,
                    ) && edges@[j].from_character_id@ == uuid_text(value.edges@[j].from.0)
                        && edges@[j].to_character_id@ == uuid_text(value.edges@[j].to.0)
                        && edges@[j].relationship_type@ == relationship_type_name(
                        value.edges@[j].relationship_type,
                    ) && edges@[j].summary@ == value.edges@[j].summary@ && edges@[j].scores
                        == (ScoresDto {
                        tension: value.edges@[j].tension_score,
                        trust: value.edges@[j].trust_score,
                        affection: value.edges@[j].affection_score,
                        power: value.edges@[j].power_score,
                    }) && edges@[j].active == value.edges@[j].active,
            decreases value.edges.len() - k,
        {
            let e = &value.edges[k];
            edges.push(
                GraphEdgeDto {
                    fact_id: uuid_string(e.fact_id.0),
                    from_character_id: uuid_string(e.from.0),
                    to_character_id: uuid_string(e.to.0),
                    relationship_type: owned(e.relationship_type.debug_name()),
                    summary: e.summary.clone(),
                    scores: ScoresDto {
                        tension: e.tension_score,
                        trust: e.trust_score,
                        affection: e.affection_score,
                        power: e.power_score,
                    },
                    active: e.active,
                },
            );
            k = k + 1;
        }
        GraphSnapshotDto { nodes, edges }
    }
}

/// A revision of a relationship as the API shows it.
#[derive(Debug, Clone)]
pub struct RelationshipRevisionDto {
    pub id: String,
    pub relationship_fact_id: String,
    pub scene_id: String,
    pub valid_from_scene_id: String,
    pub valid_until_scene_id: Option<String>,
    pub status: String,
    pub summary: String,
    pub scores: ScoresDto,
    pub evidence_memory_id: Option<String>,
    pub created_at: String,
}

impl RelationshipRevisionDto {
    /// The body of a revision: ids as UUID text, the status's variant name,
    /// the summary, the scores and the RFC 3339 time.
    pub fn from_revision(value: RelationshipRevision) -> (d: Self)
        ensures
            d.id@ == uuid_text(value.id.0),
            d.relationship_fact_id@ == uuid_text(value.relationship_fact_id.0),
            d.scene_id@ == uuid_text(value.scene_id.0),
            d.valid_from_scene_id@ == uuid_text(value.valid_from_scene_id.0),
            value.valid_until_scene_id matches Some(u) ==> (d.valid_until_scene_id matches Some(t)
                && t@ == uuid_text(u.0)),
            value.valid_until_scene_id is None ==> d.valid_until_scene_id is None,
            d.status@ == revision_status_name(value.status),
            d.summary == value.summary,
            d.scores == (ScoresDto {
                tension: value.tension_score,
                trust: value.trust_score,
                affection: value.affection_score,
                power: value.power_score,
            }),
            value.evidence_memory_id matches Some(m) ==> (d.evidence_memory_id matches Some(t)
                && t@ == uuid_text(m.0)),
            value.evidence_memory_id is None ==> d.evidence_memory_id is None,
            d.created_at@ == value.created_at@,
    {
        let scores = ScoresDto::from_revision(&value);
        let valid_until_scene_id = match value.valid_until_scene_id {
            Some(u) => Some(uuid_string(u.0)),
            None => None,
        };
        let evidence_memory_id = match value.evidence_memory_id {
            Some(m) => Some(uuid_string(m.0)),
            None => None,
        };
        RelationshipRevisionDto {
            id: uuid_string(value.id.0),
            relationship_fact_id: uuid_string(value.relationship_fact_id.0),
            scene_id: uuid_string(value.scene_id.0),
            valid_from_scene_id: uuid_string(value.valid_from_scene_id.0),
            valid_until_scene_id,
            status: owned(value.status.debug_name()),
            scores,
            evidence_memory_id,
            created_at: value.created_at.rfc3339(),
            summary: value.summary,
        }
    }
}

/// A request to resolve a relationship candidate.
#[derive(Debug, Clone)]
pub struct ResolveCandidateRequest {
    pub decision: CandidateDecision,
}

/// The decision on a candidate: `action` (accept or reject), and for an
/// acceptance an optional summary and scores that override the candidate's.
#[derive(Debug, Clone)]
pub struct CandidateDecision {
    pub action: String,
    pub summary: Option<String>,
    pub scores: Option<ScoresDto>,
}

} // verus!
