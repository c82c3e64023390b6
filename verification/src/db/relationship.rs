//! Decisions of the relationship store: validating scores, resolving a
//! candidate, reading stored statuses, and assembling the graph snapshot.
use vstd::prelude::*;
use crate::models::relationship::{score_ok, score_error_message, candidate_transition};
use crate::models::{
    CandidateStatus, CharacterId, GraphEdge, GraphNode, RelationshipCandidateId, RevisionStatus,
    StoryError, validate_score,
};
use crate::sort::{sorted_spec, stable_text_order, text_order_of};
use crate::text::{owned, push_str, text_eq, views};
use crate::models::{MemoryId, RelationshipFactId, RelationshipRevision, RelationshipType, SceneId};
use super::codec::{
    invalid_timestamp_message, invalid_uuid_message, parse_rfc3339, parse_uuid, rfc3339_utc,
    uuid_parsed,
};

verus! {

/// Relationship scores (an acceptance may override the candidate's).
#[derive(Debug, Clone, Copy, PartialEq, Eq, Structural)]
pub struct RelationshipScores {
    pub tension: Option<u8>,
    pub trust: Option<u8>,
    pub affection: Option<u8>,
    pub power: Option<u8>,
}

impl Default for RelationshipScores {
    fn default() -> (s: Self)
        ensures
            s.tension is None,
            s.trust is None,
            s.affection is None,
            s.power is None,
    {
        RelationshipScores { tension: None, trust: None, affection: None, power: None }
    }
}

/// How the author resolves a candidate.
#[derive(Debug, Clone)]
pub enum CandidateResolution {
    Accept { summary: String, scores: Option<RelationshipScores> },
    Reject,
}

impl CandidateResolution {
    /// Accept with `summary`, optionally overriding the candidate's scores.
    pub fn accept(summary: &str, scores: Option<RelationshipScores>) -> (r: Self)
        ensures
            r matches CandidateResolution::Accept { summary: s, scores: sc } && s@ == summary@
                && sc == scores,
    {
        CandidateResolution::Accept { summary: owned(summary), scores }
    }

    /// Reject the candidate.
    pub fn reject() -> (r: Self)
        ensures
            r is Reject,
    {
        CandidateResolution::Reject
    }
}

/// The first error among the four scores, checked in the order tension,
/// trust, affection, power; `None` when all are valid.
pub open spec fn first_bad_score(s: RelationshipScores) -> Option<u8> {
    if !score_ok(s.tension) {
        s.tension
    } else if !score_ok(s.trust) {
        s.trust
    } else if !score_ok(s.affection) {
        s.affection
    } else if !score_ok(s.power) {
        s.power
    } else {
        None
    }
}

/// Validates the four scores in order; fails with the first invalid one.
pub fn validate_scores(s: &RelationshipScores) -> (r: Result<(), StoryError>)
    ensures
        r is Ok <==> first_bad_score(*s) is None,
        first_bad_score(*s) matches Some(v) ==> (r matches Err(
            StoryError::InvalidRelationshipCandidate(m),
        ) && m@ == score_error_message(v)),
{
    validate_score(s.tension)?;
    validate_score(s.trust)?;
    validate_score(s.affection)?;
    validate_score(s.power)?;
    Ok(())
}

/// The stored state of a candidate that a resolution reads: its status
/// text and its own scores (as the integers the database holds).
#[derive(Debug, Clone)]
pub struct StoredCandidate {
    pub status: String,
    pub tension: Option<i64>,
    pub trust: Option<i64>,
    pub affection: Option<i64>,
    pub power: Option<i64>,
}

/// A stored integer score as a score (the low byte, as `as u8` takes it).
pub open spec fn stored_score(v: Option<i64>) -> Option<u8> {
    match v {
        Some(x) => Some(x as u8),
        None => None,
    }
}

fn stored_score_exec(v: Option<i64>) -> (r: Option<u8>)
    ensures
        r == stored_score(v),
{
    match v {
        Some(x) => Some(#[verifier::truncate] (x as u8)),
        None => None,
    }
}

/// The stored candidate's own scores.
pub open spec fn stored_scores(c: StoredCandidate) -> RelationshipScores {
    RelationshipScores {
        tension: stored_score(c.tension),
        trust: stored_score(c.trust),
        affection: stored_score(c.affection),
        power: stored_score(c.power),
    }
}

/// What resolving a candidate writes.
#[derive(Debug, Clone)]
pub enum ResolutionPlan {
    /// Mark the candidate rejected.
    Reject,
    /// Record an active revision with this summary and these scores
    /// (superseding the fact's active revision), and mark the candidate
    /// accepted.
    Accept { summary: String, scores: RelationshipScores },
}

/// Decides the resolution of candidate `candidate_id` whose stored state is
/// `stored` (`None` when there is no such candidate).
///
/// Fails when the candidate does not exist, when it is not pending, and,
/// for an acceptance, when a score (the override when given, else the
/// candidate's own) exceeds 100.
pub fn plan_resolution(
    candidate_id: RelationshipCandidateId,
    stored: Option<StoredCandidate>,
    resolution: CandidateResolution,
) -> (r: Result<ResolutionPlan, StoryError>)
    ensures
        stored is None ==> r == Err::<ResolutionPlan, StoryError>(
            StoryError::RelationshipCandidateNotFound(candidate_id),
        ),
        stored matches Some(c) ==> (c.status@ != "pending"@ ==> r == Err::<
            ResolutionPlan,
            StoryError,
        >(StoryError::RelationshipCandidateResolved(candidate_id))),
        stored matches Some(c) ==> (c.status@ == "pending"@ ==> match resolution {
            CandidateResolution::Reject => r matches Ok(ResolutionPlan::Reject),
            CandidateResolution::Accept { summary, scores } => {
                let eff = match scores {
                    Some(s) => s,
                    None => stored_scores(c),
                };
                match first_bad_score(eff) {
                    None => r matches Ok(ResolutionPlan::Accept { summary: s2, scores: sc })
                        && s2 == summary && sc == eff,
                    Some(v) => r matches Err(StoryError::InvalidRelationshipCandidate(m))
                        && m@ == score_error_message(v),
                }
            },
        }),
        stored matches Some(c) ==> (resolution matches CandidateResolution::Accept { summary, scores }
            ==> (scores is None ==> (r matches Ok(ResolutionPlan::Accept { summary: s2, scores: sc })
            ==> (sc.tension == (match c.tension {
            Some(x) => Some(x as u8),
            None => None,
        }) && sc.trust == (match c.trust {
            Some(x) => Some(x as u8),
            None => None,
        }) && sc.affection == (match c.affection {
            Some(x) => Some(x as u8),
            None => None,
        }) && sc.power == (match c.power {
            Some(x) => Some(x as u8),
            None => None,
        }))))),
{
    let c = match stored {
        None => return Err(StoryError::RelationshipCandidateNotFound(candidate_id)),
        Some(c) => c,
    };
    if !text_eq(c.status.as_str(), "pending") {
        return Err(StoryError::RelationshipCandidateResolved(candidate_id));
    }
    match resolution {
        CandidateResolution::Reject => Ok(ResolutionPlan::Reject),
        CandidateResolution::Accept { summary, scores } => {
            let eff = match scores {
                Some(s) => s,
                None => RelationshipScores {
                    tension: stored_score_exec(c.tension),
                    trust: stored_score_exec(c.trust),
                    affection: stored_score_exec(c.affection),
                    power: stored_score_exec(c.power),
                },
            };
            validate_scores(&eff)?;
            Ok(ResolutionPlan::Accept { summary, scores: eff })
        },
    }
}

// ---------------------------------------------------------------------------
// Stored statuses
// ---------------------------------------------------------------------------

pub open spec fn candidate_status_text(s: CandidateStatus) -> Seq<char> {
    match s {
        CandidateStatus::Pending => "pending"@,
        CandidateStatus::Accepted => "accepted"@,
        CandidateStatus::Rejected => "rejected"@,
    }
}

/// The text a candidate status is stored as.
pub fn candidate_status_str(s: CandidateStatus) -> (t: &'static str)
    ensures
        t@ == candidate_status_text(s),
{
    match s {
        CandidateStatus::Pending => "pending",
        CandidateStatus::Accepted => "accepted",
        CandidateStatus::Rejected => "rejected",
    }
}

/// Reads a stored candidate status; fails with a database error naming an
/// unknown text.
pub fn parse_candidate_status(s: &str) -> (r: Result<CandidateStatus, StoryError>)
    ensures
        r matches Ok(st) ==> candidate_status_text(st) == s@,
        (exists|st: CandidateStatus| candidate_status_text(st) == s@) ==> r is Ok,
        r matches Err(e) ==> e matches StoryError::Database(m) && m@ == "unknown candidate status: "@
            + s@,
{
    if text_eq(s, "pending") {
        Ok(CandidateStatus::Pending)
    } else if text_eq(s, "accepted") {
        Ok(CandidateStatus::Accepted)
    } else if text_eq(s, "rejected") {
        Ok(CandidateStatus::Rejected)
    } else {
        let mut m = owned("unknown candidate status: ");
        push_str(&mut m, s);
        Err(StoryError::Database(m))
    }
}

pub open spec fn revision_status_text(s: RevisionStatus) -> Seq<char> {
    match s {
        RevisionStatus::Active => "active"@,
        RevisionStatus::Superseded => "superseded"@,
    }
}

/// The stored text of a revision status.
pub fn revision_status_str(s: RevisionStatus) -> (t: &'static str)
    ensures
        t@ == revision_status_text(s),
{
    match s {
        RevisionStatus::Active => "active",
        RevisionStatus::Superseded => "superseded",
    }
}

/// Reads a stored revision status; fails with a database error naming an
/// unknown text.
pub fn parse_revision_status(s: &str) -> (r: Result<RevisionStatus, StoryError>)
    ensures
        r matches Ok(st) ==> revision_status_text(st) == s@,
        (exists|st: RevisionStatus| revision_status_text(st) == s@) ==> r is Ok,
        r matches Err(e) ==> e matches StoryError::Database(m) && m@ == "unknown revision status: "@
            + s@,
{
    if text_eq(s, "active") {
        Ok(RevisionStatus::Active)
    } else if text_eq(s, "superseded") {
        Ok(RevisionStatus::Superseded)
    } else {
        let mut m = owned("unknown revision status: ");
        push_str(&mut m, s);
        Err(StoryError::Database(m))
    }
}

/// A stored status read back is the status that was stored.
pub proof fn lemma_candidate_status_text_injective(a: CandidateStatus, b: CandidateStatus)
    requires
        candidate_status_text(a) == candidate_status_text(b),
    ensures
        a == b,
{
    reveal_strlit("pending");
    reveal_strlit("accepted");
    reveal_strlit("rejected");
    assert("pending"@[0] == 'p');
    assert("accepted"@[0] == 'a');
    assert("rejected"@[0] == 'r');
    if a != b {
        assert(candidate_status_text(a)[0] != candidate_status_text(b)[0]);
    }
}

/// Only a pending candidate can be resolved, and resolving it is a status
/// transition the domain allows.
pub proof fn lemma_resolution_only_from_pending(s: CandidateStatus, to: CandidateStatus)
    requires
        candidate_transition(s, to),
    ensures
        s == CandidateStatus::Pending,
        candidate_status_text(s) == "pending"@,
{
}

// ---------------------------------------------------------------------------
// Graph snapshot
// ---------------------------------------------------------------------------

/// The character ids of the edges' ends, each once, in order of first
/// appearance (`from` before `to` within an edge).
pub open spec fn edge_ends(edges: Seq<GraphEdge>) -> Seq<u128> {
    edge_ends_upto(edges, edges.len() as int)
}

pub open spec fn add_once(s: Seq<u128>, v: u128) -> Seq<u128> {
    if s.contains(v) {
        s
    } else {
        s.push(v)
    }
}

pub open spec fn edge_ends_upto(edges: Seq<GraphEdge>, n: int) -> Seq<u128>
    decreases n,
{
    if n <= 0 {
        Seq::empty()
    } else {
        let prev = edge_ends_upto(edges, n - 1);
        add_once(add_once(prev, edges[n - 1].from.0), edges[n - 1].to.0)
    }
}

fn contains_id(v: &Vec<u128>, x: u128) -> (r: bool)
    ensures
        r == v@.contains(x),
{
    let mut i: usize = 0;
    while i < v.len()
        invariant
            i <= v.len(),
            forall|j: int| 0 <= j < i ==> v@[j] != x,
        decreases v.len() - i,
    {
        if v[i] == x {
            return true;
        }
        i = i + 1;
    }
    false
}

fn push_once(v: &mut Vec<u128>, x: u128)
    ensures
        final(v)@ == add_once(old(v)@, x),
{
    if !contains_id(v, x) {
        v.push(x);
    }
}

/// The characters that appear at an end of some edge, each once.
pub fn graph_node_ids(edges: &Vec<GraphEdge>) -> (r: Vec<CharacterId>)
    ensures
        r@.map_values(|c: CharacterId| c.0) == edge_ends(edges@),
        r@.map_values(|c: CharacterId| c.0).no_duplicates(),
{
    let mut ids: Vec<u128> = Vec::new();
    let mut i: usize = 0;
    while i < edges.len()
        invariant
            i <= edges.len(),
            ids@ == edge_ends_upto(edges@, i as int),
            ids@.no_duplicates(),
        decreases edges.len() - i,
    {
        push_once(&mut ids, edges[i].from.0);
        push_once(&mut ids, edges[i].to.0);
        i = i + 1;
    }
    let mut r: Vec<CharacterId> = Vec::new();
    let mut k: usize = 0;
    while k < ids.len()
        invariant
            k <= ids.len(),
            r@.len() == k,
            r@.map_values(|c: CharacterId| c.0) == ids@.take(k as int),
        decreases ids.len() - k,
    {
        let ghost before = r@;
        r.push(CharacterId(ids[k]));
        assert(r@.map_values(|c: CharacterId| c.0) =~= before.map_values(|c: CharacterId| c.0).push(
            ids@[k as int],
        ));
        k = k + 1;
        assert(r@.map_values(|c: CharacterId| c.0) =~= ids@.take(k as int));
    }
    assert(ids@.take(ids@.len() as int) =~= ids@);
    r
}

/// The names of a list of nodes.
pub open spec fn node_names(ns: Seq<GraphNode>) -> Seq<Seq<char>> {
    ns.map_values(|n: GraphNode| n.name@)
}

/// The view of a node: its id and name.
pub open spec fn node_views(ns: Seq<GraphNode>) -> Seq<(u128, Seq<char>)> {
    ns.map_values(|n: GraphNode| (n.id.0, n.name@))
}

/// The nodes sorted stably by name (code-point order).
pub fn sort_nodes_by_name(nodes: Vec<GraphNode>) -> (r: Vec<GraphNode>)
    ensures
        node_views(r@) == node_views(text_order_of(node_names(nodes@)).map_values(
            |k: usize| nodes@[k as int],
        )),
{
    let mut names: Vec<String> = Vec::new();
    let mut i: usize = 0;
    while i < nodes.len()
        invariant
            i <= nodes.len(),
            names@.len() == i,
            forall|j: int| 0 <= j < i ==> (#[trigger] names@[j])@ == nodes@[j].name@,
        decreases nodes.len() - i,
    {
        names.push(owned(nodes[i].name.as_str()));
        i = i + 1;
    }
    assert(views(names@) =~= node_names(nodes@));
    let ord = stable_text_order(&names);
    let mut r: Vec<GraphNode> = Vec::new();
    let mut p: usize = 0;
    while p < ord.len()
        invariant
            p <= ord.len(),
            ord@ == text_order_of(node_names(nodes@)),
            crate::sort::is_stable_text_order(node_names(nodes@), ord@),
            ord@.len() == nodes@.len(),
            forall|q: int| 0 <= q < ord@.len() ==> (#[trigger] ord@[q]) < nodes@.len(),
            r@.len() == p,
            node_views(r@) == node_views(ord@.map_values(|k: usize| nodes@[k as int]).take(
                p as int,
            )),
        decreases ord.len() - p,
    {
        let n = &nodes[ord[p]];
        let ghost before = r@;
        r.push(GraphNode { id: n.id, name: n.name.clone() });
        assert(node_views(r@) =~= node_views(before).push((n.id.0, n.name@)));
        p = p + 1;
        assert(node_views(r@) =~= node_views(
            ord@.map_values(|k: usize| nodes@[k as int]).take(p as int),
        ));
    }
    assert(ord@.map_values(|k: usize| nodes@[k as int]).take(ord@.len() as int) =~= ord@.map_values(
        |k: usize| nodes@[k as int],
    ));
    r
}

// ---------------------------------------------------------------------------
// Stored revisions
// ---------------------------------------------------------------------------

/// The columns of a stored relationship revision, as read.
#[derive(Debug, Clone)]
pub struct RevisionColumns {
    pub id: String,
    pub relationship_fact_id: String,
    pub scene_id: String,
    pub valid_from_scene_id: String,
    pub valid_until_scene_id: Option<String>,
    pub status: String,
    pub summary: String,
    pub tension: Option<i64>,
    pub trust: Option<i64>,
    pub affection: Option<i64>,
    pub power: Option<i64>,
    pub evidence_memory_id: Option<String>,
    pub created_at: String,
}

/// The error message of a stored UUID that does not parse.
pub open spec fn uuid_error(s: Seq<char>) -> Option<Seq<char>> {
    match uuid_parsed(s) {
        Ok(_) => None,
        Err(e) => Some(invalid_uuid_message(s, e)),
    }
}

/// The value of a stored UUID that parses.
pub open spec fn uuid_value(s: Seq<char>) -> u128 {
    match uuid_parsed(s) {
        Ok(v) => v,
        Err(_) => 0,
    }
}

pub open spec fn opt_uuid_error(s: Option<String>) -> Option<Seq<char>> {
    match s {
        Some(t) => uuid_error(t@),
        None => None,
    }
}

/// The error message of a stored timestamp that does not parse.
pub open spec fn time_error(s: Seq<char>) -> Option<Seq<char>> {
    match rfc3339_utc(s) {
        Ok(_) => None,
        Err(e) => Some(invalid_timestamp_message(s, e)),
    }
}

pub open spec fn revision_status_error(s: Seq<char>) -> Option<Seq<char>> {
    if s == "active"@ || s == "superseded"@ {
        None
    } else {
        Some("unknown revision status: "@ + s)
    }
}

/// `a` if it is an error, else `b`.
pub open spec fn or_else(a: Option<Seq<char>>, b: Option<Seq<char>>) -> Option<Seq<char>> {
    if a is Some {
        a
    } else {
        b
    }
}

/// The first error reading a stored revision meets, in reading order:
/// status, ids, end scene, evidence, time.
pub open spec fn revision_error(c: RevisionColumns) -> Option<Seq<char>> {
    or_else(
        revision_status_error(c.status@),
        or_else(
            uuid_error(c.id@),
            or_else(
                uuid_error(c.relationship_fact_id@),
                or_else(
                    uuid_error(c.scene_id@),
                    or_else(
                        uuid_error(c.valid_from_scene_id@),
                        or_else(
                            opt_uuid_error(c.valid_until_scene_id),
                            or_else(opt_uuid_error(c.evidence_memory_id), time_error(c.created_at@)),
                        ),
                    ),
                ),
            ),
        ),
    )
}

fn read_opt_uuid(s: &Option<String>) -> (r: Result<Option<u128>, StoryError>)
    ensures
        opt_uuid_error(*s) matches Some(m) ==> (r matches Err(StoryError::Database(e)) && e@ == m),
        opt_uuid_error(*s) is None ==> (r matches Ok(v) && match *s {
            Some(t) => v == Some(uuid_value(t@)),
            None => v is None,
        }),
{
    match s {
        Some(t) => {
            let v = parse_uuid(t.as_str())?;
            Ok(Some(v))
        },
        None => Ok(None),
    }
}

/// Reads a stored revision; fails with the first database error met (an
/// unknown status, a malformed id or timestamp).
pub fn revision_from_columns(c: RevisionColumns) -> (r: Result<RelationshipRevision, StoryError>)
    ensures
        revision_error(c) matches Some(m) ==> (r matches Err(StoryError::Database(e)) && e@ == m),
        revision_error(c) is None ==> (r matches Ok(rev) && {
            &&& rev.id.0 == uuid_value(c.id@)
            &&& rev.relationship_fact_id.0 == uuid_value(c.relationship_fact_id@)
            &&& rev.scene_id.0 == uuid_value(c.scene_id@)
            &&& rev.valid_from_scene_id.0 == uuid_value(c.valid_from_scene_id@)
            &&& (match c.valid_until_scene_id {
                Some(t) => rev.valid_until_scene_id == Some(SceneId(uuid_value(t@))),
                None => rev.valid_until_scene_id is None,
            })
            &&& revision_status_text(rev.status) == c.status@
            &&& rev.summary == c.summary
            &&& rev.tension_score == stored_score(c.tension)
            &&& rev.trust_score == stored_score(c.trust)
            &&& rev.affection_score == stored_score(c.affection)
            &&& rev.power_score == stored_score(c.power)
            &&& (match c.evidence_memory_id {
                Some(t) => rev.evidence_memory_id == Some(MemoryId(uuid_value(t@))),
                None => rev.evidence_memory_id is None,
            })
            &&& rfc3339_utc(c.created_at@) == Ok::<Seq<char>, Seq<char>>(rev.created_at@)
        }),
{
    proof {
        reveal_strlit("active");
        reveal_strlit("superseded");
    }
    let status = match parse_revision_status(c.status.as_str()) {
        Ok(st) => st,
        Err(e) => {
            proof {
                assert(revision_status_text(RevisionStatus::Active) == "active"@);
                assert(revision_status_text(RevisionStatus::Superseded) == "superseded"@);
            }
            return Err(e);
        },
    };
    let id = parse_uuid(c.id.as_str())?;
    let fact = parse_uuid(c.relationship_fact_id.as_str())?;
    let scene = parse_uuid(c.scene_id.as_str())?;
    let from = parse_uuid(c.valid_from_scene_id.as_str())?;
    let until = read_opt_uuid(&c.valid_until_scene_id)?;
    let evidence = read_opt_uuid(&c.evidence_memory_id)?;
    let created_at = parse_rfc3339(c.created_at.as_str())?;
    Ok(RelationshipRevision {
        id: RelationshipFactId(id),
        relationship_fact_id: RelationshipFactId(fact),
        scene_id: SceneId(scene),
        valid_from_scene_id: SceneId(from),
        valid_until_scene_id: match until {
            Some(u) => Some(SceneId(u)),
            None => None,
        },
        status,
        summary: c.summary,
        tension_score: stored_score_exec(c.tension),
        trust_score: stored_score_exec(c.trust),
        affection_score: stored_score_exec(c.affection),
        power_score: stored_score_exec(c.power),
        evidence_memory_id: match evidence {
            Some(m) => Some(MemoryId(m)),
            None => None,
        },
        created_at,
    })
}

/// The columns of a stored revision joined with its fact, as the graph
/// snapshot reads them.
#[derive(Debug, Clone)]
pub struct EdgeColumns {
    pub relationship_fact_id: String,
    pub from_character_id: String,
    pub to_character_id: String,
    pub summary: String,
    pub status: String,
    pub tension: Option<i64>,
    pub trust: Option<i64>,
    pub affection: Option<i64>,
    pub power: Option<i64>,
}

/// The first error reading an edge meets: the fact id, the two character
/// ids, then the relationship type (`type_error`, the type's own decoding
/// error).
pub open spec fn edge_error(c: EdgeColumns, type_error: Option<Seq<char>>) -> Option<Seq<char>> {
    or_else(
        uuid_error(c.relationship_fact_id@),
        or_else(
            uuid_error(c.from_character_id@),
            or_else(uuid_error(c.to_character_id@), type_error),
        ),
    )
}

/// Reads one edge of the graph snapshot; `relationship_type` is the stored
/// type already decoded (or its decoding error).  The edge is active when
/// its revision's status is `active`.
pub fn edge_from_columns(c: EdgeColumns, relationship_type: Result<RelationshipType, String>) -> (r:
    Result<GraphEdge, StoryError>)
    ensures
        edge_error(
            c,
            match relationship_type {
                Ok(_) => None,
                Err(e) => Some(e@),
            },
        ) matches Some(m) ==> (r matches Err(StoryError::Database(e)) && e@ == m),
        edge_error(
            c,
            match relationship_type {
                Ok(_) => None,
                Err(e) => Some(e@),
            },
        ) is None ==> (r matches Ok(edge) && {
            &&& edge.fact_id.0 == uuid_value(c.relationship_fact_id@)
            &&& edge.from.0 == uuid_value(c.from_character_id@)
            &&& edge.to.0 == uuid_value(c.to_character_id@)
            &&& relationship_type == Ok::<RelationshipType, String>(edge.relationship_type)
            &&& edge.summary == c.summary
            &&& edge.active == (c.status@ == "active"@)
            &&& edge.tension_score == stored_score(c.tension)
            &&& edge.trust_score == stored_score(c.trust)
            &&& edge.affection_score == stored_score(c.affection)
            &&& edge.power_score == stored_score(c.power)
        }),
{
    let fact = parse_uuid(c.relationship_fact_id.as_str())?;
    let from = parse_uuid(c.from_character_id.as_str())?;
    let to = parse_uuid(c.to_character_id.as_str())?;
    let rt = match relationship_type {
        Ok(t) => t,
        Err(e) => return Err(StoryError::Database(e)),
    };
    let active = text_eq(c.status.as_str(), "active");
    Ok(GraphEdge {
        fact_id: RelationshipFactId(fact),
        from: CharacterId(from),
        to: CharacterId(to),
        relationship_type: rt,
        summary: c.summary,
        active,
        tension_score: stored_score_exec(c.tension),
        trust_score: stored_score_exec(c.trust),
        affection_score: stored_score_exec(c.affection),
        power_score: stored_score_exec(c.power),
    })
}

/// A candidate status is stored as its lowercase name.
pub proof fn lemma_candidate_status_texts()
    ensures
        candidate_status_text(CandidateStatus::Pending) == "pending"@,
        candidate_status_text(CandidateStatus::Accepted) == "accepted"@,
        candidate_status_text(CandidateStatus::Rejected) == "rejected"@,
{
}
/// A revision status is stored as its lowercase name.
pub proof fn lemma_revision_status_texts()
    ensures
        revision_status_text(RevisionStatus::Active) == "active"@,
        revision_status_text(RevisionStatus::Superseded) == "superseded"@,
{
}

/// A candidate's own scores are read field by field: tension from the
/// tension column, trust from trust, affection from affection, power from
/// power, each as its low byte.
pub proof fn lemma_stored_scores_fieldwise(c: StoredCandidate)
    ensures
        stored_scores(c).tension == (match c.tension {
            Some(x) => Some(x as u8),
            None => None,
        }),
        stored_scores(c).trust == (match c.trust {
            Some(x) => Some(x as u8),
            None => None,
        }),
        stored_scores(c).affection == (match c.affection {
            Some(x) => Some(x as u8),
            None => None,
        }),
        stored_scores(c).power == (match c.power {
            Some(x) => Some(x as u8),
            None => None,
        }),
{
}

} // verus!
