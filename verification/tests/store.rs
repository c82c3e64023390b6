use novels::db::revisions::{revisions_holding_at, RevisionTimes};
use novels::db::revisions::{supersede, RevisionRow};
use novels::db::codec::{ids_to_json, parse_ids, parse_rfc3339, parse_uuid};
use novels::db::relationship::{
    candidate_status_str, edge_from_columns, graph_node_ids, parse_candidate_status,
    parse_revision_status, plan_resolution, revision_from_columns, sort_nodes_by_name,
    validate_scores, EdgeColumns, ResolutionPlan, RevisionColumns, StoredCandidate,
};
use novels::db::schema::sense_column_upgrades;
use novels::db::rows::{column_uuid, sensation_from_columns, SensationColumns};
use novels::db::{CandidateResolution, RelationshipScores};
use novels::models::{
    CandidateStatus, CharacterId, GraphEdge, GraphNode, RelationshipCandidateId,
    RelationshipFactId, RelationshipType, RevisionStatus, StoryError, VocabularyId,
};

fn stored(status: &str, tension: Option<i64>) -> StoredCandidate {
    StoredCandidate { status: status.into(), tension, trust: None, affection: None, power: Some(5) }
}

#[test]
fn resolution_of_missing_candidate() {
    let id = RelationshipCandidateId(9);
    let r = plan_resolution(id, None, CandidateResolution::reject());
    assert!(matches!(r, Err(StoryError::RelationshipCandidateNotFound(x)) if x == id));
}

#[test]
fn resolution_of_resolved_candidate_is_refused() {
    let id = RelationshipCandidateId(9);
    for status in ["accepted", "rejected"] {
        let r = plan_resolution(id, Some(stored(status, None)), CandidateResolution::reject());
        assert!(matches!(r, Err(StoryError::RelationshipCandidateResolved(x)) if x == id));
        let r = plan_resolution(id, Some(stored(status, None)), CandidateResolution::accept("s", None));
        assert!(matches!(r, Err(StoryError::RelationshipCandidateResolved(_))));
    }
}

#[test]
fn resolution_accept_uses_override_or_stored_scores() {
    let id = RelationshipCandidateId(1);
    let r = plan_resolution(id, Some(stored("pending", Some(40))), CandidateResolution::accept("盟友", None));
    match r {
        Ok(ResolutionPlan::Accept { summary, scores }) => {
            assert_eq!(summary, "盟友");
            assert_eq!(scores, RelationshipScores { tension: Some(40), trust: None, affection: None, power: Some(5) });
        }
        _ => panic!("expected acceptance"),
    }
    let over = RelationshipScores { tension: Some(1), trust: Some(2), affection: Some(3), power: Some(4) };
    let r = plan_resolution(id, Some(stored("pending", Some(40))), CandidateResolution::accept("x", Some(over)));
    assert!(matches!(r, Ok(ResolutionPlan::Accept { scores, .. }) if scores == over));
    let r = plan_resolution(id, Some(stored("pending", None)), CandidateResolution::reject());
    assert!(matches!(r, Ok(ResolutionPlan::Reject)));
}

#[test]
fn resolution_accept_rejects_bad_scores() {
    let id = RelationshipCandidateId(1);
    let r = plan_resolution(id, Some(stored("pending", Some(150))), CandidateResolution::accept("x", None));
    match r {
        Err(StoryError::InvalidRelationshipCandidate(m)) => assert_eq!(m, "score 150 exceeds maximum 100"),
        _ => panic!("expected invalid score"),
    }
    let bad = RelationshipScores { tension: Some(10), trust: Some(200), affection: Some(101), power: None };
    match validate_scores(&bad) {
        Err(StoryError::InvalidRelationshipCandidate(m)) => assert_eq!(m, "score 200 exceeds maximum 100"),
        _ => panic!("expected invalid score"),
    }
    assert!(validate_scores(&RelationshipScores::default()).is_ok());
}

#[test]
fn statuses_round_trip() {
    for s in [CandidateStatus::Pending, CandidateStatus::Accepted, CandidateStatus::Rejected] {
        assert_eq!(parse_candidate_status(candidate_status_str(s)).unwrap(), s);
    }
    match parse_candidate_status("done") {
        Err(StoryError::Database(m)) => assert_eq!(m, "unknown candidate status: done"),
        _ => panic!("expected error"),
    }
    assert_eq!(parse_revision_status("active").unwrap(), RevisionStatus::Active);
    assert_eq!(parse_revision_status("superseded").unwrap(), RevisionStatus::Superseded);
    assert!(parse_revision_status("Active").is_err());
}

fn edge(from: u128, to: u128) -> GraphEdge {
    GraphEdge {
        fact_id: RelationshipFactId(1),
        from: CharacterId(from),
        to: CharacterId(to),
        relationship_type: RelationshipType::Knows,
        summary: String::new(),
        active: true,
        tension_score: None,
        trust_score: None,
        affection_score: None,
        power_score: None,
    }
}

#[test]
fn graph_nodes_are_distinct_ends_sorted_by_name() {
    let ids = graph_node_ids(&vec![edge(3, 1), edge(1, 2), edge(3, 2)]);
    assert_eq!(ids, vec![CharacterId(3), CharacterId(1), CharacterId(2)]);
    let nodes = vec![
        GraphNode { id: CharacterId(3), name: "顾".into() },
        GraphNode { id: CharacterId(1), name: "苏".into() },
        GraphNode { id: CharacterId(2), name: "苏".into() },
    ];
    let sorted = sort_nodes_by_name(nodes);
    let order: Vec<u128> = sorted.iter().map(|n| n.id.0).collect();
    assert_eq!(order, vec![1, 2, 3]);
}

#[test]
fn uuid_text_reads_back() {
    let text = "a1a2a3a4-b1b2-c1c2-d1d2-d3d4d5d6d7d8";
    assert_eq!(parse_uuid(text).unwrap(), 0xa1a2a3a4b1b2c1c2d1d2d3d4d5d6d7d8);
    let id = CharacterId(77);
    assert_eq!(parse_uuid(&id.text()).unwrap(), 77);
    assert_eq!(parse_uuid("A1A2A3A4-B1B2-C1C2-D1D2-D3D4D5D6D7D8").unwrap(), 0xa1a2a3a4b1b2c1c2d1d2d3d4d5d6d7d8);
    for v in [0u128, 1, u128::MAX, 0x0123456789abcdef0123456789abcdef] {
        assert_eq!(parse_uuid(&CharacterId(v).text()).unwrap(), v);
        assert_eq!(column_uuid("id", &CharacterId(v).text()).unwrap(), v);
    }
    match parse_uuid("nope") {
        Err(StoryError::Database(m)) => assert!(m.starts_with("invalid UUID nope: "), "{m}"),
        _ => panic!("expected error"),
    }
}

#[test]
fn timestamps_read_back_in_utc() {
    let t = parse_rfc3339("2024-01-01T08:00:00+08:00").unwrap();
    assert_eq!(t.rfc3339(), "2024-01-01T00:00:00+00:00");
    match parse_rfc3339("yesterday") {
        Err(StoryError::Database(m)) => assert!(m.starts_with("invalid timestamp yesterday: "), "{m}"),
        _ => panic!("expected error"),
    }
}

#[test]
fn id_lists_round_trip_through_json() {
    let ids = vec![VocabularyId::new("visual.moon").unwrap(), VocabularyId::new("emotion.grief").unwrap()];
    let json = ids_to_json(&ids);
    assert_eq!(json, r#"["visual.moon","emotion.grief"]"#);
    let back = parse_ids(&json).unwrap();
    let texts: Vec<&str> = back.iter().map(|i| i.as_str()).collect();
    assert_eq!(texts, vec!["visual.moon", "emotion.grief"]);
    assert_eq!(ids_to_json(&vec![]), "[]");
    let ids = vec![VocabularyId::new("visual.月光").unwrap()];
    let json = ids_to_json(&ids);
    assert_eq!(json, r#"["visual.月光"]"#);
    assert_eq!(parse_ids(&json).unwrap()[0].as_str(), "visual.月光");
    assert!(parse_ids("[]").unwrap().is_empty());
}

#[test]
fn id_lists_reject_bad_json_and_bad_ids() {
    assert!(matches!(parse_ids("not json"), Err(StoryError::Database(_))));
    match parse_ids(r#"["visual.moon","nodot"]"#) {
        Err(StoryError::Database(m)) => assert_eq!(m, "invalid vocabulary selection: missing '.' in nodot"),
        _ => panic!("expected error"),
    }
}

const U1: &str = "00000000-0000-0000-0000-000000000001";
const U2: &str = "00000000-0000-0000-0000-000000000002";

fn revision_columns() -> RevisionColumns {
    RevisionColumns {
        id: U1.into(),
        relationship_fact_id: U2.into(),
        scene_id: U1.into(),
        valid_from_scene_id: U1.into(),
        valid_until_scene_id: Some(U2.into()),
        status: "superseded".into(),
        summary: "旧识".into(),
        tension: Some(300),
        trust: None,
        affection: Some(7),
        power: None,
        evidence_memory_id: None,
        created_at: "2024-05-01T12:00:00+02:00".into(),
    }
}

#[test]
fn stored_revision_reads_back() {
    let r = revision_from_columns(revision_columns()).unwrap();
    assert_eq!(r.id.0, 1);
    assert_eq!(r.relationship_fact_id.0, 2);
    assert_eq!(r.valid_until_scene_id, Some(novels::models::SceneId(2)));
    assert_eq!(r.status, RevisionStatus::Superseded);
    assert_eq!(r.summary, "旧识");
    assert_eq!(r.tension_score, Some(44));
    assert_eq!(r.affection_score, Some(7));
    assert!(r.evidence_memory_id.is_none());
    assert_eq!(r.created_at.rfc3339(), "2024-05-01T10:00:00+00:00");
}

#[test]
fn stored_revision_errors_in_reading_order() {
    let mut c = revision_columns();
    c.status = "gone".into();
    c.id = "bad".into();
    match revision_from_columns(c) {
        Err(StoryError::Database(m)) => assert_eq!(m, "unknown revision status: gone"),
        _ => panic!("expected status error"),
    }
    let mut c = revision_columns();
    c.evidence_memory_id = Some("bad".into());
    match revision_from_columns(c) {
        Err(StoryError::Database(m)) => assert!(m.starts_with("invalid UUID bad: "), "{m}"),
        _ => panic!("expected uuid error"),
    }
    let mut c = revision_columns();
    c.created_at = "later".into();
    match revision_from_columns(c) {
        Err(StoryError::Database(m)) => assert!(m.starts_with("invalid timestamp later: "), "{m}"),
        _ => panic!("expected time error"),
    }
}

#[test]
fn stored_edge_reads_back() {
    let c = EdgeColumns {
        relationship_fact_id: U2.into(),
        from_character_id: U1.into(),
        to_character_id: U2.into(),
        summary: "s".into(),
        status: "active".into(),
        tension: Some(1),
        trust: None,
        affection: None,
        power: Some(2),
    };
    let e = edge_from_columns(c.clone(), Ok(RelationshipType::Owes)).unwrap();
    assert!(e.active);
    assert_eq!(e.from.0, 1);
    assert_eq!(e.to.0, 2);
    assert_eq!(e.relationship_type, RelationshipType::Owes);
    assert_eq!(e.power_score, Some(2));
    let mut d = c.clone();
    d.status = "superseded".into();
    assert!(!edge_from_columns(d, Ok(RelationshipType::Owes)).unwrap().active);
    match edge_from_columns(c, Err("bad type".into())) {
        Err(StoryError::Database(m)) => assert_eq!(m, "bad type"),
        _ => panic!("expected type error"),
    }
}

fn sensation_columns() -> SensationColumns {
    SensationColumns {
        scene_id: "00000000-0000-0000-0000-000000000007".into(),
        visual: "[\"visual.red\",\"visual.dim\"]".into(),
        auditory: "[]".into(),
        olfactory: "[\"olfactory.smoke\"]".into(),
        tactile: "[]".into(),
        gustatory: "[]".into(),
        emotion: "[\"emotion.fear\"]".into(),
        gesture: "[]".into(),
        atmosphere: "[\"atmosphere.cold\"]".into(),
    }
}

#[test]
fn stored_sensation_reads_back() {
    let (sel, scene) = sensation_from_columns(&sensation_columns()).unwrap();
    assert_eq!(scene.0, 7);
    let texts: Vec<String> = sel.visual_ids.iter().map(|i| i.to_text()).collect();
    assert_eq!(texts, vec!["visual.red", "visual.dim"]);
    assert!(sel.auditory_ids.is_empty());
    assert_eq!(sel.olfactory_ids[0].to_text(), "olfactory.smoke");
    assert_eq!(sel.emotion_ids[0].to_text(), "emotion.fear");
    assert_eq!(sel.atmosphere_ids[0].to_text(), "atmosphere.cold");
}

#[test]
fn stored_sensation_reports_first_bad_column() {
    let mut c = sensation_columns();
    c.scene_id = "nope".into();
    c.visual = "not json".into();
    match sensation_from_columns(&c) {
        Err(StoryError::Database(m)) => assert!(m.starts_with("scene_id: "), "got {m}"),
        other => panic!("unexpected {other:?}"),
    }
    let mut c = sensation_columns();
    c.tactile = "[\"nodot\"]".into();
    c.gesture = "{".into();
    match sensation_from_columns(&c) {
        Err(StoryError::Database(m)) => assert!(m.contains("nodot"), "got {m}"),
        other => panic!("unexpected {other:?}"),
    }
}

#[test]
fn uuid_column_error_names_the_column() {
    assert_eq!(column_uuid("id", "00000000-0000-0000-0000-00000000000a").unwrap(), 10);
    match column_uuid("character_id", "xyz") {
        Err(StoryError::Database(m)) => assert!(m.starts_with("character_id: ")),
        other => panic!("unexpected {other:?}"),
    }
}

#[test]
fn upgrades_add_only_missing_sense_columns() {
    let all: Vec<String> = ["id", "emotion_ids_json", "gesture_ids_json", "atmosphere_ids_json"]
        .iter()
        .map(|s| s.to_string())
        .collect();
    assert!(sense_column_upgrades(&all).is_empty());
    let old: Vec<String> = vec!["id".into(), "gesture_ids_json".into()];
    assert_eq!(
        sense_column_upgrades(&old),
        vec![
            "ALTER TABLE character_sensations ADD COLUMN emotion_ids_json TEXT NOT NULL DEFAULT '[]'",
            "ALTER TABLE character_sensations ADD COLUMN atmosphere_ids_json TEXT NOT NULL DEFAULT '[]'",
        ]
    );
}

#[test]
fn supersession_leaves_one_active_revision() {
    let rows = vec![
        RevisionRow { id: 1, fact_id: 10, valid_from_scene_id: 100, valid_until_scene_id: None, status: RevisionStatus::Active },
        RevisionRow { id: 2, fact_id: 11, valid_from_scene_id: 100, valid_until_scene_id: None, status: RevisionStatus::Active },
        RevisionRow { id: 3, fact_id: 10, valid_from_scene_id: 90, valid_until_scene_id: Some(100), status: RevisionStatus::Superseded },
    ];
    let after = supersede(&rows, 10, 200, 4);
    assert_eq!(after.len(), 4);
    assert_eq!(after[0].status, RevisionStatus::Superseded);
    assert_eq!(after[0].valid_until_scene_id, Some(200));
    assert_eq!(after[1], rows[1]);
    assert_eq!(after[2], rows[2]);
    assert_eq!(after[3], RevisionRow { id: 4, fact_id: 10, valid_from_scene_id: 200, valid_until_scene_id: None, status: RevisionStatus::Active });
    let active_10 = after.iter().filter(|r| r.fact_id == 10 && r.status == RevisionStatus::Active).count();
    assert_eq!(active_10, 1);
}

#[test]
fn revisions_holding_at_a_time() {
    let t = |from: &str, until: Option<&str>| RevisionTimes {
        valid_from: from.into(),
        valid_until: until.map(String::from),
    };
    let ts = vec![
        t("2024-01-01T00:00:00+00:00", None),
        t("2024-03-01T00:00:00+00:00", None),
        t("2023-01-01T00:00:00+00:00", Some("2024-01-01T00:00:00+00:00")),
        t("2023-01-01T00:00:00+00:00", Some("2024-06-01T00:00:00+00:00")),
    ];
    assert_eq!(revisions_holding_at(&ts, "2024-02-01T00:00:00+00:00"), vec![0, 3]);
    assert_eq!(revisions_holding_at(&ts, "2024-01-01T00:00:00+00:00"), vec![0, 3]);
}

#[test]
fn id_lists_escape_quotes_and_controls() {
    let ids = vec![VocabularyId::new("visual.a\"b\\c\td\u{1}").unwrap()];
    let json = ids_to_json(&ids);
    assert_eq!(json, "[\"visual.a\\\"b\\\\c\\td\\u0001\"]");
    assert_eq!(parse_ids(&json).unwrap()[0].as_str(), "visual.a\"b\\c\td\u{1}");
}
