use novels::api::{
    ApiError, CharacterDto, GraphEdgeDto, GraphSnapshotDto, MemoryDto, PlotDto,
    RelationshipRevisionDto, SceneDto, ScoresDto, SensorySelectionDto,
};
use novels::models::{
    Certainty, Character, CharacterId, CharacterMemory, GraphEdge, GraphNode, GraphSnapshot,
    MemoryId, MemorySource, PlotDevelopment, PlotDevelopmentKind, PlotReasonSlot,
    RelationshipFactId, RelationshipRevision, RelationshipType, RevisionStatus, Scene, SceneId,
    SensorySelection, StoryError, Timestamp, VocabularyId,
};

#[test]
fn api_error_builder_and_status() {
    let e = ApiError::new("validation_error", "bad").with_field("name", "empty");
    assert_eq!(e.code, "validation_error");
    assert_eq!(e.message, "bad");
    assert_eq!(e.field_errors.len(), 1);
    assert_eq!(e.field_errors[0].field, "name");
    assert_eq!(e.field_errors[0].message, "empty");
    assert_eq!(e.status_code(), 422);
    assert_eq!(ApiError::new("not_found", "").status_code(), 404);
    assert_eq!(ApiError::new("derivation_error", "").status_code(), 500);
    assert_eq!(ApiError::new("other", "").status_code(), 400);
    let s = ApiError::from_story_error(StoryError::Database("x".into()));
    assert_eq!(s.code, "story_error");
    assert_eq!(s.message, "database error: x");
    assert_eq!(s.status_code(), 400);
}

#[test]
fn character_and_scene_bodies() {
    let c = CharacterDto::from_character(Character {
        id: CharacterId(1),
        name: "甲".into(),
        personality: vec!["冷".into()],
        skills: vec![],
    });
    assert_eq!(c.id, "00000000-0000-0000-0000-000000000001");
    assert_eq!(c.name, "甲");
    assert_eq!(c.personality, vec!["冷"]);
    let s = SceneDto::from_scene(Scene {
        id: SceneId(2),
        objective_event: "事".into(),
        participant_ids: vec![CharacterId(1)],
        occurred_at: Timestamp("2024-01-01T00:00:00+00:00".into()),
    });
    assert_eq!(s.id, "00000000-0000-0000-0000-000000000002");
    assert_eq!(s.participant_ids, vec!["00000000-0000-0000-0000-000000000001"]);
    assert_eq!(s.occurred_at, "2024-01-01T00:00:00+00:00");
}

#[test]
fn derivation_part_bodies() {
    let mut sel = SensorySelection::default();
    sel.gesture_ids.push(VocabularyId::new("gesture.weep").unwrap());
    let d = SensorySelectionDto::from_selection(sel);
    assert_eq!(d.gesture, vec!["gesture.weep"]);
    assert!(d.visual.is_empty());
    let m = MemoryDto::from_memory(CharacterMemory {
        id: MemoryId(1),
        character_id: CharacterId(3),
        scene_id: SceneId(4),
        content: "记".into(),
        source: MemorySource::Heard,
        certainty: Certainty::Suspected,
        created_at: Timestamp("t".into()),
    });
    assert_eq!(m.source, "Heard");
    assert_eq!(m.certainty, "Suspected");
    assert_eq!(m.character_id, "00000000-0000-0000-0000-000000000003");
    let p = PlotDto::from_development(PlotDevelopment {
        kind: PlotDevelopmentKind::NewClue,
        reason: PlotReasonSlot::Heard("异响".into()),
    });
    assert_eq!(p.kind, "NewClue");
    assert_eq!(p.reason, "闻异响");
}

#[test]
fn graph_and_revision_bodies() {
    let snap = GraphSnapshotDto::from_snapshot(GraphSnapshot {
        nodes: vec![GraphNode { id: CharacterId(1), name: "甲".into() }],
        edges: vec![GraphEdge {
            fact_id: RelationshipFactId(5),
            from: CharacterId(1),
            to: CharacterId(2),
            relationship_type: RelationshipType::Distrusts,
            summary: "疑".into(),
            active: false,
            tension_score: Some(80),
            trust_score: None,
            affection_score: None,
            power_score: Some(1),
        }],
    });
    assert_eq!(snap.nodes[0].name, "甲");
    let e: &GraphEdgeDto = &snap.edges[0];
    assert_eq!(e.relationship_type, "Distrusts");
    assert_eq!(e.scores, ScoresDto { tension: Some(80), trust: None, affection: None, power: Some(1) });
    assert!(!e.active);
    let r = RelationshipRevisionDto::from_revision(RelationshipRevision {
        id: RelationshipFactId(6),
        relationship_fact_id: RelationshipFactId(5),
        scene_id: SceneId(7),
        valid_from_scene_id: SceneId(7),
        valid_until_scene_id: None,
        status: RevisionStatus::Superseded,
        summary: "s".into(),
        tension_score: None,
        trust_score: Some(3),
        affection_score: None,
        power_score: None,
        evidence_memory_id: Some(MemoryId(8)),
        created_at: Timestamp("t".into()),
    });
    assert_eq!(r.status, "Superseded");
    assert!(r.valid_until_scene_id.is_none());
    assert_eq!(r.evidence_memory_id.as_deref(), Some("00000000-0000-0000-0000-000000000008"));
}
