use novels::llm::prompts::{
    build_derivation_prompt, build_tag_prompt, certainty_zh, format_last_sensation,
    memory_source_zh, plot_kind_zh, DERIVATION_EXAMPLES,
};
use novels::llm::{ContextTagRequest, DerivationRequest, LlmContextTagSelection};
use novels::models::{
    Certainty, Character, CharacterId, CharacterMemory, MemoryId, MemorySource, PlotDevelopment,
    PlotDevelopmentKind, PlotReasonSlot, Scene, SceneId, SensorySelection, StoredPlotDevelopment,
    Timestamp, VocabularyCandidate, VocabularyId,
};

fn now() -> Timestamp {
    Timestamp("2024-01-01T00:00:00+00:00".into())
}

fn plot(cid: CharacterId, sid: SceneId, kind: PlotDevelopmentKind, reason: &str) -> StoredPlotDevelopment {
    StoredPlotDevelopment {
        character_id: cid,
        scene_id: sid,
        development: PlotDevelopment { kind, reason: PlotReasonSlot::Other(reason.into()) },
        created_at: now(),
    }
}

fn request(plots: Vec<StoredPlotDevelopment>) -> DerivationRequest {
    let character_id = CharacterId(uuid::Uuid::new_v4().as_u128());
    let scene_id = SceneId(uuid::Uuid::new_v4().as_u128());
    DerivationRequest {
        character: Character { id: character_id, name: "A".into(), personality: vec![], skills: vec![] },
        scene: Scene {
            id: scene_id,
            objective_event: "event".into(),
            participant_ids: vec![character_id],
            occurred_at: now(),
        },
        recent_memories: vec![],
        last_sensation: None,
        candidates: vec![],
        prior_plot_developments: plots,
    }
}

#[test]
fn prompts_list_prior_plots_oldest_first() {
    let character_id = CharacterId(uuid::Uuid::new_v4().as_u128());
    let scene_id = SceneId(uuid::Uuid::new_v4().as_u128());
    let older = plot(character_id, scene_id, PlotDevelopmentKind::NewClue, "older plot");
    let newer = plot(character_id, scene_id, PlotDevelopmentKind::ConflictEscalated, "newer plot");
    let request = request(vec![newer, older]);
    let derivation_prompt = build_derivation_prompt(&request);
    let tag_prompt = build_tag_prompt(&ContextTagRequest {
        character: request.character.clone(),
        scene: request.scene.clone(),
        prior_plot_developments: request.prior_plot_developments.clone(),
        available_tags: vec![],
    });
    for prompt in [derivation_prompt, tag_prompt] {
        assert!(prompt.find("older plot").unwrap() < prompt.find("newer plot").unwrap());
    }
}

#[test]
fn derivation_prompt_exact_text() {
    let mut req = request(vec![]);
    req.character.personality = vec!["冷静".into(), "多疑".into()];
    req.recent_memories = vec![
        CharacterMemory {
            id: MemoryId(1),
            character_id: req.character.id,
            scene_id: req.scene.id,
            content: "新".into(),
            source: MemorySource::Heard,
            certainty: Certainty::Suspected,
            created_at: now(),
        },
        CharacterMemory {
            id: MemoryId(2),
            character_id: req.character.id,
            scene_id: req.scene.id,
            content: "旧".into(),
            source: MemorySource::Witnessed,
            certainty: Certainty::Certain,
            created_at: now(),
        },
    ];
    let mut last = SensorySelection::default();
    last.visual_ids.push(VocabularyId::new("visual.bloodstain").unwrap());
    req.last_sensation = Some(last);
    req.candidates = vec![
        VocabularyCandidate { id: "b.2".into(), sense: "b".into(), text: "乙".into(), tags: vec!["z".into(), "a".into()] },
        VocabularyCandidate { id: "a.1".into(), sense: "a".into(), text: "甲".into(), tags: vec![] },
    ];
    let p = build_derivation_prompt(&req);
    let expected = format!(
        "人物: A | 性格: 冷静、多疑 | 技能: \n客观事件: event\n该人物已知记忆:\n- [亲眼所见/确定] 旧\n- [道听途说/可能] 新\n上一场景感官: visual: visual.bloodstain\n\n候选词汇:\n- id: a.1 | sense: a | text: 甲 | tags: \n- id: b.2 | sense: b | text: 乙 | tags: a, z\n{}",
        DERIVATION_EXAMPLES
    );
    assert_eq!(p, expected);
}

#[test]
fn tag_prompt_sorts_and_dedups_tags() {
    let req = request(vec![]);
    let p = build_tag_prompt(&ContextTagRequest {
        character: req.character.clone(),
        scene: req.scene.clone(),
        prior_plot_developments: vec![],
        available_tags: vec!["night".into(), "crime".into(), "night".into()],
    });
    assert_eq!(p, "人物: A | 性格:  | 技能: \n客观事件: event\n可用标签（只能从此列表选择）: crime, night\n");
}

#[test]
fn last_sensation_summary_skips_empty_categories() {
    let mut s = SensorySelection::default();
    s.visual_ids.push(VocabularyId::new("visual.bloodstain").unwrap());
    s.auditory_ids.push(VocabularyId::new("auditory.footsteps").unwrap());
    s.auditory_ids.push(VocabularyId::new("auditory.wind").unwrap());
    assert_eq!(
        format_last_sensation(&s),
        "visual: visual.bloodstain; auditory: auditory.footsteps, auditory.wind"
    );
    assert_eq!(format_last_sensation(&SensorySelection::default()), "");
}

#[test]
fn labels_are_chinese() {
    assert_eq!(memory_source_zh(MemorySource::Inferred), "推断");
    assert_eq!(certainty_zh(Certainty::Uncertain), "不确定");
    assert_eq!(plot_kind_zh(PlotDevelopmentKind::GoalChanged), "目标改变");
    assert!(LlmContextTagSelection::default().tags.is_empty());
}
