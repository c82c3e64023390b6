use novels::models::{
    Certainty, Character, CharacterDerivation, CharacterId, CharacterMemoryDraft, LlmErrorKind,
    MemorySource, PlotDevelopment, PlotDevelopmentKind, PlotReasonSlot, Scene, SceneId,
    SensorySelection, StoryError, Timestamp, VocabularyId,
};
use novels::prose::plan_contract::{CameraBeat, LlmScenePlan};
use novels::prose::prompt::{build_planner_prompt, build_prompt, NARRATE_PREAMBLE};
use novels::prose::{
    AssembledProse, CharacterProseCandidates, LlmNarrative, MockProseGenerator, MockScenePlanner,
    NarrateRequest, NarrativeBeat, PlanRequest, ProseCandidate,
};
use novels::vocab::Vocab;

const CHARACTER_A: &str = "00000000-0000-0000-0000-000000000001";
const CHARACTER_B: &str = "00000000-0000-0000-0000-000000000002";

fn uuid_of(s: &str) -> u128 {
    uuid::Uuid::parse_str(s).unwrap().as_u128()
}

fn sample_vocab() -> Vocab {
    let mut v = Vocab::new();
    v.insert("visual", "bloodstain", "血迹", vec!["crime".into()]);
    v.insert("auditory", "footstep", "脚步声", vec!["night".into()]);
    v.insert("olfactory", "bloodsmell", "血腥味", vec!["crime".into()]);
    v.insert("tactile", "coldhand", "冰凉的手", vec!["night".into()]);
    v.insert("gustatory", "bitter", "苦涩", vec!["sadness".into()]);
    v.insert("atmosphere", "coldnight", "夜凉如水", vec!["night".into()]);
    v.insert("emotion", "sorrow", "心中未免悔恨", vec!["sorrow".into()]);
    v.insert("gesture", "weep", "她伸手把帕子绞了又绞", vec!["grief".into()]);
    v
}

fn derivation(character_id: &str, ids: &[&str]) -> CharacterDerivation {
    let mut sensations = SensorySelection::default();
    for raw in ids {
        let id = VocabularyId::new(raw).unwrap();
        match id.sense() {
            "visual" => sensations.visual_ids.push(id),
            "auditory" => sensations.auditory_ids.push(id),
            "olfactory" => sensations.olfactory_ids.push(id),
            "tactile" => sensations.tactile_ids.push(id),
            "gustatory" => sensations.gustatory_ids.push(id),
            "emotion" => sensations.emotion_ids.push(id),
            "gesture" => sensations.gesture_ids.push(id),
            "atmosphere" => sensations.atmosphere_ids.push(id),
            _ => unreachable!(),
        }
    }
    CharacterDerivation {
        character_id: CharacterId(uuid_of(character_id)),
        scene_id: SceneId(uuid::Uuid::new_v4().as_u128()),
        sensations,
        new_memory: CharacterMemoryDraft {
            content: "mock".into(),
            source: MemorySource::Witnessed,
            certainty: Certainty::Certain,
        },
        plot_development: vec![],
    }
}

fn participants(ids: &[&str]) -> Vec<String> {
    ids.iter().map(|id| (*id).to_string()).collect()
}

fn narrative(beats: Vec<(&str, &str, &[&str])>) -> LlmNarrative {
    LlmNarrative {
        beats: beats
            .into_iter()
            .map(|(pov, action, refs)| NarrativeBeat {
                pov: pov.into(),
                action: action.into(),
                sensation_refs: refs.iter().map(|raw| (*raw).to_string()).collect(),
                camera_beat_id: String::new(),
            })
            .collect(),
    }
}

#[test]
fn orders_all_eight_categories() {
    let ids = [
        "gesture.weep",
        "emotion.sorrow",
        "gustatory.bitter",
        "tactile.coldhand",
        "olfactory.bloodsmell",
        "auditory.footstep",
        "visual.bloodstain",
        "atmosphere.coldnight",
    ];
    let prose = AssembledProse::assemble(
        &narrative(vec![(CHARACTER_A, "她起身推门。", &ids)]),
        &sample_vocab(),
        &vec![derivation(CHARACTER_A, &ids)],
        &participants(&[CHARACTER_A]),
    )
    .unwrap();
    assert_eq!(
        prose.text,
        "夜凉如水血迹脚步声血腥味冰凉的手苦涩心中未免悔恨她伸手把帕子绞了又绞她起身推门。"
    );
    assert_eq!(prose.stripped_refs, 0);
}

#[test]
fn preserves_beat_order() {
    let prose = AssembledProse::assemble(
        &narrative(vec![(CHARACTER_A, "第一拍。", &[]), (CHARACTER_A, "第二拍。", &[])]),
        &sample_vocab(),
        &vec![derivation(CHARACTER_A, &[])],
        &participants(&[CHARACTER_A]),
    )
    .unwrap();
    assert_eq!(prose.text, "第一拍。\n第二拍。");
}

#[test]
fn strips_unknown_and_malformed_refs() {
    let prose = AssembledProse::assemble(
        &narrative(vec![(CHARACTER_A, "她落座。", &["emotion.sorrow", "emotion.fabricated", "malformed"])]),
        &sample_vocab(),
        &vec![derivation(CHARACTER_A, &["emotion.sorrow"])],
        &participants(&[CHARACTER_A]),
    )
    .unwrap();
    assert_eq!(prose.text, "心中未免悔恨她落座。");
    assert_eq!(prose.stripped_refs, 2);
}

#[test]
fn strips_cross_character_refs() {
    let prose = AssembledProse::assemble(
        &narrative(vec![(CHARACTER_A, "她抬头。", &["emotion.sorrow"])]),
        &sample_vocab(),
        &vec![derivation(CHARACTER_A, &[]), derivation(CHARACTER_B, &["emotion.sorrow"])],
        &participants(&[CHARACTER_A, CHARACTER_B]),
    )
    .unwrap();
    assert_eq!(prose.text, "她抬头。");
    assert_eq!(prose.stripped_refs, 1);
    assert_eq!(prose.action_only_beats, 1);
}

#[test]
fn strips_refs_missing_from_vocab() {
    let prose = AssembledProse::assemble(
        &narrative(vec![(CHARACTER_A, "她落座。", &["emotion.missing"])]),
        &sample_vocab(),
        &vec![derivation(CHARACTER_A, &["emotion.missing"])],
        &participants(&[CHARACTER_A]),
    )
    .unwrap();
    assert_eq!(prose.text, "她落座。");
    assert_eq!(prose.stripped_refs, 1);
}

#[test]
fn rejects_non_participant_pov() {
    let prose = AssembledProse::assemble(
        &narrative(vec![(CHARACTER_B, "他闯入。", &[]), (CHARACTER_A, "她抬头。", &["emotion.sorrow"])]),
        &sample_vocab(),
        &vec![derivation(CHARACTER_A, &["emotion.sorrow"])],
        &participants(&[CHARACTER_A]),
    )
    .unwrap();
    assert_eq!(prose.rejected_beats, 1);
    assert_eq!(prose.text, "心中未免悔恨她抬头。");
}

#[test]
fn rejects_pov_without_derivation() {
    let prose = AssembledProse::assemble(
        &narrative(vec![(CHARACTER_A, "她出现。", &[])]),
        &sample_vocab(),
        &vec![],
        &participants(&[CHARACTER_A]),
    )
    .unwrap();
    assert_eq!(prose.rejected_beats, 1);
    assert!(prose.text.is_empty());
}

#[test]
fn empty_refs_keep_action_and_count_action_only() {
    let prose = AssembledProse::assemble(
        &narrative(vec![(CHARACTER_A, "她转身离开。", &[])]),
        &sample_vocab(),
        &vec![derivation(CHARACTER_A, &[])],
        &participants(&[CHARACTER_A]),
    )
    .unwrap();
    assert_eq!(prose.text, "她转身离开。");
    assert_eq!(prose.action_only_beats, 1);
}

#[test]
fn all_invalid_refs_keep_action_and_count_action_only() {
    let prose = AssembledProse::assemble(
        &narrative(vec![(CHARACTER_A, "她落座。", &["emotion.fabricated"])]),
        &sample_vocab(),
        &vec![derivation(CHARACTER_A, &["emotion.sorrow"])],
        &participants(&[CHARACTER_A]),
    )
    .unwrap();
    assert_eq!(prose.text, "她落座。");
    assert_eq!(prose.stripped_refs, 1);
    assert_eq!(prose.action_only_beats, 1);
}

#[test]
fn empty_beats_are_a_hard_error() {
    let error = AssembledProse::assemble(
        &LlmNarrative { beats: vec![] },
        &sample_vocab(),
        &vec![derivation(CHARACTER_A, &[])],
        &participants(&[CHARACTER_A]),
    )
    .unwrap_err();
    assert!(matches!(error, StoryError::Llm { message, .. } if message.contains("no beats")));
}

#[test]
fn empty_beats_error_kind() {
    let error = AssembledProse::assemble(
        &LlmNarrative { beats: vec![] },
        &sample_vocab(),
        &vec![],
        &vec![],
    )
    .unwrap_err();
    assert!(matches!(error, StoryError::Llm { kind: LlmErrorKind::EmptyBeats, .. }));
}

fn character(id: u128, name: &str) -> Character {
    Character { id: CharacterId(id), name: name.into(), personality: vec![], skills: vec![] }
}

fn scene(event: &str, ids: Vec<CharacterId>) -> Scene {
    Scene {
        id: SceneId(uuid::Uuid::new_v4().as_u128()),
        objective_event: event.into(),
        participant_ids: ids,
        occurred_at: Timestamp("2024-01-01T00:00:00+00:00".into()),
    }
}

#[test]
fn mock_narrate_emits_one_beat_per_camera_beat() {
    let cid_a = CharacterId(uuid::Uuid::new_v4().as_u128());
    let cid_b = CharacterId(uuid::Uuid::new_v4().as_u128());
    let char_a = Character { id: cid_a, name: "甲".into(), personality: vec![], skills: vec![] };
    let char_b = Character { id: cid_b, name: "乙".into(), personality: vec![], skills: vec![] };
    let plan = LlmScenePlan::minimal("测试事件", &["甲", "乙"]);
    let req = NarrateRequest {
        scene: scene("测试事件", vec![cid_a, cid_b]),
        characters: vec![char_a, char_b],
        derivations: vec![],
        candidates: vec![
            CharacterProseCandidates { character_id: cid_a, candidates: vec![] },
            CharacterProseCandidates { character_id: cid_b, candidates: vec![] },
        ],
        plan,
    };
    let generator = MockProseGenerator::fallback();
    let narrative = generator.narrate(&req).unwrap();
    assert_eq!(narrative.beats.len(), 2, "should emit one beat per camera beat");
    assert_eq!(narrative.beats[0].camera_beat_id, "b1");
    assert_eq!(narrative.beats[1].camera_beat_id, "b2");
    assert_ne!(narrative.beats[0].pov, narrative.beats[1].pov);
}

#[test]
fn mock_narrate_fallback_beat_contents() {
    let cid = CharacterId(uuid_of(CHARACTER_A));
    let mut plan = LlmScenePlan::minimal("深夜有人敲门来访", &["甲", "无名"]);
    plan.scene_card.camera_beats.push(CameraBeat {
        beat_id: "b9".into(),
        pov_name: "甲".into(),
        intent: "看".into(),
        must_show: vec![],
        location_hint: String::new(),
    });
    let req = NarrateRequest {
        scene: scene("深夜有人敲门来访", vec![cid]),
        characters: vec![character(uuid_of(CHARACTER_A), "甲")],
        derivations: vec![],
        candidates: vec![CharacterProseCandidates {
            character_id: cid,
            candidates: vec![ProseCandidate {
                id: "visual.bloodstain".into(),
                sense: "visual".into(),
                text: "血迹".into(),
                tags: vec![],
            }],
        }],
        plan,
    };
    let n = MockProseGenerator::fallback().narrate(&req).unwrap();
    // The beat naming no character is skipped.
    assert_eq!(n.beats.len(), 2);
    assert_eq!(n.beats[0].pov, CHARACTER_A);
    assert_eq!(n.beats[0].camera_beat_id, "b1");
    assert_eq!(n.beats[0].action, "甲看向回应：深夜有");
    assert_eq!(n.beats[0].sensation_refs, vec!["visual.bloodstain"]);
    assert_eq!(n.beats[1].camera_beat_id, "b9");
    assert_eq!(n.beats[1].action, "甲看向看");
}

#[test]
fn mock_narrate_fixed_returns_copy() {
    let fixed = LlmNarrative {
        beats: vec![NarrativeBeat {
            pov: "p".into(),
            action: "a".into(),
            sensation_refs: vec!["r".into()],
            camera_beat_id: "b1".into(),
        }],
    };
    let g = MockProseGenerator::new(fixed);
    let req = NarrateRequest {
        scene: scene("e", vec![]),
        characters: vec![],
        derivations: vec![],
        candidates: vec![],
        plan: LlmScenePlan::minimal("e", &[]),
    };
    let n = g.narrate(&req).unwrap();
    assert_eq!(n.beats.len(), 1);
    assert_eq!(n.beats[0].action, "a");
    assert_eq!(n.beats[0].sensation_refs, vec!["r"]);
}

#[test]
fn fallback_one_beat_per_character_sorted_by_name() {
    let a = character(uuid::Uuid::new_v4().as_u128(), "苏念卿");
    let b = character(uuid::Uuid::new_v4().as_u128(), "顾承烨");
    let planner = MockScenePlanner::fallback();
    let plan = planner
        .plan_scene(&PlanRequest {
            scene: scene("破产清算：封条与撤离", vec![a.id, b.id]),
            characters: vec![b.clone(), a.clone()],
        })
        .unwrap();
    assert_eq!(plan.scene_card.camera_beats.len(), 2);
    assert_eq!(plan.scene_card.camera_beats[0].pov_name, "苏念卿");
    assert_eq!(plan.scene_card.camera_beats[1].pov_name, "顾承烨");
    assert!(!plan.outline.premise_one_liner.is_empty());
}

#[test]
fn minimal_plan_shape() {
    let event = "一".repeat(50);
    let plan = LlmScenePlan::minimal(&event, &["甲"]);
    assert_eq!(plan.outline.premise_one_liner, "一".repeat(40));
    assert_eq!(plan.outline.acts.len(), 1);
    assert_eq!(plan.outline.acts[0].act_id, "a1");
    assert_eq!(plan.outline.acts[0].emotional_beat, "推进");
    assert_eq!(plan.outline.acts[0].stakes, "未定");
    assert_eq!(plan.scene_card.when, "场景当下");
    assert_eq!(plan.scene_card.where_place, "未标注");
    assert_eq!(plan.scene_card.on_stage, vec!["甲"]);
    assert_eq!(plan.scene_card.camera_beats[0].intent, format!("回应：{}", "一".repeat(40)));
}

#[test]
fn fixed_planner_returns_its_plan() {
    let plan = LlmScenePlan::minimal("事件", &["甲", "乙"]);
    let p = MockScenePlanner::new(plan.clone());
    let got = p.plan_scene(&PlanRequest { scene: scene("别的", vec![]), characters: vec![] }).unwrap();
    assert_eq!(got, plan);
}

fn make_candidate(id: &str, sense: &str, text: &str, tags: &[&str]) -> ProseCandidate {
    ProseCandidate {
        id: id.into(),
        sense: sense.into(),
        text: text.into(),
        tags: tags.iter().map(|t| (*t).to_string()).collect(),
    }
}

fn request_with_unsorted_candidates() -> NarrateRequest {
    let cid_b = CHARACTER_A;
    let cid_a = CHARACTER_B;
    NarrateRequest {
        scene: scene("深夜来访", vec![CharacterId(uuid_of(cid_a)), CharacterId(uuid_of(cid_b))]),
        characters: vec![character(uuid_of(cid_a), "甲"), character(uuid_of(cid_b), "乙")],
        derivations: vec![],
        candidates: vec![
            CharacterProseCandidates {
                character_id: CharacterId(uuid_of(cid_a)),
                candidates: vec![
                    make_candidate("gesture.weep", "gesture", "她伸手把帕子绞了又绞", &["grief", "crime"]),
                    make_candidate("visual.bloodstain", "visual", "血迹", &["injury", "crime"]),
                ],
            },
            CharacterProseCandidates { character_id: CharacterId(uuid_of(cid_b)), candidates: vec![] },
        ],
        plan: LlmScenePlan::minimal("深夜来访", &["甲", "乙"]),
    }
}

#[test]
fn prompt_contains_stable_semantic_candidates() {
    let prompt = build_prompt(&request_with_unsorted_candidates());
    assert!(prompt.contains("id: visual.bloodstain | sense: visual | text: 血迹 | tags: crime, injury"));
    assert!(prompt.contains("id: gesture.weep | sense: gesture | text: 她伸手把帕子绞了又绞 | tags: crime, grief"));
    assert!(prompt.find("visual.bloodstain").unwrap() < prompt.find("gesture.weep").unwrap());
    assert!(prompt.find(CHARACTER_A).unwrap() < prompt.find(CHARACTER_B).unwrap());
}

#[test]
fn prompt_restricts_action_and_reference_output() {
    assert!(NARRATE_PREAMBLE.contains("action 只写客观动作和对话"));
    assert!(NARRATE_PREAMBLE.contains("sensation_refs 只能从提供的候选"));
}

#[test]
fn prompt_includes_personality_memory_and_plot() {
    let cid = "00000000-0000-0000-0000-00000000000a";
    let character = Character {
        id: CharacterId(uuid_of(cid)),
        name: "侦探".into(),
        personality: vec!["谨慎".into()],
        skills: vec!["推理".into()],
    };
    let derivation = CharacterDerivation {
        character_id: CharacterId(uuid_of(cid)),
        scene_id: SceneId(uuid_of("00000000-0000-0000-0000-00000000000b")),
        sensations: SensorySelection::default(),
        new_memory: CharacterMemoryDraft {
            content: "看到地上有血迹".into(),
            source: MemorySource::Witnessed,
            certainty: Certainty::Certain,
        },
        plot_development: vec![PlotDevelopment {
            kind: PlotDevelopmentKind::NewClue,
            reason: PlotReasonSlot::Observed("血迹指向凶手".into()),
        }],
    };
    let req = NarrateRequest {
        scene: scene("古宅发现一具尸体", vec![CharacterId(uuid_of(cid))]),
        characters: vec![character],
        derivations: vec![derivation],
        candidates: vec![],
        plan: LlmScenePlan::minimal("古宅发现一具尸体", &["侦探"]),
    };
    let prompt = build_prompt(&req);
    assert!(prompt.contains("性格: 谨慎"), "missing personality: {prompt}");
    assert!(prompt.contains("技能: 推理"), "missing skills: {prompt}");
    assert!(prompt.contains("看到地上有血迹"), "missing memory content: {prompt}");
    assert!(prompt.contains("血迹指向凶手"), "missing plot reason: {prompt}");
    assert!(prompt.contains("new_clue"), "missing plot kind: {prompt}");
    assert!(prompt.contains("- 角色: 侦探\n  记忆: 看到地上有血迹\n  剧情: new_clue - 见血迹指向凶手\n"), "{prompt}");
}

#[test]
fn prompt_names_unknown_group_owner() {
    let req = NarrateRequest {
        scene: scene("e", vec![]),
        characters: vec![],
        derivations: vec![],
        candidates: vec![CharacterProseCandidates { character_id: CharacterId(5), candidates: vec![] }],
        plan: LlmScenePlan::minimal("e", &[]),
    };
    let prompt = build_prompt(&req);
    assert!(prompt.contains("角色 未知角色 (pov: 00000000-0000-0000-0000-000000000005):\n"), "{prompt}");
    assert!(prompt.starts_with("客观事件: e\n参与者:\n\n候选片段"), "{prompt}");
}

#[test]
fn prompt_lists_event_characters_and_constraints() {
    let cid = CHARACTER_A;
    let req = PlanRequest {
        scene: scene("破产清算", vec![CharacterId(uuid_of(cid))]),
        characters: vec![character(uuid_of(cid), "苏念卿")],
    };
    let prompt = build_planner_prompt(&req);
    assert!(prompt.contains("客观事件: 破产清算"));
    assert!(prompt.contains("苏念卿"));
    assert!(prompt.contains("pov_name 必须是下面参与角色名之一"));
    assert!(prompt.contains("镜头(camera_beats)数量 3~8 个"));
    assert!(prompt.contains("请调用 submit 提交结构化结果"));
    assert!(prompt.contains("- 00000000-0000-0000-0000-000000000001 | 名字: 苏念卿 | 性格: []\n"), "{prompt}");
}

#[test]
fn prompt_sorts_characters_by_id() {
    let cid_b = CHARACTER_A;
    let cid_a = CHARACTER_B;
    let req = PlanRequest {
        scene: scene("事件", vec![CharacterId(uuid_of(cid_a)), CharacterId(uuid_of(cid_b))]),
        characters: vec![character(uuid_of(cid_a), "甲"), character(uuid_of(cid_b), "乙")],
    };
    let prompt = build_planner_prompt(&req);
    assert!(prompt.find(cid_b).unwrap() < prompt.find(cid_a).unwrap());
}

#[test]
fn prompt_ignores_listing_order() {
    let mut a = request_with_unsorted_candidates();
    let mut b = request_with_unsorted_candidates();
    b.characters.reverse();
    b.candidates.reverse();
    a.derivations = vec![derivation(CHARACTER_A, &["emotion.sorrow"]), derivation(CHARACTER_B, &[])];
    b.derivations = vec![a.derivations[1].clone(), a.derivations[0].clone()];
    assert_eq!(build_prompt(&a), build_prompt(&b));
    let pa = PlanRequest { scene: a.scene.clone(), characters: a.characters.clone() };
    let pb = PlanRequest { scene: a.scene.clone(), characters: b.characters.clone() };
    assert_eq!(build_planner_prompt(&pa), build_planner_prompt(&pb));
}

#[test]
fn prompt_ignores_candidate_and_tag_order() {
    let req = request_with_unsorted_candidates();
    let mut reordered = request_with_unsorted_candidates();
    reordered.candidates.reverse();
    for g in reordered.candidates.iter_mut() {
        g.candidates.reverse();
        for c in g.candidates.iter_mut() {
            c.tags.reverse();
        }
    }
    assert_eq!(build_prompt(&req), build_prompt(&reordered));
}
