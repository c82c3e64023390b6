use novels::models::VocabularyCandidate;
use novels::prompt::templates::{DERIVATION_OUTPUT_CONTRACT, NARRATION_CLOSING, SYSTEM_PROMPT};
use novels::prompt::{
    build_derivation_prompt, build_narration_prompt, build_system_prompt, CandidatesBySense,
    DerivationPromptInput, NarrationPromptInput,
};

fn cand(id: &str, text: &str, tags: &[&str]) -> VocabularyCandidate {
    VocabularyCandidate {
        id: id.into(),
        sense: id.split('.').next().unwrap().into(),
        text: text.into(),
        tags: tags.iter().map(|t| (*t).to_string()).collect(),
    }
}

#[test]
fn system_prompt_is_fixed() {
    assert_eq!(build_system_prompt(), SYSTEM_PROMPT);
    assert!(SYSTEM_PROMPT.contains("StructuredAction"));
}

#[test]
fn derivation_prompt_orders_categories() {
    let mut by_sense = CandidatesBySense::new();
    by_sense.insert("visual", vec![cand("visual.moon", "月", &["night", "calm"])]);
    by_sense.insert("auditory", vec![cand("auditory.wind", "风", &[])]);
    by_sense.insert("visual", vec![cand("visual.blood", "血", &[])]);
    let tags = vec!["冷".to_string(), "傲".to_string()];
    let mems = vec!["见血".to_string()];
    let input = DerivationPromptInput {
        character_name: "甲",
        character_tags: &tags,
        character_skills: &[],
        scene_objective_event: "夜",
        memories: &mems,
        candidates_by_sense: &by_sense,
    };
    let p = build_derivation_prompt(&input);
    let expected = format!(
        "【目标角色】: 甲\n【角色性格/身份标签】: 冷, 傲\n【当前场景客观事件】: 夜\n\n【角色近期历史记忆】:\n1. 见血\n\n【蒸馏感官与情感候选词库 (Candidate Vocabulary)】:\n[感官类别: auditory]\n  - ID: \"auditory.wind\" | 文本: \"风\" | 标签: []\n[感官类别: visual]\n  - ID: \"visual.blood\" | 文本: \"血\" | 标签: []\n{}",
        DERIVATION_OUTPUT_CONTRACT
    );
    assert_eq!(p, expected);
}

#[test]
fn narration_prompt_sections() {
    let actions = vec![("甲".to_string(), "起身".to_string())];
    let quotes = vec!["月色".to_string()];
    let input = NarrationPromptInput {
        scene_objective_event: "夜",
        character_actions: &actions,
        plot_reasons: &[],
        selected_quotes: &quotes,
    };
    let p = build_narration_prompt(&input);
    assert_eq!(
        p,
        format!(
            "【场景事件】: 夜\n\n【角色动作列表】:\n- 甲: 起身\n\n【必须植入的原著描写词句库】:\n- \"月色\"\n\n{}",
            NARRATION_CLOSING
        )
    );
}
