use novels::cli::observation::quality_from_prose;
use novels::cli::outcomes::{character_created, character_derived, context_cleared, context_report, derivations_missing, participants_missing, scene_created, scene_derived,};
use novels::cli::outcomes::{character_shown, characters_listed, scene_shown, scenes_listed};
use novels::cli::repl::{repl_step, ReplStep};
use novels::models::{Character, Scene, Timestamp};
use novels::prose::AssembledProse;
use novels::cli::commands::{
    character_derive_summary, context_summary, generation_status, memory_preview,
    narrate_summary, scene_derive_outcome,
};
use novels::cli::session::{lookup_for, resolve_by_id, resolve_by_substring, resolve_unique, Lookup};
use novels::cli::{split_csv, split_repl_line, status_to_exit, story_error_summary};
use novels::cli::{CliError, ProseCache, Session, Status};
use novels::cli::observation::{Observation, QualityFigures};
use novels::models::{CharacterId, SceneId, StoryError};
use novels::text_map::TextMap;

#[test]
fn split_csv_trims_and_drops_empty() {
    assert_eq!(split_csv("a, b , c"), vec!["a", "b", "c"]);
    assert_eq!(split_csv("a,, ,b"), vec!["a", "b"]);
    assert_eq!(split_csv(""), Vec::<String>::new());
    assert_eq!(split_csv("  "), Vec::<String>::new());
}

#[test]
fn story_error_busy_db_maps_to_chinese() {
    let e = StoryError::Database("database is locked".into());
    let msg = story_error_summary(&e);
    assert!(msg.contains("数据库忙碌"), "busy db should map to busy message: {msg}");
}

#[test]
fn story_error_not_found_maps_to_chinese() {
    let e = StoryError::CharacterNotFound(CharacterId(uuid::Uuid::nil().as_u128()));
    let msg = story_error_summary(&e);
    assert!(msg.contains("未找到角色"), "character not found should be Chinese: {msg}");
}

#[test]
fn story_error_llm_maps_to_chinese() {
    let e = StoryError::llm("timeout".to_string());
    let msg = story_error_summary(&e);
    assert!(msg.contains("LLM"), "llm error should mention LLM: {msg}");
}

#[test]
fn split_simple() {
    assert_eq!(
        split_repl_line("character create 宝玉 --tags 痴情"),
        vec!["character", "create", "宝玉", "--tags", "痴情"]
    );
}

#[test]
fn split_quoted() {
    assert_eq!(
        split_repl_line("scene create \"宝玉挨打\" --with \"宝玉,黛玉\""),
        vec!["scene", "create", "宝玉挨打", "--with", "宝玉,黛玉"]
    );
}

#[test]
fn split_empty() {
    assert_eq!(split_repl_line(""), Vec::<String>::new());
    assert_eq!(split_repl_line("   "), Vec::<String>::new());
}

#[test]
fn split_unclosed_quote_keeps_rest() {
    assert_eq!(split_repl_line("scene create \"宝玉挨打"), vec!["scene", "create", "宝玉挨打"]);
}

#[test]
fn status_to_exit_mapping() {
    assert_eq!(status_to_exit(Status::Success), 0);
    assert_eq!(status_to_exit(Status::Warning), 0);
    assert_eq!(status_to_exit(Status::Error), 1);
}

#[test]
fn session_default_is_empty() {
    let s = Session::default();
    assert!(s.current_scene.is_none());
    assert!(s.current_character.is_none());
}

#[test]
fn session_clone_debug_roundtrip() {
    let cid = CharacterId(uuid::Uuid::new_v4().as_u128());
    let sid = SceneId(uuid::Uuid::new_v4().as_u128());
    let s = Session { current_scene: Some(sid), current_character: Some(cid) };
    let cloned = s.clone();
    assert_eq!(cloned.current_scene, Some(sid));
    assert_eq!(cloned.current_character, Some(cid));
    let dbg = format!("{s:?}");
    assert!(dbg.contains("Session"));
}

#[test]
fn cli_error_story_summary_uses_domain_message() {
    let err = CliError::Story(StoryError::CharacterNotFound(CharacterId(uuid::Uuid::nil().as_u128())));
    let msg = err.summary();
    assert!(!msg.is_empty());
}

#[test]
fn split_keeps_quoted_spaces_and_drops_quotes() {
    assert_eq!(split_repl_line("a \"b c\" d"), vec!["a", "b c", "d"]);
    assert_eq!(split_repl_line("  x   y  "), vec!["x", "y"]);
}

#[test]
fn split_csv_keeps_inner_spaces() {
    assert_eq!(split_csv(" 宝玉 ,  黛玉 宝钗 "), vec!["宝玉", "黛玉 宝钗"]);
}

#[test]
fn resolve_by_substring_unique_match() {
    let entries = vec![("宝玉挨打".to_string(), 1u128), ("黛玉葬花".to_string(), 2u128)];
    let r = resolve_by_substring(&entries, "场景", "挨打");
    assert!(matches!(r, Ok(1)));
}

#[test]
fn resolve_by_substring_none_is_not_found() {
    let entries = vec![("宝玉挨打".to_string(), 1u128)];
    match resolve_by_substring(&entries, "场景", "葬花") {
        Err(e) => assert_eq!(e.summary(), "未找到场景：葬花"),
        Ok(_) => panic!("expected not found"),
    }
}

#[test]
fn resolve_by_substring_ambiguous_lists_candidates() {
    let entries = vec![("宝玉".to_string(), 1u128), ("宝钗".to_string(), 2u128)];
    match resolve_by_substring(&entries, "角色", "宝") {
        Err(e) => {
            let s = e.summary();
            assert!(s.starts_with("多个角色匹配「宝」，候选："), "{s}");
            assert!(s.contains("宝玉 (00000000-0000-0000-0000-000000000001)"), "{s}");
            assert!(s.contains("宝钗 (00000000-0000-0000-0000-000000000002)"), "{s}");
        }
        Ok(_) => panic!("expected ambiguity"),
    }
}

#[test]
fn resolve_unique_single_candidate() {
    let c = vec![("甲".to_string(), 7u128)];
    assert!(matches!(resolve_unique(&c, "角色", "甲"), Ok(0)));
}

#[test]
fn session_clear_forgets_context() {
    let mut s = Session { current_scene: Some(SceneId(1)), current_character: Some(CharacterId(2)) };
    s.clear();
    assert!(s.current_scene.is_none());
    assert!(s.current_character.is_none());
}

#[test]
fn prose_cache_serves_only_its_scene() {
    let cache = ProseCache::new();
    assert!(!cache.serves(Some(SceneId(1))));
}

#[test]
fn outcome_helpers_report_mock_usage() {
    assert_eq!(character_derive_summary(true), "推导完成（非生产质量）");
    assert_eq!(character_derive_summary(false), "推导完成");
    assert_eq!(narrate_summary(true), "正文已生成（非生产质量）");
    assert_eq!(generation_status(true), Status::Warning);
    assert_eq!(generation_status(false), Status::Success);
    let o = scene_derive_outcome(2, 0, false);
    assert_eq!(o.summary, "推导完成：2 个角色");
    assert_eq!(o.status, Status::Success);
    assert_eq!(o.next, vec!["narrate"]);
    let o = scene_derive_outcome(0, 1, false);
    assert_eq!(o.summary, "推导完成：0 成功，1 失败");
    assert_eq!(o.status, Status::Error);
    assert!(o.next.is_empty());
    let o = scene_derive_outcome(3, 0, true);
    assert_eq!(o.summary, "推导完成：3 个角色（非生产质量）");
    assert_eq!(o.status, Status::Warning);
    assert_eq!(context_summary(false, false), "无上下文");
    assert_eq!(context_summary(true, false), "当前上下文");
    assert_eq!(memory_preview("短记忆"), "短记忆");
    let long: String = "字".repeat(45);
    assert_eq!(memory_preview(&long), format!("{}…", "字".repeat(40)));
}

fn bare_observation(status: Status, summary: &str) -> Observation {
    Observation {
        status,
        summary: summary.to_string(),
        artifacts: TextMap::new(),
        quality: None,
        next: vec![],
    }
}

#[test]
fn render_human_includes_status_and_summary() {
    let o = bare_observation(Status::Warning, "DEEPSEEK_API_KEY 未设置，使用 Mock（非生产质量）");
    let s = o.render_human();
    assert!(s.contains("status: warning"));
    assert!(s.contains("非生产质量"));
}

#[test]
fn render_human_status_each_variant() {
    for (status, expect) in [
        (Status::Success, "status: success"),
        (Status::Warning, "status: warning"),
        (Status::Error, "status: error"),
    ] {
        let o = bare_observation(status, "x");
        assert!(o.render_human().contains(expect), "missing {expect}");
    }
}

#[test]
fn render_human_quality_block() {
    let mut o = bare_observation(Status::Success, "narrated");
    o.quality = Some(QualityFigures {
        quote_density: "0.42".to_string(),
        stripped_refs: 2,
        unverified_quotes: 1,
        low_quote_density: false,
        action_only_beats: 3,
        rejected_beats: 4,
    });
    let s = o.render_human();
    assert!(s.contains("quality:"));
    assert!(s.contains("quote_density: 0.42"));
    assert!(s.contains("stripped_refs: 2"));
    assert!(s.contains("unverified_quotes: 1"));
    assert!(s.contains("low_quote_density: false"));
    assert!(s.contains("action_only_beats: 3"));
    assert!(s.contains("rejected_beats: 4"));
}

#[test]
fn render_human_artifacts_and_next() {
    let mut artifacts = TextMap::new();
    artifacts.insert("scene_id", "11111111-1111-1111-1111-111111111111".to_string());
    let o = Observation {
        status: Status::Success,
        summary: "derived".into(),
        artifacts,
        quality: None,
        next: vec!["narrate".into(), "show derivation".into()],
    };
    let s = o.render_human();
    assert!(s.contains("artifacts:"));
    assert!(s.contains("scene_id: 11111111-1111-1111-1111-111111111111"));
    assert!(s.contains("next:"));
    assert!(s.contains("  - narrate"));
    assert!(s.contains("  - show derivation"));
}

#[test]
fn render_human_exact_layout_with_sorted_artifacts() {
    let mut artifacts = TextMap::new();
    artifacts.insert("b", "2".to_string());
    artifacts.insert("a", "1".to_string());
    artifacts.insert("b", "3".to_string());
    let o = Observation {
        status: Status::Error,
        summary: "s".into(),
        artifacts,
        quality: None,
        next: vec!["n".into()],
    };
    assert_eq!(
        o.render_human(),
        "status: error\nsummary: s\nartifacts:\n  a: 1\n  b: 3\nnext:\n  - n\n"
    );
}

#[test]
fn text_map_keeps_keys_sorted_and_unique() {
    let mut m = TextMap::new();
    m.insert("zeta", 1u32);
    m.insert("alpha", 2u32);
    m.insert("mid", 3u32);
    m.insert("alpha", 4u32);
    let keys: Vec<&str> = m.entries().iter().map(|e| e.0.as_str()).collect();
    assert_eq!(keys, vec!["alpha", "mid", "zeta"]);
    assert_eq!(m.entries()[0].1, 4);
}

#[test]
fn observation_from_story_error_is_error_with_summary() {
    let o = Observation::from_story_error(&StoryError::Database("x".into()));
    assert_eq!(o.status, Status::Error);
    assert_eq!(o.summary, story_error_summary(&StoryError::Database("x".into())));
    assert!(o.next.is_empty());
}

#[test]
fn query_that_parses_as_uuid_is_looked_up_by_id() {
    assert_eq!(lookup_for("00000000-0000-0000-0000-00000000002a"), Lookup::ById(42));
    assert_eq!(lookup_for("阿蛮"), Lookup::ByText);
    assert_eq!(lookup_for(""), Lookup::ByText);
}

#[test]
fn lookup_by_id_found_or_not_found() {
    assert!(matches!(resolve_by_id(true, 7, "角色", "q"), Ok(7)));
    match resolve_by_id(false, 7, "场景", "00000000-0000-0000-0000-000000000007") {
        Err(e) => assert_eq!(e.summary(), "未找到场景：00000000-0000-0000-0000-000000000007"),
        Ok(_) => panic!("expected not found"),
    }
}

#[test]
fn split_on_quote_free_line_is_whitespace_split() {
    for line in ["character create 宝玉 --tags 痴情", "  a\tb \n c  ", "", "一二　三"] {
        let expected: Vec<String> = line.split_whitespace().map(String::from).collect();
        assert_eq!(split_repl_line(line), expected);
    }
}

#[test]
fn split_tokens_concatenate_to_kept_characters() {
    let line = "scene create \"宝玉 挨打\" --with \"宝玉,黛玉\"";
    assert_eq!(split_repl_line(line).concat(), "scenecreate宝玉 挨打--with宝玉,黛玉");
}

#[test]
fn repl_step_quits_skips_and_runs() {
    assert_eq!(repl_step("  quit "), ReplStep::Quit);
    assert_eq!(repl_step("exit"), ReplStep::Quit);
    assert_eq!(repl_step("   "), ReplStep::Skip);
    assert_eq!(
        repl_step(" scene create \"宝玉挨打\" --with 宝玉 "),
        ReplStep::Run(vec![
            "novels".to_string(),
            "scene".into(),
            "create".into(),
            "宝玉挨打".into(),
            "--with".into(),
            "宝玉".into()
        ])
    );
    assert_eq!(repl_step("quitting"), ReplStep::Run(vec!["novels".to_string(), "quitting".into()]));
}

#[test]
fn quality_figures_take_the_prose_counts() {
    let prose = AssembledProse {
        text: "心中未免悔恨。她坐下".into(),
        stripped_refs: 3,
        rejected_beats: 1,
        action_only_beats: 2,
    };
    let q = quality_from_prose(&prose, "0.4".into(), 4, true);
    assert_eq!(q.quote_density, "0.4");
    assert_eq!(q.stripped_refs, 3);
    assert_eq!(q.unverified_quotes, 4);
    assert!(q.low_quote_density);
    assert_eq!(q.action_only_beats, 2);
    assert_eq!(q.rejected_beats, 1);
}

#[test]
fn command_reports_carry_their_artifacts() {
    let id = CharacterId(1);
    let o = character_created(id);
    assert_eq!(o.status, Status::Success);
    assert_eq!(
        o.render_human(),
        "status: success\nsummary: 角色已创建\nartifacts:\n  character_id: 00000000-0000-0000-0000-000000000001\nnext:\n"
    );
    let mut s = Session::new();
    let o = scene_created(&mut s, SceneId(2));
    assert_eq!(s.current_scene, Some(SceneId(2)));
    assert_eq!(o.summary, "场景已创建");
    let o = context_report(&s);
    assert_eq!(o.summary, "当前上下文");
    assert!(o.render_human().contains("  current_character: \n"));
    assert!(o.render_human().contains("  current_scene: 00000000-0000-0000-0000-000000000002\n"));
    let o = context_cleared(&mut s);
    assert!(s.current_scene.is_none());
    assert_eq!(o.summary, "已清除上下文");
    let o = scene_derived(SceneId(2), 2, 1, false);
    assert_eq!(o.status, Status::Success);
    assert_eq!(o.summary, "推导完成：2 成功，1 失败");
    assert_eq!(o.next, vec!["narrate"]);
    assert!(o.render_human().contains("  err_count: 1\n  ok_count: 2\n  scene_id: "));
    let o = character_derived(SceneId(2), id, true);
    assert_eq!(o.status, Status::Warning);
    assert_eq!(o.summary, "推导完成（非生产质量）");
    let o = derivations_missing(true);
    assert_eq!(o.status, Status::Error);
    assert_eq!(o.summary, "该场景尚无完整推导记录（部分角色未推导）");
    assert_eq!(o.next, vec!["derive"]);
    assert_eq!(participants_missing().summary, "场景至少需要一名参与者");
}

#[test]
fn listing_and_showing_reports() {
    let c = Character {
        id: CharacterId(3),
        name: "宝玉".into(),
        personality: vec!["痴情".into(), "温柔".into()],
        skills: vec![],
    };
    let o = characters_listed(&vec![c.clone()]);
    assert_eq!(o.summary, "1 个角色");
    assert!(o.render_human().contains("  characters: 宝玉 (00000000-0000-0000-0000-000000000003)\n"));
    let o = character_shown(&c);
    assert_eq!(o.summary, "角色：宝玉");
    assert!(o.render_human().contains("  tags: 痴情, 温柔\n"));
    assert!(o.render_human().contains("  skills: \n"));
    let sc = Scene {
        id: SceneId(4),
        objective_event: "宝玉挨打".into(),
        participant_ids: vec![CharacterId(3)],
        occurred_at: Timestamp("2024-01-01T00:00:00+00:00".into()),
    };
    let o = scenes_listed(&vec![sc.clone()]);
    assert_eq!(o.summary, "1 个场景");
    let o = scene_shown(&sc);
    assert!(o.render_human().contains("  occurred_at: 2024-01-01T00:00:00+00:00\n"));
    assert!(o.render_human().contains("  participants: 00000000-0000-0000-0000-000000000003\n"));
}
