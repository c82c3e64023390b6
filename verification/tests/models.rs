use novels::models::action::{ActionKind, PlotReasonSlot, StructuredAction};
use novels::models::relationship::{CandidateStatus, RelationshipType};
use novels::models::text_guard::sanitize_free_text;
use novels::models::{classify_debug, validate_score, LlmErrorKind, StoryError, VocabularyId};

#[test]
fn structured_action_render_simple() {
    let action = StructuredAction { kind: ActionKind::LookAt, target: Some("尸体".into()), dialogue: None };
    assert_eq!(action.render("她"), "她看向尸体");
}

#[test]
fn structured_action_render_with_dialogue() {
    let action = StructuredAction {
        kind: ActionKind::LookAt,
        target: Some("那人".into()),
        dialogue: Some("你是谁？".into()),
    };
    assert_eq!(action.render("她"), "她看向那人道：你是谁？");
}

#[test]
fn structured_action_speech_only() {
    let action = StructuredAction { kind: ActionKind::Say, target: None, dialogue: Some("此事蹊跷。".into()) };
    assert_eq!(action.render("他"), "他道：此事蹊跷。");
}

#[test]
fn structured_action_cleanup_fillers() {
    let action = StructuredAction {
        kind: ActionKind::LookAt,
        target: Some("因此尸体".into()),
        dialogue: Some("于是你是谁？".into()),
    };
    let result = action.render("她");
    assert!(!result.contains("因此"));
    assert!(!result.contains("于是"));
}

#[test]
fn plot_reason_slot_render() {
    let reason = PlotReasonSlot::Observed("血迹".into());
    assert_eq!(reason.render(), "见血迹");
    let reason = PlotReasonSlot::Heard("异响".into());
    assert_eq!(reason.render(), "闻异响");
    let reason = PlotReasonSlot::NoticedAnomaly("面色".into());
    assert_eq!(reason.render(), "觉面色有异");
}

#[test]
fn plot_reason_slot_cleans_fillers() {
    let reason = PlotReasonSlot::Observed("因此有人".into());
    let result = reason.render();
    assert!(!result.contains("因此"));
    assert!(result.contains("见"));
}

#[test]
fn plot_reason_slot_clamps_length() {
    let long = "人".repeat(30);
    let reason = PlotReasonSlot::Other(long);
    let result = reason.render();
    assert!(result.chars().count() <= 20);
}

#[test]
fn all_action_kinds_have_verbs() {
    let kinds = [
        ActionKind::MoveToward,
        ActionKind::MoveAway,
        ActionKind::Enter,
        ActionKind::Exit,
        ActionKind::StandUp,
        ActionKind::SitDown,
        ActionKind::Turn,
        ActionKind::StepForward,
        ActionKind::StepBack,
        ActionKind::LookAt,
        ActionKind::GlanceAt,
        ActionKind::StareAt,
        ActionKind::PeerAt,
        ActionKind::Reach,
        ActionKind::Touch,
        ActionKind::Hold,
        ActionKind::Drop,
        ActionKind::Bow,
        ActionKind::Nod,
        ActionKind::ShakeHead,
        ActionKind::Frown,
        ActionKind::Smile,
        ActionKind::Sigh,
        ActionKind::Say,
        ActionKind::Ask,
        ActionKind::Answer,
        ActionKind::Whisper,
        ActionKind::Shout,
        ActionKind::Exclaim,
        ActionKind::Grab,
        ActionKind::Push,
        ActionKind::Pull,
        ActionKind::Help,
        ActionKind::Pause,
        ActionKind::Hesitate,
        ActionKind::Search,
        ActionKind::Inspect,
    ];
    for kind in kinds {
        let action = StructuredAction { kind, target: None, dialogue: None };
        let verb = action.action_verb();
        assert!(!verb.is_empty(), "ActionKind {:?} has empty verb", kind);
        let rendered = action.render("他");
        assert!(rendered.starts_with("他"));
        assert!(rendered.len() > 1);
    }
}

#[test]
fn llm_helper_defaults_to_other() {
    let e = StoryError::llm("boom".to_string());
    assert!(matches!(
        e,
        StoryError::Llm { kind: LlmErrorKind::Other, message } if message == "boom"
    ));
}

#[test]
fn classify_auth_variants() {
    assert_eq!(classify_debug("HTTP 401 Unauthorized"), LlmErrorKind::Auth);
    assert_eq!(classify_debug("unauthorized api key"), LlmErrorKind::Auth);
}

#[test]
fn classify_rate_limit_variants() {
    assert_eq!(classify_debug("429 Too Many Requests"), LlmErrorKind::RateLimit);
    assert_eq!(classify_debug("rate limit exceeded"), LlmErrorKind::RateLimit);
}

#[test]
fn classify_timeout_variants() {
    assert_eq!(classify_debug("request timeout"), LlmErrorKind::Timeout);
    assert_eq!(classify_debug("operation timed out"), LlmErrorKind::Timeout);
}

#[test]
fn classify_schema_variants() {
    assert_eq!(classify_debug("json deserialize error"), LlmErrorKind::Schema);
    assert_eq!(classify_debug("schema mismatch"), LlmErrorKind::Schema);
}

#[test]
fn classify_other_for_unknown() {
    assert_eq!(classify_debug("connection reset by peer"), LlmErrorKind::Other);
}

#[test]
fn llm_from_debug_classifies_and_preserves_message() {
    let e = StoryError::llm_from_debug(&format!("{:?}", 401_u16));
    assert!(matches!(e, StoryError::Llm { kind: LlmErrorKind::Auth, .. }));
}

#[test]
fn display_includes_kind_and_message() {
    let e = StoryError::llm("boom".to_string());
    let s = e.describe();
    assert!(s.contains("other"), "display: {s}");
    assert!(s.contains("boom"), "display: {s}");
}

#[test]
fn error_messages_are_exact() {
    assert_eq!(StoryError::llm("boom".to_string()).describe(), "llm error (other): boom");
    assert_eq!(StoryError::Database("x".into()).describe(), "database error: x");
    assert_eq!(
        StoryError::CharacterNotFound(novels::models::CharacterId(1)).describe(),
        "character not found: CharacterId(00000000-0000-0000-0000-000000000001)"
    );
}

#[test]
fn classify_checks_in_priority_order() {
    // "401" wins over "timeout" because auth is checked first.
    assert_eq!(classify_debug("401 timeout"), LlmErrorKind::Auth);
    assert_eq!(classify_debug("RATE LIMIT"), LlmErrorKind::RateLimit);
}

#[test]
fn vocabulary_id_splits_at_first_dot() {
    let id = VocabularyId::new("visual.blood.stain").unwrap();
    assert_eq!(id.sense(), "visual");
    assert_eq!(id.key(), "blood.stain");
    assert_eq!(id.as_str(), "visual.blood.stain");
}

#[test]
fn vocabulary_id_rejects_malformed() {
    match VocabularyId::new("nodot") {
        Err(StoryError::InvalidVocabularySelection(m)) => assert_eq!(m, "missing '.' in nodot"),
        _ => panic!("expected error"),
    }
    match VocabularyId::new(".key") {
        Err(StoryError::InvalidVocabularySelection(m)) => assert_eq!(m, "empty segment in .key"),
        _ => panic!("expected error"),
    }
    assert!(VocabularyId::new("visual.").is_err());
}

#[test]
fn sanitize_removes_fillers_trims_and_clamps() {
    assert_eq!(sanitize_free_text("  因此他走了  ", 30), "他走了");
    assert_eq!(sanitize_free_text("一二三四五六", 4), "一二三四");
    assert_eq!(sanitize_free_text("由于于是", 10), "");
}

#[test]
fn score_validation_bounds() {
    assert!(validate_score(None).is_ok());
    assert!(validate_score(Some(100)).is_ok());
    match validate_score(Some(101)) {
        Err(StoryError::InvalidRelationshipCandidate(m)) => assert_eq!(m, "score 101 exceeds maximum 100"),
        _ => panic!("expected error"),
    }
}

#[test]
fn candidate_transitions_only_from_pending() {
    assert!(CandidateStatus::Pending.can_transition_to(CandidateStatus::Accepted));
    assert!(CandidateStatus::Pending.can_transition_to(CandidateStatus::Rejected));
    assert!(!CandidateStatus::Accepted.can_transition_to(CandidateStatus::Rejected));
    assert!(!CandidateStatus::Rejected.can_transition_to(CandidateStatus::Pending));
    assert!(!CandidateStatus::Pending.can_transition_to(CandidateStatus::Pending));
    assert_eq!(RelationshipType::Knows.debug_name(), "Knows");
}
