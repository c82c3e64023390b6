//! Error types.
use vstd::prelude::*;
use crate::text::{ascii_lower, ascii_lower_exec, chars_of, contains_chars, has_sub, owned, push_str};
use super::ids::{
    tagged_uuid, CharacterId, RelationshipCandidateId, SceneId,
};

verus! {

/// Category of an LLM failure, used for retry / operations decisions.
#[derive(Debug, Clone, Copy, PartialEq, Eq, Structural)]
pub enum LlmErrorKind {
    Auth,
    RateLimit,
    Timeout,
    Schema,
    EmptyBeats,
    Other,
}

/// The label `Display` writes for a kind.
pub open spec fn llm_kind_label(k: LlmErrorKind) -> Seq<char> {
    match k {
        LlmErrorKind::Auth => "auth"@,
        LlmErrorKind::RateLimit => "rate_limit"@,
        LlmErrorKind::Timeout => "timeout"@,
        LlmErrorKind::Schema => "schema"@,
        LlmErrorKind::EmptyBeats => "empty_beats"@,
        LlmErrorKind::Other => "other"@,
    }
}

impl LlmErrorKind {
    pub fn label(&self) -> (s: &'static str)
        ensures
            s@ == llm_kind_label(*self),
    {
        match self {
            LlmErrorKind::Auth => "auth",
            LlmErrorKind::RateLimit => "rate_limit",
            LlmErrorKind::Timeout => "timeout",
            LlmErrorKind::Schema => "schema",
            LlmErrorKind::EmptyBeats => "empty_beats",
            LlmErrorKind::Other => "other",
        }
    }
}

/// Every error the library reports.
#[derive(Debug, Clone)]
pub enum StoryError {
    SceneNotFound(SceneId),
    CharacterNotFound(CharacterId),
    NotSceneParticipant(CharacterId, SceneId),
    InvalidParticipant(String),
    VocabularyLoad(String),
    InvalidVocabularySelection(String),
    InvalidNarrationContext(String),
    Llm { kind: LlmErrorKind, message: String },
    Database(String),
    RelationshipCandidateNotFound(RelationshipCandidateId),
    RelationshipCandidateResolved(RelationshipCandidateId),
    InvalidRelationshipCandidate(String),
}

/// The heuristic classification of an LLM error text, matched in this order
/// on the ASCII-lowercased text:
/// `401`/`unauthorized` -> Auth, `429`/`rate` -> RateLimit,
/// `timeout`/`timed out` -> Timeout, `schema`/`json`/`deserialize` -> Schema,
/// anything else -> Other.
pub open spec fn classify_spec(message: Seq<char>) -> LlmErrorKind {
    let lower = ascii_lower(message);
    if has_sub(lower, "401"@) || has_sub(lower, "unauthorized"@) {
        LlmErrorKind::Auth
    } else if has_sub(lower, "429"@) || has_sub(lower, "rate"@) {
        LlmErrorKind::RateLimit
    } else if has_sub(lower, "timeout"@) || has_sub(lower, "timed out"@) {
        LlmErrorKind::Timeout
    } else if has_sub(lower, "schema"@) || has_sub(lower, "json"@) || has_sub(
        lower,
        "deserialize"@,
    ) {
        LlmErrorKind::Schema
    } else {
        LlmErrorKind::Other
    }
}

/// Classifies an LLM error by its debug text.
pub fn classify_debug(message: &str) -> (k: LlmErrorKind)
    ensures
        k == classify_spec(message@),
{
    let lower = ascii_lower_exec(message);
    if contains_chars(&lower, &chars_of("401")) || contains_chars(&lower, &chars_of("unauthorized")) {
        LlmErrorKind::Auth
    } else if contains_chars(&lower, &chars_of("429")) || contains_chars(&lower, &chars_of("rate")) {
        LlmErrorKind::RateLimit
    } else if contains_chars(&lower, &chars_of("timeout")) || contains_chars(
        &lower,
        &chars_of("timed out"),
    ) {
        LlmErrorKind::Timeout
    } else if contains_chars(&lower, &chars_of("schema")) || contains_chars(
        &lower,
        &chars_of("json"),
    ) || contains_chars(&lower, &chars_of("deserialize")) {
        LlmErrorKind::Schema
    } else {
        LlmErrorKind::Other
    }
}

/// The message `Display` writes for an error.
pub open spec fn story_error_text(e: StoryError) -> Seq<char> {
    match e {
        StoryError::SceneNotFound(id) => "scene not found: "@ + tagged_uuid("SceneId"@, id.0),
        StoryError::CharacterNotFound(id) => "character not found: "@ + tagged_uuid(
            "CharacterId"@,
            id.0,
        ),
        StoryError::NotSceneParticipant(c, s) => "character "@ + tagged_uuid("CharacterId"@, c.0)
            + " is not a participant of scene "@ + tagged_uuid("SceneId"@, s.0),
        StoryError::InvalidParticipant(m) => "invalid participant: "@ + m@,
        StoryError::VocabularyLoad(m) => "vocabulary load error: "@ + m@,
        StoryError::InvalidVocabularySelection(m) => "invalid vocabulary selection: "@ + m@,
        StoryError::InvalidNarrationContext(m) => "invalid narration context: "@ + m@,
        StoryError::Llm { kind, message } => "llm error ("@ + llm_kind_label(kind) + "): "@
            + message@,
        StoryError::Database(m) => "database error: "@ + m@,
        StoryError::RelationshipCandidateNotFound(id) => "relationship candidate not found: "@
            + tagged_uuid("RelationshipCandidateId"@, id.0),
        StoryError::RelationshipCandidateResolved(id) =>
            "relationship candidate already resolved: "@ + tagged_uuid(
            "RelationshipCandidateId"@,
            id.0,
        ),
        StoryError::InvalidRelationshipCandidate(m) => "invalid relationship candidate: "@ + m@,
    }
}

fn prefixed(prefix: &str, rest: &str) -> (s: String)
    ensures
        s@ == prefix@ + rest@,
{
    let mut s = owned(prefix);
    push_str(&mut s, rest);
    s
}

impl StoryError {
    /// An LLM error of kind `Other`.
    pub fn llm(message: String) -> (e: Self)
        ensures
            e == (StoryError::Llm { kind: LlmErrorKind::Other, message }),
    {
        StoryError::Llm { kind: LlmErrorKind::Other, message }
    }

    /// An LLM error built from the debug text of the underlying failure,
    /// classified by [`classify_debug`]; the text is kept as the message.
    pub fn llm_from_debug(debug_text: &str) -> (e: Self)
        ensures
            e matches StoryError::Llm { kind, message } && kind == classify_spec(debug_text@)
                && message@ == debug_text@,
    {
        let kind = classify_debug(debug_text);
        StoryError::Llm { kind, message: owned(debug_text) }
    }

    /// The error's message (what `Display` writes).
    pub fn describe(&self) -> (s: String)
        ensures
            s@ == story_error_text(*self),
    {
        match self {
            StoryError::SceneNotFound(id) => prefixed("scene not found: ", id.debug_text().as_str()),
            StoryError::CharacterNotFound(id) => prefixed(
                "character not found: ",
                id.debug_text().as_str(),
            ),
            StoryError::NotSceneParticipant(c, sc) => {
                let mut s = prefixed("character ", c.debug_text().as_str());
                push_str(&mut s, " is not a participant of scene ");
                push_str(&mut s, sc.debug_text().as_str());
                s
            },
            StoryError::InvalidParticipant(m) => prefixed("invalid participant: ", m.as_str()),
            StoryError::VocabularyLoad(m) => prefixed("vocabulary load error: ", m.as_str()),
            StoryError::InvalidVocabularySelection(m) => prefixed(
                "invalid vocabulary selection: ",
                m.as_str(),
            ),
            StoryError::InvalidNarrationContext(m) => prefixed(
                "invalid narration context: ",
                m.as_str(),
            ),
            StoryError::Llm { kind, message } => {
                let mut s = prefixed("llm error (", kind.label());
                push_str(&mut s, "): ");
                push_str(&mut s, message.as_str());
                s
            },
            StoryError::Database(m) => prefixed("database error: ", m.as_str()),
            StoryError::RelationshipCandidateNotFound(id) => prefixed(
                "relationship candidate not found: ",
                id.debug_text().as_str(),
            ),
            StoryError::RelationshipCandidateResolved(id) => prefixed(
                "relationship candidate already resolved: ",
                id.debug_text().as_str(),
            ),
            StoryError::InvalidRelationshipCandidate(m) => prefixed(
                "invalid relationship candidate: ",
                m.as_str(),
            ),
        }
    }
}

/// Each model error kind is labelled by its snake_case name.
pub proof fn lemma_llm_kind_labels()
    ensures
        llm_kind_label(LlmErrorKind::Auth) == "auth"@,
        llm_kind_label(LlmErrorKind::RateLimit) == "rate_limit"@,
        llm_kind_label(LlmErrorKind::Timeout) == "timeout"@,
        llm_kind_label(LlmErrorKind::Schema) == "schema"@,
        llm_kind_label(LlmErrorKind::EmptyBeats) == "empty_beats"@,
        llm_kind_label(LlmErrorKind::Other) == "other"@,
{
}

/// An error carrying a message is written as its own prefix followed by
/// the message: each kind of error names itself.
pub proof fn lemma_error_texts(m: String, kind: LlmErrorKind)
    ensures
        story_error_text(StoryError::InvalidParticipant(m)) == "invalid participant: "@ + m@,
        story_error_text(StoryError::VocabularyLoad(m)) == "vocabulary load error: "@ + m@,
        story_error_text(StoryError::InvalidVocabularySelection(m)) == "invalid vocabulary selection: "@ + m@,
        story_error_text(StoryError::InvalidNarrationContext(m)) == "invalid narration context: "@ + m@,
        story_error_text(StoryError::Database(m)) == "database error: "@ + m@,
        story_error_text(StoryError::InvalidRelationshipCandidate(m)) == "invalid relationship candidate: "@ + m@,
        story_error_text(StoryError::Llm { kind, message: m }) == "llm error ("@ + llm_kind_label(kind)
            + "): "@ + m@,
{
}

/// Classification ignores letter case, and checks its signals in order:
/// a mention of 401 or "unauthorized" is an authentication error whatever
/// else the text says; failing that, 429 or "rate" a rate limit; failing
/// that, a timeout; failing that, a schema error on "schema", "json" or
/// "deserialize"; any other text is `Other`.
pub proof fn lemma_classify_rules(m: Seq<char>)
    ensures
        classify_spec(ascii_lower(m)) == classify_spec(m),
        has_sub(ascii_lower(m), "401"@) || has_sub(ascii_lower(m), "unauthorized"@) ==> classify_spec(m)
            == LlmErrorKind::Auth,
        !(has_sub(ascii_lower(m), "401"@) || has_sub(ascii_lower(m), "unauthorized"@)) && (has_sub(
            ascii_lower(m),
            "429"@,
        ) || has_sub(ascii_lower(m), "rate"@)) ==> classify_spec(m) == LlmErrorKind::RateLimit,
        classify_spec(m) == LlmErrorKind::Timeout ==> has_sub(ascii_lower(m), "timeout"@) || has_sub(
            ascii_lower(m),
            "timed out"@,
        ),
        classify_spec(m) == LlmErrorKind::Schema ==> has_sub(ascii_lower(m), "schema"@) || has_sub(
            ascii_lower(m),
            "json"@,
        ) || has_sub(ascii_lower(m), "deserialize"@),
        classify_spec(m) == LlmErrorKind::Other ==> !has_sub(ascii_lower(m), "401"@) && !has_sub(
            ascii_lower(m),
            "429"@,
        ) && !has_sub(ascii_lower(m), "timeout"@) && !has_sub(ascii_lower(m), "json"@),
        classify_spec(m) != LlmErrorKind::EmptyBeats,
{
    assert(ascii_lower(ascii_lower(m)) =~= ascii_lower(m));
}

} // verus!
