//! Commands of the command-line harness.
use vstd::prelude::*;

verus! {

/// Top-level commands.
#[derive(Debug, Clone)]
pub enum Commands {
    /// Interactive story-operation loop.
    Repl,
    Character(CharacterCmd),
    Scene(SceneCmd),
    Derive { scene: Option<String>, character: Option<String> },
    Narrate { scene: Option<String> },
    Show(ShowCmd),
    Use(UseCmd),
    /// Print the current session context.
    Context,
}

/// Character commands.
#[derive(Debug, Clone)]
pub enum CharacterCmd {
    Create { name: String, tags: Option<String>, skills: Option<String> },
    List,
    Show { id_or_name: String },
}

/// Scene commands.
#[derive(Debug, Clone)]
pub enum SceneCmd {
    /// `with`: comma-separated participant names or UUIDs.
    Create { event: String, with: String },
    List,
    Show { id_or_name: String },
}

/// Show commands.
#[derive(Debug, Clone)]
pub enum ShowCmd {
    Derivation { scene: Option<String>, character: Option<String> },
    Prose { scene: Option<String> },
}

/// Session-context commands.
#[derive(Debug, Clone)]
pub enum UseCmd {
    Scene { id_or_name: String },
    Character { id_or_name: String },
    Clear,
}

} // verus!
