//! Characters.
use vstd::prelude::*;
use super::ids::CharacterId;

verus! {

/// A character: name, personality tags and skills.
#[derive(Debug, Clone)]
pub struct Character {
    pub id: CharacterId,
    pub name: String,
    pub personality: Vec<String>,
    pub skills: Vec<String>,
}

/// Physical / narrative state of a character.
#[derive(Debug, Clone, PartialEq, Eq)]
pub enum CharacterState {
    Alive,
    Dead,
    Absent,
    Injured(String),
    Holding(String),
}

impl CharacterState {
    /// The default state, `Alive`.
    pub fn initial() -> (s: Self)
        ensures
            s == CharacterState::Alive,
    {
        CharacterState::Alive
    }
}

} // verus!
