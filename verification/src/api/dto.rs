//! Character and scene bodies.
use vstd::prelude::*;
use crate::models::ids::{uuid_string, uuid_text};
use crate::models::{CharacterId, Character, Scene};

verus! {

/// A character as the API shows it.
#[derive(Debug, Clone)]
pub struct CharacterDto {
    pub id: String,
    pub name: String,
    pub personality: Vec<String>,
    pub skills: Vec<String>,
}

impl CharacterDto {
    /// The body of a character: its UUID text, name, personality and skills.
    pub fn from_character(value: Character) -> (d: Self)
        ensures
            d.id@ == uuid_text(value.id.0),
            d.name == value.name,
            d.personality == value.personality,
            d.skills == value.skills,
    {
        CharacterDto {
            id: uuid_string(value.id.0),
            name: value.name,
            personality: value.personality,
            skills: value.skills,
        }
    }
}

/// A request to create a character.
#[derive(Debug, Clone)]
pub struct CreateCharacterRequest {
    pub name: String,
    pub personality: Vec<String>,
    pub skills: Vec<String>,
}

/// A scene as the API shows it.
#[derive(Debug, Clone)]
pub struct SceneDto {
    pub id: String,
    pub objective_event: String,
    pub participant_ids: Vec<String>,
    pub occurred_at: String,
}

/// The UUID texts of a list of character ids.
pub open spec fn id_texts_of(ids: Seq<CharacterId>) -> Seq<Seq<char>> {
    ids.map_values(|id: CharacterId| uuid_text(id.0))
}

/// The UUID texts of a list of character ids.
pub fn character_id_texts(ids: &Vec<CharacterId>) -> (r: Vec<String>)
    ensures
        r@.map_values(|s: String| s@) == id_texts_of(ids@),
{
    let mut r: Vec<String> = Vec::new();
    let mut i: usize = 0;
    while i < ids.len()
        invariant
            i <= ids.len(),
            r@.len() == i,
            forall|j: int| 0 <= j < i ==> (#[trigger] r@[j])@ == uuid_text(ids@[j].0),
        decreases ids.len() - i,
    {
        r.push(uuid_string(ids[i].0));
        i = i + 1;
    }
    assert(r@.map_values(|s: String| s@) =~= id_texts_of(ids@));
    r
}

impl SceneDto {
    /// The body of a scene: its UUID text, event, participant UUID texts and
    /// RFC 3339 time.
    pub fn from_scene(value: Scene) -> (d: Self)
        ensures
            d.id@ == uuid_text(value.id.0),
            d.objective_event == value.objective_event,
            d.participant_ids@.map_values(|s: String| s@) == id_texts_of(value.participant_ids@),
            d.occurred_at@ == value.occurred_at@,
    {
        SceneDto {
            id: uuid_string(value.id.0),
            participant_ids: character_id_texts(&value.participant_ids),
            occurred_at: value.occurred_at.rfc3339(),
            objective_event: value.objective_event,
        }
    }
}

/// A request to create a scene (ids and time as text).
#[derive(Debug, Clone)]
pub struct CreateSceneRequest {
    pub objective_event: String,
    pub participant_ids: Vec<String>,
    pub occurred_at: String,
}

} // verus!
