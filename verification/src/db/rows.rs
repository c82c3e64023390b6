//! Reading the stored five-sense selection of a character: the scene id
//! column and one JSON id list per sense, the first bad column reported.
use vstd::prelude::*;
use crate::models::sensation::id_texts;
use crate::models::{SceneId, SensorySelection, StoryError};
use crate::text::{owned, push_str};
use super::relationship::or_else;
use super::codec::{
    bad_id_database_message, first_invalid_id, lemma_own_text_parses, parse_ids, strings_of_json,
    uuid_parse_str, uuid_parsed,
};
use crate::models::ids::uuid_text;

verus! {

/// The error of a UUID column that does not parse: the column's name and
/// the parser's message.
pub open spec fn column_uuid_error(col: Seq<char>, s: Seq<char>) -> Option<Seq<char>> {
    match uuid_parsed(s) {
        Ok(_) => None,
        Err(e) => Some(col + ": "@ + e),
    }
}

/// Reads a UUID column; fails with a database error `"<col>: <message>"`.
/// The text of an id reads back as that id.
pub fn column_uuid(col: &str, text: &str) -> (r: Result<u128, StoryError>)
    ensures
        uuid_parsed(text@) matches Ok(v) ==> r == Ok::<u128, StoryError>(v),
        column_uuid_error(col@, text@) matches Some(m) ==> (r matches Err(StoryError::Database(e))
            && e@ == m),
        forall|v: u128| #[trigger] uuid_text(v) == text@ ==> r == Ok::<u128, StoryError>(v),
{
    proof {
        lemma_own_text_parses(text@);
    }
    match uuid_parse_str(text) {
        Ok(v) => Ok(v),
        Err(e) => {
            let mut m = owned(col);
            push_str(&mut m, ": ");
            push_str(&mut m, e.as_str());
            Err(StoryError::Database(m))
        },
    }
}

/// The error of a stored id list, if it does not read back.
pub open spec fn ids_error(s: Seq<char>) -> Option<Seq<char>> {
    match strings_of_json(s) {
        Err(e) => Some(e),
        Ok(v) => match first_invalid_id(v, v.len() as int) {
            None => None,
            Some(i) => Some(bad_id_database_message(v[i])),
        },
    }
}

/// The id texts of a stored id list that reads back.
pub open spec fn ids_read(s: Seq<char>) -> Seq<Seq<char>> {
    match strings_of_json(s) {
        Ok(v) => v,
        Err(_) => Seq::empty(),
    }
}

fn read_ids(s: &String) -> (r: Result<Vec<crate::models::VocabularyId>, StoryError>)
    ensures
        ids_error(s@) matches Some(m) ==> (r matches Err(StoryError::Database(e)) && e@ == m),
        ids_error(s@) is None ==> (r matches Ok(ids) && id_texts(ids@) == ids_read(s@)),
{
    parse_ids(s.as_str())
}

/// The columns of a stored sensory selection, as read.
#[derive(Debug, Clone)]
pub struct SensationColumns {
    pub scene_id: String,
    pub visual: String,
    pub auditory: String,
    pub olfactory: String,
    pub tactile: String,
    pub gustatory: String,
    pub emotion: String,
    pub gesture: String,
    pub atmosphere: String,
}

/// The first error reading a stored selection meets, in column order:
/// the scene id, then the senses from visual to atmosphere.
pub open spec fn sensation_error(c: SensationColumns) -> Option<Seq<char>> {
    or_else(
        column_uuid_error("scene_id"@, c.scene_id@),
        or_else(
            ids_error(c.visual@),
            or_else(
                ids_error(c.auditory@),
                or_else(
                    ids_error(c.olfactory@),
                    or_else(
                        ids_error(c.tactile@),
                        or_else(
                            ids_error(c.gustatory@),
                            or_else(
                                ids_error(c.emotion@),
                                or_else(ids_error(c.gesture@), ids_error(c.atmosphere@)),
                            ),
                        ),
                    ),
                ),
            ),
        ),
    )
}

/// Reads a stored sensory selection and the scene it was chosen in; fails
/// with the first database error met (a malformed scene id, an id list
/// that is not JSON, or a malformed id).
pub fn sensation_from_columns(c: &SensationColumns) -> (r: Result<(SensorySelection, SceneId), StoryError>)
    ensures
        sensation_error(*c) matches Some(m) ==> (r matches Err(StoryError::Database(e)) && e@ == m),
        sensation_error(*c) is None ==> (r matches Ok(p) && {
            &&& uuid_parsed(c.scene_id@) == Ok::<u128, Seq<char>>(p.1.0)
            &&& id_texts(p.0.visual_ids@) == ids_read(c.visual@)
            &&& id_texts(p.0.auditory_ids@) == ids_read(c.auditory@)
            &&& id_texts(p.0.olfactory_ids@) == ids_read(c.olfactory@)
            &&& id_texts(p.0.tactile_ids@) == ids_read(c.tactile@)
            &&& id_texts(p.0.gustatory_ids@) == ids_read(c.gustatory@)
            &&& id_texts(p.0.emotion_ids@) == ids_read(c.emotion@)
            &&& id_texts(p.0.gesture_ids@) == ids_read(c.gesture@)
            &&& id_texts(p.0.atmosphere_ids@) == ids_read(c.atmosphere@)
        }),
{
    proof {
        reveal_strlit("scene_id");
    }
    let scene = column_uuid("scene_id", c.scene_id.as_str())?;
    let visual_ids = read_ids(&c.visual)?;
    let auditory_ids = read_ids(&c.auditory)?;
    let olfactory_ids = read_ids(&c.olfactory)?;
    let tactile_ids = read_ids(&c.tactile)?;
    let gustatory_ids = read_ids(&c.gustatory)?;
    let emotion_ids = read_ids(&c.emotion)?;
    let gesture_ids = read_ids(&c.gesture)?;
    let atmosphere_ids = read_ids(&c.atmosphere)?;
    Ok((
        SensorySelection {
            visual_ids,
            auditory_ids,
            olfactory_ids,
            tactile_ids,
            gustatory_ids,
            emotion_ids,
            gesture_ids,
            atmosphere_ids,
        },
        SceneId(scene),
    ))
}

} // verus!
