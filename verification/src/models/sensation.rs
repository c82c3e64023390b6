//! Sensory and descriptive selections of a character in a scene.
use vstd::prelude::*;
use super::ids::VocabularyId;

verus! {

/// The eight description categories, in field order: the five senses, then
/// emotion, gesture and atmosphere.
pub open spec fn sense_names() -> Seq<Seq<char>> {
    seq![
        "visual"@,
        "auditory"@,
        "olfactory"@,
        "tactile"@,
        "gustatory"@,
        "emotion"@,
        "gesture"@,
        "atmosphere"@,
    ]
}

/// The name of category `i` (field order).
pub fn sense_name(i: usize) -> (s: &'static str)
    requires
        i < 8,
    ensures
        s@ == sense_names()[i as int],
{
    match i {
        0 => "visual",
        1 => "auditory",
        2 => "olfactory",
        3 => "tactile",
        4 => "gustatory",
        5 => "emotion",
        6 => "gesture",
        _ => "atmosphere",
    }
}

/// Selected vocabulary ids, one list per category.
#[derive(Debug, Clone)]
pub struct SensorySelection {
    pub visual_ids: Vec<VocabularyId>,
    pub auditory_ids: Vec<VocabularyId>,
    pub olfactory_ids: Vec<VocabularyId>,
    pub tactile_ids: Vec<VocabularyId>,
    pub gustatory_ids: Vec<VocabularyId>,
    pub emotion_ids: Vec<VocabularyId>,
    pub gesture_ids: Vec<VocabularyId>,
    pub atmosphere_ids: Vec<VocabularyId>,
}

/// The texts of a list of ids.
pub open spec fn id_texts(v: Seq<VocabularyId>) -> Seq<Seq<char>> {
    v.map_values(|id: VocabularyId| id@)
}

/// The list of category `i` (field order).
pub open spec fn sense_list(s: SensorySelection, i: int) -> Seq<VocabularyId> {
    if i == 0 {
        s.visual_ids@
    } else if i == 1 {
        s.auditory_ids@
    } else if i == 2 {
        s.olfactory_ids@
    } else if i == 3 {
        s.tactile_ids@
    } else if i == 4 {
        s.gustatory_ids@
    } else if i == 5 {
        s.emotion_ids@
    } else if i == 6 {
        s.gesture_ids@
    } else {
        s.atmosphere_ids@
    }
}

/// The id texts of the first `n` categories (field order), concatenated.
pub open spec fn refs_upto(s: SensorySelection, n: int) -> Seq<Seq<char>>
    decreases n,
{
    if n <= 0 {
        Seq::empty()
    } else {
        refs_upto(s, n - 1) + id_texts(sense_list(s, n - 1))
    }
}

/// Every selected id text, category by category in field order.
pub open spec fn selection_refs(s: SensorySelection) -> Seq<Seq<char>> {
    refs_upto(s, 8)
}

impl SensorySelection {
    /// A selection with every list empty.
    pub fn empty() -> (s: Self)
        ensures
            forall|i: int| 0 <= i < 8 ==> sense_list(s, i).len() == 0,
    {
        SensorySelection {
            visual_ids: Vec::new(),
            auditory_ids: Vec::new(),
            olfactory_ids: Vec::new(),
            tactile_ids: Vec::new(),
            gustatory_ids: Vec::new(),
            emotion_ids: Vec::new(),
            gesture_ids: Vec::new(),
            atmosphere_ids: Vec::new(),
        }
    }

    /// The list of category `i` (field order).
    pub fn field(&self, i: usize) -> (v: &Vec<VocabularyId>)
        requires
            i < 8,
        ensures
            v@ == sense_list(*self, i as int),
    {
        match i {
            0 => &self.visual_ids,
            1 => &self.auditory_ids,
            2 => &self.olfactory_ids,
            3 => &self.tactile_ids,
            4 => &self.gustatory_ids,
            5 => &self.emotion_ids,
            6 => &self.gesture_ids,
            _ => &self.atmosphere_ids,
        }
    }

    /// Adds `id` to the list of category `i` (field order).
    pub fn push_to(&mut self, i: usize, id: VocabularyId)
        requires
            i < 8,
        ensures
            sense_list(*final(self), i as int) == sense_list(*old(self), i as int).push(id),
            forall|j: int| 0 <= j < 8 && j != i ==> sense_list(*final(self), j) == sense_list(
                *old(self),
                j,
            ),
    {
        match i {
            0 => self.visual_ids.push(id),
            1 => self.auditory_ids.push(id),
            2 => self.olfactory_ids.push(id),
            3 => self.tactile_ids.push(id),
            4 => self.gustatory_ids.push(id),
            5 => self.emotion_ids.push(id),
            6 => self.gesture_ids.push(id),
            _ => self.atmosphere_ids.push(id),
        }
    }
}

impl Default for SensorySelection {
    fn default() -> (s: Self)
        ensures
            forall|i: int| 0 <= i < 8 ==> sense_list(s, i).len() == 0,
    {
        SensorySelection::empty()
    }
}

/// Category `i` is named after the field it lists: visual, auditory,
/// olfactory, tactile, gustatory, emotion, gesture, atmosphere.
pub proof fn lemma_categories_name_their_fields(s: SensorySelection)
    ensures
        sense_names()[0] == "visual"@ && sense_list(s, 0) == s.visual_ids@,
        sense_names()[1] == "auditory"@ && sense_list(s, 1) == s.auditory_ids@,
        sense_names()[2] == "olfactory"@ && sense_list(s, 2) == s.olfactory_ids@,
        sense_names()[3] == "tactile"@ && sense_list(s, 3) == s.tactile_ids@,
        sense_names()[4] == "gustatory"@ && sense_list(s, 4) == s.gustatory_ids@,
        sense_names()[5] == "emotion"@ && sense_list(s, 5) == s.emotion_ids@,
        sense_names()[6] == "gesture"@ && sense_list(s, 6) == s.gesture_ids@,
        sense_names()[7] == "atmosphere"@ && sense_list(s, 7) == s.atmosphere_ids@,
{
}

} // verus!
