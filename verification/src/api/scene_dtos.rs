//! Bodies of derivation results: sensations, memories and plot developments.
use vstd::prelude::*;
use crate::models::action::render_reason_spec;
use crate::models::ids::{uuid_string, uuid_text};
use crate::models::memory_source::{certainty_name, memory_source_name};
use crate::models::plot::plot_kind_name;
use crate::models::sensation::{id_texts, sense_list};
use crate::models::{
    CharacterMemory, PlotDevelopment, SensorySelection, StoredPlotDevelopment, VocabularyId,
};
use crate::text::{owned, views};

verus! {

/// The selected ids of each category, as text.
#[derive(Debug, Clone)]
pub struct SensorySelectionDto {
    pub visual: Vec<String>,
    pub auditory: Vec<String>,
    pub olfactory: Vec<String>,
    pub tactile: Vec<String>,
    pub gustatory: Vec<String>,
    pub emotion: Vec<String>,
    pub gesture: Vec<String>,
    pub atmosphere: Vec<String>,
}

/// The list of category `i` of a body (field order).
pub open spec fn dto_list(d: SensorySelectionDto, i: int) -> Seq<String> {
    if i == 0 {
        d.visual@
    } else if i == 1 {
        d.auditory@
    } else if i == 2 {
        d.olfactory@
    } else if i == 3 {
        d.tactile@
    } else if i == 4 {
        d.gustatory@
    } else if i == 5 {
        d.emotion@
    } else if i == 6 {
        d.gesture@
    } else {
        d.atmosphere@
    }
}

/// The texts of a list of ids.
fn id_strings(ids: &Vec<VocabularyId>) -> (r: Vec<String>)
    ensures
        views(r@) == id_texts(ids@),
{
    let mut r: Vec<String> = Vec::new();
    let mut i: usize = 0;
    while i < ids.len()
        invariant
            i <= ids.len(),
            r@.len() == i,
            forall|j: int| 0 <= j < i ==> (#[trigger] r@[j])@ == ids@[j]@,
        decreases ids.len() - i,
    {
        r.push(owned(ids[i].as_str()));
        i = i + 1;
    }
    assert(views(r@) =~= id_texts(ids@));
    r
}

impl SensorySelectionDto {
    /// The body of a selection: each category's ids as text, in order.
    pub fn from_selection(value: SensorySelection) -> (d: Self)
        ensures
            forall|i: int| 0 <= i < 8 ==> views(#[trigger] dto_list(d, i)) == id_texts(sense_list(value, i)),
            views(d.visual@) == id_texts(value.visual_ids@),
            views(d.auditory@) == id_texts(value.auditory_ids@),
            views(d.olfactory@) == id_texts(value.olfactory_ids@),
            views(d.tactile@) == id_texts(value.tactile_ids@),
            views(d.gustatory@) == id_texts(value.gustatory_ids@),
            views(d.emotion@) == id_texts(value.emotion_ids@),
            views(d.gesture@) == id_texts(value.gesture_ids@),
            views(d.atmosphere@) == id_texts(value.atmosphere_ids@),
    {
        SensorySelectionDto {
            visual: id_strings(&value.visual_ids),
            auditory: id_strings(&value.auditory_ids),
            olfactory: id_strings(&value.olfactory_ids),
            tactile: id_strings(&value.tactile_ids),
            gustatory: id_strings(&value.gustatory_ids),
            emotion: id_strings(&value.emotion_ids),
            gesture: id_strings(&value.gesture_ids),
            atmosphere: id_strings(&value.atmosphere_ids),
        }
    }
}

/// A memory as the API shows it.
#[derive(Debug, Clone)]
pub struct MemoryDto {
    pub character_id: String,
    pub content: String,
    pub source: String,
    pub certainty: String,
    pub created_at: String,
}

impl MemoryDto {
    /// The body of a memory: character UUID text, content, the variant
    /// names of its source and certainty, and its RFC 3339 time.
    pub fn from_memory(value: CharacterMemory) -> (d: Self)
        ensures
            d.character_id@ == uuid_text(value.character_id.0),
            d.content == value.content,
            d.source@ == memory_source_name(value.source),
            d.certainty@ == certainty_name(value.certainty),
            d.created_at@ == value.created_at@,
    {
        MemoryDto {
            character_id: uuid_string(value.character_id.0),
            source: owned(value.source.debug_name()),
            certainty: owned(value.certainty.debug_name()),
            created_at: value.created_at.rfc3339(),
            content: value.content,
        }
    }
}

/// A plot development as the API shows it.
#[derive(Debug, Clone)]
pub struct PlotDto {
    pub kind: String,
    pub reason: String,
}

impl PlotDto {
    /// The body of a plot development: the kind's variant name and the
    /// rendered reason.
    pub fn from_development(value: PlotDevelopment) -> (d: Self)
        ensures
            d.kind@ == plot_kind_name(value.kind),
            d.reason@ == render_reason_spec(value.reason),
    {
        PlotDto { kind: owned(value.kind.debug_name()), reason: value.reason.render() }
    }

    /// The body of a stored plot development (its development only).
    pub fn from_stored(value: StoredPlotDevelopment) -> (d: Self)
        ensures
            d.kind@ == plot_kind_name(value.development.kind),
            d.reason@ == render_reason_spec(value.development.reason),
    {
        Self::from_development(value.development)
    }
}

} // verus!
