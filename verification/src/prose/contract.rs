//! Output contract of the narration model.
use vstd::prelude::*;
use crate::prose::plan_contract::copy_strings;
use crate::text::{owned, views};

verus! {

/// The narration the model returns: a sequence of beats.
#[derive(Debug)]
pub struct LlmNarrative {
    pub beats: Vec<NarrativeBeat>,
}

/// One narrative beat: a short stretch of narration from one point of view.
/// The model writes only `action` (objective action and dialogue); every
/// description is referenced by fragment id in `sensation_refs`.
#[derive(Debug)]
pub struct NarrativeBeat {
    /// UUID text of the point-of-view character (must be a participant).
    pub pov: String,
    /// Objective action and dialogue only.
    pub action: String,
    /// Ids of description fragments, chosen from the pov character's candidates.
    pub sensation_refs: Vec<String>,
    /// The camera beat of the scene plan this beat covers.
    pub camera_beat_id: String,
}

/// The view of a beat: `(pov, action, sensation_refs, camera_beat_id)`.
pub type BeatView = (Seq<char>, Seq<char>, Seq<Seq<char>>, Seq<char>);

impl View for NarrativeBeat {
    type V = BeatView;

    open spec fn view(&self) -> BeatView {
        (self.pov@, self.action@, views(self.sensation_refs@), self.camera_beat_id@)
    }
}

impl View for LlmNarrative {
    type V = Seq<BeatView>;

    open spec fn view(&self) -> Seq<BeatView> {
        self.beats@.map_values(|b: NarrativeBeat| b@)
    }
}

impl Clone for NarrativeBeat {
    fn clone(&self) -> (r: Self)
        ensures
            r@ == self@,
    {
        NarrativeBeat {
            pov: owned(self.pov.as_str()),
            action: owned(self.action.as_str()),
            sensation_refs: copy_strings(&self.sensation_refs),
            camera_beat_id: owned(self.camera_beat_id.as_str()),
        }
    }
}

impl Clone for LlmNarrative {
    fn clone(&self) -> (r: Self)
        ensures
            r@ == self@,
    {
        let mut beats: Vec<NarrativeBeat> = Vec::new();
        let mut i: usize = 0;
        while i < self.beats.len()
            invariant
                i <= self.beats.len(),
                beats@.len() == i,
                forall|j: int| 0 <= j < i ==> (#[trigger] beats@[j])@ == self.beats@[j]@,
            decreases self.beats.len() - i,
        {
            beats.push(self.beats[i].clone());
            i = i + 1;
        }
        let r = LlmNarrative { beats };
        assert(r@ =~= self@);
        r
    }
}

} // verus!
