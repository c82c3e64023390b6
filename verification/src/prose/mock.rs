//! The offline narration generator.
use vstd::prelude::*;
use crate::models::action::{verb_spec, ActionKind, StructuredAction};
use crate::models::ids::{uuid_string, uuid_text};
use crate::models::text_guard::sanitize_spec;
use crate::models::{Character, StoryError};
use crate::text::{chars_of, owned, take_chars, text_eq, truncate_vec, views};
use super::contract::{BeatView, LlmNarrative, NarrativeBeat};
use super::generator::{CharacterProseCandidates, NarrateRequest};
use super::plan_contract::CameraBeat;

verus! {

/// Number of characters of a camera beat's intent used as the object of
/// the fallback action.
pub const FALLBACK_TARGET_CHARS: usize = 6;

/// The id of the last character named `name` (a later character with the
/// same name replaces an earlier one in the lookup).
pub open spec fn last_named(cs: Seq<Character>, name: Seq<char>) -> Option<u128>
    decreases cs.len(),
{
    if cs.len() == 0 {
        None
    } else if cs.last().name@ == name {
        Some(cs.last().id.0)
    } else {
        last_named(cs.drop_last(), name)
    }
}

/// The first candidate id of the last candidate set of character `id`, as a
/// list of at most one reference.
pub open spec fn first_ref(cands: Seq<CharacterProseCandidates>, id: u128) -> Seq<Seq<char>>
    decreases cands.len(),
{
    if cands.len() == 0 {
        Seq::empty()
    } else if cands.last().character_id.0 == id {
        if cands.last().candidates@.len() > 0 {
            seq![cands.last().candidates@[0].id@]
        } else {
            Seq::empty()
        }
    } else {
        first_ref(cands.drop_last(), id)
    }
}

/// The action text of the fallback beat for camera beat `cb`: the point of
/// view character looks at the first six characters of the intent.
pub open spec fn fallback_action(cb: CameraBeat) -> Seq<char> {
    cb.pov_name@ + verb_spec(ActionKind::LookAt) + sanitize_spec(
        take_chars(cb.intent@, FALLBACK_TARGET_CHARS as int),
        6,
    )
}

/// The fallback beats: one per camera beat whose point-of-view name is a
/// character of the request, in camera order; beats naming no character are
/// skipped.
pub open spec fn fallback_beats(
    cs: Seq<Character>,
    cands: Seq<CharacterProseCandidates>,
    beats: Seq<CameraBeat>,
) -> Seq<BeatView>
    decreases beats.len(),
{
    if beats.len() == 0 {
        Seq::empty()
    } else {
        let prev = fallback_beats(cs, cands, beats.drop_last());
        let cb = beats.last();
        match last_named(cs, cb.pov_name@) {
            None => prev,
            Some(id) => prev.push(
                (uuid_text(id), fallback_action(cb), first_ref(cands, id), cb.beat_id@),
            ),
        }
    }
}

/// The offline narration generator: returns a fixed narration, or (as a
/// fallback) one beat per camera beat of the plan.
pub struct MockProseGenerator {
    response: LlmNarrative,
    is_fallback: bool,
}

impl MockProseGenerator {
    /// The fixed narration (meaningful when not in fallback mode).
    pub closed spec fn response_view(&self) -> Seq<BeatView> {
        self.response@
    }

    /// Whether the generator builds the fallback narration.
    pub closed spec fn fallback_mode(&self) -> bool {
        self.is_fallback
    }

    /// A generator that always returns `response`.
    pub fn new(response: LlmNarrative) -> (g: Self)
        ensures
            !g.fallback_mode(),
            g.response_view() == response@,
    {
        MockProseGenerator { response, is_fallback: false }
    }

    /// A generator that builds the fallback narration for each request.
    pub fn fallback() -> (g: Self)
        ensures
            g.fallback_mode(),
            g.response_view().len() == 0,
    {
        let r = MockProseGenerator { response: LlmNarrative { beats: Vec::new() }, is_fallback: true };
        assert(r.response@ =~= Seq::<BeatView>::empty());
        r
    }

    /// Narrates a scene.  With a fixed narration, returns a copy of it.  In
    /// fallback mode, each camera beat of the plan whose point-of-view name
    /// is a character of the request becomes a beat of that character (its
    /// UUID text) looking at the first six characters of the intent, with
    /// the character's first candidate fragment as its only reference.
    pub fn narrate(&self, req: &NarrateRequest) -> (r: Result<LlmNarrative, StoryError>)
        ensures
            !self.fallback_mode() ==> (r matches Ok(n) && n@ == self.response_view()),
            self.fallback_mode() ==> (r matches Ok(n) && n@ == fallback_beats(
                req.characters@,
                req.candidates@,
                req.plan.scene_card.camera_beats@,
            )),
    {
        if !self.is_fallback {
            return Ok(self.response.clone());
        }
        let cbs = &req.plan.scene_card.camera_beats;
        let mut beats: Vec<NarrativeBeat> = Vec::new();
        let mut i: usize = 0;
        while i < cbs.len()
            invariant
                i <= cbs.len(),
                beats@.map_values(|b: NarrativeBeat| b@) == fallback_beats(
                    req.characters@,
                    req.candidates@,
                    cbs@.take(i as int),
                ),
            decreases cbs.len() - i,
        {
            let cb = &cbs[i];
            let ghost prev = beats@;
            proof {
                assert(cbs@.take(i as int + 1).drop_last() =~= cbs@.take(i as int));
                assert(cbs@.take(i as int + 1).last() == cbs@[i as int]);
            }
            match find_named(&req.characters, cb.pov_name.as_str()) {
                None => {},
                Some(id) => {
                    let target = truncate_vec(&chars_of(cb.intent.as_str()), FALLBACK_TARGET_CHARS);
                    let action = StructuredAction {
                        kind: ActionKind::LookAt,
                        target: Some(target),
                        dialogue: None,
                    };
                    let beat = NarrativeBeat {
                        pov: uuid_string(id),
                        action: action.render(cb.pov_name.as_str()),
                        sensation_refs: first_ref_of(&req.candidates, id),
                        camera_beat_id: owned(cb.beat_id.as_str()),
                    };
                    beats.push(beat);
                    assert(beats@.map_values(|b: NarrativeBeat| b@) =~= prev.map_values(
                        |b: NarrativeBeat| b@,
                    ).push(beat@));
                },
            }
            i = i + 1;
        }
        assert(cbs@.take(cbs@.len() as int) =~= cbs@);
        let n = LlmNarrative { beats };
        Ok(n)
    }
}

/// The id of the last character named `name`.
fn find_named(cs: &Vec<Character>, name: &str) -> (r: Option<u128>)
    ensures
        r == last_named(cs@, name@),
{
    let mut found: Option<u128> = None;
    let mut i: usize = 0;
    while i < cs.len()
        invariant
            i <= cs.len(),
            found == last_named(cs@.take(i as int), name@),
        decreases cs.len() - i,
    {
        assert(cs@.take(i as int + 1).drop_last() =~= cs@.take(i as int));
        if text_eq(cs[i].name.as_str(), name) {
            found = Some(cs[i].id.0);
        }
        i = i + 1;
    }
    assert(cs@.take(cs@.len() as int) =~= cs@);
    found
}

/// The first candidate id of the last candidate set of character `id`.
fn first_ref_of(cands: &Vec<CharacterProseCandidates>, id: u128) -> (r: Vec<String>)
    ensures
        views(r@) == first_ref(cands@, id),
{
    let mut refs: Vec<String> = Vec::new();
    let mut i: usize = 0;
    while i < cands.len()
        invariant
            i <= cands.len(),
            views(refs@) == first_ref(cands@.take(i as int), id),
        decreases cands.len() - i,
    {
        assert(cands@.take(i as int + 1).drop_last() =~= cands@.take(i as int));
        if cands[i].character_id.0 == id {
            let mut next: Vec<String> = Vec::new();
            if cands[i].candidates.len() > 0 {
                next.push(owned(cands[i].candidates[0].id.as_str()));
            }
            refs = next;
            assert(views(refs@) =~= first_ref(cands@.take(i as int + 1), id));
        }
        i = i + 1;
    }
    assert(cands@.take(cands@.len() as int) =~= cands@);
    refs
}

} // verus!
