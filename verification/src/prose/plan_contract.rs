//! Output contract of the scene planner: a story outline and a scene card
//! whose camera beats the narration covers one by one.
use vstd::prelude::*;
use crate::text::{decimal, owned, push_decimal, push_str, take_chars, truncate_vec, chars_of, views};

verus! {

/// One act of the outline.
#[derive(Debug, PartialEq, Eq)]
pub struct OutlineAct {
    pub act_id: String,
    pub summary: String,
    pub emotional_beat: String,
    pub stakes: String,
}

/// The story outline: a one-line premise and its acts.
#[derive(Debug, PartialEq, Eq)]
pub struct StoryOutline {
    pub premise_one_liner: String,
    pub acts: Vec<OutlineAct>,
}

/// One camera beat of a scene card.
#[derive(Debug, PartialEq, Eq)]
pub struct CameraBeat {
    pub beat_id: String,
    /// Display name of the point-of-view character; narration maps it to the
    /// character's id.
    pub pov_name: String,
    pub intent: String,
    pub must_show: Vec<String>,
    pub location_hint: String,
}

/// The scene card: when, where, who is on stage and the camera beats.
#[derive(Debug, PartialEq, Eq)]
pub struct SceneCard {
    pub when: String,
    pub where_place: String,
    pub on_stage: Vec<String>,
    pub camera_beats: Vec<CameraBeat>,
}

/// A scene plan: outline plus scene card.
#[derive(Debug, PartialEq, Eq)]
pub struct LlmScenePlan {
    pub outline: StoryOutline,
    pub scene_card: SceneCard,
}


// ---------------------------------------------------------------------------
// Views and copies
// ---------------------------------------------------------------------------

impl View for OutlineAct {
    /// `(act_id, summary, emotional_beat, stakes)`.
    type V = (Seq<char>, Seq<char>, Seq<char>, Seq<char>);

    open spec fn view(&self) -> Self::V {
        (self.act_id@, self.summary@, self.emotional_beat@, self.stakes@)
    }
}

impl View for StoryOutline {
    /// `(premise_one_liner, acts)`.
    type V = (Seq<char>, Seq<(Seq<char>, Seq<char>, Seq<char>, Seq<char>)>);

    open spec fn view(&self) -> Self::V {
        (self.premise_one_liner@, self.acts@.map_values(|a: OutlineAct| a@))
    }
}

impl View for CameraBeat {
    /// `(beat_id, pov_name, intent, must_show, location_hint)`.
    type V = (Seq<char>, Seq<char>, Seq<char>, Seq<Seq<char>>, Seq<char>);

    open spec fn view(&self) -> Self::V {
        (self.beat_id@, self.pov_name@, self.intent@, views(self.must_show@), self.location_hint@)
    }
}

impl View for SceneCard {
    /// `(when, where_place, on_stage, camera_beats)`.
    type V = (
        Seq<char>,
        Seq<char>,
        Seq<Seq<char>>,
        Seq<(Seq<char>, Seq<char>, Seq<char>, Seq<Seq<char>>, Seq<char>)>,
    );

    open spec fn view(&self) -> Self::V {
        (
            self.when@,
            self.where_place@,
            views(self.on_stage@),
            self.camera_beats@.map_values(|b: CameraBeat| b@),
        )
    }
}

impl View for LlmScenePlan {
    /// `(outline, scene_card)`.
    type V = (
        (Seq<char>, Seq<(Seq<char>, Seq<char>, Seq<char>, Seq<char>)>),
        (
            Seq<char>,
            Seq<char>,
            Seq<Seq<char>>,
            Seq<(Seq<char>, Seq<char>, Seq<char>, Seq<Seq<char>>, Seq<char>)>,
        ),
    );

    open spec fn view(&self) -> Self::V {
        (self.outline@, self.scene_card@)
    }
}

/// A copy of a vector of strings.
pub fn copy_strings(v: &Vec<String>) -> (r: Vec<String>)
    ensures
        views(r@) == views(v@),
{
    let mut r: Vec<String> = Vec::new();
    let mut i: usize = 0;
    while i < v.len()
        invariant
            i <= v.len(),
            r@.len() == i,
            forall|j: int| 0 <= j < i ==> (#[trigger] r@[j])@ == v@[j]@,
        decreases v.len() - i,
    {
        r.push(owned(v[i].as_str()));
        i = i + 1;
    }
    assert(views(r@) =~= views(v@));
    r
}

impl Clone for OutlineAct {
    fn clone(&self) -> (r: Self)
        ensures
            r@ == self@,
    {
        OutlineAct {
            act_id: owned(self.act_id.as_str()),
            summary: owned(self.summary.as_str()),
            emotional_beat: owned(self.emotional_beat.as_str()),
            stakes: owned(self.stakes.as_str()),
        }
    }
}

impl Clone for StoryOutline {
    fn clone(&self) -> (r: Self)
        ensures
            r@ == self@,
    {
        let mut acts: Vec<OutlineAct> = Vec::new();
        let mut i: usize = 0;
        while i < self.acts.len()
            invariant
                i <= self.acts.len(),
                acts@.len() == i,
                forall|j: int| 0 <= j < i ==> (#[trigger] acts@[j])@ == self.acts@[j]@,
            decreases self.acts.len() - i,
        {
            acts.push(self.acts[i].clone());
            i = i + 1;
        }
        let r = StoryOutline { premise_one_liner: owned(self.premise_one_liner.as_str()), acts };
        assert(r.acts@.map_values(|a: OutlineAct| a@) =~= self.acts@.map_values(|a: OutlineAct| a@));
        r
    }
}

impl Clone for CameraBeat {
    fn clone(&self) -> (r: Self)
        ensures
            r@ == self@,
    {
        CameraBeat {
            beat_id: owned(self.beat_id.as_str()),
            pov_name: owned(self.pov_name.as_str()),
            intent: owned(self.intent.as_str()),
            must_show: copy_strings(&self.must_show),
            location_hint: owned(self.location_hint.as_str()),
        }
    }
}

impl Clone for SceneCard {
    fn clone(&self) -> (r: Self)
        ensures
            r@ == self@,
    {
        let mut beats: Vec<CameraBeat> = Vec::new();
        let mut i: usize = 0;
        while i < self.camera_beats.len()
            invariant
                i <= self.camera_beats.len(),
                beats@.len() == i,
                forall|j: int| 0 <= j < i ==> (#[trigger] beats@[j])@ == self.camera_beats@[j]@,
            decreases self.camera_beats.len() - i,
        {
            beats.push(self.camera_beats[i].clone());
            i = i + 1;
        }
        let r = SceneCard {
            when: owned(self.when.as_str()),
            where_place: owned(self.where_place.as_str()),
            on_stage: copy_strings(&self.on_stage),
            camera_beats: beats,
        };
        assert(r.camera_beats@.map_values(|b: CameraBeat| b@) =~= self.camera_beats@.map_values(
            |b: CameraBeat| b@,
        ));
        r
    }
}

impl Clone for LlmScenePlan {
    fn clone(&self) -> (r: Self)
        ensures
            r@ == self@,
    {
        LlmScenePlan { outline: self.outline.clone(), scene_card: self.scene_card.clone() }
    }
}

/// Number of characters of the event kept as the premise.
pub const PREMISE_MAX_CHARS: usize = 40;

/// The id of the `i`-th camera beat (counting from zero): `"b1"`, `"b2"`, ...
pub open spec fn beat_id_spec(i: int) -> Seq<char> {
    seq!['b'] + decimal((i + 1) as nat)
}

/// Camera beat `b` is the default beat number `i` for `name` under `premise`.
pub open spec fn default_beat(b: CameraBeat, i: int, premise: Seq<char>, name: Seq<char>) -> bool {
    &&& b.beat_id@ == beat_id_spec(i)
    &&& b.pov_name@ == name
    &&& b.intent@ == "回应："@ + premise
    &&& b.must_show@.len() == 0
    &&& b.location_hint@.len() == 0
}

/// `plan` is the default plan for `premise` with one camera beat per name,
/// in the given order: a single act `a1` summarised by the premise, the
/// names on stage, and beat `b<i+1>` following the `i`-th name.
pub open spec fn default_plan(plan: LlmScenePlan, premise: Seq<char>, names: Seq<Seq<char>>) -> bool {
    &&& plan.outline.premise_one_liner@ == premise
    &&& plan.outline.acts@.len() == 1
    &&& plan.outline.acts@[0].act_id@ == "a1"@
    &&& plan.outline.acts@[0].summary@ == premise
    &&& plan.outline.acts@[0].emotional_beat@ == "推进"@
    &&& plan.outline.acts@[0].stakes@ == "未定"@
    &&& plan.scene_card.when@ == "场景当下"@
    &&& plan.scene_card.where_place@ == "未标注"@
    &&& views(plan.scene_card.on_stage@) == names
    &&& plan.scene_card.camera_beats@.len() == names.len()
    &&& forall|i: int|
        0 <= i < names.len() ==> default_beat(
            #[trigger] plan.scene_card.camera_beats@[i],
            i,
            premise,
            names[i],
        )
}

/// The id of camera beat number `i` (counting from zero).
pub fn beat_id(i: usize) -> (s: String)
    requires
        i < usize::MAX,
    ensures
        s@ == beat_id_spec(i as int),
{
    let mut s = String::new();
    s.push('b');
    push_decimal(&mut s, i + 1);
    s
}

/// The default plan for `premise` with one camera beat per name, in order.
pub fn default_plan_for(premise: &str, names: &Vec<String>) -> (plan: LlmScenePlan)
    ensures
        default_plan(plan, premise@, views(names@)),
{
    let mut camera_beats: Vec<CameraBeat> = Vec::new();
    let mut on_stage: Vec<String> = Vec::new();
    let mut i: usize = 0;
    while i < names.len()
        invariant
            i <= names.len(),
            camera_beats@.len() == i,
            on_stage@.len() == i,
            forall|j: int|
                0 <= j < i ==> default_beat(#[trigger] camera_beats@[j], j, premise@, names@[j]@),
            forall|j: int| 0 <= j < i ==> (#[trigger] on_stage@[j])@ == names@[j]@,
        decreases names.len() - i,
    {
        let mut intent = owned("回应：");
        push_str(&mut intent, premise);
        let beat = CameraBeat {
            beat_id: beat_id(i),
            pov_name: owned(names[i].as_str()),
            intent,
            must_show: Vec::new(),
            location_hint: String::new(),
        };
        camera_beats.push(beat);
        on_stage.push(owned(names[i].as_str()));
        i = i + 1;
    }
    let act = OutlineAct {
        act_id: owned("a1"),
        summary: owned(premise),
        emotional_beat: owned("推进"),
        stakes: owned("未定"),
    };
    let mut acts: Vec<OutlineAct> = Vec::new();
    acts.push(act);
    let plan = LlmScenePlan {
        outline: StoryOutline { premise_one_liner: owned(premise), acts },
        scene_card: SceneCard {
            when: owned("场景当下"),
            where_place: owned("未标注"),
            on_stage,
            camera_beats,
        },
    };
    assert(views(plan.scene_card.on_stage@) =~= views(names@));
    plan
}

impl LlmScenePlan {
    /// The minimal plan: the first forty characters of `event` as premise,
    /// one act, and one camera beat per character name, in the given order.
    pub fn minimal(event: &str, character_names: &[&str]) -> (plan: Self)
        ensures
            default_plan(
                plan,
                take_chars(event@, PREMISE_MAX_CHARS as int),
                character_names@.map_values(|n: &str| n@),
            ),
    {
        let premise = truncate_vec(&chars_of(event), PREMISE_MAX_CHARS);
        let mut names: Vec<String> = Vec::new();
        let mut i: usize = 0;
        while i < character_names.len()
            invariant
                i <= character_names.len(),
                names@.len() == i,
                forall|j: int| 0 <= j < i ==> (#[trigger] names@[j])@ == character_names@[j]@,
            decreases character_names.len() - i,
        {
            names.push(owned(character_names[i]));
            i = i + 1;
        }
        assert(views(names@) =~= character_names@.map_values(|n: &str| n@));
        default_plan_for(premise.as_str(), &names)
    }
}

} // verus!
