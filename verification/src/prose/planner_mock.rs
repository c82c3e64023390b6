//! Scene planning requests and the offline planner.
use vstd::prelude::*;
use crate::models::{Character, Scene, StoryError};
use crate::sort::{pick, sorted_spec, stable_text_order};
use crate::text::{chars_of, take_chars, truncate_vec, views};
use super::plan_contract::{default_plan, default_plan_for, LlmScenePlan, PREMISE_MAX_CHARS};

verus! {

/// A planning request: the scene and its participating characters (the
/// objective event and who takes part, nothing derived yet).
#[derive(Debug, Clone)]
pub struct PlanRequest {
    pub scene: Scene,
    pub characters: Vec<Character>,
}

/// The names of a sequence of characters.
pub open spec fn character_names(cs: Seq<Character>) -> Seq<Seq<char>> {
    cs.map_values(|c: Character| c.name@)
}

/// The offline planner: returns a fixed plan, or (as a fallback) builds one
/// camera beat per character, characters ordered by name.
pub struct MockScenePlanner {
    pub response: Option<LlmScenePlan>,
}

impl MockScenePlanner {
    /// A planner that always returns `plan`.
    pub fn new(plan: LlmScenePlan) -> (p: Self)
        ensures
            p.response == Some(plan),
    {
        MockScenePlanner { response: Some(plan) }
    }

    /// A planner that builds the default plan for each request.
    pub fn fallback() -> (p: Self)
        ensures
            p.response is None,
    {
        MockScenePlanner { response: None }
    }

    /// Plans a scene.  With a fixed plan, returns a copy of it.  Otherwise
    /// the premise is the first forty characters of the objective event and
    /// the characters, sorted stably by name (code-point order), each get
    /// one camera beat.
    pub fn plan_scene(&self, req: &PlanRequest) -> (r: Result<LlmScenePlan, StoryError>)
        ensures
            self.response matches Some(p) ==> (r matches Ok(q) && q@ == p@),
            self.response is None ==> (r matches Ok(q) && default_plan(
                q,
                take_chars(req.scene.objective_event@, PREMISE_MAX_CHARS as int),
                sorted_spec(character_names(req.characters@)),
            )),
    {
        if let Some(plan) = &self.response {
            return Ok(plan.clone());
        }
        let premise = truncate_chars(req.scene.objective_event.as_str(), PREMISE_MAX_CHARS);
        let mut names: Vec<String> = Vec::new();
        let mut i: usize = 0;
        while i < req.characters.len()
            invariant
                i <= req.characters.len(),
                names@.len() == i,
                forall|j: int| 0 <= j < i ==> (#[trigger] names@[j])@ == req.characters@[j].name@,
            decreases req.characters.len() - i,
        {
            names.push(req.characters[i].name.clone());
            i = i + 1;
        }
        let ghost texts = character_names(req.characters@);
        assert(views(names@) =~= texts);
        let ord = stable_text_order(&names);
        let mut ordered: Vec<String> = Vec::new();
        let mut p: usize = 0;
        while p < ord.len()
            invariant
                p <= ord.len(),
                ord@.len() == names@.len(),
                forall|q: int| 0 <= q < ord@.len() ==> (#[trigger] ord@[q]) < names@.len(),
                ordered@.len() == p,
                forall|q: int| 0 <= q < p ==> (#[trigger] ordered@[q])@ == names@[ord@[q] as int]@,
            decreases ord.len() - p,
        {
            ordered.push(names[ord[p]].clone());
            p = p + 1;
        }
        assert(views(ordered@) =~= pick(texts, ord@));
        let plan = default_plan_for(premise.as_str(), &ordered);
        Ok(plan)
    }
}

/// The first `max` characters of `s` (all of it when shorter).
pub fn truncate_chars(s: &str, max: usize) -> (r: String)
    ensures
        r@ == take_chars(s@, max as int),
{
    truncate_vec(&chars_of(s), max)
}

} // verus!
