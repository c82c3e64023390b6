//! Output contracts of the derivation model.
use vstd::prelude::*;

verus! {

/// The context tags the model selected for a scene.
#[derive(Debug, Clone)]
pub struct LlmContextTagSelection {
    pub tags: Vec<String>,
}

impl Default for LlmContextTagSelection {
    fn default() -> (s: Self)
        ensures
            s.tags@.len() == 0,
    {
        LlmContextTagSelection { tags: Vec::new() }
    }
}

} // verus!
