//! Candidate description fragments.
use vstd::prelude::*;
use crate::text::views;

verus! {

/// A candidate description fragment: its id (`"<sense>.<key>"`), sense,
/// text and tags.
#[derive(Debug, Clone)]
pub struct VocabularyCandidate {
    pub id: String,
    pub sense: String,
    pub text: String,
    pub tags: Vec<String>,
}

/// The view of a candidate: `(id, sense, text, tags)`.
pub type CandidateView = (Seq<char>, Seq<char>, Seq<char>, Seq<Seq<char>>);

impl View for VocabularyCandidate {
    type V = CandidateView;

    open spec fn view(&self) -> CandidateView {
        (self.id@, self.sense@, self.text@, views(self.tags@))
    }
}

} // verus!
