//! What a command reports: status, summary, artifacts, quality figures and
//! next steps, and its human-readable rendering.
use vstd::prelude::*;
use crate::text::{decimal, owned, push_decimal, push_str};
use crate::text_map::TextMap;
use crate::models::StoryError;
use super::commands::{story_error_summary, story_error_summary_spec};
use crate::prose::assembly::AssembledProse;

verus! {

/// Outcome status of a command.
#[derive(Debug, Clone, Copy, PartialEq, Eq, Structural)]
pub enum Status {
    Success,
    Warning,
    Error,
}

pub open spec fn status_label(s: Status) -> Seq<char> {
    match s {
        Status::Success => "success"@,
        Status::Warning => "warning"@,
        Status::Error => "error"@,
    }
}

impl Status {
    /// The lowercase label (what `Display` writes and JSON carries).
    pub fn label(&self) -> (s: &'static str)
        ensures
            s@ == status_label(*self),
    {
        match self {
            Status::Success => "success",
            Status::Warning => "warning",
            Status::Error => "error",
        }
    }
}

/// Quality figures of a narration, the quote density already written out
/// as text (it is a floating-point ratio).
#[derive(Debug, Clone)]
pub struct QualityFigures {
    pub quote_density: String,
    pub stripped_refs: usize,
    pub unverified_quotes: usize,
    pub low_quote_density: bool,
    pub action_only_beats: usize,
    pub rejected_beats: usize,
}

/// A command's report: status, summary, artifacts (by name, in name
/// order), optional quality figures and suggested next commands.
#[derive(Debug)]
pub struct Observation {
    pub status: Status,
    pub summary: String,
    pub artifacts: TextMap<String>,
    pub quality: Option<QualityFigures>,
    pub next: Vec<String>,
}

pub open spec fn bool_text(b: bool) -> Seq<char> {
    if b {
        "true"@
    } else {
        "false"@
    }
}

/// The artifact lines `"  <name>: <value>\n"` of the first `n` artifacts.
pub open spec fn artifact_lines(a: Seq<(Seq<char>, String)>, n: int) -> Seq<char>
    decreases n,
{
    if n <= 0 {
        Seq::empty()
    } else {
        artifact_lines(a, n - 1) + "  "@ + a[n - 1].0 + ": "@ + a[n - 1].1@ + "\n"@
    }
}

/// The quality block, or nothing without figures.
pub open spec fn quality_block(q: Option<QualityFigures>) -> Seq<char> {
    match q {
        None => Seq::empty(),
        Some(q) => "quality:\n"@ + "  quote_density: "@ + q.quote_density@ + "\n"@
            + "  stripped_refs: "@ + decimal(q.stripped_refs as nat) + "\n"@
            + "  unverified_quotes: "@ + decimal(q.unverified_quotes as nat) + "\n"@
            + "  low_quote_density: "@ + bool_text(q.low_quote_density) + "\n"@
            + "  action_only_beats: "@ + decimal(q.action_only_beats as nat) + "\n"@
            + "  rejected_beats: "@ + decimal(q.rejected_beats as nat) + "\n"@,
    }
}

/// The next-step lines `"  - <command>\n"` of the first `n` suggestions.
pub open spec fn next_lines(n_: Seq<String>, n: int) -> Seq<char>
    decreases n,
{
    if n <= 0 {
        Seq::empty()
    } else {
        next_lines(n_, n - 1) + "  - "@ + n_[n - 1]@ + "\n"@
    }
}

/// The human-readable rendering of a report.
pub open spec fn render_human_spec(o: Observation) -> Seq<char> {
    "status: "@ + status_label(o.status) + "\n"@ + "summary: "@ + o.summary@ + "\n"@
        + "artifacts:\n"@ + artifact_lines(o.artifacts@, o.artifacts@.len() as int)
        + quality_block(o.quality) + "next:\n"@ + next_lines(o.next@, o.next@.len() as int)
}

impl Observation {
    /// A success with these artifacts, no quality figures and no next step.
    pub fn success(summary: String, artifacts: TextMap<String>) -> (o: Self)
        ensures
            o.status == Status::Success,
            o.summary == summary,
            o.artifacts@ == artifacts@,
            o.quality is None,
            o.next@.len() == 0,
    {
        Observation { status: Status::Success, summary, artifacts, quality: None, next: Vec::new() }
    }

    /// An error with this summary and nothing else.
    pub fn error(summary: String) -> (o: Self)
        ensures
            o.status == Status::Error,
            o.summary == summary,
            o.artifacts@.len() == 0,
            o.quality is None,
            o.next@.len() == 0,
    {
        Observation {
            status: Status::Error,
            summary,
            artifacts: TextMap::new(),
            quality: None,
            next: Vec::new(),
        }
    }

    /// The error report of a domain error: its Chinese summary.
    pub fn from_story_error(e: &StoryError) -> (o: Self)
        ensures
            o.status == Status::Error,
            o.summary@ == story_error_summary_spec(*e),
            o.artifacts@.len() == 0,
            o.quality is None,
            o.next@.len() == 0,
    {
        Self::error(story_error_summary(e))
    }

    /// The human-readable rendering: status, summary, each artifact in name
    /// order, the quality figures when present, and each next step.
    pub fn render_human(&self) -> (s: String)
        ensures
            s@ == render_human_spec(*self),
    {
        let mut s = owned("status: ");
        push_str(&mut s, self.status.label());
        push_str(&mut s, "\n");
        push_str(&mut s, "summary: ");
        push_str(&mut s, self.summary.as_str());
        push_str(&mut s, "\n");
        push_str(&mut s, "artifacts:\n");
        let arts = self.artifacts.entries();
        let ghost av = self.artifacts@;
        let ghost start = s@;
        let mut i: usize = 0;
        while i < arts.len()
            invariant
                i <= arts.len(),
                arts@.map_values(|e: (String, String)| (e.0@, e.1)) == av,
                s@ == start + artifact_lines(av, i as int),
            decreases arts.len() - i,
        {
            push_str(&mut s, "  ");
            push_str(&mut s, arts[i].0.as_str());
            push_str(&mut s, ": ");
            push_str(&mut s, arts[i].1.as_str());
            push_str(&mut s, "\n");
            proof {
                assert(av[i as int] == (arts@[i as int].0@, arts@[i as int].1));
                assert(s@ =~= start + artifact_lines(av, i as int + 1));
            }
            i = i + 1;
        }
        let ghost before_quality = s@;
        if let Some(q) = &self.quality {
            push_str(&mut s, "quality:\n");
            push_str(&mut s, "  quote_density: ");
            push_str(&mut s, q.quote_density.as_str());
            push_str(&mut s, "\n");
            push_str(&mut s, "  stripped_refs: ");
            push_decimal(&mut s, q.stripped_refs);
            push_str(&mut s, "\n");
            push_str(&mut s, "  unverified_quotes: ");
            push_decimal(&mut s, q.unverified_quotes);
            push_str(&mut s, "\n");
            push_str(&mut s, "  low_quote_density: ");
            push_str(&mut s, if q.low_quote_density { "true" } else { "false" });
            push_str(&mut s, "\n");
            push_str(&mut s, "  action_only_beats: ");
            push_decimal(&mut s, q.action_only_beats);
            push_str(&mut s, "\n");
            push_str(&mut s, "  rejected_beats: ");
            push_decimal(&mut s, q.rejected_beats);
            push_str(&mut s, "\n");
        }
        assert(s@ =~= before_quality + quality_block(self.quality));
        push_str(&mut s, "next:\n");
        let ghost start2 = s@;
        let mut k: usize = 0;
        while k < self.next.len()
            invariant
                k <= self.next.len(),
                s@ == start2 + next_lines(self.next@, k as int),
            decreases self.next.len() - k,
        {
            push_str(&mut s, "  - ");
            push_str(&mut s, self.next[k].as_str());
            push_str(&mut s, "\n");
            assert(s@ =~= start2 + next_lines(self.next@, k as int + 1));
            k = k + 1;
        }
        s
    }
}

/// The quality figures of assembled prose: its counts of stripped
/// references, action-only beats and rejected beats, with the quote
/// density (already written out), the number of unverified quotes and the
/// low-density flag, which the caller measures.
pub fn quality_from_prose(
    p: &AssembledProse,
    quote_density: String,
    unverified_quotes: usize,
    low_quote_density: bool,
) -> (q: QualityFigures)
    ensures
        q.quote_density == quote_density,
        q.stripped_refs == p.stripped_refs,
        q.unverified_quotes == unverified_quotes,
        q.low_quote_density == low_quote_density,
        q.action_only_beats == p.action_only_beats,
        q.rejected_beats == p.rejected_beats,
{
    QualityFigures {
        quote_density,
        stripped_refs: p.stripped_refs,
        unverified_quotes,
        low_quote_density,
        action_only_beats: p.action_only_beats,
        rejected_beats: p.rejected_beats,
    }
}

/// Each status is labelled by its lowercase name.
pub proof fn lemma_status_labels()
    ensures
        status_label(Status::Success) == "success"@,
        status_label(Status::Warning) == "warning"@,
        status_label(Status::Error) == "error"@,
{
}

} // verus!
