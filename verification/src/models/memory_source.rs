//! Where a memory came from, and how sure the character is of it.
use vstd::prelude::*;

verus! {

/// How the character came by a memory.
#[derive(Debug, Clone, Copy, PartialEq, Eq, Structural)]
pub enum MemorySource {
    Witnessed,
    Heard,
    Inferred,
}

/// How certain the character is of a memory.
#[derive(Debug, Clone, Copy, PartialEq, Eq, Structural)]
pub enum Certainty {
    Certain,
    Suspected,
    Uncertain,
}

pub open spec fn memory_source_name(s: MemorySource) -> Seq<char> {
    match s {
        MemorySource::Witnessed => "Witnessed"@,
        MemorySource::Heard => "Heard"@,
        MemorySource::Inferred => "Inferred"@,
    }
}

pub open spec fn certainty_name(c: Certainty) -> Seq<char> {
    match c {
        Certainty::Certain => "Certain"@,
        Certainty::Suspected => "Suspected"@,
        Certainty::Uncertain => "Uncertain"@,
    }
}

impl MemorySource {
    /// The variant name (`{:?}`).
    pub fn debug_name(&self) -> (s: &'static str)
        ensures
            s@ == memory_source_name(*self),
    {
        match self {
            MemorySource::Witnessed => "Witnessed",
            MemorySource::Heard => "Heard",
            MemorySource::Inferred => "Inferred",
        }
    }
}

impl Certainty {
    /// The variant name (`{:?}`).
    pub fn debug_name(&self) -> (s: &'static str)
        ensures
            s@ == certainty_name(*self),
    {
        match self {
            Certainty::Certain => "Certain",
            Certainty::Suspected => "Suspected",
            Certainty::Uncertain => "Uncertain",
        }
    }
}

/// The name of each memory source is the variant's own name.
pub proof fn lemma_memory_source_names()
    ensures
        memory_source_name(MemorySource::Witnessed) == "Witnessed"@,
        memory_source_name(MemorySource::Heard) == "Heard"@,
        memory_source_name(MemorySource::Inferred) == "Inferred"@,
{
}
/// The name of each certainty is the variant's own name.
pub proof fn lemma_certainty_names()
    ensures
        certainty_name(Certainty::Certain) == "Certain"@,
        certainty_name(Certainty::Suspected) == "Suspected"@,
        certainty_name(Certainty::Uncertain) == "Uncertain"@,
{
}

} // verus!
