//! Session context of the interactive loop, and resolution of what the user
//! typed to a unique entity.
use vstd::prelude::*;
use crate::models::error::StoryError;
use crate::models::error::story_error_text;
use crate::models::ids::{CharacterId, SceneId, uuid_string, uuid_text};
use crate::text::{has_sub, join, owned, push_str, str_contains, views};
use crate::db::codec::{lemma_own_text_parses, uuid_parse_str, uuid_parsed};

verus! {

/// Current scene and character of the interactive loop.
#[derive(Debug, Clone)]
pub struct Session {
    pub current_scene: Option<SceneId>,
    pub current_character: Option<CharacterId>,
}

impl Session {
    /// A session with nothing selected.
    pub fn new() -> (s: Self)
        ensures
            s.current_scene is None,
            s.current_character is None,
    {
        Session { current_scene: None, current_character: None }
    }

    /// Forgets the selected scene and character.
    pub fn clear(&mut self)
        ensures
            final(self).current_scene is None,
            final(self).current_character is None,
    {
        self.current_scene = None;
        self.current_character = None;
    }
}

impl Default for Session {
    fn default() -> (s: Self)
        ensures
            s.current_scene is None,
            s.current_character is None,
    {
        Session::new()
    }
}

/// A command-line error: a Chinese message with next-step suggestions, or a
/// domain error passed through.
#[derive(Debug)]
pub enum CliError {
    Message { summary: String, next: Vec<String> },
    Story(StoryError),
}

pub open spec fn cli_error_summary(e: CliError) -> Seq<char> {
    match e {
        CliError::Message { summary, next } => summary@,
        CliError::Story(s) => story_error_text(s),
    }
}

impl CliError {
    /// The error summary.
    pub fn summary(&self) -> (s: String)
        ensures
            s@ == cli_error_summary(*self),
    {
        match self {
            CliError::Message { summary, next: _ } => summary.clone(),
            CliError::Story(e) => e.describe(),
        }
    }
}

pub open spec fn not_found_message(label: Seq<char>, query: Seq<char>) -> Seq<char> {
    "未找到"@ + label + "："@ + query
}

/// The "not found" error for `query`.
pub fn not_found(label: &str, query: &str) -> (e: CliError)
    ensures
        e matches CliError::Message { summary, next } && summary@ == not_found_message(label@, query@)
            && next@.len() == 0,
{
    let mut s = owned("未找到");
    push_str(&mut s, label);
    push_str(&mut s, "：");
    push_str(&mut s, query);
    CliError::Message { summary: s, next: Vec::new() }
}

/// `desc (uuid)`, how a candidate is listed in an ambiguity message.
pub open spec fn candidate_line(desc: Seq<char>, id: u128) -> Seq<char> {
    desc + " ("@ + uuid_text(id) + ")"@
}

pub open spec fn candidate_lines(cands: Seq<(String, u128)>) -> Seq<Seq<char>> {
    cands.map_values(|c: (String, u128)| candidate_line(c.0@, c.1))
}

pub open spec fn ambiguous_message(label: Seq<char>, query: Seq<char>, cands: Seq<(String, u128)>) -> Seq<char> {
    "多个"@ + label + "匹配「"@ + query + "」，候选："@ + join(candidate_lines(cands), "、"@)
}

/// Picks the single match among `candidates` (description and id of each
/// entity that matched `query`).  No match is a "not found" error; several
/// matches are an error that lists them all — never a silent first pick.
pub fn resolve_unique(candidates: &Vec<(String, u128)>, label: &str, query: &str) -> (r: Result<
    usize,
    CliError,
>)
    ensures
        candidates@.len() == 1 <==> r is Ok,
        r matches Ok(i) ==> i == 0,
        candidates@.len() == 0 ==> (r matches Err(CliError::Message { summary, next })
            && summary@ == not_found_message(label@, query@)),
        candidates@.len() > 1 ==> (r matches Err(CliError::Message { summary, next })
            && summary@ == ambiguous_message(label@, query@, candidates@)),
{
    if candidates.len() == 0 {
        return Err(not_found(label, query));
    }
    if candidates.len() == 1 {
        return Ok(0);
    }
    let mut s = owned("多个");
    push_str(&mut s, label);
    push_str(&mut s, "匹配「");
    push_str(&mut s, query);
    push_str(&mut s, "」，候选：");
    let ghost head = s@;
    let mut i: usize = 0;
    while i < candidates.len()
        invariant
            i <= candidates.len(),
            s@ == head + join(candidate_lines(candidates@).take(i as int), "、"@),
        decreases candidates.len() - i,
    {
        let ghost before = candidate_lines(candidates@).take(i as int);
        let ghost now = candidate_lines(candidates@).take(i as int + 1);
        if i > 0 {
            push_str(&mut s, "、");
        }
        push_str(&mut s, candidates[i].0.as_str());
        push_str(&mut s, " (");
        let u = uuid_string(candidates[i].1);
        push_str(&mut s, u.as_str());
        push_str(&mut s, ")");
        proof {
            assert(now.drop_last() =~= before);
            if i == 0 {
                assert(before =~= Seq::<Seq<char>>::empty());
            }
        }
        i = i + 1;
    }
    assert(candidate_lines(candidates@).take(candidates@.len() as int) =~= candidate_lines(
        candidates@,
    ));
    Err(CliError::Message { summary: s, next: Vec::new() })
}

/// The entries whose description contains `query`, in order.
pub open spec fn substring_matches_spec(entries: Seq<(String, u128)>, query: Seq<char>) -> Seq<
    (String, u128),
> {
    entries.filter(|e: (String, u128)| has_sub(e.0@, query))
}

/// Resolves a name (or event) fragment to the unique entity whose
/// description contains it.
pub fn resolve_by_substring(entries: &Vec<(String, u128)>, label: &str, query: &str) -> (r: Result<
    u128,
    CliError,
>)
    ensures
        substring_matches_spec(entries@, query@).len() == 1 <==> r is Ok,
        r matches Ok(id) ==> id == substring_matches_spec(entries@, query@)[0].1,
        substring_matches_spec(entries@, query@).len() == 0 ==> (r matches Err(
            CliError::Message { summary, next },
        ) && summary@ == not_found_message(label@, query@)),
        substring_matches_spec(entries@, query@).len() > 1 ==> (r matches Err(
            CliError::Message { summary, next },
        ) && summary@ == ambiguous_message(label@, query@, substring_matches_spec(entries@, query@))),
{
    let mut matches: Vec<(String, u128)> = Vec::new();
    let mut i: usize = 0;
    while i < entries.len()
        invariant
            i <= entries.len(),
            matches@ == entries@.take(i as int).filter(|e: (String, u128)| has_sub(e.0@, query@)),
        decreases entries.len() - i,
    {
        proof {
            assert(entries@.take(i as int + 1).drop_last() =~= entries@.take(i as int));
            reveal(Seq::filter);
        }
        if str_contains(entries[i].0.as_str(), query) {
            matches.push((entries[i].0.clone(), entries[i].1));
        }
        i = i + 1;
    }
    assert(entries@.take(entries@.len() as int) =~= entries@);
    match resolve_unique(&matches, label, query) {
        Ok(k) => Ok(matches[k].1),
        Err(e) => Err(e),
    }
}

/// How a typed query is looked up: as an id when it parses as a UUID,
/// otherwise by the text it should occur in.
#[derive(Debug, Clone, Copy, PartialEq, Eq, Structural)]
pub enum Lookup {
    ById(u128),
    ByText,
}

/// The lookup a query calls for: the UUID it parses as, else a text search.
/// The text of an id is looked up as that id.
pub fn lookup_for(query: &str) -> (l: Lookup)
    ensures
        uuid_parsed(query@) matches Ok(v) ==> l == Lookup::ById(v),
        uuid_parsed(query@) is Err ==> l == Lookup::ByText,
        forall|v: u128| #[trigger] uuid_text(v) == query@ ==> l == Lookup::ById(v),
{
    proof {
        lemma_own_text_parses(query@);
    }
    match uuid_parse_str(query) {
        Ok(v) => Lookup::ById(v),
        Err(_) => Lookup::ByText,
    }
}

/// The outcome of looking a query up by id: the id when the store has the
/// entity, else a "not found" error naming the query.
pub fn resolve_by_id(found: bool, id: u128, label: &str, query: &str) -> (r: Result<u128, CliError>)
    ensures
        found ==> r == Ok::<u128, CliError>(id),
        !found ==> (r matches Err(CliError::Message { summary, next }) && summary@
            == not_found_message(label@, query@) && next@.len() == 0),
{
    if found {
        Ok(id)
    } else {
        Err(not_found(label, query))
    }
}

} // verus!
