//! Assembly of the narration into prose.
//!
//! Every beat of the model's narration is checked: its point of view must be
//! a scene participant with a derivation, and every referenced fragment must
//! be among that character's chosen fragments and present in the
//! vocabulary.  Accepted fragments are laid out in a fixed category order
//! (atmosphere, visual, auditory, olfactory, tactile, gustatory, emotion,
//! gesture) before the beat's action; beats are joined by newlines.
use vstd::prelude::*;
use crate::models::derivation::CharacterDerivation;
use crate::models::error::{LlmErrorKind, StoryError};
use crate::models::ids::{key_part, sense_part, uuid_text, valid_vocab_id, VocabularyId};
use crate::models::sensation::{id_texts, refs_upto, selection_refs, sense_list, sense_names};
use crate::text::{
    blank, contains_string, is_blank, join, join_strings, owned, push_str, text_eq, views,
};
use crate::vocab::Vocab;
use super::contract::{LlmNarrative, NarrativeBeat};

verus! {

/// Prose assembled from a narration, with counts of what was dropped.
#[derive(Debug, Clone, PartialEq, Eq)]
pub struct AssembledProse {
    pub text: String,
    /// References removed because they were not the character's, malformed,
    /// or missing from the vocabulary.
    pub stripped_refs: usize,
    /// Beats dropped whole (pov not a participant, or without derivation).
    pub rejected_beats: usize,
    /// Accepted beats whose description came out empty while their action
    /// was not blank.
    pub action_only_beats: usize,
}

/// The order in which fragment categories are laid out in a beat.
pub open spec fn assembly_order() -> Seq<Seq<char>> {
    seq![
        "atmosphere"@,
        "visual"@,
        "auditory"@,
        "olfactory"@,
        "tactile"@,
        "gustatory"@,
        "emotion"@,
        "gesture"@,
    ]
}

/// The category at position `i` of the layout order.
pub fn assembly_category(i: usize) -> (s: &'static str)
    requires
        i < 8,
    ensures
        s@ == assembly_order()[i as int],
{
    match i {
        0 => "atmosphere",
        1 => "visual",
        2 => "auditory",
        3 => "olfactory",
        4 => "tactile",
        5 => "gustatory",
        6 => "emotion",
        _ => "gesture",
    }
}

/// Position of `sense` in the layout order, or 8 when it is none of them.
fn assembly_rank(sense: &str) -> (r: usize)
    ensures
        r <= 8,
        r < 8 ==> assembly_order()[r as int] == sense@,
        r == 8 ==> forall|i: int| 0 <= i < 8 ==> assembly_order()[i] != sense@,
{
    let mut i: usize = 0;
    while i < 8
        invariant
            i <= 8,
            forall|j: int| 0 <= j < i ==> assembly_order()[j] != sense@,
        decreases 8 - i,
    {
        if text_eq(assembly_category(i), sense) {
            return i;
        }
        i = i + 1;
    }
    8
}

proof fn lemma_assembly_order_distinct()
    ensures
        forall|i: int, j: int|
            0 <= i < 8 && 0 <= j < 8 && i != j ==> assembly_order()[i] != assembly_order()[j],
{
    reveal_strlit("atmosphere");
    reveal_strlit("visual");
    reveal_strlit("auditory");
    reveal_strlit("olfactory");
    reveal_strlit("tactile");
    reveal_strlit("gustatory");
    reveal_strlit("emotion");
    reveal_strlit("gesture");
    let o = assembly_order();
    assert forall|i: int, j: int| 0 <= i < 8 && 0 <= j < 8 && i != j implies o[i] != o[j] by {
        if o[i].len() == o[j].len() {
            assert(o[i][0] != o[j][0]);
        }
    }
}

/// What a reference resolves to: its category and fragment text, when it is
/// allowed, well formed, and present in the vocabulary.
pub open spec fn resolve_ref(raw: Seq<char>, vocab: Vocab, allowed: Seq<Seq<char>>) -> Option<
    (Seq<char>, Seq<char>),
> {
    if !allowed.contains(raw) || !valid_vocab_id(raw) {
        None
    } else {
        match vocab.text_spec(sense_part(raw), key_part(raw)) {
            Some(t) => Some((sense_part(raw), t)),
            None => None,
        }
    }
}

/// The fragment texts of category `cat` among `refs`, in reference order.
pub open spec fn cat_text(
    refs: Seq<Seq<char>>,
    cat: Seq<char>,
    vocab: Vocab,
    allowed: Seq<Seq<char>>,
) -> Seq<char>
    decreases refs.len(),
{
    if refs.len() == 0 {
        Seq::empty()
    } else {
        let prev = cat_text(refs.drop_last(), cat, vocab, allowed);
        match resolve_ref(refs.last(), vocab, allowed) {
            Some(r) => if r.0 == cat {
                prev + r.1
            } else {
                prev
            },
            None => prev,
        }
    }
}

/// Number of references that do not resolve.
pub open spec fn stripped_count(refs: Seq<Seq<char>>, vocab: Vocab, allowed: Seq<Seq<char>>) -> nat
    decreases refs.len(),
{
    if refs.len() == 0 {
        0
    } else {
        stripped_count(refs.drop_last(), vocab, allowed) + if resolve_ref(
            refs.last(),
            vocab,
            allowed,
        ) is None {
            1nat
        } else {
            0nat
        }
    }
}

/// The texts of the first `n` categories of the layout order, concatenated.
pub open spec fn desc_upto(
    refs: Seq<Seq<char>>,
    vocab: Vocab,
    allowed: Seq<Seq<char>>,
    n: int,
) -> Seq<char>
    decreases n,
{
    if n <= 0 {
        Seq::empty()
    } else {
        desc_upto(refs, vocab, allowed, n - 1) + cat_text(
            refs,
            assembly_order()[n - 1],
            vocab,
            allowed,
        )
    }
}

/// The description of a beat: its resolved fragments in layout order.
pub open spec fn beat_description(refs: Seq<Seq<char>>, vocab: Vocab, allowed: Seq<Seq<char>>) -> Seq<
    char,
> {
    desc_upto(refs, vocab, allowed, 8)
}

/// The fragments a derivation allows: those of the last derivation for the
/// character whose UUID text is `pov`.
pub open spec fn allowed_for(ds: Seq<CharacterDerivation>, pov: Seq<char>) -> Option<
    Seq<Seq<char>>,
>
    decreases ds.len(),
{
    if ds.len() == 0 {
        None
    } else if uuid_text(ds.last().character_id.0) == pov {
        Some(selection_refs(ds.last().sensations))
    } else {
        allowed_for(ds.drop_last(), pov)
    }
}

/// What becomes of one beat.
pub enum BeatOutcome {
    Rejected,
    Accepted { para: Seq<char>, stripped: nat, action_only: bool },
}

pub open spec fn beat_outcome(
    b: NarrativeBeat,
    vocab: Vocab,
    ds: Seq<CharacterDerivation>,
    parts: Seq<Seq<char>>,
) -> BeatOutcome {
    if !parts.contains(b.pov@) {
        BeatOutcome::Rejected
    } else {
        match allowed_for(ds, b.pov@) {
            None => BeatOutcome::Rejected,
            Some(allowed) => {
                let refs = views(b.sensation_refs@);
                let desc = beat_description(refs, vocab, allowed);
                BeatOutcome::Accepted {
                    para: if desc.len() == 0 {
                        b.action@
                    } else {
                        desc + b.action@
                    },
                    stripped: stripped_count(refs, vocab, allowed),
                    action_only: desc.len() == 0 && !blank(b.action@),
                }
            },
        }
    }
}

/// Running totals over a sequence of beats.
pub struct Tally {
    pub paras: Seq<Seq<char>>,
    pub stripped: nat,
    pub rejected: nat,
    pub action_only: nat,
}

pub open spec fn tally(
    beats: Seq<NarrativeBeat>,
    vocab: Vocab,
    ds: Seq<CharacterDerivation>,
    parts: Seq<Seq<char>>,
) -> Tally
    decreases beats.len(),
{
    if beats.len() == 0 {
        Tally { paras: Seq::empty(), stripped: 0, rejected: 0, action_only: 0 }
    } else {
        let t = tally(beats.drop_last(), vocab, ds, parts);
        match beat_outcome(beats.last(), vocab, ds, parts) {
            BeatOutcome::Rejected => Tally { rejected: t.rejected + 1, ..t },
            BeatOutcome::Accepted { para, stripped, action_only } => Tally {
                paras: if blank(para) {
                    t.paras
                } else {
                    t.paras.push(para)
                },
                stripped: t.stripped + stripped,
                rejected: t.rejected,
                action_only: t.action_only + if action_only {
                    1nat
                } else {
                    0nat
                },
            },
        }
    }
}

/// Total number of references over all beats.
pub open spec fn total_refs(beats: Seq<NarrativeBeat>) -> nat
    decreases beats.len(),
{
    if beats.len() == 0 {
        0
    } else {
        total_refs(beats.drop_last()) + beats.last().sensation_refs@.len()
    }
}

/// The message of the error for a narration without beats.
pub open spec fn no_beats_message() -> Seq<char> {
    "prose generator returned no beats"@
}

/// The prose that `assemble` produces from a non-empty narration.
pub open spec fn assembled_spec(
    beats: Seq<NarrativeBeat>,
    vocab: Vocab,
    ds: Seq<CharacterDerivation>,
    parts: Seq<Seq<char>>,
) -> (Seq<char>, nat, nat, nat) {
    let t = tally(beats, vocab, ds, parts);
    (join(t.paras, "\n"@), t.stripped, t.rejected, t.action_only)
}

proof fn lemma_stripped_bounded(refs: Seq<Seq<char>>, vocab: Vocab, allowed: Seq<Seq<char>>)
    ensures
        stripped_count(refs, vocab, allowed) <= refs.len(),
    decreases refs.len(),
{
    if refs.len() > 0 {
        lemma_stripped_bounded(refs.drop_last(), vocab, allowed);
    }
}

proof fn lemma_total_refs_prefix(beats: Seq<NarrativeBeat>, i: int)
    requires
        0 <= i <= beats.len(),
    ensures
        total_refs(beats.take(i)) <= total_refs(beats),
    decreases beats.len() - i,
{
    if i < beats.len() {
        lemma_total_refs_prefix(beats, i + 1);
        assert(beats.take(i + 1).drop_last() =~= beats.take(i));
    } else {
        assert(beats.take(i) =~= beats);
    }
}

/// Every fragment id text of a derivation's selection, category by category.
pub fn candidate_refs_for(derivation: &CharacterDerivation) -> (r: Vec<String>)
    ensures
        views(r@) == selection_refs(derivation.sensations),
{
    let s = &derivation.sensations;
    let mut r: Vec<String> = Vec::new();
    let mut c: usize = 0;
    while c < 8
        invariant
            c <= 8,
            views(r@) == refs_upto(*s, c as int),
        decreases 8 - c,
    {
        let ids = s.field(c);
        let ghost base = views(r@);
        let mut j: usize = 0;
        while j < ids.len()
            invariant
                j <= ids.len(),
                ids@ == sense_list(*s, c as int),
                base == refs_upto(*s, c as int),
                views(r@) == base + id_texts(ids@).take(j as int),
            decreases ids.len() - j,
        {
            let t = ids[j].to_text();
            let ghost before = r@;
            r.push(t);
            proof {
                assert(id_texts(ids@).take(j as int + 1) =~= id_texts(ids@).take(j as int).push(
                    ids@[j as int]@,
                ));
                assert(r@ =~= before.push(t));
                assert(views(r@) =~= views(before).push(t@));
                assert(views(r@) =~= base + id_texts(ids@).take(j as int + 1));
            }
            j = j + 1;
        }
        assert(id_texts(ids@).take(ids@.len() as int) =~= id_texts(ids@));
        c = c + 1;
    }
    r
}

/// Lays out one beat's references: returns its description and the number
/// of references stripped.
pub fn assemble_beat_descriptions(refs: &Vec<String>, vocab: &Vocab, allowed: &Vec<String>) -> (r: (
    String,
    usize,
))
    ensures
        r.0@ == beat_description(views(refs@), *vocab, views(allowed@)),
        r.1 == stripped_count(views(refs@), *vocab, views(allowed@)),
{
    let ghost rv = views(refs@);
    let ghost av = views(allowed@);
    let mut acc: Vec<String> = Vec::new();
    while acc.len() < 8
        invariant
            acc.len() <= 8,
            forall|c: int| 0 <= c < acc.len() ==> (#[trigger] acc@[c])@ == Seq::<char>::empty(),
        decreases 8 - acc.len(),
    {
        acc.push(String::new());
    }
    let mut stripped: usize = 0;
    let mut i: usize = 0;
    while i < refs.len()
        invariant
            i <= refs.len(),
            rv == views(refs@),
            av == views(allowed@),
            acc.len() == 8,
            forall|c: int|
                0 <= c < 8 ==> (#[trigger] acc@[c])@ == cat_text(
                    rv.take(i as int),
                    assembly_order()[c],
                    *vocab,
                    av,
                ),
            stripped == stripped_count(rv.take(i as int), *vocab, av),
            stripped <= i,
        decreases refs.len() - i,
    {
        let raw = refs[i].as_str();
        let ghost pre = rv.take(i as int);
        let ghost cur = rv.take(i as int + 1);
        proof {
            assert(cur.drop_last() =~= pre);
            assert(cur.last() == raw@);
        }
        let ghost acc_before = acc@;
        proof {
            lemma_assembly_order_distinct();
        }
        if !contains_string(allowed, raw) {
            assert(resolve_ref(raw@, *vocab, av) is None);
            stripped = stripped + 1;
        } else {
            match VocabularyId::new(raw) {
                Err(_) => {
                    assert(resolve_ref(raw@, *vocab, av) is None);
                    stripped = stripped + 1;
                },
                Ok(vid) => {
                    match vocab.text_of(vid.sense(), vid.key()) {
                        None => {
                            assert(resolve_ref(raw@, *vocab, av) is None);
                            stripped = stripped + 1;
                        },
                        Some(t) => {
                            assert(resolve_ref(raw@, *vocab, av) == Some((sense_part(raw@), t@)));
                            let rank = assembly_rank(vid.sense());
                            if rank < 8 {
                                let mut grown = acc[rank].clone();
                                push_str(&mut grown, t.as_str());
                                acc.set(rank, grown);
                            }
                            proof {
                                assert forall|c: int| 0 <= c < 8 implies (#[trigger] acc@[c])@
                                    == cat_text(cur, assembly_order()[c], *vocab, av) by {
                                    if c != rank {
                                        assert(acc@[c] == acc_before[c]);
                                    }
                                }
                            }
                        },
                    }
                },
            }
        }
        i = i + 1;
    }
    assert(rv.take(refs.len() as int) =~= rv);
    let mut desc = String::new();
    let mut c: usize = 0;
    while c < 8
        invariant
            c <= 8,
            acc.len() == 8,
            forall|k: int|
                0 <= k < 8 ==> (#[trigger] acc@[k])@ == cat_text(rv, assembly_order()[k], *vocab, av),
            desc@ == desc_upto(rv, *vocab, av, c as int),
        decreases 8 - c,
    {
        push_str(&mut desc, acc[c].as_str());
        c = c + 1;
    }
    (desc, stripped)
}

/// Index of the last key equal to `pov`, if any.
fn find_last(keys: &Vec<String>, pov: &str) -> (r: Option<usize>)
    ensures
        r matches Some(k) ==> k < keys.len() && keys@[k as int]@ == pov@ && forall|j: int|
            k < j < keys.len() ==> keys@[j]@ != pov@,
        r is None ==> forall|j: int| 0 <= j < keys.len() ==> keys@[j]@ != pov@,
{
    let mut j = keys.len();
    while j > 0
        invariant
            j <= keys.len(),
            forall|m: int| j <= m < keys.len() ==> keys@[m]@ != pov@,
        decreases j,
    {
        if text_eq(keys[j - 1].as_str(), pov) {
            return Some(j - 1);
        }
        j = j - 1;
    }
    None
}

proof fn lemma_allowed_for_last(ds: Seq<CharacterDerivation>, pov: Seq<char>, k: int)
    requires
        0 <= k < ds.len(),
        uuid_text(ds[k].character_id.0) == pov,
        forall|j: int| k < j < ds.len() ==> uuid_text(ds[j].character_id.0) != pov,
    ensures
        allowed_for(ds, pov) == Some(selection_refs(ds[k].sensations)),
    decreases ds.len(),
{
    if k < ds.len() - 1 {
        let d = ds.drop_last();
        lemma_allowed_for_last(d, pov, k);
    }
}

proof fn lemma_allowed_for_none(ds: Seq<CharacterDerivation>, pov: Seq<char>)
    requires
        forall|j: int| 0 <= j < ds.len() ==> uuid_text(ds[j].character_id.0) != pov,
    ensures
        allowed_for(ds, pov) is None,
    decreases ds.len(),
{
    if ds.len() > 0 {
        lemma_allowed_for_none(ds.drop_last(), pov);
    }
}

impl AssembledProse {
    /// Assembles a narration into prose.
    ///
    /// A narration without beats is an error.  Otherwise a beat is rejected
    /// when its pov is not among `participant_ids` or no derivation belongs
    /// to it; an accepted beat becomes its description followed by its
    /// action, and is kept unless blank.  Kept beats are joined by `"\n"`.
    pub fn assemble(
        narrative: &LlmNarrative,
        vocab: &Vocab,
        derivations: &Vec<CharacterDerivation>,
        participant_ids: &Vec<String>,
    ) -> (r: Result<Self, StoryError>)
        requires
            total_refs(narrative.beats@) <= usize::MAX,
        ensures
            narrative.beats@.len() == 0 <==> r is Err,
            r matches Err(e) ==> (e matches StoryError::Llm { kind, message } && kind
                == LlmErrorKind::EmptyBeats && message@ == no_beats_message()),
            r matches Ok(p) ==> ({
                let s = assembled_spec(narrative.beats@, *vocab, derivations@, views(participant_ids@));
                &&& p.text@ == s.0
                &&& p.stripped_refs == s.1
                &&& p.rejected_beats == s.2
                &&& p.action_only_beats == s.3
            }),
    {
        let beats = &narrative.beats;
        if beats.len() == 0 {
            return Err(
                StoryError::Llm {
                    kind: LlmErrorKind::EmptyBeats,
                    message: owned("prose generator returned no beats"),
                },
            );
        }
        let ghost ds = derivations@;
        let ghost parts = views(participant_ids@);
        // pov text and allowed fragments of every derivation
        let mut keys: Vec<String> = Vec::new();
        let mut allowed: Vec<Vec<String>> = Vec::new();
        let mut d: usize = 0;
        while d < derivations.len()
            invariant
                d <= derivations.len(),
                ds == derivations@,
                keys.len() == d,
                allowed.len() == d,
                forall|k: int|
                    0 <= k < d ==> (#[trigger] keys@[k])@ == uuid_text(ds[k].character_id.0),
                forall|k: int|
                    0 <= k < d ==> views((#[trigger] allowed@[k])@) == selection_refs(
                        ds[k].sensations,
                    ),
            decreases derivations.len() - d,
        {
            keys.push(derivations[d].character_id.text());
            allowed.push(candidate_refs_for(&derivations[d]));
            d = d + 1;
        }
        let mut paragraphs: Vec<String> = Vec::new();
        let mut total_stripped: usize = 0;
        let mut rejected: usize = 0;
        let mut action_only: usize = 0;
        let mut i: usize = 0;
        while i < beats.len()
            invariant
                i <= beats.len(),
                beats == &narrative.beats,
                ds == derivations@,
                parts == views(participant_ids@),
                total_refs(beats@) <= usize::MAX,
                keys.len() == ds.len(),
                allowed.len() == ds.len(),
                forall|k: int|
                    0 <= k < ds.len() ==> (#[trigger] keys@[k])@ == uuid_text(ds[k].character_id.0),
                forall|k: int|
                    0 <= k < ds.len() ==> views((#[trigger] allowed@[k])@) == selection_refs(
                        ds[k].sensations,
                    ),
                views(paragraphs@) == tally(beats@.take(i as int), *vocab, ds, parts).paras,
                total_stripped == tally(beats@.take(i as int), *vocab, ds, parts).stripped,
                rejected == tally(beats@.take(i as int), *vocab, ds, parts).rejected,
                action_only == tally(beats@.take(i as int), *vocab, ds, parts).action_only,
                total_stripped <= total_refs(beats@.take(i as int)),
                rejected <= i,
                action_only <= i,
            decreases beats.len() - i,
        {
            let beat = &beats[i];
            let ghost pre = beats@.take(i as int);
            let ghost cur = beats@.take(i as int + 1);
            proof {
                assert(cur.drop_last() =~= pre);
                assert(cur.last() == *beat);
                lemma_total_refs_prefix(beats@, i as int + 1);
            }
            let ghost paras_before = views(paragraphs@);
            if !contains_string(participant_ids, beat.pov.as_str()) {
                rejected = rejected + 1;
            } else {
                match find_last(&keys, beat.pov.as_str()) {
                    None => {
                        proof {
                            assert forall|j: int| 0 <= j < ds.len() implies uuid_text(
                                ds[j].character_id.0,
                            ) != beat.pov@ by {
                                assert(keys@[j]@ == uuid_text(ds[j].character_id.0));
                            }
                            lemma_allowed_for_none(ds, beat.pov@);
                        }
                        rejected = rejected + 1;
                    },
                    Some(k) => {
                        proof {
                            assert forall|j: int| k < j < ds.len() implies uuid_text(
                                ds[j].character_id.0,
                            ) != beat.pov@ by {
                                assert(keys@[j]@ == uuid_text(ds[j].character_id.0));
                            }
                            assert(keys@[k as int]@ == uuid_text(ds[k as int].character_id.0));
                            lemma_allowed_for_last(ds, beat.pov@, k as int);
                        }
                        let (desc, stripped) = assemble_beat_descriptions(
                            &beat.sensation_refs,
                            vocab,
                            &allowed[k],
                        );
                        proof {
                            lemma_stripped_bounded(
                                views(beat.sensation_refs@),
                                *vocab,
                                views(allowed@[k as int]@),
                            );
                        }
                        total_stripped = total_stripped + stripped;
                        let para = if desc.as_str().unicode_len() == 0 {
                            if !is_blank(beat.action.as_str()) {
                                action_only = action_only + 1;
                            }
                            beat.action.clone()
                        } else {
                            let mut p = desc;
                            push_str(&mut p, beat.action.as_str());
                            p
                        };
                        if !is_blank(para.as_str()) {
                            paragraphs.push(para);
                            proof {
                                assert(views(paragraphs@) =~= paras_before.push(para@));
                            }
                        }
                    },
                }
            }
            i = i + 1;
        }
        assert(beats@.take(beats@.len() as int) =~= beats@);
        let text = join_strings(&paragraphs, "\n");
        Ok(
            AssembledProse {
                text,
                stripped_refs: total_stripped,
                rejected_beats: rejected,
                action_only_beats: action_only,
            },
        )
    }
}

// ---------------------------------------------------------------------------
// Laws
// ---------------------------------------------------------------------------

/// Every beat is either rejected or accepted: rejected beats plus kept
/// paragraphs never outnumber the beats, nor do rejected plus action-only
/// beats; stripped references never outnumber the references.
pub proof fn lemma_assembly_counts(
    beats: Seq<NarrativeBeat>,
    vocab: Vocab,
    ds: Seq<CharacterDerivation>,
    parts: Seq<Seq<char>>,
)
    ensures
        tally(beats, vocab, ds, parts).rejected + tally(beats, vocab, ds, parts).paras.len()
            <= beats.len(),
        tally(beats, vocab, ds, parts).rejected + tally(beats, vocab, ds, parts).action_only
            <= beats.len(),
        tally(beats, vocab, ds, parts).stripped <= total_refs(beats),
    decreases beats.len(),
{
    if beats.len() > 0 {
        lemma_assembly_counts(beats.drop_last(), vocab, ds, parts);
        let b = beats.last();
        if parts.contains(b.pov@) {
            if let Some(allowed) = allowed_for(ds, b.pov@) {
                lemma_stripped_bounded(views(b.sensation_refs@), vocab, allowed);
            }
        }
    }
}

/// Every kept paragraph holds something other than whitespace.
pub proof fn lemma_assembly_paragraphs_not_blank(
    beats: Seq<NarrativeBeat>,
    vocab: Vocab,
    ds: Seq<CharacterDerivation>,
    parts: Seq<Seq<char>>,
)
    ensures
        forall|k: int|
            0 <= k < tally(beats, vocab, ds, parts).paras.len() ==> !blank(
                #[trigger] tally(beats, vocab, ds, parts).paras[k],
            ),
    decreases beats.len(),
{
    if beats.len() > 0 {
        lemma_assembly_paragraphs_not_blank(beats.drop_last(), vocab, ds, parts);
        let t = tally(beats.drop_last(), vocab, ds, parts);
        let u = tally(beats, vocab, ds, parts);
        assert forall|k: int| 0 <= k < u.paras.len() implies !blank(#[trigger] u.paras[k]) by {
            if k < t.paras.len() {
                assert(!blank(t.paras[k]));
                match beat_outcome(beats.last(), vocab, ds, parts) {
                    BeatOutcome::Rejected => {},
                    BeatOutcome::Accepted { para, stripped, action_only } => {
                        if !blank(para) {
                            assert(u.paras == t.paras.push(para));
                        }
                    },
                }
            }
        }
    }
}

/// When no beat's pov is a participant, every beat is rejected and the text
/// is empty.
pub proof fn lemma_assembly_outsiders_rejected(
    beats: Seq<NarrativeBeat>,
    vocab: Vocab,
    ds: Seq<CharacterDerivation>,
    parts: Seq<Seq<char>>,
)
    requires
        forall|k: int| 0 <= k < beats.len() ==> !parts.contains((#[trigger] beats[k]).pov@),
    ensures
        tally(beats, vocab, ds, parts).rejected == beats.len(),
        tally(beats, vocab, ds, parts).paras.len() == 0,
        join(tally(beats, vocab, ds, parts).paras, "\n"@).len() == 0,
    decreases beats.len(),
{
    if beats.len() > 0 {
        let d = beats.drop_last();
        assert forall|k: int| 0 <= k < d.len() implies !parts.contains((#[trigger] d[k]).pov@) by {
            assert(d[k] == beats[k]);
        }
        lemma_assembly_outsiders_rejected(d, vocab, ds, parts);
        assert(!parts.contains(beats[beats.len() - 1].pov@));
    }
}

/// The fragment text one reference contributes to category `cat`: its
/// text when it resolves to that category, nothing otherwise.
pub open spec fn ref_text(raw: Seq<char>, cat: Seq<char>, vocab: Vocab, allowed: Seq<Seq<char>>) -> Seq<
    char,
> {
    match resolve_ref(raw, vocab, allowed) {
        Some(r) => if r.0 == cat {
            r.1
        } else {
            Seq::empty()
        },
        None => Seq::empty(),
    }
}

/// Within a category, fragments keep the order of their references: the
/// text of references `a` followed by `b` is the text of `a` followed by
/// the text of `b`, and a single reference contributes its own fragment
/// when it resolves to the category.
pub proof fn lemma_category_text_keeps_reference_order(
    a: Seq<Seq<char>>,
    b: Seq<Seq<char>>,
    cat: Seq<char>,
    vocab: Vocab,
    allowed: Seq<Seq<char>>,
)
    ensures
        cat_text(a + b, cat, vocab, allowed) == cat_text(a, cat, vocab, allowed) + cat_text(
            b,
            cat,
            vocab,
            allowed,
        ),
        b.len() == 1 ==> cat_text(b, cat, vocab, allowed) == ref_text(b[0], cat, vocab, allowed),
    decreases b.len(),
{
    if b.len() == 0 {
        assert(a + b =~= a);
        assert(cat_text(b, cat, vocab, allowed) =~= Seq::<char>::empty());
        assert(cat_text(a, cat, vocab, allowed) + Seq::<char>::empty() =~= cat_text(
            a,
            cat,
            vocab,
            allowed,
        ));
    } else {
        let bd = b.drop_last();
        lemma_category_text_keeps_reference_order(a, bd, cat, vocab, allowed);
        assert((a + b).drop_last() =~= a + bd);
        assert((a + b).last() == b.last());
        if b.len() == 1 {
            assert(bd =~= Seq::<Seq<char>>::empty());
            assert(b.last() == b[0]);
        }
        match resolve_ref(b.last(), vocab, allowed) {
            Some(r) => {
                if r.0 == cat {
                    assert(cat_text(a, cat, vocab, allowed) + cat_text(bd, cat, vocab, allowed) + r.1
                        =~= cat_text(a, cat, vocab, allowed) + (cat_text(bd, cat, vocab, allowed)
                        + r.1));
                }
            },
            None => {},
        }
        if b.len() == 1 {
            assert(Seq::<char>::empty() + ref_text(b[0], cat, vocab, allowed) =~= ref_text(
                b[0],
                cat,
                vocab,
                allowed,
            ));
        }
    }
}

/// Fragments are laid out atmosphere first, then visual, auditory,
/// olfactory, tactile, gustatory, emotion, and gesture last: each of the
/// eight categories exactly once.
pub proof fn lemma_layout_order()
    ensures
        assembly_order() == seq![
            "atmosphere"@,
            "visual"@,
            "auditory"@,
            "olfactory"@,
            "tactile"@,
            "gustatory"@,
            "emotion"@,
            "gesture"@,
        ],
        forall|i: int| 0 <= i < 8 ==> sense_names().contains(#[trigger] assembly_order()[i]),
        forall|i: int, j: int|
            0 <= i < 8 && 0 <= j < 8 && i != j ==> assembly_order()[i] != assembly_order()[j],
{
    lemma_assembly_order_distinct();
    let o = assembly_order();
    let n = sense_names();
    assert(o[0] == n[7]);
    assert(o[1] == n[0]);
    assert(o[2] == n[1]);
    assert(o[3] == n[2]);
    assert(o[4] == n[3]);
    assert(o[5] == n[4]);
    assert(o[6] == n[5]);
    assert(o[7] == n[6]);
}

} // verus!
