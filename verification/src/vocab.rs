//! Vocabulary of description fragments.
//!
//! Each entry is a fragment of source text filed under a category (sense)
//! and a key; an id `"<sense>.<key>"` names it.
use vstd::prelude::*;
use crate::text::{owned, text_eq};
use crate::models::sensation::sense_names;

verus! {

/// One vocabulary entry.
#[derive(Debug, Clone)]
pub struct VocabEntry {
    pub sense: String,
    pub key: String,
    pub text: String,
    pub tags: Vec<String>,
}

/// The vocabulary: entries filed by category and key.
#[derive(Debug, Clone)]
pub struct Vocab {
    entries: Vec<VocabEntry>,
}

/// The text filed under `(sense, key)`, the first matching entry's.
pub open spec fn lookup(es: Seq<VocabEntry>, sense: Seq<char>, key: Seq<char>) -> Option<Seq<char>>
    decreases es.len(),
{
    if es.len() == 0 {
        None
    } else {
        let r = lookup(es.drop_last(), sense, key);
        if r is Some {
            r
        } else if es.last().sense@ == sense && es.last().key@ == key {
            Some(es.last().text@)
        } else {
            None
        }
    }
}

proof fn lemma_lookup_none_prefix(es: Seq<VocabEntry>, sense: Seq<char>, key: Seq<char>, i: int)
    requires
        0 <= i <= es.len(),
        forall|j: int| 0 <= j < i ==> !(es[j].sense@ == sense && es[j].key@ == key),
    ensures
        lookup(es.take(i), sense, key) is None,
    decreases i,
{
    if i > 0 {
        assert(es.take(i).drop_last() =~= es.take(i - 1));
        lemma_lookup_none_prefix(es, sense, key, i - 1);
    }
}

proof fn lemma_lookup_extend(es: Seq<VocabEntry>, sense: Seq<char>, key: Seq<char>, i: int)
    requires
        0 <= i < es.len(),
        lookup(es.take(i), sense, key) is Some,
    ensures
        lookup(es.take(i + 1), sense, key) == lookup(es.take(i), sense, key),
{
    assert(es.take(i + 1).drop_last() =~= es.take(i));
}

impl Vocab {
    pub closed spec fn entries_view(&self) -> Seq<VocabEntry> {
        self.entries@
    }

    /// The text filed under `(sense, key)`.
    pub open spec fn text_spec(&self, sense: Seq<char>, key: Seq<char>) -> Option<Seq<char>> {
        lookup(self.entries_view(), sense, key)
    }

    /// An empty vocabulary.
    pub fn new() -> (v: Self)
        ensures
            v.entries_view().len() == 0,
            forall|s: Seq<char>, k: Seq<char>| v.text_spec(s, k) is None,
    {
        Vocab { entries: Vec::new() }
    }

    /// Number of entries.
    pub fn len(&self) -> (n: usize)
        ensures
            n == self.entries_view().len(),
    {
        self.entries.len()
    }

    /// Files `text` under `(sense, key)`, replacing the entry already filed
    /// there, if any.
    pub fn insert(&mut self, sense: &str, key: &str, text: &str, tags: Vec<String>)
        ensures
            final(self).text_spec(sense@, key@) == Some(text@),
            forall|s: Seq<char>, k: Seq<char>|
                !(s == sense@ && k == key@) ==> final(self).text_spec(s, k) == old(self).text_spec(
                    s,
                    k,
                ),
    {
        let mut i: usize = 0;
        while i < self.entries.len()
            invariant
                i <= self.entries.len(),
                self.entries@ == old(self).entries@,
                forall|j: int| 0 <= j < i ==> !(self.entries@[j].sense@ == sense@ && self.entries@[j].key@ == key@),
            decreases self.entries.len() - i,
        {
            if text_eq(self.entries[i].sense.as_str(), sense) && text_eq(self.entries[i].key.as_str(), key) {
                let entry = VocabEntry { sense: owned(sense), key: owned(key), text: owned(text), tags };
                let ghost before = self.entries@;
                let ghost eg = entry;
                assert(eg.sense@ == sense@ && eg.key@ == key@);
                self.entries.set(i, entry);
                assert(self.entries@ == before.update(i as int, eg));
                proof {
                    lemma_replace(before, i as int, self.entries@, sense@, key@);
                }
                return;
            }
            i = i + 1;
        }
        let entry = VocabEntry { sense: owned(sense), key: owned(key), text: owned(text), tags };
        let ghost before = self.entries@;
        self.entries.push(entry);
        proof {
            lemma_lookup_none_prefix(before, sense@, key@, before.len() as int);
            assert(before.take(before.len() as int) =~= before);
            assert(self.entries@.drop_last() =~= before);
            assert forall|s: Seq<char>, k: Seq<char>|
                !(s == sense@ && k == key@) implies lookup(self.entries@, s, k) == lookup(before, s, k) by {
            }
        }
    }

    /// The text filed under `(sense, key)`, if any.
    pub fn text_of(&self, sense: &str, key: &str) -> (r: Option<String>)
        ensures
            r matches Some(t) ==> self.text_spec(sense@, key@) == Some(t@),
            r is None ==> self.text_spec(sense@, key@) is None,
    {
        let mut i: usize = 0;
        while i < self.entries.len()
            invariant
                i <= self.entries.len(),
                lookup(self.entries@.take(i as int), sense@, key@) is None,
            decreases self.entries.len() - i,
        {
            if text_eq(self.entries[i].sense.as_str(), sense) && text_eq(self.entries[i].key.as_str(), key) {
                proof {
                    assert(self.entries@.take(i as int + 1).drop_last() =~= self.entries@.take(i as int));
                    lemma_lookup_prefix_stable(self.entries@, sense@, key@, i as int + 1);
                }
                return Some(self.entries[i].text.clone());
            }
            proof {
                assert(self.entries@.take(i as int + 1).drop_last() =~= self.entries@.take(i as int));
            }
            i = i + 1;
        }
        assert(self.entries@.take(self.entries@.len() as int) =~= self.entries@);
        None
    }
}

/// Once a prefix finds a text, longer prefixes find the same text.
proof fn lemma_lookup_prefix_stable(es: Seq<VocabEntry>, sense: Seq<char>, key: Seq<char>, i: int)
    requires
        0 <= i <= es.len(),
        lookup(es.take(i), sense, key) is Some,
    ensures
        lookup(es, sense, key) == lookup(es.take(i), sense, key),
    decreases es.len() - i,
{
    if i == es.len() {
        assert(es.take(i) =~= es);
    } else {
        lemma_lookup_extend(es, sense, key, i);
        lemma_lookup_prefix_stable(es, sense, key, i + 1);
    }
}

/// Replacing the first (and only earlier-unmatched) entry for a key.
proof fn lemma_replace(before: Seq<VocabEntry>, i: int, after: Seq<VocabEntry>, sense: Seq<char>, key: Seq<char>)
    requires
        0 <= i < before.len(),
        after.len() == before.len(),
        after[i].sense@ == sense && after[i].key@ == key,
        before[i].sense@ == sense && before[i].key@ == key,
        forall|j: int| 0 <= j < before.len() && j != i ==> after[j] == before[j],
        forall|j: int| 0 <= j < i ==> !(before[j].sense@ == sense && before[j].key@ == key),
    ensures
        lookup(after, sense, key) == Some(after[i].text@),
        forall|s: Seq<char>, k: Seq<char>|
            !(s == sense && k == key) ==> lookup(after, s, k) == lookup(before, s, k),
{
    lemma_lookup_none_prefix(after, sense, key, i);
    assert(after.take(i + 1).drop_last() =~= after.take(i));
    lemma_lookup_prefix_stable(after, sense, key, i + 1);
    assert forall|s: Seq<char>, k: Seq<char>|
        !(s == sense && k == key) implies lookup(after, s, k) == lookup(before, s, k) by {
        lemma_lookup_same_off(before, after, i, s, k, before.len() as int);
        assert(after.take(after.len() as int) =~= after);
        assert(before.take(before.len() as int) =~= before);
    }
}

proof fn lemma_lookup_same_off(before: Seq<VocabEntry>, after: Seq<VocabEntry>, i: int, s: Seq<char>, k: Seq<char>, n: int)
    requires
        0 <= i < before.len(),
        after.len() == before.len(),
        0 <= n <= before.len(),
        forall|j: int| 0 <= j < before.len() && j != i ==> after[j] == before[j],
        before[i].sense@ == after[i].sense@ && before[i].key@ == after[i].key@,
        !(before[i].sense@ == s && before[i].key@ == k),
    ensures
        lookup(after.take(n), s, k) == lookup(before.take(n), s, k),
    decreases n,
{
    if n > 0 {
        assert(after.take(n).drop_last() =~= after.take(n - 1));
        assert(before.take(n).drop_last() =~= before.take(n - 1));
        lemma_lookup_same_off(before, after, i, s, k, n - 1);
    }
}

/// Position of a category in the canonical category order (field order of
/// a sensory selection), searching from position `i`; categories outside it
/// come last (rank 8).
pub open spec fn sense_rank_from(sense: Seq<char>, i: int) -> int
    decreases 8 - i,
{
    if i >= 8 {
        8
    } else if sense_names()[i] == sense {
        i
    } else {
        sense_rank_from(sense, i + 1)
    }
}

/// Position of a category in the canonical category order, 8 when it is
/// not one of the eight.
pub open spec fn sense_rank(sense: Seq<char>) -> int {
    sense_rank_from(sense, 0)
}

/// Rank of a category in the canonical category order.
pub fn sense_order(sense: &str) -> (r: usize)
    ensures
        r == sense_rank(sense@),
        r <= 8,
{
    let mut i: usize = 0;
    while i < 8
        invariant
            i <= 8,
            sense_rank(sense@) == sense_rank_from(sense@, i as int),
        decreases 8 - i,
    {
        if text_eq(crate::models::sensation::sense_name(i), sense) {
            return i;
        }
        i = i + 1;
    }
    8
}

/// The rank of a category is its place in the canonical order: visual 0,
/// auditory 1, olfactory 2, tactile 3, gustatory 4, emotion 5, gesture 6,
/// atmosphere 7; any other text ranks 8, after all of them.
pub proof fn lemma_sense_ranks(sense: Seq<char>)
    ensures
        sense_rank("visual"@) == 0,
        sense_rank("auditory"@) == 1,
        sense_rank("olfactory"@) == 2,
        sense_rank("tactile"@) == 3,
        sense_rank("gustatory"@) == 4,
        sense_rank("emotion"@) == 5,
        sense_rank("gesture"@) == 6,
        sense_rank("atmosphere"@) == 7,
        !sense_names().contains(sense) ==> sense_rank(sense) == 8,
{
    reveal_strlit("visual");
    reveal_strlit("auditory");
    reveal_strlit("olfactory");
    reveal_strlit("tactile");
    reveal_strlit("gustatory");
    reveal_strlit("emotion");
    reveal_strlit("gesture");
    reveal_strlit("atmosphere");
    let n = sense_names();
    assert forall|i: int, j: int| 0 <= i < 8 && 0 <= j < 8 && i != j implies n[i] != n[j] by {
        if n[i].len() == n[j].len() {
            assert(n[i][0] != n[j][0]);
        }
    }
    if !n.contains(sense) {
        assert forall|i: int| 0 <= i < 8 implies n[i] != sense by {
            if n[i] == sense {
                assert(n.contains(sense));
            }
        }
    }
    reveal_with_fuel(sense_rank_from, 9);
}

} // verus!
