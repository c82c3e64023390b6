//! Maps keyed by text, iterated in key order.
use vstd::prelude::*;
use crate::sort::{lemma_lex_refl, lemma_lex_antisym, lemma_lex_total, lemma_lex_trans, lex_le, lex_le_exec};
use crate::text::{chars_of, owned};

verus! {

// ---------------------------------------------------------------------------
// Maps keyed by text
// ---------------------------------------------------------------------------

/// Strict code-point order on texts.
pub open spec fn lex_lt(a: Seq<char>, b: Seq<char>) -> bool {
    lex_le(a, b) && a != b
}

/// The keys of `es` increase strictly (each key appears once, in order).
pub open spec fn keys_increasing<X>(es: Seq<(Seq<char>, X)>) -> bool {
    forall|i: int, j: int| 0 <= i < j < es.len() ==> lex_lt(#[trigger] es[i].0, #[trigger] es[j].0)
}

/// The value filed under `key` in `es`, if any.
pub open spec fn lookup<X>(es: Seq<(Seq<char>, X)>, key: Seq<char>) -> Option<X>
    decreases es.len(),
{
    if es.len() == 0 {
        None
    } else if es.last().0 == key {
        Some(es.last().1)
    } else {
        lookup(es.drop_last(), key)
    }
}

proof fn lemma_lookup_at<X>(es: Seq<(Seq<char>, X)>, i: int)
    requires
        keys_increasing(es),
        0 <= i < es.len(),
    ensures
        lookup(es, es[i].0) == Some(es[i].1),
    decreases es.len(),
{
    if i < es.len() - 1 {
        assert(lex_lt(es[i].0, es[es.len() - 1].0));
        let d = es.drop_last();
        assert(keys_increasing(d)) by {
            assert forall|a: int, b: int| 0 <= a < b < d.len() implies lex_lt(#[trigger] d[a].0, #[trigger] d[b].0) by {
                assert(lex_lt(es[a].0, es[b].0));
            }
        }
        assert(d[i] == es[i]);
        lemma_lookup_at(d, i);
    }
}

proof fn lemma_lookup_absent<X>(es: Seq<(Seq<char>, X)>, key: Seq<char>)
    requires
        forall|i: int| 0 <= i < es.len() ==> (#[trigger] es[i]).0 != key,
    ensures
        lookup(es, key) is None,
    decreases es.len(),
{
    if es.len() > 0 {
        let d = es.drop_last();
        assert forall|i: int| 0 <= i < d.len() implies (#[trigger] d[i]).0 != key by {
            assert(d[i] == es[i]);
        }
        assert(es[es.len() - 1].0 != key);
        lemma_lookup_absent(d, key);
    }
}

/// Under distinct keys, the value looked up is the one at the key's place.
proof fn lemma_lookup_spec<X>(es: Seq<(Seq<char>, X)>, key: Seq<char>)
    requires
        keys_increasing(es),
    ensures
        (exists|i: int| 0 <= i < es.len() && es[i].0 == key) ==> (exists|i: int|
            0 <= i < es.len() && es[i].0 == key && lookup(es, key) == Some(es[i].1)),
        !(exists|i: int| 0 <= i < es.len() && es[i].0 == key) ==> lookup(es, key) is None,
{
    if exists|i: int| 0 <= i < es.len() && es[i].0 == key {
        let i = choose|i: int| 0 <= i < es.len() && es[i].0 == key;
        lemma_lookup_at(es, i);
    } else {
        assert forall|i: int| 0 <= i < es.len() implies (#[trigger] es[i]).0 != key by {}
        lemma_lookup_absent(es, key);
    }
}

/// Values keyed by text, keys in increasing code-point order and each
/// present once (the iteration order of an ordered map with text keys).
#[derive(Debug)]
pub struct TextMap<V> {
    groups: Vec<(String, V)>,
}

impl<V> View for TextMap<V> {
    type V = Seq<(Seq<char>, V)>;

    closed spec fn view(&self) -> Self::V {
        self.groups@.map_values(|g: (String, V)| (g.0@, g.1))
    }
}

impl<V> TextMap<V> {
    #[verifier::type_invariant]
    closed spec fn wf(self) -> bool {
        keys_increasing(self@)
    }

    /// The empty map.
    pub fn new() -> (m: Self)
        ensures
            m@.len() == 0,
    {
        let m = TextMap { groups: Vec::new() };
        assert(m@ =~= Seq::<(Seq<char>, V)>::empty());
        m
    }

    /// The entries, in increasing key order.
    pub fn entries(&self) -> (g: &Vec<(String, V)>)
        ensures
            g@.map_values(|e: (String, V)| (e.0@, e.1)) == self@,
            keys_increasing(self@),
    {
        proof {
            use_type_invariant(self);
        }
        &self.groups
    }

    /// Files `value` under `key`, replacing what was filed there.
    pub fn insert(&mut self, key: &str, value: V)
        ensures
            keys_increasing(final(self)@),
            (exists|i: int| 0 <= i < old(self)@.len() && old(self)@[i].0 == key@) ==> (exists|
                i: int,
            |
                0 <= i < old(self)@.len() && old(self)@[i].0 == key@ && final(self)@ == old(
                    self,
                )@.update(i, (key@, value))),
            !(exists|i: int| 0 <= i < old(self)@.len() && old(self)@[i].0 == key@) ==> (exists|
                p: int,
            |
                0 <= p <= old(self)@.len() && final(self)@ == old(self)@.insert(
                    p,
                    (key@, value),
                )),
            lookup(final(self)@, key@) == Some(value),
            forall|k: Seq<char>| k != key@ ==> #[trigger] lookup(final(self)@, k) == lookup(old(self)@, k),
            final(self)@.len() == old(self)@.len() + (if lookup(old(self)@, key@) is Some {
                0int
            } else {
                1int
            }),
    {
        proof {
            use_type_invariant(&*self);
        }
        let ghost old_view = self@;
        let key_chars = chars_of(key);
        let mut p: usize = 0;
        while p < self.groups.len() && !lex_le_exec(&key_chars, &chars_of(self.groups[p].0.as_str()))
            invariant
                p <= self.groups.len(),
                self@ == old_view,
                keys_increasing(old_view),
                key_chars@ == key@,
                forall|q: int| 0 <= q < p ==> !lex_le(key@, #[trigger] old_view[q].0),
            decreases self.groups.len() - p,
        {
            p = p + 1;
        }
        let ghost new_entry = (key@, value);
        let entry = (owned(key), value);
        if p < self.groups.len() && lex_le_exec(&chars_of(self.groups[p].0.as_str()), &key_chars) {
            proof {
                lemma_lex_antisym(key@, old_view[p as int].0);
            }
            let mut groups = Vec::new();
            std::mem::swap(&mut groups, &mut self.groups);
            groups.set(p, entry);
            proof {
                let v = groups@.map_values(
                    |g: (String, V)| (g.0@, g.1),
                );
                assert(v =~= old_view.update(p as int, new_entry));
                assert forall|i: int, j: int| 0 <= i < j < v.len() implies lex_lt(
                    #[trigger] v[i].0,
                    #[trigger] v[j].0,
                ) by {
                    assert(lex_lt(old_view[i].0, old_view[j].0));
                }
            }
            self.groups = groups;
            proof {
                let v = self@;
                assert(v =~= old_view.update(p as int, new_entry));
                lemma_lookup_at(v, p as int);
                lemma_lookup_at(old_view, p as int);
                assert forall|k: Seq<char>| k != key@ implies #[trigger] lookup(v, k) == lookup(old_view, k) by {
                    lemma_lookup_spec(v, k);
                    lemma_lookup_spec(old_view, k);
                    if exists|i: int| 0 <= i < old_view.len() && old_view[i].0 == k {
                        let i = choose|i: int| 0 <= i < old_view.len() && old_view[i].0 == k;
                        assert(v[i] == old_view[i]);
                        lemma_lookup_at(v, i);
                        lemma_lookup_at(old_view, i);
                    }
                    if exists|i: int| 0 <= i < v.len() && v[i].0 == k {
                        let i = choose|i: int| 0 <= i < v.len() && v[i].0 == k;
                        assert(v[i] == old_view[i]);
                    }
                }
            }
        } else {
            proof {
                if p < old_view.len() {
                    lemma_lex_total(key@, old_view[p as int].0);
                }
            }
            let mut groups = Vec::new();
            std::mem::swap(&mut groups, &mut self.groups);
            groups.insert(p, entry);
            proof {
                let v = groups@.map_values(
                    |g: (String, V)| (g.0@, g.1),
                );
                assert(v =~= old_view.insert(p as int, new_entry));
                assert forall|i: int, j: int| 0 <= i < j < v.len() implies lex_lt(
                    #[trigger] v[i].0,
                    #[trigger] v[j].0,
                ) by {
                    if j < p {
                        assert(lex_lt(old_view[i].0, old_view[j].0));
                    } else if j == p {
                        assert(!lex_le(key@, old_view[i].0));
                        lemma_lex_total(key@, old_view[i].0);
                    } else if i < p {
                        assert(v[j] == old_view[j - 1]);
                        assert(!lex_le(key@, old_view[i].0));
                        lemma_lex_total(key@, old_view[i].0);
                        assert(lex_le(old_view[p as int].0, old_view[j - 1].0)) by {
                            if j - 1 > p {
                                assert(lex_lt(old_view[p as int].0, old_view[j - 1].0));
                            } else {
                                lemma_lex_refl(old_view[p as int].0);
                            }
                        }
                        lemma_lex_trans(old_view[i].0, key@, old_view[p as int].0);
                        lemma_lex_trans(old_view[i].0, old_view[p as int].0, old_view[j - 1].0);
                        if old_view[i].0 == old_view[j - 1].0 {
                            lemma_lex_antisym(old_view[i].0, key@);
                        }
                    } else if i == p {
                        assert(v[j] == old_view[j - 1]);
                        assert(lex_le(old_view[p as int].0, old_view[j - 1].0)) by {
                            if j - 1 > p {
                                assert(lex_lt(old_view[p as int].0, old_view[j - 1].0));
                            } else {
                                lemma_lex_refl(old_view[p as int].0);
                            }
                        }
                        lemma_lex_trans(key@, old_view[p as int].0, old_view[j - 1].0);
                        if key@ == old_view[j - 1].0 {
                            lemma_lex_antisym(key@, old_view[p as int].0);
                        }
                    } else {
                        assert(v[i] == old_view[i - 1]);
                        assert(v[j] == old_view[j - 1]);
                        assert(lex_lt(old_view[i - 1].0, old_view[j - 1].0));
                    }
                }
                assert forall|i: int| 0 <= i < old_view.len() implies old_view[i].0 != key@ by {
                    if i < p {
                        lemma_lex_total(key@, old_view[i].0);
                    } else {
                        if i > p {
                            assert(lex_lt(old_view[p as int].0, old_view[i].0));
                            if old_view[i].0 == key@ {
                                lemma_lex_antisym(key@, old_view[p as int].0);
                            }
                        }
                    }
                }
            }
            self.groups = groups;
            proof {
                let v = self@;
                assert(v =~= old_view.insert(p as int, new_entry));
                lemma_lookup_at(v, p as int);
                lemma_lookup_absent(old_view, key@);
                assert forall|k: Seq<char>| k != key@ implies #[trigger] lookup(v, k) == lookup(old_view, k) by {
                    lemma_lookup_spec(v, k);
                    lemma_lookup_spec(old_view, k);
                    if exists|i: int| 0 <= i < old_view.len() && old_view[i].0 == k {
                        let i = choose|i: int| 0 <= i < old_view.len() && old_view[i].0 == k;
                        let j = if i < p { i } else { i + 1 };
                        assert(v[j] == old_view[i]);
                        lemma_lookup_at(v, j);
                        lemma_lookup_at(old_view, i);
                    }
                    if exists|j: int| 0 <= j < v.len() && v[j].0 == k {
                        let j = choose|j: int| 0 <= j < v.len() && v[j].0 == k;
                        assert(j != p);
                        let i = if j < p { j } else { j - 1 };
                        assert(v[j] == old_view[i]);
                    }
                }
            }
        }
    }
}

} // verus!
