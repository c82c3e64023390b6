//! Stable ordering of items by a key.
//!
//! The library sorts in several places (characters by name or by id,
//! candidate fragments by category and id, tags alphabetically).  All of
//! them go through [`stable_order`], which returns the permutation that a
//! stable sort (`slice::sort_by`) would apply.
use vstd::prelude::*;
use crate::text::{chars_of, views};

verus! {

/// A key with a total preorder, the order a stable sort uses.
pub trait SortKey: Sized {
    spec fn key_le(self, other: Self) -> bool;

    proof fn lemma_key_total(a: Self, b: Self)
        ensures
            a.key_le(b) || b.key_le(a),
    ;

    proof fn lemma_key_trans(a: Self, b: Self, c: Self)
        requires
            a.key_le(b),
            b.key_le(c),
        ensures
            a.key_le(c),
    ;
}

/// A key that executable code can compare.
pub trait ExecSortKey: SortKey {
    fn key_le_exec(&self, other: &Self) -> (r: bool)
        ensures
            r == self.key_le(*other),
    ;
}

/// `ord` lists every index of `keys` once, in non-decreasing key order, and
/// indices with equal keys keep their original relative order.
pub open spec fn is_stable_order<K: SortKey>(keys: Seq<K>, ord: Seq<usize>) -> bool {
    &&& ord.len() == keys.len()
    &&& forall|i: int| 0 <= i < ord.len() ==> (#[trigger] ord[i]) < keys.len()
    &&& forall|i: int, j: int|
        #![trigger ord[i], ord[j]]
        0 <= i < j < ord.len() ==> ord[i] != ord[j]
    &&& forall|i: int, j: int|
        #![trigger ord[i], ord[j]]
        0 <= i < j < ord.len() ==> keys[ord[i] as int].key_le(keys[ord[j] as int])
    &&& forall|i: int, j: int|
        #![trigger ord[i], ord[j]]
        0 <= i < j < ord.len() && keys[ord[j] as int].key_le(keys[ord[i] as int]) ==> ord[i]
            < ord[j]
}

/// `ord` lists each of the first `k` indices once, in a stable order of
/// their keys.
pub open spec fn stable_prefix<K: SortKey>(keys: Seq<K>, ord: Seq<usize>, k: int) -> bool {
    &&& ord.len() == k
    &&& forall|i: int| 0 <= i < k ==> (#[trigger] ord[i]) < k
    &&& forall|i: int, j: int|
        #![trigger ord[i], ord[j]]
        0 <= i < j < k ==> ord[i] != ord[j]
    &&& forall|i: int, j: int|
        #![trigger ord[i], ord[j]]
        0 <= i < j < k ==> keys[ord[i] as int].key_le(keys[ord[j] as int])
    &&& forall|i: int, j: int|
        #![trigger ord[i], ord[j]]
        0 <= i < j < k && keys[ord[j] as int].key_le(keys[ord[i] as int]) ==> ord[i] < ord[j]
}

/// Inserting index `k` before the first entry whose key is not at most
/// `keys[k]` extends a stable order of the first `k` indices to `k + 1`.
pub proof fn lemma_insert_stable<K: SortKey>(keys: Seq<K>, old_ord: Seq<usize>, k: int, p: int)
    requires
        0 <= k < keys.len(),
        k <= usize::MAX,
        stable_prefix(keys, old_ord, k),
        0 <= p <= k,
        forall|q: int| 0 <= q < p ==> keys[(#[trigger] old_ord[q]) as int].key_le(keys[k]),
        p < k ==> !keys[old_ord[p] as int].key_le(keys[k]),
    ensures
        stable_prefix(keys, old_ord.insert(p, k as usize), k + 1),
{
    if p < k {
        K::lemma_key_total(keys[old_ord[p as int] as int], keys[k]);
    }
        let n = old_ord.insert(p, k as usize);
        assert(n.len() == k + 1);
        assert forall|i: int| 0 <= i < p implies n[i] == old_ord[i] by {}
        assert(n[p as int] == k);
        assert forall|i: int| p < i <= k implies n[i] == old_ord[i - 1] by {}
        assert forall|i: int| 0 <= i < k + 1 implies (#[trigger] n[i]) < k + 1 by {
            if i < p {
            } else if i > p {
                assert(n[i] == old_ord[i - 1]);
            }
        }
        assert forall|i: int, j: int| 0 <= i < j < k + 1 implies #[trigger] n[i] != #[trigger] n[j] by {
            if i < p && j < p {
                assert(old_ord[i] != old_ord[j]);
            } else if i < p && j == p {
                assert(old_ord[i] < k);
            } else if i < p && j > p {
                assert(n[j] == old_ord[j - 1]);
                assert(old_ord[i] != old_ord[j - 1]);
            } else if i == p {
                assert(n[j] == old_ord[j - 1]);
                assert(old_ord[j - 1] < k);
            } else {
                assert(n[i] == old_ord[i - 1]);
                assert(n[j] == old_ord[j - 1]);
                assert(old_ord[i - 1] != old_ord[j - 1]);
            }
        }
        assert forall|i: int, j: int| 0 <= i < j < k + 1 implies keys[(#[trigger] n[i]) as int].key_le(
            keys[(#[trigger] n[j]) as int],
        ) by {
            if i < p && j < p {
                assert(keys[old_ord[i] as int].key_le(keys[old_ord[j] as int]));
            } else if i < p && j == p {
                assert(keys[old_ord[i] as int].key_le(keys[k as int]));
            } else if i < p && j > p {
                assert(n[j] == old_ord[j - 1]);
                assert(keys[old_ord[i] as int].key_le(keys[old_ord[j - 1] as int]));
            } else if i == p {
                assert(n[j] == old_ord[j - 1]);
                if j - 1 > p {
                    assert(keys[old_ord[p as int] as int].key_le(
                        keys[old_ord[j - 1] as int],
                    ));
                    K::lemma_key_trans(
                        keys[k as int],
                        keys[old_ord[p as int] as int],
                        keys[old_ord[j - 1] as int],
                    );
                }
            } else {
                assert(n[i] == old_ord[i - 1]);
                assert(n[j] == old_ord[j - 1]);
                assert(keys[old_ord[i - 1] as int].key_le(keys[old_ord[j - 1] as int]));
            }
        }
        assert forall|i: int, j: int|
            0 <= i < j < k + 1 && keys[(#[trigger] n[j]) as int].key_le(
                keys[(#[trigger] n[i]) as int],
            ) implies n[i] < n[j] by {
            if i < p && j < p {
                assert(keys[old_ord[j] as int].key_le(keys[old_ord[i] as int]));
            } else if i < p && j == p {
                assert(old_ord[i] < k);
            } else if i < p && j > p {
                assert(n[j] == old_ord[j - 1]);
                assert(keys[old_ord[j - 1] as int].key_le(keys[old_ord[i] as int]));
            } else if i == p {
                assert(n[j] == old_ord[j - 1]);
                if j - 1 > p {
                    assert(keys[old_ord[p as int] as int].key_le(
                        keys[old_ord[j - 1] as int],
                    ));
                    K::lemma_key_trans(
                        keys[old_ord[p as int] as int],
                        keys[old_ord[j - 1] as int],
                        keys[k as int],
                    );
                }
            } else {
                assert(n[i] == old_ord[i - 1]);
                assert(n[j] == old_ord[j - 1]);
                assert(keys[old_ord[j - 1] as int].key_le(keys[old_ord[i - 1] as int]));
            }
        }

}

/// The first position, from `p` on, whose key is not at most `keys[k]`.
pub open spec fn insert_pos<K: SortKey>(keys: Seq<K>, ord: Seq<usize>, k: int, p: int) -> int
    decreases ord.len() - p,
{
    if p >= ord.len() || !keys[ord[p] as int].key_le(keys[k]) {
        p
    } else {
        insert_pos(keys, ord, k, p + 1)
    }
}

proof fn lemma_insert_pos<K: SortKey>(keys: Seq<K>, ord: Seq<usize>, k: int, p: int)
    requires
        0 <= p <= ord.len(),
        forall|q: int| 0 <= q < p ==> keys[(#[trigger] ord[q]) as int].key_le(keys[k]),
    ensures
        p <= insert_pos(keys, ord, k, p) <= ord.len(),
        forall|q: int|
            0 <= q < insert_pos(keys, ord, k, p) ==> keys[(#[trigger] ord[q]) as int].key_le(keys[k]),
        insert_pos(keys, ord, k, p) < ord.len() ==> !keys[ord[insert_pos(keys, ord, k, p)] as int].key_le(
            keys[k],
        ),
    decreases ord.len() - p,
{
    if p < ord.len() && keys[ord[p] as int].key_le(keys[k]) {
        lemma_insert_pos(keys, ord, k, p + 1);
    }
}

/// A stable order of the first `k` indices, built by insertion.
pub open spec fn stable_prefix_order<K: SortKey>(keys: Seq<K>, k: int) -> Seq<usize>
    decreases k,
{
    if k <= 0 {
        Seq::empty()
    } else {
        let o = stable_prefix_order(keys, k - 1);
        o.insert(insert_pos(keys, o, k - 1, 0), (k - 1) as usize)
    }
}

proof fn lemma_stable_prefix_order<K: SortKey>(keys: Seq<K>, k: int)
    requires
        0 <= k <= keys.len(),
        keys.len() <= usize::MAX,
    ensures
        stable_prefix(keys, stable_prefix_order(keys, k), k),
    decreases k,
{
    if k > 0 {
        lemma_stable_prefix_order(keys, k - 1);
        let o = stable_prefix_order(keys, k - 1);
        lemma_insert_pos(keys, o, k - 1, 0);
        lemma_insert_stable(keys, o, k - 1, insert_pos(keys, o, k - 1, 0));
    }
}

/// Every sequence of keys (of a length a vector can have) has a stable order.
pub proof fn lemma_stable_order_exists<K: SortKey>(keys: Seq<K>)
    requires
        keys.len() <= usize::MAX,
    ensures
        is_stable_order(keys, stable_order_of(keys)),
{
    lemma_stable_prefix_order(keys, keys.len() as int);
    let o = stable_prefix_order(keys, keys.len() as int);
    assert(is_stable_order(keys, o));
}

/// The permutation that a stable sort of `keys` applies: position `p` of the
/// sorted sequence holds `keys[ord[p]]`.
pub fn stable_order<K: ExecSortKey>(keys: &Vec<K>) -> (ord: Vec<usize>)
    ensures
        is_stable_order(keys@, ord@),
        ord@ == stable_order_of(keys@),
{
    let mut ord: Vec<usize> = Vec::new();
    let mut k: usize = 0;
    while k < keys.len()
        invariant
            k <= keys.len(),
            stable_prefix(keys@, ord@, k as int),
        decreases keys.len() - k,
    {
        let mut p: usize = 0;
        while p < ord.len() && keys[ord[p]].key_le_exec(&keys[k])
            invariant
                k < keys.len(),
                ord.len() == k,
                p <= ord.len(),
                forall|i: int| 0 <= i < k ==> (#[trigger] ord@[i]) < k,
                forall|q: int| 0 <= q < p ==> keys@[(#[trigger] ord@[q]) as int].key_le(keys@[k as int]),
            decreases ord.len() - p,
        {
            p = p + 1;
        }
        let ghost old_ord = ord@;
        ord.insert(p, k);
        proof {
            lemma_insert_stable(keys@, old_ord, k as int, p as int);
        }
        k = k + 1;
    }
    proof {
        lemma_stable_order_is(keys@, ord@);
    }
    ord
}

/// `ord` is the permutation a stable sort of `texts` in code-point order applies.
pub open spec fn is_stable_text_order(texts: Seq<Seq<char>>, ord: Seq<usize>) -> bool {
    &&& ord.len() == texts.len()
    &&& forall|i: int| 0 <= i < ord.len() ==> (#[trigger] ord[i]) < texts.len()
    &&& forall|i: int, j: int|
        #![trigger ord[i], ord[j]]
        0 <= i < j < ord.len() ==> ord[i] != ord[j]
    &&& forall|i: int, j: int|
        #![trigger ord[i], ord[j]]
        0 <= i < j < ord.len() ==> lex_le(texts[ord[i] as int], texts[ord[j] as int])
    &&& forall|i: int, j: int|
        #![trigger ord[i], ord[j]]
        0 <= i < j < ord.len() && lex_le(texts[ord[j] as int], texts[ord[i] as int]) ==> ord[i]
            < ord[j]
}

/// The texts at the positions listed in `ord`.
pub open spec fn pick(texts: Seq<Seq<char>>, ord: Seq<usize>) -> Seq<Seq<char>> {
    ord.map_values(|k: usize| texts[k as int])
}

/// `texts` sorted in code-point order (`v.sort()` on a vector of strings).
pub fn sort_strings(texts: &Vec<String>) -> (r: Vec<String>)
    ensures
        views(r@) == sorted_spec(views(texts@)),
{
    let ord = stable_text_order(texts);
    let mut r: Vec<String> = Vec::new();
    let mut p: usize = 0;
    while p < ord.len()
        invariant
            p <= ord.len(),
            is_stable_text_order(views(texts@), ord@),
            ord@ == text_order_of(views(texts@)),
            r@.len() == p,
            forall|q: int| 0 <= q < p ==> (#[trigger] r@[q])@ == texts@[ord@[q] as int]@,
        decreases ord.len() - p,
    {
        r.push(texts[ord[p]].clone());
        p = p + 1;
    }
    assert(views(r@) =~= pick(views(texts@), ord@));
    r
}

/// The permutation that sorting `texts` stably (`sort_by(|a, b| a.cmp(b))`) applies.
pub fn stable_text_order(texts: &Vec<String>) -> (ord: Vec<usize>)
    ensures
        is_stable_text_order(views(texts@), ord@),
        ord@ == text_order_of(views(texts@)),
{
    let mut keys: Vec<TextKey> = Vec::new();
    let mut i: usize = 0;
    while i < texts.len()
        invariant
            i <= texts.len(),
            keys.len() == i,
            forall|j: int| 0 <= j < i ==> (#[trigger] keys@[j]).chars@ == texts@[j]@,
        decreases texts.len() - i,
    {
        keys.push(TextKey { chars: chars_of(texts[i].as_str()) });
        i = i + 1;
    }
    let ord = stable_order(&keys);
    proof {
        let t = views(texts@);
        assert forall|j: int| 0 <= j < keys.len() implies (#[trigger] keys@[j]).chars@ == t[j] by {}
        assert(is_stable_text_order(t, ord@));
        lemma_text_order_is(t, ord@);
    }
    ord
}

// ---------------------------------------------------------------------------
// Uniqueness of the stable order
// ---------------------------------------------------------------------------

/// `ord` lists each index below `ord.len()` once, in a stable order of the
/// relation `le` on indices.
pub open spec fn is_stable_perm(le: spec_fn(int, int) -> bool, ord: Seq<usize>) -> bool {
    &&& forall|i: int| 0 <= i < ord.len() ==> (#[trigger] ord[i]) < ord.len()
    &&& forall|i: int, j: int|
        #![trigger ord[i], ord[j]]
        0 <= i < j < ord.len() ==> ord[i] != ord[j]
    &&& forall|i: int, j: int|
        #![trigger ord[i], ord[j]]
        0 <= i < j < ord.len() ==> le(ord[i] as int, ord[j] as int)
    &&& forall|i: int, j: int|
        #![trigger ord[i], ord[j]]
        0 <= i < j < ord.len() && le(ord[j] as int, ord[i] as int) ==> ord[i] < ord[j]
}

/// A list of `n` distinct indices below `n` lists every index below `n`.
pub proof fn lemma_perm_onto(ord: Seq<usize>, k: int)
    requires
        forall|i: int| 0 <= i < ord.len() ==> (#[trigger] ord[i]) < ord.len(),
        forall|i: int, j: int|
            #![trigger ord[i], ord[j]]
            0 <= i < j < ord.len() ==> ord[i] != ord[j],
        0 <= k < ord.len(),
    ensures
        exists|i: int| 0 <= i < ord.len() && ord[i] == k,
{
    let n = ord.len() as int;
    let s = ord.map_values(|x: usize| x as int);
    assert(s.no_duplicates()) by {
        assert forall|i: int, j: int| 0 <= i < s.len() && 0 <= j < s.len() && i != j implies s[i]
            != s[j] by {
            if i < j {
                assert(ord[i] != ord[j]);
            } else {
                assert(ord[j] != ord[i]);
            }
        }
    }
    s.unique_seq_to_set();
    vstd::set_lib::lemma_int_range(0, n);
    assert(s.to_set().subset_of(vstd::set_lib::set_int_range(0, n)));
    vstd::set_lib::lemma_subset_equality(s.to_set(), vstd::set_lib::set_int_range(0, n));
    assert(vstd::set_lib::set_int_range(0, n).contains(k));
    assert(s.to_set().contains(k));
    let i = choose|i: int| 0 <= i < s.len() && s[i] == k;
    assert(ord[i] == k);
}

/// Two stable orders of the same relation agree on their first `m` places.
proof fn lemma_stable_perm_prefix(
    le: spec_fn(int, int) -> bool,
    o1: Seq<usize>,
    o2: Seq<usize>,
    m: int,
)
    requires
        is_stable_perm(le, o1),
        is_stable_perm(le, o2),
        o1.len() == o2.len(),
        0 <= m <= o1.len(),
    ensures
        forall|i: int| 0 <= i < m ==> o1[i] == o2[i],
    decreases m,
{
    if m > 0 {
        lemma_stable_perm_prefix(le, o1, o2, m - 1);
        let i = m - 1;
        let a = o1[i];
        let b = o2[i];
        if a != b {
            lemma_perm_onto(o1, b as int);
            lemma_perm_onto(o2, a as int);
            let j = choose|j: int| 0 <= j < o1.len() && o1[j] == b;
            let k = choose|k: int| 0 <= k < o2.len() && o2[k] == a;
            if j < i {
                assert(o2[j] == b);
                assert(o2[j] != o2[i]);
            }
            if k < i {
                assert(o1[k] == a);
                assert(o1[k] != o1[i]);
            }
            assert(j > i);
            assert(k > i);
            assert(le(a as int, b as int));
            assert(le(b as int, a as int));
            assert(a < b);
            assert(b < a);
        }
    }
}

/// A stable order is unique.
pub proof fn lemma_stable_perm_unique(le: spec_fn(int, int) -> bool, o1: Seq<usize>, o2: Seq<usize>)
    requires
        is_stable_perm(le, o1),
        is_stable_perm(le, o2),
        o1.len() == o2.len(),
    ensures
        o1 == o2,
{
    lemma_stable_perm_prefix(le, o1, o2, o1.len() as int);
    assert(o1 =~= o2);
}

/// The stable order of `keys`.
pub open spec fn stable_order_of<K: SortKey>(keys: Seq<K>) -> Seq<usize> {
    choose|ord: Seq<usize>| is_stable_order(keys, ord)
}

/// A stable order of `keys` is the stable order of `keys`.
pub proof fn lemma_stable_order_is<K: SortKey>(keys: Seq<K>, ord: Seq<usize>)
    requires
        is_stable_order(keys, ord),
    ensures
        stable_order_of(keys) == ord,
{
    let o2 = stable_order_of(keys);
    let le = |i: int, j: int| keys[i].key_le(keys[j]);
    assert(is_stable_perm(le, ord));
    assert(is_stable_perm(le, o2));
    lemma_stable_perm_unique(le, ord, o2);
}

/// The stable code-point order of `texts`.
pub open spec fn text_order_of(texts: Seq<Seq<char>>) -> Seq<usize> {
    choose|ord: Seq<usize>| is_stable_text_order(texts, ord)
}

/// A stable code-point order of `texts` is the stable order of `texts`.
pub proof fn lemma_text_order_is(texts: Seq<Seq<char>>, ord: Seq<usize>)
    requires
        is_stable_text_order(texts, ord),
    ensures
        text_order_of(texts) == ord,
{
    let o2 = text_order_of(texts);
    let le = |i: int, j: int| lex_le(texts[i], texts[j]);
    assert(is_stable_perm(le, ord));
    assert(is_stable_perm(le, o2));
    lemma_stable_perm_unique(le, ord, o2);
}

/// `texts` sorted stably in code-point order.
pub open spec fn sorted_spec(texts: Seq<Seq<char>>) -> Seq<Seq<char>> {
    pick(texts, text_order_of(texts))
}

/// Every list of texts (of a length a vector can have) has a stable
/// code-point order.
pub proof fn lemma_text_order_exists(texts: Seq<Seq<char>>)
    requires
        texts.len() <= usize::MAX,
    ensures
        is_stable_text_order(texts, text_order_of(texts)),
{
    lemma_stable_order_exists(texts);
    let o = stable_order_of(texts);
    assert(is_stable_text_order(texts, o));
}

/// The items at the positions of a permutation are the same items.
pub proof fn lemma_pick_multiset<A>(t: Seq<A>, ord: Seq<usize>)
    requires
        ord.len() == t.len(),
        forall|i: int| 0 <= i < ord.len() ==> (#[trigger] ord[i]) < ord.len(),
        forall|i: int, j: int|
            #![trigger ord[i], ord[j]]
            0 <= i < j < ord.len() ==> ord[i] != ord[j],
    ensures
        ord.map_values(|k: usize| t[k as int]).to_multiset() == t.to_multiset(),
    decreases t.len(),
{
    broadcast use vstd::seq_lib::group_to_multiset_ensures;
    broadcast use vstd::multiset::group_multiset_axioms;

    let m = ord.map_values(|k: usize| t[k as int]);
    if t.len() == 0 {
        assert(m =~= t);
    } else {
        let n = t.len() - 1;
        lemma_perm_onto(ord, n);
        let p = choose|p: int| 0 <= p < ord.len() && ord[p] == n;
        let ord2 = ord.remove(p);
        let t2 = t.drop_last();
        assert forall|i: int| 0 <= i < ord2.len() implies (#[trigger] ord2[i]) < ord2.len() by {
            if i < p {
                assert(ord2[i] == ord[i]);
                assert(ord[i] != ord[p]);
            } else {
                assert(ord2[i] == ord[i + 1]);
                assert(ord[p] != ord[i + 1]);
            }
        }
        assert forall|i: int, j: int| 0 <= i < j < ord2.len() implies #[trigger] ord2[i] != #[trigger] ord2[j] by {
            let a = if i < p { i } else { i + 1 };
            let b = if j < p { j } else { j + 1 };
            assert(ord2[i] == ord[a]);
            assert(ord2[j] == ord[b]);
            assert(ord[a] != ord[b]);
        }
        lemma_pick_multiset(t2, ord2);
        let m2 = ord2.map_values(|k: usize| t2[k as int]);
        assert(m.remove(p) =~= m2);
        assert(t2.push(t[n]) =~= t);
        assert(m[p] == t[n]);
        assert(m.to_multiset().remove(t[n]) == t2.to_multiset());
        assert(m.to_multiset().count(t[n]) > 0) by {
            assert(m.contains(t[n]));
        }
        assert(m.to_multiset() =~= t.to_multiset());
    }
}

/// Sorting texts does not depend on their order: the same texts in any
/// order sort to the same list.
pub proof fn lemma_sorted_spec_ignores_order(t1: Seq<Seq<char>>, t2: Seq<Seq<char>>)
    requires
        t1.len() <= usize::MAX,
        t1.to_multiset() == t2.to_multiset(),
    ensures
        sorted_spec(t1) == sorted_spec(t2),
{
    broadcast use vstd::seq_lib::group_to_multiset_ensures;

    assert(t1.len() == t1.to_multiset().len());
    assert(t2.len() == t2.to_multiset().len());
    lemma_text_order_exists(t1);
    lemma_text_order_exists(t2);
    let o1 = text_order_of(t1);
    let o2 = text_order_of(t2);
    lemma_pick_multiset(t1, o1);
    lemma_pick_multiset(t2, o2);
    let leq = |a: Seq<char>, b: Seq<char>| lex_le(a, b);
    assert(vstd::relations::total_ordering(leq)) by {
        assert forall|a: Seq<char>| #[trigger] leq(a, a) by {
            lemma_lex_refl(a);
        }
        assert forall|a: Seq<char>, b: Seq<char>| #[trigger] leq(a, b) && #[trigger] leq(b, a) implies a == b by {
            lemma_lex_antisym(a, b);
        }
        assert forall|a: Seq<char>, b: Seq<char>, c: Seq<char>| #[trigger] leq(a, b) && #[trigger] leq(b, c) implies leq(a, c) by {
            lemma_lex_trans(a, b, c);
        }
        assert forall|a: Seq<char>, b: Seq<char>| #[trigger] leq(a, b) || #[trigger] leq(b, a) by {
            lemma_lex_total(a, b);
        }
    }
    let s1 = sorted_spec(t1);
    let s2 = sorted_spec(t2);
    assert(vstd::relations::sorted_by(s1, leq)) by {
        assert forall|i: int, j: int| 0 <= i < j < s1.len() implies #[trigger] leq(s1[i], s1[j]) by {
            assert(lex_le(t1[o1[i] as int], t1[o1[j] as int]));
        }
    }
    assert(vstd::relations::sorted_by(s2, leq)) by {
        assert forall|i: int, j: int| 0 <= i < j < s2.len() implies #[trigger] leq(s2[i], s2[j]) by {
            assert(lex_le(t2[o2[i] as int], t2[o2[j] as int]));
        }
    }
    assert(s1 == o1.map_values(|k: usize| t1[k as int]));
    assert(s2 == o2.map_values(|k: usize| t2[k as int]));
    vstd::seq_lib::lemma_sorted_unique(s1, s2, leq);
}

// ---------------------------------------------------------------------------
// Keys
// ---------------------------------------------------------------------------

impl SortKey for u128 {
    open spec fn key_le(self, other: Self) -> bool {
        self <= other
    }

    proof fn lemma_key_total(a: Self, b: Self) {
    }

    proof fn lemma_key_trans(a: Self, b: Self, c: Self) {
    }
}

impl ExecSortKey for u128 {
    fn key_le_exec(&self, other: &Self) -> (r: bool) {
        *self <= *other
    }
}

/// Lexicographic order on characters by code point, which is the order of
/// `str`'s `Ord` (UTF-8 byte order and code point order coincide).
pub open spec fn lex_le(a: Seq<char>, b: Seq<char>) -> bool
    decreases a.len(),
{
    if a.len() == 0 {
        true
    } else if b.len() == 0 {
        false
    } else if (a[0] as u32) < (b[0] as u32) {
        true
    } else if (a[0] as u32) == (b[0] as u32) {
        lex_le(a.drop_first(), b.drop_first())
    } else {
        false
    }
}

pub proof fn lemma_lex_total(a: Seq<char>, b: Seq<char>)
    ensures
        lex_le(a, b) || lex_le(b, a),
    decreases a.len(),
{
    if a.len() > 0 && b.len() > 0 && (a[0] as u32) == (b[0] as u32) {
        lemma_lex_total(a.drop_first(), b.drop_first());
    }
}

pub proof fn lemma_lex_trans(a: Seq<char>, b: Seq<char>, c: Seq<char>)
    requires
        lex_le(a, b),
        lex_le(b, c),
    ensures
        lex_le(a, c),
    decreases a.len(),
{
    if a.len() > 0 && b.len() > 0 && c.len() > 0 && (a[0] as u32) == (b[0] as u32) && (b[0] as u32) == (c[0] as u32) {
        lemma_lex_trans(a.drop_first(), b.drop_first(), c.drop_first());
    }
}

pub proof fn lemma_lex_refl(a: Seq<char>)
    ensures
        lex_le(a, a),
    decreases a.len(),
{
    if a.len() > 0 {
        lemma_lex_refl(a.drop_first());
    }
}

pub proof fn lemma_lex_antisym(a: Seq<char>, b: Seq<char>)
    requires
        lex_le(a, b),
        lex_le(b, a),
    ensures
        a == b,
    decreases a.len(),
{
    if a.len() > 0 && b.len() > 0 {
        vstd::utf8::char_u32_cast(a[0], a[0] as u32);
        vstd::utf8::char_u32_cast(b[0], b[0] as u32);
        assert(a[0] == b[0]);
        lemma_lex_antisym(a.drop_first(), b.drop_first());
        assert(a =~= seq![a[0]] + a.drop_first());
        assert(b =~= seq![b[0]] + b.drop_first());
    } else {
        assert(a =~= b);
    }
}

pub fn lex_le_exec(a: &Vec<char>, b: &Vec<char>) -> (r: bool)
    ensures
        r == lex_le(a@, b@),
{
    let mut i: usize = 0;
    assert(a@.skip(0) =~= a@);
    assert(b@.skip(0) =~= b@);
    while i < a.len() && i < b.len() && (a[i] as u32) == (b[i] as u32)
        invariant
            i <= a.len(),
            i <= b.len(),
            lex_le(a@, b@) == lex_le(a@.skip(i as int), b@.skip(i as int)),
        decreases a.len() - i,
    {
        proof {
            assert(a@.skip(i as int).drop_first() =~= a@.skip(i as int + 1));
            assert(b@.skip(i as int).drop_first() =~= b@.skip(i as int + 1));
        }
        i = i + 1;
    }
    if i == a.len() {
        true
    } else if i == b.len() {
        false
    } else {
        (a[i] as u32) < (b[i] as u32)
    }
}

/// A text ordered by code points, as a key of specifications.
impl SortKey for Seq<char> {
    open spec fn key_le(self, other: Self) -> bool {
        lex_le(self, other)
    }

    proof fn lemma_key_total(a: Self, b: Self) {
        lemma_lex_total(a, b);
    }

    proof fn lemma_key_trans(a: Self, b: Self, c: Self) {
        lemma_lex_trans(a, b, c);
    }
}

/// A rank followed by a text, as a key of specifications: by rank, then
/// by text.
impl SortKey for (int, Seq<char>) {
    open spec fn key_le(self, other: Self) -> bool {
        self.0 < other.0 || (self.0 == other.0 && lex_le(self.1, other.1))
    }

    proof fn lemma_key_total(a: Self, b: Self) {
        lemma_lex_total(a.1, b.1);
    }

    proof fn lemma_key_trans(a: Self, b: Self, c: Self) {
        if a.0 == b.0 && b.0 == c.0 {
            lemma_lex_trans(a.1, b.1, c.1);
        }
    }
}

/// A text used as a sort key (a string's characters).
pub struct TextKey {
    pub chars: Vec<char>,
}

impl SortKey for TextKey {
    open spec fn key_le(self, other: Self) -> bool {
        lex_le(self.chars@, other.chars@)
    }

    proof fn lemma_key_total(a: Self, b: Self) {
        lemma_lex_total(a.chars@, b.chars@);
    }

    proof fn lemma_key_trans(a: Self, b: Self, c: Self) {
        lemma_lex_trans(a.chars@, b.chars@, c.chars@);
    }
}

impl ExecSortKey for TextKey {
    fn key_le_exec(&self, other: &Self) -> (r: bool) {
        lex_le_exec(&self.chars, &other.chars)
    }
}

/// A rank followed by a text: ordered by rank, then by text.
pub struct RankedTextKey {
    pub rank: usize,
    pub chars: Vec<char>,
}

impl SortKey for RankedTextKey {
    open spec fn key_le(self, other: Self) -> bool {
        self.rank < other.rank || (self.rank == other.rank && lex_le(self.chars@, other.chars@))
    }

    proof fn lemma_key_total(a: Self, b: Self) {
        lemma_lex_total(a.chars@, b.chars@);
    }

    proof fn lemma_key_trans(a: Self, b: Self, c: Self) {
        if a.rank == b.rank && b.rank == c.rank {
            lemma_lex_trans(a.chars@, b.chars@, c.chars@);
        }
    }
}

impl ExecSortKey for RankedTextKey {
    fn key_le_exec(&self, other: &Self) -> (r: bool) {
        self.rank < other.rank || (self.rank == other.rank && lex_le_exec(&self.chars, &other.chars))
    }
}

} // verus!
