//! Guard for short free-text slots written by the language model.
//!
//! A slot is cleaned by removing causal filler phrases ("由于", "因此",
//! "于是", "从而", "因为"), trimming surrounding whitespace and clamping the
//! length to a maximum number of characters.
use vstd::prelude::*;
use crate::text::{chars_of, is_ws_spec, take_chars, trim, trim_chars, trim_end, trim_start, truncate_vec};

verus! {

/// Upper bound, in characters, of a memory text.
pub const MAX_MEMORY_CHARS: usize = 30;

/// Upper bound, in characters, of a plot reason.
pub const MAX_PLOT_REASON_CHARS: usize = 20;

/// `a` followed by `b` spells one of the banned filler phrases
/// 由于, 因此, 于是, 从而, 因为.
pub open spec fn is_filler(a: char, b: char) -> bool {
    ||| a == '由' && b == '于'
    ||| a == '因' && b == '此'
    ||| a == '于' && b == '是'
    ||| a == '从' && b == '而'
    ||| a == '因' && b == '为'
}

/// No filler phrase occurs anywhere in `s`.
pub open spec fn filler_free(s: Seq<char>) -> bool {
    forall|i: int| 0 <= i < s.len() - 1 ==> !is_filler(#[trigger] s[i], s[i + 1])
}

/// Removes filler phrases: characters are appended one by one, and whenever
/// the text then ends with a filler phrase, that phrase is dropped.  Phrases
/// that only appear once an inner phrase has been dropped go as well.
pub open spec fn scrub(s: Seq<char>) -> Seq<char>
    decreases s.len(),
{
    if s.len() == 0 {
        s
    } else {
        let o = scrub(s.drop_last()).push(s.last());
        if o.len() >= 2 && is_filler(o[o.len() - 2], o[o.len() - 1]) {
            o.take(o.len() - 2)
        } else {
            o
        }
    }
}

/// The cleaned slot text: fillers removed, trimmed, at most `max` characters.
pub open spec fn sanitize_spec(s: Seq<char>, max: int) -> Seq<char> {
    take_chars(trim(scrub(s)), max)
}

fn is_filler_exec(a: char, b: char) -> (r: bool)
    ensures
        r == is_filler(a, b),
{
    (a == '由' && b == '于') || (a == '因' && b == '此') || (a == '于' && b == '是') || (a == '从'
        && b == '而') || (a == '因' && b == '为')
}

/// Cleans a free-text slot: fillers removed, trimmed, clamped to `max_chars`.
pub fn sanitize_free_text(text: &str, max_chars: usize) -> (r: String)
    ensures
        r@ == sanitize_spec(text@, max_chars as int),
        r@.len() <= max_chars,
        filler_free(r@),
{
    let v = chars_of(text);
    let mut out: Vec<char> = Vec::new();
    let mut i: usize = 0;
    while i < v.len()
        invariant
            i <= v.len(),
            v@ == text@,
            out@ == scrub(v@.take(i as int)),
        decreases v.len() - i,
    {
        proof {
            assert(v@.take(i as int + 1).drop_last() =~= v@.take(i as int));
        }
        out.push(v[i]);
        let n = out.len();
        if n >= 2 && is_filler_exec(out[n - 2], out[n - 1]) {
            out.pop();
            out.pop();
            proof {
                let o = scrub(v@.take(i as int)).push(v@[i as int]);
                assert(out@ =~= o.take(o.len() - 2));
            }
        }
        i = i + 1;
    }
    assert(v@.take(v@.len() as int) =~= v@);
    let t = trim_chars(&out);
    let r = truncate_vec(&t, max_chars);
    proof {
        lemma_scrub_filler_free(text@);
        lemma_trim_filler_free(scrub(text@));
        lemma_take_filler_free(trim(scrub(text@)), max_chars as int);
    }
    r
}

/// A cleaned text never contains a filler phrase.
pub proof fn lemma_scrub_filler_free(s: Seq<char>)
    ensures
        filler_free(scrub(s)),
    decreases s.len(),
{
    if s.len() > 0 {
        lemma_scrub_filler_free(s.drop_last());
        let p = scrub(s.drop_last());
        let o = p.push(s.last());
        if o.len() >= 2 && is_filler(o[o.len() - 2], o[o.len() - 1]) {
            let t = o.take(o.len() - 2);
            assert forall|i: int| 0 <= i < t.len() - 1 implies !is_filler(#[trigger] t[i], t[i + 1]) by {
                assert(t[i] == p[i] && t[i + 1] == p[i + 1]);
            }
        } else {
            assert forall|i: int| 0 <= i < o.len() - 1 implies !is_filler(#[trigger] o[i], o[i + 1]) by {
                if i < o.len() - 2 {
                    assert(o[i] == p[i] && o[i + 1] == p[i + 1]);
                }
            }
        }
    }
}

proof fn lemma_trim_start_filler_free(s: Seq<char>)
    requires
        filler_free(s),
    ensures
        filler_free(trim_start(s)),
    decreases s.len(),
{
    if s.len() > 0 && is_ws_spec(s[0]) {
        let t = s.drop_first();
        assert forall|i: int| 0 <= i < t.len() - 1 implies !is_filler(#[trigger] t[i], t[i + 1]) by {
            assert(t[i] == s[i + 1] && t[i + 1] == s[i + 2]);
        }
        lemma_trim_start_filler_free(t);
    }
}

proof fn lemma_trim_end_filler_free(s: Seq<char>)
    requires
        filler_free(s),
    ensures
        filler_free(trim_end(s)),
    decreases s.len(),
{
    if s.len() > 0 && is_ws_spec(s.last()) {
        let t = s.drop_last();
        assert forall|i: int| 0 <= i < t.len() - 1 implies !is_filler(#[trigger] t[i], t[i + 1]) by {
            assert(t[i] == s[i] && t[i + 1] == s[i + 1]);
        }
        lemma_trim_end_filler_free(t);
    }
}

proof fn lemma_trim_filler_free(s: Seq<char>)
    requires
        filler_free(s),
    ensures
        filler_free(trim(s)),
{
    lemma_trim_start_filler_free(s);
    lemma_trim_end_filler_free(trim_start(s));
}

proof fn lemma_take_filler_free(s: Seq<char>, n: int)
    requires
        filler_free(s),
        n >= 0,
    ensures
        filler_free(take_chars(s, n)),
        take_chars(s, n).len() <= n,
{
    let t = take_chars(s, n);
    assert forall|i: int| 0 <= i < t.len() - 1 implies !is_filler(#[trigger] t[i], t[i + 1]) by {
        assert(t[i] == s[i] && t[i + 1] == s[i + 1]);
    }
}

/// The cleaned text fits its bound and holds no filler phrase.
pub proof fn lemma_sanitize_bounds(s: Seq<char>, max: int)
    requires
        max >= 0,
    ensures
        sanitize_spec(s, max).len() <= max,
        filler_free(sanitize_spec(s, max)),
{
    lemma_scrub_filler_free(s);
    lemma_trim_filler_free(scrub(s));
    lemma_take_filler_free(trim(scrub(s)), max);
}

/// Text that holds no filler phrase and no surrounding whitespace, and fits
/// the bound, comes out of the guard unchanged.
pub proof fn lemma_sanitize_keeps_clean_text(s: Seq<char>, max: int)
    requires
        filler_free(s),
        s.len() <= max,
        trim(s) == s,
    ensures
        sanitize_spec(s, max) == s,
{
    lemma_scrub_identity(s);
}

/// On filler-free text the scrub step changes nothing.
pub proof fn lemma_scrub_identity(s: Seq<char>)
    requires
        filler_free(s),
    ensures
        scrub(s) == s,
    decreases s.len(),
{
    if s.len() > 0 {
        let p = s.drop_last();
        assert forall|i: int| 0 <= i < p.len() - 1 implies !is_filler(#[trigger] p[i], p[i + 1]) by {
            assert(p[i] == s[i] && p[i + 1] == s[i + 1]);
        }
        lemma_scrub_identity(p);
        assert(p.push(s.last()) =~= s);
        if s.len() >= 2 {
            assert(!is_filler(s[s.len() - 2], s[s.len() - 1]));
        }
    }
}

} // verus!
