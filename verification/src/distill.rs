//! Corpus distillation: cutting chapters into chunks for the tagging model,
//! keeping only the fragments it returns that are verbatim excerpts of the
//! chapter, and writing the kept fragments as vocabulary YAML.
use vstd::prelude::*;
use crate::models::sensation::{sense_name, sense_names};
use crate::text::{
    chars_of, decimal, decimal_string, has_sub, is_ws, is_ws_spec, join, join_strings, owned,
    push_range, push_str, str_contains, take_chars, text_eq, views,
};

verus! {

/// Characters of chapter text handed to the model at a time.
pub const CHUNK_CHARS: usize = 2500;

/// Shortest kept excerpt, in characters.
pub const MIN_EXCERPT: usize = 6;

/// Longest kept excerpt, in characters.
pub const MAX_EXCERPT: usize = 120;

/// Tags of a fragment copied into the YAML, after the book's name.
pub const MAX_TAGS: usize = 4;

/// A fragment the model returned: its category, the excerpt and its tags.
#[derive(Debug, Clone)]
pub struct Fragment {
    pub category: String,
    pub excerpt: String,
    pub tags: Vec<String>,
}

// ---------------------------------------------------------------------------
// Prompt
// ---------------------------------------------------------------------------

/// The instructions preceding a chunk.
pub const DISTILL_INSTRUCTIONS: &'static str = "你是文学描写片段标注器。从下面的小说原文中找出值得复用的细粒度描写片段。\n类别定义:\n- visual/auditory/olfactory/tactile/gustatory: 五感描写\n- emotion: 情绪与心理描写(如内心波动、隐忍、悲喜)\n- gesture: 动作与神态描写(如举手投足、表情变化)\n- atmosphere: 氛围与环境描写(如光影、季节、庭院陈设)\n\n铁律:excerpt 必须逐字摘录原文连续片段,一个字都不许改、不许增删标点。\n每个片段 6-120 字,选最有神韵的完整短句或从句。每块原文抽 8-20 个片段。\ntags 给 2-4 个:出场人物名、情绪基调、场合。\n\n=== 原文 ===\n";

/// The request following a chunk.
pub const DISTILL_CLOSING: &'static str = "\n\n请调用 submit 提交结构化结果。";

/// The tagging prompt for one chunk.
pub fn build_prompt(chunk: &str) -> (s: String)
    ensures
        s@ == DISTILL_INSTRUCTIONS@ + chunk@ + DISTILL_CLOSING@,
{
    let mut s = owned(DISTILL_INSTRUCTIONS);
    push_str(&mut s, chunk);
    push_str(&mut s, DISTILL_CLOSING);
    s
}

// ---------------------------------------------------------------------------
// Normalisation and escaping
// ---------------------------------------------------------------------------

/// The text without its whitespace.
pub open spec fn strip_ws(s: Seq<char>) -> Seq<char>
    decreases s.len(),
{
    if s.len() == 0 {
        s
    } else if is_ws_spec(s.last()) {
        strip_ws(s.drop_last())
    } else {
        strip_ws(s.drop_last()).push(s.last())
    }
}

/// Removes all whitespace, so that layout does not affect the verbatim
/// comparison.
pub fn normalize(s: &str) -> (r: String)
    ensures
        r@ == strip_ws(s@),
{
    let v = chars_of(s);
    let mut r = String::new();
    let mut i: usize = 0;
    while i < v.len()
        invariant
            i <= v.len(),
            v@ == s@,
            r@ == strip_ws(v@.take(i as int)),
        decreases v.len() - i,
    {
        assert(v@.take(i as int + 1).drop_last() =~= v@.take(i as int));
        if !is_ws(v[i]) {
            r.push(v[i]);
        }
        i = i + 1;
    }
    assert(v@.take(v@.len() as int) =~= v@);
    r
}

/// The escape of one character inside a double-quoted YAML string.
pub open spec fn escape_char(c: char) -> Seq<char> {
    if c == '\\' {
        seq!['\\', '\\']
    } else if c == '"' {
        seq!['\\', '"']
    } else {
        seq![c]
    }
}

/// The text escaped for a double-quoted YAML string: each backslash and
/// each double quote gets a backslash before it.
pub open spec fn yaml_escape_spec(s: Seq<char>) -> Seq<char>
    decreases s.len(),
{
    if s.len() == 0 {
        s
    } else {
        yaml_escape_spec(s.drop_last()) + escape_char(s.last())
    }
}

/// Escapes a text for a double-quoted YAML string.
pub fn yaml_escape(s: &str) -> (r: String)
    ensures
        r@ == yaml_escape_spec(s@),
{
    let v = chars_of(s);
    let mut r = String::new();
    let mut i: usize = 0;
    while i < v.len()
        invariant
            i <= v.len(),
            v@ == s@,
            r@ == yaml_escape_spec(v@.take(i as int)),
        decreases v.len() - i,
    {
        assert(v@.take(i as int + 1).drop_last() =~= v@.take(i as int));
        let c = v[i];
        if c == '\\' {
            r.push('\\');
            r.push('\\');
        } else if c == '"' {
            r.push('\\');
            r.push('"');
        } else {
            r.push(c);
        }
        assert(r@ =~= yaml_escape_spec(v@.take(i as int + 1)));
        i = i + 1;
    }
    assert(v@.take(v@.len() as int) =~= v@);
    r
}

// ---------------------------------------------------------------------------
// Chunks
// ---------------------------------------------------------------------------

/// The first position at or after `j` holding a newline, or the end.
pub open spec fn next_newline(cs: Seq<char>, j: int) -> int
    decreases cs.len() - j,
{
    if j >= cs.len() {
        cs.len() as int
    } else if cs[j] == '\n' {
        j
    } else {
        next_newline(cs, j + 1)
    }
}

/// Where the chunk starting at `i` ends: the first newline at or after
/// `i + CHUNK_CHARS`, or the end of the text.
pub open spec fn chunk_end(cs: Seq<char>, i: int) -> int {
    next_newline(cs, if i + CHUNK_CHARS < cs.len() { i + CHUNK_CHARS } else { cs.len() as int })
}

/// The chunks of the text from position `i` on.
pub open spec fn chunks_from(cs: Seq<char>, i: int) -> Seq<Seq<char>>
    decreases cs.len() - i,
{
    if i < 0 || i >= cs.len() {
        Seq::empty()
    } else {
        proof {
            lemma_next_newline_bounds(cs, if i + CHUNK_CHARS < cs.len() { i + CHUNK_CHARS } else { cs.len() as int });
        }
        seq![cs.subrange(i, chunk_end(cs, i))] + chunks_from(cs, chunk_end(cs, i))
    }
}

pub proof fn lemma_next_newline_bounds(cs: Seq<char>, j: int)
    requires
        j <= cs.len(),
    ensures
        j <= next_newline(cs, j) <= cs.len(),
    decreases cs.len() - j,
{
    if j < cs.len() && cs[j] != '\n' {
        lemma_next_newline_bounds(cs, j + 1);
    }
}

/// The concatenation of a sequence of texts.
pub open spec fn concat(parts: Seq<Seq<char>>) -> Seq<char>
    decreases parts.len(),
{
    if parts.len() == 0 {
        Seq::empty()
    } else {
        parts[0] + concat(parts.drop_first())
    }
}

/// Cuts a chapter into chunks of about `CHUNK_CHARS` characters, each
/// extended to just before the next newline so that no line is split.
pub fn split_chunks(text: &str) -> (r: Vec<String>)
    ensures
        views(r@) == chunks_from(text@, 0),
{
    let cs = chars_of(text);
    let n = cs.len();
    let mut r: Vec<String> = Vec::new();
    let mut i: usize = 0;
    while i < n
        invariant
            i <= n,
            n == cs@.len(),
            cs@ == text@,
            chunks_from(cs@, 0) == views(r@) + chunks_from(cs@, i as int),
        decreases n - i,
    {
        let start = if n - i > CHUNK_CHARS {
            i + CHUNK_CHARS
        } else {
            n
        };
        let mut j = start;
        proof {
            lemma_next_newline_bounds(cs@, start as int);
        }
        while j < n && cs[j] != '\n'
            invariant
                start <= j <= n,
                n == cs@.len(),
                next_newline(cs@, start as int) == next_newline(cs@, j as int),
            decreases n - j,
        {
            j = j + 1;
        }
        let mut chunk = String::new();
        push_range(&mut chunk, &cs, i, j);
        let ghost before = views(r@);
        r.push(chunk);
        proof {
            assert(j == chunk_end(cs@, i as int));
            assert(views(r@) =~= before.push(cs@.subrange(i as int, j as int)));
            assert(chunks_from(cs@, i as int) == seq![cs@.subrange(i as int, j as int)]
                + chunks_from(cs@, j as int));
            assert(before + chunks_from(cs@, i as int) =~= views(r@) + chunks_from(cs@, j as int));
        }
        i = j;
    }
    assert(views(r@) + chunks_from(cs@, n as int) =~= views(r@));
    r
}

/// Chunking loses nothing: the chunks, put back together, are the text
/// from position `i` on.
pub proof fn lemma_chunks_cover(cs: Seq<char>, i: int)
    requires
        0 <= i <= cs.len(),
    ensures
        concat(chunks_from(cs, i)) == cs.subrange(i, cs.len() as int),
    decreases cs.len() - i,
{
    if i < cs.len() {
        let s = if i + CHUNK_CHARS < cs.len() { i + CHUNK_CHARS } else { cs.len() as int };
        lemma_next_newline_bounds(cs, s);
        let e = chunk_end(cs, i);
        lemma_chunks_cover(cs, e);
        let parts = chunks_from(cs, i);
        assert(parts.drop_first() =~= chunks_from(cs, e));
        assert(cs.subrange(i, e) + cs.subrange(e, cs.len() as int) =~= cs.subrange(
            i,
            cs.len() as int,
        ));
    } else {
        assert(cs.subrange(i, cs.len() as int) =~= Seq::<char>::empty());
    }
}

/// A position found by `next_newline` before the end holds a newline.
pub proof fn lemma_next_newline_is_newline(cs: Seq<char>, j: int)
    requires
        0 <= j <= cs.len(),
        next_newline(cs, j) < cs.len(),
    ensures
        cs[next_newline(cs, j)] == '\n',
    decreases cs.len() - j,
{
    if j < cs.len() && cs[j] != '\n' {
        lemma_next_newline_is_newline(cs, j + 1);
    }
}

/// No chunk is empty, and every chunk after the first starts with the
/// newline that ended the one before: chunks never split a line.
pub proof fn lemma_chunks_end_at_lines(cs: Seq<char>, i: int, k: int)
    requires
        0 <= i <= cs.len(),
        0 <= k < chunks_from(cs, i).len(),
    ensures
        chunks_from(cs, i)[k].len() > 0,
        k > 0 ==> chunks_from(cs, i)[k][0] == '\n',
    decreases cs.len() - i,
{
    let s = if i + CHUNK_CHARS < cs.len() { i + CHUNK_CHARS } else { cs.len() as int };
    lemma_next_newline_bounds(cs, s);
    let e = chunk_end(cs, i);
    assert(chunks_from(cs, i) == seq![cs.subrange(i, e)] + chunks_from(cs, e));
    if k > 0 {
        assert(chunks_from(cs, i)[k] == chunks_from(cs, e)[k - 1]);
        assert(e < cs.len());
        lemma_chunks_end_at_lines(cs, e, k - 1);
        if k == 1 {
            lemma_next_newline_is_newline(cs, s);
            let s2 = if e + CHUNK_CHARS < cs.len() { e + CHUNK_CHARS } else { cs.len() as int };
            lemma_next_newline_bounds(cs, s2);
            assert(chunks_from(cs, e)[0] == cs.subrange(e, chunk_end(cs, e)));
            assert(chunks_from(cs, e)[0][0] == cs[e]);
        }
    }
}

// ---------------------------------------------------------------------------
// Keeping fragments
// ---------------------------------------------------------------------------

/// `n` in decimal, left-padded with zeros to `w` digits.
pub open spec fn padded(n: nat, w: nat) -> Seq<char> {
    let d = decimal(n);
    if d.len() >= w {
        d
    } else {
        Seq::new((w - d.len()) as nat, |i: int| '0') + d
    }
}

/// `n` in decimal, left-padded with zeros to `w` digits.
pub fn padded_decimal(n: usize, w: usize) -> (s: String)
    ensures
        s@ == padded(n as nat, w as nat),
{
    let d = decimal_string(n);
    let len = d.as_str().unicode_len();
    if len >= w {
        return d;
    }
    let mut s = String::new();
    let mut k: usize = 0;
    while k < w - len
        invariant
            k <= w - len,
            len < w,
            s@ == Seq::new(k as nat, |i: int| '0'),
        decreases w - len - k,
    {
        s.push('0');
        k = k + 1;
        assert(s@ =~= Seq::new(k as nat, |i: int| '0'));
    }
    push_str(&mut s, d.as_str());
    s
}

/// The vocabulary key of the `seq`-th kept fragment of chapter `chap`:
/// `<book>-c<chap, three digits>-<seq, two digits>`.
pub open spec fn fragment_key(book: Seq<char>, chap: nat, seq: nat) -> Seq<char> {
    book + "-c"@ + padded(chap, 3) + "-"@ + padded(seq, 2)
}

/// Why a fragment was kept or dropped.
#[derive(Debug, Clone, Copy, PartialEq, Eq, Structural)]
pub enum Verdict {
    Kept,
    BadCategory,
    BadLength,
    NotVerbatim,
    Duplicate,
}

/// The verdict on a fragment: its category must be one of the eight, its
/// excerpt must have between six and 120 characters, the excerpt without
/// whitespace must occur in the chapter without whitespace, and it must not
/// have been kept before.
pub open spec fn verdict_spec(f: Fragment, source_norm: Seq<char>, seen: Seq<Seq<char>>) -> Verdict {
    if !sense_names().contains(f.category@) {
        Verdict::BadCategory
    } else if !(MIN_EXCERPT <= f.excerpt@.len() <= MAX_EXCERPT) {
        Verdict::BadLength
    } else if !has_sub(source_norm, strip_ws(f.excerpt@)) {
        Verdict::NotVerbatim
    } else if seen.contains(strip_ws(f.excerpt@)) {
        Verdict::Duplicate
    } else {
        Verdict::Kept
    }
}

/// Counts of kept and dropped fragments.
#[derive(Debug, Clone, Copy, PartialEq, Eq, Structural)]
pub struct DistillStats {
    pub kept: usize,
    pub dropped_not_verbatim: usize,
    pub dropped_bad_category: usize,
    pub dropped_length: usize,
    pub dropped_dup: usize,
}

impl DistillStats {
    /// All counts zero.
    pub fn new() -> (s: Self)
        ensures
            s.kept == 0,
            s.dropped_not_verbatim == 0,
            s.dropped_bad_category == 0,
            s.dropped_length == 0,
            s.dropped_dup == 0,
    {
        DistillStats {
            kept: 0,
            dropped_not_verbatim: 0,
            dropped_bad_category: 0,
            dropped_length: 0,
            dropped_dup: 0,
        }
    }

    /// No count can overflow on the next fragment.
    pub open spec fn has_room(self) -> bool {
        &&& self.kept < usize::MAX
        &&& self.dropped_not_verbatim < usize::MAX
        &&& self.dropped_bad_category < usize::MAX
        &&& self.dropped_length < usize::MAX
        &&& self.dropped_dup < usize::MAX
    }

    /// These counts after one more fragment with verdict `v`.
    pub open spec fn counted(self, v: Verdict) -> Self {
        match v {
            Verdict::Kept => DistillStats { kept: (self.kept + 1) as usize, ..self },
            Verdict::BadCategory => DistillStats {
                dropped_bad_category: (self.dropped_bad_category + 1) as usize,
                ..self
            },
            Verdict::BadLength => DistillStats {
                dropped_length: (self.dropped_length + 1) as usize,
                ..self
            },
            Verdict::NotVerbatim => DistillStats {
                dropped_not_verbatim: (self.dropped_not_verbatim + 1) as usize,
                ..self
            },
            Verdict::Duplicate => DistillStats {
                dropped_dup: (self.dropped_dup + 1) as usize,
                ..self
            },
        }
    }
}

/// The fragments kept so far for one chapter.
pub struct ChapterDistill {
    /// The book's name (the key prefix and first tag).
    pub book: String,
    /// The chapter number.
    pub chap: usize,
    /// The chapter text without whitespace.
    pub source_norm: String,
    /// Normalised excerpts kept so far (each once).
    pub seen: Vec<String>,
    /// Kept fragments with their keys, in order.
    pub kept: Vec<(String, Fragment)>,
}

impl ChapterDistill {
    /// What distillation keeps true of a chapter: the normalised excerpts
    /// seen are those of the kept fragments, in order, each once; every kept
    /// fragment has one of the eight categories, an allowed length, and an
    /// excerpt that (without whitespace) occurs in the chapter (without
    /// whitespace); and the `i`-th kept fragment has the `i`-th key.
    pub open spec fn verbatim(&self) -> bool {
        &&& self.seen@.len() == self.kept@.len()
        &&& views(self.seen@).no_duplicates()
        &&& forall|i: int|
            0 <= i < self.kept@.len() ==> {
                let f = (#[trigger] self.kept@[i]).1;
                &&& self.seen@[i]@ == strip_ws(f.excerpt@)
                &&& has_sub(self.source_norm@, strip_ws(f.excerpt@))
                &&& sense_names().contains(f.category@)
                &&& MIN_EXCERPT <= f.excerpt@.len() <= MAX_EXCERPT
                &&& self.kept@[i].0@ == fragment_key(self.book@, self.chap as nat, (i + 1) as nat)
            }
    }

    /// Starts a chapter: nothing kept yet.
    pub fn new(book: &str, chap: usize, chapter_text: &str) -> (d: Self)
        ensures
            d.book@ == book@,
            d.chap == chap,
            d.source_norm@ == strip_ws(chapter_text@),
            d.seen@.len() == 0,
            d.kept@.len() == 0,
            d.verbatim(),
    {
        ChapterDistill {
            book: owned(book),
            chap,
            source_norm: normalize(chapter_text),
            seen: Vec::new(),
            kept: Vec::new(),
        }
    }

    /// Judges one fragment, keeps it under the next key when it passes,
    /// and counts the verdict in `stats`.
    pub fn consider(&mut self, f: Fragment, stats: &mut DistillStats) -> (v: Verdict)
        requires
            old(stats).has_room(),
            old(self).kept@.len() < usize::MAX,
        ensures
            v == verdict_spec(f, old(self).source_norm@, views(old(self).seen@)),
            *final(stats) == old(stats).counted(v),
            final(self).book == old(self).book,
            final(self).chap == old(self).chap,
            final(self).source_norm == old(self).source_norm,
            v != Verdict::Kept ==> final(self).seen == old(self).seen && final(self).kept
                == old(self).kept,
            v == Verdict::Kept ==> views(final(self).seen@) == views(old(self).seen@).push(
                strip_ws(f.excerpt@),
            ),
            v == Verdict::Kept ==> final(self).kept@.len() == old(self).kept@.len() + 1,
            v == Verdict::Kept ==> final(self).kept@.drop_last() == old(self).kept@,
            v == Verdict::Kept ==> final(self).kept@.last().0@ == fragment_key(
                old(self).book@,
                old(self).chap as nat,
                final(self).kept@.len(),
            ),
            v == Verdict::Kept ==> final(self).kept@.last().1 == f,
            old(self).verbatim() ==> final(self).verbatim(),
    {
        let mut is_category = false;
        let mut i: usize = 0;
        while i < 8
            invariant
                i <= 8,
                is_category == (exists|j: int| 0 <= j < i && sense_names()[j] == f.category@),
            decreases 8 - i,
        {
            if text_eq(sense_name(i), f.category.as_str()) {
                is_category = true;
            }
            i = i + 1;
        }
        assert(is_category == sense_names().contains(f.category@));
        if !is_category {
            stats.dropped_bad_category = stats.dropped_bad_category + 1;
            return Verdict::BadCategory;
        }
        let n = f.excerpt.as_str().unicode_len();
        if !(MIN_EXCERPT <= n && n <= MAX_EXCERPT) {
            stats.dropped_length = stats.dropped_length + 1;
            return Verdict::BadLength;
        }
        let norm = normalize(f.excerpt.as_str());
        if !str_contains(self.source_norm.as_str(), norm.as_str()) {
            stats.dropped_not_verbatim = stats.dropped_not_verbatim + 1;
            return Verdict::NotVerbatim;
        }
        if crate::text::contains_string(&self.seen, norm.as_str()) {
            stats.dropped_dup = stats.dropped_dup + 1;
            return Verdict::Duplicate;
        }
        let ghost old_seen = views(self.seen@);
        self.seen.push(norm);
        assert(views(self.seen@) =~= old_seen.push(strip_ws(f.excerpt@)));
        let seq = self.kept.len() + 1;
        let mut key = owned(self.book.as_str());
        push_str(&mut key, "-c");
        let c = padded_decimal(self.chap, 3);
        push_str(&mut key, c.as_str());
        push_str(&mut key, "-");
        let s = padded_decimal(seq, 2);
        push_str(&mut key, s.as_str());
        let ghost old_kept = self.kept@;
        self.kept.push((key, f));
        stats.kept = stats.kept + 1;
        proof {
            if old(self).verbatim() {
                assert(self.seen@.len() == self.kept@.len());
                assert forall|i: int| 0 <= i < self.kept@.len() implies {
                    let g = (#[trigger] self.kept@[i]).1;
                    &&& self.seen@[i]@ == strip_ws(g.excerpt@)
                    &&& has_sub(self.source_norm@, strip_ws(g.excerpt@))
                    &&& sense_names().contains(g.category@)
                    &&& MIN_EXCERPT <= g.excerpt@.len() <= MAX_EXCERPT
                    &&& self.kept@[i].0@ == fragment_key(self.book@, self.chap as nat, (i + 1) as nat)
                } by {
                    if i < old_kept.len() {
                        assert(self.kept@[i] == old_kept[i]);
                        assert(self.seen@[i] == old(self).seen@[i]);
                    } else {
                        assert(views(self.seen@)[i] == strip_ws(self.kept@[i].1.excerpt@));
                    }
                }
                assert(views(self.seen@).no_duplicates()) by {
                    let v = views(self.seen@);
                    let o = views(old(self).seen@);
                    assert forall|a: int, b: int| 0 <= a < v.len() && 0 <= b < v.len() && a != b implies v[a] != v[b] by {
                        if a < o.len() && b < o.len() {
                            assert(v[a] == o[a] && v[b] == o[b]);
                        } else if a == o.len() {
                            assert(o[b] == v[b]);
                            assert(o.contains(v[b]));
                        } else {
                            assert(o[a] == v[a]);
                            assert(o.contains(v[a]));
                        }
                    }
                }
            }
        }
        Verdict::Kept
    }
}

// ---------------------------------------------------------------------------
// YAML
// ---------------------------------------------------------------------------

/// The quoted tags of a fragment: the book, then at most four of the
/// fragment's tags, escaped.
pub open spec fn tag_items(book: Seq<char>, tags: Seq<Seq<char>>) -> Seq<Seq<char>> {
    seq!["\""@ + book + "\""@] + take_tags(tags).map_values(
        |t: Seq<char>| "\""@ + yaml_escape_spec(t) + "\""@,
    )
}

/// At most the first four tags.
pub open spec fn take_tags(tags: Seq<Seq<char>>) -> Seq<Seq<char>> {
    if tags.len() <= MAX_TAGS {
        tags
    } else {
        tags.take(MAX_TAGS as int)
    }
}

/// The YAML entry of one kept fragment.
pub open spec fn entry_yaml(key: Seq<char>, f: Fragment, book: Seq<char>) -> Seq<char> {
    "  "@ + key + ":\n"@ + "    text: \""@ + yaml_escape_spec(f.excerpt@) + "\"\n"@
        + "    tags: ["@ + join(tag_items(book, views(f.tags@)), ", "@) + "]\n"@
}

/// The entries, among the first `n` kept fragments, of category `cat`.
pub open spec fn entries_for(
    cat: Seq<char>,
    kept: Seq<(String, Fragment)>,
    book: Seq<char>,
    n: int,
) -> Seq<char>
    decreases n,
{
    if n <= 0 {
        Seq::empty()
    } else {
        entries_for(cat, kept, book, n - 1) + if kept[n - 1].1.category@ == cat {
            entry_yaml(kept[n - 1].0@, kept[n - 1].1, book)
        } else {
            Seq::empty()
        }
    }
}

/// Some kept fragment has category `cat`.
pub open spec fn has_category(cat: Seq<char>, kept: Seq<(String, Fragment)>) -> bool {
    exists|i: int| 0 <= i < kept.len() && kept[i].1.category@ == cat
}

/// The YAML group of a category: its heading and entries, or nothing when
/// no kept fragment has it.
pub open spec fn group_yaml(cat: Seq<char>, kept: Seq<(String, Fragment)>, book: Seq<char>) -> Seq<
    char,
> {
    if has_category(cat, kept) {
        cat + ":\n"@ + entries_for(cat, kept, book, kept.len() as int)
    } else {
        Seq::empty()
    }
}

/// The groups of the first `n` categories, in category order.
pub open spec fn yaml_upto(kept: Seq<(String, Fragment)>, book: Seq<char>, n: int) -> Seq<char>
    decreases n,
{
    if n <= 0 {
        Seq::empty()
    } else {
        yaml_upto(kept, book, n - 1) + group_yaml(sense_names()[n - 1], kept, book)
    }
}

/// The YAML of the kept fragments, grouped by category.
pub open spec fn chapter_yaml(kept: Seq<(String, Fragment)>, book: Seq<char>) -> Seq<char> {
    yaml_upto(kept, book, 8)
}

fn tags_line(book: &str, tags: &Vec<String>) -> (s: String)
    ensures
        s@ == join(tag_items(book@, views(tags@)), ", "@),
{
    let mut items: Vec<String> = Vec::new();
    let mut b = owned("\"");
    push_str(&mut b, book);
    push_str(&mut b, "\"");
    items.push(b);
    let m = if tags.len() <= MAX_TAGS {
        tags.len()
    } else {
        MAX_TAGS
    };
    let ghost tv = take_tags(views(tags@));
    let mut i: usize = 0;
    while i < m
        invariant
            i <= m,
            m == tv.len(),
            tv == take_tags(views(tags@)),
            m <= tags@.len(),
            items@.len() == i + 1,
            views(items@) == tag_items(book@, views(tags@)).take(i as int + 1),
        decreases m - i,
    {
        let mut t = owned("\"");
        let e = yaml_escape(tags[i].as_str());
        push_str(&mut t, e.as_str());
        push_str(&mut t, "\"");
        let ghost before = views(items@);
        items.push(t);
        proof {
            assert(tv[i as int] == tags@[i as int]@);
            assert(views(items@) =~= tag_items(book@, views(tags@)).take(i as int + 2));
        }
        i = i + 1;
    }
    assert(views(items@) =~= tag_items(book@, views(tags@)));
    join_strings(&items, ", ")
}

/// Renders the kept fragments as vocabulary YAML: for each of the eight
/// categories in order that some kept fragment has, the category heading
/// and, in keeping order, each fragment's key, escaped text and tags (the
/// book first, then at most four escaped tags).
pub fn render_yaml(book: &str, kept: &Vec<(String, Fragment)>) -> (s: String)
    ensures
        s@ == chapter_yaml(kept@, book@),
{
    let mut s = String::new();
    let mut c: usize = 0;
    while c < 8
        invariant
            c <= 8,
            s@ == yaml_upto(kept@, book@, c as int),
        decreases 8 - c,
    {
        let cat = sense_name(c);
        let ghost before = s@;
        let mut group = String::new();
        let mut any = false;
        let mut k: usize = 0;
        while k < kept.len()
            invariant
                k <= kept.len(),
                cat@ == sense_names()[c as int],
                group@ == entries_for(cat@, kept@, book@, k as int),
                any == (exists|i: int| 0 <= i < k && kept@[i].1.category@ == cat@),
            decreases kept.len() - k,
        {
            let entry = &kept[k];
            let key = &entry.0;
            let f = &entry.1;
            if text_eq(f.category.as_str(), cat) {
                any = true;
                push_str(&mut group, "  ");
                push_str(&mut group, key.as_str());
                push_str(&mut group, ":\n");
                push_str(&mut group, "    text: \"");
                let e = yaml_escape(f.excerpt.as_str());
                push_str(&mut group, e.as_str());
                push_str(&mut group, "\"\n");
                push_str(&mut group, "    tags: [");
                let t = tags_line(book, &f.tags);
                push_str(&mut group, t.as_str());
                push_str(&mut group, "]\n");
            }
            proof {
                assert(group@ =~= entries_for(cat@, kept@, book@, k as int + 1));
            }
            k = k + 1;
        }
        if any {
            push_str(&mut s, cat);
            push_str(&mut s, ":\n");
            push_str(&mut s, group.as_str());
        }
        proof {
            assert(s@ =~= yaml_upto(kept@, book@, c as int + 1));
        }
        c = c + 1;
    }
    s
}

} // verus!
