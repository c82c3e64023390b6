//! Line handling of the interactive loop and exit codes.
use vstd::prelude::*;
use crate::text::{chars_of, is_ws, is_ws_spec, owned, string_of, text_eq, trim, trim_chars, views};
use super::observation::Status;

verus! {

/// Process exit code of a command outcome: 1 for an error, 0 otherwise.
pub fn status_to_exit(status: Status) -> (code: i32)
    ensures
        code == (if status == Status::Error {
            1i32
        } else {
            0i32
        }),
{
    match status {
        Status::Error => 1,
        Status::Success | Status::Warning => 0,
    }
}

/// State of the line splitter after a prefix of the line.
pub struct SplitState {
    pub tokens: Seq<Seq<char>>,
    pub current: Seq<char>,
    pub in_quotes: bool,
}

/// One character of the splitter: a double quote toggles quoting (and is
/// dropped); whitespace outside quotes ends the current token; any other
/// character extends it.
pub open spec fn split_step(st: SplitState, c: char) -> SplitState {
    if c == '"' {
        SplitState { in_quotes: !st.in_quotes, ..st }
    } else if is_ws_spec(c) && !st.in_quotes {
        if st.current.len() > 0 {
            SplitState { tokens: st.tokens.push(st.current), current: Seq::empty(), ..st }
        } else {
            st
        }
    } else {
        SplitState { current: st.current.push(c), ..st }
    }
}

pub open spec fn split_state(line: Seq<char>) -> SplitState
    decreases line.len(),
{
    if line.len() == 0 {
        SplitState { tokens: Seq::empty(), current: Seq::empty(), in_quotes: false }
    } else {
        split_step(split_state(line.drop_last()), line.last())
    }
}

/// The tokens of a line: split on whitespace, with double-quoted stretches
/// kept whole; an unclosed quote runs to the end of the line.
pub open spec fn split_line_spec(line: Seq<char>) -> Seq<Seq<char>> {
    let st = split_state(line);
    if st.current.len() > 0 {
        st.tokens.push(st.current)
    } else {
        st.tokens
    }
}

/// Splits a command line into arguments: on whitespace, keeping spaces
/// inside double quotes.
pub fn split_repl_line(line: &str) -> (tokens: Vec<String>)
    ensures
        tokens@.map_values(|t: String| t@) == split_line_spec(line@),
{
    let v = chars_of(line);
    let mut tokens: Vec<String> = Vec::new();
    let mut current: Vec<char> = Vec::new();
    let mut in_quotes = false;
    let mut i: usize = 0;
    while i < v.len()
        invariant
            i <= v.len(),
            v@ == line@,
            tokens@.map_values(|t: String| t@) == split_state(v@.take(i as int)).tokens,
            current@ == split_state(v@.take(i as int)).current,
            in_quotes == split_state(v@.take(i as int)).in_quotes,
        decreases v.len() - i,
    {
        proof {
            assert(v@.take(i as int + 1).drop_last() =~= v@.take(i as int));
        }
        let c = v[i];
        if c == '"' {
            in_quotes = !in_quotes;
        } else if is_ws(c) && !in_quotes {
            if current.len() > 0 {
                let ghost before = tokens@;
                let t = string_of(&current);
                tokens.push(t);
                current = Vec::new();
                proof {
                    assert(tokens@.map_values(|t: String| t@) =~= before.map_values(
                        |t: String| t@,
                    ).push(t@));
                }
            }
        } else {
            current.push(c);
        }
        i = i + 1;
    }
    assert(v@.take(v@.len() as int) =~= v@);
    if current.len() > 0 {
        let ghost before = tokens@;
        let t = string_of(&current);
        tokens.push(t);
        proof {
            assert(tokens@.map_values(|t: String| t@) =~= before.map_values(|t: String| t@).push(
                t@,
            ));
        }
    }
    tokens
}

/// Tokens are never empty and never hold a double quote.
pub open spec fn tokens_clean(ts: Seq<Seq<char>>) -> bool {
    forall|k: int|
        0 <= k < ts.len() ==> (#[trigger] ts[k]).len() > 0 && !ts[k].contains('"')
}

proof fn lemma_split_state_clean(line: Seq<char>)
    ensures
        tokens_clean(split_state(line).tokens),
        !split_state(line).current.contains('"'),
        !has_quote(line) ==> !split_state(line).in_quotes && ws_free(split_state(line).current)
            && forall|k: int|
            0 <= k < split_state(line).tokens.len() ==> ws_free(
                #[trigger] split_state(line).tokens[k],
            ),
    decreases line.len(),
{
    if line.len() > 0 {
        let p = line.drop_last();
        lemma_split_state_clean(p);
        let st = split_state(p);
        let c = line.last();
        if !has_quote(line) {
            assert(!has_quote(p)) by {
                if has_quote(p) {
                    let j = choose|j: int| 0 <= j < p.len() && p[j] == '"';
                    assert(line[j] == '"');
                }
            }
        }
        if c == '"' {
            assert(has_quote(line)) by {
                assert(line[line.len() - 1] == '"');
            }
        } else if is_ws_spec(c) && !st.in_quotes {
            if st.current.len() > 0 {
                let ts = st.tokens.push(st.current);
                assert forall|k: int| 0 <= k < ts.len() && !has_quote(line) implies ws_free(#[trigger] ts[k]) by {
                    if k < st.tokens.len() {
                        assert(ts[k] == st.tokens[k]);
                    }
                }
                assert forall|k: int| 0 <= k < ts.len() implies (#[trigger] ts[k]).len() > 0
                    && !ts[k].contains('"') by {
                    if k < st.tokens.len() {
                        assert(ts[k] == st.tokens[k]);
                    }
                }
            }
        } else {
            let cur = st.current.push(c);
            assert forall|x: int| 0 <= x < cur.len() && !has_quote(line) implies !is_ws_spec(#[trigger] cur[x]) by {
                if x < st.current.len() {
                    assert(cur[x] == st.current[x]);
                }
            }
            assert forall|x: int| 0 <= x < cur.len() implies cur[x] != '"' by {
                if x < st.current.len() {
                    assert(cur[x] == st.current[x]);
                }
            }
            if has_quote(p) {
                let j = choose|j: int| 0 <= j < p.len() && p[j] == '"';
                assert(line[j] == '"');
            }
        }
    }
}

/// No whitespace in `s`.
pub open spec fn ws_free(s: Seq<char>) -> bool {
    forall|k: int| 0 <= k < s.len() ==> !is_ws_spec(#[trigger] s[k])
}

/// The line holds a double quote.
pub open spec fn has_quote(line: Seq<char>) -> bool {
    exists|j: int| 0 <= j < line.len() && line[j] == '"'
}

/// Every token is non-empty and free of double quotes; on a line without
/// double quotes, tokens hold no whitespace either.
pub proof fn lemma_split_tokens_clean(line: Seq<char>)
    ensures
        tokens_clean(split_line_spec(line)),
        !has_quote(line) ==> forall|k: int|
            0 <= k < split_line_spec(line).len() ==> ws_free(#[trigger] split_line_spec(line)[k]),
{
    lemma_split_state_clean(line);
    let st = split_state(line);
    if st.current.len() > 0 {
        let ts = st.tokens.push(st.current);
        assert forall|k: int| 0 <= k < ts.len() implies (#[trigger] ts[k]).len() > 0 && !ts[k].contains(
            '"',
        ) by {
            if k < st.tokens.len() {
                assert(ts[k] == st.tokens[k]);
            }
        }
        assert forall|k: int| 0 <= k < ts.len() && !has_quote(line) implies ws_free(#[trigger] ts[k]) by {
            if k < st.tokens.len() {
                assert(ts[k] == st.tokens[k]);
            }
        }
    }
}

/// Whether the end of `line` lies inside double quotes (an odd number of
/// quotes so far).
pub open spec fn inside_quotes(line: Seq<char>) -> bool
    decreases line.len(),
{
    if line.len() == 0 {
        false
    } else if line.last() == '"' {
        !inside_quotes(line.drop_last())
    } else {
        inside_quotes(line.drop_last())
    }
}

/// The characters of `line` that tokens keep: all but the double quotes
/// and the whitespace outside quotes.
pub open spec fn kept_chars(line: Seq<char>) -> Seq<char>
    decreases line.len(),
{
    if line.len() == 0 {
        Seq::empty()
    } else {
        let p = line.drop_last();
        let c = line.last();
        if c == '"' || (is_ws_spec(c) && !inside_quotes(p)) {
            kept_chars(p)
        } else {
            kept_chars(p).push(c)
        }
    }
}

/// The texts of `ts` one after another.
pub open spec fn concat_all(ts: Seq<Seq<char>>) -> Seq<char>
    decreases ts.len(),
{
    if ts.len() == 0 {
        Seq::empty()
    } else {
        concat_all(ts.drop_last()) + ts.last()
    }
}

/// State of plain whitespace splitting after a prefix: the finished pieces
/// and the piece under way.
pub open spec fn ws_state(line: Seq<char>) -> (Seq<Seq<char>>, Seq<char>)
    decreases line.len(),
{
    if line.len() == 0 {
        (Seq::empty(), Seq::empty())
    } else {
        let (ts, cur) = ws_state(line.drop_last());
        let c = line.last();
        if is_ws_spec(c) {
            if cur.len() > 0 {
                (ts.push(cur), Seq::empty())
            } else {
                (ts, cur)
            }
        } else {
            (ts, cur.push(c))
        }
    }
}

/// `str::split_whitespace`: the maximal runs of non-whitespace characters.
pub open spec fn split_whitespace_spec(line: Seq<char>) -> Seq<Seq<char>> {
    let (ts, cur) = ws_state(line);
    if cur.len() > 0 {
        ts.push(cur)
    } else {
        ts
    }
}

proof fn lemma_split_state_laws(line: Seq<char>)
    ensures
        split_state(line).in_quotes == inside_quotes(line),
        concat_all(split_state(line).tokens) + split_state(line).current == kept_chars(line),
        !has_quote(line) ==> split_state(line).tokens == ws_state(line).0
            && split_state(line).current == ws_state(line).1,
    decreases line.len(),
{
    if line.len() > 0 {
        let p = line.drop_last();
        lemma_split_state_laws(p);
        lemma_split_state_clean(p);
        let st = split_state(p);
        let c = line.last();
        if !has_quote(line) {
            assert(!has_quote(p)) by {
                if has_quote(p) {
                    let j = choose|j: int| 0 <= j < p.len() && p[j] == '"';
                    assert(line[j] == '"');
                }
            }
            assert(c != '"') by {
                assert(line[line.len() - 1] == c);
            }
        }
        if c == '"' {
        } else if is_ws_spec(c) && !st.in_quotes {
            if st.current.len() > 0 {
                let ts = st.tokens.push(st.current);
                assert(ts.drop_last() =~= st.tokens);
                assert(concat_all(ts) + Seq::<char>::empty() =~= concat_all(st.tokens) + st.current);
            } else {
                assert(concat_all(st.tokens) + st.current =~= concat_all(st.tokens));
            }
        } else {
            assert(concat_all(st.tokens) + st.current.push(c) =~= (concat_all(st.tokens)
                + st.current).push(c));
        }
    }
}

/// The tokens of a line, read one after another, are its characters without
/// the double quotes and without the whitespace outside quotes; on a line
/// without double quotes the tokens are exactly its whitespace-separated
/// pieces.
pub proof fn lemma_split_line_laws(line: Seq<char>)
    ensures
        concat_all(split_line_spec(line)) == kept_chars(line),
        !has_quote(line) ==> split_line_spec(line) == split_whitespace_spec(line),
{
    lemma_split_state_laws(line);
    let st = split_state(line);
    if st.current.len() > 0 {
        let ts = st.tokens.push(st.current);
        assert(ts.drop_last() =~= st.tokens);
    } else {
        assert(concat_all(st.tokens) + st.current =~= concat_all(st.tokens));
    }
}

/// What the interactive loop does with one input line.
#[derive(Debug, Clone, PartialEq, Eq)]
pub enum ReplStep {
    /// `quit` or `exit`: leave the loop.
    Quit,
    /// A blank line: ask again.
    Skip,
    /// Anything else: parse these arguments (the program name first).
    Run(Vec<String>),
}

/// The step for an input line: after trimming, a blank line is skipped,
/// `quit` or `exit` ends the loop, and anything else is split into
/// arguments behind the program name `novels`.
pub fn repl_step(line: &str) -> (r: ReplStep)
    ensures
        trim(line@).len() == 0 ==> r == ReplStep::Skip,
        trim(line@).len() > 0 && (trim(line@) == "quit"@ || trim(line@) == "exit"@) ==> r
            == ReplStep::Quit,
        trim(line@).len() > 0 && trim(line@) != "quit"@ && trim(line@) != "exit"@ ==> (r matches ReplStep::Run(argv)
            && views(argv@) == seq!["novels"@] + split_line_spec(trim(line@))),
{
    let t = trim_chars(&chars_of(line));
    if t.len() == 0 {
        return ReplStep::Skip;
    }
    let ts = string_of(&t);
    if text_eq(ts.as_str(), "quit") || text_eq(ts.as_str(), "exit") {
        return ReplStep::Quit;
    }
    let tokens = split_repl_line(ts.as_str());
    let mut argv: Vec<String> = Vec::new();
    argv.push(owned("novels"));
    let mut i: usize = 0;
    while i < tokens.len()
        invariant
            i <= tokens.len(),
            views(argv@) == seq!["novels"@] + views(tokens@).take(i as int),
        decreases tokens.len() - i,
    {
        let ghost before = argv@;
        argv.push(tokens[i].clone());
        assert(views(argv@) =~= views(before).push(tokens@[i as int]@));
        assert(views(tokens@).take(i as int + 1) =~= views(tokens@).take(i as int).push(
            tokens@[i as int]@,
        ));
        i = i + 1;
    }
    assert(views(tokens@).take(tokens@.len() as int) =~= views(tokens@));
    assert(views(tokens@) =~= tokens@.map_values(|t: String| t@));
    ReplStep::Run(argv)
}

} // verus!
