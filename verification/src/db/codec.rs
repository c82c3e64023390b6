//! How ids, timestamps and id lists are stored as text, and read back.
use vstd::prelude::*;
use crate::models::ids::{hex_char, hex_value, is_hyphenated_uuid, lemma_uuid_text_digits, uuid_digits, uuid_text, valid_vocab_id, vocab_id_empty_segment_message, vocab_id_missing_dot_message, has_char};
use crate::models::error::story_error_text;
use crate::models::sensation::id_texts;
use crate::models::{StoryError, Timestamp, VocabularyId};
use crate::text::{owned, push_str, views};

verus! {

// ---------------------------------------------------------------------------
// UUIDs
// ---------------------------------------------------------------------------

/// What `uuid::Uuid::parse_str` gives for a text: the 128-bit value, or the
/// error's message.
pub uninterp spec fn uuid_parsed(s: Seq<char>) -> Result<u128, Seq<char>>;

/// Calls `uuid::Uuid::parse_str(s)`, giving the value (`as_u128`) or the
/// error's `Display` text.  The contract names the result, and states that
/// a hyphenated text (`8-4-4-4-12` hexadecimal digits of either case)
/// parses as the big-endian number its digits write.  Which other forms
/// parse (simple, braced, URN) and the error texts are not stated.
#[verifier::external_body]
pub(crate) fn uuid_parse_str(text: &str) -> (parsed: Result<u128, String>)
    ensures
        uuid_parsed(text@) == match parsed {
            Ok(value) => Ok::<u128, Seq<char>>(value),
            Err(message) => Err::<u128, Seq<char>>(message@),
        },
        is_hyphenated_uuid(text@) ==> (parsed is Ok && parsed->Ok_0 == uuid_number(text@)),
{
    match uuid::Uuid::parse_str(text) {
        Ok(u) => Ok(u.as_u128()),
        Err(e) => Err(e.to_string()),
    }
}

/// The number a hyphenated UUID text writes.
pub open spec fn uuid_number(s: Seq<char>) -> u128 {
    hex_value(uuid_digits(s)) as u128
}

/// A text that is the text of an id is a hyphenated UUID text whose number
/// is that id.
pub(crate) proof fn lemma_own_text_parses(s: Seq<char>)
    ensures
        forall|v: u128| #[trigger] uuid_text(v) == s ==> is_hyphenated_uuid(s) && uuid_number(s) == v,
{
    assert forall|v: u128| #[trigger] uuid_text(v) == s implies is_hyphenated_uuid(s) && uuid_number(s) == v by {
        lemma_uuid_text_digits(v);
    }
}

/// The message of a UUID that does not parse.
pub open spec fn invalid_uuid_message(s: Seq<char>, e: Seq<char>) -> Seq<char> {
    "invalid UUID "@ + s + ": "@ + e
}

/// Reads a stored UUID; fails with a database error carrying the parser's
/// message.  The text of an id reads back as that id.
pub fn parse_uuid(s: &str) -> (r: Result<u128, StoryError>)
    ensures
        uuid_parsed(s@) matches Ok(v) ==> r == Ok::<u128, StoryError>(v),
        uuid_parsed(s@) matches Err(e) ==> (r matches Err(StoryError::Database(m)) && m@
            == invalid_uuid_message(s@, e)),
        forall|v: u128| #[trigger] uuid_text(v) == s@ ==> r == Ok::<u128, StoryError>(v),
{
    proof {
        lemma_own_text_parses(s@);
    }
    match uuid_parse_str(s) {
        Ok(v) => Ok(v),
        Err(e) => {
            let mut m = owned("invalid UUID ");
            push_str(&mut m, s);
            push_str(&mut m, ": ");
            push_str(&mut m, e.as_str());
            Err(StoryError::Database(m))
        },
    }
}

// ---------------------------------------------------------------------------
// Timestamps
// ---------------------------------------------------------------------------

/// What parsing an RFC 3339 text and writing it back in UTC gives: the UTC
/// RFC 3339 text, or the parse error's message.
pub uninterp spec fn rfc3339_utc(s: Seq<char>) -> Result<Seq<char>, Seq<char>>;

/// Calls `chrono::DateTime::parse_from_rfc3339(s)`, converts the time to
/// UTC and writes it with `to_rfc3339`, or gives the error's `Display`
/// text.  The contract names the result; it does not state the format.
#[verifier::external_body]
fn rfc3339_to_utc(text: &str) -> (parsed: Result<String, String>)
    ensures
        rfc3339_utc(text@) == match parsed {
            Ok(utc) => Ok::<Seq<char>, Seq<char>>(utc@),
            Err(message) => Err::<Seq<char>, Seq<char>>(message@),
        },
{
    match chrono::DateTime::parse_from_rfc3339(text) {
        Ok(dt) => Ok(dt.with_timezone(&chrono::Utc).to_rfc3339()),
        Err(e) => Err(e.to_string()),
    }
}

/// The message of a timestamp that does not parse.
pub open spec fn invalid_timestamp_message(s: Seq<char>, e: Seq<char>) -> Seq<char> {
    "invalid timestamp "@ + s + ": "@ + e
}

/// Reads a stored timestamp, as UTC; fails with a database error carrying
/// the parser's message.
pub fn parse_rfc3339(s: &str) -> (r: Result<Timestamp, StoryError>)
    ensures
        rfc3339_utc(s@) matches Ok(t) ==> (r matches Ok(ts) && ts@ == t),
        rfc3339_utc(s@) matches Err(e) ==> (r matches Err(StoryError::Database(m)) && m@
            == invalid_timestamp_message(s@, e)),
{
    match rfc3339_to_utc(s) {
        Ok(t) => Ok(Timestamp(t)),
        Err(e) => {
            let mut m = owned("invalid timestamp ");
            push_str(&mut m, s);
            push_str(&mut m, ": ");
            push_str(&mut m, e.as_str());
            Err(StoryError::Database(m))
        },
    }
}

// ---------------------------------------------------------------------------
// Id lists as JSON
// ---------------------------------------------------------------------------

/// The JSON array of strings that `serde_json::to_string` writes for a list
/// of strings.
pub uninterp spec fn json_of_strings(v: Seq<Seq<char>>) -> Seq<char>;

/// What `serde_json::from_str::<Vec<String>>` gives for a text: the strings,
/// or the error's message.
pub uninterp spec fn strings_of_json(s: Seq<char>) -> Result<Seq<Seq<char>>, Seq<char>>;

/// A character JSON writes inside a string as it is: not a quote, not a
/// backslash, not a control character.
pub open spec fn plain_char(c: char) -> bool {
    c != '"' && c != '\\' && (c as u32) >= 0x20
}

/// Every character of every text is plain.
pub open spec fn all_plain(xs: Seq<Seq<char>>) -> bool {
    forall|i: int, k: int| 0 <= i < xs.len() && 0 <= k < xs[i].len() ==> plain_char(#[trigger] xs[i][k])
}

/// A text in double quotes.
pub open spec fn quoted(x: Seq<char>) -> Seq<char> {
    seq!['"'] + x + seq!['"']
}

/// The quoted texts, separated by commas.
pub open spec fn json_items(xs: Seq<Seq<char>>) -> Seq<char>
    decreases xs.len(),
{
    if xs.len() == 0 {
        Seq::empty()
    } else if xs.len() == 1 {
        quoted(xs[0])
    } else {
        json_items(xs.drop_last()) + seq![','] + quoted(xs.last())
    }
}

/// The compact JSON array of texts: `["a","b"]`.  For plain texts this is
/// what serde_json writes, each text verbatim between quotes.
pub open spec fn plain_json_array(xs: Seq<Seq<char>>) -> Seq<char> {
    seq!['['] + json_items(xs) + seq![']']
}

/// A compact JSON array of plain texts.
pub open spec fn is_plain_json_array(s: Seq<char>) -> bool {
    exists|xs: Seq<Seq<char>>| all_plain(xs) && #[trigger] plain_json_array(xs) == s
}

proof fn lemma_json_items_injective(xs: Seq<Seq<char>>, ys: Seq<Seq<char>>)
    requires
        all_plain(xs),
        all_plain(ys),
        json_items(xs) == json_items(ys),
    ensures
        xs == ys,
    decreases xs.len() + ys.len(),
{
    let s = json_items(xs);
    let n = s.len() as int;
    if xs.len() == 0 || ys.len() == 0 {
        assert(xs.len() == 0 && ys.len() == 0);
        assert(xs =~= ys);
    } else {
        let xl = xs.last();
        let yl = ys.last();
        assert(s.subrange(n - 1 - xl.len(), n - 1) =~= xl);
        assert(s.subrange(n - 1 - yl.len(), n - 1) =~= yl);
        assert(s[n - 2 - xl.len()] == '"');
        assert(s[n - 2 - yl.len()] == '"');
        if xl.len() < yl.len() {
            let k = yl.len() - xl.len() - 1;
            assert(yl[k] == s[n - 2 - xl.len()]);
            assert(plain_char(ys[ys.len() - 1][k]));
        }
        if yl.len() < xl.len() {
            let k = xl.len() - yl.len() - 1;
            assert(xl[k] == s[n - 2 - yl.len()]);
            assert(plain_char(xs[xs.len() - 1][k]));
        }
        assert(xl == yl);
        if xs.len() == 1 || ys.len() == 1 {
            assert(xs.len() == 1 && ys.len() == 1);
            assert(xs =~= ys);
        } else {
            let xd = xs.drop_last();
            let yd = ys.drop_last();
            assert(json_items(xd) =~= s.subrange(0, n - 3 - xl.len()));
            assert(json_items(yd) =~= s.subrange(0, n - 3 - yl.len()));
            assert(all_plain(xd)) by {
                assert forall|i: int, k: int| 0 <= i < xd.len() && 0 <= k < xd[i].len() implies plain_char(
                    #[trigger] xd[i][k],
                ) by {
                    assert(xd[i] == xs[i]);
                }
            }
            assert(all_plain(yd)) by {
                assert forall|i: int, k: int| 0 <= i < yd.len() && 0 <= k < yd[i].len() implies plain_char(
                    #[trigger] yd[i][k],
                ) by {
                    assert(yd[i] == ys[i]);
                }
            }
            lemma_json_items_injective(xd, yd);
            assert(xs =~= xd.push(xl));
            assert(ys =~= yd.push(yl));
        }
    }
}

/// Two lists of plain texts with the same compact JSON array are the same
/// list: the array text determines the texts.
pub proof fn lemma_plain_json_array_injective(xs: Seq<Seq<char>>, ys: Seq<Seq<char>>)
    requires
        all_plain(xs),
        all_plain(ys),
        plain_json_array(xs) == plain_json_array(ys),
    ensures
        xs == ys,
{
    let s = plain_json_array(xs);
    assert(json_items(xs) =~= s.subrange(1, s.len() - 1));
    assert(json_items(ys) =~= s.subrange(1, s.len() - 1));
    lemma_json_items_injective(xs, ys);
}

/// How serde_json writes a character inside a string: a quote and a
/// backslash behind a backslash, backspace, form feed, line feed, carriage
/// return and tab as `\b`, `\f`, `\n`, `\r`, `\t`, any other control
/// character as `\u00` and two lowercase hexadecimal digits, and every
/// other character as it is.
pub open spec fn json_char_escape(c: char) -> Seq<char> {
    if c == '"' {
        seq!['\\', '"']
    } else if c == '\\' {
        seq!['\\', '\\']
    } else if (c as u32) == 0x08 {
        seq!['\\', 'b']
    } else if (c as u32) == 0x0c {
        seq!['\\', 'f']
    } else if (c as u32) == 0x0a {
        seq!['\\', 'n']
    } else if (c as u32) == 0x0d {
        seq!['\\', 'r']
    } else if (c as u32) == 0x09 {
        seq!['\\', 't']
    } else if (c as u32) < 0x20 {
        seq!['\\', 'u', '0', '0', hex_char((c as int) / 16), hex_char((c as int) % 16)]
    } else {
        seq![c]
    }
}

/// A text with every character escaped as serde_json writes it.
pub open spec fn json_escaped(s: Seq<char>) -> Seq<char>
    decreases s.len(),
{
    if s.len() == 0 {
        Seq::empty()
    } else {
        json_escaped(s.drop_last()) + json_char_escape(s.last())
    }
}

/// The compact JSON array of texts that serde_json writes: each text
/// escaped and quoted, separated by commas, in brackets.
pub open spec fn json_array(xs: Seq<Seq<char>>) -> Seq<char> {
    plain_json_array(xs.map_values(|x: Seq<char>| json_escaped(x)))
}

proof fn lemma_plain_escapes_to_itself(s: Seq<char>)
    requires
        forall|k: int| 0 <= k < s.len() ==> plain_char(#[trigger] s[k]),
    ensures
        json_escaped(s) == s,
    decreases s.len(),
{
    if s.len() > 0 {
        let d = s.drop_last();
        assert forall|k: int| 0 <= k < d.len() implies plain_char(#[trigger] d[k]) by {
            assert(d[k] == s[k]);
        }
        lemma_plain_escapes_to_itself(d);
        assert(plain_char(s[s.len() - 1]));
        assert(d.push(s.last()) =~= s);
    }
}

/// Texts that need no escape are written as they are.
proof fn lemma_plain_array(xs: Seq<Seq<char>>)
    requires
        all_plain(xs),
    ensures
        json_array(xs) == plain_json_array(xs),
{
    assert forall|i: int| 0 <= i < xs.len() implies json_escaped(#[trigger] xs[i]) == xs[i] by {
        assert forall|k: int| 0 <= k < xs[i].len() implies plain_char(#[trigger] xs[i][k]) by {}
        lemma_plain_escapes_to_itself(xs[i]);
    }
    assert(xs.map_values(|x: Seq<char>| json_escaped(x)) =~= xs);
}

/// Calls `serde_json::to_string(items)` (which cannot fail for strings).
/// The contract names the result and states the text: the compact array
/// of the strings, each escaped as `json_char_escape` says and quoted.
#[verifier::external_body]
fn json_strings(items: &Vec<String>) -> (json: String)
    ensures
        json@ == json_of_strings(views(items@)),
        json@ == json_array(views(items@)),
{
    serde_json::to_string(items).unwrap_or_default()
}

/// Calls `serde_json::from_str::<Vec<String>>(s)`, giving the strings or the
/// error's `Display` text.  The contract names the result, and states that
/// a compact array of quoted strings that need no escape reads as those
/// strings.  Which other texts parse, and the error texts, are not stated.
#[verifier::external_body]
fn strings_from_json(json: &str) -> (parsed: Result<Vec<String>, String>)
    ensures
        strings_of_json(json@) == match parsed {
            Ok(items) => Ok::<Seq<Seq<char>>, Seq<char>>(views(items@)),
            Err(message) => Err::<Seq<Seq<char>>, Seq<char>>(message@),
        },
        is_plain_json_array(json@) ==> (parsed is Ok && all_plain(views(parsed->Ok_0@)) && plain_json_array(views(parsed->Ok_0@)) == json@),
{
    serde_json::from_str::<Vec<String>>(json).map_err(|e| e.to_string())
}

/// The position of the first malformed id among `v`, if any.
pub open spec fn first_invalid_id(v: Seq<Seq<char>>, n: int) -> Option<int>
    decreases n,
{
    if n <= 0 {
        None
    } else {
        match first_invalid_id(v, n - 1) {
            Some(i) => Some(i),
            None => if valid_vocab_id(v[n - 1]) {
                None
            } else {
                Some(n - 1)
            },
        }
    }
}

proof fn lemma_first_invalid_kept(v: Seq<Seq<char>>, i: int, n: int)
    requires
        0 <= i < n,
        first_invalid_id(v, i + 1) == Some(i),
    ensures
        first_invalid_id(v, n) == Some(i),
    decreases n,
{
    if n > i + 1 {
        lemma_first_invalid_kept(v, i, n - 1);
    }
}

/// The message `VocabularyId::new` fails with for a malformed `raw`.
pub open spec fn bad_id_message(raw: Seq<char>) -> Seq<char> {
    if !has_char(raw, '.') {
        vocab_id_missing_dot_message(raw)
    } else {
        vocab_id_empty_segment_message(raw)
    }
}

/// The database error message of a malformed id: the text of the
/// vocabulary-selection error.
pub open spec fn bad_id_database_message(raw: Seq<char>) -> Seq<char> {
    "invalid vocabulary selection: "@ + bad_id_message(raw)
}

/// A list of ids as stored: the JSON array of their texts.  The texts of
/// ids are well formed, so reading them back cannot fail on an id; when no
/// text needs an escape, the array is the compact one of the texts.
pub fn ids_to_json(ids: &Vec<VocabularyId>) -> (s: String)
    ensures
        s@ == json_of_strings(id_texts(ids@)),
        first_invalid_id(id_texts(ids@), ids@.len() as int) is None,
        s@ == json_array(id_texts(ids@)),
        all_plain(id_texts(ids@)) ==> s@ == plain_json_array(id_texts(ids@)),
{
    let mut texts: Vec<String> = Vec::new();
    let mut i: usize = 0;
    while i < ids.len()
        invariant
            i <= ids.len(),
            texts@.len() == i,
            forall|j: int| 0 <= j < i ==> (#[trigger] texts@[j])@ == ids@[j]@,
            first_invalid_id(id_texts(ids@), i as int) is None,
        decreases ids.len() - i,
    {
        texts.push(ids[i].to_text());
        i = i + 1;
    }
    assert(views(texts@) =~= id_texts(ids@));
    let json = json_strings(&texts);
    proof {
        if all_plain(id_texts(ids@)) {
            lemma_plain_array(id_texts(ids@));
        }
    }
    json
}

/// Reads a stored list of ids: fails with a database error when the text
/// is not a JSON array of strings (the parser's message) or when one of the
/// strings is not a well-formed id (the first such).  A compact array of
/// well-formed ids that need no escape (what `ids_to_json` writes for
/// them) reads back as those ids.
pub fn parse_ids(s: &str) -> (r: Result<Vec<VocabularyId>, StoryError>)
    ensures
        strings_of_json(s@) matches Err(e) ==> (r matches Err(StoryError::Database(m)) && m@ == e),
        strings_of_json(s@) matches Ok(v) ==> match first_invalid_id(v, v.len() as int) {
            None => r matches Ok(ids) && id_texts(ids@) == v,
            Some(i) => r matches Err(StoryError::Database(m)) && m@ == bad_id_database_message(
                v[i],
            ),
        },
        forall|xs: Seq<Seq<char>>| all_plain(xs) && #[trigger] plain_json_array(xs) == s@ ==> strings_of_json(s@) == Ok::<Seq<Seq<char>>, Seq<char>>(xs),
        forall|xs: Seq<Seq<char>>| all_plain(xs) && #[trigger] plain_json_array(xs) == s@ && first_invalid_id(xs, xs.len() as int) is None ==> (r is Ok && id_texts(r->Ok_0@) == xs),
{
    let texts = match strings_from_json(s) {
        Ok(v) => v,
        Err(e) => return Err(StoryError::Database(e)),
    };
    let ghost v = views(texts@);
    proof {
        assert forall|xs: Seq<Seq<char>>| all_plain(xs) && #[trigger] plain_json_array(xs) == s@ implies v == xs by {
            assert(is_plain_json_array(s@));
            lemma_plain_json_array_injective(v, xs);
        }
    }
    let mut ids: Vec<VocabularyId> = Vec::new();
    let mut i: usize = 0;
    while i < texts.len()
        invariant
            i <= texts.len(),
            v == views(texts@),
            strings_of_json(s@) == Ok::<Seq<Seq<char>>, Seq<char>>(v),
            ids@.len() == i,
            id_texts(ids@) == v.take(i as int),
            first_invalid_id(v, i as int) is None,
            forall|xs: Seq<Seq<char>>| all_plain(xs) && #[trigger] plain_json_array(xs) == s@ ==> v == xs,
        decreases texts.len() - i,
    {
        match VocabularyId::new(texts[i].as_str()) {
            Ok(id) => {
                let ghost before = ids@;
                ids.push(id);
                assert(id_texts(ids@) =~= id_texts(before).push(v[i as int]));
                assert(v.take(i as int + 1) =~= v.take(i as int).push(v[i as int]));
            },
            Err(e) => {
                let m = e.describe();
                proof {
                    assert(story_error_text(e) == bad_id_database_message(v[i as int]));
                    lemma_first_invalid_kept(v, i as int, v.len() as int);
                }
                return Err(StoryError::Database(m));
            },
        }
        i = i + 1;
    }
    assert(v.take(v.len() as int) =~= v);
    Ok(ids)
}

} // verus!
