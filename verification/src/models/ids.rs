//! Typed identifiers.
//!
//! Entity identifiers are UUIDs.  The library holds a UUID as its 128-bit
//! value (the value `uuid::Uuid::as_u128` returns); its text is produced by
//! the `uuid` crate.
use vstd::prelude::*;
use vstd::arithmetic::power::pow;
use crate::text::{chars_of, digit_char, find_char, first_index_of, owned, push_str};
use super::error::StoryError;

verus! {

/// Lowercase hexadecimal digit for `0..16`.
pub open spec fn hex_char(d: int) -> char {
    if d < 10 {
        digit_char(d)
    } else if d == 10 {
        'a'
    } else if d == 11 {
        'b'
    } else if d == 12 {
        'c'
    } else if d == 13 {
        'd'
    } else if d == 14 {
        'e'
    } else {
        'f'
    }
}

/// The 32 lowercase hexadecimal digits of `v`, most significant first.
pub open spec fn hex32(v: u128) -> Seq<char> {
    Seq::new(32, |k: int| hex_char(((v as int) / pow(16, (31 - k) as nat)) % 16))
}

/// The hyphenated text of a UUID (`8-4-4-4-12` lowercase hex digits), which
/// is what `Uuid`'s `Display` writes.
pub open spec fn uuid_text(v: u128) -> Seq<char> {
    let h = hex32(v);
    h.subrange(0, 8) + seq!['-'] + h.subrange(8, 12) + seq!['-'] + h.subrange(12, 16) + seq![
        '-',
    ] + h.subrange(16, 20) + seq!['-'] + h.subrange(20, 32)
}

/// Calls `uuid::Uuid::from_u128(v).to_string()`.  The contract claims that
/// the text is the hyphenated lowercase form of the big-endian value, as
/// the crate's `Display`/`LowerHex` implementation writes it.
#[verifier::external_body]
pub fn uuid_string(v: u128) -> (s: String)
    ensures
        s@ == uuid_text(v),
{
    uuid::Uuid::from_u128(v).to_string()
}

/// A hexadecimal digit, either case.
pub open spec fn is_hex_digit(c: char) -> bool {
    ('0' <= c && c <= '9') || ('a' <= c && c <= 'f') || ('A' <= c && c <= 'F')
}

/// The value of a hexadecimal digit.
pub open spec fn hex_digit_value(c: char) -> int {
    if '0' <= c && c <= '9' {
        c as int - '0' as int
    } else if 'a' <= c && c <= 'f' {
        c as int - 'a' as int + 10
    } else {
        c as int - 'A' as int + 10
    }
}

/// The number the hexadecimal digits `d` write, most significant first.
pub open spec fn hex_value(d: Seq<char>) -> int
    decreases d.len(),
{
    if d.len() == 0 {
        0
    } else {
        hex_value(d.drop_last()) * 16 + hex_digit_value(d.last())
    }
}

/// The 32 digits of a hyphenated UUID text (the text without its hyphens).
pub open spec fn uuid_digits(s: Seq<char>) -> Seq<char> {
    s.subrange(0, 8) + s.subrange(9, 13) + s.subrange(14, 18) + s.subrange(19, 23) + s.subrange(
        24,
        36,
    )
}

/// A hyphenated UUID text: `8-4-4-4-12` hexadecimal digits.
pub open spec fn is_hyphenated_uuid(s: Seq<char>) -> bool {
    &&& s.len() == 36
    &&& s[8] == '-' && s[13] == '-' && s[18] == '-' && s[23] == '-'
    &&& forall|k: int| 0 <= k < 32 ==> is_hex_digit(#[trigger] uuid_digits(s)[k])
}

proof fn lemma_hex_char(d: int)
    requires
        0 <= d < 16,
    ensures
        is_hex_digit(hex_char(d)),
        hex_digit_value(hex_char(d)) == d,
{
}

proof fn lemma_hex_prefix_value(v: u128, n: int)
    requires
        0 <= n <= 32,
    ensures
        hex_value(hex32(v).take(n)) == (v as int) / pow(16, (32 - n) as nat),
    decreases n,
{
    let x = v as int;
    if n == 0 {
        assert(hex32(v).take(0) =~= Seq::<char>::empty());
        assert(pow(16, 32) == 0x1_0000_0000_0000_0000_0000_0000_0000_0000int) by {
            reveal_with_fuel(pow, 33);
        }
        vstd::arithmetic::div_mod::lemma_basic_div(x, pow(16, 32));
    } else {
        lemma_hex_prefix_value(v, n - 1);
        let e = (32 - n) as nat;
        let p = pow(16, e);
        let q = x / p;
        vstd::arithmetic::power::lemma_pow_positive(16, e);
        vstd::arithmetic::power::lemma_pow_adds(16, e, 1);
        vstd::arithmetic::power::lemma_pow1(16);
        assert(pow(16, (32 - (n - 1)) as nat) == p * 16);
        vstd::arithmetic::div_mod::lemma_div_denominator(x, p, 16);
        vstd::arithmetic::div_mod::lemma_div_pos_is_pos(x, p);
        vstd::arithmetic::div_mod::lemma_fundamental_div_mod(q, 16);
        vstd::arithmetic::div_mod::lemma_mod_pos_bound(q, 16);
        lemma_hex_char(q % 16);
        let t = hex32(v).take(n);
        assert(t.drop_last() =~= hex32(v).take(n - 1));
        assert(t.last() == hex_char(q % 16));
    }
}

/// The digits of an id's text are hexadecimal and write its value.
pub proof fn lemma_uuid_text_digits(v: u128)
    ensures
        is_hyphenated_uuid(uuid_text(v)),
        hex_value(uuid_digits(uuid_text(v))) == v as int,
{
    let t = uuid_text(v);
    assert(uuid_digits(t) =~= hex32(v));
    assert forall|k: int| 0 <= k < 32 implies is_hex_digit(#[trigger] uuid_digits(t)[k]) by {
        let x = v as int;
        let e = (31 - k) as nat;
        vstd::arithmetic::power::lemma_pow_positive(16, e);
        vstd::arithmetic::div_mod::lemma_mod_pos_bound(x / pow(16, e), 16);
        vstd::arithmetic::div_mod::lemma_div_pos_is_pos(x, pow(16, e));
        lemma_hex_char((x / pow(16, e)) % 16);
    }
    lemma_hex_prefix_value(v, 32);
    assert(hex32(v).take(32) =~= hex32(v));
    vstd::arithmetic::power::lemma_pow0(16);
}

/// Character identifier (a UUID held by its 128-bit value).
#[derive(Clone, Copy, PartialEq, Eq, Hash, Debug, Structural)]
pub struct CharacterId(pub u128);

/// Scene identifier.
#[derive(Clone, Copy, PartialEq, Eq, Hash, Debug, Structural)]
pub struct SceneId(pub u128);

/// Memory identifier.
#[derive(Clone, Copy, PartialEq, Eq, Hash, Debug, Structural)]
pub struct MemoryId(pub u128);

/// Relationship fact identifier.
#[derive(Clone, Copy, PartialEq, Eq, Hash, Debug, Structural)]
pub struct RelationshipFactId(pub u128);

/// Relationship candidate identifier.
#[derive(Clone, Copy, PartialEq, Eq, Hash, Debug, Structural)]
pub struct RelationshipCandidateId(pub u128);

/// `Name(<uuid>)`, the `Debug` text of a UUID newtype.
pub open spec fn tagged_uuid(name: Seq<char>, v: u128) -> Seq<char> {
    name + seq!['('] + uuid_text(v) + seq![')']
}

fn tagged_uuid_string(name: &str, v: u128) -> (s: String)
    ensures
        s@ == tagged_uuid(name@, v),
{
    let mut s = owned(name);
    s.push('(');
    let u = uuid_string(v);
    push_str(&mut s, u.as_str());
    s.push(')');
    s
}

impl CharacterId {
    /// The UUID text of the id.
    pub fn text(&self) -> (s: String)
        ensures
            s@ == uuid_text(self.0),
    {
        uuid_string(self.0)
    }

    /// The id as `{:?}` shows it: `CharacterId(<uuid>)`.
    pub fn debug_text(&self) -> (s: String)
        ensures
            s@ == tagged_uuid("CharacterId"@, self.0),
    {
        tagged_uuid_string("CharacterId", self.0)
    }
}

impl SceneId {
    pub fn text(&self) -> (s: String)
        ensures
            s@ == uuid_text(self.0),
    {
        uuid_string(self.0)
    }

    pub fn debug_text(&self) -> (s: String)
        ensures
            s@ == tagged_uuid("SceneId"@, self.0),
    {
        tagged_uuid_string("SceneId", self.0)
    }
}

impl MemoryId {
    pub fn text(&self) -> (s: String)
        ensures
            s@ == uuid_text(self.0),
    {
        uuid_string(self.0)
    }
}

impl RelationshipFactId {
    pub fn text(&self) -> (s: String)
        ensures
            s@ == uuid_text(self.0),
    {
        uuid_string(self.0)
    }
}

impl RelationshipCandidateId {
    pub fn text(&self) -> (s: String)
        ensures
            s@ == uuid_text(self.0),
    {
        uuid_string(self.0)
    }

    pub fn debug_text(&self) -> (s: String)
        ensures
            s@ == tagged_uuid("RelationshipCandidateId"@, self.0),
    {
        tagged_uuid_string("RelationshipCandidateId", self.0)
    }
}

// ---------------------------------------------------------------------------
// Vocabulary ids
// ---------------------------------------------------------------------------

/// Position of the first occurrence of `c` in `s` (meaningful when `c` occurs).
pub open spec fn first_pos(s: Seq<char>, c: char) -> int {
    choose|i: int| first_index_of(s, c, i)
}

pub open spec fn has_char(s: Seq<char>, c: char) -> bool {
    exists|i: int| 0 <= i < s.len() && s[i] == c
}

pub proof fn lemma_first_pos(s: Seq<char>, c: char, i: int)
    requires
        first_index_of(s, c, i),
    ensures
        first_pos(s, c) == i,
        has_char(s, c),
{
    let j = first_pos(s, c);
    assert(first_index_of(s, c, j));
    if j < i {
        assert(s[j] != c);
    } else if j > i {
        assert(s[i] != c);
    }
}

/// The category part of `sense.key`: the text before the first `.`.
pub open spec fn sense_part(s: Seq<char>) -> Seq<char> {
    s.take(first_pos(s, '.'))
}

/// The key part of `sense.key`: the text after the first `.`.
pub open spec fn key_part(s: Seq<char>) -> Seq<char> {
    s.skip(first_pos(s, '.') + 1)
}

/// A well-formed vocabulary id: it contains a `.`, and the text before the
/// first `.` and the text after it are both non-empty.
pub open spec fn valid_vocab_id(s: Seq<char>) -> bool {
    has_char(s, '.') && sense_part(s).len() > 0 && key_part(s).len() > 0
}

/// Vocabulary identifier `"<sense>.<key>"`, such as `"visual.bloodstain"`.
#[derive(Debug)]
pub struct VocabularyId(String);

impl Clone for VocabularyId {
    fn clone(&self) -> (r: Self)
        ensures
            r@ == self@,
    {
        proof {
            use_type_invariant(self);
        }
        VocabularyId(self.0.clone())
    }
}

impl View for VocabularyId {
    type V = Seq<char>;

    closed spec fn view(&self) -> Seq<char> {
        self.0@
    }
}

pub open spec fn vocab_id_missing_dot_message(raw: Seq<char>) -> Seq<char> {
    "missing '.' in "@ + raw
}

pub open spec fn vocab_id_empty_segment_message(raw: Seq<char>) -> Seq<char> {
    "empty segment in "@ + raw
}

impl VocabularyId {
    #[verifier::type_invariant]
    closed spec fn wf(self) -> bool {
        valid_vocab_id(self.0@)
    }

    /// Builds an id from `raw`, checking its form.
    ///
    /// Fails with `InvalidVocabularySelection` when `raw` has no `.`, or when
    /// the text before or after the first `.` is empty.
    pub fn new(raw: &str) -> (r: Result<Self, StoryError>)
        ensures
            r matches Ok(id) ==> id@ == raw@,
            r is Ok <==> valid_vocab_id(raw@),
            !has_char(raw@, '.') ==> (r matches Err(StoryError::InvalidVocabularySelection(m))
                && m@ == vocab_id_missing_dot_message(raw@)),
            has_char(raw@, '.') && !valid_vocab_id(raw@) ==> (r matches Err(
                StoryError::InvalidVocabularySelection(m),
            ) && m@ == vocab_id_empty_segment_message(raw@)),
    {
        let v = chars_of(raw);
        match find_char(&v, '.') {
            None => {
                let mut msg = owned("missing '.' in ");
                push_str(&mut msg, raw);
                Err(StoryError::InvalidVocabularySelection(msg))
            },
            Some(i) => {
                proof {
                    lemma_first_pos(raw@, '.', i as int);
                }
                assert(i < v.len());
                if i == 0 || i + 1 == v.len() {
                    let mut msg = owned("empty segment in ");
                    push_str(&mut msg, raw);
                    Err(StoryError::InvalidVocabularySelection(msg))
                } else {
                    Ok(VocabularyId(owned(raw)))
                }
            },
        }
    }

    /// The full `"sense.key"` text.
    pub fn as_str(&self) -> (s: &str)
        ensures
            s@ == self@,
    {
        self.0.as_str()
    }

    /// Position of the first `.` of a well-formed id.
    fn dot(&self) -> (i: usize)
        ensures
            first_index_of(self@, '.', i as int),
            first_pos(self@, '.') == i,
            0 < i,
            i + 1 < self@.len(),
    {
        proof {
            use_type_invariant(self);
        }
        let v = chars_of(self.0.as_str());
        let r = find_char(&v, '.');
        proof {
            let j = choose|j: int| 0 <= j < self@.len() && self@[j] == '.';
            assert(v@[j] == '.');
        }
        let i = r.unwrap();
        proof {
            lemma_first_pos(self@, '.', i as int);
        }
        i
    }

    /// The category, the text before the first `.`.
    pub fn sense(&self) -> (s: &str)
        ensures
            s@ == sense_part(self@),
            s@.len() > 0,
    {
        let i = self.dot();
        self.0.as_str().substring_char(0, i)
    }

    /// The key, the text after the first `.`.
    pub fn key(&self) -> (s: &str)
        ensures
            s@ == key_part(self@),
            s@.len() > 0,
    {
        let i = self.dot();
        proof {
            use_type_invariant(self);
        }
        let n = self.0.as_str().unicode_len();
        let r = self.0.as_str().substring_char(i + 1, n);
        assert(r@ =~= key_part(self@));
        r
    }

    /// The id's text (what `Display` writes).
    pub fn to_text(&self) -> (s: String)
        ensures
            s@ == self@,
            valid_vocab_id(self@),
    {
        proof {
            use_type_invariant(self);
        }
        owned(self.0.as_str())
    }
}

/// Splitting a well-formed id and joining the parts with `.` gives it back.
pub proof fn lemma_vocab_id_roundtrip(s: Seq<char>)
    requires
        valid_vocab_id(s),
    ensures
        sense_part(s) + seq!['.'] + key_part(s) == s,
        !has_char(sense_part(s), '.'),
{
    let i = first_pos(s, '.');
    let w = choose|j: int| 0 <= j < s.len() && s[j] == '.';
    lemma_least_dot(s, w);
    assert(sense_part(s) + seq!['.'] + key_part(s) =~= s);
    if has_char(sense_part(s), '.') {
        let k = choose|k: int| 0 <= k < sense_part(s).len() && sense_part(s)[k] == '.';
        assert(s[k] == '.');
    }
}

/// When `c` occurs in `s`, its first occurrence exists.
proof fn lemma_least_dot(s: Seq<char>, w: int)
    requires
        0 <= w < s.len(),
        s[w] == '.',
    ensures
        first_index_of(s, '.', first_pos(s, '.')),
    decreases w,
{
    if forall|k: int| 0 <= k < w ==> s[k] != '.' {
        assert(first_index_of(s, '.', w));
    } else {
        let k = choose|k: int| 0 <= k < w && s[k] == '.';
        lemma_least_dot(s, k);
    }
}

} // verus!
