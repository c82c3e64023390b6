//! Pure parts of command execution: argument lists, outcome summaries and
//! user-facing error messages.
use vstd::prelude::*;
use crate::models::error::StoryError;
use crate::models::ids::tagged_uuid;
use crate::text::{
    ascii_lower, chars_of, decimal, has_sub, owned, push_decimal, push_str, str_contains, string_of, take_chars,
    trim, trim_chars, trim_end, trim_start, truncate_vec, views, is_ws_spec,
};
use super::observation::Status;

verus! {

// ---------------------------------------------------------------------------
// Comma-separated lists
// ---------------------------------------------------------------------------

/// Pieces of a text split at every `,`: finished pieces and the current one.
pub open spec fn csv_state(s: Seq<char>) -> (Seq<Seq<char>>, Seq<char>)
    decreases s.len(),
{
    if s.len() == 0 {
        (Seq::empty(), Seq::empty())
    } else {
        let (done, cur) = csv_state(s.drop_last());
        if s.last() == ',' {
            (done.push(cur), Seq::empty())
        } else {
            (done, cur.push(s.last()))
        }
    }
}

/// `s.split(',')`.
pub open spec fn csv_pieces(s: Seq<char>) -> Seq<Seq<char>> {
    csv_state(s).0.push(csv_state(s).1)
}

/// Trimmed pieces, empty ones dropped.
pub open spec fn keep_trimmed(ps: Seq<Seq<char>>) -> Seq<Seq<char>>
    decreases ps.len(),
{
    if ps.len() == 0 {
        Seq::empty()
    } else if trim(ps.last()).len() > 0 {
        keep_trimmed(ps.drop_last()).push(trim(ps.last()))
    } else {
        keep_trimmed(ps.drop_last())
    }
}

/// A comma-separated list: split at `,`, each item trimmed, empty items dropped.
pub open spec fn split_csv_spec(s: Seq<char>) -> Seq<Seq<char>> {
    keep_trimmed(csv_pieces(s))
}

/// Splits a comma-separated list, trimming items and dropping empty ones.
pub fn split_csv(s: &str) -> (items: Vec<String>)
    ensures
        views(items@) == split_csv_spec(s@),
{
    let v = chars_of(s);
    let mut items: Vec<String> = Vec::new();
    let mut cur: Vec<char> = Vec::new();
    let mut i: usize = 0;
    while i < v.len()
        invariant
            i <= v.len(),
            v@ == s@,
            views(items@) == keep_trimmed(csv_state(v@.take(i as int)).0),
            cur@ == csv_state(v@.take(i as int)).1,
        decreases v.len() - i,
    {
        proof {
            assert(v@.take(i as int + 1).drop_last() =~= v@.take(i as int));
        }
        if v[i] == ',' {
            let ghost piece = cur@;
            let ghost before = views(items@);
            let ghost done = csv_state(v@.take(i as int)).0;
            let t = trim_chars(&cur);
            if t.len() > 0 {
                items.push(string_of(&t));
                assert(views(items@) =~= before.push(t@));
            }
            cur = Vec::new();
            proof {
                assert(done.push(piece).drop_last() =~= done);
            }
        } else {
            cur.push(v[i]);
        }
        i = i + 1;
    }
    assert(v@.take(v@.len() as int) =~= v@);
    let ghost before = views(items@);
    let ghost done = csv_state(v@).0;
    let t = trim_chars(&cur);
    if t.len() > 0 {
        items.push(string_of(&t));
        assert(views(items@) =~= before.push(t@));
    }
    proof {
        assert(done.push(cur@).drop_last() =~= done);
    }
    items
}

/// Pieces never hold a comma.
proof fn lemma_csv_state_no_comma(s: Seq<char>)
    ensures
        !csv_state(s).1.contains(','),
        forall|k: int|
            0 <= k < csv_state(s).0.len() ==> !(#[trigger] csv_state(s).0[k]).contains(','),
    decreases s.len(),
{
    if s.len() > 0 {
        lemma_csv_state_no_comma(s.drop_last());
        let (done, cur) = csv_state(s.drop_last());
        if s.last() == ',' {
            let d = done.push(cur);
            assert forall|k: int| 0 <= k < d.len() implies !(#[trigger] d[k]).contains(',') by {
                if k < done.len() {
                    assert(d[k] == done[k]);
                }
            }
        } else {
            let c = cur.push(s.last());
            assert forall|x: int| 0 <= x < c.len() implies c[x] != ',' by {
                if x < cur.len() {
                    assert(c[x] == cur[x]);
                }
            }
        }
    }
}

proof fn lemma_trim_start_no_comma(s: Seq<char>)
    requires
        !s.contains(','),
    ensures
        !trim_start(s).contains(','),
        trim_start(s).len() > 0 ==> !is_ws_spec(trim_start(s)[0]),
    decreases s.len(),
{
    if s.len() > 0 && is_ws_spec(s[0]) {
        let t = s.drop_first();
        assert forall|x: int| 0 <= x < t.len() implies t[x] != ',' by {
            assert(t[x] == s[x + 1]);
        }
        lemma_trim_start_no_comma(t);
    }
}

proof fn lemma_trim_end_no_comma(s: Seq<char>)
    requires
        !s.contains(','),
        s.len() > 0 ==> !is_ws_spec(s[0]),
    ensures
        !trim_end(s).contains(','),
        trim_end(s).len() > 0 ==> !is_ws_spec(trim_end(s)[0]) && !is_ws_spec(trim_end(s).last()),
        trim_end(s).len() > 0 ==> trim_end(s)[0] == s[0],
    decreases s.len(),
{
    if s.len() > 0 && is_ws_spec(s.last()) {
        let t = s.drop_last();
        assert forall|x: int| 0 <= x < t.len() implies t[x] != ',' by {
            assert(t[x] == s[x]);
        }
        if t.len() > 0 {
            assert(t[0] == s[0]);
        }
        lemma_trim_end_no_comma(t);
    }
}

/// Items of a comma-separated list are non-empty, hold no comma, and start
/// and end with a non-whitespace character.
pub proof fn lemma_split_csv_items(s: Seq<char>)
    ensures
        forall|k: int|
            0 <= k < split_csv_spec(s).len() ==> {
                let t = #[trigger] split_csv_spec(s)[k];
                &&& t.len() > 0
                &&& !t.contains(',')
                &&& !is_ws_spec(t[0])
                &&& !is_ws_spec(t.last())
            },
{
    lemma_csv_state_no_comma(s);
    let ps = csv_pieces(s);
    assert forall|k: int| 0 <= k < ps.len() implies !(#[trigger] ps[k]).contains(',') by {
        if k < csv_state(s).0.len() {
            assert(ps[k] == csv_state(s).0[k]);
        }
    }
    lemma_keep_trimmed_items(ps);
}

proof fn lemma_keep_trimmed_items(ps: Seq<Seq<char>>)
    requires
        forall|k: int| 0 <= k < ps.len() ==> !(#[trigger] ps[k]).contains(','),
    ensures
        forall|k: int|
            0 <= k < keep_trimmed(ps).len() ==> {
                let t = #[trigger] keep_trimmed(ps)[k];
                &&& t.len() > 0
                &&& !t.contains(',')
                &&& !is_ws_spec(t[0])
                &&& !is_ws_spec(t.last())
            },
    decreases ps.len(),
{
    if ps.len() > 0 {
        let p = ps.drop_last();
        assert forall|k: int| 0 <= k < p.len() implies !(#[trigger] p[k]).contains(',') by {
            assert(p[k] == ps[k]);
        }
        lemma_keep_trimmed_items(p);
        let last = ps.last();
        assert(!ps[ps.len() - 1].contains(','));
        lemma_trim_start_no_comma(last);
        lemma_trim_end_no_comma(trim_start(last));
        let r = keep_trimmed(ps);
        let q = keep_trimmed(p);
        assert forall|k: int| 0 <= k < r.len() implies {
            let t = #[trigger] r[k];
            &&& t.len() > 0
            &&& !t.contains(',')
            &&& !is_ws_spec(t[0])
            &&& !is_ws_spec(t.last())
        } by {
            if k < q.len() {
                assert(r[k] == q[k]);
            }
        }
    }
}

// ---------------------------------------------------------------------------
// Error messages
// ---------------------------------------------------------------------------

/// `str::to_lowercase`: the Unicode lowercase mapping of a text.
pub uninterp spec fn unicode_lower(s: Seq<char>) -> Seq<char>;

/// Every character is ASCII.
pub open spec fn all_ascii(s: Seq<char>) -> bool {
    forall|i: int| 0 <= i < s.len() ==> (s[i] as u32) < 128
}

/// Calls `str::to_lowercase`.  The contract names the result (the Unicode
/// lowercase mapping of the argument, a function of it alone) and states
/// it on ASCII texts, where only `A`..`Z` change, to `a`..`z`.  The mapping
/// of other characters is not stated.
#[verifier::external_body]
fn lowercase(s: &str) -> (r: String)
    ensures
        r@ == unicode_lower(s@),
        all_ascii(s@) ==> r@ == ascii_lower(s@),
{
    s.to_lowercase()
}

/// The lowercase form of a text: on ASCII texts `A`..`Z` made `a`..`z`,
/// otherwise the Unicode lowercase mapping.
pub open spec fn lowered(s: Seq<char>) -> Seq<char> {
    if all_ascii(s) {
        ascii_lower(s)
    } else {
        unicode_lower(s)
    }
}

pub open spec fn busy_database_message() -> Seq<char> {
    "数据库忙碌（可能与 API 进程同时写入 novels.db）；请稍后重试，MVP 不提供多写合并。"@
}

/// The Chinese summary of an error shown to the user.  A locked or busy
/// database gets a dedicated hint.
pub open spec fn story_error_summary_spec(e: StoryError) -> Seq<char> {
    match e {
        StoryError::Database(msg) => {
            let lower = lowered(msg@);
            if has_sub(lower, "database is locked"@) || has_sub(lower, "busy"@) {
                busy_database_message()
            } else {
                "数据库错误："@ + msg@
            }
        },
        StoryError::SceneNotFound(id) => "未找到场景："@ + tagged_uuid("SceneId"@, id.0),
        StoryError::CharacterNotFound(id) => "未找到角色："@ + tagged_uuid("CharacterId"@, id.0),
        StoryError::NotSceneParticipant(c, s) => "角色 "@ + tagged_uuid("CharacterId"@, c.0)
            + " 不是场景 "@ + tagged_uuid("SceneId"@, s.0) + " 的参与者"@,
        StoryError::InvalidParticipant(m) => "无效参与者："@ + m@,
        StoryError::InvalidNarrationContext(m) => "叙述上下文无效："@ + m@,
        StoryError::Llm { kind, message } => "LLM 调用失败："@ + message@,
        StoryError::InvalidVocabularySelection(m) => "无效词汇选择："@ + m@,
        StoryError::VocabularyLoad(m) => "词库加载失败："@ + m@,
        StoryError::RelationshipCandidateNotFound(id) => "未找到关系候选："@ + tagged_uuid(
            "RelationshipCandidateId"@,
            id.0,
        ),
        StoryError::RelationshipCandidateResolved(id) => "关系候选已确认："@ + tagged_uuid(
            "RelationshipCandidateId"@,
            id.0,
        ),
        StoryError::InvalidRelationshipCandidate(m) => "无效关系候选："@ + m@,
    }
}

fn cat2(a: &str, b: &str) -> (s: String)
    ensures
        s@ == a@ + b@,
{
    let mut s = owned(a);
    push_str(&mut s, b);
    s
}

/// Maps an error to its Chinese summary.
pub fn story_error_summary(e: &StoryError) -> (s: String)
    ensures
        s@ == story_error_summary_spec(*e),
{
    match e {
        StoryError::Database(msg) => {
            let lower = lowercase(msg.as_str());
            if str_contains(lower.as_str(), "database is locked") || str_contains(
                lower.as_str(),
                "busy",
            ) {
                owned("数据库忙碌（可能与 API 进程同时写入 novels.db）；请稍后重试，MVP 不提供多写合并。")
            } else {
                cat2("数据库错误：", msg.as_str())
            }
        },
        StoryError::SceneNotFound(id) => cat2("未找到场景：", id.debug_text().as_str()),
        StoryError::CharacterNotFound(id) => cat2("未找到角色：", id.debug_text().as_str()),
        StoryError::NotSceneParticipant(c, sc) => {
            let mut s = cat2("角色 ", c.debug_text().as_str());
            push_str(&mut s, " 不是场景 ");
            push_str(&mut s, sc.debug_text().as_str());
            push_str(&mut s, " 的参与者");
            s
        },
        StoryError::InvalidParticipant(m) => cat2("无效参与者：", m.as_str()),
        StoryError::InvalidNarrationContext(m) => cat2("叙述上下文无效：", m.as_str()),
        StoryError::Llm { kind: _, message } => cat2("LLM 调用失败：", message.as_str()),
        StoryError::InvalidVocabularySelection(m) => cat2("无效词汇选择：", m.as_str()),
        StoryError::VocabularyLoad(m) => cat2("词库加载失败：", m.as_str()),
        StoryError::RelationshipCandidateNotFound(id) => cat2(
            "未找到关系候选：",
            id.debug_text().as_str(),
        ),
        StoryError::RelationshipCandidateResolved(id) => cat2(
            "关系候选已确认：",
            id.debug_text().as_str(),
        ),
        StoryError::InvalidRelationshipCandidate(m) => cat2("无效关系候选：", m.as_str()),
    }
}

// ---------------------------------------------------------------------------
// Outcome summaries
// ---------------------------------------------------------------------------

/// Status, summary and next-step suggestions of a command.
#[derive(Debug, Clone)]
pub struct Outcome {
    pub status: Status,
    pub summary: String,
    pub next: Vec<String>,
}

pub open spec fn scene_derive_summary_spec(ok: nat, err: nat, using_mock: bool) -> Seq<char> {
    if err > 0 {
        "推导完成："@ + decimal(ok) + " 成功，"@ + decimal(err) + " 失败"@
    } else if using_mock {
        "推导完成："@ + decimal(ok) + " 个角色（非生产质量）"@
    } else {
        "推导完成："@ + decimal(ok) + " 个角色"@
    }
}

/// Outcome of deriving every participant of a scene, from the number of
/// successes and failures: an error only when nothing succeeded; a warning
/// on mock generators; "narrate" is suggested once something succeeded.
pub fn scene_derive_outcome(ok_count: usize, err_count: usize, using_mock: bool) -> (o: Outcome)
    ensures
        o.summary@ == scene_derive_summary_spec(ok_count as nat, err_count as nat, using_mock),
        o.status == (if err_count > 0 && ok_count == 0 {
            Status::Error
        } else if using_mock {
            Status::Warning
        } else {
            Status::Success
        }),
        ok_count > 0 ==> views(o.next@) == seq!["narrate"@],
        ok_count == 0 ==> o.next@.len() == 0,
{
    let mut summary = owned("推导完成：");
    push_decimal(&mut summary, ok_count);
    if err_count > 0 {
        push_str(&mut summary, " 成功，");
        push_decimal(&mut summary, err_count);
        push_str(&mut summary, " 失败");
    } else if using_mock {
        push_str(&mut summary, " 个角色（非生产质量）");
    } else {
        push_str(&mut summary, " 个角色");
    }
    let status = if err_count > 0 && ok_count == 0 {
        Status::Error
    } else if using_mock {
        Status::Warning
    } else {
        Status::Success
    };
    let mut next: Vec<String> = Vec::new();
    if ok_count > 0 {
        next.push(owned("narrate"));
        assert(views(next@) =~= seq!["narrate"@]);
    }
    Outcome { status, summary, next }
}

/// Summary of deriving one character.
pub fn character_derive_summary(using_mock: bool) -> (s: String)
    ensures
        s@ == (if using_mock {
            "推导完成（非生产质量）"@
        } else {
            "推导完成"@
        }),
{
    if using_mock {
        owned("推导完成（非生产质量）")
    } else {
        owned("推导完成")
    }
}

/// Summary of a narration.
pub fn narrate_summary(using_mock: bool) -> (s: String)
    ensures
        s@ == (if using_mock {
            "正文已生成（非生产质量）"@
        } else {
            "正文已生成"@
        }),
{
    if using_mock {
        owned("正文已生成（非生产质量）")
    } else {
        owned("正文已生成")
    }
}

/// Status of a generation command: a warning when mock generators are used.
pub fn generation_status(using_mock: bool) -> (s: Status)
    ensures
        s == (if using_mock {
            Status::Warning
        } else {
            Status::Success
        }),
{
    if using_mock {
        Status::Warning
    } else {
        Status::Success
    }
}

/// Summary of the session context command.
pub fn context_summary(has_scene: bool, has_character: bool) -> (s: String)
    ensures
        s@ == (if !has_scene && !has_character {
            "无上下文"@
        } else {
            "当前上下文"@
        }),
{
    if !has_scene && !has_character {
        owned("无上下文")
    } else {
        owned("当前上下文")
    }
}

/// Preview of a memory: the first 40 characters, with `…` when cut.
pub open spec fn memory_preview_spec(content: Seq<char>) -> Seq<char> {
    if content.len() > 40 {
        content.take(40).push('…')
    } else {
        content
    }
}

pub fn memory_preview(content: &str) -> (s: String)
    ensures
        s@ == memory_preview_spec(content@),
{
    let v = chars_of(content);
    if v.len() > 40 {
        let mut p = truncate_vec(&v, 40);
        p.push('…');
        p
    } else {
        owned(content)
    }
}

} // verus!
