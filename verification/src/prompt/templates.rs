//! Prompt templates: the fixed system prompt and the deterministic user
//! prompts for derivation and narration.
use vstd::prelude::*;
use crate::models::candidate::CandidateView;
use crate::models::VocabularyCandidate;
use crate::text_map::TextMap;
use crate::text::{decimal, join, join_strings, owned, push_decimal, push_str, views};

verus! {

// ---------------------------------------------------------------------------
// Candidates grouped by category
// ---------------------------------------------------------------------------

/// The view of a category's candidates.
pub open spec fn candidate_views(v: Seq<VocabularyCandidate>) -> Seq<CandidateView> {
    v.map_values(|c: VocabularyCandidate| c@)
}

/// Candidate fragments grouped by category, categories in increasing
/// code-point order and each present once.
pub type CandidatesBySense = TextMap<Vec<VocabularyCandidate>>;

// ---------------------------------------------------------------------------
// System prompt
// ---------------------------------------------------------------------------

/// The fixed system prompt: role and hard rules.
pub const SYSTEM_PROMPT: &'static str = "你是专注于小说角色感知与叙事编排的专业 AI 引擎。

【硬性行为准则】
1. 严禁输出任何开放抒情或因果说明文套话（禁止使用“由于”、“因此”、“从而”、“因为”等过渡词）。
2. 所有选取的感官词汇必须严格来自提供的【蒸馏候选词库】，严禁发明不在词库中的 ID。
3. 剧情原因必须严格填入指定格式的短事实槽位（PlotReasonSlot），字符限长 20 字以内。
4. 动作必须使用舞台剧提示格式（StructuredAction）。
5. 必须且只能输出严格符合 JSON Schema 的 JSON 对象，禁止包含任何 Markdown 标记之外的解释性文字。";

/// The fixed system prompt.
pub fn build_system_prompt() -> (s: String)
    ensures
        s@ == SYSTEM_PROMPT@,
{
    owned(SYSTEM_PROMPT)
}

// ---------------------------------------------------------------------------
// Derivation prompt
// ---------------------------------------------------------------------------

/// Inputs of the derivation prompt.
#[derive(Debug, Clone)]
pub struct DerivationPromptInput<'a> {
    pub character_name: &'a str,
    pub character_tags: &'a [String],
    pub character_skills: &'a [String],
    pub scene_objective_event: &'a str,
    pub memories: &'a [String],
    pub candidates_by_sense: &'a CandidatesBySense,
}

/// The output contract appended to the derivation prompt.
pub const DERIVATION_OUTPUT_CONTRACT: &'static str = "
【输出 JSON 契约要求】:
请严格返回如下 JSON 结构，不允许添加任何多余文字：
{
  \"sensory_analysis\": \"先分析此场景的感官焦点（中文，50字以内），再选择 ID\",
  \"sensations\": {
    \"visual_ids\": [\"...\"],
    \"auditory_ids\": [\"...\"],
    \"olfactory_ids\": [\"...\"],
    \"tactile_ids\": [\"...\"],
    \"gustatory_ids\": [\"...\"],
    \"emotion_ids\": [\"...\"],
    \"gesture_ids\": [\"...\"],
    \"atmosphere_ids\": [\"...\"]
  },
  \"new_memory\": {
    \"content\": \"简洁事实记忆，30字以内\",
    \"source\": \"witnessed\",
    \"certainty\": \"certain\"
  },
  \"plot_development\": [
    {
      \"kind\": \"conflict_escalated\",
      \"reason\": {
        \"kind\": \"observed\",
        \"detail\": \"短事实原因，15字以内\"
      }
    }
  ],
  \"relationship_candidates\": []
}
";

/// `label` followed by the items joined with `", "` and a newline, or
/// nothing when there are no items.
pub open spec fn labelled_list(label: Seq<char>, items: Seq<Seq<char>>) -> Seq<char> {
    if items.len() == 0 {
        Seq::empty()
    } else {
        label + join(items, ", "@) + "\n"@
    }
}

/// The first `n` items as a numbered list: `"1. <item>\n"`, ...
pub open spec fn numbered(items: Seq<Seq<char>>, n: int) -> Seq<char>
    decreases n,
{
    if n <= 0 {
        Seq::empty()
    } else {
        numbered(items, n - 1) + decimal(n as nat) + ". "@ + items[n - 1] + "\n"@
    }
}

/// The memories block: a heading, the numbered memories and a blank line,
/// or nothing when there are no memories.
pub open spec fn memories_block(mems: Seq<Seq<char>>) -> Seq<char> {
    if mems.len() == 0 {
        Seq::empty()
    } else {
        "【角色近期历史记忆】:\n"@ + numbered(mems, mems.len() as int) + "\n"@
    }
}

/// One candidate line: id, text and tags.
pub open spec fn candidate_line(c: CandidateView) -> Seq<char> {
    "  - ID: \""@ + c.0 + "\" | 文本: \""@ + c.2 + "\" | 标签: ["@ + join(c.3, ", "@) + "]\n"@
}

/// The lines of the first `n` candidates.
pub open spec fn candidate_lines(cs: Seq<CandidateView>, n: int) -> Seq<char>
    decreases n,
{
    if n <= 0 {
        Seq::empty()
    } else {
        candidate_lines(cs, n - 1) + candidate_line(cs[n - 1])
    }
}

/// The first `n` categories: a heading per category followed by its lines.
pub open spec fn group_blocks(gs: Seq<(Seq<char>, Vec<VocabularyCandidate>)>, n: int) -> Seq<char>
    decreases n,
{
    if n <= 0 {
        Seq::empty()
    } else {
        group_blocks(gs, n - 1) + "[感官类别: "@ + gs[n - 1].0 + "]\n"@ + candidate_lines(
            candidate_views(gs[n - 1].1@),
            gs[n - 1].1@.len() as int,
        )
    }
}

/// The derivation prompt for the given inputs.
pub open spec fn derivation_prompt_spec(
    name: Seq<char>,
    tags: Seq<Seq<char>>,
    skills: Seq<Seq<char>>,
    event: Seq<char>,
    mems: Seq<Seq<char>>,
    groups: Seq<(Seq<char>, Vec<VocabularyCandidate>)>,
) -> Seq<char> {
    "【目标角色】: "@ + name + "\n"@ + labelled_list("【角色性格/身份标签】: "@, tags)
        + labelled_list("【角色技能】: "@, skills) + "【当前场景客观事件】: "@ + event + "\n\n"@
        + memories_block(mems) + "【蒸馏感官与情感候选词库 (Candidate Vocabulary)】:\n"@
        + group_blocks(groups, groups.len() as int) + DERIVATION_OUTPUT_CONTRACT@
}

/// The strings of a slice, copied into a vector.
fn slice_strings(v: &[String]) -> (r: Vec<String>)
    ensures
        views(r@) == views(v@),
{
    let mut r: Vec<String> = Vec::new();
    let mut i: usize = 0;
    while i < v.len()
        invariant
            i <= v.len(),
            r@.len() == i,
            forall|j: int| 0 <= j < i ==> (#[trigger] r@[j])@ == v@[j]@,
        decreases v.len() - i,
    {
        r.push(owned(v[i].as_str()));
        i = i + 1;
    }
    assert(views(r@) =~= views(v@));
    r
}

fn push_labelled_list(s: &mut String, label: &str, items: &[String])
    ensures
        final(s)@ == old(s)@ + labelled_list(label@, views(items@)),
{
    if items.len() > 0 {
        push_str(s, label);
        let joined = join_strings(&slice_strings(items), ", ");
        push_str(s, joined.as_str());
        push_str(s, "\n");
    } else {
        assert(old(s)@ + Seq::<char>::empty() =~= old(s)@);
    }
}

fn push_memories(s: &mut String, mems: &[String])
    ensures
        final(s)@ == old(s)@ + memories_block(views(mems@)),
{
    let ghost m = views(mems@);
    if mems.len() == 0 {
        assert(old(s)@ + Seq::<char>::empty() =~= old(s)@);
        return;
    }
    push_str(s, "【角色近期历史记忆】:\n");
    let ghost start = s@;
    let mut i: usize = 0;
    while i < mems.len()
        invariant
            i <= mems.len(),
            m == views(mems@),
            s@ == start + numbered(m, i as int),
        decreases mems.len() - i,
    {
        push_decimal(s, i + 1);
        push_str(s, ". ");
        push_str(s, mems[i].as_str());
        push_str(s, "\n");
        proof {
            assert(s@ =~= start + numbered(m, i as int + 1));
        }
        i = i + 1;
    }
    push_str(s, "\n");
    assert(s@ =~= old(s)@ + memories_block(m));
}

fn push_candidate_lines(s: &mut String, cs: &Vec<VocabularyCandidate>)
    ensures
        final(s)@ == old(s)@ + candidate_lines(candidate_views(cs@), cs@.len() as int),
{
    let ghost cv = candidate_views(cs@);
    let mut i: usize = 0;
    assert(old(s)@ + Seq::<char>::empty() =~= old(s)@);
    while i < cs.len()
        invariant
            i <= cs.len(),
            cv == candidate_views(cs@),
            s@ == old(s)@ + candidate_lines(cv, i as int),
        decreases cs.len() - i,
    {
        let c = &cs[i];
        push_str(s, "  - ID: \"");
        push_str(s, c.id.as_str());
        push_str(s, "\" | 文本: \"");
        push_str(s, c.text.as_str());
        push_str(s, "\" | 标签: [");
        let tags = join_strings(&c.tags, ", ");
        push_str(s, tags.as_str());
        push_str(s, "]\n");
        proof {
            assert(cv[i as int] == c@);
            assert(s@ =~= old(s)@ + candidate_lines(cv, i as int + 1));
        }
        i = i + 1;
    }
}

fn push_groups(s: &mut String, by_sense: &CandidatesBySense)
    ensures
        final(s)@ == old(s)@ + group_blocks(by_sense@, by_sense@.len() as int),
{
    let gs = by_sense.entries();
    let ghost gv = by_sense@;
    let mut i: usize = 0;
    assert(old(s)@ + Seq::<char>::empty() =~= old(s)@);
    while i < gs.len()
        invariant
            i <= gs.len(),
            gv == by_sense@,
            gs@.map_values(|e: (String, Vec<VocabularyCandidate>)| (e.0@, e.1)) == gv,
            s@ == old(s)@ + group_blocks(gv, i as int),
        decreases gs.len() - i,
    {
        let ghost before = s@;
        push_str(s, "[感官类别: ");
        push_str(s, gs[i].0.as_str());
        push_str(s, "]\n");
        let ghost mid = s@;
        push_candidate_lines(s, &gs[i].1);
        proof {
            assert(gv[i as int] == (gs@[i as int].0@, gs@[i as int].1));
            assert(s@ =~= old(s)@ + group_blocks(gv, i as int + 1));
        }
        i = i + 1;
    }
}

/// The derivation prompt: the character and the scene, the recent
/// memories, the candidate vocabulary by category (categories in increasing
/// order), and the output contract.
pub fn build_derivation_prompt(input: &DerivationPromptInput<'_>) -> (s: String)
    ensures
        s@ == derivation_prompt_spec(
            input.character_name@,
            views(input.character_tags@),
            views(input.character_skills@),
            input.scene_objective_event@,
            views(input.memories@),
            input.candidates_by_sense@,
        ),
{
    let mut s = owned("【目标角色】: ");
    push_str(&mut s, input.character_name);
    push_str(&mut s, "\n");
    push_labelled_list(&mut s, "【角色性格/身份标签】: ", input.character_tags);
    push_labelled_list(&mut s, "【角色技能】: ", input.character_skills);
    push_str(&mut s, "【当前场景客观事件】: ");
    push_str(&mut s, input.scene_objective_event);
    push_str(&mut s, "\n\n");
    push_memories(&mut s, input.memories);
    push_str(&mut s, "【蒸馏感官与情感候选词库 (Candidate Vocabulary)】:\n");
    push_groups(&mut s, input.candidates_by_sense);
    push_str(&mut s, DERIVATION_OUTPUT_CONTRACT);
    s
}

// ---------------------------------------------------------------------------
// Narration prompt
// ---------------------------------------------------------------------------

/// Inputs of the narration prompt.
#[derive(Debug, Clone)]
pub struct NarrationPromptInput<'a> {
    pub scene_objective_event: &'a str,
    /// `(character name, action text)`.
    pub character_actions: &'a [(String, String)],
    /// `(character name, rendered reason)`.
    pub plot_reasons: &'a [(String, String)],
    /// Source sentences the prose must contain.
    pub selected_quotes: &'a [String],
}

/// The views of a slice of string pairs.
pub open spec fn pair_views(v: Seq<(String, String)>) -> Seq<(Seq<char>, Seq<char>)> {
    v.map_values(|p: (String, String)| (p.0@, p.1@))
}

/// The first `n` pairs as lines `"- <name>: <text>\n"`.
pub open spec fn pair_lines(ps: Seq<(Seq<char>, Seq<char>)>, n: int) -> Seq<char>
    decreases n,
{
    if n <= 0 {
        Seq::empty()
    } else {
        pair_lines(ps, n - 1) + "- "@ + ps[n - 1].0 + ": "@ + ps[n - 1].1 + "\n"@
    }
}

/// The first `n` quotes as lines `"- \"<quote>\"\n"`.
pub open spec fn quote_lines(qs: Seq<Seq<char>>, n: int) -> Seq<char>
    decreases n,
{
    if n <= 0 {
        Seq::empty()
    } else {
        quote_lines(qs, n - 1) + "- \""@ + qs[n - 1] + "\"\n"@
    }
}

/// A heading with its lines and a blank line, or nothing without lines.
pub open spec fn section(count: nat, heading: Seq<char>, lines: Seq<char>) -> Seq<char> {
    if count == 0 {
        Seq::empty()
    } else {
        heading + lines + "\n"@
    }
}

/// The closing instruction of the narration prompt.
pub const NARRATION_CLOSING: &'static str = "请结合以上硬性词句与动作提示，组装为高密度、无 AI 套话的小说正文段落。\n";

/// The narration prompt for the given inputs.
pub open spec fn narration_prompt_spec(
    event: Seq<char>,
    actions: Seq<(Seq<char>, Seq<char>)>,
    reasons: Seq<(Seq<char>, Seq<char>)>,
    quotes: Seq<Seq<char>>,
) -> Seq<char> {
    "【场景事件】: "@ + event + "\n\n"@ + section(
        actions.len(),
        "【角色动作列表】:\n"@,
        pair_lines(actions, actions.len() as int),
    ) + section(reasons.len(), "【剧情转折原因槽】:\n"@, pair_lines(reasons, reasons.len() as int))
        + section(
        quotes.len(),
        "【必须植入的原著描写词句库】:\n"@,
        quote_lines(quotes, quotes.len() as int),
    ) + NARRATION_CLOSING@
}

fn push_pairs(s: &mut String, heading: &str, ps: &[(String, String)])
    ensures
        final(s)@ == old(s)@ + section(
            ps@.len(),
            heading@,
            pair_lines(pair_views(ps@), ps@.len() as int),
        ),
{
    let ghost pv = pair_views(ps@);
    if ps.len() == 0 {
        assert(old(s)@ + Seq::<char>::empty() =~= old(s)@);
        return;
    }
    push_str(s, heading);
    let ghost start = s@;
    let mut i: usize = 0;
    while i < ps.len()
        invariant
            i <= ps.len(),
            pv == pair_views(ps@),
            s@ == start + pair_lines(pv, i as int),
        decreases ps.len() - i,
    {
        push_str(s, "- ");
        push_str(s, ps[i].0.as_str());
        push_str(s, ": ");
        push_str(s, ps[i].1.as_str());
        push_str(s, "\n");
        proof {
            assert(s@ =~= start + pair_lines(pv, i as int + 1));
        }
        i = i + 1;
    }
    push_str(s, "\n");
    assert(s@ =~= old(s)@ + section(ps@.len(), heading@, pair_lines(pv, ps@.len() as int)));
}

fn push_quotes(s: &mut String, qs: &[String])
    ensures
        final(s)@ == old(s)@ + section(
            qs@.len(),
            "【必须植入的原著描写词句库】:\n"@,
            quote_lines(views(qs@), qs@.len() as int),
        ),
{
    let ghost qv = views(qs@);
    if qs.len() == 0 {
        assert(old(s)@ + Seq::<char>::empty() =~= old(s)@);
        return;
    }
    push_str(s, "【必须植入的原著描写词句库】:\n");
    let ghost start = s@;
    let mut i: usize = 0;
    while i < qs.len()
        invariant
            i <= qs.len(),
            qv == views(qs@),
            s@ == start + quote_lines(qv, i as int),
        decreases qs.len() - i,
    {
        push_str(s, "- \"");
        push_str(s, qs[i].as_str());
        push_str(s, "\"\n");
        proof {
            assert(s@ =~= start + quote_lines(qv, i as int + 1));
        }
        i = i + 1;
    }
    push_str(s, "\n");
    assert(s@ =~= old(s)@ + section(
        qs@.len(),
        "【必须植入的原著描写词句库】:\n"@,
        quote_lines(qv, qs@.len() as int),
    ));
}

/// The narration prompt: the scene event, then (each only when non-empty)
/// the character actions, the plot reasons and the quotes to embed, and the
/// closing instruction.
pub fn build_narration_prompt(input: &NarrationPromptInput<'_>) -> (s: String)
    ensures
        s@ == narration_prompt_spec(
            input.scene_objective_event@,
            pair_views(input.character_actions@),
            pair_views(input.plot_reasons@),
            views(input.selected_quotes@),
        ),
{
    let mut s = owned("【场景事件】: ");
    push_str(&mut s, input.scene_objective_event);
    push_str(&mut s, "\n\n");
    push_pairs(&mut s, "【角色动作列表】:\n", input.character_actions);
    push_pairs(&mut s, "【剧情转折原因槽】:\n", input.plot_reasons);
    push_quotes(&mut s, input.selected_quotes);
    push_str(&mut s, NARRATION_CLOSING);
    s
}

} // verus!
