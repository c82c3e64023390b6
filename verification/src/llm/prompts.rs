//! The prompts sent to the derivation model: the system instructions, the
//! derivation prompt and the tag-selection prompt.
use vstd::prelude::*;
use crate::models::action::render_reason_spec;
use crate::models::sensation::{id_texts, sense_list, sense_name, sense_names};
use crate::models::{
    Certainty, Character, CharacterMemory, MemorySource, PlotDevelopmentKind, SensorySelection,
    StoredPlotDevelopment, VocabularyCandidate,
};
use crate::sort::{lex_le, sort_strings, sorted_spec, stable_text_order, text_order_of};
use crate::text::{join, join_strings, owned, push_str, views};
use super::generator::{ContextTagRequest, DerivationRequest};

verus! {

/// System instructions of the derivation model.
pub const DERIVATION_PREAMBLE: &'static str = "你是小说人物视角推导器。\n你的任务：根据角色状态和场景事件，从候选词汇 ID 中为八个感官类别各选择合适的描写片段。\n约束：\n- 只能从候选词汇 ID 中选择，不得造词\n- 每类感官选 0-3 个最贴合场景的词汇\n- 依据角色性格、记忆和场景事件做选择\n- 记忆应反映角色对场景的主观反应\n- 剧情发展应自然承接已有线索";

/// System instructions of the tag-selection model.
pub const TAG_PREAMBLE: &'static str = "你是小说场景上下文标签选择器。\n你的任务：从可用标签中选择与本场景最相关的标签。\n约束：\n- 只能从可用标签列表中选择，不得造标签\n- 选 3-8 个最相关的标签\n- 依据角色性格、场景事件和已有剧情做选择";

/// The format example closing the derivation prompt.
pub const DERIVATION_EXAMPLES: &'static str = "\n示例（仅供参考格式）:\n- 视觉: visual.bloodstain, visual.moonlight\n- 听觉: auditory.footsteps\n- 记忆: 角色注意到地上的血迹，想起之前的冲突\n";

// ---------------------------------------------------------------------------
// Labels
// ---------------------------------------------------------------------------

pub open spec fn memory_source_zh_spec(s: MemorySource) -> Seq<char> {
    match s {
        MemorySource::Witnessed => "亲眼所见"@,
        MemorySource::Heard => "道听途说"@,
        MemorySource::Inferred => "推断"@,
    }
}

pub open spec fn certainty_zh_spec(c: Certainty) -> Seq<char> {
    match c {
        Certainty::Certain => "确定"@,
        Certainty::Suspected => "可能"@,
        Certainty::Uncertain => "不确定"@,
    }
}

pub open spec fn plot_kind_zh_spec(k: PlotDevelopmentKind) -> Seq<char> {
    match k {
        PlotDevelopmentKind::SuspicionRaised => "产生怀疑"@,
        PlotDevelopmentKind::ConflictEscalated => "冲突升级"@,
        PlotDevelopmentKind::GoalChanged => "目标改变"@,
        PlotDevelopmentKind::RelationshipShifted => "关系变化"@,
        PlotDevelopmentKind::NewClue => "新线索"@,
    }
}

/// The Chinese label of a memory source.
pub fn memory_source_zh(source: MemorySource) -> (s: &'static str)
    ensures
        s@ == memory_source_zh_spec(source),
{
    match source {
        MemorySource::Witnessed => "亲眼所见",
        MemorySource::Heard => "道听途说",
        MemorySource::Inferred => "推断",
    }
}

/// The Chinese label of a certainty.
pub fn certainty_zh(certainty: Certainty) -> (s: &'static str)
    ensures
        s@ == certainty_zh_spec(certainty),
{
    match certainty {
        Certainty::Certain => "确定",
        Certainty::Suspected => "可能",
        Certainty::Uncertain => "不确定",
    }
}

/// The Chinese label of a plot development kind.
pub fn plot_kind_zh(kind: PlotDevelopmentKind) -> (s: &'static str)
    ensures
        s@ == plot_kind_zh_spec(kind),
{
    match kind {
        PlotDevelopmentKind::SuspicionRaised => "产生怀疑",
        PlotDevelopmentKind::ConflictEscalated => "冲突升级",
        PlotDevelopmentKind::GoalChanged => "目标改变",
        PlotDevelopmentKind::RelationshipShifted => "关系变化",
        PlotDevelopmentKind::NewClue => "新线索",
    }
}

// ---------------------------------------------------------------------------
// Previous sensations
// ---------------------------------------------------------------------------

/// One part per non-empty category among the first `n` (field order):
/// `"<category>: <id>, <id>"`.
pub open spec fn sensation_parts(s: SensorySelection, n: int) -> Seq<Seq<char>>
    decreases n,
{
    if n <= 0 {
        Seq::empty()
    } else {
        let prev = sensation_parts(s, n - 1);
        let ids = id_texts(sense_list(s, n - 1));
        if ids.len() == 0 {
            prev
        } else {
            prev.push(sense_names()[n - 1] + ": "@ + join(ids, ", "@))
        }
    }
}

/// The readable summary of a selection, such as
/// `"visual: visual.bloodstain; auditory: auditory.footsteps"`.
pub open spec fn sensation_summary(s: SensorySelection) -> Seq<char> {
    join(sensation_parts(s, 8), "; "@)
}

/// The summary of the previous scene's sensations.
pub fn format_last_sensation(s: &SensorySelection) -> (r: String)
    ensures
        r@ == sensation_summary(*s),
{
    let mut parts: Vec<String> = Vec::new();
    let mut i: usize = 0;
    while i < 8
        invariant
            i <= 8,
            views(parts@) == sensation_parts(*s, i as int),
        decreases 8 - i,
    {
        let ids = s.field(i);
        if ids.len() > 0 {
            let mut texts: Vec<String> = Vec::new();
            let mut k: usize = 0;
            while k < ids.len()
                invariant
                    k <= ids.len(),
                    ids@ == sense_list(*s, i as int),
                    texts@.len() == k,
                    forall|q: int| 0 <= q < k ==> (#[trigger] texts@[q])@ == ids@[q]@,
                decreases ids.len() - k,
            {
                texts.push(ids[k].to_text());
                k = k + 1;
            }
            assert(views(texts@) =~= id_texts(ids@));
            let mut part = owned(sense_name(i));
            push_str(&mut part, ": ");
            let joined = join_strings(&texts, ", ");
            push_str(&mut part, joined.as_str());
            let ghost before = views(parts@);
            parts.push(part);
            assert(views(parts@) =~= before.push(part@));
        } else {
            assert(id_texts(sense_list(*s, i as int)).len() == 0);
        }
        i = i + 1;
    }
    join_strings(&parts, "; ")
}

// ---------------------------------------------------------------------------
// Prompt sections
// ---------------------------------------------------------------------------

/// The character line and the event line.
pub open spec fn character_head(c: Character, event: Seq<char>) -> Seq<char> {
    "人物: "@ + c.name@ + " | 性格: "@ + join(views(c.personality@), "、"@) + " | 技能: "@ + join(
        views(c.skills@),
        "、"@,
    ) + "\n"@ + "客观事件: "@ + event + "\n"@
}

/// One earlier plot development.
pub open spec fn plot_line(p: StoredPlotDevelopment) -> Seq<char> {
    "- kind: "@ + plot_kind_zh_spec(p.development.kind) + " | reason: "@ + render_reason_spec(
        p.development.reason,
    ) + "\n"@
}

/// The lines of the first `n` plot developments.
pub open spec fn plot_lines(ps: Seq<StoredPlotDevelopment>, n: int) -> Seq<char>
    decreases n,
{
    if n <= 0 {
        Seq::empty()
    } else {
        plot_lines(ps, n - 1) + plot_line(ps[n - 1])
    }
}

/// The earlier plot developments, oldest first (the request lists them
/// newest first), or nothing when there are none.
pub open spec fn prior_plots_block(ps: Seq<StoredPlotDevelopment>) -> Seq<char> {
    if ps.len() == 0 {
        Seq::empty()
    } else {
        "此前剧情发展:\n"@ + plot_lines(ps.reverse(), ps.len() as int)
    }
}

/// One known memory: source, certainty and content.
pub open spec fn memory_line(m: CharacterMemory) -> Seq<char> {
    "- ["@ + memory_source_zh_spec(m.source) + "/"@ + certainty_zh_spec(m.certainty) + "] "@
        + m.content@ + "\n"@
}

/// The lines of the first `n` memories.
pub open spec fn memory_lines(ms: Seq<CharacterMemory>, n: int) -> Seq<char>
    decreases n,
{
    if n <= 0 {
        Seq::empty()
    } else {
        memory_lines(ms, n - 1) + memory_line(ms[n - 1])
    }
}

/// The known memories, oldest first (the request lists them newest first),
/// or nothing when there are none.
pub open spec fn known_memories_block(ms: Seq<CharacterMemory>) -> Seq<char> {
    if ms.len() == 0 {
        Seq::empty()
    } else {
        "该人物已知记忆:\n"@ + memory_lines(ms.reverse(), ms.len() as int)
    }
}

/// The previous scene's sensations, when there are any.
pub open spec fn last_sensation_block(last: Option<SensorySelection>) -> Seq<char> {
    match last {
        Some(l) => if sensation_summary(l).len() == 0 {
            Seq::empty()
        } else {
            "上一场景感官: "@ + sensation_summary(l) + "\n"@
        },
        None => Seq::empty(),
    }
}

/// One candidate line, with its tags sorted.
pub open spec fn candidate_line(c: VocabularyCandidate) -> Seq<char> {
    "- id: "@ + c.id@ + " | sense: "@ + c.sense@ + " | text: "@ + c.text@ + " | tags: "@ + join(
        sorted_spec(views(c.tags@)),
        ", "@,
    ) + "\n"@
}

/// The lines of the candidates at positions `ord[0..n]`.
pub open spec fn candidate_lines(cs: Seq<VocabularyCandidate>, ord: Seq<usize>, n: int) -> Seq<
    char,
>
    decreases n,
{
    if n <= 0 {
        Seq::empty()
    } else {
        candidate_lines(cs, ord, n - 1) + candidate_line(cs[ord[n - 1] as int])
    }
}

/// The ids of the candidates.
pub open spec fn candidate_ids(cs: Seq<VocabularyCandidate>) -> Seq<Seq<char>> {
    cs.map_values(|c: VocabularyCandidate| c.id@)
}

/// The candidates sorted stably by id, each with its tags sorted.
pub open spec fn candidate_block(cs: Seq<VocabularyCandidate>) -> Seq<char> {
    candidate_lines(cs, text_order_of(candidate_ids(cs)), cs.len() as int)
}

/// Appends the character line and the event line.
fn push_character_head(s: &mut String, c: &Character, event: &str)
    ensures
        final(s)@ == old(s)@ + character_head(*c, event@),
{
    push_str(s, "人物: ");
    push_str(s, c.name.as_str());
    push_str(s, " | 性格: ");
    let p = join_strings(&c.personality, "、");
    push_str(s, p.as_str());
    push_str(s, " | 技能: ");
    let k = join_strings(&c.skills, "、");
    push_str(s, k.as_str());
    push_str(s, "\n");
    push_str(s, "客观事件: ");
    push_str(s, event);
    push_str(s, "\n");
    assert(final(s)@ =~= old(s)@ + character_head(*c, event@));
}

/// Appends the earlier plot developments, oldest first.
pub fn append_prior_plots(s: &mut String, plots: &Vec<StoredPlotDevelopment>)
    ensures
        final(s)@ == old(s)@ + prior_plots_block(plots@),
{
    if plots.len() == 0 {
        assert(old(s)@ + Seq::<char>::empty() =~= old(s)@);
        return;
    }
    push_str(s, "此前剧情发展:\n");
    let ghost start = s@;
    let ghost rev = plots@.reverse();
    let n = plots.len();
    let mut k: usize = 0;
    while k < n
        invariant
            k <= n,
            n == plots@.len(),
            rev == plots@.reverse(),
            s@ == start + plot_lines(rev, k as int),
        decreases n - k,
    {
        let plot = &plots[n - 1 - k];
        assert(rev[k as int] == *plot);
        push_str(s, "- kind: ");
        push_str(s, plot_kind_zh(plot.development.kind));
        push_str(s, " | reason: ");
        let reason = plot.development.reason.render();
        push_str(s, reason.as_str());
        push_str(s, "\n");
        assert(s@ =~= start + plot_lines(rev, k as int + 1));
        k = k + 1;
    }
}

/// Appends the known memories, oldest first.
fn push_known_memories(s: &mut String, mems: &Vec<CharacterMemory>)
    ensures
        final(s)@ == old(s)@ + known_memories_block(mems@),
{
    if mems.len() == 0 {
        assert(old(s)@ + Seq::<char>::empty() =~= old(s)@);
        return;
    }
    push_str(s, "该人物已知记忆:\n");
    let ghost start = s@;
    let ghost rev = mems@.reverse();
    let n = mems.len();
    let mut k: usize = 0;
    while k < n
        invariant
            k <= n,
            n == mems@.len(),
            rev == mems@.reverse(),
            s@ == start + memory_lines(rev, k as int),
        decreases n - k,
    {
        let m = &mems[n - 1 - k];
        assert(rev[k as int] == *m);
        push_str(s, "- [");
        push_str(s, memory_source_zh(m.source));
        push_str(s, "/");
        push_str(s, certainty_zh(m.certainty));
        push_str(s, "] ");
        push_str(s, m.content.as_str());
        push_str(s, "\n");
        assert(s@ =~= start + memory_lines(rev, k as int + 1));
        k = k + 1;
    }
}

/// Appends the candidates sorted by id, each with its tags sorted.
fn push_candidates(s: &mut String, cs: &Vec<VocabularyCandidate>)
    ensures
        final(s)@ == old(s)@ + candidate_block(cs@),
{
    let mut ids: Vec<String> = Vec::new();
    let mut i: usize = 0;
    while i < cs.len()
        invariant
            i <= cs.len(),
            ids@.len() == i,
            forall|q: int| 0 <= q < i ==> (#[trigger] ids@[q])@ == cs@[q].id@,
        decreases cs.len() - i,
    {
        ids.push(owned(cs[i].id.as_str()));
        i = i + 1;
    }
    assert(views(ids@) =~= candidate_ids(cs@));
    let ord = stable_text_order(&ids);
    let ghost start = s@;
    let mut p: usize = 0;
    while p < ord.len()
        invariant
            p <= ord.len(),
            ord@ == text_order_of(candidate_ids(cs@)),
            ord@.len() == cs@.len(),
            forall|q: int| 0 <= q < ord@.len() ==> (#[trigger] ord@[q]) < cs@.len(),
            s@ == start + candidate_lines(cs@, ord@, p as int),
        decreases ord.len() - p,
    {
        let c = &cs[ord[p]];
        let tags = sort_strings(&c.tags);
        push_str(s, "- id: ");
        push_str(s, c.id.as_str());
        push_str(s, " | sense: ");
        push_str(s, c.sense.as_str());
        push_str(s, " | text: ");
        push_str(s, c.text.as_str());
        push_str(s, " | tags: ");
        let joined = join_strings(&tags, ", ");
        push_str(s, joined.as_str());
        push_str(s, "\n");
        assert(s@ =~= start + candidate_lines(cs@, ord@, p as int + 1));
        p = p + 1;
    }
}

/// The derivation prompt for a request: the character and the event, the
/// earlier plot developments (oldest first), the known memories (oldest
/// first), the previous scene's sensations, the candidates sorted by id with
/// sorted tags, and a format example.
pub fn build_derivation_prompt(req: &DerivationRequest) -> (s: String)
    ensures
        s@ == character_head(req.character, req.scene.objective_event@) + prior_plots_block(
            req.prior_plot_developments@,
        ) + known_memories_block(req.recent_memories@) + last_sensation_block(req.last_sensation)
            + "\n候选词汇:\n"@ + candidate_block(req.candidates@) + DERIVATION_EXAMPLES@,
{
    let mut s = String::new();
    push_character_head(&mut s, &req.character, req.scene.objective_event.as_str());
    append_prior_plots(&mut s, &req.prior_plot_developments);
    push_known_memories(&mut s, &req.recent_memories);
    if let Some(last) = &req.last_sensation {
        let summary = format_last_sensation(last);
        if summary.as_str().unicode_len() > 0 {
            push_str(&mut s, "上一场景感官: ");
            push_str(&mut s, summary.as_str());
            push_str(&mut s, "\n");
        }
    }
    push_str(&mut s, "\n候选词汇:\n");
    push_candidates(&mut s, &req.candidates);
    let ghost block = candidate_block(req.candidates@);
    push_str(&mut s, DERIVATION_EXAMPLES);
    assert(Seq::<char>::empty() + character_head(req.character, req.scene.objective_event@)
        =~= character_head(req.character, req.scene.objective_event@));
    assert(s@ =~= character_head(req.character, req.scene.objective_event@) + prior_plots_block(
        req.prior_plot_developments@,
    ) + known_memories_block(req.recent_memories@) + last_sensation_block(req.last_sensation)
        + "\n候选词汇:\n"@ + block + DERIVATION_EXAMPLES@);
    s
}

/// Drops each element equal to the one before it (`Vec::dedup`).
pub open spec fn dedup_adjacent(s: Seq<Seq<char>>) -> Seq<Seq<char>>
    decreases s.len(),
{
    if s.len() <= 1 {
        s
    } else {
        let d = dedup_adjacent(s.drop_last());
        if s.last() == s[s.len() - 2] {
            d
        } else {
            d.push(s.last())
        }
    }
}

/// The tag-selection prompt for `tags` (already sorted and deduplicated).
pub open spec fn tag_prompt_spec(req: ContextTagRequest, tags: Seq<Seq<char>>) -> Seq<char> {
    character_head(req.character, req.scene.objective_event@) + prior_plots_block(
        req.prior_plot_developments@,
    ) + "可用标签（只能从此列表选择）: "@ + join(tags, ", "@) + "\n"@
}

/// `v` with consecutive repeated elements removed.
fn dedup_strings(v: &Vec<String>) -> (r: Vec<String>)
    ensures
        views(r@) == dedup_adjacent(views(v@)),
{
    let mut r: Vec<String> = Vec::new();
    let mut i: usize = 0;
    while i < v.len()
        invariant
            i <= v.len(),
            views(r@) == dedup_adjacent(views(v@).take(i as int)),
            i > 0 ==> r@.len() > 0 && r@.last()@ == v@[i - 1]@,
        decreases v.len() - i,
    {
        let ghost t = views(v@).take(i as int + 1);
        assert(t.drop_last() =~= views(v@).take(i as int));
        let keep = i == 0 || !crate::text::text_eq(v[i - 1].as_str(), v[i].as_str());
        if keep {
            let ghost before = views(r@);
            r.push(owned(v[i].as_str()));
            assert(views(r@) =~= before.push(v@[i as int]@));
            if i == 0 {
                assert(t =~= seq![v@[0]@]);
            }
        }
        i = i + 1;
    }
    assert(views(v@).take(v@.len() as int) =~= views(v@));
    r
}

/// The tag-selection prompt: the character and the event, the earlier plot
/// developments (oldest first), and the available tags sorted with
/// repetitions removed.
pub fn build_tag_prompt(req: &ContextTagRequest) -> (s: String)
    ensures
        s@ == tag_prompt_spec(*req, dedup_adjacent(sorted_spec(views(req.available_tags@)))),
{
    let sorted = sort_strings(&req.available_tags);
    let tags = dedup_strings(&sorted);
    let mut s = String::new();
    push_character_head(&mut s, &req.character, req.scene.objective_event.as_str());
    append_prior_plots(&mut s, &req.prior_plot_developments);
    push_str(&mut s, "可用标签（只能从此列表选择）: ");
    let joined = join_strings(&tags, ", ");
    push_str(&mut s, joined.as_str());
    push_str(&mut s, "\n");
    assert(s@ =~= tag_prompt_spec(*req, dedup_adjacent(views(sorted@))));
    s
}

/// Each plot development kind is shown by its own Chinese label: suspicion raised 产生怀疑, conflict escalated 冲突升级, goal changed 目标改变, relationship shifted 关系变化, new clue 新线索.
pub proof fn lemma_plot_kind_labels()
    ensures
        plot_kind_zh_spec(PlotDevelopmentKind::SuspicionRaised) == "产生怀疑"@,
        plot_kind_zh_spec(PlotDevelopmentKind::ConflictEscalated) == "冲突升级"@,
        plot_kind_zh_spec(PlotDevelopmentKind::GoalChanged) == "目标改变"@,
        plot_kind_zh_spec(PlotDevelopmentKind::RelationshipShifted) == "关系变化"@,
        plot_kind_zh_spec(PlotDevelopmentKind::NewClue) == "新线索"@,
{
}
/// Each memory source is shown by its own Chinese label: witnessed 亲眼所见, heard 道听途说, inferred 推断.
pub proof fn lemma_memory_source_labels()
    ensures
        memory_source_zh_spec(MemorySource::Witnessed) == "亲眼所见"@,
        memory_source_zh_spec(MemorySource::Heard) == "道听途说"@,
        memory_source_zh_spec(MemorySource::Inferred) == "推断"@,
{
}
/// Each certainty is shown by its own Chinese label: certain 确定, suspected 可能, uncertain 不确定.
pub proof fn lemma_certainty_labels()
    ensures
        certainty_zh_spec(Certainty::Certain) == "确定"@,
        certainty_zh_spec(Certainty::Suspected) == "可能"@,
        certainty_zh_spec(Certainty::Uncertain) == "不确定"@,
{
}

proof fn lemma_dedup_sorted(s: Seq<Seq<char>>)
    requires
        forall|i: int, j: int| 0 <= i < j < s.len() ==> lex_le(s[i], s[j]),
    ensures
        s.len() > 0 ==> dedup_adjacent(s).len() > 0 && dedup_adjacent(s).last() == s.last(),
        forall|x: Seq<char>| dedup_adjacent(s).contains(x) <==> s.contains(x),
        forall|i: int, j: int|
            0 <= i < j < dedup_adjacent(s).len() ==> lex_le(
                #[trigger] dedup_adjacent(s)[i],
                #[trigger] dedup_adjacent(s)[j],
            ) && dedup_adjacent(s)[i] != dedup_adjacent(s)[j],
    decreases s.len(),
{
    if s.len() > 1 {
        let p = s.drop_last();
        let n = s.len() - 1;
        assert forall|i: int, j: int| 0 <= i < j < p.len() implies lex_le(p[i], p[j]) by {
            assert(p[i] == s[i] && p[j] == s[j]);
        }
        lemma_dedup_sorted(p);
        let d = dedup_adjacent(p);
        assert(d.last() == s[n - 1]);
        let same = s.last() == s[n - 1];
        assert forall|x: Seq<char>| dedup_adjacent(s).contains(x) <==> s.contains(x) by {
            if s.contains(x) {
                let k = choose|k: int| 0 <= k < s.len() && s[k] == x;
                if k < n {
                    assert(p[k] == x);
                    assert(p.contains(x));
                    assert(d.contains(x));
                    if !same {
                        let q = choose|q: int| 0 <= q < d.len() && d[q] == x;
                        assert(d.push(s.last())[q] == x);
                    }
                } else {
                    if same {
                        assert(p[n - 1] == x);
                        assert(p.contains(x));
                        assert(d.contains(x));
                    } else {
                        assert(d.push(s.last())[d.len() as int] == x);
                    }
                }
            }
            if dedup_adjacent(s).contains(x) {
                let q = choose|q: int| 0 <= q < dedup_adjacent(s).len() && dedup_adjacent(s)[q] == x;
                if q < d.len() {
                    assert(d[q] == x);
                    assert(d.contains(x));
                    assert(p.contains(x));
                    let k = choose|k: int| 0 <= k < p.len() && p[k] == x;
                    assert(s[k] == x);
                } else {
                    assert(s[n] == x);
                }
            }
        }
        if !same {
            let r = d.push(s.last());
            assert forall|i: int, j: int| 0 <= i < j < r.len() implies lex_le(#[trigger] r[i], #[trigger] r[j])
                && r[i] != r[j] by {
                if j == r.len() - 1 {
                    assert(r[i] == d[i]);
                    assert(d.contains(d[i]));
                    assert(p.contains(d[i]));
                    let k = choose|k: int| 0 <= k < p.len() && p[k] == d[i];
                    assert(s[k] == d[i]);
                    assert(lex_le(s[k], s[n]));
                    if r[i] == r[j] {
                        assert(lex_le(s[n - 1], s[n]));
                        if i < d.len() - 1 {
                            assert(lex_le(d[i], d[d.len() - 1]));
                            crate::sort::lemma_lex_antisym(s[n - 1], s[n]);
                        }
                    }
                } else {
                    assert(r[i] == d[i] && r[j] == d[j]);
                }
            }
        }
    }
}

/// The tags offered to the model are the available tags in code-point
/// order, each once: the list increases strictly and holds exactly the
/// available tags.
pub proof fn lemma_offered_tags(tags: Seq<Seq<char>>)
    requires
        tags.len() <= usize::MAX,
    ensures
        forall|x: Seq<char>| dedup_adjacent(sorted_spec(tags)).contains(x) <==> tags.contains(x),
        forall|i: int, j: int|
            0 <= i < j < dedup_adjacent(sorted_spec(tags)).len() ==> lex_le(
                #[trigger] dedup_adjacent(sorted_spec(tags))[i],
                #[trigger] dedup_adjacent(sorted_spec(tags))[j],
            ) && dedup_adjacent(sorted_spec(tags))[i] != dedup_adjacent(sorted_spec(tags))[j],
{
    broadcast use vstd::seq_lib::group_to_multiset_ensures;

    crate::sort::lemma_text_order_exists(tags);
    let o = text_order_of(tags);
    let st = sorted_spec(tags);
    assert forall|i: int, j: int| 0 <= i < j < st.len() implies lex_le(st[i], st[j]) by {
        assert(lex_le(tags[o[i] as int], tags[o[j] as int]));
    }
    crate::sort::lemma_pick_multiset(tags, o);
    assert(st == o.map_values(|k: usize| tags[k as int]));
    assert forall|x: Seq<char>| st.contains(x) <==> tags.contains(x) by {
        assert(st.contains(x) <==> st.to_multiset().count(x) > 0);
        assert(tags.contains(x) <==> tags.to_multiset().count(x) > 0);
    }
    lemma_dedup_sorted(st);
}

} // verus!
