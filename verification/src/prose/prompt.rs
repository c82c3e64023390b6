//! The prompts of the narration model and of the scene planner.
use vstd::prelude::*;
use crate::models::action::render_reason_spec;
use crate::models::ids::{uuid_string, uuid_text};
use crate::models::text_guard::{sanitize_free_text, sanitize_spec, MAX_MEMORY_CHARS, MAX_PLOT_REASON_CHARS};
use crate::models::{Character, CharacterDerivation, PlotDevelopment, PlotDevelopmentKind};
use crate::sort::{
    is_stable_order, is_stable_perm, lemma_stable_perm_unique, lex_le, sort_strings, sorted_spec,
    stable_order, stable_order_of, RankedTextKey, SortKey, ExecSortKey, lemma_lex_antisym,
    lemma_perm_onto, lemma_sorted_spec_ignores_order, lemma_stable_order_exists,
};
use crate::text::{chars_of, join, join_strings, owned, push_str, views};
use crate::vocab::{sense_order, sense_rank};
use super::generator::{CharacterProseCandidates, NarrateRequest, ProseCandidate};
use super::planner_mock::PlanRequest;

verus! {

/// System instructions of the narration model.
pub const NARRATE_PREAMBLE: &'static str = "你是小说叙事编排器。只写叙事骨架,描写一律通过引用片段 ID 实现。\n铁律:\n1. action 只写客观动作和对话,严禁感官/情绪/环境/神态修饰词。\n   禁止:悲伤地、愤怒地、冰冷地、香喷喷、泪流满面(这些是描写,用 sensation_refs 引用)\n   允许:她起身、他推开门、黛玉说\"……\"\n2. sensation_refs 只能从提供的候选片段 ID 中选,不得造词。\n3. pov 必须是场景参与者 UUID,复制完整 UUID,不要手打。\n4. 用多个 beat 呈现场景,每个 beat 一个视角,引用该视角角色的描写片段。";

/// The example closing the narration prompt.
pub const NARRATE_EXAMPLE: &'static str = "\n示例 beat:\n- pov: <UUID> | action: 黛玉转身走向窗前，低声道：\"我没事。\" | sensation_refs: [\"emotion.grief\", \"visual.moonlight\"]\n注意：action 纯动作对话，描写全靠 sensation_refs 引用。\n";

/// The name shown when a character id matches no participant.
pub const UNKNOWN_CHARACTER: &'static str = "未知角色";

pub open spec fn plot_kind_label_spec(k: PlotDevelopmentKind) -> Seq<char> {
    match k {
        PlotDevelopmentKind::SuspicionRaised => "suspicion_raised"@,
        PlotDevelopmentKind::ConflictEscalated => "conflict_escalated"@,
        PlotDevelopmentKind::GoalChanged => "goal_changed"@,
        PlotDevelopmentKind::RelationshipShifted => "relationship_shifted"@,
        PlotDevelopmentKind::NewClue => "new_clue"@,
    }
}

/// The snake_case label of a plot development kind.
pub fn plot_kind_label(kind: PlotDevelopmentKind) -> (s: &'static str)
    ensures
        s@ == plot_kind_label_spec(kind),
{
    match kind {
        PlotDevelopmentKind::SuspicionRaised => "suspicion_raised",
        PlotDevelopmentKind::ConflictEscalated => "conflict_escalated",
        PlotDevelopmentKind::GoalChanged => "goal_changed",
        PlotDevelopmentKind::RelationshipShifted => "relationship_shifted",
        PlotDevelopmentKind::NewClue => "new_clue",
    }
}

// ---------------------------------------------------------------------------
// Orders
// ---------------------------------------------------------------------------

pub open spec fn char_ids(cs: Seq<Character>) -> Seq<u128> {
    cs.map_values(|c: Character| c.id.0)
}

/// The characters sorted stably by id.
pub open spec fn chars_by_id(cs: Seq<Character>) -> Seq<Character> {
    stable_order_of(char_ids(cs)).map_values(|k: usize| cs[k as int])
}

pub open spec fn deriv_ids(ds: Seq<CharacterDerivation>) -> Seq<u128> {
    ds.map_values(|d: CharacterDerivation| d.character_id.0)
}

/// The derivations sorted stably by character id.
pub open spec fn derivs_by_id(ds: Seq<CharacterDerivation>) -> Seq<CharacterDerivation> {
    stable_order_of(deriv_ids(ds)).map_values(|k: usize| ds[k as int])
}

pub open spec fn group_ids(gs: Seq<CharacterProseCandidates>) -> Seq<u128> {
    gs.map_values(|g: CharacterProseCandidates| g.character_id.0)
}

/// The candidate groups sorted stably by character id.
pub open spec fn groups_by_id(gs: Seq<CharacterProseCandidates>) -> Seq<CharacterProseCandidates> {
    stable_order_of(group_ids(gs)).map_values(|k: usize| gs[k as int])
}

/// Candidate `a` comes no later than `b`: by category rank, then by id.
pub open spec fn ranked_le(a: ProseCandidate, b: ProseCandidate) -> bool {
    sense_rank(a.sense@) < sense_rank(b.sense@) || (sense_rank(a.sense@) == sense_rank(b.sense@)
        && lex_le(a.id@, b.id@))
}

/// The relation `ranked_le` on the positions of `cs`.
pub open spec fn ranked_rel(cs: Seq<ProseCandidate>) -> spec_fn(int, int) -> bool {
    |i: int, j: int| ranked_le(cs[i], cs[j])
}

/// The stable order of candidates by category rank, then id.
pub open spec fn cand_order_of(cs: Seq<ProseCandidate>) -> Seq<usize> {
    choose|ord: Seq<usize>| ord.len() == cs.len() && is_stable_perm(ranked_rel(cs), ord)
}

proof fn lemma_cand_order_is(cs: Seq<ProseCandidate>, ord: Seq<usize>)
    requires
        ord.len() == cs.len(),
        is_stable_perm(ranked_rel(cs), ord),
    ensures
        cand_order_of(cs) == ord,
{
    let o2 = cand_order_of(cs);
    lemma_stable_perm_unique(ranked_rel(cs), ord, o2);
}

// ---------------------------------------------------------------------------
// Narration prompt
// ---------------------------------------------------------------------------

/// The name of the first character of `cs` with id `id`, or the unknown
/// character's name.
pub open spec fn name_for(cs: Seq<Character>, id: u128) -> Seq<char>
    decreases cs.len(),
{
    if cs.len() == 0 {
        UNKNOWN_CHARACTER@
    } else if cs[0].id.0 == id {
        cs[0].name@
    } else {
        name_for(cs.drop_first(), id)
    }
}

/// `label` with the items joined by `", "` and a newline, or nothing when
/// there are no items.
pub open spec fn optional_line(label: Seq<char>, items: Seq<Seq<char>>) -> Seq<char> {
    if items.len() == 0 {
        Seq::empty()
    } else {
        label + join(items, ", "@) + "\n"@
    }
}

/// One participant: name, id, personality and skills.
pub open spec fn participant_entry(c: Character) -> Seq<char> {
    "- 角色: "@ + c.name@ + " (pov: "@ + uuid_text(c.id.0) + ")\n"@ + optional_line(
        "  性格: "@,
        views(c.personality@),
    ) + optional_line("  技能: "@, views(c.skills@))
}

pub open spec fn participant_entries(cs: Seq<Character>, n: int) -> Seq<char>
    decreases n,
{
    if n <= 0 {
        Seq::empty()
    } else {
        participant_entries(cs, n - 1) + participant_entry(cs[n - 1])
    }
}

/// One plot development of a derivation.
pub open spec fn plot_context_line(p: PlotDevelopment) -> Seq<char> {
    "  剧情: "@ + plot_kind_label_spec(p.kind) + " - "@ + sanitize_spec(
        render_reason_spec(p.reason),
        MAX_PLOT_REASON_CHARS as int,
    ) + "\n"@
}

pub open spec fn plot_context_lines(ps: Seq<PlotDevelopment>, n: int) -> Seq<char>
    decreases n,
{
    if n <= 0 {
        Seq::empty()
    } else {
        plot_context_lines(ps, n - 1) + plot_context_line(ps[n - 1])
    }
}

/// One derivation: the character's name, its new memory and its plot
/// developments.
pub open spec fn derivation_entry(d: CharacterDerivation, cs: Seq<Character>) -> Seq<char> {
    "- 角色: "@ + name_for(cs, d.character_id.0) + "\n  记忆: "@ + sanitize_spec(
        d.new_memory.content@,
        MAX_MEMORY_CHARS as int,
    ) + "\n"@ + plot_context_lines(d.plot_development@, d.plot_development@.len() as int)
}

pub open spec fn derivation_entries(ds: Seq<CharacterDerivation>, cs: Seq<Character>, n: int) -> Seq<
    char,
>
    decreases n,
{
    if n <= 0 {
        Seq::empty()
    } else {
        derivation_entries(ds, cs, n - 1) + derivation_entry(ds[n - 1], cs)
    }
}

/// The derivation context, or nothing without derivations.
pub open spec fn derivation_block(ds: Seq<CharacterDerivation>, cs: Seq<Character>) -> Seq<char> {
    if ds.len() == 0 {
        Seq::empty()
    } else {
        "\n推导上下文(记忆与剧情):\n"@ + derivation_entries(derivs_by_id(ds), cs, ds.len() as int)
    }
}

/// One candidate fragment, tags sorted.
pub open spec fn cand_entry(c: ProseCandidate) -> Seq<char> {
    "  id: "@ + c.id@ + " | sense: "@ + c.sense@ + " | text: "@ + c.text@ + " | tags: "@ + join(
        sorted_spec(views(c.tags@)),
        ", "@,
    ) + "\n"@
}

pub open spec fn cand_entries(cs: Seq<ProseCandidate>, ord: Seq<usize>, n: int) -> Seq<char>
    decreases n,
{
    if n <= 0 {
        Seq::empty()
    } else {
        cand_entries(cs, ord, n - 1) + cand_entry(cs[ord[n - 1] as int])
    }
}

/// One character's candidate group, fragments by category rank then id.
pub open spec fn group_entry(g: CharacterProseCandidates, cs: Seq<Character>) -> Seq<char> {
    "角色 "@ + name_for(cs, g.character_id.0) + " (pov: "@ + uuid_text(g.character_id.0) + "):\n"@
        + cand_entries(g.candidates@, cand_order_of(g.candidates@), g.candidates@.len() as int)
}

pub open spec fn group_entries(gs: Seq<CharacterProseCandidates>, cs: Seq<Character>, n: int) -> Seq<
    char,
>
    decreases n,
{
    if n <= 0 {
        Seq::empty()
    } else {
        group_entries(gs, cs, n - 1) + group_entry(gs[n - 1], cs)
    }
}

/// The narration prompt of a request.
pub open spec fn narrate_prompt_spec(req: NarrateRequest) -> Seq<char> {
    let cs = chars_by_id(req.characters@);
    "客观事件: "@ + req.scene.objective_event@ + "\n"@ + "参与者:\n"@ + participant_entries(
        cs,
        cs.len() as int,
    ) + derivation_block(req.derivations@, cs)
        + "\n候选片段(按角色分组,格式 id | sense | text | tags):\n"@ + group_entries(
        groups_by_id(req.candidates@),
        cs,
        req.candidates@.len() as int,
    ) + NARRATE_EXAMPLE@
}

/// The positions of `cs` in stable id order.
fn chars_order(cs: &Vec<Character>) -> (ord: Vec<usize>)
    ensures
        ord@ == stable_order_of(char_ids(cs@)),
        is_stable_order(char_ids(cs@), ord@),
{
    let mut ids: Vec<u128> = Vec::new();
    let mut i: usize = 0;
    while i < cs.len()
        invariant
            i <= cs.len(),
            ids@ == char_ids(cs@).take(i as int),
        decreases cs.len() - i,
    {
        ids.push(cs[i].id.0);
        i = i + 1;
        assert(ids@ =~= char_ids(cs@).take(i as int));
    }
    assert(ids@ =~= char_ids(cs@));
    stable_order(&ids)
}

/// The name of the first character (in the order `ord`) with id `id`.
fn name_in(cs: &Vec<Character>, ord: &Vec<usize>, id: u128) -> (r: String)
    requires
        forall|q: int| 0 <= q < ord@.len() ==> (#[trigger] ord@[q]) < cs@.len(),
    ensures
        r@ == name_for(ord@.map_values(|k: usize| cs@[k as int]), id),
{
    let ghost sorted = ord@.map_values(|k: usize| cs@[k as int]);
    let mut p: usize = 0;
    assert(sorted.skip(0) =~= sorted);
    while p < ord.len()
        invariant
            p <= ord.len(),
            sorted == ord@.map_values(|k: usize| cs@[k as int]),
            forall|q: int| 0 <= q < ord@.len() ==> (#[trigger] ord@[q]) < cs@.len(),
            name_for(sorted, id) == name_for(sorted.skip(p as int), id),
        decreases ord.len() - p,
    {
        let c = &cs[ord[p]];
        assert(sorted.skip(p as int)[0] == *c);
        if c.id.0 == id {
            return c.name.clone();
        }
        assert(sorted.skip(p as int).drop_first() =~= sorted.skip(p as int + 1));
        p = p + 1;
    }
    assert(sorted.skip(p as int) =~= Seq::<Character>::empty());
    owned(UNKNOWN_CHARACTER)
}

fn push_optional_line(s: &mut String, label: &str, items: &Vec<String>)
    ensures
        final(s)@ == old(s)@ + optional_line(label@, views(items@)),
{
    if items.len() > 0 {
        push_str(s, label);
        let j = join_strings(items, ", ");
        push_str(s, j.as_str());
        push_str(s, "\n");
    } else {
        assert(old(s)@ + Seq::<char>::empty() =~= old(s)@);
    }
}

fn push_participants(s: &mut String, cs: &Vec<Character>, ord: &Vec<usize>)
    requires
        ord@.len() == cs@.len(),
        forall|q: int| 0 <= q < ord@.len() ==> (#[trigger] ord@[q]) < cs@.len(),
    ensures
        final(s)@ == old(s)@ + participant_entries(
            ord@.map_values(|k: usize| cs@[k as int]),
            cs@.len() as int,
        ),
{
    let ghost sorted = ord@.map_values(|k: usize| cs@[k as int]);
    let mut p: usize = 0;
    assert(old(s)@ + Seq::<char>::empty() =~= old(s)@);
    while p < ord.len()
        invariant
            p <= ord.len(),
            ord@.len() == cs@.len(),
            sorted == ord@.map_values(|k: usize| cs@[k as int]),
            forall|q: int| 0 <= q < ord@.len() ==> (#[trigger] ord@[q]) < cs@.len(),
            s@ == old(s)@ + participant_entries(sorted, p as int),
        decreases ord.len() - p,
    {
        let c = &cs[ord[p]];
        assert(sorted[p as int] == *c);
        let ghost before = s@;
        push_str(s, "- 角色: ");
        push_str(s, c.name.as_str());
        push_str(s, " (pov: ");
        let idt = uuid_string(c.id.0);
        push_str(s, idt.as_str());
        push_str(s, ")\n");
        push_optional_line(s, "  性格: ", &c.personality);
        push_optional_line(s, "  技能: ", &c.skills);
        assert(s@ =~= old(s)@ + participant_entries(sorted, p as int + 1));
        p = p + 1;
    }
}

fn push_plot_context(s: &mut String, ps: &Vec<PlotDevelopment>)
    ensures
        final(s)@ == old(s)@ + plot_context_lines(ps@, ps@.len() as int),
{
    let mut i: usize = 0;
    assert(old(s)@ + Seq::<char>::empty() =~= old(s)@);
    while i < ps.len()
        invariant
            i <= ps.len(),
            s@ == old(s)@ + plot_context_lines(ps@, i as int),
        decreases ps.len() - i,
    {
        let p = &ps[i];
        push_str(s, "  剧情: ");
        push_str(s, plot_kind_label(p.kind));
        push_str(s, " - ");
        let rendered = p.reason.render();
        let reason = sanitize_free_text(rendered.as_str(), MAX_PLOT_REASON_CHARS);
        push_str(s, reason.as_str());
        push_str(s, "\n");
        assert(s@ =~= old(s)@ + plot_context_lines(ps@, i as int + 1));
        i = i + 1;
    }
}

fn push_derivations(
    s: &mut String,
    ds: &Vec<CharacterDerivation>,
    cs: &Vec<Character>,
    cord: &Vec<usize>,
)
    requires
        forall|q: int| 0 <= q < cord@.len() ==> (#[trigger] cord@[q]) < cs@.len(),
    ensures
        final(s)@ == old(s)@ + derivation_block(ds@, cord@.map_values(|k: usize| cs@[k as int])),
{
    let ghost sorted_cs = cord@.map_values(|k: usize| cs@[k as int]);
    if ds.len() == 0 {
        assert(old(s)@ + Seq::<char>::empty() =~= old(s)@);
        return;
    }
    push_str(s, "\n推导上下文(记忆与剧情):\n");
    let ghost start = s@;
    let mut ids: Vec<u128> = Vec::new();
    let mut i: usize = 0;
    while i < ds.len()
        invariant
            i <= ds.len(),
            ids@ == deriv_ids(ds@).take(i as int),
        decreases ds.len() - i,
    {
        ids.push(ds[i].character_id.0);
        i = i + 1;
        assert(ids@ =~= deriv_ids(ds@).take(i as int));
    }
    assert(ids@ =~= deriv_ids(ds@));
    let ord = stable_order(&ids);
    let ghost sorted = ord@.map_values(|k: usize| ds@[k as int]);
    let mut p: usize = 0;
    while p < ord.len()
        invariant
            p <= ord.len(),
            ord@ == stable_order_of(deriv_ids(ds@)),
            ord@.len() == ds@.len(),
            forall|q: int| 0 <= q < ord@.len() ==> (#[trigger] ord@[q]) < ds@.len(),
            forall|q: int| 0 <= q < cord@.len() ==> (#[trigger] cord@[q]) < cs@.len(),
            sorted == ord@.map_values(|k: usize| ds@[k as int]),
            sorted_cs == cord@.map_values(|k: usize| cs@[k as int]),
            s@ == start + derivation_entries(sorted, sorted_cs, p as int),
        decreases ord.len() - p,
    {
        let d = &ds[ord[p]];
        assert(sorted[p as int] == *d);
        push_str(s, "- 角色: ");
        let name = name_in(cs, cord, d.character_id.0);
        push_str(s, name.as_str());
        push_str(s, "\n  记忆: ");
        let memory = sanitize_free_text(d.new_memory.content.as_str(), MAX_MEMORY_CHARS);
        push_str(s, memory.as_str());
        push_str(s, "\n");
        push_plot_context(s, &d.plot_development);
        assert(s@ =~= start + derivation_entries(sorted, sorted_cs, p as int + 1));
        p = p + 1;
    }
    assert(s@ =~= old(s)@ + derivation_block(ds@, sorted_cs));
}

/// The positions of `cs` by category rank, then id.
fn cand_order(cs: &Vec<ProseCandidate>) -> (ord: Vec<usize>)
    ensures
        ord@ == cand_order_of(cs@),
        ord@.len() == cs@.len(),
        forall|q: int| 0 <= q < ord@.len() ==> (#[trigger] ord@[q]) < cs@.len(),
{
    let mut keys: Vec<RankedTextKey> = Vec::new();
    let mut i: usize = 0;
    while i < cs.len()
        invariant
            i <= cs.len(),
            keys@.len() == i,
            forall|j: int|
                0 <= j < i ==> (#[trigger] keys@[j]).rank == sense_rank(cs@[j].sense@)
                    && keys@[j].chars@ == cs@[j].id@,
        decreases cs.len() - i,
    {
        keys.push(
            RankedTextKey { rank: sense_order(cs[i].sense.as_str()), chars: chars_of(cs[i].id.as_str()) },
        );
        i = i + 1;
    }
    let ord = stable_order(&keys);
    proof {
        let le = ranked_rel(cs@);
        assert forall|a: int, b: int|
            0 <= a < cs@.len() && 0 <= b < cs@.len() implies #[trigger] keys@[a].key_le(keys@[b])
            == le(a, b) by {}
        assert(is_stable_perm(le, ord@));
        lemma_cand_order_is(cs@, ord@);
    }
    ord
}

fn push_cands(s: &mut String, cs: &Vec<ProseCandidate>)
    ensures
        final(s)@ == old(s)@ + cand_entries(cs@, cand_order_of(cs@), cs@.len() as int),
{
    let ord = cand_order(cs);
    let mut p: usize = 0;
    assert(old(s)@ + Seq::<char>::empty() =~= old(s)@);
    while p < ord.len()
        invariant
            p <= ord.len(),
            ord@ == cand_order_of(cs@),
            ord@.len() == cs@.len(),
            forall|q: int| 0 <= q < ord@.len() ==> (#[trigger] ord@[q]) < cs@.len(),
            s@ == old(s)@ + cand_entries(cs@, ord@, p as int),
        decreases ord.len() - p,
    {
        let c = &cs[ord[p]];
        let tags = sort_strings(&c.tags);
        push_str(s, "  id: ");
        push_str(s, c.id.as_str());
        push_str(s, " | sense: ");
        push_str(s, c.sense.as_str());
        push_str(s, " | text: ");
        push_str(s, c.text.as_str());
        push_str(s, " | tags: ");
        let joined = join_strings(&tags, ", ");
        push_str(s, joined.as_str());
        push_str(s, "\n");
        assert(s@ =~= old(s)@ + cand_entries(cs@, ord@, p as int + 1));
        p = p + 1;
    }
}

fn push_groups(
    s: &mut String,
    gs: &Vec<CharacterProseCandidates>,
    cs: &Vec<Character>,
    cord: &Vec<usize>,
)
    requires
        forall|q: int| 0 <= q < cord@.len() ==> (#[trigger] cord@[q]) < cs@.len(),
    ensures
        final(s)@ == old(s)@ + group_entries(
            groups_by_id(gs@),
            cord@.map_values(|k: usize| cs@[k as int]),
            gs@.len() as int,
        ),
{
    let ghost sorted_cs = cord@.map_values(|k: usize| cs@[k as int]);
    let mut ids: Vec<u128> = Vec::new();
    let mut i: usize = 0;
    while i < gs.len()
        invariant
            i <= gs.len(),
            ids@ == group_ids(gs@).take(i as int),
        decreases gs.len() - i,
    {
        ids.push(gs[i].character_id.0);
        i = i + 1;
        assert(ids@ =~= group_ids(gs@).take(i as int));
    }
    assert(ids@ =~= group_ids(gs@));
    let ord = stable_order(&ids);
    let ghost sorted = ord@.map_values(|k: usize| gs@[k as int]);
    assert(sorted == groups_by_id(gs@));
    let mut p: usize = 0;
    assert(old(s)@ + Seq::<char>::empty() =~= old(s)@);
    while p < ord.len()
        invariant
            p <= ord.len(),
            ord@ == stable_order_of(group_ids(gs@)),
            ord@.len() == gs@.len(),
            forall|q: int| 0 <= q < ord@.len() ==> (#[trigger] ord@[q]) < gs@.len(),
            forall|q: int| 0 <= q < cord@.len() ==> (#[trigger] cord@[q]) < cs@.len(),
            sorted == ord@.map_values(|k: usize| gs@[k as int]),
            sorted_cs == cord@.map_values(|k: usize| cs@[k as int]),
            s@ == old(s)@ + group_entries(sorted, sorted_cs, p as int),
        decreases ord.len() - p,
    {
        let g = &gs[ord[p]];
        assert(sorted[p as int] == *g);
        push_str(s, "角色 ");
        let name = name_in(cs, cord, g.character_id.0);
        push_str(s, name.as_str());
        push_str(s, " (pov: ");
        let idt = uuid_string(g.character_id.0);
        push_str(s, idt.as_str());
        push_str(s, "):\n");
        push_cands(s, &g.candidates);
        assert(s@ =~= old(s)@ + group_entries(sorted, sorted_cs, p as int + 1));
        p = p + 1;
    }
}

/// The narration prompt: the event; the participants by id with their
/// personality and skills; the derivation context (derivations by
/// character id, memory and plot reasons clamped); the candidate groups by
/// character id, each group's fragments by category rank then id with
/// sorted tags; and an example beat.
pub fn build_prompt(req: &NarrateRequest) -> (s: String)
    ensures
        s@ == narrate_prompt_spec(*req),
{
    let cord = chars_order(&req.characters);
    let ghost cs = chars_by_id(req.characters@);
    assert(cs == cord@.map_values(|k: usize| req.characters@[k as int]));
    let mut s = owned("客观事件: ");
    push_str(&mut s, req.scene.objective_event.as_str());
    push_str(&mut s, "\n");
    push_str(&mut s, "参与者:\n");
    push_participants(&mut s, &req.characters, &cord);
    push_derivations(&mut s, &req.derivations, &req.characters, &cord);
    push_str(&mut s, "\n候选片段(按角色分组,格式 id | sense | text | tags):\n");
    push_groups(&mut s, &req.candidates, &req.characters, &cord);
    push_str(&mut s, NARRATE_EXAMPLE);
    assert(s@ =~= narrate_prompt_spec(*req));
    s
}

// ---------------------------------------------------------------------------
// Planner prompt
// ---------------------------------------------------------------------------

/// The `Debug` rendering of a list of strings (`format!("{:?}", v)`).
pub uninterp spec fn debug_string_list(v: Seq<Seq<char>>) -> Seq<char>;

/// Calls `format!("{:?}", v)` on a vector of strings.  The contract names
/// the result and ties it to the strings; the quoting and escaping rules of
/// `Debug` are not stated.
#[verifier::external_body]
fn debug_strings(v: &Vec<String>) -> (s: String)
    ensures
        s@ == debug_string_list(views(v@)),
{
    format!("{:?}", v)
}

/// The fixed instructions opening the planner prompt.
pub const PLANNER_RULES: &'static str = "你是小说编导。根据客观事件与参与角色，输出大纲与镜头表。\n\n铁律:\n1. 只输出结构化编导计划，严禁输出小说正文。\n2. 镜头(camera_beats)数量 3~8 个。\n3. 每个 camera_beat 的 pov_name 必须是下面参与角色名之一，不得造名。\n4. intent 为短句，描述该镜头意图。\n5. outline.acts 至少一个 act，act_id 形如 a1/a2。\n\n";

/// The closing request of the planner prompt.
pub const PLANNER_CLOSING: &'static str = "\n请调用 submit 提交结构化结果。";

/// The lines of the first `n` characters, the `i`-th with personality
/// rendering `pers[i]`.
pub open spec fn planner_lines(cs: Seq<Character>, pers: Seq<Seq<char>>, n: int) -> Seq<char>
    decreases n,
{
    if n <= 0 {
        Seq::empty()
    } else {
        planner_lines(cs, pers, n - 1) + "- "@ + uuid_text(cs[n - 1].id.0) + " | 名字: "@ + cs[n
            - 1].name@ + " | 性格: "@ + pers[n - 1] + "\n"@
    }
}

/// The planner prompt for `event` and the characters `cs` (already in
/// order) with personality renderings `pers`.
pub open spec fn planner_prompt_spec(event: Seq<char>, cs: Seq<Character>, pers: Seq<Seq<char>>) -> Seq<
    char,
> {
    PLANNER_RULES@ + "客观事件: "@ + event + "\n"@ + "参与角色:\n"@ + planner_lines(
        cs,
        pers,
        cs.len() as int,
    ) + PLANNER_CLOSING@
}

/// The planner prompt for the characters in the order `ord`, the `p`-th
/// with personality rendering `pers[p]`.
fn planner_prompt_ordered(req: &PlanRequest, ord: &Vec<usize>, pers: &Vec<String>) -> (s: String)
    requires
        ord@.len() == req.characters@.len(),
        pers@.len() == ord@.len(),
        forall|q: int| 0 <= q < ord@.len() ==> (#[trigger] ord@[q]) < req.characters@.len(),
    ensures
        s@ == planner_prompt_spec(
            req.scene.objective_event@,
            ord@.map_values(|k: usize| req.characters@[k as int]),
            views(pers@),
        ),
{
    let cs = &req.characters;
    let ghost sorted = ord@.map_values(|k: usize| cs@[k as int]);
    let mut s = owned(PLANNER_RULES);
    push_str(&mut s, "客观事件: ");
    push_str(&mut s, req.scene.objective_event.as_str());
    push_str(&mut s, "\n");
    push_str(&mut s, "参与角色:\n");
    let ghost start = s@;
    let mut p: usize = 0;
    while p < ord.len()
        invariant
            p <= ord.len(),
            ord@.len() == cs@.len(),
            pers@.len() == ord@.len(),
            forall|q: int| 0 <= q < ord@.len() ==> (#[trigger] ord@[q]) < cs@.len(),
            sorted == ord@.map_values(|k: usize| cs@[k as int]),
            s@ == start + planner_lines(sorted, views(pers@), p as int),
        decreases ord.len() - p,
    {
        let c = &cs[ord[p]];
        push_str(&mut s, "- ");
        let idt = uuid_string(c.id.0);
        push_str(&mut s, idt.as_str());
        push_str(&mut s, " | 名字: ");
        push_str(&mut s, c.name.as_str());
        push_str(&mut s, " | 性格: ");
        push_str(&mut s, pers[p].as_str());
        push_str(&mut s, "\n");
        assert(s@ =~= start + planner_lines(sorted, views(pers@), p as int + 1));
        p = p + 1;
    }
    push_str(&mut s, PLANNER_CLOSING);
    assert(s@ =~= planner_prompt_spec(req.scene.objective_event@, sorted, views(pers@)));
    s
}

/// The planner prompt given the personality rendering of each character
/// (`personalities[i]` for `req.characters[i]`): the rules, the event, and
/// one line per character in id order.
pub fn planner_prompt_from(req: &PlanRequest, personalities: &Vec<String>) -> (s: String)
    requires
        personalities@.len() == req.characters@.len(),
    ensures
        s@ == planner_prompt_spec(
            req.scene.objective_event@,
            chars_by_id(req.characters@),
            stable_order_of(char_ids(req.characters@)).map_values(
                |k: usize| personalities@[k as int]@,
            ),
        ),
{
    let ord = chars_order(&req.characters);
    let mut pers: Vec<String> = Vec::new();
    let mut p: usize = 0;
    while p < ord.len()
        invariant
            p <= ord.len(),
            ord@.len() == req.characters@.len(),
            personalities@.len() == req.characters@.len(),
            forall|q: int| 0 <= q < ord@.len() ==> (#[trigger] ord@[q]) < req.characters@.len(),
            pers@.len() == p,
            forall|q: int| 0 <= q < p ==> (#[trigger] pers@[q])@ == personalities@[ord@[q] as int]@,
        decreases ord.len() - p,
    {
        pers.push(owned(personalities[ord[p]].as_str()));
        p = p + 1;
    }
    assert(views(pers@) =~= ord@.map_values(|k: usize| personalities@[k as int]@));
    planner_prompt_ordered(req, &ord, &pers)
}

/// The planner prompt: the rules, the event, and one line per character in
/// id order with its id, name and the `Debug` rendering of its personality.
pub fn build_planner_prompt(req: &PlanRequest) -> (s: String)
    ensures
        s@ == planner_prompt_spec(
            req.scene.objective_event@,
            chars_by_id(req.characters@),
            chars_by_id(req.characters@).map_values(
                |c: Character| debug_string_list(views(c.personality@)),
            ),
        ),
{
    let ord = chars_order(&req.characters);
    let ghost sorted = ord@.map_values(|k: usize| req.characters@[k as int]);
    let mut pers: Vec<String> = Vec::new();
    let mut p: usize = 0;
    while p < ord.len()
        invariant
            p <= ord.len(),
            ord@.len() == req.characters@.len(),
            forall|q: int| 0 <= q < ord@.len() ==> (#[trigger] ord@[q]) < req.characters@.len(),
            sorted == ord@.map_values(|k: usize| req.characters@[k as int]),
            pers@.len() == p,
            forall|q: int|
                0 <= q < p ==> (#[trigger] pers@[q])@ == debug_string_list(
                    views(sorted[q].personality@),
                ),
        decreases ord.len() - p,
    {
        pers.push(debug_strings(&req.characters[ord[p]].personality));
        p = p + 1;
    }
    assert(views(pers@) =~= sorted.map_values(
        |c: Character| debug_string_list(views(c.personality@)),
    ));
    planner_prompt_ordered(req, &ord, &pers)
}

// ---------------------------------------------------------------------------
// Independence of the listing order
// ---------------------------------------------------------------------------

/// Two sequences with the same length, the same elements, and keys that
/// increase strictly along each, are equal.
proof fn lemma_strictly_sorted_unique<A>(s1: Seq<A>, s2: Seq<A>, key: spec_fn(A) -> u128, m: int)
    requires
        s1.len() == s2.len(),
        0 <= m <= s1.len(),
        forall|x: A| s1.contains(x) <==> s2.contains(x),
        forall|i: int, j: int| 0 <= i < j < s1.len() ==> key(s1[i]) < key(s1[j]),
        forall|i: int, j: int| 0 <= i < j < s2.len() ==> key(s2[i]) < key(s2[j]),
    ensures
        forall|i: int| 0 <= i < m ==> s1[i] == s2[i],
    decreases m,
{
    if m > 0 {
        lemma_strictly_sorted_unique(s1, s2, key, m - 1);
        let i = m - 1;
        if s1[i] != s2[i] {
            assert(s1.contains(s1[i]));
            let j = choose|j: int| 0 <= j < s2.len() && s2[j] == s1[i];
            assert(s2.contains(s2[i]));
            let k = choose|k: int| 0 <= k < s1.len() && s1[k] == s2[i];
            if j < i {
                assert(s1[j] == s2[j]);
                assert(key(s1[j]) < key(s1[i]));
            }
            if k < i {
                assert(s1[k] == s2[k]);
                assert(key(s2[k]) < key(s2[i]));
            }
            assert(j != i);
            assert(k != i);
            assert(key(s2[i]) < key(s2[j]));
            assert(key(s1[i]) < key(s1[k]));
        }
    }
}

/// The elements of `s` sorted stably by `key`.
pub open spec fn sorted_by_key<A>(s: Seq<A>, key: spec_fn(A) -> u128) -> Seq<A> {
    stable_order_of(s.map_values(key)).map_values(|k: usize| s[k as int])
}

/// Sorted by a key without repeats, a sequence keeps its elements and its
/// keys increase strictly.
proof fn lemma_sorted_by_key_facts<A>(s: Seq<A>, key: spec_fn(A) -> u128)
    requires
        s.len() <= usize::MAX,
        s.map_values(key).no_duplicates(),
    ensures
        sorted_by_key(s, key).len() == s.len(),
        forall|x: A| sorted_by_key(s, key).contains(x) <==> s.contains(x),
        forall|i: int, j: int|
            0 <= i < j < s.len() ==> key(sorted_by_key(s, key)[i]) < key(sorted_by_key(s, key)[j]),
{
    let ids = s.map_values(key);
    crate::sort::lemma_stable_order_exists(ids);
    let o = stable_order_of(ids);
    let t = sorted_by_key(s, key);
    assert forall|x: A| t.contains(x) <==> s.contains(x) by {
        if t.contains(x) {
            let p = choose|p: int| 0 <= p < t.len() && t[p] == x;
            assert(s[o[p] as int] == x);
        }
        if s.contains(x) {
            let i = choose|i: int| 0 <= i < s.len() && s[i] == x;
            crate::sort::lemma_perm_onto(o, i);
            let p = choose|p: int| 0 <= p < o.len() && o[p] == i;
            assert(t[p] == x);
        }
    }
    assert forall|i: int, j: int| 0 <= i < j < s.len() implies key(t[i]) < key(t[j]) by {
        assert(ids[o[i] as int].key_le(ids[o[j] as int]));
        assert(o[i] != o[j]);
        assert(ids[o[i] as int] != ids[o[j] as int]);
    }
}

/// Sorting by a key does not depend on the order of the input: the same
/// elements in any order, keys without repeats, sort to the same sequence.
pub proof fn lemma_sorted_by_key_ignores_order<A>(s1: Seq<A>, s2: Seq<A>, key: spec_fn(A) -> u128)
    requires
        s1.len() <= usize::MAX,
        s1.to_multiset() == s2.to_multiset(),
        s1.map_values(key).no_duplicates(),
    ensures
        sorted_by_key(s1, key) == sorted_by_key(s2, key),
{
    broadcast use vstd::seq_lib::group_to_multiset_ensures;

    assert(s1.len() == s1.to_multiset().len());
    assert(s2.len() == s2.to_multiset().len());
    assert(s1.no_duplicates()) by {
        assert forall|i: int, j: int| 0 <= i < s1.len() && 0 <= j < s1.len() && i != j implies s1[i]
            != s1[j] by {
            assert(s1.map_values(key)[i] != s1.map_values(key)[j]);
        }
    }
    s1.lemma_multiset_has_no_duplicates();
    s2.lemma_multiset_has_no_duplicates_conv();
    assert forall|x: A| s1.contains(x) <==> s2.contains(x) by {
        assert(s1.contains(x) <==> s1.to_multiset().count(x) > 0);
        assert(s2.contains(x) <==> s2.to_multiset().count(x) > 0);
    }
    assert(s2.map_values(key).no_duplicates()) by {
        assert forall|a: int, b: int|
            0 <= a < s2.len() && 0 <= b < s2.len() && a != b implies s2.map_values(key)[a]
            != s2.map_values(key)[b] by {
            if s2.map_values(key)[a] == s2.map_values(key)[b] {
                assert(s2[a] != s2[b]);
                assert(s1.contains(s2[a]));
                assert(s1.contains(s2[b]));
                let i = choose|i: int| 0 <= i < s1.len() && s1[i] == s2[a];
                let j = choose|j: int| 0 <= j < s1.len() && s1[j] == s2[b];
                assert(i != j);
                assert(s1.map_values(key)[i] != s1.map_values(key)[j]);
            }
        }
    }
    assert(s2.len() == s1.len());
    lemma_sorted_by_key_facts(s1, key);
    lemma_sorted_by_key_facts(s2, key);
    assert forall|x: A| sorted_by_key(s1, key).contains(x) <==> sorted_by_key(s2, key).contains(x) by {
        assert(sorted_by_key(s1, key).contains(x) <==> s1.contains(x));
        assert(sorted_by_key(s2, key).contains(x) <==> s2.contains(x));
    }
    lemma_strictly_sorted_unique(sorted_by_key(s1, key), sorted_by_key(s2, key), key, s1.len() as int);
    assert(sorted_by_key(s1, key) =~= sorted_by_key(s2, key));
}

/// The key characters are listed by.
pub open spec fn character_key() -> spec_fn(Character) -> u128 {
    |c: Character| c.id.0
}

/// The key derivations are listed by.
pub open spec fn derivation_key() -> spec_fn(CharacterDerivation) -> u128 {
    |d: CharacterDerivation| d.character_id.0
}

/// The key candidate groups are listed by.
pub open spec fn group_key() -> spec_fn(CharacterProseCandidates) -> u128 {
    |g: CharacterProseCandidates| g.character_id.0
}

/// Listing characters by id does not depend on the order they were given
/// in: the same characters in any order (ids distinct) give the same list.
pub proof fn lemma_chars_by_id_ignores_order(c1: Seq<Character>, c2: Seq<Character>)
    requires
        c1.len() <= usize::MAX,
        c1.to_multiset() == c2.to_multiset(),
        char_ids(c1).no_duplicates(),
    ensures
        chars_by_id(c1) == chars_by_id(c2),
{
    assert(char_ids(c1) =~= c1.map_values(character_key()));
    assert(char_ids(c2) =~= c2.map_values(character_key()));
    lemma_sorted_by_key_ignores_order(c1, c2, character_key());
}

/// The narration prompt does not depend on the order in which the request
/// lists its characters, derivations and candidate groups (each listed by
/// distinct character ids).
pub proof fn lemma_narrate_prompt_ignores_listing_order(r1: NarrateRequest, r2: NarrateRequest)
    requires
        r1.scene == r2.scene,
        r1.characters@.to_multiset() == r2.characters@.to_multiset(),
        char_ids(r1.characters@).no_duplicates(),
        r1.derivations@.to_multiset() == r2.derivations@.to_multiset(),
        deriv_ids(r1.derivations@).no_duplicates(),
        r1.candidates@.to_multiset() == r2.candidates@.to_multiset(),
        group_ids(r1.candidates@).no_duplicates(),
    ensures
        narrate_prompt_spec(r1) == narrate_prompt_spec(r2),
{
    broadcast use vstd::seq_lib::group_to_multiset_ensures;

    assert(r1.characters@.len() == r1.characters.len());
    assert(r1.derivations@.len() == r1.derivations.len());
    assert(r1.candidates@.len() == r1.candidates.len());
    lemma_chars_by_id_ignores_order(r1.characters@, r2.characters@);
    assert(deriv_ids(r1.derivations@) =~= r1.derivations@.map_values(derivation_key()));
    assert(deriv_ids(r2.derivations@) =~= r2.derivations@.map_values(derivation_key()));
    lemma_sorted_by_key_ignores_order(r1.derivations@, r2.derivations@, derivation_key());
    assert(derivs_by_id(r1.derivations@) == derivs_by_id(r2.derivations@));
    assert(r1.derivations@.len() == r1.derivations@.to_multiset().len());
    assert(r2.derivations@.len() == r2.derivations@.to_multiset().len());
    assert(group_ids(r1.candidates@) =~= r1.candidates@.map_values(group_key()));
    assert(group_ids(r2.candidates@) =~= r2.candidates@.map_values(group_key()));
    lemma_sorted_by_key_ignores_order(r1.candidates@, r2.candidates@, group_key());
    assert(groups_by_id(r1.candidates@) == groups_by_id(r2.candidates@));
    assert(r1.candidates@.len() == r1.candidates@.to_multiset().len());
    assert(r2.candidates@.len() == r2.candidates@.to_multiset().len());
}

/// The planner prompt does not depend on the order in which the request
/// lists its characters (their ids being distinct).
pub proof fn lemma_planner_prompt_ignores_character_order(r1: PlanRequest, r2: PlanRequest)
    requires
        r1.scene == r2.scene,
        r1.characters@.to_multiset() == r2.characters@.to_multiset(),
        char_ids(r1.characters@).no_duplicates(),
    ensures
        planner_prompt_spec(
            r1.scene.objective_event@,
            chars_by_id(r1.characters@),
            chars_by_id(r1.characters@).map_values(
                |c: Character| debug_string_list(views(c.personality@)),
            ),
        ) == planner_prompt_spec(
            r2.scene.objective_event@,
            chars_by_id(r2.characters@),
            chars_by_id(r2.characters@).map_values(
                |c: Character| debug_string_list(views(c.personality@)),
            ),
        ),
{
    assert(r1.characters@.len() == r1.characters.len());
    lemma_chars_by_id_ignores_order(r1.characters@, r2.characters@);
}

// ---------------------------------------------------------------------------
// Independence of the order of candidates and tags
// ---------------------------------------------------------------------------

/// `p` lists each position below `n` once.
pub open spec fn is_permutation(p: Seq<usize>, n: int) -> bool {
    &&& p.len() == n
    &&& forall|k: int| 0 <= k < p.len() ==> (#[trigger] p[k]) < n
    &&& forall|i: int, j: int| #![trigger p[i], p[j]] 0 <= i < j < p.len() ==> p[i] != p[j]
}

/// `b` is `a` with its tags possibly listed in another order.
pub open spec fn same_up_to_tag_order(a: ProseCandidate, b: ProseCandidate) -> bool {
    &&& a.id@ == b.id@
    &&& a.sense@ == b.sense@
    &&& a.text@ == b.text@
    &&& views(a.tags@).to_multiset() == views(b.tags@).to_multiset()
}

/// `c2` lists the candidates of `c1` in the order `p` (`c2[k]` is
/// `c1[p[k]]`), each with its tags possibly reordered.
pub open spec fn reorders_candidates(c1: Seq<ProseCandidate>, c2: Seq<ProseCandidate>, p: Seq<usize>) -> bool {
    &&& c2.len() == c1.len()
    &&& is_permutation(p, c1.len() as int)
    &&& forall|k: int| 0 <= k < c2.len() ==> same_up_to_tag_order(c1[p[k] as int], #[trigger] c2[k])
}

/// The ids of candidates.
pub open spec fn cand_ids(cs: Seq<ProseCandidate>) -> Seq<Seq<char>> {
    cs.map_values(|c: ProseCandidate| c.id@)
}

/// `g2` is `g1` with its candidates, and their tags, possibly reordered.
pub open spec fn group_reordered(g1: CharacterProseCandidates, g2: CharacterProseCandidates) -> bool {
    &&& g1.character_id == g2.character_id
    &&& exists|p: Seq<usize>| reorders_candidates(g1.candidates@, g2.candidates@, p)
}

/// `gs2` lists the groups of `gs1` in the order `q` (`gs2[k]` is
/// `gs1[q[k]]`), each with its candidates and tags possibly reordered.
pub open spec fn reorders_groups(
    gs1: Seq<CharacterProseCandidates>,
    gs2: Seq<CharacterProseCandidates>,
    q: Seq<usize>,
) -> bool {
    &&& gs2.len() == gs1.len()
    &&& is_permutation(q, gs1.len() as int)
    &&& forall|k: int| 0 <= k < gs2.len() ==> group_reordered(gs1[q[k] as int], #[trigger] gs2[k])
}

/// What the entry of a candidate shows: id, category, text, sorted tags.
pub open spec fn cand_shown(c: ProseCandidate) -> (Seq<char>, Seq<char>, Seq<char>, Seq<Seq<char>>) {
    (c.id@, c.sense@, c.text@, sorted_spec(views(c.tags@)))
}

/// Strictly before in the listing order: by category rank, then by id.
pub open spec fn shown_lt(
    x: (Seq<char>, Seq<char>, Seq<char>, Seq<Seq<char>>),
    y: (Seq<char>, Seq<char>, Seq<char>, Seq<Seq<char>>),
) -> bool {
    sense_rank(x.1) < sense_rank(y.1) || (sense_rank(x.1) == sense_rank(y.1) && lex_le(x.0, y.0)
        && x.0 != y.0)
}

/// Two lists with the same elements, each strictly increasing in an
/// asymmetric relation, agree on their first `m` places.
proof fn lemma_strictly_ordered_unique<A>(s1: Seq<A>, s2: Seq<A>, lt: spec_fn(A, A) -> bool, m: int)
    requires
        s1.len() == s2.len(),
        0 <= m <= s1.len(),
        forall|x: A| s1.contains(x) <==> s2.contains(x),
        forall|i: int, j: int| 0 <= i < j < s1.len() ==> lt(s1[i], s1[j]),
        forall|i: int, j: int| 0 <= i < j < s2.len() ==> lt(s2[i], s2[j]),
        forall|x: A, y: A| #[trigger] lt(x, y) ==> !lt(y, x),
    ensures
        forall|i: int| 0 <= i < m ==> s1[i] == s2[i],
    decreases m,
{
    if m > 0 {
        lemma_strictly_ordered_unique(s1, s2, lt, m - 1);
        let i = m - 1;
        if s1[i] != s2[i] {
            assert(s1.contains(s1[i]));
            let j = choose|j: int| 0 <= j < s2.len() && s2[j] == s1[i];
            assert(s2.contains(s2[i]));
            let k = choose|k: int| 0 <= k < s1.len() && s1[k] == s2[i];
            if j < i {
                assert(s1[j] == s2[j]);
                assert(lt(s1[j], s1[i]));
            }
            if k < i {
                assert(s1[k] == s2[k]);
                assert(lt(s2[k], s2[i]));
            }
            assert(lt(s2[i], s2[j]));
            assert(lt(s1[i], s1[k]));
        }
    }
}

/// Candidates in category-rank, id order: such an order exists.
proof fn lemma_cand_order_exists(cs: Seq<ProseCandidate>)
    requires
        cs.len() <= usize::MAX,
    ensures
        cand_order_of(cs).len() == cs.len(),
        is_stable_perm(ranked_rel(cs), cand_order_of(cs)),
{
    let keys = cs.map_values(|c: ProseCandidate| (sense_rank(c.sense@), c.id@));
    lemma_stable_order_exists(keys);
    let o = stable_order_of(keys);
    let le = ranked_rel(cs);
    assert forall|a: int, b: int|
        0 <= a < cs.len() && 0 <= b < cs.len() implies #[trigger] keys[a].key_le(keys[b]) == le(a, b) by {}
    assert(is_stable_perm(le, o));
    lemma_cand_order_is(cs, o);
}

proof fn lemma_cand_entries_shown(
    c1: Seq<ProseCandidate>,
    o1: Seq<usize>,
    c2: Seq<ProseCandidate>,
    o2: Seq<usize>,
    n: int,
)
    requires
        0 <= n <= o1.len(),
        o1.len() == o2.len(),
        forall|i: int| 0 <= i < n ==> cand_shown(c1[#[trigger] o1[i] as int]) == cand_shown(
            c2[o2[i] as int],
        ),
    ensures
        cand_entries(c1, o1, n) == cand_entries(c2, o2, n),
    decreases n,
{
    if n > 0 {
        lemma_cand_entries_shown(c1, o1, c2, o2, n - 1);
        let a = c1[o1[n - 1] as int];
        let b = c2[o2[n - 1] as int];
        assert(cand_shown(a) == cand_shown(b));
        assert(cand_entry(a) == cand_entry(b));
    }
}

/// The candidate listing of a group does not depend on the order of its
/// candidates (ids distinct) nor on the order of each candidate's tags.
pub proof fn lemma_candidate_listing_ignores_order(
    c1: Seq<ProseCandidate>,
    c2: Seq<ProseCandidate>,
    p: Seq<usize>,
)
    requires
        c1.len() <= usize::MAX,
        cand_ids(c1).no_duplicates(),
        reorders_candidates(c1, c2, p),
    ensures
        cand_entries(c1, cand_order_of(c1), c1.len() as int) == cand_entries(
            c2,
            cand_order_of(c2),
            c2.len() as int,
        ),
{
    lemma_cand_order_exists(c1);
    lemma_cand_order_exists(c2);
    let o1 = cand_order_of(c1);
    let o2 = cand_order_of(c2);
    let n = c1.len() as int;
    // what each candidate of c2 shows is what its original in c1 shows
    assert forall|k: int| 0 <= k < n implies #[trigger] cand_shown(c2[k]) == cand_shown(
        c1[p[k] as int],
    ) by {
        let a = c1[p[k] as int];
        let b = c2[k];
        assert(views(a.tags@).len() == a.tags@.len());
        assert(a.tags@.len() == a.tags.len());
        lemma_sorted_spec_ignores_order(views(a.tags@), views(b.tags@));
    }
    assert forall|a: int, b: int| 0 <= a < n && 0 <= b < n && a != b implies c1[a].id@ != c1[b].id@ by {
        assert(cand_ids(c1)[a] != cand_ids(c1)[b]);
    }
    assert forall|a: int, b: int| 0 <= a < n && 0 <= b < n && a != b implies c2[a].id@ != c2[b].id@ by {
        assert(p[a] != p[b]) by {
            if a < b {
                assert(p[a] != p[b]);
            } else {
                assert(p[b] != p[a]);
            }
        }
        assert(c2[a].id@ == c1[p[a] as int].id@);
        assert(c2[b].id@ == c1[p[b] as int].id@);
    }
    let s1 = o1.map_values(|k: usize| cand_shown(c1[k as int]));
    let s2 = o2.map_values(|k: usize| cand_shown(c2[k as int]));
    let lt = |x: (Seq<char>, Seq<char>, Seq<char>, Seq<Seq<char>>), y: (Seq<char>, Seq<char>, Seq<char>, Seq<Seq<char>>)| shown_lt(x, y);
    assert forall|x: (Seq<char>, Seq<char>, Seq<char>, Seq<Seq<char>>), y: (Seq<char>, Seq<char>, Seq<char>, Seq<Seq<char>>)| #[trigger] lt(x, y) implies !lt(y, x) by {
        if lt(y, x) && sense_rank(x.1) == sense_rank(y.1) {
            lemma_lex_antisym(x.0, y.0);
        }
    }
    assert forall|i: int, j: int| 0 <= i < j < s1.len() implies lt(s1[i], s1[j]) by {
        assert(ranked_rel(c1)(o1[i] as int, o1[j] as int));
        assert(o1[i] != o1[j]);
    }
    assert forall|i: int, j: int| 0 <= i < j < s2.len() implies lt(s2[i], s2[j]) by {
        assert(ranked_rel(c2)(o2[i] as int, o2[j] as int));
        assert(o2[i] != o2[j]);
    }
    assert forall|x: (Seq<char>, Seq<char>, Seq<char>, Seq<Seq<char>>)| s1.contains(x) <==> s2.contains(x) by {
        if s1.contains(x) {
            let i = choose|i: int| 0 <= i < s1.len() && s1[i] == x;
            let k = o1[i] as int;
            lemma_perm_onto(p, k);
            let a = choose|a: int| 0 <= a < p.len() && p[a] == k;
            lemma_perm_onto(o2, a);
            let i2 = choose|i2: int| 0 <= i2 < o2.len() && o2[i2] == a;
            assert(s2[i2] == cand_shown(c2[a]));
            assert(s2[i2] == x);
        }
        if s2.contains(x) {
            let i = choose|i: int| 0 <= i < s2.len() && s2[i] == x;
            let a = o2[i] as int;
            assert(cand_shown(c2[a]) == cand_shown(c1[p[a] as int]));
            lemma_perm_onto(o1, p[a] as int);
            let i1 = choose|i1: int| 0 <= i1 < o1.len() && o1[i1] == p[a];
            assert(s1[i1] == x);
        }
    }
    lemma_strictly_ordered_unique(s1, s2, lt, n);
    assert forall|i: int| 0 <= i < n implies cand_shown(c1[#[trigger] o1[i] as int]) == cand_shown(
        c2[o2[i] as int],
    ) by {
        assert(s1[i] == s2[i]);
    }
    lemma_cand_entries_shown(c1, o1, c2, o2, n);
}

proof fn lemma_group_entry_reordered(g1: CharacterProseCandidates, g2: CharacterProseCandidates, cs: Seq<Character>)
    requires
        group_reordered(g1, g2),
        cand_ids(g1.candidates@).no_duplicates(),
    ensures
        group_entry(g1, cs) == group_entry(g2, cs),
{
    let p = choose|p: Seq<usize>| reorders_candidates(g1.candidates@, g2.candidates@, p);
    assert(g1.candidates@.len() == g1.candidates.len());
    lemma_candidate_listing_ignores_order(g1.candidates@, g2.candidates@, p);
}

proof fn lemma_group_entries_reordered(
    g1: Seq<CharacterProseCandidates>,
    g2: Seq<CharacterProseCandidates>,
    cs: Seq<Character>,
    n: int,
)
    requires
        0 <= n <= g1.len(),
        n <= g2.len(),
        forall|i: int| 0 <= i < n ==> group_reordered(#[trigger] g1[i], g2[i]),
        forall|i: int| 0 <= i < n ==> cand_ids((#[trigger] g1[i]).candidates@).no_duplicates(),
    ensures
        group_entries(g1, cs, n) == group_entries(g2, cs, n),
    decreases n,
{
    if n > 0 {
        lemma_group_entries_reordered(g1, g2, cs, n - 1);
        lemma_group_entry_reordered(g1[n - 1], g2[n - 1], cs);
    }
}

/// Listing groups by character id pairs each group with its reordered
/// counterpart.
proof fn lemma_groups_by_id_reordered(
    gs1: Seq<CharacterProseCandidates>,
    gs2: Seq<CharacterProseCandidates>,
    q: Seq<usize>,
)
    requires
        gs1.len() <= usize::MAX,
        group_ids(gs1).no_duplicates(),
        reorders_groups(gs1, gs2, q),
    ensures
        groups_by_id(gs1).len() == gs1.len(),
        groups_by_id(gs2).len() == gs1.len(),
        forall|i: int| 0 <= i < gs1.len() ==> group_reordered(
            #[trigger] groups_by_id(gs1)[i],
            groups_by_id(gs2)[i],
        ),
{
    let n = gs1.len() as int;
    let k1 = group_ids(gs1);
    let k2 = group_ids(gs2);
    lemma_stable_order_exists(k1);
    lemma_stable_order_exists(k2);
    let o1 = stable_order_of(k1);
    let o2 = stable_order_of(k2);
    assert forall|a: int| 0 <= a < n implies #[trigger] k2[a] == k1[q[a] as int] by {
        assert(group_reordered(gs1[q[a] as int], gs2[a]));
    }
    assert forall|a: int, b: int| 0 <= a < n && 0 <= b < n && a != b implies k2[a] != k2[b] by {
        if a < b {
            assert(q[a] != q[b]);
        } else {
            assert(q[b] != q[a]);
        }
        assert(k1[q[a] as int] != k1[q[b] as int]);
    }
    let s1 = o1.map_values(|k: usize| k1[k as int]);
    let s2 = o2.map_values(|k: usize| k2[k as int]);
    let lt = |x: u128, y: u128| x < y;
    assert forall|i: int, j: int| 0 <= i < j < s1.len() implies lt(s1[i], s1[j]) by {
        assert(o1[i] != o1[j]);
    }
    assert forall|i: int, j: int| 0 <= i < j < s2.len() implies lt(s2[i], s2[j]) by {
        assert(o2[i] != o2[j]);
    }
    assert forall|x: u128| s1.contains(x) <==> s2.contains(x) by {
        if s1.contains(x) {
            let i = choose|i: int| 0 <= i < s1.len() && s1[i] == x;
            lemma_perm_onto(q, o1[i] as int);
            let a = choose|a: int| 0 <= a < q.len() && q[a] == o1[i];
            lemma_perm_onto(o2, a);
            let i2 = choose|i2: int| 0 <= i2 < o2.len() && o2[i2] == a;
            assert(s2[i2] == x);
        }
        if s2.contains(x) {
            let i = choose|i: int| 0 <= i < s2.len() && s2[i] == x;
            let a = o2[i] as int;
            lemma_perm_onto(o1, q[a] as int);
            let i1 = choose|i1: int| 0 <= i1 < o1.len() && o1[i1] == q[a];
            assert(s1[i1] == x);
        }
    }
    lemma_strictly_ordered_unique(s1, s2, lt, n);
    assert forall|i: int| 0 <= i < n implies group_reordered(
        #[trigger] groups_by_id(gs1)[i],
        groups_by_id(gs2)[i],
    ) by {
        assert(s1[i] == s2[i]);
        let a = o2[i] as int;
        assert(group_reordered(gs1[q[a] as int], gs2[a]));
        assert(k1[q[a] as int] == k1[o1[i] as int]);
        if q[a] != o1[i] {
            assert(k1[q[a] as int] != k1[o1[i] as int]);
        }
    }
}

/// The narration prompt does not depend on the order in which the request
/// lists its characters, derivations and candidate groups, nor on the
/// order of the candidates within a group or of a candidate's tags: `r2`
/// lists the groups of `r1` in the order `q`, each reordered inside.
/// Characters, derivations and groups are keyed by distinct character ids,
/// candidates by ids distinct within their group.
pub proof fn lemma_narrate_prompt_ignores_reordering(r1: NarrateRequest, r2: NarrateRequest, q: Seq<usize>)
    requires
        r1.scene == r2.scene,
        r1.characters@.to_multiset() == r2.characters@.to_multiset(),
        char_ids(r1.characters@).no_duplicates(),
        r1.derivations@.to_multiset() == r2.derivations@.to_multiset(),
        deriv_ids(r1.derivations@).no_duplicates(),
        group_ids(r1.candidates@).no_duplicates(),
        reorders_groups(r1.candidates@, r2.candidates@, q),
        forall|k: int| 0 <= k < r1.candidates@.len() ==> cand_ids(
            (#[trigger] r1.candidates@[k]).candidates@,
        ).no_duplicates(),
    ensures
        narrate_prompt_spec(r1) == narrate_prompt_spec(r2),
{
    broadcast use vstd::seq_lib::group_to_multiset_ensures;

    assert(r1.characters@.len() == r1.characters.len());
    assert(r1.derivations@.len() == r1.derivations.len());
    assert(r1.candidates@.len() == r1.candidates.len());
    lemma_chars_by_id_ignores_order(r1.characters@, r2.characters@);
    assert(deriv_ids(r1.derivations@) =~= r1.derivations@.map_values(derivation_key()));
    assert(deriv_ids(r2.derivations@) =~= r2.derivations@.map_values(derivation_key()));
    lemma_sorted_by_key_ignores_order(r1.derivations@, r2.derivations@, derivation_key());
    assert(derivs_by_id(r1.derivations@) == derivs_by_id(r2.derivations@));
    assert(r1.derivations@.len() == r1.derivations@.to_multiset().len());
    assert(r2.derivations@.len() == r2.derivations@.to_multiset().len());
    let gs1 = r1.candidates@;
    let gs2 = r2.candidates@;
    lemma_groups_by_id_reordered(gs1, gs2, q);
    let g1 = groups_by_id(gs1);
    let g2 = groups_by_id(gs2);
    assert forall|i: int| 0 <= i < g1.len() implies cand_ids((#[trigger] g1[i]).candidates@).no_duplicates() by {
        let o1 = stable_order_of(group_ids(gs1));
        lemma_stable_order_exists(group_ids(gs1));
        assert(g1[i] == gs1[o1[i] as int]);
    }
    lemma_group_entries_reordered(g1, g2, chars_by_id(r1.characters@), gs1.len() as int);
}

/// Each plot development kind is labelled by its snake_case name.
pub proof fn lemma_plot_kind_snake_labels()
    ensures
        plot_kind_label_spec(PlotDevelopmentKind::SuspicionRaised) == "suspicion_raised"@,
        plot_kind_label_spec(PlotDevelopmentKind::ConflictEscalated) == "conflict_escalated"@,
        plot_kind_label_spec(PlotDevelopmentKind::GoalChanged) == "goal_changed"@,
        plot_kind_label_spec(PlotDevelopmentKind::RelationshipShifted) == "relationship_shifted"@,
        plot_kind_label_spec(PlotDevelopmentKind::NewClue) == "new_clue"@,
{
}

} // verus!
