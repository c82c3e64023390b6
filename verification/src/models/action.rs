//! Structured actions (stage-direction style: subject + verb + object +
//! optional dialogue) and short plot-reason slots.  Both render to prose
//! text without causal filler phrases.
use vstd::prelude::*;
use crate::text::{owned, push_str};
use super::text_guard::{filler_free, is_filler, sanitize_free_text, sanitize_spec, MAX_PLOT_REASON_CHARS};

verus! {

/// Action kinds, every common action of a novel scene.
#[derive(Debug, Clone, Copy, PartialEq, Eq, Structural)]
pub enum ActionKind {
    /// 走向
    MoveToward,
    /// 退开
    MoveAway,
    /// 进入
    Enter,
    /// 离开
    Exit,
    /// 起身
    StandUp,
    /// 坐下
    SitDown,
    /// 转身
    Turn,
    /// 上前
    StepForward,
    /// 后退
    StepBack,
    /// 看向
    LookAt,
    /// 瞥一眼
    GlanceAt,
    /// 凝视
    StareAt,
    /// 仔细看
    PeerAt,
    /// 伸手
    Reach,
    /// 触碰
    Touch,
    /// 握住
    Hold,
    /// 放下
    Drop,
    /// 躬身/行礼
    Bow,
    /// 点头
    Nod,
    /// 摇头
    ShakeHead,
    /// 皱眉
    Frown,
    /// 微笑
    Smile,
    /// 叹气
    Sigh,
    /// 道
    Say,
    /// 问
    Ask,
    /// 答
    Answer,
    /// 低语
    Whisper,
    /// 喊道
    Shout,
    /// 惊呼
    Exclaim,
    /// 抓住
    Grab,
    /// 推
    Push,
    /// 拉
    Pull,
    /// 搀扶
    Help,
    /// 停步
    Pause,
    /// 犹豫
    Hesitate,
    /// 搜寻
    Search,
    /// 查看
    Inspect,
}

/// The Chinese verb of an action kind; speech verbs carry their colon.
pub open spec fn verb_spec(k: ActionKind) -> Seq<char> {
    match k {
        ActionKind::MoveToward => "走向"@,
        ActionKind::MoveAway => "退开"@,
        ActionKind::Enter => "进入"@,
        ActionKind::Exit => "离开"@,
        ActionKind::StandUp => "起身"@,
        ActionKind::SitDown => "坐下"@,
        ActionKind::Turn => "转身"@,
        ActionKind::StepForward => "上前"@,
        ActionKind::StepBack => "后退"@,
        ActionKind::LookAt => "看向"@,
        ActionKind::GlanceAt => "瞥了一眼"@,
        ActionKind::StareAt => "凝视"@,
        ActionKind::PeerAt => "细看"@,
        ActionKind::Reach => "伸手去"@,
        ActionKind::Touch => "触碰"@,
        ActionKind::Hold => "握住"@,
        ActionKind::Drop => "放下"@,
        ActionKind::Bow => "躬身"@,
        ActionKind::Nod => "点头"@,
        ActionKind::ShakeHead => "摇头"@,
        ActionKind::Frown => "皱眉"@,
        ActionKind::Smile => "微笑"@,
        ActionKind::Sigh => "叹了口气"@,
        ActionKind::Say => "道："@,
        ActionKind::Ask => "问："@,
        ActionKind::Answer => "答："@,
        ActionKind::Whisper => "低声道："@,
        ActionKind::Shout => "喊道："@,
        ActionKind::Exclaim => "惊道："@,
        ActionKind::Grab => "抓住"@,
        ActionKind::Push => "推"@,
        ActionKind::Pull => "拉"@,
        ActionKind::Help => "搀扶"@,
        ActionKind::Pause => "停步"@,
        ActionKind::Hesitate => "犹豫"@,
        ActionKind::Search => "搜寻"@,
        ActionKind::Inspect => "查看"@,
    }
}

/// Speech actions (say, ask, answer, whisper, shout, exclaim).
pub open spec fn is_speech_spec(k: ActionKind) -> bool {
    ||| k == ActionKind::Say
    ||| k == ActionKind::Ask
    ||| k == ActionKind::Answer
    ||| k == ActionKind::Whisper
    ||| k == ActionKind::Shout
    ||| k == ActionKind::Exclaim
}

/// Every action kind has a non-empty verb.
pub proof fn lemma_every_verb_nonempty(k: ActionKind)
    ensures
        verb_spec(k).len() > 0,
{
    reveal_strlit("走向");
    reveal_strlit("退开");
    reveal_strlit("进入");
    reveal_strlit("离开");
    reveal_strlit("起身");
    reveal_strlit("坐下");
    reveal_strlit("转身");
    reveal_strlit("上前");
    reveal_strlit("后退");
    reveal_strlit("看向");
    reveal_strlit("瞥了一眼");
    reveal_strlit("凝视");
    reveal_strlit("细看");
    reveal_strlit("伸手去");
    reveal_strlit("触碰");
    reveal_strlit("握住");
    reveal_strlit("放下");
    reveal_strlit("躬身");
    reveal_strlit("点头");
    reveal_strlit("摇头");
    reveal_strlit("皱眉");
    reveal_strlit("微笑");
    reveal_strlit("叹了口气");
    reveal_strlit("道：");
    reveal_strlit("问：");
    reveal_strlit("答：");
    reveal_strlit("低声道：");
    reveal_strlit("喊道：");
    reveal_strlit("惊道：");
    reveal_strlit("抓住");
    reveal_strlit("推");
    reveal_strlit("拉");
    reveal_strlit("搀扶");
    reveal_strlit("停步");
    reveal_strlit("犹豫");
    reveal_strlit("搜寻");
    reveal_strlit("查看");
}

/// Structured action (stage-direction level): kind, an object of at most six
/// characters, and optional dialogue of at most thirty characters.
#[derive(Debug, Clone)]
pub struct StructuredAction {
    pub kind: ActionKind,
    pub target: Option<String>,
    pub dialogue: Option<String>,
}

/// The text a structured action renders to for `subject`.
pub open spec fn render_action_spec(a: StructuredAction, subject: Seq<char>) -> Seq<char> {
    let base = subject + verb_spec(a.kind);
    let with_target = match a.target {
        Some(t) => base + sanitize_spec(t@, 6),
        None => base,
    };
    match a.dialogue {
        None => with_target,
        Some(d) => {
            let said = sanitize_spec(d@, 30);
            if said.len() == 0 {
                with_target
            } else if is_speech_spec(a.kind) {
                with_target + said
            } else if a.target matches Some(t) && t@.len() > 0 {
                with_target + "道："@ + said
            } else {
                with_target + "，道："@ + said
            }
        },
    }
}

impl ActionKind {
    /// The kind's verb.
    pub fn verb(&self) -> (s: &'static str)
        ensures
            s@ == verb_spec(*self),
    {
        match self {
            ActionKind::MoveToward => "走向",
            ActionKind::MoveAway => "退开",
            ActionKind::Enter => "进入",
            ActionKind::Exit => "离开",
            ActionKind::StandUp => "起身",
            ActionKind::SitDown => "坐下",
            ActionKind::Turn => "转身",
            ActionKind::StepForward => "上前",
            ActionKind::StepBack => "后退",
            ActionKind::LookAt => "看向",
            ActionKind::GlanceAt => "瞥了一眼",
            ActionKind::StareAt => "凝视",
            ActionKind::PeerAt => "细看",
            ActionKind::Reach => "伸手去",
            ActionKind::Touch => "触碰",
            ActionKind::Hold => "握住",
            ActionKind::Drop => "放下",
            ActionKind::Bow => "躬身",
            ActionKind::Nod => "点头",
            ActionKind::ShakeHead => "摇头",
            ActionKind::Frown => "皱眉",
            ActionKind::Smile => "微笑",
            ActionKind::Sigh => "叹了口气",
            ActionKind::Say => "道：",
            ActionKind::Ask => "问：",
            ActionKind::Answer => "答：",
            ActionKind::Whisper => "低声道：",
            ActionKind::Shout => "喊道：",
            ActionKind::Exclaim => "惊道：",
            ActionKind::Grab => "抓住",
            ActionKind::Push => "推",
            ActionKind::Pull => "拉",
            ActionKind::Help => "搀扶",
            ActionKind::Pause => "停步",
            ActionKind::Hesitate => "犹豫",
            ActionKind::Search => "搜寻",
            ActionKind::Inspect => "查看",
        }
    }
}

impl StructuredAction {
    /// Speech actions already carry their colon in the verb.
    pub fn is_speech_kind(&self) -> (r: bool)
        ensures
            r == is_speech_spec(self.kind),
    {
        match self.kind {
            ActionKind::Say | ActionKind::Ask | ActionKind::Answer | ActionKind::Whisper
            | ActionKind::Shout | ActionKind::Exclaim => true,
            _ => false,
        }
    }

    /// The action's verb.
    pub fn action_verb(&self) -> (s: &'static str)
        ensures
            s@ == verb_spec(self.kind),
    {
        self.kind.verb()
    }

    /// Cleans a short text: fillers removed, trimmed, clamped to `max_chars`.
    pub fn clean_short_text(text: &str, max_chars: usize) -> (r: String)
        ensures
            r@ == sanitize_spec(text@, max_chars as int),
    {
        sanitize_free_text(text, max_chars)
    }

    /// An action saying `line` (kind `Say`, no object).
    pub fn speech(line: &str) -> (a: Self)
        ensures
            a.kind == ActionKind::Say,
            a.target is None,
            a.dialogue matches Some(d) && d@ == line@,
    {
        StructuredAction { kind: ActionKind::Say, target: None, dialogue: Some(owned(line)) }
    }

    /// Renders the action as prose: subject, verb, cleaned object, and the
    /// cleaned dialogue (after "道：" when the verb is not a speech verb, with
    /// a leading "，" when there is no object).
    pub fn render(&self, subject: &str) -> (r: String)
        ensures
            r@ == render_action_spec(*self, subject@),
    {
        let mut result = owned(subject);
        push_str(&mut result, self.action_verb());
        if let Some(target) = &self.target {
            let t = Self::clean_short_text(target.as_str(), 6);
            push_str(&mut result, t.as_str());
        }
        if let Some(dialogue) = &self.dialogue {
            let d = Self::clean_short_text(dialogue.as_str(), 30);
            if d.as_str().unicode_len() > 0 {
                if self.is_speech_kind() {
                    push_str(&mut result, d.as_str());
                } else {
                    let has_target = match &self.target {
                        Some(t) => t.as_str().unicode_len() > 0,
                        None => false,
                    };
                    if has_target {
                        push_str(&mut result, "道：");
                    } else {
                        push_str(&mut result, "，道：");
                    }
                    push_str(&mut result, d.as_str());
                }
            }
        }
        result
    }
}

/// A rendered action starts with its subject followed by the verb.
pub proof fn lemma_render_starts_with_subject(a: StructuredAction, subject: Seq<char>)
    ensures
        (subject + verb_spec(a.kind)).is_prefix_of(render_action_spec(a, subject)),
{
    let r = render_action_spec(a, subject);
    let p = subject + verb_spec(a.kind);
    assert forall|i: int| 0 <= i < p.len() implies p[i] == r[i] by {}
}

/// Short plot-reason slot: a fact of a given shape, never open narration.
#[derive(Debug, Clone)]
pub enum PlotReasonSlot {
    Observed(String),
    Heard(String),
    NoticedAnomaly(String),
    BehaviorOdd(String),
    ContextChanged(String),
    CharacterState(String),
    DialogueContent(String),
    PhysicalEvidence(String),
    Other(String),
}

/// `prefix + c + suffix`, or nothing when the cleaned text `c` is empty.
pub open spec fn framed(prefix: Seq<char>, c: Seq<char>, suffix: Seq<char>) -> Seq<char> {
    if c.len() == 0 {
        Seq::empty()
    } else {
        prefix + c + suffix
    }
}

/// The text a plot-reason slot renders to.
pub open spec fn render_reason_spec(r: PlotReasonSlot) -> Seq<char> {
    match r {
        PlotReasonSlot::Observed(x) => framed("见"@, sanitize_spec(x@, 15), Seq::empty()),
        PlotReasonSlot::Heard(x) => framed("闻"@, sanitize_spec(x@, 15), Seq::empty()),
        PlotReasonSlot::NoticedAnomaly(x) => framed("觉"@, sanitize_spec(x@, 15), "有异"@),
        PlotReasonSlot::BehaviorOdd(x) => framed(Seq::empty(), sanitize_spec(x@, 12), "举止反常"@),
        PlotReasonSlot::ContextChanged(x) => framed(Seq::empty(), sanitize_spec(x@, 12), "有变"@),
        PlotReasonSlot::CharacterState(x) => framed(Seq::empty(), sanitize_spec(x@, 12), "神色不对"@),
        PlotReasonSlot::DialogueContent(x) => framed("话及"@, sanitize_spec(x@, 15), Seq::empty()),
        PlotReasonSlot::PhysicalEvidence(x) => framed("物证："@, sanitize_spec(x@, 15), Seq::empty()),
        PlotReasonSlot::Other(x) => sanitize_spec(x@, 20),
    }
}

fn framed_exec(prefix: &str, text: &str, max: usize, suffix: &str) -> (r: String)
    ensures
        r@ == framed(prefix@, sanitize_spec(text@, max as int), suffix@),
{
    let c = sanitize_free_text(text, max);
    if c.as_str().unicode_len() == 0 {
        String::new()
    } else {
        let mut s = owned(prefix);
        push_str(&mut s, c.as_str());
        push_str(&mut s, suffix);
        s
    }
}

impl PlotReasonSlot {
    /// Renders the slot as reusable prose text.
    pub fn render(&self) -> (r: String)
        ensures
            r@ == render_reason_spec(*self),
    {
        proof {
            reveal_strlit("");
        }
        match self {
            PlotReasonSlot::Observed(x) => framed_exec("见", x.as_str(), 15, ""),
            PlotReasonSlot::Heard(x) => framed_exec("闻", x.as_str(), 15, ""),
            PlotReasonSlot::NoticedAnomaly(x) => framed_exec("觉", x.as_str(), 15, "有异"),
            PlotReasonSlot::BehaviorOdd(x) => framed_exec("", x.as_str(), 12, "举止反常"),
            PlotReasonSlot::ContextChanged(x) => framed_exec("", x.as_str(), 12, "有变"),
            PlotReasonSlot::CharacterState(x) => framed_exec("", x.as_str(), 12, "神色不对"),
            PlotReasonSlot::DialogueContent(x) => framed_exec("话及", x.as_str(), 15, ""),
            PlotReasonSlot::PhysicalEvidence(x) => framed_exec("物证：", x.as_str(), 15, ""),
            PlotReasonSlot::Other(x) => Self::clean(x.as_str(), 20),
        }
    }

    /// Cleans the slot text: fillers removed, trimmed, clamped to `max_chars`.
    pub fn clean(text: &str, max_chars: usize) -> (r: String)
        ensures
            r@ == sanitize_spec(text@, max_chars as int),
    {
        sanitize_free_text(text, max_chars)
    }
}

/// A rendered plot reason fits the plot-reason bound and holds no filler phrase.
pub proof fn lemma_reason_render_bounded(r: PlotReasonSlot)
    ensures
        render_reason_spec(r).len() <= MAX_PLOT_REASON_CHARS,
        filler_free(render_reason_spec(r)),
{
    reveal_strlit("见");
    reveal_strlit("闻");
    reveal_strlit("觉");
    reveal_strlit("有异");
    reveal_strlit("举止反常");
    reveal_strlit("有变");
    reveal_strlit("神色不对");
    reveal_strlit("话及");
    reveal_strlit("物证：");
    let (p, x, n, q): (Seq<char>, Seq<char>, int, Seq<char>) = match r {
        PlotReasonSlot::Observed(x) => ("见"@, x@, 15, Seq::empty()),
        PlotReasonSlot::Heard(x) => ("闻"@, x@, 15, Seq::empty()),
        PlotReasonSlot::NoticedAnomaly(x) => ("觉"@, x@, 15, "有异"@),
        PlotReasonSlot::BehaviorOdd(x) => (Seq::empty(), x@, 12, "举止反常"@),
        PlotReasonSlot::ContextChanged(x) => (Seq::empty(), x@, 12, "有变"@),
        PlotReasonSlot::CharacterState(x) => (Seq::empty(), x@, 12, "神色不对"@),
        PlotReasonSlot::DialogueContent(x) => ("话及"@, x@, 15, Seq::empty()),
        PlotReasonSlot::PhysicalEvidence(x) => ("物证："@, x@, 15, Seq::empty()),
        PlotReasonSlot::Other(x) => (Seq::empty(), x@, 20, Seq::empty()),
    };
    let c = sanitize_spec(x, n);
    crate::models::text_guard::lemma_sanitize_bounds(x, n);
    assert(render_reason_spec(r) == framed(p, c, q));
    if c.len() > 0 {
        let s = p + c + q;
        assert forall|i: int| 0 <= i < s.len() - 1 implies !is_filler(#[trigger] s[i], s[i + 1]) by {
            if i < p.len() - 1 {
            } else if i == p.len() - 1 {
                assert(s[i] == p[p.len() - 1]);
            } else if i < p.len() + c.len() - 1 {
                assert(s[i] == c[i - p.len()] && s[i + 1] == c[i + 1 - p.len()]);
            } else if i == p.len() + c.len() - 1 {
                assert(s[i + 1] == q[0]);
            } else {
                assert(s[i] == q[i - p.len() - c.len()]);
            }
        }
    }
}

/// The verb of each action kind; the six speech verbs end with a full-width colon.
pub proof fn lemma_verbs()
    ensures
        verb_spec(ActionKind::MoveToward) == "走向"@,
        verb_spec(ActionKind::MoveAway) == "退开"@,
        verb_spec(ActionKind::Enter) == "进入"@,
        verb_spec(ActionKind::Exit) == "离开"@,
        verb_spec(ActionKind::StandUp) == "起身"@,
        verb_spec(ActionKind::SitDown) == "坐下"@,
        verb_spec(ActionKind::Turn) == "转身"@,
        verb_spec(ActionKind::StepForward) == "上前"@,
        verb_spec(ActionKind::StepBack) == "后退"@,
        verb_spec(ActionKind::LookAt) == "看向"@,
        verb_spec(ActionKind::GlanceAt) == "瞥了一眼"@,
        verb_spec(ActionKind::StareAt) == "凝视"@,
        verb_spec(ActionKind::PeerAt) == "细看"@,
        verb_spec(ActionKind::Reach) == "伸手去"@,
        verb_spec(ActionKind::Touch) == "触碰"@,
        verb_spec(ActionKind::Hold) == "握住"@,
        verb_spec(ActionKind::Drop) == "放下"@,
        verb_spec(ActionKind::Bow) == "躬身"@,
        verb_spec(ActionKind::Nod) == "点头"@,
        verb_spec(ActionKind::ShakeHead) == "摇头"@,
        verb_spec(ActionKind::Frown) == "皱眉"@,
        verb_spec(ActionKind::Smile) == "微笑"@,
        verb_spec(ActionKind::Sigh) == "叹了口气"@,
        verb_spec(ActionKind::Say) == "道："@,
        verb_spec(ActionKind::Ask) == "问："@,
        verb_spec(ActionKind::Answer) == "答："@,
        verb_spec(ActionKind::Whisper) == "低声道："@,
        verb_spec(ActionKind::Shout) == "喊道："@,
        verb_spec(ActionKind::Exclaim) == "惊道："@,
        verb_spec(ActionKind::Grab) == "抓住"@,
        verb_spec(ActionKind::Push) == "推"@,
        verb_spec(ActionKind::Pull) == "拉"@,
        verb_spec(ActionKind::Help) == "搀扶"@,
        verb_spec(ActionKind::Pause) == "停步"@,
        verb_spec(ActionKind::Hesitate) == "犹豫"@,
        verb_spec(ActionKind::Search) == "搜寻"@,
        verb_spec(ActionKind::Inspect) == "查看"@,
{
}

/// The speech kinds: say, ask, answer, whisper, shout, exclaim.
pub open spec fn speaks(k: ActionKind) -> bool {
    k == ActionKind::Say || k == ActionKind::Ask || k == ActionKind::Answer || k
        == ActionKind::Whisper || k == ActionKind::Shout || k == ActionKind::Exclaim
}

/// How an action with dialogue renders: subject, verb, cleaned object,
/// then the cleaned dialogue.  Say, ask, answer, whisper, shout and exclaim
/// take the dialogue directly (their verbs end with a colon); every other
/// action introduces it with "道：" after an object, or "，道：" without one.
pub proof fn lemma_dialogue_rendering(a: StructuredAction, subject: Seq<char>)
    requires
        a.dialogue is Some,
        sanitize_spec(a.dialogue.unwrap()@, 30).len() > 0,
    ensures
        ({
            let obj = match a.target {
                Some(t) => sanitize_spec(t@, 6),
                None => Seq::<char>::empty(),
            };
            let said = sanitize_spec(a.dialogue.unwrap()@, 30);
            let has_object = a.target is Some && a.target.unwrap()@.len() > 0;
            &&& (a.kind == ActionKind::Say || a.kind == ActionKind::Ask || a.kind == ActionKind::Answer
                || a.kind == ActionKind::Whisper || a.kind == ActionKind::Shout || a.kind
                == ActionKind::Exclaim) ==> render_action_spec(a, subject) == subject + verb_spec(a.kind)
                + obj + said
            &&& !speaks(a.kind) && has_object ==> render_action_spec(a, subject) == subject
                + verb_spec(a.kind) + obj + "道："@ + said
            &&& !speaks(a.kind) && !has_object ==> render_action_spec(a, subject) == subject
                + verb_spec(a.kind) + obj + "，道："@ + said
        }),
{
}

/// How each reason slot reads: a fact seen 见…, heard 闻…, an anomaly
/// 觉…有异, odd behaviour …举止反常, a changed context …有变, a state
/// …神色不对, what was said 话及…, physical evidence 物证：…, and any other
/// reason as the cleaned text itself (at most 20 characters); an empty
/// cleaned fact gives nothing.
pub proof fn lemma_reason_frames(x: String)
    ensures
        sanitize_spec(x@, 15).len() > 0 ==> render_reason_spec(PlotReasonSlot::Observed(x)) == "见"@ + sanitize_spec(x@, 15) + Seq::<char>::empty(),
        sanitize_spec(x@, 15).len() == 0 ==> render_reason_spec(PlotReasonSlot::Observed(x)).len() == 0,
        sanitize_spec(x@, 15).len() > 0 ==> render_reason_spec(PlotReasonSlot::Heard(x)) == "闻"@ + sanitize_spec(x@, 15) + Seq::<char>::empty(),
        sanitize_spec(x@, 15).len() == 0 ==> render_reason_spec(PlotReasonSlot::Heard(x)).len() == 0,
        sanitize_spec(x@, 15).len() > 0 ==> render_reason_spec(PlotReasonSlot::NoticedAnomaly(x)) == "觉"@ + sanitize_spec(x@, 15) + "有异"@,
        sanitize_spec(x@, 15).len() == 0 ==> render_reason_spec(PlotReasonSlot::NoticedAnomaly(x)).len() == 0,
        sanitize_spec(x@, 12).len() > 0 ==> render_reason_spec(PlotReasonSlot::BehaviorOdd(x)) == Seq::<char>::empty() + sanitize_spec(x@, 12) + "举止反常"@,
        sanitize_spec(x@, 12).len() == 0 ==> render_reason_spec(PlotReasonSlot::BehaviorOdd(x)).len() == 0,
        sanitize_spec(x@, 12).len() > 0 ==> render_reason_spec(PlotReasonSlot::ContextChanged(x)) == Seq::<char>::empty() + sanitize_spec(x@, 12) + "有变"@,
        sanitize_spec(x@, 12).len() == 0 ==> render_reason_spec(PlotReasonSlot::ContextChanged(x)).len() == 0,
        sanitize_spec(x@, 12).len() > 0 ==> render_reason_spec(PlotReasonSlot::CharacterState(x)) == Seq::<char>::empty() + sanitize_spec(x@, 12) + "神色不对"@,
        sanitize_spec(x@, 12).len() == 0 ==> render_reason_spec(PlotReasonSlot::CharacterState(x)).len() == 0,
        sanitize_spec(x@, 15).len() > 0 ==> render_reason_spec(PlotReasonSlot::DialogueContent(x)) == "话及"@ + sanitize_spec(x@, 15) + Seq::<char>::empty(),
        sanitize_spec(x@, 15).len() == 0 ==> render_reason_spec(PlotReasonSlot::DialogueContent(x)).len() == 0,
        sanitize_spec(x@, 15).len() > 0 ==> render_reason_spec(PlotReasonSlot::PhysicalEvidence(x)) == "物证："@ + sanitize_spec(x@, 15) + Seq::<char>::empty(),
        sanitize_spec(x@, 15).len() == 0 ==> render_reason_spec(PlotReasonSlot::PhysicalEvidence(x)).len() == 0,
        render_reason_spec(PlotReasonSlot::Other(x)) == sanitize_spec(x@, 20),
{
}

} // verus!
