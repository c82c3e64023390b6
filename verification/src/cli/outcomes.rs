//! The reports of the commands, built from what the store and the
//! generators returned: status, summary, artifacts by name, quality
//! figures and next steps.
use vstd::prelude::*;
use crate::models::ids::uuid_text;
use crate::models::{Character, CharacterId, Scene, SceneId};
use crate::text::{decimal, join, join_strings, owned, push_decimal, push_str, views};
use crate::text_map::{lookup, TextMap};
use super::commands::{
    character_derive_summary, context_summary, generation_status, narrate_summary,
    scene_derive_summary_spec,
};
use super::observation::{Observation, QualityFigures, Status};
use super::session::{candidate_line, Session};

verus! {

/// The text of the artifact filed under `key`, if any.
pub open spec fn artifact(o: Observation, key: Seq<char>) -> Option<Seq<char>> {
    match lookup(o.artifacts@, key) {
        Some(v) => Some(v@),
        None => None,
    }
}

/// A report with this status and summary, no quality figures and no next
/// step.
pub open spec fn plain_report(o: Observation, status: Status, summary: Seq<char>) -> bool {
    &&& o.status == status
    &&& o.summary@ == summary
    &&& o.quality is None
    &&& o.next@.len() == 0
}

fn artifacts_one(k: &str, v: String) -> (m: TextMap<String>)
    ensures
        m@.len() == 1,
        lookup(m@, k@) == Some(v),
        forall|x: Seq<char>| x != k@ ==> #[trigger] lookup(m@, x) is None,
{
    let mut m = TextMap::new();
    m.insert(k, v);
    m
}

fn artifacts_two(k1: &str, v1: String, k2: &str, v2: String) -> (m: TextMap<String>)
    requires
        k1@ != k2@,
    ensures
        m@.len() == 2,
        lookup(m@, k1@) == Some(v1),
        lookup(m@, k2@) == Some(v2),
        forall|x: Seq<char>| x != k1@ && x != k2@ ==> #[trigger] lookup(m@, x) is None,
{
    let mut m = TextMap::new();
    m.insert(k1, v1);
    m.insert(k2, v2);
    m
}

fn artifacts_three(k1: &str, v1: String, k2: &str, v2: String, k3: &str, v3: String) -> (m:
    TextMap<String>)
    requires
        k1@ != k2@,
        k1@ != k3@,
        k2@ != k3@,
    ensures
        m@.len() == 3,
        lookup(m@, k1@) == Some(v1),
        lookup(m@, k2@) == Some(v2),
        lookup(m@, k3@) == Some(v3),
        forall|x: Seq<char>| x != k1@ && x != k2@ && x != k3@ ==> #[trigger] lookup(m@, x) is None,
{
    let mut m = artifacts_two(k1, v1, k2, v2);
    assert(lookup(m@, k3@) is None);
    m.insert(k3, v3);
    m
}

fn artifacts_four(
    k1: &str,
    v1: String,
    k2: &str,
    v2: String,
    k3: &str,
    v3: String,
    k4: &str,
    v4: String,
) -> (m: TextMap<String>)
    requires
        k1@ != k2@,
        k1@ != k3@,
        k1@ != k4@,
        k2@ != k3@,
        k2@ != k4@,
        k3@ != k4@,
    ensures
        m@.len() == 4,
        lookup(m@, k1@) == Some(v1),
        lookup(m@, k2@) == Some(v2),
        lookup(m@, k3@) == Some(v3),
        lookup(m@, k4@) == Some(v4),
{
    let mut m = artifacts_three(k1, v1, k2, v2, k3, v3);
    assert(lookup(m@, k4@) is None);
    m.insert(k4, v4);
    m
}

/// The report of a created character: its id.
pub fn character_created(id: CharacterId) -> (o: Observation)
    ensures
        plain_report(o, Status::Success, "角色已创建"@),
        o.artifacts@.len() == 1,
        artifact(o, "character_id"@) == Some(uuid_text(id.0)),
{
    Observation::success(owned("角色已创建"), artifacts_one("character_id", id.text()))
}

/// The report of a created scene, which becomes the current scene.
pub fn scene_created(session: &mut Session, id: SceneId) -> (o: Observation)
    ensures
        plain_report(o, Status::Success, "场景已创建"@),
        o.artifacts@.len() == 1,
        artifact(o, "scene_id"@) == Some(uuid_text(id.0)),
        final(session).current_scene == Some(id),
        final(session).current_character == old(session).current_character,
{
    session.current_scene = Some(id);
    Observation::success(owned("场景已创建"), artifacts_one("scene_id", id.text()))
}

/// The report of selecting a scene as the current one.
pub fn scene_selected(session: &mut Session, id: SceneId) -> (o: Observation)
    ensures
        plain_report(o, Status::Success, "已选定场景"@),
        o.artifacts@.len() == 0,
        final(session).current_scene == Some(id),
        final(session).current_character == old(session).current_character,
{
    session.current_scene = Some(id);
    Observation::success(owned("已选定场景"), TextMap::new())
}

/// The report of selecting a character as the current one.
pub fn character_selected(session: &mut Session, id: CharacterId) -> (o: Observation)
    ensures
        plain_report(o, Status::Success, "已选定角色"@),
        o.artifacts@.len() == 0,
        final(session).current_character == Some(id),
        final(session).current_scene == old(session).current_scene,
{
    session.current_character = Some(id);
    Observation::success(owned("已选定角色"), TextMap::new())
}

/// The report of clearing the current scene and character.
pub fn context_cleared(session: &mut Session) -> (o: Observation)
    ensures
        plain_report(o, Status::Success, "已清除上下文"@),
        o.artifacts@.len() == 0,
        final(session).current_scene is None,
        final(session).current_character is None,
{
    session.current_scene = None;
    session.current_character = None;
    Observation::success(owned("已清除上下文"), TextMap::new())
}

/// The id text of a selection, empty without one.
pub open spec fn opt_uuid_text(v: Option<u128>) -> Seq<char> {
    match v {
        Some(x) => uuid_text(x),
        None => Seq::empty(),
    }
}

/// The report of the current context: the current scene's and character's
/// ids (empty when none).
pub fn context_report(session: &Session) -> (o: Observation)
    ensures
        plain_report(
            o,
            Status::Success,
            if session.current_scene is None && session.current_character is None {
                "无上下文"@
            } else {
                "当前上下文"@
            },
        ),
        o.artifacts@.len() == 2,
        artifact(o, "current_scene"@) == Some(
            opt_uuid_text(
                match session.current_scene {
                    Some(s) => Some(s.0),
                    None => None,
                },
            ),
        ),
        artifact(o, "current_character"@) == Some(
            opt_uuid_text(
                match session.current_character {
                    Some(c) => Some(c.0),
                    None => None,
                },
            ),
        ),
{
    let scene = match session.current_scene {
        Some(s) => s.text(),
        None => String::new(),
    };
    let character = match session.current_character {
        Some(c) => c.text(),
        None => String::new(),
    };
    proof {
        reveal_strlit("current_scene");
        reveal_strlit("current_character");
        assert("current_scene"@.len() != "current_character"@.len());
    }
    let summary = context_summary(session.current_scene.is_some(), session.current_character.is_some());
    Observation::success(
        summary,
        artifacts_two("current_scene", scene, "current_character", character),
    )
}

/// The listing line of each character: `name (id)`.
pub open spec fn character_lines(cs: Seq<Character>) -> Seq<Seq<char>> {
    cs.map_values(|c: Character| candidate_line(c.name@, c.id.0))
}

/// The listing line of each scene: `event (id)`.
pub open spec fn scene_lines(ss: Seq<Scene>) -> Seq<Seq<char>> {
    ss.map_values(|s: Scene| candidate_line(s.objective_event@, s.id.0))
}

fn listing_line(desc: &str, id: u128) -> (s: String)
    ensures
        s@ == candidate_line(desc@, id),
{
    let mut s = owned(desc);
    push_str(&mut s, " (");
    let u = crate::models::ids::uuid_string(id);
    push_str(&mut s, u.as_str());
    push_str(&mut s, ")");
    s
}

/// The report of listing the characters: how many, and one line each.
pub fn characters_listed(cs: &Vec<Character>) -> (o: Observation)
    ensures
        plain_report(o, Status::Success, decimal(cs@.len()) + " 个角色"@),
        o.artifacts@.len() == 1,
        artifact(o, "characters"@) == Some(join(character_lines(cs@), "\n"@)),
{
    let mut lines: Vec<String> = Vec::new();
    let mut i: usize = 0;
    while i < cs.len()
        invariant
            i <= cs.len(),
            views(lines@) == character_lines(cs@).take(i as int),
        decreases cs.len() - i,
    {
        let ghost before = lines@;
        lines.push(listing_line(cs[i].name.as_str(), cs[i].id.0));
        assert(views(lines@) =~= views(before).push(character_lines(cs@)[i as int]));
        assert(character_lines(cs@).take(i as int + 1) =~= character_lines(cs@).take(i as int).push(
            character_lines(cs@)[i as int],
        ));
        i = i + 1;
    }
    assert(character_lines(cs@).take(cs@.len() as int) =~= character_lines(cs@));
    let mut summary = String::new();
    push_decimal(&mut summary, cs.len());
    push_str(&mut summary, " 个角色");
    assert(summary@ =~= decimal(cs@.len()) + " 个角色"@);
    Observation::success(summary, artifacts_one("characters", join_strings(&lines, "\n")))
}

/// The report of listing the scenes: how many, and one line each.
pub fn scenes_listed(ss: &Vec<Scene>) -> (o: Observation)
    ensures
        plain_report(o, Status::Success, decimal(ss@.len()) + " 个场景"@),
        o.artifacts@.len() == 1,
        artifact(o, "scenes"@) == Some(join(scene_lines(ss@), "\n"@)),
{
    let mut lines: Vec<String> = Vec::new();
    let mut i: usize = 0;
    while i < ss.len()
        invariant
            i <= ss.len(),
            views(lines@) == scene_lines(ss@).take(i as int),
        decreases ss.len() - i,
    {
        let ghost before = lines@;
        lines.push(listing_line(ss[i].objective_event.as_str(), ss[i].id.0));
        assert(views(lines@) =~= views(before).push(scene_lines(ss@)[i as int]));
        assert(scene_lines(ss@).take(i as int + 1) =~= scene_lines(ss@).take(i as int).push(
            scene_lines(ss@)[i as int],
        ));
        i = i + 1;
    }
    assert(scene_lines(ss@).take(ss@.len() as int) =~= scene_lines(ss@));
    let mut summary = String::new();
    push_decimal(&mut summary, ss.len());
    push_str(&mut summary, " 个场景");
    assert(summary@ =~= decimal(ss@.len()) + " 个场景"@);
    Observation::success(summary, artifacts_one("scenes", join_strings(&lines, "\n")))
}

/// The report of showing a character: its name, id, tags and skills.
pub fn character_shown(c: &Character) -> (o: Observation)
    ensures
        plain_report(o, Status::Success, "角色："@ + c.name@),
        o.artifacts@.len() == 4,
        artifact(o, "name"@) == Some(c.name@),
        artifact(o, "id"@) == Some(uuid_text(c.id.0)),
        artifact(o, "tags"@) == Some(join(views(c.personality@), ", "@)),
        artifact(o, "skills"@) == Some(join(views(c.skills@), ", "@)),
{
    proof {
        reveal_strlit("name");
        reveal_strlit("id");
        reveal_strlit("tags");
        reveal_strlit("skills");
        assert("name"@[0] != "tags"@[0]);
        assert("name"@.len() != "id"@.len() && "name"@.len() != "skills"@.len());
        assert("id"@.len() != "tags"@.len() && "id"@.len() != "skills"@.len());
        assert("tags"@.len() != "skills"@.len());
    }
    let mut summary = owned("角色：");
    push_str(&mut summary, c.name.as_str());
    Observation::success(
        summary,
        artifacts_four(
            "name",
            c.name.clone(),
            "id",
            c.id.text(),
            "tags",
            join_strings(&c.personality, ", "),
            "skills",
            join_strings(&c.skills, ", "),
        ),
    )
}

/// The ids of the participants, as text.
pub open spec fn participant_texts(ps: Seq<CharacterId>) -> Seq<Seq<char>> {
    ps.map_values(|p: CharacterId| uuid_text(p.0))
}

/// The report of showing a scene: its event, id, time and participants.
pub fn scene_shown(sc: &Scene) -> (o: Observation)
    ensures
        plain_report(o, Status::Success, "场景："@ + sc.objective_event@),
        o.artifacts@.len() == 4,
        artifact(o, "event"@) == Some(sc.objective_event@),
        artifact(o, "id"@) == Some(uuid_text(sc.id.0)),
        artifact(o, "occurred_at"@) == Some(sc.occurred_at@),
        artifact(o, "participants"@) == Some(join(participant_texts(sc.participant_ids@), ", "@)),
{
    proof {
        reveal_strlit("event");
        reveal_strlit("id");
        reveal_strlit("occurred_at");
        reveal_strlit("participants");
        assert("event"@.len() != "id"@.len() && "event"@.len() != "occurred_at"@.len());
        assert("event"@.len() != "participants"@.len() && "id"@.len() != "occurred_at"@.len());
        assert("id"@.len() != "participants"@.len());
        assert("occurred_at"@.len() != "participants"@.len());
    }
    let mut ps: Vec<String> = Vec::new();
    let mut i: usize = 0;
    while i < sc.participant_ids.len()
        invariant
            i <= sc.participant_ids.len(),
            views(ps@) == participant_texts(sc.participant_ids@).take(i as int),
        decreases sc.participant_ids.len() - i,
    {
        let ghost before = ps@;
        ps.push(sc.participant_ids[i].text());
        let ghost pt = participant_texts(sc.participant_ids@);
        assert(views(ps@) =~= views(before).push(pt[i as int]));
        assert(pt.take(i as int + 1) =~= pt.take(i as int).push(pt[i as int]));
        i = i + 1;
    }
    assert(participant_texts(sc.participant_ids@).take(sc.participant_ids@.len() as int)
        =~= participant_texts(sc.participant_ids@));
    let mut summary = owned("场景：");
    push_str(&mut summary, sc.objective_event.as_str());
    Observation::success(
        summary,
        artifacts_four(
            "event",
            sc.objective_event.clone(),
            "id",
            sc.id.text(),
            "occurred_at",
            sc.occurred_at.rfc3339(),
            "participants",
            join_strings(&ps, ", "),
        ),
    )
}

/// The report of deriving one character in a scene.
pub fn character_derived(scene: SceneId, character: CharacterId, using_mock: bool) -> (o: Observation)
    ensures
        plain_report(
            o,
            if using_mock {
                Status::Warning
            } else {
                Status::Success
            },
            if using_mock {
                "推导完成（非生产质量）"@
            } else {
                "推导完成"@
            },
        ),
        o.artifacts@.len() == 2,
        artifact(o, "scene_id"@) == Some(uuid_text(scene.0)),
        artifact(o, "character_id"@) == Some(uuid_text(character.0)),
{
    proof {
        reveal_strlit("scene_id");
        reveal_strlit("character_id");
        assert("scene_id"@.len() != "character_id"@.len());
    }
    let mut o = Observation::success(
        character_derive_summary(using_mock),
        artifacts_two("scene_id", scene.text(), "character_id", character.text()),
    );
    o.status = generation_status(using_mock);
    o
}

/// The report of deriving every participant of a scene, from the numbers
/// of successes and failures: an error when nothing succeeded, a warning
/// on mock generators; "narrate" is suggested once something succeeded.
pub fn scene_derived(scene: SceneId, ok_count: usize, err_count: usize, using_mock: bool) -> (o:
    Observation)
    ensures
        o.status == (if err_count > 0 && ok_count == 0 {
            Status::Error
        } else if using_mock {
            Status::Warning
        } else {
            Status::Success
        }),
        o.summary@ == scene_derive_summary_spec(ok_count as nat, err_count as nat, using_mock),
        o.quality is None,
        ok_count > 0 ==> views(o.next@) == seq!["narrate"@],
        ok_count == 0 ==> o.next@.len() == 0,
        o.artifacts@.len() == 3,
        artifact(o, "scene_id"@) == Some(uuid_text(scene.0)),
        artifact(o, "ok_count"@) == Some(decimal(ok_count as nat)),
        artifact(o, "err_count"@) == Some(decimal(err_count as nat)),
{
    proof {
        reveal_strlit("scene_id");
        reveal_strlit("ok_count");
        reveal_strlit("err_count");
        assert("scene_id"@[0] != "ok_count"@[0]);
        assert("scene_id"@.len() != "err_count"@.len() && "ok_count"@.len() != "err_count"@.len());
    }
    let outcome = super::commands::scene_derive_outcome(ok_count, err_count, using_mock);
    let artifacts = artifacts_three(
        "scene_id",
        scene.text(),
        "ok_count",
        crate::text::decimal_string(ok_count),
        "err_count",
        crate::text::decimal_string(err_count),
    );
    Observation {
        status: outcome.status,
        summary: outcome.summary,
        artifacts,
        quality: None,
        next: outcome.next,
    }
}

/// The report of a narration: its quality figures, a warning on mock
/// generators.
pub fn narrated(quality: QualityFigures, using_mock: bool) -> (o: Observation)
    ensures
        o.status == (if using_mock {
            Status::Warning
        } else {
            Status::Success
        }),
        o.summary@ == (if using_mock {
            "正文已生成（非生产质量）"@
        } else {
            "正文已生成"@
        }),
        o.artifacts@.len() == 0,
        o.quality == Some(quality),
        o.next@.len() == 0,
{
    Observation {
        status: generation_status(using_mock),
        summary: narrate_summary(using_mock),
        artifacts: TextMap::new(),
        quality: Some(quality),
        next: Vec::new(),
    }
}

/// The error report of a scene without derivations to narrate or show,
/// suggesting "derive"; `partial` when only some characters were derived.
pub fn derivations_missing(partial: bool) -> (o: Observation)
    ensures
        o.status == Status::Error,
        o.summary@ == (if partial {
            "该场景尚无完整推导记录（部分角色未推导）"@
        } else {
            "该场景尚无推导记录"@
        }),
        o.artifacts@.len() == 0,
        o.quality is None,
        views(o.next@) == seq!["derive"@],
{
    let summary = if partial {
        owned("该场景尚无完整推导记录（部分角色未推导）")
    } else {
        owned("该场景尚无推导记录")
    };
    let mut next: Vec<String> = Vec::new();
    next.push(owned("derive"));
    assert(views(next@) =~= seq!["derive"@]);
    let mut o = Observation::error(summary);
    o.next = next;
    o
}

/// The error report of a scene created without participants.
pub fn participants_missing() -> (o: Observation)
    ensures
        plain_report(o, Status::Error, "场景至少需要一名参与者"@),
        o.artifacts@.len() == 0,
{
    Observation::error(owned("场景至少需要一名参与者"))
}

} // verus!
