//! The revisions of relationship facts as plain rows: accepting a change to
//! a fact supersedes its active revision and adds a new active one, so a
//! fact keeps at most one active revision.
use vstd::prelude::*;
use crate::models::RevisionStatus;
use crate::sort::{lex_le, lex_le_exec};
use crate::text::{chars_of, text_eq};

verus! {

/// The parts of a stored revision that supersession reads and writes.
#[derive(Debug, Clone, Copy, PartialEq, Eq, Structural)]
pub struct RevisionRow {
    pub id: u128,
    pub fact_id: u128,
    pub valid_from_scene_id: u128,
    pub valid_until_scene_id: Option<u128>,
    pub status: RevisionStatus,
}

/// A revision that is the active one of `fact`.
pub open spec fn active_of(r: RevisionRow, fact: u128) -> bool {
    r.fact_id == fact && r.status == RevisionStatus::Active
}

/// How many of the first `n` rows are active revisions of `fact`.
pub open spec fn active_count(rows: Seq<RevisionRow>, fact: u128, n: int) -> nat
    decreases n,
{
    if n <= 0 {
        0
    } else {
        active_count(rows, fact, n - 1) + if active_of(rows[n - 1], fact) {
            1nat
        } else {
            0nat
        }
    }
}

/// A row after `fact` changed in `scene`: an active revision of `fact`
/// becomes superseded, valid until that scene; any other row stays.
pub open spec fn superseded_row(r: RevisionRow, fact: u128, scene: u128) -> RevisionRow {
    if active_of(r, fact) {
        RevisionRow {
            status: RevisionStatus::Superseded,
            valid_until_scene_id: Some(scene),
            ..r
        }
    } else {
        r
    }
}

/// The new active revision of `fact`, valid from `scene` on.
pub open spec fn new_revision(id: u128, fact: u128, scene: u128) -> RevisionRow {
    RevisionRow {
        id,
        fact_id: fact,
        valid_from_scene_id: scene,
        valid_until_scene_id: None,
        status: RevisionStatus::Active,
    }
}

/// The rows after accepting a change to `fact` in `scene`: every row
/// superseded as above, then the new active revision `id`.
pub open spec fn supersede_spec(rows: Seq<RevisionRow>, fact: u128, scene: u128, id: u128) -> Seq<
    RevisionRow,
> {
    rows.map_values(|r: RevisionRow| superseded_row(r, fact, scene)).push(
        new_revision(id, fact, scene),
    )
}

/// Accepts a change to `fact` made in `scene`: the active revisions of the
/// fact become superseded, valid until `scene`, and the new revision `id`
/// becomes the active one, valid from `scene`.  The store writes back the
/// rows that changed and inserts the last one.
pub fn supersede(rows: &Vec<RevisionRow>, fact: u128, scene: u128, id: u128) -> (r: Vec<
    RevisionRow,
>)
    ensures
        r@ == supersede_spec(rows@, fact, scene, id),
{
    let mut r: Vec<RevisionRow> = Vec::new();
    let mut i: usize = 0;
    while i < rows.len()
        invariant
            i <= rows.len(),
            r@ == rows@.take(i as int).map_values(|x: RevisionRow| superseded_row(x, fact, scene)),
        decreases rows.len() - i,
    {
        let x = rows[i];
        let y = if x.fact_id == fact && x.status == RevisionStatus::Active {
            RevisionRow {
                status: RevisionStatus::Superseded,
                valid_until_scene_id: Some(scene),
                ..x
            }
        } else {
            x
        };
        r.push(y);
        assert(rows@.take(i as int + 1) =~= rows@.take(i as int).push(x));
        assert(r@ =~= rows@.take(i as int + 1).map_values(
            |x: RevisionRow| superseded_row(x, fact, scene),
        ));
        i = i + 1;
    }
    assert(rows@.take(rows@.len() as int) =~= rows@);
    r.push(
        RevisionRow {
            id,
            fact_id: fact,
            valid_from_scene_id: scene,
            valid_until_scene_id: None,
            status: RevisionStatus::Active,
        },
    );
    r
}

proof fn lemma_superseded_counts(rows: Seq<RevisionRow>, fact: u128, scene: u128, other: u128, n: int)
    requires
        0 <= n <= rows.len(),
    ensures
        active_count(rows.map_values(|r: RevisionRow| superseded_row(r, fact, scene)), fact, n)
            == 0,
        other != fact ==> active_count(
            rows.map_values(|r: RevisionRow| superseded_row(r, fact, scene)),
            other,
            n,
        ) == active_count(rows, other, n),
    decreases n,
{
    if n > 0 {
        lemma_superseded_counts(rows, fact, scene, other, n - 1);
    }
}

proof fn lemma_count_push(rows: Seq<RevisionRow>, x: RevisionRow, fact: u128, n: int)
    requires
        0 <= n <= rows.len(),
    ensures
        active_count(rows.push(x), fact, n) == active_count(rows, fact, n),
    decreases n,
{
    if n > 0 {
        lemma_count_push(rows, x, fact, n - 1);
    }
}

/// After accepting a change to a fact, the fact has exactly one active
/// revision, the new one, and every other fact keeps as many active
/// revisions as before; so no fact ever has more than one.
pub proof fn lemma_supersede_keeps_one_active(
    rows: Seq<RevisionRow>,
    fact: u128,
    scene: u128,
    id: u128,
    other: u128,
)
    ensures
        active_count(supersede_spec(rows, fact, scene, id), fact, rows.len() + 1int) == 1,
        other != fact ==> active_count(supersede_spec(rows, fact, scene, id), other, rows.len() + 1int)
            == active_count(rows, other, rows.len() as int),
{
    let m = rows.map_values(|r: RevisionRow| superseded_row(r, fact, scene));
    lemma_superseded_counts(rows, fact, scene, other, rows.len() as int);
    lemma_count_push(m, new_revision(id, fact, scene), fact, rows.len() as int);
    lemma_count_push(m, new_revision(id, fact, scene), other, rows.len() as int);
}

/// When a revision holds: the time of the scene it is valid from and, once
/// superseded, the time of the scene it is valid until (RFC 3339 texts,
/// which the store compares as text).
#[derive(Debug, Clone)]
pub struct RevisionTimes {
    pub valid_from: String,
    pub valid_until: Option<String>,
}

/// A revision holds at `target`: it began no later, and it was not
/// superseded by then.
pub open spec fn holds_at(t: RevisionTimes, target: Seq<char>) -> bool {
    &&& lex_le(t.valid_from@, target)
    &&& match t.valid_until {
        None => true,
        Some(u) => lex_le(target, u@) && target != u@,
    }
}

/// The positions among the first `n` revisions that hold at `target`, in
/// order.
pub open spec fn holding_positions(ts: Seq<RevisionTimes>, target: Seq<char>, n: int) -> Seq<int>
    decreases n,
{
    if n <= 0 {
        Seq::empty()
    } else if holds_at(ts[n - 1], target) {
        holding_positions(ts, target, n - 1).push(n - 1)
    } else {
        holding_positions(ts, target, n - 1)
    }
}

/// The revisions that hold at the time of a scene, as positions in `ts`:
/// those that began no later and were not superseded by then.
pub fn revisions_holding_at(ts: &Vec<RevisionTimes>, target: &str) -> (r: Vec<usize>)
    ensures
        r@.map_values(|k: usize| k as int) == holding_positions(ts@, target@, ts@.len() as int),
{
    let tv = chars_of(target);
    let mut r: Vec<usize> = Vec::new();
    let mut i: usize = 0;
    while i < ts.len()
        invariant
            i <= ts.len(),
            tv@ == target@,
            r@.map_values(|k: usize| k as int) == holding_positions(ts@, target@, i as int),
        decreases ts.len() - i,
    {
        let from_ok = lex_le_exec(&chars_of(ts[i].valid_from.as_str()), &tv);
        let until_ok = match &ts[i].valid_until {
            None => true,
            Some(u) => lex_le_exec(&tv, &chars_of(u.as_str())) && !text_eq(target, u.as_str()),
        };
        if from_ok && until_ok {
            let ghost before = r@;
            r.push(i);
            assert(r@.map_values(|k: usize| k as int) =~= before.map_values(|k: usize| k as int).push(
                i as int,
            ));
        }
        i = i + 1;
    }
    r
}

} // verus!
