//! Upgrading an older store: the sense columns added after the first
//! schema, and the statements that add those a table lacks.
use vstd::prelude::*;
use crate::text::{contains_string, owned, push_str, views};

verus! {

/// The sense columns added to `character_sensations` after its first
/// version, in the order they are added.
pub open spec fn late_sense_columns() -> Seq<Seq<char>> {
    seq!["emotion_ids_json"@, "gesture_ids_json"@, "atmosphere_ids_json"@]
}

fn late_sense_column(i: usize) -> (c: &'static str)
    requires
        i < 3,
    ensures
        c@ == late_sense_columns()[i as int],
{
    if i == 0 {
        "emotion_ids_json"
    } else if i == 1 {
        "gesture_ids_json"
    } else {
        "atmosphere_ids_json"
    }
}

/// The statement that adds a sense column, empty lists by default.
pub open spec fn add_column_sql(column: Seq<char>) -> Seq<char> {
    "ALTER TABLE character_sensations ADD COLUMN "@ + column + " TEXT NOT NULL DEFAULT '[]'"@
}

/// The statements for the first `n` late columns that `existing` lacks.
pub open spec fn missing_column_sql(existing: Seq<Seq<char>>, n: int) -> Seq<Seq<char>>
    decreases n,
{
    if n <= 0 {
        Seq::empty()
    } else {
        let before = missing_column_sql(existing, n - 1);
        let column = late_sense_columns()[n - 1];
        if existing.contains(column) {
            before
        } else {
            before.push(add_column_sql(column))
        }
    }
}

/// The statements that bring `character_sensations` up to date, given the
/// names of the columns it has: one per late sense column it lacks, in
/// order.
pub fn sense_column_upgrades(existing: &Vec<String>) -> (r: Vec<String>)
    ensures
        views(r@) == missing_column_sql(views(existing@), 3),
{
    let mut r: Vec<String> = Vec::new();
    let mut i: usize = 0;
    while i < 3
        invariant
            i <= 3,
            views(r@) == missing_column_sql(views(existing@), i as int),
        decreases 3 - i,
    {
        let column = late_sense_column(i);
        if !contains_string(existing, column) {
            let mut sql = owned("ALTER TABLE character_sensations ADD COLUMN ");
            push_str(&mut sql, column);
            push_str(&mut sql, " TEXT NOT NULL DEFAULT '[]'");
            let ghost before = r@;
            r.push(sql);
            assert(views(r@) =~= views(before).push(sql@));
        }
        i = i + 1;
    }
    r
}

} // verus!
