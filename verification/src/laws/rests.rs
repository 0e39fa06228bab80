//! Laws of rest: what a rest gives back.

use vstd::prelude::*;
use crate::campaign::{lemma_character, lemma_tables, row, World};
use crate::laws::{lemma_put_changes, only_changes};
use crate::rests::{refilled, refreshed, rest_ok, rest_refusal, rested, RestResult};
use crate::rows::{views, Recharge, Resource, Status};
use crate::world::campaign_hour;

verus! {

/// A short rest fills what a short rest recharges, a long rest also what a long rest or the dawn
/// does; nothing else is filled, nobody else's is, and nothing is ever lost by a rest.
pub proof fn law_rest_fills_what_it_recharges(w: World, id: i64, long: bool, i: int)
    requires
        w.wf(),
        rest_refusal(w, id) is None,
        0 <= i < w.resources.len(),
    ensures
        ({
            let before = w.resources[i];
            let after = rested(w, id, long).resources[i];
            let fills = before.character_id == id && (before.recharge == Recharge::ShortRest || long && (
            before.recharge == Recharge::LongRest || before.recharge == Recharge::Dawn));
            &&& rested(w, id, long).resources.len() == w.resources.len()
            &&& fills ==> after.current == before.max
            &&& !fills ==> after.current == before.current
            &&& after.current >= before.current
            &&& after.max == before.max && after.name == before.name && after.recharge == before.recharge
            &&& after.character_id == before.character_id
        }),
{
    assert(0 <= w.resources[i].current <= w.resources[i].max) by {
        reveal(World::wf);
    }
}

/// A long rest brings hit points to the maximum and, for the living, clears the count of death
/// saves; a short rest leaves the character as it is. Neither changes what else there is to it, or
/// anybody else. What is told is what was gained.
pub proof fn law_long_rest_heals(w: World, id: i64, long: bool, after: World, r: RestResult)
    requires
        w.wf(),
        rest_refusal(w, id) is None,
        rest_ok(w, id, long, after, r),
    ensures
        ({
            let before = row(w.characters, id);
            let rested = row(after.characters, id);
            &&& only_changes(w.characters, after.characters, id)
            &&& !long ==> rested == before && r.hp_restored is None
            &&& long ==> {
                &&& rested.hp_current == before.hp_max && rested.hp_max == before.hp_max
                &&& rested.status == before.status
                &&& rested.xp_total == before.xp_total && rested.current_zone_id == before.current_zone_id
                &&& before.status == Status::Alive ==> rested.death_save_successes == 0
                    && rested.death_save_failures == 0
                &&& before.status != Status::Alive ==> rested.death_save_successes == before.death_save_successes
                    && rested.death_save_failures == before.death_save_failures
                &&& before.hp_current < before.hp_max ==> r.hp_restored is Some && r.hp_restored->0
                    == rested.hp_current - before.hp_current
                &&& before.hp_current == before.hp_max ==> r.hp_restored is None
            }
            &&& after.conditions == w.conditions && after.effects == w.effects && after.items == w.items
        }),
{
    lemma_tables(w);
    lemma_character(w, id);
    lemma_put_changes(w.characters, refreshed(row(w.characters, id), campaign_hour(w)));
}

proof fn lemma_refilled(rows: Seq<Resource<Seq<char>>>, id: i64, long: bool, i: int)
    requires
        0 <= i < rows.len(),
        rows[i].character_id == id,
        rows[i].recharge == Recharge::ShortRest || long && (rows[i].recharge == Recharge::LongRest
            || rows[i].recharge == Recharge::Dawn),
        rows[i].current < rows[i].max,
    ensures
        exists|k: int|
            0 <= k < refilled(rows, id, long).len() && {
                let x = #[trigger] refilled(rows, id, long)[k];
                x.name == rows[i].name && x.from == rows[i].current && x.to == rows[i].max
            },
    decreases rows.len(),
{
    let rest = refilled(rows.drop_last(), id, long);
    let all = refilled(rows, id, long);
    if i == rows.len() - 1 {
        let x = all[rest.len() as int];
        assert(x.name == rows[i].name && x.from == rows[i].current && x.to == rows[i].max);
    } else {
        lemma_refilled(rows.drop_last(), id, long, i);
        let k = choose|k: int|
            0 <= k < rest.len() && {
                let x = #[trigger] rest[k];
                x.name == rows[i].name && x.from == rows[i].current && x.to == rows[i].max
            };
        assert(all[k] == rest[k]);
    }
}

proof fn lemma_refilled_from(rows: Seq<Resource<Seq<char>>>, id: i64, long: bool, k: int)
    requires
        0 <= k < refilled(rows, id, long).len(),
    ensures
        ({
            let x = refilled(rows, id, long)[k];
            exists|i: int|
                0 <= i < rows.len() && (#[trigger] rows[i]).character_id == id && rows[i].name == x.name
                    && rows[i].current == x.from && rows[i].max == x.to && x.from < x.to
        }),
    decreases rows.len(),
{
    let rest = refilled(rows.drop_last(), id, long);
    let x = refilled(rows, id, long)[k];
    if k < rest.len() {
        lemma_refilled_from(rows.drop_last(), id, long, k);
        let i = choose|i: int|
            0 <= i < rows.drop_last().len() && (#[trigger] rows.drop_last()[i]).character_id == id
                && rows.drop_last()[i].name == x.name && rows.drop_last()[i].current == x.from
                && rows.drop_last()[i].max == x.to && x.from < x.to;
        assert(rows[i] == rows.drop_last()[i]);
    } else {
        assert(rows[rows.len() - 1].name == x.name);
    }
}

/// What a rest tells as filled is each resource that had less than it can have and now has all,
/// with what it had and has, and nothing else.
pub proof fn law_what_is_filled_is_told(
    w: World,
    id: i64,
    long: bool,
    after: World,
    r: RestResult,
    i: int,
    k: int,
)
    requires
        w.wf(),
        rest_refusal(w, id) is None,
        rest_ok(w, id, long, after, r),
        0 <= i < w.resources.len(),
    ensures
        after.resources[i].current != w.resources[i].current ==> exists|j: int|
            0 <= j < r.refilled_resources@.len() && {
                let x = #[trigger] views(r.refilled_resources@)[j];
                x.name == w.resources[i].name && x.from == w.resources[i].current && x.to
                    == after.resources[i].current
            },
        0 <= k < r.refilled_resources@.len() ==> {
            let x = views(r.refilled_resources@)[k];
            exists|j: int|
                0 <= j < w.resources.len() && (#[trigger] w.resources[j]).character_id == id && w.resources[j].name
                    == x.name && w.resources[j].current == x.from && w.resources[j].max == x.to && x.from < x.to
        },
{
    law_rest_fills_what_it_recharges(w, id, long, i);
    if after.resources[i].current != w.resources[i].current {
        lemma_refilled(w.resources, id, long, i);
    }
    if 0 <= k < r.refilled_resources@.len() {
        lemma_refilled_from(w.resources, id, long, k);
    }
}

} // verus!
