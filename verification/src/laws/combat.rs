//! Laws of fighting: what damage, healing and death saves do to a character, who acts when, and
//! how long things last.

use vstd::prelude::*;
use crate::campaign::{
    index_of, lemma_character, lemma_index, lemma_row, lemma_tables, lemma_update, listed, ordered, row, World,
};
use crate::combat::{
    damage_refusal, damaged, healed, healing_refusal, save_refusal, saved, ApplyDamageParams, ApplyHealingParams,
    DeathSaveParams,
};
use crate::conditions::lemma_newest;
use crate::laws::{lemma_put_changes, only_changes};
use crate::rows::{Condition, Status};

verus! {

// ── Damage and healing ──

/// What damage and healing leave of a character, and that they touch nobody else.
proof fn lemma_hit_points(w: World, d: ApplyDamageParams, h: ApplyHealingParams)
    requires
        w.wf(),
        listed(w.characters, d.character_id),
        d.character_id == h.character_id,
    ensures
        ordered(w.characters),
        ordered(damaged(w, d).characters),
        ordered(healed(w, h).characters),
        listed(damaged(w, d).characters, d.character_id),
        listed(healed(w, h).characters, d.character_id),
        only_changes(w.characters, damaged(w, d).characters, d.character_id),
        only_changes(w.characters, healed(w, h).characters, d.character_id),
        0 <= row(w.characters, d.character_id).hp_current <= row(w.characters, d.character_id).hp_max,
        row(w.characters, d.character_id).hp_max >= 1,
        row(w.characters, d.character_id).id == d.character_id,
{
    lemma_tables(w);
    lemma_character(w, d.character_id);
    let k = index_of(w.characters, d.character_id);
    lemma_update(w.characters, k, damaged(w, d).characters[k]);
    lemma_update(w.characters, k, healed(w, h).characters[k]);
    lemma_put_changes(w.characters, damaged(w, d).characters[k]);
    lemma_put_changes(w.characters, healed(w, h).characters[k]);
}

pub open spec fn hit(character_id: i64, amount: i32) -> ApplyDamageParams {
    ApplyDamageParams { character_id, amount, damage_type: None, source: None, encounter_id: None }
}

pub open spec fn cure(character_id: i64, amount: i32) -> ApplyHealingParams {
    ApplyHealingParams { character_id, amount, source: None }
}

/// Damage takes just its amount, as far as there are hit points to take, and changes nobody but
/// the character that it is done to.
pub proof fn law_damage_takes_its_amount(w: World, p: ApplyDamageParams)
    requires
        w.wf(),
        damage_refusal(w, p) is None,
    ensures
        ({
            let before = row(w.characters, p.character_id);
            let after = row(damaged(w, p).characters, p.character_id);
            &&& p.amount <= before.hp_current ==> before.hp_current - after.hp_current == p.amount
            &&& p.amount > before.hp_current ==> after.hp_current == 0
            &&& after.hp_max == before.hp_max
            &&& after.xp_total == before.xp_total
            &&& after.current_zone_id == before.current_zone_id
            &&& after.role == before.role
            &&& only_changes(w.characters, damaged(w, p).characters, p.character_id)
        }),
{
    lemma_hit_points(w, p, cure(p.character_id, 0));
    let k = index_of(w.characters, p.character_id);
    lemma_update(w.characters, k, damaged(w, p).characters[k]);
}

/// Healing gives back just its amount, as far as there is room up to the maximum, and changes
/// nobody but the character that is healed.
pub proof fn law_healing_gives_its_amount(w: World, p: ApplyHealingParams)
    requires
        w.wf(),
        healing_refusal(w, p) is None,
    ensures
        ({
            let before = row(w.characters, p.character_id);
            let after = row(healed(w, p).characters, p.character_id);
            &&& before.hp_current + p.amount <= before.hp_max ==> after.hp_current - before.hp_current
                == p.amount
            &&& before.hp_current + p.amount > before.hp_max ==> after.hp_current == before.hp_max
            &&& after.hp_max == before.hp_max
            &&& after.xp_total == before.xp_total
            &&& after.current_zone_id == before.current_zone_id
            &&& after.role == before.role
            &&& only_changes(w.characters, healed(w, p).characters, p.character_id)
        }),
{
    lemma_hit_points(w, hit(p.character_id, 0), p);
    let k = index_of(w.characters, p.character_id);
    lemma_update(w.characters, k, healed(w, p).characters[k]);
}

/// Whether the character is there and its hit points are within their bounds.
spec fn sane(w: World, id: i64) -> bool {
    &&& ordered(w.characters)
    &&& listed(w.characters, id)
    &&& 0 <= row(w.characters, id).hp_current <= row(w.characters, id).hp_max
}

/// The character that damage leaves, as far as hit points go.
proof fn lemma_hit(w: World, p: ApplyDamageParams)
    requires
        sane(w, p.character_id),
        p.amount >= 0,
    ensures
        ({
            let v = damaged(w, p);
            let before = row(w.characters, p.character_id);
            let after = row(v.characters, p.character_id);
            &&& sane(v, p.character_id)
            &&& after.hp_max == before.hp_max
            &&& after.hp_current == (if p.amount <= before.hp_current {
                before.hp_current - p.amount
            } else {
                0
            })
            &&& after.status == before.status || (before.status == Status::Alive && after.status
                == Status::Unconscious)
        }),
{
    lemma_row(w.characters, p.character_id);
    let k = index_of(w.characters, p.character_id);
    lemma_update(w.characters, k, damaged(w, p).characters[k]);
}

/// The character that healing leaves, as far as hit points go.
proof fn lemma_cure(w: World, p: ApplyHealingParams)
    requires
        sane(w, p.character_id),
        p.amount >= 0,
    ensures
        ({
            let v = healed(w, p);
            let before = row(w.characters, p.character_id);
            let after = row(v.characters, p.character_id);
            &&& sane(v, p.character_id)
            &&& after.hp_max == before.hp_max
            &&& after.hp_current == (if before.hp_current + p.amount <= before.hp_max {
                before.hp_current + p.amount
            } else {
                before.hp_max as int
            })
            &&& after.status == before.status || after.status == Status::Alive
        }),
{
    lemma_row(w.characters, p.character_id);
    let k = index_of(w.characters, p.character_id);
    lemma_update(w.characters, k, healed(w, p).characters[k]);
}

/// Two blows hurt as much as one that is as hard as both.
pub proof fn law_damage_adds_up(w: World, id: i64, a: i32, b: i32)
    requires
        w.wf(),
        damage_refusal(w, hit(id, a)) is None,
        0 <= b,
        a + b <= i32::MAX,
    ensures
        ({
            let twice = damaged(damaged(w, hit(id, a)), hit(id, b));
            let once = damaged(w, hit(id, (a + b) as i32));
            &&& damage_refusal(damaged(w, hit(id, a)), hit(id, b)) is None
            &&& row(twice.characters, id).hp_current == row(once.characters, id).hp_current
        }),
{
    lemma_tables(w);
    lemma_character(w, id);
    lemma_hit(w, hit(id, a));
    lemma_hit(damaged(w, hit(id, a)), hit(id, b));
    lemma_hit(w, hit(id, (a + b) as i32));
}

/// Two healings help as much as one of both amounts.
pub proof fn law_healing_adds_up(w: World, id: i64, a: i32, b: i32)
    requires
        w.wf(),
        healing_refusal(w, cure(id, a)) is None,
        0 <= b,
        a + b <= i32::MAX,
    ensures
        ({
            let twice = healed(healed(w, cure(id, a)), cure(id, b));
            let once = healed(w, cure(id, (a + b) as i32));
            &&& healing_refusal(healed(w, cure(id, a)), cure(id, b)) is None
            &&& row(twice.characters, id).hp_current == row(once.characters, id).hp_current
        }),
{
    lemma_tables(w);
    lemma_character(w, id);
    lemma_cure(w, cure(id, a));
    lemma_cure(healed(w, cure(id, a)), cure(id, b));
    lemma_cure(w, cure(id, (a + b) as i32));
}

/// Healing gives back what damage of the same amount took.
pub proof fn law_healing_undoes_damage(w: World, id: i64, amount: i32)
    requires
        w.wf(),
        damage_refusal(w, hit(id, amount)) is None,
        amount <= row(w.characters, id).hp_current,
        row(w.characters, id).status != Status::Dead,
    ensures
        ({
            let hurt = damaged(w, hit(id, amount));
            let well = healed(hurt, cure(id, amount));
            &&& healing_refusal(hurt, cure(id, amount)) is None
            &&& row(well.characters, id).hp_current == row(w.characters, id).hp_current
        }),
{
    lemma_tables(w);
    lemma_character(w, id);
    lemma_hit(w, hit(id, amount));
    lemma_cure(damaged(w, hit(id, amount)), cure(id, amount));
}

/// Only a living character that loses its last hit point falls. It lies unconscious, and one
/// mortal wound is added to what it suffers from. Any other damage leaves what it is and what it
/// suffers from as it was.
pub proof fn law_only_the_last_hit_point_fells(w: World, p: ApplyDamageParams)
    requires
        w.wf(),
        damage_refusal(w, p) is None,
    ensures
        ({
            let v = damaged(w, p);
            let before = row(w.characters, p.character_id);
            let after = row(v.characters, p.character_id);
            if before.status == Status::Alive && 0 < before.hp_current <= p.amount {
                &&& after.status == Status::Unconscious
                &&& after.death_save_successes == 0 && after.death_save_failures == 0
                &&& v.conditions.len() == w.conditions.len() + 1
                &&& v.conditions.drop_last() =~= w.conditions
                &&& v.conditions.last().character_id == p.character_id
                &&& v.conditions.last().condition == "mortally_wounded"@
                &&& v.conditions.last().active
            } else {
                &&& after.status == before.status
                &&& after.death_save_successes == before.death_save_successes
                &&& after.death_save_failures == before.death_save_failures
                &&& v.conditions == w.conditions
            }
        }),
{
    lemma_tables(w);
    lemma_character(w, p.character_id);
    let k = index_of(w.characters, p.character_id);
    lemma_update(w.characters, k, damaged(w, p).characters[k]);
}

/// Whether the row is a mortal wound that the character has.
pub open spec fn mortal_wound(r: Condition<Seq<char>>, id: i64) -> bool {
    r.active && r.character_id == id && r.condition == "mortally_wounded"@
}

/// An unconscious character with a mortal wound that is healed by any amount lives again, with
/// no death save on its count, and its newest mortal wound is over. No other healing changes
/// what a character is or what anybody suffers from.
pub proof fn law_any_healing_revives(w: World, p: ApplyHealingParams, i: int)
    requires
        w.wf(),
        healing_refusal(w, p) is None,
        0 <= i < w.conditions.len(),
        mortal_wound(w.conditions[i], p.character_id),
        forall|j: int| i < j < w.conditions.len() ==> !mortal_wound(#[trigger] w.conditions[j], p.character_id),
    ensures
        ({
            let v = healed(w, p);
            let before = row(w.characters, p.character_id);
            let after = row(v.characters, p.character_id);
            if before.status == Status::Unconscious && before.hp_current + p.amount > 0 {
                &&& after.status == Status::Alive
                &&& after.death_save_successes == 0 && after.death_save_failures == 0
                &&& !v.conditions[i].active
                &&& v.conditions.len() == w.conditions.len()
                &&& forall|j: int|
                    0 <= j < w.conditions.len() && j != i ==> #[trigger] v.conditions[j] == w.conditions[j]
            } else {
                &&& after.status == before.status
                &&& v.conditions == w.conditions
            }
        }),
{
    lemma_tables(w);
    lemma_character(w, p.character_id);
    let k = index_of(w.characters, p.character_id);
    lemma_update(w.characters, k, healed(w, p).characters[k]);
    lemma_newest(w.conditions, p.character_id, "mortally_wounded"@, w.conditions.len());
    lemma_index(w.conditions, i);
    lemma_update(w.conditions, i, Condition { active: false, ..w.conditions[i] });
}

/// Without a mortal wound healing leaves what a character is as it was, and what anybody suffers
/// from.
pub proof fn law_healing_without_a_wound(w: World, p: ApplyHealingParams)
    requires
        w.wf(),
        healing_refusal(w, p) is None,
        forall|j: int| 0 <= j < w.conditions.len() ==> !mortal_wound(#[trigger] w.conditions[j], p.character_id),
    ensures
        row(healed(w, p).characters, p.character_id).status == row(w.characters, p.character_id).status,
        healed(w, p).conditions == w.conditions,
{
    lemma_tables(w);
    lemma_character(w, p.character_id);
    let k = index_of(w.characters, p.character_id);
    lemma_update(w.characters, k, healed(w, p).characters[k]);
    lemma_newest(w.conditions, p.character_id, "mortally_wounded"@, w.conditions.len());
}

// ── Death saves ──

/// The character that a death save leaves.
proof fn lemma_save(w: World, p: DeathSaveParams, d20: int)
    requires
        ordered(w.characters),
        listed(w.characters, p.character_id),
    ensures
        ordered(saved(w, p, d20).characters),
        listed(saved(w, p, d20).characters, p.character_id),
        only_changes(w.characters, saved(w, p, d20).characters, p.character_id),
        row(saved(w, p, d20).characters, p.character_id) == saved(w, p, d20).characters[index_of(
            w.characters,
            p.character_id,
        )],
{
    lemma_row(w.characters, p.character_id);
    let k = index_of(w.characters, p.character_id);
    lemma_update(w.characters, k, saved(w, p, d20).characters[k]);
    lemma_put_changes(w.characters, saved(w, p, d20).characters[k]);
}

/// A roll of 10 or more counts one success and no failure, a lower one one failure and no
/// success. The third of either ends it: with the third success the character lives, with at
/// least one hit point and nothing on its count, with the third failure it is dead.
pub proof fn law_death_saves_count(w: World, p: DeathSaveParams, d20: int)
    requires
        w.wf(),
        save_refusal(w, p) is None,
        2 <= d20 <= 19,
        row(w.characters, p.character_id).death_save_successes < 3,
        row(w.characters, p.character_id).death_save_failures < 3,
    ensures
        ({
            let before = row(w.characters, p.character_id);
            let after = row(saved(w, p, d20).characters, p.character_id);
            let good = before.death_save_successes;
            let bad = before.death_save_failures;
            &&& only_changes(w.characters, saved(w, p, d20).characters, p.character_id)
            &&& after.hp_max == before.hp_max
            &&& d20 >= 10 && good < 2 ==> {
                &&& after.status == Status::Unconscious
                &&& after.death_save_successes - good == 1
                &&& after.death_save_failures == bad
                &&& after.hp_current == before.hp_current
            }
            &&& d20 >= 10 && good == 2 ==> {
                &&& after.status == Status::Alive
                &&& after.death_save_successes == 0 && after.death_save_failures == 0
                &&& after.hp_current >= 1 && after.hp_current >= before.hp_current
                &&& before.hp_current <= 1 ==> after.hp_current == 1
            }
            &&& d20 < 10 ==> {
                &&& after.status == (if bad == 2 {
                    Status::Dead
                } else {
                    Status::Unconscious
                })
                &&& after.death_save_failures - bad == 1
                &&& after.death_save_successes == good
                &&& after.hp_current == before.hp_current
            }
        }),
{
    lemma_tables(w);
    lemma_character(w, p.character_id);
    lemma_save(w, p, d20);
}

/// A 1 counts as two failures: it leaves the character as two failed saves do, or as one does
/// where that is its third.
pub proof fn law_one_fails_twice(w: World, p: DeathSaveParams, a: int, b: int)
    requires
        w.wf(),
        save_refusal(w, p) is None,
        row(w.characters, p.character_id).death_save_successes < 3,
        row(w.characters, p.character_id).death_save_failures < 3,
        2 <= a <= 9,
        2 <= b <= 9,
    ensures
        ({
            let one = row(saved(w, p, 1).characters, p.character_id);
            let first = saved(w, p, a);
            let second = row(saved(first, p, b).characters, p.character_id);
            let other = if row(w.characters, p.character_id).death_save_failures == 2 {
                row(first.characters, p.character_id)
            } else {
                second
            };
            &&& one.status == other.status
            &&& one.death_save_failures == other.death_save_failures
            &&& one.death_save_successes == row(w.characters, p.character_id).death_save_successes
            &&& one.hp_current == row(w.characters, p.character_id).hp_current
        }),
{
    lemma_tables(w);
    lemma_character(w, p.character_id);
    lemma_save(w, p, 1);
    lemma_save(w, p, a);
    lemma_save(saved(w, p, a), p, b);
}

/// A 20 brings a character back at once, whatever is on its count, and clears the count.
pub proof fn law_twenty_stabilises(w: World, p: DeathSaveParams)
    requires
        w.wf(),
        save_refusal(w, p) is None,
    ensures
        ({
            let before = row(w.characters, p.character_id);
            let after = row(saved(w, p, 20).characters, p.character_id);
            &&& after.status == Status::Alive
            &&& after.death_save_successes == 0 && after.death_save_failures == 0
            &&& before.hp_current <= 1 ==> after.hp_current == 1
            &&& before.hp_current > 1 ==> after.hp_current == before.hp_current
        }),
{
    lemma_tables(w);
    lemma_character(w, p.character_id);
    lemma_save(w, p, 20);
}

/// Who is stabilised by a death save is rid of its newest mortal wound; no other save changes
/// what anybody suffers from.
pub proof fn law_stabilised_have_no_wound(w: World, p: DeathSaveParams, d20: int, i: int)
    requires
        w.wf(),
        save_refusal(w, p) is None,
        0 <= i < w.conditions.len(),
        mortal_wound(w.conditions[i], p.character_id),
        forall|j: int| i < j < w.conditions.len() ==> !mortal_wound(#[trigger] w.conditions[j], p.character_id),
    ensures
        ({
            let v = saved(w, p, d20);
            if row(v.characters, p.character_id).status == Status::Alive {
                &&& !v.conditions[i].active
                &&& v.conditions.len() == w.conditions.len()
                &&& forall|j: int|
                    0 <= j < w.conditions.len() && j != i ==> #[trigger] v.conditions[j] == w.conditions[j]
            } else {
                v.conditions == w.conditions
            }
        }),
{
    lemma_tables(w);
    lemma_character(w, p.character_id);
    lemma_save(w, p, d20);
    lemma_newest(w.conditions, p.character_id, "mortally_wounded"@, w.conditions.len());
    lemma_index(w.conditions, i);
    lemma_update(w.conditions, i, Condition { active: false, ..w.conditions[i] });
}

} // verus!
