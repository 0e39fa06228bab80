//! Laws of combat: who takes part and when they act, how long things last, what is left of a
//! combat that is over, and what awaits the dead.

use vstd::prelude::*;
use crate::campaign::{
    index_of, lemma_character, lemma_encounter, lemma_index, lemma_tables, lemma_update, listed, row, World,
};
use crate::combat::{
    after_turn, character_ids, combat_ended, end_refusal, expired_conditions, expired_effects, expiring_conditions,
    expiring_effects, in_order, law_conditions_last_their_rounds, law_effects_last_their_rounds,
    law_order_of_initiative, lemma_of_encounter, lemma_of_encounter_take, lemma_order_members, lemma_other_combat,
    lemma_participants_listed, lemma_ticks_keep_turns, of_encounter, picked, rolled, rolls_ok, start_ok,
    start_refusal, started, superseded, tick_effects, tick_of, turn_now, turn_order, turned, weight_sum, wraps,
    InitiativeEntry, StartResult, Tick,
};
use crate::content::DeathEvent;
use crate::laws::{lemma_put_changes, only_changes};
use crate::rows::{views, Condition, Effect, Encounter, EncounterParticipant};

verus! {

// ── The order ──

/// Whether the character takes part in the encounter.
pub open spec fn takes_part(w: World, id: i64, character_id: i64) -> bool {
    exists|m: int|
        0 <= m < w.encounter_participants.len() && (#[trigger] w.encounter_participants[m]).encounter_id == id
            && w.encounter_participants[m].character_id == character_id
}

/// The order of initiative holds each of the rows, and only them. Who comes earlier has rolled
/// at least as high as who comes later, and who has not rolled comes last. Where ties go by id,
/// the smaller id comes first.
pub proof fn law_higher_initiative_comes_first(rows: Seq<EncounterParticipant>, by_id: bool, i: int, j: int)
    requires
        0 <= i < j < rows.len(),
    ensures
        ({
            let order = in_order(rows, by_id);
            let (a, b) = (order[i], order[j]);
            &&& order.len() == rows.len()
            &&& order.to_multiset() == rows.to_multiset()
            &&& b.initiative is Some ==> a.initiative is Some && a.initiative->0 >= b.initiative->0
            &&& by_id && a.initiative == b.initiative ==> a.character_id <= b.character_id
        }),
{
    law_order_of_initiative(rows, by_id);
    let order = in_order(rows, by_id);
    let (a, b) = (order[i], order[j]);
    assert(!crate::combat::goes_before(b, a, by_id));
}

/// The rows of an encounter are those of the table that name it, in the order of the table.
proof fn lemma_members(rows: Seq<EncounterParticipant>, id: i64)
    ensures
        forall|x: EncounterParticipant|
            #![trigger of_encounter(rows, id).contains(x)]
            of_encounter(rows, id).contains(x) <==> rows.contains(x) && x.encounter_id == id,
{
    lemma_of_encounter(rows, id);
    assert forall|x: EncounterParticipant|
        #![trigger of_encounter(rows, id).contains(x)]
        rows.contains(x) && x.encounter_id == id implies of_encounter(rows, id).contains(x) by {
        let m = choose|m: int| 0 <= m < rows.len() && rows[m] == x;
        lemma_of_encounter_take(rows, id, m);
        assert(of_encounter(rows, id)[of_encounter(rows.take(m), id).len() as int] == x);
    }
    assert forall|x: EncounterParticipant|
        #![trigger of_encounter(rows, id).contains(x)]
        of_encounter(rows, id).contains(x) implies rows.contains(x) && x.encounter_id == id by {
        let k = choose|k: int| 0 <= k < of_encounter(rows, id).len() && of_encounter(rows, id)[k] == x;
        assert(of_encounter(rows, id)[k].encounter_id == id);
    }
}

/// Everyone who takes part in the encounter has a turn in it, and nobody else.
pub proof fn law_everyone_has_a_turn(w: World, id: i64, character_id: i64)
    ensures
        character_ids(turn_order(w, id)).contains(character_id) <==> takes_part(w, id, character_id),
{
    broadcast use vstd::seq_lib::group_to_multiset_ensures;

    let rows = w.encounter_participants;
    let members = of_encounter(rows, id);
    let order = turn_order(w, id);
    let ids = character_ids(order);
    lemma_members(rows, id);
    lemma_order_members(members, true);
    law_order_of_initiative(members, true);
    if ids.contains(character_id) {
        let k = choose|k: int| 0 <= k < ids.len() && ids[k] == character_id;
        assert(members.contains(order[k]));
        assert(rows.contains(order[k]));
        let m = choose|m: int| 0 <= m < rows.len() && rows[m] == order[k];
        assert(rows[m].encounter_id == id && rows[m].character_id == character_id);
    }
    if takes_part(w, id, character_id) {
        let m = choose|m: int|
            0 <= m < rows.len() && (#[trigger] rows[m]).encounter_id == id && rows[m].character_id == character_id;
        let x = rows[m];
        assert(rows.contains(x));
        assert(members.contains(x));
        assert(members.to_multiset().count(x) > 0);
        assert(order.to_multiset().count(x) > 0);
        assert(order.contains(x));
        let k = choose|k: int| 0 <= k < order.len() && order[k] == x;
        assert(ids[k] == character_id);
    }
}

/// Where combat starts, everyone in the encounter has an initiative of their own roll and their
/// own bonus, the rolls going to them in the order in which they joined, and nobody has acted.
/// In another encounter that the start takes out of combat nobody has an initiative any more;
/// elsewhere nothing changes.
pub proof fn law_initiative_is_roll_and_bonus(w: World, id: i64, rolls: Seq<i32>, i: int)
    requires
        w.wf(),
        start_refusal(w, id) is None,
        rolls_ok(w, id, rolls),
        0 <= i < w.encounter_participants.len(),
    ensures
        ({
            let before = w.encounter_participants[i];
            let v = started(w, id, rolls);
            let after = v.encounter_participants[i];
            let k = of_encounter(w.encounter_participants.take(i), id).len() as int;
            &&& v.encounter_participants.len() == w.encounter_participants.len()
            &&& after.encounter_id == before.encounter_id
            &&& after.character_id == before.character_id
            &&& after.side == before.side
            &&& before.encounter_id == id ==> {
                &&& 0 <= k < rolls.len()
                &&& after.initiative is Some
                &&& after.initiative->0 - row(w.characters, before.character_id).initiative_bonus == rolls[k]
                &&& !after.has_acted_this_round
            }
            &&& before.encounter_id != id && (superseded(w, id) is None
                || w.encounters[superseded(w, id)->0].id != before.encounter_id) ==> after == before
            &&& before.encounter_id != id && superseded(w, id) is Some
                && w.encounters[superseded(w, id)->0].id == before.encounter_id ==> after.initiative is None
                && !after.has_acted_this_round
        }),
{
    let rows = w.encounter_participants;
    lemma_tables(w);
    lemma_of_encounter_take(rows, id, i);
    lemma_other_combat(w.encounters, id, w.encounters.len());
    lemma_of_encounter(rows, id);
    let free = crate::combat::cleared_for(w, id).encounter_participants;
    if let Some(j) = superseded(w, id) {
        crate::combat::lemma_out_of_combat_keeps(rows.take(i), w.encounters[j].id, id);
        assert(free.take(i) =~= crate::combat::out_of_combat(rows.take(i), w.encounters[j].id));
    }
    if rows[i].encounter_id == id {
        crate::combat::lemma_participants_listed(w, id);
        let k = of_encounter(rows.take(i), id).len() as int;
        assert(of_encounter(rows, id)[k] == rows[i]);
        assert(listed(w.characters, of_encounter(rows, id)[k].character_id));
        crate::campaign::lemma_character(w, rows[i].character_id);
        assert(1 <= rolls[k] <= 20);
    }
}

/// Starting combat marks the encounter as in combat, in round 1, with the first to act; it
/// takes every other encounter that was in combat out of it, and leaves the rest.
pub proof fn law_combat_begins_in_round_one(w: World, id: i64, rolls: Seq<i32>, i: int)
    requires
        w.wf(),
        crate::combat::one_combat(w),
        start_refusal(w, id) is None,
        0 <= i < w.encounters.len(),
    ensures
        ({
            let before = w.encounters[i];
            let after = started(w, id, rolls).encounters[i];
            &&& started(w, id, rolls).encounters.len() == w.encounters.len()
            &&& after.status == before.status && after.xp_budget == before.xp_budget && after.goal == before.goal
            &&& before.id == id ==> after.in_combat && after.current_round == Some(1i32) && after.turn_index
                == Some(0i32)
            &&& before.id != id && before.in_combat ==> !after.in_combat && after.current_round is None
                && after.turn_index is None
            &&& before.id != id && !before.in_combat ==> after == before
        }),
{
    lemma_tables(w);
    lemma_encounter(w, id);
    let n = w.encounters.len();
    let k = index_of(w.encounters, id);
    lemma_other_combat(w.encounters, id, n);
    lemma_index(w.encounters, i);
    let free = crate::combat::cleared_for(w, id);
    if let Some(j) = superseded(w, id) {
        lemma_index(w.encounters, j);
        lemma_update(
            w.encounters,
            j,
            Encounter { in_combat: false, current_round: None, turn_index: None, ..w.encounters[j] },
        );
        if i != j && i != k {
            assert(w.encounters[j].in_combat);
            assert(!w.encounters[i].in_combat);
        }
    }
    lemma_index(free.encounters, k);
    lemma_update(
        free.encounters,
        k,
        Encounter { in_combat: true, current_round: Some(1), turn_index: Some(0), ..row(w.encounters, id) },
    );
}

// ── Turns and rounds ──

/// Nothing but the flag that tells whether they have acted changes of anybody in a turn. Within
/// a round it is set for the one whose turn it was; with a new round it is off for all.
pub proof fn law_turns_are_noted(w: World, id: i64, i: int)
    requires
        0 <= i < w.encounter_participants.len(),
    ensures
        ({
            let before = w.encounter_participants[i];
            let after = turned(w, id).encounter_participants[i];
            let actor = turn_order(w, id)[turn_now(w, id)].character_id;
            &&& turned(w, id).encounter_participants.len() == w.encounter_participants.len()
            &&& after.encounter_id == before.encounter_id
            &&& after.character_id == before.character_id
            &&& after.side == before.side
            &&& after.initiative == before.initiative
            &&& before.encounter_id != id ==> after == before
            &&& before.encounter_id == id && wraps(w, id) ==> !after.has_acted_this_round
            &&& before.encounter_id == id && !wraps(w, id) && before.character_id == actor
                ==> after.has_acted_this_round
            &&& before.encounter_id == id && !wraps(w, id) && before.character_id != actor ==> after == before
        }),
{
    let actor = turn_order(w, id)[turn_now(w, id)].character_id;
    let noted = World {
        encounter_participants: after_turn(w.encounter_participants, id, actor, wraps(w, id)),
        ..w
    };
    let t = tick_of(w, id);
    lemma_ticks_keep_turns(noted, t, w.effects.len(), 0);
    lemma_ticks_keep_turns(tick_effects(noted, t, w.effects.len()), t, 0, w.conditions.len());
}

/// With each new round an effect that lasts for rounds, on somebody in the encounter, has one
/// round less to go, and with the last one it is over. Within a round, and on anybody else,
/// effects stay as they are, and so do those that do not count rounds or are over.
pub proof fn law_effects_count_down(w: World, id: i64, i: int)
    requires
        0 <= i < w.effects.len(),
    ensures
        ({
            let before = w.effects[i];
            let after = turned(w, id).effects[i];
            &&& !wraps(w, id) || !before.active || before.expires_after_rounds is None || !takes_part(
                w,
                id,
                before.target_character_id,
            ) ==> after == before
            &&& wraps(w, id) && before.active && before.expires_after_rounds is Some && takes_part(
                w,
                id,
                before.target_character_id,
            ) ==> {
                &&& before.expires_after_rounds->0 >= 2 ==> {
                    &&& after.active
                    &&& after.expires_after_rounds is Some
                    &&& before.expires_after_rounds->0 - after.expires_after_rounds->0 == 1
                    &&& after.modifier == before.modifier
                    &&& after.target_character_id == before.target_character_id
                    &&& after.target_key == before.target_key
                }
                &&& before.expires_after_rounds->0 <= 1 ==> !after.active
            }
        }),
{
    law_effects_last_their_rounds(w, id, i);
    law_everyone_has_a_turn(w, id, w.effects[i].target_character_id);
}

/// With each new round a condition that lasts for rounds, of somebody in the encounter, has one
/// round less to go, and with the last one it is over. All others stay as they are.
pub proof fn law_conditions_count_down(w: World, id: i64, i: int)
    requires
        0 <= i < w.conditions.len(),
    ensures
        ({
            let before = w.conditions[i];
            let after = turned(w, id).conditions[i];
            &&& !wraps(w, id) || !before.active || before.expires_after_rounds is None || !takes_part(
                w,
                id,
                before.character_id,
            ) ==> after == before
            &&& wraps(w, id) && before.active && before.expires_after_rounds is Some && takes_part(
                w,
                id,
                before.character_id,
            ) ==> {
                &&& before.expires_after_rounds->0 >= 2 ==> {
                    &&& after.active
                    &&& after.expires_after_rounds is Some
                    &&& before.expires_after_rounds->0 - after.expires_after_rounds->0 == 1
                    &&& after.condition == before.condition
                    &&& after.character_id == before.character_id
                    &&& after.severity == before.severity
                }
                &&& before.expires_after_rounds->0 <= 1 ==> !after.active
            }
        }),
{
    law_conditions_last_their_rounds(w, id, i);
    law_everyone_has_a_turn(w, id, w.conditions[i].character_id);
}

proof fn lemma_expiring_effects(rows: Seq<Effect<Seq<char>>>, t: Tick, n: nat, x: i64)
    requires
        n <= rows.len(),
    ensures
        expiring_effects(rows, t, n).contains(x) <==> exists|i: int|
            0 <= i < n && (#[trigger] rows[i]).id == x && rows[i].active && rows[i].expires_after_rounds is Some
                && rows[i].expires_after_rounds->0 <= 1 && t.ids.contains(rows[i].target_character_id),
    decreases n,
{
    if n > 0 {
        lemma_expiring_effects(rows, t, (n - 1) as nat, x);
        let rest = expiring_effects(rows, t, (n - 1) as nat);
        let all = expiring_effects(rows, t, n);
        if all.contains(x) && !rest.contains(x) {
            let k = choose|k: int| 0 <= k < all.len() && all[k] == x;
            if k < rest.len() {
                assert(rest[k] == x);
            }
            assert(rows[n - 1].id == x);
        }
        if rest.contains(x) {
            let k = choose|k: int| 0 <= k < rest.len() && rest[k] == x;
            assert(all[k] == x);
        }
        if all.len() > rest.len() {
            assert(all[rest.len() as int] == rows[n - 1].id);
        }
    }
}

proof fn lemma_expiring_conditions(rows: Seq<Condition<Seq<char>>>, t: Tick, n: nat, x: i64)
    requires
        n <= rows.len(),
    ensures
        expiring_conditions(rows, t, n).contains(x) <==> exists|i: int|
            0 <= i < n && (#[trigger] rows[i]).id == x && rows[i].active && rows[i].expires_after_rounds is Some
                && rows[i].expires_after_rounds->0 <= 1 && t.ids.contains(rows[i].character_id),
    decreases n,
{
    if n > 0 {
        lemma_expiring_conditions(rows, t, (n - 1) as nat, x);
        let rest = expiring_conditions(rows, t, (n - 1) as nat);
        let all = expiring_conditions(rows, t, n);
        if all.contains(x) && !rest.contains(x) {
            let k = choose|k: int| 0 <= k < all.len() && all[k] == x;
            if k < rest.len() {
                assert(rest[k] == x);
            }
            assert(rows[n - 1].id == x);
        }
        if rest.contains(x) {
            let k = choose|k: int| 0 <= k < rest.len() && rest[k] == x;
            assert(all[k] == x);
        }
        if all.len() > rest.len() {
            assert(all[rest.len() as int] == rows[n - 1].id);
        }
    }
}

/// What a turn tells as run out is what was active before it and is not after it.
pub proof fn law_what_runs_out_is_told(w: World, id: i64, i: int, j: int)
    requires
        w.wf(),
        0 <= i < w.effects.len(),
        0 <= j < w.conditions.len(),
    ensures
        expired_effects(w, id).contains(w.effects[i].id) <==> w.effects[i].active && !turned(w, id).effects[i].active,
        expired_conditions(w, id).contains(w.conditions[j].id) <==> w.conditions[j].active && !turned(
            w,
            id,
        ).conditions[j].active,
{
    lemma_tables(w);
    let t = tick_of(w, id);
    law_effects_count_down(w, id, i);
    law_conditions_count_down(w, id, j);
    law_everyone_has_a_turn(w, id, w.effects[i].target_character_id);
    law_everyone_has_a_turn(w, id, w.conditions[j].character_id);
    lemma_expiring_effects(w.effects, t, w.effects.len(), w.effects[i].id);
    lemma_expiring_conditions(w.conditions, t, w.conditions.len(), w.conditions[j].id);
    lemma_index(w.effects, i);
    lemma_index(w.conditions, j);
    if wraps(w, id) {
        if expired_effects(w, id).contains(w.effects[i].id) {
            let k = choose|k: int|
                0 <= k < w.effects.len() && (#[trigger] w.effects[k]).id == w.effects[i].id && w.effects[k].active
                    && w.effects[k].expires_after_rounds is Some && w.effects[k].expires_after_rounds->0 <= 1
                    && t.ids.contains(w.effects[k].target_character_id);
            lemma_index(w.effects, k);
        }
        if expired_conditions(w, id).contains(w.conditions[j].id) {
            let k = choose|k: int|
                0 <= k < w.conditions.len() && (#[trigger] w.conditions[k]).id == w.conditions[j].id
                    && w.conditions[k].active && w.conditions[k].expires_after_rounds is Some
                    && w.conditions[k].expires_after_rounds->0 <= 1 && t.ids.contains(w.conditions[k].character_id);
            lemma_index(w.conditions, k);
        }
    }
}

// ── The end ──

/// A combat that is over leaves the encounter as it was but out of combat, without a round or a
/// turn, and everyone in it without initiative; they all still take part. Nobody and nothing
/// else is touched, and another combat can be started in it.
pub proof fn law_end_leaves_the_encounter(w: World, id: i64, now: i64, reason: Seq<char>, auto: bool, i: int)
    requires
        w.wf(),
        end_refusal(w, id) is None,
        0 <= i < w.encounter_participants.len(),
    ensures
        ({
            let v = combat_ended(w, id, now, reason, auto);
            let before = w.encounter_participants[i];
            let after = v.encounter_participants[i];
            &&& only_changes(w.encounters, v.encounters, id)
            &&& !row(v.encounters, id).in_combat
            &&& row(v.encounters, id).current_round is None
            &&& row(v.encounters, id).turn_index is None
            &&& row(v.encounters, id).status == row(w.encounters, id).status
            &&& row(v.encounters, id).xp_budget == row(w.encounters, id).xp_budget
            &&& v.encounter_participants.len() == w.encounter_participants.len()
            &&& after.encounter_id == before.encounter_id
            &&& after.character_id == before.character_id
            &&& after.side == before.side
            &&& before.encounter_id == id ==> after.initiative is None && !after.has_acted_this_round
            &&& before.encounter_id != id ==> after == before
            &&& v.characters == w.characters
            &&& end_refusal(v, id) is Some
            &&& row(w.encounters, id).status == crate::rows::EncounterStatus::Active ==> start_refusal(v, id) is None
        }),
{
    lemma_tables(w);
    lemma_encounter(w, id);
    lemma_put_changes(
        w.encounters,
        Encounter { in_combat: false, current_round: None, turn_index: None, ..row(w.encounters, id) },
    );
}

// ── Death events ──

/// An event counts as often as its weight says, and once where that says less; together events
/// count as often as each of them does, so that of as many rolls each event gets its part.
pub proof fn law_weights_add_up(a: Seq<DeathEvent>, b: Seq<DeathEvent>)
    ensures
        weight_sum(a + b) == weight_sum(a) + weight_sum(b),
        a.len() == 1 && a[0].weight >= 1 ==> weight_sum(a) == a[0].weight,
        a.len() == 1 && a[0].weight < 1 ==> weight_sum(a) == 1,
        a.len() == 0 ==> weight_sum(a) == 0,
    decreases b.len(),
{
    if a.len() == 1 {
        assert(a.drop_last().len() == 0);
        assert(weight_sum(a.drop_last()) == 0);
    }
    if b.len() == 0 {
        assert(a + b =~= a);
    } else {
        law_weights_add_up(a, b.drop_last());
        assert((a + b).drop_last() =~= a + b.drop_last());
    }
}

/// A roll falls on the event for which it is above the weights of all before it and not above
/// them and its own, and on no other.
pub proof fn law_roll_falls_on_one_event(events: Seq<DeathEvent>, roll: int, k: int)
    requires
        0 <= k < events.len(),
    ensures
        weight_sum(events.take(k)) < roll <= weight_sum(events.take(k + 1)) ==> picked(events, roll) == k,
{
    if weight_sum(events.take(k)) < roll <= weight_sum(events.take(k + 1)) {
        crate::combat::lemma_picked(events, roll, k);
    }
}

// ── What is told ──

/// Whether what is told of the order is what participant `k` of the encounter has rolled.
pub open spec fn rolled_so(w: World, id: i64, rolls: Seq<i32>, x: InitiativeEntry<Seq<char>>, k: int) -> bool {
    let members = of_encounter(w.encounter_participants, id);
    &&& 0 <= k < members.len()
    &&& x.character_id == members[k].character_id
    &&& x.side == members[k].side.text()
    &&& x.initiative == rolls[k] + row(w.characters, members[k].character_id).initiative_bonus
}

/// When combat starts the whole order is told, each with what it rolled and its bonus, the higher
/// ones first. If another encounter was in combat, it is named and is so no more.
pub proof fn law_start_tells_the_order(
    w: World,
    id: i64,
    rolls: Seq<i32>,
    after: World,
    r: StartResult,
    i: int,
    j: int,
)
    requires
        w.wf(),
        start_refusal(w, id) is None,
        rolls_ok(w, id, rolls),
        start_ok(w, id, rolls, after, r),
    ensures
        ({
            let told = views(r.initiative_order@);
            &&& r.current_round == 1
            &&& told.len() == of_encounter(w.encounter_participants, id).len()
            &&& 0 <= i < told.len() ==> exists|k: int| #[trigger] rolled_so(w, id, rolls, told[i], k)
            &&& 0 <= i < j < told.len() ==> told[i].initiative >= told[j].initiative
            &&& r.auto_ended_encounter_id is None ==> forall|k: int|
                0 <= k < w.encounters.len() ==> !((#[trigger] w.encounters[k]).in_combat && w.encounters[k].id != id)
            &&& r.auto_ended_encounter_id matches Some(other) ==> {
                &&& other != id
                &&& row(w.encounters, other).in_combat
                &&& !row(after.encounters, other).in_combat
            }
        }),
{
    let told = views(r.initiative_order@);
    let fresh = rolled(w, id, rolls);
    let order = in_order(fresh, false);
    let members = of_encounter(w.encounter_participants, id);
    lemma_participants_listed(w, id);
    lemma_order_members(fresh, false);
    law_order_of_initiative(fresh, false);
    assert forall|k: int| 0 <= k < members.len() implies fresh[k].initiative == Some(
        (rolls[k] + row(w.characters, (#[trigger] members[k]).character_id).initiative_bonus) as i32,
    ) && -100 <= row(w.characters, members[k].character_id).initiative_bonus <= 100 by {
        lemma_character(w, members[k].character_id);
        assert(1 <= rolls[k] <= 20);
    }
    if 0 <= i < told.len() {
        assert(fresh.contains(order[i]));
        let k = choose|k: int| 0 <= k < fresh.len() && fresh[k] == order[i];
        assert(members[k].encounter_id == members[k].encounter_id);
        assert(rolled_so(w, id, rolls, told[i], k));
        if i < j < told.len() {
            assert(fresh.contains(order[j]));
            let m = choose|m: int| 0 <= m < fresh.len() && fresh[m] == order[j];
            assert(!crate::combat::goes_before(order[j], order[i], false));
        }
    }
    lemma_tables(w);
    lemma_encounter(w, id);
    lemma_other_combat(w.encounters, id, w.encounters.len());
    if let Some(k) = superseded(w, id) {
        let other = w.encounters[k].id;
        lemma_index(w.encounters, k);
        let calm = Encounter { in_combat: false, current_round: None, turn_index: None, ..row(w.encounters, other) };
        lemma_update(w.encounters, k, calm);
        let free = w.encounters.update(k, calm);
        let on = Encounter { in_combat: true, current_round: Some(1), turn_index: Some(0), ..row(w.encounters, id) };
        let at = index_of(w.encounters, id);
        lemma_update(free, at, on);
        assert(after.encounters == free.update(at, on));
        assert(after.encounters[k] == calm);
        lemma_index(after.encounters, k);
    }
}

} // verus!
