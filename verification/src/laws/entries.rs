//! Laws of what is noted: the entry of an operation tells what it did, to whom and when.

use vstd::prelude::*;
use crate::barter::{exchange_ok, ExchangeParams, ExchangeResult};
use crate::campaign::{index_of, lemma_character, lemma_tables, next_id, row, World};
use crate::characters::{recast, replanned, ChangeRoleParams, UpdatePlansParams};
use crate::checks::{check_ok, CheckQuery, CheckResult, CheckRolls};
use crate::combat::{
    damage_refusal, damaged, healed, healing_refusal, hits_zero, save_outcome_ok, save_refusal, ApplyDamageParams,
    ApplyHealingParams, DeathSaveParams, DeathSaveResult,
};
use crate::content::Content;
use crate::encounters::{complete_refusal, completed, CompleteParams};
use crate::inventory::{
    capacity, carried, drop_refusal, dropped, item_weight, law_pickup_adds_the_weight, picked_up, pickup_refusal,
    transfer_refusal, transferred, DropParams, PickupParams, TransferParams,
};
use crate::laws::lemma_put_changes;
use crate::proficiencies::{adjust_refusal, adjusted, lemma_resource_at, resource_of, AdjustResourceParams};
use crate::rests::{rest_ok, rest_refusal, RestResult};
use crate::rows::{views, EventRole, EventView, ValueView};
use crate::world::{campaign_hour, travel_ok, travel_refusal, TravelParams, TravelResult, TravelRolls};

verus! {

/// Whether the entry says so under this name.
pub open spec fn says(e: EventView, name: Seq<char>, value: ValueView) -> bool {
    exists|i: int| 0 <= i < e.payload.len() && (#[trigger] e.payload[i]).name == name && e.payload[i].value == value
}

/// Whether the entry is of this kind and hour, and of this character alone.
pub open spec fn is_about(e: EventView, kind: Seq<char>, hour: int, id: i64, role: EventRole) -> bool {
    &&& e.kind == kind
    &&& e.campaign_hour == hour
    &&& e.participants.len() == 1
    &&& e.participants[0].character_id == id
    &&& e.participants[0].role == role
}

/// A number or nothing.
pub open spec fn number(n: Option<int>) -> ValueView {
    match n {
        Some(x) => ValueView::Int(x),
        None => ValueView::Null,
    }
}

proof fn lemma_says(e: EventView, i: int, name: Seq<char>, value: ValueView)
    requires
        0 <= i < e.payload.len(),
        e.payload[i].name == name,
        e.payload[i].value == value,
    ensures
        says(e, name, value),
{
}

/// Damage is noted with its amount and with the hit points before and after it, and whether it
/// took the last of them.
pub proof fn law_damage_is_noted(w: World, p: ApplyDamageParams)
    requires
        w.wf(),
        w.room(),
        damage_refusal(w, p) is None,
    ensures
        ({
            let v = damaged(w, p);
            let e = v.events.last();
            let before = row(w.characters, p.character_id).hp_current;
            let after = row(v.characters, p.character_id).hp_current;
            &&& is_about(e, "combat.apply_damage"@, campaign_hour(w) as int, p.character_id, EventRole::Target)
            &&& e.encounter_id == p.encounter_id
            &&& p.encounter_id is None ==> e.combat_round is None
            &&& p.encounter_id is Some ==> e.combat_round == row(w.encounters, p.encounter_id->0).current_round
            &&& says(e, "amount"@, ValueView::Int(p.amount as int))
            &&& says(e, "hp_before"@, ValueView::Int(before as int))
            &&& says(e, "hp_after"@, ValueView::Int(after as int))
            &&& says(e, "newly_unconscious"@, ValueView::Bool(before > 0 && after == 0))
            &&& hits_zero(row(w.characters, p.character_id), p.amount) <==> before > 0 && after == 0
        }),
{
    lemma_tables(w);
    lemma_character(w, p.character_id);
    let v = damaged(w, p);
    let e = v.events.last();
    let k = index_of(w.characters, p.character_id);
    lemma_put_changes(w.characters, v.characters[k]);
    let before = row(w.characters, p.character_id).hp_current;
    let after = row(v.characters, p.character_id).hp_current;
    lemma_says(e, 0, "amount"@, ValueView::Int(p.amount as int));
    lemma_says(e, 3, "hp_before"@, ValueView::Int(before as int));
    lemma_says(e, 4, "hp_after"@, ValueView::Int(after as int));
    lemma_says(e, 5, "newly_unconscious"@, ValueView::Bool(before > 0 && after == 0));
}

/// Healing is noted with its amount and with the hit points before and after it.
pub proof fn law_healing_is_noted(w: World, p: ApplyHealingParams)
    requires
        w.wf(),
        w.room(),
        healing_refusal(w, p) is None,
    ensures
        ({
            let v = healed(w, p);
            let e = v.events.last();
            let before = row(w.characters, p.character_id).hp_current;
            let after = row(v.characters, p.character_id).hp_current;
            &&& is_about(e, "combat.apply_healing"@, campaign_hour(w) as int, p.character_id, EventRole::Target)
            &&& says(e, "amount"@, ValueView::Int(p.amount as int))
            &&& says(e, "hp_before"@, ValueView::Int(before as int))
            &&& says(e, "hp_after"@, ValueView::Int(after as int))
        }),
{
    lemma_tables(w);
    lemma_character(w, p.character_id);
    let v = healed(w, p);
    let e = v.events.last();
    let k = index_of(w.characters, p.character_id);
    lemma_put_changes(w.characters, v.characters[k]);
    let before = row(w.characters, p.character_id).hp_current;
    let after = row(v.characters, p.character_id).hp_current;
    lemma_says(e, 0, "amount"@, ValueView::Int(p.amount as int));
    lemma_says(e, 2, "hp_before"@, ValueView::Int(before as int));
    lemma_says(e, 3, "hp_after"@, ValueView::Int(after as int));
}

/// A death save is noted and told with what was rolled and with the count and the state that the
/// character is left in.
pub proof fn law_death_save_is_noted(w: World, p: DeathSaveParams, d20: int, v: World, r: DeathSaveResult)
    requires
        w.wf(),
        w.room(),
        save_refusal(w, p) is None,
        save_outcome_ok(w, p, d20, v, r),
    ensures
        ({
            let e = v.events.last();
            let ch = row(v.characters, p.character_id);
            &&& is_about(e, "character.death_save"@, campaign_hour(w) as int, p.character_id, EventRole::Actor)
            &&& says(e, "d20"@, ValueView::Int(d20))
            &&& says(e, "successes"@, ValueView::Int(ch.death_save_successes as int))
            &&& says(e, "failures"@, ValueView::Int(ch.death_save_failures as int))
            &&& says(e, "status_after"@, ValueView::Text(ch.status.text()))
            &&& r.successes == ch.death_save_successes
            &&& r.failures == ch.death_save_failures
            &&& r.status@ == ch.status.text()
            &&& r.d20 == d20
        }),
{
    lemma_tables(w);
    lemma_character(w, p.character_id);
    let e = v.events.last();
    let k = index_of(w.characters, p.character_id);
    lemma_put_changes(w.characters, v.characters[k]);
    let ch = row(v.characters, p.character_id);
    lemma_says(e, 0, "d20"@, ValueView::Int(d20));
    lemma_says(e, 2, "successes"@, ValueView::Int(ch.death_save_successes as int));
    lemma_says(e, 3, "failures"@, ValueView::Int(ch.death_save_failures as int));
    lemma_says(e, 5, "status_after"@, ValueView::Text(ch.status.text()));
}

/// A rest is noted with the hit points that it gave back, and told with the state that the
/// character is in.
pub proof fn law_rest_is_noted(w: World, id: i64, long: bool, v: World, r: RestResult)
    requires
        w.wf(),
        w.room(),
        rest_refusal(w, id) is None,
        rest_ok(w, id, long, v, r),
    ensures
        ({
            let e = v.events.last();
            let more = row(v.characters, id).hp_current - row(w.characters, id).hp_current;
            &&& is_about(
                e,
                if long {
                    "rest.long"@
                } else {
                    "rest.short"@
                },
                campaign_hour(w) as int,
                id,
                EventRole::Actor,
            )
            &&& says(
                e,
                "hp_restored"@,
                number(
                    if more > 0 {
                        Some(more)
                    } else {
                        None
                    },
                ),
            )
            &&& r.status_after@ == row(v.characters, id).status.text()
        }),
{
    lemma_tables(w);
    lemma_character(w, id);
    let e = v.events.last();
    if long {
        lemma_put_changes(w.characters, crate::rests::refreshed(row(w.characters, id), campaign_hour(w)));
    }
    let more = row(v.characters, id).hp_current - row(w.characters, id).hp_current;
    lemma_says(
        e,
        1,
        "hp_restored"@,
        number(
            if more > 0 {
                Some(more)
            } else {
                None
            },
        ),
    );
}

/// Picking up is noted with what the item weighs and what the character carries before and with
/// it; dropping with what it carries then; giving with where it went.
pub proof fn law_moving_things_is_noted(w: World, content: Content, a: PickupParams, b: DropParams, c: TransferParams)
    requires
        w.wf(),
        w.room(),
    ensures
        pickup_refusal(w, a) is None ==> {
            let v = picked_up(w, content, a);
            let e = v.events[w.events.len() as int];
            &&& is_about(e, "item.pickup"@, campaign_hour(w) as int, a.character_id, EventRole::Actor)
            &&& e.zone_id == row(w.characters, a.character_id).current_zone_id
            &&& e.items.len() == 1 && e.items[0].item_id == a.item_id
            &&& says(e, "weight_lb"@, ValueView::Thousandths(item_weight(content, row(w.items, a.item_id))))
            &&& says(e, "carried_before"@, ValueView::Thousandths(carried(content, w.items, a.character_id)))
            &&& says(e, "carried_after"@, ValueView::Thousandths(carried(content, v.items, a.character_id)))
            &&& says(
                e,
                "capacity_lb"@,
                ValueView::Thousandths(capacity(content, row(w.characters, a.character_id))),
            )
        },
        drop_refusal(w, b) is None ==> {
            let v = dropped(w, content, b);
            let e = v.events.last();
            &&& is_about(e, "item.drop"@, campaign_hour(w) as int, b.character_id, EventRole::Actor)
            &&& e.zone_id == row(w.characters, b.character_id).current_zone_id
            &&& e.items.len() == 1 && e.items[0].item_id == b.item_id
            &&& says(e, "carried_after"@, ValueView::Thousandths(carried(content, v.items, b.character_id)))
        },
        transfer_refusal(w, content, c) is None ==> {
            let e = transferred(w, content, c).events[w.events.len() as int];
            &&& e.kind == "item.transfer"@
            &&& e.zone_id == c.to_zone_location_id
            &&& e.items.len() == 1 && e.items[0].item_id == c.item_id
            &&& c.to_character_id is Some ==> e.participants.len() == 1 && e.participants[0].character_id
                == c.to_character_id->0 && e.participants[0].role == EventRole::Beneficiary
            &&& c.to_character_id is None ==> e.participants.len() == 0
        },
{
    if pickup_refusal(w, a) is None {
        law_pickup_adds_the_weight(w, content, a, a.character_id);
        let v = picked_up(w, content, a);
        let e = v.events[w.events.len() as int];
        lemma_says(e, 3, "weight_lb"@, ValueView::Thousandths(item_weight(content, row(w.items, a.item_id))));
        lemma_says(e, 4, "carried_before"@, ValueView::Thousandths(carried(content, w.items, a.character_id)));
        lemma_says(e, 5, "carried_after"@, ValueView::Thousandths(carried(content, v.items, a.character_id)));
        lemma_says(
            e,
            6,
            "capacity_lb"@,
            ValueView::Thousandths(capacity(content, row(w.characters, a.character_id))),
        );
    }
    if drop_refusal(w, b) is None {
        let v = dropped(w, content, b);
        let e = v.events.last();
        lemma_says(e, 2, "carried_after"@, ValueView::Thousandths(carried(content, v.items, b.character_id)));
    }
}

/// A journey is noted at the hour of arrival, where it led, with where it began and how long it
/// took.
pub proof fn law_journey_is_noted(w: World, p: TravelParams, rolls: TravelRolls, v: World, r: TravelResult)
    requires
        w.wf(),
        w.room(),
        travel_refusal(w, p) is None,
        travel_ok(w, p, rolls, v, r),
    ensures
        ({
            let e = v.events.last();
            &&& is_about(e, "location.move"@, r.campaign_hour_after as int, p.character_id, EventRole::Actor)
            &&& e.zone_id == Some(p.to_zone_id)
            &&& says(e, "from_zone_id"@, ValueView::Int(r.from_zone_id as int))
            &&& says(e, "to_zone_id"@, ValueView::Int(r.to_zone_id as int))
            &&& says(e, "travel_time_hours"@, ValueView::Int(r.travel_time_hours as int))
            &&& says(e, "hour_before"@, ValueView::Int(r.campaign_hour_before as int))
            &&& says(e, "hour_after"@, ValueView::Int(r.campaign_hour_after as int))
            &&& says(e, "stubs_generated"@, ValueView::Ints(r.stubs_generated@))
            &&& says(e, "landmarks_generated"@, ValueView::Ints(r.landmarks_generated@))
        }),
{
    let e = v.events.last();
    lemma_says(e, 0, "from_zone_id"@, ValueView::Int(r.from_zone_id as int));
    lemma_says(e, 1, "to_zone_id"@, ValueView::Int(r.to_zone_id as int));
    lemma_says(e, 2, "travel_time_hours"@, ValueView::Int(r.travel_time_hours as int));
    lemma_says(e, 3, "hour_before"@, ValueView::Int(r.campaign_hour_before as int));
    lemma_says(e, 4, "hour_after"@, ValueView::Int(r.campaign_hour_after as int));
    lemma_says(e, 6, "stubs_generated"@, ValueView::Ints(r.stubs_generated@));
    lemma_says(e, 7, "landmarks_generated"@, ValueView::Ints(r.landmarks_generated@));
}

/// An encounter that reached its goal is noted at the hour at which it ends, where it was, with
/// what all got together.
pub proof fn law_completion_is_noted(w: World, p: CompleteParams)
    requires
        w.wf(),
        w.room(),
        complete_refusal(w, p) is None,
    ensures
        ({
            let v = completed(w, p);
            let e = v.events.last();
            &&& e.kind == "encounter.goal_completed"@
            &&& v.encounters.len() == w.encounters.len()
            &&& row(v.encounters, p.encounter_id).ended_at_hour == Some(e.campaign_hour)
            &&& e.zone_id == row(w.encounters, p.encounter_id).zone_id
            &&& e.encounter_id == Some(p.encounter_id)
            &&& says(e, "path"@, ValueView::Text(p.path@))
            &&& says(e, "xp_budget"@, ValueView::Int(row(w.encounters, p.encounter_id).xp_budget as int))
            &&& says(e, "xp_total"@, ValueView::Int(crate::encounters::total_of(w, p)))
        }),
{
    lemma_tables(w);
    crate::campaign::lemma_encounter(w, p.encounter_id);
    let v = completed(w, p);
    let e = v.events.last();
    lemma_put_changes(w.encounters, v.encounters[index_of(w.encounters, p.encounter_id)]);
    lemma_says(e, 0, "path"@, ValueView::Text(p.path@));
    lemma_says(e, 2, "xp_budget"@, ValueView::Int(row(w.encounters, p.encounter_id).xp_budget as int));
    lemma_says(e, 4, "xp_total"@, ValueView::Int(crate::encounters::total_of(w, p)));
}

/// An adjustment is noted with what there was of the resource and what there is now.
pub proof fn law_adjustment_is_noted(w: World, p: AdjustResourceParams)
    requires
        w.wf(),
        adjust_refusal(w, p) is None,
    ensures
        ({
            let v = adjusted(w, p);
            let e = v.events.last();
            let k = resource_of(w, p.character_id, p.name@)->0;
            &&& w.resources[k].character_id == p.character_id && w.resources[k].name == p.name@
            &&& is_about(e, "resource.adjusted"@, 0, p.character_id, EventRole::Target)
            &&& says(e, "name"@, ValueView::Text(p.name@))
            &&& says(e, "old_current"@, ValueView::Int(w.resources[k].current as int))
            &&& says(e, "new_current"@, ValueView::Int(v.resources[k].current as int))
            &&& says(e, "delta_requested"@, ValueView::Int(p.delta as int))
        }),
{
    lemma_resource_at(w.resources, p.character_id, p.name@, w.resources.len());
    let v = adjusted(w, p);
    let e = v.events.last();
    let k = resource_of(w, p.character_id, p.name@)->0;
    lemma_says(e, 0, "name"@, ValueView::Text(p.name@));
    lemma_says(e, 1, "old_current"@, ValueView::Int(w.resources[k].current as int));
    lemma_says(e, 2, "new_current"@, ValueView::Int(v.resources[k].current as int));
    lemma_says(e, 3, "delta_requested"@, ValueView::Int(p.delta as int));
}

/// New plans and a new role are noted with the old ones.
pub proof fn law_changes_of_mind_are_noted(w: World, p: UpdatePlansParams, q: ChangeRoleParams)
    ensures
        ({
            let e = replanned(w, p).events.last();
            let old_plans = row(w.characters, p.character_id).plans;
            &&& is_about(e, "npc.plan_changed"@, 0, p.character_id, EventRole::Target)
            &&& says(e, "new_plans"@, ValueView::Text(p.new_plans@))
            &&& old_plans is Some ==> says(e, "old_plans"@, ValueView::Text(old_plans->0))
        }),
        ({
            let e = recast(w, q).events.last();
            &&& is_about(e, "npc.role_changed"@, 0, q.character_id, EventRole::Target)
            &&& says(e, "old_role"@, ValueView::Text(row(w.characters, q.character_id).role.text()))
            &&& says(e, "new_role"@, ValueView::Text(q.new_role@))
            &&& says(e, "reason"@, ValueView::Text(q.reason@))
        }),
{
    let e = replanned(w, p).events.last();
    let old_plans = row(w.characters, p.character_id).plans;
    lemma_says(e, 1, "new_plans"@, ValueView::Text(p.new_plans@));
    if old_plans is Some {
        lemma_says(e, 0, "old_plans"@, ValueView::Text(old_plans->0));
    }
    let f = recast(w, q).events.last();
    lemma_says(f, 0, "old_role"@, ValueView::Text(row(w.characters, q.character_id).role.text()));
    lemma_says(f, 1, "new_role"@, ValueView::Text(q.new_role@));
    lemma_says(f, 2, "reason"@, ValueView::Text(q.reason@));
}

/// A check is noted with what it came to, as it is told.
pub proof fn law_check_is_noted(
    w: World,
    content: Content,
    p: CheckQuery,
    rolls: CheckRolls,
    v: World,
    r: CheckResult,
)
    requires
        check_ok(w, content, p, rolls, v, r),
    ensures
        ({
            let e = v.events.last();
            &&& v.events.len() == w.events.len() + 1
            &&& e.kind == "check.resolve"@
            &&& e.campaign_hour == 0
            &&& e.participants.len() >= 1 && e.participants[0].character_id == p.character_id
            &&& p.target_character_id is Some ==> e.participants.len() == 2 && e.participants[1].character_id
                == p.target_character_id->0
            &&& says(e, "kind"@, ValueView::Text(p.kind))
            &&& says(e, "target_key"@, ValueView::Text(p.target_key))
            &&& says(e, "ability"@, ValueView::Text(r.ability@))
            &&& says(e, "d20_used"@, ValueView::Int(r.d20_used as int))
            &&& says(e, "total"@, ValueView::Int(r.total as int))
            &&& r.success is Some ==> says(e, "success"@, ValueView::Bool(r.success->0))
            &&& says(e, "crit"@, ValueView::Bool(r.crit))
            &&& says(e, "fumble"@, ValueView::Bool(r.fumble))
            &&& says(e, "auto_fail"@, ValueView::Bool(r.auto_fail))
        }),
{
    let e = v.events.last();
    lemma_says(e, 1, "kind"@, ValueView::Text(p.kind));
    lemma_says(e, 2, "target_key"@, ValueView::Text(p.target_key));
    lemma_says(e, 4, "ability"@, ValueView::Text(r.ability@));
    lemma_says(e, 10, "d20_used"@, ValueView::Int(r.d20_used as int));
    lemma_says(e, 15, "total"@, ValueView::Int(r.total as int));
    if r.success is Some {
        lemma_says(e, 16, "success"@, ValueView::Bool(r.success->0));
    }
    lemma_says(e, 17, "crit"@, ValueView::Bool(r.crit));
    lemma_says(e, 18, "fumble"@, ValueView::Bool(r.fumble));
    lemma_says(e, 19, "auto_fail"@, ValueView::Bool(r.auto_fail));
}

/// An exchange is noted with what was offered and asked for and how it ended, as it is told.
pub proof fn law_exchange_is_noted(
    w: World,
    content: Content,
    p: ExchangeParams,
    rolls: CheckRolls,
    v: World,
    r: ExchangeResult,
)
    requires
        exchange_ok(w, content, p, rolls, v, r),
    ensures
        ({
            let e = v.events.last();
            &&& e.kind == "social.bargain"@
            &&& e.campaign_hour == campaign_hour(w)
            &&& e.participants.len() == 2
            &&& e.participants[0].character_id == p.character_id
            &&& e.participants[1].character_id == p.merchant_character_id
            &&& e.items.len() == p.offered_item_ids@.len() + p.requested_item_ids@.len()
            &&& says(e, "offered_value_gp"@, ValueView::Thousandths(r.offered_value_gp as int))
            &&& says(e, "requested_value_gp"@, ValueView::Thousandths(r.requested_value_gp as int))
            &&& says(e, "outcome"@, ValueView::Text(r.outcome@))
            &&& says(e, "resolution"@, ValueView::Text(r.resolution@))
        }),
{
    let e = v.events.last();
    lemma_says(e, 0, "offered_value_gp"@, ValueView::Thousandths(r.offered_value_gp as int));
    lemma_says(e, 1, "requested_value_gp"@, ValueView::Thousandths(r.requested_value_gp as int));
    lemma_says(e, 2, "outcome"@, ValueView::Text(r.outcome@));
    lemma_says(e, 3, "resolution"@, ValueView::Text(r.resolution@));
}

/// A new encounter is noted where it is, now, with all who take part: those on the side of the
/// players act, and the others are acted on.
pub proof fn law_new_encounter_is_noted(w: World, p: crate::encounters::CreateParams, k: int)
    ensures
        ({
            let e = crate::encounters::created(w, p).events.last();
            let ps = views(p.participants@);
            &&& e.kind == "encounter.created"@
            &&& e.campaign_hour == campaign_hour(w)
            &&& e.zone_id == p.zone_id
            &&& e.encounter_id == Some(next_id(w.encounters))
            &&& e.participants.len() == ps.len()
            &&& 0 <= k < ps.len() ==> {
                &&& e.participants[k].character_id == ps[k].character_id
                &&& ps[k].side == "player_side"@ ==> e.participants[k].role == EventRole::Actor
                &&& ps[k].side != "player_side"@ ==> e.participants[k].role == EventRole::Target
            }
            &&& says(e, "goal"@, ValueView::Text(p.goal@))
            &&& says(e, "xp_budget"@, ValueView::Int(p.xp_budget as int))
        }),
{
    let e = crate::encounters::created(w, p).events.last();
    lemma_says(e, 0, "goal"@, ValueView::Text(p.goal@));
    lemma_says(e, 1, "xp_budget"@, ValueView::Int(p.xp_budget as int));
}

} // verus!
