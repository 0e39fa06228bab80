//! The log is only ever added to: whatever is done in a campaign, what was written stays as
//! it was, and what comes in addition comes after it.

use vstd::prelude::*;
use crate::barter::{bargained, ExchangeParams};
use crate::campaign::World;
use crate::checks::CheckRolls;
use crate::combat::{
    acted, combat_ended, damaged, healed, saved, started, tick_conditions, tick_effects, turned,
    ApplyDamageParams, ApplyHealingParams, DeathSaveParams, Tick,
};
use crate::content::{Archetype, Content};
use crate::rows::{EncounterStatus, EventView, KnowledgeLevel};
use crate::world::{
    arrival, arrived, explored, lemma_features_keep, lemma_learning_keeps, lemma_stubs_keep, scouted,
    travelled, TravelParams, TravelRolls,
};

verus! {

/// Whether the log of `b` begins with all that the log of `a` holds.
pub open spec fn continues(a: World, b: World) -> bool {
    &&& a.events.len() <= b.events.len()
    &&& forall|i: int| 0 <= i < a.events.len() ==> #[trigger] b.events[i] == a.events[i]
}

/// An entry is added to the log; so a check, a death event and an entry by itself only add to
/// it.
pub proof fn law_entry_is_added(w: World, e: EventView)
    ensures
        continues(w, w.with_event(e)),
        w.with_event(e).events.len() == w.events.len() + 1,
{
}

/// What characters are made of, trained in and equipped with only adds to the log.
pub proof fn law_characters_only_add_to_the_log(
    w: World,
    create: crate::characters::CreateParams,
    plans: crate::characters::UpdatePlansParams,
    role: crate::characters::ChangeRoleParams,
    train: crate::proficiencies::SetProficiencyParams,
    forget: crate::proficiencies::RemoveProficiencyParams,
    supply: crate::proficiencies::SetResourceParams,
    adjust: crate::proficiencies::AdjustResourceParams,
    remove: crate::proficiencies::RemoveResourceParams,
)
    ensures
        continues(w, crate::characters::created(w, create)),
        continues(w, crate::characters::replanned(w, plans)),
        continues(w, crate::characters::recast(w, role)),
        continues(w, crate::proficiencies::trained(w, train)),
        continues(w, crate::proficiencies::forgotten(w, forget)),
        continues(w, crate::proficiencies::supplied(w, supply)),
        continues(w, crate::proficiencies::adjusted(w, adjust)),
        continues(w, crate::proficiencies::used_up(w, remove)),
{
}

/// Conditions, effects and rests only add to the log.
pub proof fn law_conditions_only_add_to_the_log(
    w: World,
    suffer: crate::conditions::ApplyConditionParams,
    recover: crate::conditions::RemoveConditionParams,
    apply: crate::effects::ApplyParams,
    dispel: crate::effects::DispelParams,
    id: i64,
    long: bool,
)
    ensures
        continues(w, crate::conditions::applied(w, suffer)),
        continues(w, crate::conditions::removed(w, recover)),
        continues(w, crate::effects::applied(w, apply)),
        continues(w, crate::effects::dispelled(w, dispel)),
        continues(w, crate::rests::rested(w, id, long)),
{
}

/// Items and trade only add to the log.
pub proof fn law_items_only_add_to_the_log(
    w: World,
    content: Content,
    create: crate::inventory::CreateParams,
    pickup: crate::inventory::PickupParams,
    drop: crate::inventory::DropParams,
    equip: crate::inventory::EquipParams,
    unequip: crate::inventory::UnequipParams,
    transfer: crate::inventory::TransferParams,
    trade: ExchangeParams,
    rolls: CheckRolls,
)
    ensures
        continues(w, crate::inventory::item_made(w, create)),
        continues(w, crate::inventory::picked_up(w, content, pickup)),
        continues(w, crate::inventory::dropped(w, content, drop)),
        continues(w, crate::inventory::equipped(w, equip)),
        continues(w, crate::inventory::unequipped(w, unequip)),
        continues(w, crate::inventory::transferred(w, content, transfer)),
        continues(w, bargained(w, content, trade, rolls)),
{
}

proof fn lemma_ticks(w: World, t: Tick, n: nat)
    ensures
        continues(w, tick_effects(w, t, n)),
        continues(w, tick_conditions(w, t, n)),
    decreases n,
{
    if n > 0 {
        lemma_ticks(w, t, (n - 1) as nat);
    }
}

/// Damage, healing, death saves and turns only add to the log.
pub proof fn law_combat_only_adds_to_the_log(
    w: World,
    hurt: ApplyDamageParams,
    heal: ApplyHealingParams,
    save: DeathSaveParams,
    d20: int,
    id: i64,
    rolls: Seq<i32>,
    now: i64,
    reason: Seq<char>,
    auto: bool,
)
    ensures
        continues(w, damaged(w, hurt)),
        continues(w, healed(w, heal)),
        continues(w, saved(w, save, d20)),
        continues(w, started(w, id, rolls)),
        continues(w, turned(w, id)),
        continues(w, combat_ended(w, id, now, reason, auto)),
{
    let noted = World {
        encounter_participants: crate::combat::after_turn(
            w.encounter_participants,
            id,
            crate::combat::turn_order(w, id)[crate::combat::turn_now(w, id)].character_id,
            crate::combat::wraps(w, id),
        ),
        ..w
    };
    let t = crate::combat::tick_of(w, id);
    lemma_ticks(noted, t, w.effects.len());
    lemma_ticks(tick_effects(noted, t, w.effects.len()), t, w.conditions.len());
    assert(continues(w, acted(w, id)));
}

/// Encounters only add to the log.
pub proof fn law_encounters_only_add_to_the_log(
    w: World,
    create: crate::encounters::CreateParams,
    complete: crate::encounters::CompleteParams,
    id: i64,
    status: EncounterStatus,
    kind: Seq<char>,
    reason: Seq<char>,
)
    ensures
        continues(w, crate::encounters::created(w, create)),
        continues(w, crate::encounters::completed(w, complete)),
        continues(w, crate::encounters::finished(w, id, status, kind, reason)),
{
}

/// Journeys only add to the log.
pub proof fn law_travel_only_adds_to_the_log(w: World, p: TravelParams, rolls: TravelRolls)
    ensures
        continues(w, travelled(w, p, rolls)),
{
    let there = arrived(w, p);
    let map = scouted(there, p, rolls);
    let ids = crate::terrain::ends(crate::terrain::outgoing(map.connections, p.to_zone_id));
    lemma_stubs_keep(
        there,
        p.to_zone_id,
        crate::campaign::row(there.zones, p.to_zone_id).biome,
        crate::terrain::directions(rolls.neighbours as int, rolls.directions@),
    );
    lemma_learning_keeps(map, p.character_id, ids, KnowledgeLevel::Rumored, arrival(w, p));
    lemma_features_keep(
        crate::terrain::learned_all(map, p.character_id, ids, KnowledgeLevel::Rumored, arrival(w, p)),
        p.to_zone_id,
        crate::terrain::features(rolls.landmarks as int, rolls.features@),
    );
    assert(explored(w, p, rolls).events == w.events);
}

proof fn lemma_past(
    w: World,
    p: crate::npcs::GenerateParams,
    id: i64,
    event_id: i64,
    arch: Archetype,
    rolls: crate::npcs::NpcRolls,
    n: nat,
)
    ensures
        continues(w, crate::npcs::remembered(w, p, id, event_id, arch, rolls, n)),
    decreases n,
{
    if n > 0 {
        lemma_past(w, p, id, event_id, arch, rolls, (n - 1) as nat);
    }
}

/// Characters with a past, and what comes before a campaign, only add to the log.
pub proof fn law_beginnings_only_add_to_the_log(
    w: World,
    content: Content,
    p: crate::npcs::GenerateParams,
    arch: Archetype,
    rolls: crate::npcs::NpcRolls,
    answer: crate::setup::AnswerParams,
    biome: Seq<char>,
    draws: crate::setup::WorldRolls,
    ready: crate::setup::MarkReadyParams,
    now: i64,
)
    ensures
        continues(w, crate::npcs::generated(w, content, p, arch, rolls)),
        continues(w, crate::setup::answered(w, answer, now)),
        continues(w, crate::setup::generated(w, biome, draws)),
        continues(w, crate::setup::ready(w, ready, now)),
{
    let id = crate::campaign::next_id(w.characters);
    let event_id = crate::campaign::next_id(w.events);
    let made = crate::npcs::born(w, content, p, arch, rolls);
    crate::npcs::lemma_schooling_keeps(made, id, arch.proficiencies@, arch.proficiencies@.len());
    crate::npcs::lemma_outfit_keeps(
        crate::npcs::schooled(made, id, arch.proficiencies@, arch.proficiencies@.len()),
        id,
        event_id,
        arch,
        rolls.loadout@,
        arch.loadout@.len(),
    );
    lemma_past(
        crate::npcs::equipped(w, content, p, arch, rolls),
        p,
        id,
        event_id,
        arch,
        rolls,
        rolls.hooks as nat,
    );
    let zone_id = crate::campaign::next_id(w.zones);
    let start = World {
        zones: w.zones.push(
            crate::rows::Zone {
                id: zone_id,
                name: crate::setup::starting_name(biome),
                biome,
                kind: crate::rows::ZoneKind::Wilderness,
                size: crate::rows::ZoneSize::Small,
                description: None,
            },
        ),
        ..w
    };
    lemma_stubs_keep(
        start,
        zone_id,
        biome,
        crate::terrain::directions(draws.neighbours as int, draws.directions@),
    );
}

} // verus!
