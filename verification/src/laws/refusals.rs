//! Laws of what is possible: on what an operation is owed, and on what it is refused.

use vstd::prelude::*;
use crate::barter::{deal_of, exchange_refusal, named_twice, side_refusal, Deal, ExchangeParams};
use crate::campaign::{listed, row, World};
use crate::checks::{check_refusal, kind_of, with_dice, AbilityId, CheckQuery};
use crate::combat::{
    damage_refusal, death_event_refusal, end_refusal, healing_refusal, of_encounter, save_refusal, start_refusal,
    turn_refusal, ApplyDamageParams, ApplyHealingParams, DeathEventParams, DeathSaveParams,
};
use crate::content::{CheckKind, Content};
use crate::encounters::{complete_refusal, finish_refusal, CompleteParams};
use crate::inventory::{
    capacity, carried, drop_refusal, equip_refusal, item_weight, pickup_refusal, transfer_refusal, unequip_refusal,
    DropParams, EquipParams, PickupParams, TransferParams, UnequipParams,
};
use crate::npcs::{archetype_at, generate_refusal, GenerateParams};
use crate::proficiencies::{
    adjust_refusal, lemma_resource_at, set_refusal, set_resource_refusal, target_refusal, AdjustResourceParams,
    SetProficiencyParams, SetResourceParams,
};
use crate::rests::rest_refusal;
use crate::rows::{
    views, EncounterParticipant, EncounterStatus, Phase, Place, Recharge, Role, Size, Status, TargetKind,
};
use crate::setup::{answer_refusal, ready_refusal, AnswerParams, MarkReadyParams};
use crate::terrain::lemma_knowledge_among;
use crate::world::{
    describe_refusal, lemma_way, map_refusal, travel_refusal, way_among, DescribeZoneParams, MapParams,
    TravelParams,
};

verus! {

// ── Fighting ──

/// Anybody can be hurt, by no less than nothing; anybody who is not dead can be healed and can
/// rest. Only the unconscious make death saves, and only the dead suffer what follows death.
pub proof fn law_who_can_be_hurt_and_healed(
    w: World,
    content: Content,
    d: ApplyDamageParams,
    h: ApplyHealingParams,
    s: DeathSaveParams,
    e: DeathEventParams,
    id: i64,
)
    ensures
        damage_refusal(w, d) is None <==> d.amount >= 0 && listed(w.characters, d.character_id) && (d.encounter_id
            is Some ==> listed(w.encounters, d.encounter_id->0)),
        healing_refusal(w, h) is None <==> h.amount >= 0 && listed(w.characters, h.character_id) && row(
            w.characters,
            h.character_id,
        ).status != Status::Dead,
        rest_refusal(w, id) is None <==> listed(w.characters, id) && row(w.characters, id).status != Status::Dead,
        save_refusal(w, s) is None <==> listed(w.characters, s.character_id) && row(
            w.characters,
            s.character_id,
        ).status == Status::Unconscious,
        death_event_refusal(w, content, e) is None <==> listed(w.characters, e.character_id) && row(
            w.characters,
            e.character_id,
        ).status == Status::Dead && content.death_events@.len() > 0,
{
}

proof fn lemma_some_take_part(rows: Seq<EncounterParticipant>, id: i64)
    ensures
        of_encounter(rows, id).len() > 0 <==> exists|i: int|
            0 <= i < rows.len() && (#[trigger] rows[i]).encounter_id == id,
    decreases rows.len(),
{
    if rows.len() > 0 {
        let rest = rows.drop_last();
        lemma_some_take_part(rest, id);
        if rows.last().encounter_id == id {
            assert(rows[rows.len() - 1].encounter_id == id);
        }
        if exists|i: int| 0 <= i < rest.len() && (#[trigger] rest[i]).encounter_id == id {
            let i = choose|i: int| 0 <= i < rest.len() && (#[trigger] rest[i]).encounter_id == id;
            assert(rows[i].encounter_id == id);
        }
        if exists|i: int| 0 <= i < rows.len() && (#[trigger] rows[i]).encounter_id == id {
            let i = choose|i: int| 0 <= i < rows.len() && (#[trigger] rows[i]).encounter_id == id;
            if i < rest.len() {
                assert(rest[i].encounter_id == id);
            }
        }
    }
}

/// Combat begins in an encounter that goes on and is not in combat yet, and ends in one that is
/// in combat; turns pass in one that is in combat and that somebody takes part in.
pub proof fn law_when_there_is_combat(w: World, id: i64)
    ensures
        start_refusal(w, id) is None <==> listed(w.encounters, id) && row(w.encounters, id).status
            == EncounterStatus::Active && !row(w.encounters, id).in_combat,
        end_refusal(w, id) is None <==> listed(w.encounters, id) && row(w.encounters, id).in_combat,
        turn_refusal(w, id) is None <==> {
            &&& listed(w.encounters, id)
            &&& row(w.encounters, id).in_combat
            &&& exists|i: int|
                0 <= i < w.encounter_participants.len() && (#[trigger] w.encounter_participants[i]).encounter_id == id
        },
{
    lemma_some_take_part(w.encounter_participants, id);
}

/// An encounter that goes on can be completed, failed or abandoned, and no other.
pub proof fn law_when_encounters_end(w: World, p: CompleteParams, id: i64)
    ensures
        complete_refusal(w, p) is None <==> listed(w.encounters, p.encounter_id) && row(
            w.encounters,
            p.encounter_id,
        ).status == EncounterStatus::Active,
        finish_refusal(w, id) is None <==> listed(w.encounters, id) && row(w.encounters, id).status
            == EncounterStatus::Active,
{
}

proof fn lemma_sides(ps: Seq<crate::encounters::CreateParticipant<Seq<char>>>, n: nat)
    requires
        n <= ps.len(),
    ensures
        crate::encounters::sideless(ps, n) is None <==> forall|i: int|
            0 <= i < n ==> crate::rows::Side::of_text((#[trigger] ps[i]).side) is Some,
    decreases n,
{
    if n > 0 {
        lemma_sides(ps, (n - 1) as nat);
        if crate::encounters::sideless(ps, n) is Some && crate::rows::Side::of_text(ps[n - 1].side) is Some {
            let i = choose|i: int| 0 <= i < n - 1 && crate::rows::Side::of_text((#[trigger] ps[i]).side) is None;
            assert(crate::rows::Side::of_text(ps[i].side) is None);
        }
    }
}

/// Whether the one in this place is a character that there is, and named for the first time.
pub open spec fn joins_once(w: World, ps: Seq<crate::encounters::CreateParticipant<Seq<char>>>, i: int) -> bool {
    &&& listed(w.characters, ps[i].character_id)
    &&& forall|j: int| 0 <= j < i ==> (#[trigger] ps[j]).character_id != ps[i].character_id
}

proof fn lemma_members(w: World, ps: Seq<crate::encounters::CreateParticipant<Seq<char>>>, n: nat)
    requires
        n <= ps.len(),
    ensures
        crate::encounters::members_refusal(w, ps, n) is None <==> forall|i: int|
            0 <= i < n ==> #[trigger] joins_once(w, ps, i),
    decreases n,
{
    if n > 0 {
        lemma_members(w, ps, (n - 1) as nat);
        assert(crate::encounters::member_fault(w, ps, n - 1) is None <==> joins_once(w, ps, n - 1));
        if crate::encounters::members_refusal(w, ps, n) is Some && joins_once(w, ps, n - 1) {
            let i = choose|i: int| 0 <= i < n - 1 && !#[trigger] joins_once(w, ps, i);
            assert(!joins_once(w, ps, i));
        }
    }
}

/// An encounter can be set up with characters that there are, each once and on a side, in a zone
/// that there is or in none, for no less than no experience.
pub proof fn law_what_encounters_can_be_set_up(w: World, p: crate::encounters::CreateParams)
    ensures
        crate::encounters::create_refusal(w, p) is None <==> {
            let ps = views(p.participants@);
            &&& p.xp_budget >= 0
            &&& p.zone_id is Some ==> listed(w.zones, p.zone_id->0)
            &&& forall|i: int| 0 <= i < ps.len() ==> crate::rows::Side::of_text((#[trigger] ps[i]).side) is Some
            &&& forall|i: int| 0 <= i < ps.len() ==> #[trigger] joins_once(w, ps, i)
        },
{
    let ps = views(p.participants@);
    lemma_sides(ps, ps.len());
    lemma_members(w, ps, ps.len());
}

// ── Belongings ──

/// A character can pick up what lies where it stands, drop what it holds where it stands, and
/// equip and take off what it holds.
pub proof fn law_what_can_be_taken(
    w: World,
    a: PickupParams,
    b: DropParams,
    c: EquipParams,
    d: UnequipParams,
)
    ensures
        pickup_refusal(w, a) is None <==> {
            &&& listed(w.items, a.item_id)
            &&& listed(w.characters, a.character_id)
            &&& row(w.characters, a.character_id).current_zone_id is Some
            &&& row(w.items, a.item_id).place == Place::Zone(row(w.characters, a.character_id).current_zone_id->0)
        },
        drop_refusal(w, b) is None <==> {
            &&& listed(w.items, b.item_id)
            &&& row(w.items, b.item_id).place == Place::Holder(b.character_id)
            &&& row(w.characters, b.character_id).current_zone_id is Some
        },
        equip_refusal(w, c) is None <==> {
            &&& listed(w.items, c.item_id)
            &&& row(w.items, c.item_id).place == Place::Holder(c.character_id)
            &&& c.slot@.len() > 0
        },
        unequip_refusal(w, d) is None <==> {
            &&& listed(w.items, d.item_id)
            &&& row(w.items, d.item_id).place == Place::Holder(d.character_id)
        },
{
}

/// An item can be given to a character that can carry it too, or laid in a zone that there is.
pub proof fn law_what_can_be_given(w: World, content: Content, p: TransferParams)
    ensures
        p.to_character_id is Some && p.to_zone_location_id is None && p.to_container_item_id is None ==> (
        transfer_refusal(w, content, p) is None <==> {
            let id = p.to_character_id->0;
            let it = row(w.items, p.item_id);
            let more = if it.place == Place::Holder(id) {
                0
            } else {
                item_weight(content, it)
            };
            &&& listed(w.items, p.item_id)
            &&& listed(w.characters, id)
            &&& (carried(content, w.items, id) + more) * 100 <= capacity(content, row(w.characters, id))
                * content.encumbrance.overloaded_threshold_pct
        }),
        p.to_zone_location_id is Some && p.to_character_id is None && p.to_container_item_id is None ==> (
        transfer_refusal(w, content, p) is None <==> listed(w.items, p.item_id) && listed(
            w.zones,
            p.to_zone_location_id->0,
        )),
        p.to_zone_location_id is None && p.to_character_id is None && p.to_container_item_id is None
            ==> transfer_refusal(w, content, p) is Some,
        p.to_zone_location_id is Some && p.to_character_id is Some ==> transfer_refusal(w, content, p) is Some,
        p.to_zone_location_id is Some && p.to_container_item_id is Some ==> transfer_refusal(w, content, p) is Some,
        p.to_container_item_id is Some && p.to_character_id is Some ==> transfer_refusal(w, content, p) is Some,
        p.to_container_item_id == Some(p.item_id) ==> transfer_refusal(w, content, p) is Some,
        p.to_container_item_id is Some && !listed(w.items, p.to_container_item_id->0) ==> transfer_refusal(
            w,
            content,
            p,
        ) is Some,
{
}

/// An item can be laid in a container that lies nowhere itself but with a character or in a zone,
/// and in no container that lies in the item.
pub proof fn law_what_containers_take(w: World, content: Content, p: TransferParams, c: i64)
    requires
        p.to_container_item_id == Some(c),
        p.to_character_id is None,
        p.to_zone_location_id is None,
        c != p.item_id,
        listed(w.items, p.item_id),
        listed(w.items, c),
    ensures
        !(row(w.items, c).place is Container) ==> transfer_refusal(w, content, p) is None,
        row(w.items, c).place == Place::Container(p.item_id) ==> transfer_refusal(w, content, p) is Some,
{
    reveal_with_fuel(crate::inventory::chain_refusal, 3);
}

// ── Characters ──

/// A character can begin with a role, a size, scores and numbers that there are, in a party and a
/// zone that there are or in none.
pub proof fn law_what_characters_can_be(w: World, p: crate::characters::CreateParams)
    ensures
        crate::characters::create_refusal(w, p) is None <==> {
            let hp_max = if p.hp_max is Some {
                p.hp_max->0
            } else {
                10
            };
            &&& Role::of_text(p.role@) is Some
            &&& p.size is Some ==> Size::of_text(p.size->0@) is Some
            &&& 1 <= p.str_score <= 30 && 1 <= p.dex_score <= 30 && 1 <= p.con_score <= 30
            &&& 1 <= p.int_score <= 30 && 1 <= p.wis_score <= 30 && 1 <= p.cha_score <= 30
            &&& 1 <= hp_max <= 10_000
            &&& p.hp_current is Some ==> 0 <= p.hp_current->0 <= hp_max
            &&& p.armor_class is Some ==> 1 <= p.armor_class->0 <= 50
            &&& p.speed_ft is Some ==> 0 <= p.speed_ft->0 <= 1_000
            &&& p.initiative_bonus is Some ==> -20 <= p.initiative_bonus->0 <= 20
            &&& p.loyalty is Some ==> 0 <= p.loyalty->0 <= 100
            &&& p.party_id is Some ==> listed(w.parties, p.party_id->0)
            &&& p.current_zone_id is Some ==> listed(w.zones, p.current_zone_id->0)
        },
{
    Size::Medium.lemma_text();
}

/// What can be changed about a character: the plans and the role of any that there is, effects
/// and conditions on any, and those that still last can be ended.
pub proof fn law_what_can_be_changed(
    w: World,
    a: crate::characters::UpdatePlansParams,
    b: crate::characters::ChangeRoleParams,
    c: crate::effects::ApplyParams,
    d: crate::effects::DispelParams,
    e: crate::conditions::ApplyConditionParams,
    f: crate::conditions::RemoveConditionParams,
)
    ensures
        crate::characters::plans_refusal(w, a) is None <==> listed(w.characters, a.character_id),
        crate::characters::role_refusal(w, b) is None <==> listed(w.characters, b.character_id) && Role::of_text(
            b.new_role@,
        ) is Some,
        crate::effects::apply_refusal(w, c) is None <==> listed(w.characters, c.target_character_id)
            && TargetKind::of_text(c.target_kind@) is Some,
        crate::effects::dispel_refusal(w, d) is None <==> listed(w.effects, d.effect_id) && row(
            w.effects,
            d.effect_id,
        ).active,
        crate::conditions::apply_refusal(w, e) is None <==> {
            &&& e.condition@.len() > 0
            &&& e.severity >= 1
            &&& e.source_event_id is Some ==> listed(w.events, e.source_event_id->0)
            &&& listed(w.characters, e.character_id)
        },
        crate::conditions::remove_refusal(w, f) is None <==> listed(w.conditions, f.condition_id) && row(
            w.conditions,
            f.condition_id,
        ).active,
{
}

/// Training and resources can be set for any character, under a name; there is never more of a
/// resource than there can be. What there is can be adjusted.
pub proof fn law_what_can_be_set(
    w: World,
    a: SetProficiencyParams,
    b: SetResourceParams,
    c: AdjustResourceParams,
    id: i64,
)
    ensures
        set_refusal(w, a) is None <==> a.name@.len() > 0 && listed(w.characters, a.character_id),
        set_resource_refusal(w, b) is None <==> {
            &&& b.name@.len() > 0
            &&& 0 <= b.current <= b.max
            &&& Recharge::of_text(b.recharge@) is Some
            &&& listed(w.characters, b.character_id)
        },
        adjust_refusal(w, c) is None <==> exists|i: int|
            0 <= i < w.resources.len() && (#[trigger] w.resources[i]).character_id == c.character_id
                && w.resources[i].name == c.name@,
        target_refusal(w, id) is None <==> listed(w.characters, id),
{
    lemma_resource_at(w.resources, c.character_id, c.name@, w.resources.len());
}

// ── The world ──

proof fn lemma_no_way(rows: Seq<crate::rows::Connection>, from: i64, to: i64, n: nat, k: int)
    requires
        0 <= k < n <= rows.len(),
        rows[k].from_zone_id == from,
        rows[k].to_zone_id == to,
    ensures
        way_among(rows, from, to, n) is Some,
    decreases n,
{
    if k < n - 1 {
        lemma_no_way(rows, from, to, (n - 1) as nat, k);
    }
}

/// A character can go wherever a way leads from where it is. It can look at the map if it knows
/// where it is, and have described what it knows of.
pub proof fn law_where_one_can_go(w: World, a: TravelParams, b: MapParams, c: DescribeZoneParams)
    ensures
        travel_refusal(w, a) is None <==> {
            let from = row(w.characters, a.character_id).current_zone_id;
            &&& listed(w.characters, a.character_id)
            &&& from is Some && from->0 != a.to_zone_id
            &&& exists|k: int|
                0 <= k < w.connections.len() && (#[trigger] w.connections[k]).from_zone_id == from->0
                    && w.connections[k].to_zone_id == a.to_zone_id
        },
        map_refusal(w, b) is None <==> {
            let at = row(w.characters, b.character_id).current_zone_id;
            &&& listed(w.characters, b.character_id)
            &&& at is Some
            &&& exists|k: int|
                0 <= k < w.zone_knowledge.len() && (#[trigger] w.zone_knowledge[k]).character_id == b.character_id
                    && w.zone_knowledge[k].zone_id == at->0
        },
        describe_refusal(w, c) is None <==> exists|k: int|
            0 <= k < w.zone_knowledge.len() && (#[trigger] w.zone_knowledge[k]).character_id == c.character_id
                && w.zone_knowledge[k].zone_id == c.zone_id,
{
    let from = row(w.characters, a.character_id).current_zone_id;
    lemma_way(w.connections, from->0, a.to_zone_id, w.connections.len());
    if let Some(k) = way_among(w.connections, from->0, a.to_zone_id, w.connections.len()) {
        assert(w.connections[k].from_zone_id == from->0);
    }
    if exists|k: int|
        0 <= k < w.connections.len() && (#[trigger] w.connections[k]).from_zone_id == from->0
            && w.connections[k].to_zone_id == a.to_zone_id {
        let k = choose|k: int|
            0 <= k < w.connections.len() && (#[trigger] w.connections[k]).from_zone_id == from->0
                && w.connections[k].to_zone_id == a.to_zone_id;
        lemma_no_way(w.connections, from->0, a.to_zone_id, w.connections.len(), k);
    }
    let at = row(w.characters, b.character_id).current_zone_id;
    lemma_knowledge_among(w.zone_knowledge, b.character_id, at->0, w.zone_knowledge.len());
    lemma_knowledge_among(w.zone_knowledge, c.character_id, c.zone_id, w.zone_knowledge.len());
}

/// Questions are answered, and a campaign is made ready, before it runs; a question has to be
/// one that is asked, and a player's character one that there is.
pub proof fn law_what_is_settled_beforehand(w: World, content: Content, a: AnswerParams, r: MarkReadyParams)
    ensures
        answer_refusal(w, content, a) is None <==> w.state.phase == Phase::Setup && exists|k: int|
            0 <= k < content.setup_questions@.len() && (#[trigger] content.setup_questions@[k]).id@ == a.question_id@,
        ready_refusal(w, r) is None <==> w.state.phase == Phase::Setup && (r.player_character_id is Some ==> listed(
            w.characters,
            r.player_character_id->0,
        )),
{
    let ids = crate::setup::question_ids(content);
    if ids.contains(a.question_id@) {
        let k = choose|k: int| 0 <= k < ids.len() && ids[k] == a.question_id@;
        assert(content.setup_questions@[k].id@ == a.question_id@);
    }
    if exists|k: int|
        0 <= k < content.setup_questions@.len() && (#[trigger] content.setup_questions@[k]).id@ == a.question_id@ {
        let k = choose|k: int|
            0 <= k < content.setup_questions@.len() && (#[trigger] content.setup_questions@[k]).id@
                == a.question_id@;
        assert(ids[k] == a.question_id@);
    }
}

// ── Checks ──

/// Any character can make a check of a kind that there is, against a target that there is or
/// none: an attack, an ability check or a save by an ability, and a skill that the rules know and
/// give an ability for.
pub proof fn law_what_can_be_checked(w: World, content: Content, p: CheckQuery)
    requires
        listed(w.characters, p.character_id),
        p.target_character_id is Some ==> listed(w.characters, p.target_character_id->0),
        forall|i: int| 0 <= i < w.effects.len() ==> (#[trigger] w.effects[i]).dice_expr is None,
    ensures
        check_refusal(w, content, p) is None <==> kind_of(p.kind) is Some && crate::checks::ability_of(
            content,
            kind_of(p.kind)->0,
            p.target_key,
            p.ability,
        ) is Ok,
        p.ability is Some ==> (check_refusal(w, content, p) is None <==> kind_of(p.kind) is Some
            && AbilityId::of_text(p.ability->0) is Some),
        p.ability is None && kind_of(p.kind) == Some(CheckKind::AttackRoll) ==> check_refusal(w, content, p) is None,
        p.ability is None && kind_of(p.kind) == Some(CheckKind::AbilityCheck) ==> (check_refusal(w, content, p)
            is None <==> AbilityId::of_text(p.target_key) is Some),
        p.ability is None && kind_of(p.kind) == Some(CheckKind::SkillCheck) ==> (check_refusal(w, content, p) is None
            <==> content.skill(p.target_key) is Some && AbilityId::of_text(
            content.skills@[content.skill(p.target_key)->0].ability@,
        ) is Some),
{
    lemma_no_dice(w.effects, p.character_id, p.target_key);
}

proof fn lemma_no_dice(rows: Seq<crate::rows::Effect<Seq<char>>>, id: i64, key: Seq<char>)
    requires
        forall|i: int| 0 <= i < rows.len() ==> (#[trigger] rows[i]).dice_expr is None,
    ensures
        with_dice(crate::checks::effects_on(rows, id, key)).len() == 0,
    decreases rows.len(),
{
    if rows.len() > 0 {
        let rest = rows.drop_last();
        assert forall|i: int| 0 <= i < rest.len() implies (#[trigger] rest[i]).dice_expr is None by {
            assert(rows[i].dice_expr is None);
        }
        lemma_no_dice(rest, id, key);
        assert(rows[rows.len() - 1].dice_expr is None);
        let list = crate::checks::effects_on(rest, id, key);
        assert(list.push(rows.last()).drop_last() =~= list);
    }
}

// ── Making and trading ──

/// An item can be made of a kind that there is, in one place that there is: at least one piece,
/// and more than one only of what can be stacked.
pub proof fn law_what_can_be_made(w: World, content: Content, p: crate::inventory::CreateParams)
    ensures
        crate::inventory::create_refusal(w, content, p) is None <==> {
            let k = content.base(p.base_kind@);
            let n = if p.quantity is Some {
                p.quantity->0
            } else {
                1
            };
            &&& k is Some
            &&& n >= 1
            &&& n > 1 ==> content.item_bases@[k->0].stackable
            &&& {
                ||| p.holder_character_id is Some && p.zone_location_id is None && p.container_item_id is None
                    && listed(w.characters, p.holder_character_id->0)
                ||| p.holder_character_id is None && p.zone_location_id is Some && p.container_item_id is None
                    && listed(w.zones, p.zone_location_id->0)
                ||| p.holder_character_id is None && p.zone_location_id is None && p.container_item_id is Some
                    && listed(w.items, p.container_item_id->0)
            }
        },
{
}

/// Whether the character holds the item, and the rules know what it is.
pub open spec fn can_trade(w: World, content: Content, holder: i64, id: i64) -> bool {
    &&& listed(w.items, id)
    &&& row(w.items, id).place == Place::Holder(holder)
    &&& content.base(row(w.items, id).base_kind) is Some
}

proof fn lemma_side(w: World, content: Content, holder: i64, ids: Seq<i64>)
    ensures
        side_refusal(w, content, holder, ids) is None <==> forall|i: int|
            0 <= i < ids.len() ==> can_trade(w, content, holder, #[trigger] ids[i]),
    decreases ids.len(),
{
    if ids.len() > 0 {
        let rest = ids.drop_last();
        lemma_side(w, content, holder, rest);
        if side_refusal(w, content, holder, ids) is None {
            assert forall|i: int| 0 <= i < ids.len() implies can_trade(w, content, holder, #[trigger] ids[i]) by {
                if i < rest.len() {
                    assert(can_trade(w, content, holder, rest[i]));
                }
            }
        }
        if forall|i: int| 0 <= i < ids.len() ==> can_trade(w, content, holder, #[trigger] ids[i]) {
            assert(can_trade(w, content, holder, ids[ids.len() - 1]));
            assert forall|i: int| 0 <= i < rest.len() implies can_trade(w, content, holder, #[trigger] rest[i]) by {
                assert(can_trade(w, content, holder, ids[i]));
            }
        }
    }
}

proof fn lemma_named_once(ids: Seq<i64>)
    ensures
        named_twice(ids) is None <==> ids.no_duplicates(),
    decreases ids.len(),
{
    if ids.len() > 0 {
        let rest = ids.drop_last();
        lemma_named_once(rest);
        if ids.no_duplicates() {
            assert(rest.no_duplicates());
            if rest.contains(ids.last()) {
                let i = choose|i: int| 0 <= i < rest.len() && rest[i] == ids.last();
                assert(ids[i] == ids[ids.len() - 1]);
            }
        }
        if named_twice(ids) is None {
            assert forall|i: int, j: int| 0 <= i < ids.len() && 0 <= j < ids.len() && i != j implies ids[i]
                != ids[j] by {
                if i < rest.len() && j < rest.len() {
                    assert(rest[i] != rest[j]);
                } else if i < rest.len() {
                    assert(rest.contains(rest[i]));
                } else {
                    assert(rest.contains(rest[j]));
                }
            }
        }
    }
}

/// Two different characters can trade: each gives only what it holds and what the rules know, and
/// names nothing twice. Where that is so and no talk is needed, they do.
pub proof fn law_who_can_trade(w: World, content: Content, p: ExchangeParams, i: int)
    ensures
        exchange_refusal(w, content, p) is None ==> {
            let offered = p.offered_item_ids@;
            let asked = p.requested_item_ids@;
            &&& offered.len() + asked.len() > 0
            &&& p.character_id != p.merchant_character_id
            &&& 0 <= i < offered.len() ==> can_trade(w, content, p.character_id, offered[i])
            &&& 0 <= i < asked.len() ==> can_trade(w, content, p.merchant_character_id, asked[i])
            &&& offered.no_duplicates()
            &&& asked.no_duplicates()
        },
        ({
            let offered = p.offered_item_ids@;
            let asked = p.requested_item_ids@;
            &&& offered.len() + asked.len() > 0
            &&& p.character_id != p.merchant_character_id
            &&& listed(w.characters, p.character_id)
            &&& listed(w.characters, p.merchant_character_id)
            &&& forall|k: int| 0 <= k < offered.len() ==> can_trade(w, content, p.character_id, #[trigger] offered[k])
            &&& forall|k: int|
                0 <= k < asked.len() ==> can_trade(w, content, p.merchant_character_id, #[trigger] asked[k])
            &&& offered.no_duplicates()
            &&& asked.no_duplicates()
            &&& deal_of(w, content, p) != Deal::Open
        }) ==> exchange_refusal(w, content, p) is None,
{
    lemma_side(w, content, p.character_id, p.offered_item_ids@);
    lemma_side(w, content, p.merchant_character_id, p.requested_item_ids@);
    lemma_named_once(p.offered_item_ids@);
    lemma_named_once(p.requested_item_ids@);
}

/// A character can be generated from an archetype that there is, in a role that there is, in a
/// zone that there is or in none, if the formula for its hit points can be read.
pub proof fn law_who_can_be_generated(w: World, content: Content, p: GenerateParams)
    ensures
        generate_refusal(w, content, p) is None <==> {
            let k = archetype_at(content, p.archetype@);
            let arch = content.archetypes@[k->0];
            &&& k is Some
            &&& p.role_override is Some ==> Role::of_text(p.role_override->0@) is Some
            &&& p.role_override is None ==> Role::of_text(arch.role_hint@) is Some
            &&& p.zone_id is Some ==> listed(w.zones, p.zone_id->0)
            &&& arch.hp_formula is Some ==> crate::hit_points::hp_terms(arch.hp_formula->0@) is Ok
        },
{
}

} // verus!
