//! Characters out of archetypes: rolled scores and hit points, a name, training, an outfit
//! and a past.
//!
//! The past of such a character is written to the log as entries with negative hours, so that
//! it is recalled in the same way as what happens in play.

use vstd::prelude::*;
use crate::campaign::{
    byte_len, capped, find, lemma_push, lemma_tables, listed, next_id, row, top, Campaign, World,
};
use crate::checks::{ability_modifier, find_training, modifier_of, training_of};
use crate::content::{Archetype, ArchetypeLoadoutEntry, ArchetypeProficiency, Content, NamePool, StatRange};
use crate::dice::{can_roll, draw, lemma_roll_fits, parse, parsed, roll_with, sum};
use crate::error::Error;
use crate::events::{
    entry, entry_view, field, field_view, fields3, fields9, int_cell, int_field, make_int_cell, one, only,
    opt_str, opt_text_field, text_field,
};
use crate::hit_points::{
    check_most, draw_terms, eval_terms, hp_most, hp_of, hp_rolls_ok, hp_sum, hp_terms, lemma_hp_between,
    lemma_hp_most, read_formula, terms_ok, HpTerm,
};
use crate::proficiencies::lemma_training_at;
use crate::random::{
    draw_shuffle, draws_ok, law_shuffling_keeps_all, random_between, random_index, shuffle, shuffled,
};
use crate::recall::{
    kind_matches, law_kind_begins_with_prefix, law_newest_comes_first, law_recall_forgets_nothing,
    lemma_other_beginning, memories, pattern_of, recall_refusal, recalled, recalls,
    recollection, roles_in, wanted, RecallParams, MAX_PATTERN_BYTES,
};
use crate::rows::{
    views, Cell, Character, Event, EventRole, EventView, Item, Place, Proficiency, Role, Size, Status,
    Value, ValueView,
};
use crate::templates::{draw_slots, draws_fit, filled, substitute_with};
use crate::text::{copy_opt, debug_text, decimal, int_text, opt_text, quoted, same};
use crate::world::{campaign_hour, law_clock_is_latest_hour, law_clock_never_goes_back};

verus! {

#[derive(Debug, Clone, PartialEq, Eq)]
pub struct GenerateParams {
    /// The archetype, such as `orc_raider`.
    pub archetype: String,
    /// The zone that the character is in.
    pub zone_id: Option<i64>,
    /// The role, in place of the one that the archetype suggests.
    pub role_override: Option<String>,
}

#[derive(Debug, Clone, PartialEq, Eq)]
pub struct GenerateResult {
    pub character_id: i64,
    pub name: String,
    pub role: String,
    pub archetype: String,
    pub species: String,
    pub rolled_hp_max: i32,
    pub rolled_stats: RolledStats,
    pub item_ids: Vec<i64>,
    pub backstory_event_ids: Vec<i64>,
    pub created_event_id: i64,
}

#[derive(Debug, Clone, Copy, PartialEq, Eq, Structural)]
pub struct RolledStats {
    pub str_score: i32,
    pub dex_score: i32,
    pub con_score: i32,
    pub int_score: i32,
    pub wis_score: i32,
    pub cha_score: i32,
}

/// What chance decides about one entry of an outfit: whether it is there, in millionths, and
/// how much of it.
#[derive(Debug, Clone, PartialEq, Eq)]
pub struct LoadoutRoll {
    pub chance: i64,
    pub quantity: Vec<i64>,
}

/// What chance decides about a character.
#[derive(Debug, Clone, PartialEq, Eq)]
pub struct NpcRolls {
    pub scores: RolledStats,
    /// The rolls for the terms of the formula for hit points.
    pub hp: Vec<Vec<i64>>,
    pub first_name: usize,
    pub last_name: usize,
    pub ideology: usize,
    pub plans: usize,
    /// How many hooks the past has, in which order they are drawn, and when they were.
    pub hooks: usize,
    pub hook_order: Vec<usize>,
    pub hook_hours: Vec<i64>,
    /// The draws for the gaps in each hook.
    pub slots: Vec<Vec<usize>>,
    pub loadout: Vec<LoadoutRoll>,
}

// ── What an archetype says ──

/// Where stands, among the first `n` archetypes, the one with the id.
pub open spec fn archetype_among(list: Seq<Archetype>, id: Seq<char>, n: nat) -> Option<int>
    decreases n,
{
    if n == 0 {
        None
    } else if list[n - 1].id@ == id {
        Some(n - 1)
    } else {
        archetype_among(list, id, (n - 1) as nat)
    }
}

/// Where stands the archetype with the id.
pub open spec fn archetype_at(content: Content, id: Seq<char>) -> Option<int> {
    archetype_among(content.archetypes@, id, content.archetypes@.len())
}

/// Where stands, among the first `n` ranges, that of the ability.
pub open spec fn range_among(list: Seq<StatRange>, ability: Seq<char>, n: nat) -> Option<int>
    decreases n,
{
    if n == 0 {
        None
    } else if list[n - 1].ability@ == ability {
        Some(n - 1)
    } else {
        range_among(list, ability, (n - 1) as nat)
    }
}

/// The least and the largest score that the archetype allows; 10 where it says nothing
/// sensible.
pub open spec fn score_range(arch: Archetype, ability: Seq<char>) -> (int, int) {
    match range_among(arch.stats@, ability, arch.stats@.len()) {
        Some(k) => if arch.stats@[k].low <= arch.stats@[k].high {
            (arch.stats@[k].low as int, arch.stats@[k].high as int)
        } else {
            (10, 10)
        },
        None => (10, 10),
    }
}

pub open spec fn score_fits(arch: Archetype, ability: Seq<char>, score: i32) -> bool {
    score_range(arch, ability).0 <= score <= score_range(arch, ability).1
}

/// Whether the archetype allows the scores.
pub open spec fn scores_fit(arch: Archetype, s: RolledStats) -> bool {
    &&& score_fits(arch, "str"@, s.str_score)
    &&& score_fits(arch, "dex"@, s.dex_score)
    &&& score_fits(arch, "con"@, s.con_score)
    &&& score_fits(arch, "int"@, s.int_score)
    &&& score_fits(arch, "wis"@, s.wis_score)
    &&& score_fits(arch, "cha"@, s.cha_score)
}

/// Where stands, among the first `n` pools, that of the species.
pub open spec fn names_among(list: Seq<NamePool>, species: Seq<char>, n: nat) -> Option<int>
    decreases n,
{
    if n == 0 {
        None
    } else if list[n - 1].species@ == species {
        Some(n - 1)
    } else {
        names_among(list, species, (n - 1) as nat)
    }
}

/// Where stands the pool of names for the species, where it has any first names.
pub open spec fn names_at(content: Content, species: Seq<char>) -> Option<int> {
    match names_among(content.name_pools@, species, content.name_pools@.len()) {
        Some(k) => if content.name_pools@[k].first@.len() > 0 {
            Some(k)
        } else {
            None
        },
        None => None,
    }
}

/// The name for the draws: a first name and, where the species has any, a last name. Without
/// names it is called after the species.
pub open spec fn name_of(content: Content, species: Seq<char>, first: int, last: int) -> Seq<char> {
    match names_at(content, species) {
        Some(k) => {
            let pool = content.name_pools@[k];
            if pool.last@.len() == 0 {
                pool.first@[first]@
            } else {
                pool.first@[first]@ + " "@ + pool.last@[last]@
            }
        },
        None => species + " NPC"@,
    }
}

/// Whether the draws are places in the lists of names.
pub open spec fn name_fits(content: Content, species: Seq<char>, first: int, last: int) -> bool {
    match names_at(content, species) {
        Some(k) => {
            &&& 0 <= first < content.name_pools@[k].first@.len()
            &&& content.name_pools@[k].last@.len() > 0 ==> 0 <= last < content.name_pools@[k].last@.len()
        },
        None => true,
    }
}

/// What the draw takes from the pool, where there is anything in it.
pub open spec fn one_of(pool: Seq<String>, draw: int) -> Option<Seq<char>> {
    if pool.len() == 0 {
        None
    } else {
        Some(pool[draw]@)
    }
}

/// The role of the character.
pub open spec fn role_of(arch: Archetype, p: GenerateParams) -> Seq<char> {
    match p.role_override {
        Some(t) => t@,
        None => arch.role_hint@,
    }
}

/// The hit points that the archetype gives.
pub open spec fn hp_for(arch: Archetype, role: Seq<char>, con_score: i32, rolls: Seq<Vec<i64>>) -> i32 {
    match arch.hp_formula {
        Some(f) => hp_of(hp_terms(f@)->Ok_0, modifier_of(con_score as int), rolls) as i32,
        None => if role == "enemy"@ {
            12
        } else {
            10
        },
    }
}

/// Whether these are rolls for the formula of the archetype, and what they come to is a
/// number of hit points.
pub open spec fn hp_fits(arch: Archetype, con_score: i32, rolls: Seq<Vec<i64>>) -> bool {
    arch.hp_formula matches Some(f) ==> (hp_terms(f@) matches Ok(ts) ==> {
        &&& hp_rolls_ok(ts, rolls)
        &&& hp_sum(ts, modifier_of(con_score as int), rolls) <= i32::MAX
    })
}

/// Whether hit points by the formula are a number that a character can have, whatever the
/// dice and the constitution that the archetype allows.
pub open spec fn formula_fits(arch: Archetype, ts: Seq<HpTerm>) -> bool {
    let (low, high) = score_range(arch, "con"@);
    hp_most(ts, modifier_of(low)) <= i32::MAX && hp_most(ts, modifier_of(high)) <= i32::MAX
}

/// Whether whatever is rolled is a number of hit points, and the outfit can be counted.
pub open spec fn archetype_fits(arch: Archetype) -> bool {
    &&& arch.hp_formula matches Some(f) ==> (hp_terms(f@) matches Ok(ts) ==> formula_fits(arch, ts))
    &&& arch.loadout@.len() < i32::MAX
}

// ── The past ──

/// The fewest hooks that a past has.
pub open spec fn fewest_hooks(arch: Archetype) -> int {
    if arch.backstory_hooks@.len() < 3 {
        arch.backstory_hooks@.len() as int
    } else {
        3
    }
}

/// The most hooks that a past has.
pub open spec fn most_hooks(arch: Archetype) -> int {
    if arch.backstory_hooks@.len() < 5 {
        arch.backstory_hooks@.len() as int
    } else {
        5
    }
}

/// The places from 0 up to `n`.
pub open spec fn places(n: nat) -> Seq<usize> {
    Seq::new(n, |i: int| i as usize)
}

/// Which hooks the past has: the first of the shuffled ones.
pub open spec fn hook_picks(arch: Archetype, rolls: NpcRolls) -> Seq<usize> {
    shuffled(places(arch.backstory_hooks@.len()), rolls.hook_order@).take(rolls.hooks as int)
}

/// What hook `k` of the past says.
pub open spec fn hook_text(arch: Archetype, rolls: NpcRolls, k: int) -> Seq<char> {
    filled(
        arch.backstory_hooks@[hook_picks(arch, rolls)[k] as int]@,
        0,
        arch.slot_pools@,
        rolls.slots@[k]@,
    )
}

/// Whether chance can decide so about the past: three to five hooks, or all where there are
/// fewer, each 1 to 1000 hours before the campaign.
pub open spec fn past_fits(arch: Archetype, rolls: NpcRolls) -> bool {
    let n = arch.backstory_hooks@.len() as int;
    &&& fewest_hooks(arch) <= rolls.hooks <= most_hooks(arch)
    &&& n == 0 ==> rolls.hook_order@.len() == 0
    &&& n > 0 ==> draws_ok(n, rolls.hook_order@)
    &&& rolls.hook_hours@.len() == rolls.hooks
    &&& forall|k: int| 0 <= k < rolls.hooks ==> -1000 <= #[trigger] rolls.hook_hours@[k] <= -1
    &&& rolls.slots@.len() == rolls.hooks
    &&& forall|k: int|
        0 <= k < rolls.hooks ==> draws_fit(
            arch.backstory_hooks@[hook_picks(arch, rolls)[k] as int]@,
            0,
            arch.slot_pools@,
            (#[trigger] rolls.slots@[k])@,
        )
}

/// The hooks of a past are different ones.
pub proof fn law_past_has_different_hooks(arch: Archetype, rolls: NpcRolls)
    requires
        past_fits(arch, rolls),
    ensures
        hook_picks(arch, rolls).len() == rolls.hooks,
        hook_picks(arch, rolls).no_duplicates(),
        forall|k: int|
            0 <= k < rolls.hooks ==> 0 <= #[trigger] hook_picks(arch, rolls)[k] < arch.backstory_hooks@.len(),
{
    let all = places(arch.backstory_hooks@.len());
    let n = arch.backstory_hooks@.len();
    assert(arch.backstory_hooks.len() == n);
    assert(all.no_duplicates());
    law_shuffling_keeps_all(all, rolls.hook_order@);
    let mixed = shuffled(all, rolls.hook_order@);
    assert forall|k: int| 0 <= k < rolls.hooks implies 0 <= #[trigger] hook_picks(arch, rolls)[k] < n by {
        let x = mixed[k];
        assert(mixed.contains(x));
        assert(all.contains(x));
    }
}

// ── The outfit ──

/// How much there is of an entry of the outfit.
pub open spec fn quantity_of(e: ArchetypeLoadoutEntry, roll: LoadoutRoll) -> int {
    match e.quantity_dice {
        Some(t) => match parsed(t@) {
            Ok(_) => if sum(roll.quantity@) < 1 {
                1
            } else {
                sum(roll.quantity@)
            },
            Err(_) => 1,
        },
        None => 1,
    }
}

/// Whether chance can decide so about the outfit.
pub open spec fn loadout_fits(arch: Archetype, rolls: Seq<LoadoutRoll>) -> bool {
    &&& rolls.len() == arch.loadout@.len()
    &&& forall|k: int|
        0 <= k < rolls.len() ==> {
            &&& 0 <= (#[trigger] rolls[k]).chance < 1_000_000
            &&& arch.loadout@[k].quantity_dice matches Some(t) ==> (parsed(t@) matches Ok(d) ==> can_roll(
                d,
                rolls[k].quantity@,
            ))
        }
}

/// The item that an entry of the outfit is.
pub open spec fn outfit_item(w: World, id: i64, event_id: i64, e: ArchetypeLoadoutEntry, roll: LoadoutRoll) -> Item<
    Seq<char>,
> {
    Item {
        id: next_id(w.items),
        base_kind: e.base_kind@,
        name: None,
        material: opt_text(e.material),
        material_tier: e.material_tier,
        quality: None,
        quantity: quantity_of(e, roll) as i64,
        place: Place::Holder(id),
        equipped_slot: opt_text(e.equip),
        created_at_event_id: Some(event_id),
        updated_at: 0,
    }
}

/// The campaign with those of the first `n` entries of the outfit that chance gives.
pub open spec fn outfitted(
    w: World,
    id: i64,
    event_id: i64,
    arch: Archetype,
    rolls: Seq<LoadoutRoll>,
    n: nat,
) -> World
    decreases n,
{
    if n == 0 {
        w
    } else {
        let before = outfitted(w, id, event_id, arch, rolls, (n - 1) as nat);
        if rolls[n - 1].chance < arch.loadout@[n - 1].chance {
            World {
                items: before.items.push(
                    outfit_item(before, id, event_id, arch.loadout@[n - 1], rolls[n - 1]),
                ),
                ..before
            }
        } else {
            before
        }
    }
}

/// The ids of the items that are added.
pub open spec fn added_items(w: World, after: World) -> Seq<i64> {
    Seq::new(
        (after.items.len() - w.items.len()) as nat,
        |k: int| after.items[w.items.len() + k].id,
    )
}

// ── The character ──

pub open spec fn override_text(p: GenerateParams) -> Seq<char> {
    match p.role_override {
        Some(t) => "Some("@ + debug_text(t@) + ")"@,
        None => "None"@,
    }
}

pub open spec fn generate_refusal(w: World, content: Content, p: GenerateParams) -> Option<Error<Seq<char>>> {
    match archetype_at(content, p.archetype@) {
        None => Some(Error::UnknownArchetype { archetype: p.archetype@ }),
        Some(k) => {
            let arch = content.archetypes@[k];
            if Role::of_text(role_of(arch, p)) is None {
                Some(
                    Error::UnknownNpcRole {
                        role: role_of(arch, p),
                        archetype: p.archetype@,
                        given: override_text(p),
                    },
                )
            } else if p.zone_id matches Some(z) && !listed(w.zones, z) {
                Some(Error::NoSuchZone { id: p.zone_id->0 })
            } else {
                match arch.hp_formula {
                    Some(f) => match hp_terms(f@) {
                        Err(e) => Some(e),
                        Ok(_) => None,
                    },
                    None => None,
                }
            }
        },
    }
}

/// Whether chance can decide so about the character.
pub open spec fn npc_rolls_ok(content: Content, arch: Archetype, rolls: NpcRolls) -> bool {
    &&& scores_fit(arch, rolls.scores)
    &&& hp_fits(arch, rolls.scores.con_score, rolls.hp@)
    &&& name_fits(content, arch.species@, rolls.first_name as int, rolls.last_name as int)
    &&& arch.ideology_pool@.len() > 0 ==> rolls.ideology < arch.ideology_pool@.len()
    &&& arch.plan_pool@.len() > 0 ==> rolls.plans < arch.plan_pool@.len()
    &&& past_fits(arch, rolls)
    &&& loadout_fits(arch, rolls.loadout@)
}

/// The character.
pub open spec fn npc_row(
    w: World,
    content: Content,
    p: GenerateParams,
    arch: Archetype,
    rolls: NpcRolls,
) -> Character<Seq<char>> {
    let role = role_of(arch, p);
    let hp = hp_for(arch, role, rolls.scores.con_score, rolls.hp@);
    Character {
        id: next_id(w.characters),
        name: name_of(content, arch.species@, rolls.first_name as int, rolls.last_name as int),
        role: Role::of_text(role)->0,
        party_id: None,
        str_score: rolls.scores.str_score,
        dex_score: rolls.scores.dex_score,
        con_score: rolls.scores.con_score,
        int_score: rolls.scores.int_score,
        wis_score: rolls.scores.wis_score,
        cha_score: rolls.scores.cha_score,
        hp_current: hp,
        hp_max: hp,
        hp_temp: 0,
        armor_class: match arch.ac_base {
            Some(n) => n,
            None => 10,
        },
        speed_ft: match arch.speed_ft {
            Some(n) => n,
            None => 30,
        },
        initiative_bonus: 0,
        level: 1,
        xp_total: 0,
        proficiency_bonus: 2,
        size: Size::Medium,
        species: Some(arch.species@),
        class_or_archetype: Some(p.archetype@),
        ideology: one_of(arch.ideology_pool@, rolls.ideology as int),
        backstory: None,
        plans: one_of(arch.plan_pool@, rolls.plans as int),
        loyalty: 50,
        status: Status::Alive,
        current_zone_id: p.zone_id,
        death_save_successes: 0,
        death_save_failures: 0,
        created_at: 0,
        updated_at: 0,
    }
}

/// The scores in a payload.
pub open spec fn score_cells(s: RolledStats) -> Seq<Cell<Seq<char>>> {
    seq![
        int_cell("str_score"@, s.str_score as int),
        int_cell("dex_score"@, s.dex_score as int),
        int_cell("con_score"@, s.con_score as int),
        int_cell("int_score"@, s.int_score as int),
        int_cell("wis_score"@, s.wis_score as int),
        int_cell("cha_score"@, s.cha_score as int),
    ]
}

pub open spec fn npc_entry(
    p: GenerateParams,
    role: Seq<char>,
    scores: RolledStats,
    ch: Character<Seq<char>>,
) -> EventView {
    EventView {
        zone_id: p.zone_id,
        ..entry_view(
            "character.created"@,
            0,
            "Generated "@ + role + " "@ + debug_text(ch.name) + " from archetype "@ + debug_text(p.archetype@)
                + " (id="@ + int_text(ch.id as int) + ")"@,
            seq![
                field_view("role"@, ValueView::Text(role)),
                field_view("archetype"@, ValueView::Text(p.archetype@)),
                field_view("species"@, opt_str(ch.species)),
                field_view("name"@, ValueView::Text(ch.name)),
                field_view("rolled_stats"@, ValueView::Record(score_cells(scores))),
                field_view("hp_max"@, ValueView::Int(ch.hp_max as int)),
                field_view("armor_class"@, ValueView::Int(ch.armor_class as int)),
                field_view("ideology"@, opt_str(ch.ideology)),
                field_view("plans"@, opt_str(ch.plans)),
            ],
            one(ch.id, EventRole::Actor),
        )
    }
}

/// What a character is trained in, by its archetype.
pub open spec fn archetype_training(id: i64, t: ArchetypeProficiency) -> Proficiency<Seq<char>> {
    Proficiency {
        character_id: id,
        name: t.name@,
        proficient: t.proficient,
        expertise: t.expertise,
        ranks: t.ranks,
    }
}

/// The campaign with what the first `n` say that the character is trained in. What is said
/// last of one name stands.
pub open spec fn schooled(w: World, id: i64, list: Seq<ArchetypeProficiency>, n: nat) -> World
    decreases n,
{
    if n == 0 {
        w
    } else {
        let before = schooled(w, id, list, (n - 1) as nat);
        let t = archetype_training(id, list[n - 1]);
        World {
            proficiencies: match training_of(before, id, t.name) {
                Some(k) => before.proficiencies.update(k, t),
                None => before.proficiencies.push(t),
            },
            ..before
        }
    }
}

pub open spec fn past_entry(p: GenerateParams, id: i64, event_id: i64, hour: i64, text: Seq<char>) -> EventView {
    EventView {
        zone_id: p.zone_id,
        parent_id: Some(event_id),
        ..entry_view(
            "history.backstory"@,
            hour,
            text,
            seq![
                field_view("archetype"@, ValueView::Text(p.archetype@)),
                field_view("hook_template"@, ValueView::Text(text)),
                field_view("character_id"@, ValueView::Int(id as int)),
            ],
            one(id, EventRole::Actor),
        )
    }
}

/// The log with the first `n` hooks of the past.
pub open spec fn remembered(
    w: World,
    p: GenerateParams,
    id: i64,
    event_id: i64,
    arch: Archetype,
    rolls: NpcRolls,
    n: nat,
) -> World
    decreases n,
{
    if n == 0 {
        w
    } else {
        remembered(w, p, id, event_id, arch, rolls, (n - 1) as nat).with_event(
            past_entry(p, id, event_id, rolls.hook_hours@[n - 1], hook_text(arch, rolls, n - 1)),
        )
    }
}

/// The campaign with the character, on record.
pub open spec fn born(w: World, content: Content, p: GenerateParams, arch: Archetype, rolls: NpcRolls) -> World {
    let ch = npc_row(w, content, p, arch, rolls);
    World { characters: w.characters.push(ch), ..w }.with_event(
        npc_entry(p, role_of(arch, p), rolls.scores, ch),
    )
}

/// The campaign with the character, trained and outfitted.
pub open spec fn equipped(w: World, content: Content, p: GenerateParams, arch: Archetype, rolls: NpcRolls) -> World {
    let id = next_id(w.characters);
    outfitted(
        schooled(
            born(w, content, p, arch, rolls),
            id,
            arch.proficiencies@,
            arch.proficiencies@.len(),
        ),
        id,
        next_id(w.events),
        arch,
        rolls.loadout@,
        arch.loadout@.len(),
    )
}

/// The campaign with the character and all that belongs to it.
pub open spec fn generated(w: World, content: Content, p: GenerateParams, arch: Archetype, rolls: NpcRolls) -> World {
    remembered(
        equipped(w, content, p, arch, rolls),
        p,
        next_id(w.characters),
        next_id(w.events),
        arch,
        rolls,
        rolls.hooks as nat,
    )
}

/// What making a character does to the campaign and returns.
pub open spec fn generate_ok(
    w: World,
    content: Content,
    p: GenerateParams,
    rolls: NpcRolls,
    after: World,
    r: GenerateResult,
) -> bool {
    let arch = content.archetypes@[archetype_at(content, p.archetype@)->0];
    let ch = npc_row(w, content, p, arch, rolls);
    &&& r.character_id == ch.id
    &&& r.name@ == ch.name
    &&& r.role@ == role_of(arch, p)
    &&& r.archetype@ == p.archetype@
    &&& r.species@ == arch.species@
    &&& r.rolled_hp_max == ch.hp_max
    &&& r.rolled_stats == rolls.scores
    &&& r.item_ids@ == added_items(w, equipped(w, content, p, arch, rolls))
    &&& r.backstory_event_ids@ == crate::terrain::next_ids(top(w.events) + 1, rolls.hooks as nat)
    &&& r.created_event_id == next_id(w.events)
    &&& after == generated(w, content, p, arch, rolls)
}

// ── Execution ──

fn find_archetype(content: &Content, id: &str) -> (r: Option<usize>)
    ensures
        match r {
            Some(k) => archetype_at(*content, id@) == Some(k as int) && k < content.archetypes.len(),
            None => archetype_at(*content, id@) is None,
        },
{
    let list = &content.archetypes;
    let mut i: usize = list.len();
    while i > 0
        invariant
            i <= list.len(),
            list@ == content.archetypes@,
            archetype_among(list@, id@, list@.len()) == archetype_among(list@, id@, i as nat),
        decreases i,
    {
        if same(list[i - 1].id.as_str(), id) {
            return Some(i - 1);
        }
        i = i - 1;
    }
    None
}

fn read_range(arch: &Archetype, ability: &str) -> (r: (i32, i32))
    ensures
        (r.0 as int, r.1 as int) == score_range(*arch, ability@),
        r.0 <= r.1,
{
    let list = &arch.stats;
    let mut i: usize = list.len();
    while i > 0
        invariant
            i <= list.len(),
            list@ == arch.stats@,
            range_among(list@, ability@, list@.len()) == range_among(list@, ability@, i as nat),
        decreases i,
    {
        if same(list[i - 1].ability.as_str(), ability) {
            let x = &list[i - 1];
            return if x.low <= x.high {
                (x.low, x.high)
            } else {
                (10, 10)
            };
        }
        i = i - 1;
    }
    (10, 10)
}

/// Rolls a score.
fn roll_stat(arch: &Archetype, ability: &str) -> (r: i32)
    ensures
        score_fits(*arch, ability@, r),
{
    let (low, high) = read_range(arch, ability);
    random_between(low as i64, high as i64) as i32
}

fn find_names(content: &Content, species: &str) -> (r: Option<usize>)
    ensures
        match r {
            Some(k) => names_at(*content, species@) == Some(k as int) && k < content.name_pools.len()
                && content.name_pools@[k as int].first@.len() > 0,
            None => names_at(*content, species@) is None,
        },
{
    let list = &content.name_pools;
    let mut i: usize = list.len();
    while i > 0
        invariant
            i <= list.len(),
            list@ == content.name_pools@,
            names_among(list@, species@, list@.len()) == names_among(list@, species@, i as nat),
        decreases i,
    {
        if same(list[i - 1].species.as_str(), species) {
            if list[i - 1].first.len() > 0 {
                return Some(i - 1);
            }
            return None;
        }
        i = i - 1;
    }
    None
}

/// The name for the draws.
pub fn pick_name(content: &Content, species: &str, first: usize, last: usize) -> (r: String)
    requires
        name_fits(*content, species@, first as int, last as int),
    ensures
        r@ == name_of(*content, species@, first as int, last as int),
{
    match find_names(content, species) {
        Some(k) => {
            let pool = &content.name_pools[k];
            let mut name = pool.first[first].clone();
            if pool.last.len() > 0 {
                name.append(" ");
                name.append(pool.last[last].as_str());
            }
            name
        },
        None => {
            let mut name = species.to_owned();
            name.append(" NPC");
            name
        },
    }
}

/// What the draw takes from the pool.
pub fn pick_one(pool: &Vec<String>, draw: usize) -> (r: Option<String>)
    requires
        pool@.len() > 0 ==> draw < pool@.len(),
    ensures
        opt_text(r) == one_of(pool@, draw as int),
{
    if pool.len() == 0 {
        None
    } else {
        Some(pool[draw].clone())
    }
}

/// The places of the first `n` of the shuffled things of a pool.
fn pick_many(size: usize, n: usize, draws: &Vec<usize>) -> (r: Vec<usize>)
    requires
        n <= size,
        size == 0 ==> draws@.len() == 0,
        size > 0 ==> draws_ok(size as int, draws@),
    ensures
        r@ == shuffled(places(size as nat), draws@).take(n as int),
{
    let mut all: Vec<usize> = Vec::new();
    let mut i: usize = 0;
    while i < size
        invariant
            i <= size,
            all@ == places(i as nat),
        decreases size - i,
    {
        all.push(i);
        assert(all@ =~= places((i + 1) as nat));
        i = i + 1;
    }
    if size > 0 {
        shuffle(&mut all, draws);
    }
    let mut out: Vec<usize> = Vec::new();
    let mut k: usize = 0;
    while k < n
        invariant
            k <= n <= all@.len(),
            out@ == all@.take(k as int),
        decreases n - k,
    {
        out.push(all[k]);
        assert(out@ =~= all@.take(k + 1));
        k = k + 1;
    }
    out
}

/// The hit points for a role of which the archetype says nothing.
pub fn default_hp_for_role(role: &str) -> (r: i32)
    ensures
        r == (if role@ == "enemy"@ {
            12i32
        } else {
            10
        }),
{
    if same(role, "enemy") {
        12
    } else {
        10
    }
}

/// What an archetype gives for a character, or why it gives nothing.
fn check_generate(c: &Campaign, content: &Content, p: &GenerateParams) -> (r: Result<
    (usize, Role, String, Vec<HpTerm>),
    Error,
>)
    requires
        c@.wf(),
    ensures
        match r {
            Ok((k, role, text, ts)) => {
                &&& generate_refusal(c@, *content, *p) is None
                &&& archetype_at(*content, p.archetype@) == Some(k as int)
                &&& k < content.archetypes.len()
                &&& text@ == role_of(content.archetypes@[k as int], *p)
                &&& Role::of_text(text@) == Some(role)
                &&& p.zone_id matches Some(z) ==> listed(c@.zones, z)
                &&& content.archetypes@[k as int].hp_formula matches Some(f) ==> hp_terms(f@) == Ok::<
                    Seq<HpTerm>,
                    Error<Seq<char>>,
                >(ts@)
                &&& terms_ok(ts@)
            },
            Err(e) => generate_refusal(c@, *content, *p) == Some(e@),
        },
{
    let k: usize = match find_archetype(content, p.archetype.as_str()) {
        Some(k) => k,
        None => {
            return Err(Error::UnknownArchetype { archetype: p.archetype.clone() });
        },
    };
    let arch = &content.archetypes[k];
    let text = match &p.role_override {
        Some(t) => t.clone(),
        None => arch.role_hint.clone(),
    };
    let role = match Role::parse(text.as_str()) {
        Some(x) => x,
        None => {
            let given = match &p.role_override {
                Some(t) => {
                    let mut s = "Some(".to_owned();
                    s.append(quoted(t.as_str()).as_str());
                    s.append(")");
                    s
                },
                None => "None".to_owned(),
            };
            return Err(Error::UnknownNpcRole { role: text, archetype: p.archetype.clone(), given });
        },
    };
    proof {
        lemma_tables(c@);
    }
    if let Some(z) = p.zone_id {
        if find(&c.zones, z).is_none() {
            return Err(Error::NoSuchZone { id: z });
        }
    }
    let mut ts: Vec<HpTerm> = Vec::new();
    if let Some(f) = &arch.hp_formula {
        match read_formula(f.as_str()) {
            Ok(v) => {
                ts = v;
            },
            Err(e) => {
                return Err(e);
            },
        }
    }
    Ok((k, role, text, ts))
}

/// The hit points that the archetype gives.
fn give_hp(arch: &Archetype, role: &str, ts: &Vec<HpTerm>, con_score: i32, rolls: &Vec<Vec<i64>>) -> (r: i32)
    requires
        arch.hp_formula matches Some(f) ==> hp_terms(f@) == Ok::<Seq<HpTerm>, Error<Seq<char>>>(ts@),
        terms_ok(ts@),
        hp_fits(*arch, con_score, rolls@),
    ensures
        r == hp_for(*arch, role@, con_score, rolls@),
        r >= 1,
{
    match &arch.hp_formula {
        Some(f) => {
            proof {
                assert(hp_terms(f@) == Ok::<Seq<HpTerm>, Error<Seq<char>>>(ts@));
            }
            eval_terms(ts, ability_modifier(con_score), rolls)
        },
        None => default_hp_for_role(role),
    }
}

/// Records what the archetype says that the character is trained in.
fn school(c: &mut Campaign, id: i64, list: &Vec<ArchetypeProficiency>)
    requires
        old(c)@.wf(),
        listed(old(c)@.characters, id),
    ensures
        final(c)@.wf(),
        final(c)@ == schooled(old(c)@, id, list@, list@.len()),
        final(c)@ == (World { proficiencies: final(c)@.proficiencies, ..old(c)@ }),
{
    let ghost w = c@;
    let mut n: usize = 0;
    while n < list.len()
        invariant
            n <= list.len(),
            c@.wf(),
            listed(w.characters, id),
            c@ == schooled(w, id, list@, n as nat),
            c@ == (World { proficiencies: c@.proficiencies, ..w }),
        decreases list.len() - n,
    {
        let t = &list[n];
        let x = Proficiency {
            character_id: id,
            name: t.name.clone(),
            proficient: t.proficient,
            expertise: t.expertise,
            ranks: t.ranks,
        };
        assert(x@ == archetype_training(id, *t));
        match find_training(c, id, t.name.as_str()) {
            Some(k) => c.set_proficiency(k, x),
            None => c.push_proficiency(x),
        }
        n = n + 1;
    }
}

/// How much there is of an entry of the outfit.
fn count_entry(e: &ArchetypeLoadoutEntry, roll: &LoadoutRoll) -> (r: i64)
    requires
        e.quantity_dice matches Some(t) ==> (parsed(t@) matches Ok(d) ==> can_roll(d, roll.quantity@)),
    ensures
        r == quantity_of(*e, *roll),
        r >= 1,
{
    if let Some(t) = &e.quantity_dice {
        if let Ok(d) = parse(t.as_str()) {
            proof {
                lemma_roll_fits(d, roll.quantity@);
            }
            let total: i64 = roll_with(&d, crate::events::copy_ints(&roll.quantity)).total;
            if total > 1 {
                return total;
            }
        }
    }
    1
}

/// Gives the character its outfit.
fn outfit(c: &mut Campaign, id: i64, event_id: i64, arch: &Archetype, rolls: &Vec<LoadoutRoll>) -> (r: Vec<i64>)
    requires
        old(c)@.wf(),
        listed(old(c)@.characters, id),
        loadout_fits(*arch, rolls@),
        top(old(c)@.items) + arch.loadout@.len() < i64::MAX,
    ensures
        final(c)@.wf(),
        final(c)@ == outfitted(old(c)@, id, event_id, *arch, rolls@, arch.loadout@.len()),
        final(c)@ == (World { items: final(c)@.items, ..old(c)@ }),
        r@ == added_items(old(c)@, final(c)@),
{
    let ghost w = c@;
    let mut ids: Vec<i64> = Vec::new();
    let mut n: usize = 0;
    while n < arch.loadout.len()
        invariant
            n <= arch.loadout.len(),
            c@.wf(),
            listed(w.characters, id),
            loadout_fits(*arch, rolls@),
            top(w.items) + arch.loadout@.len() < i64::MAX,
            top(c@.items) <= top(w.items) + n,
            c@ == outfitted(w, id, event_id, *arch, rolls@, n as nat),
            c@ == (World { items: c@.items, ..w }),
            c@.items.len() >= w.items.len(),
            ids@ == added_items(w, c@),
        decreases arch.loadout.len() - n,
    {
        let e = &arch.loadout[n];
        let roll = &rolls[n];
        let ghost before = c@;
        if roll.chance < e.chance {
            assert(rolls@[n as int].chance >= 0);
            let quantity: i64 = count_entry(e, roll);
            let x = Item {
                id: 0,
                base_kind: e.base_kind.clone(),
                name: None,
                material: copy_opt(&e.material),
                material_tier: e.material_tier,
                quality: None,
                quantity,
                place: Place::Holder(id),
                equipped_slot: copy_opt(&e.equip),
                created_at_event_id: Some(event_id),
                updated_at: 0,
            };
            assert(Item { id: next_id(before.items), ..x@ } == outfit_item(before, id, event_id, *e, *roll));
            let item_id: i64 = c.add_item(x);
            ids.push(item_id);
            assert(ids@ =~= added_items(w, c@));
        }
        n = n + 1;
    }
    ids
}

/// Writes the past of the character to the log.
fn remember(
    c: &mut Campaign,
    p: &GenerateParams,
    id: i64,
    event_id: i64,
    arch: &Archetype,
    rolls: &NpcRolls,
) -> (r: Vec<i64>)
    requires
        old(c)@.wf(),
        listed(old(c)@.characters, id),
        listed(old(c)@.events, event_id),
        p.zone_id matches Some(z) ==> listed(old(c)@.zones, z),
        past_fits(*arch, *rolls),
        top(old(c)@.events) + 10 < i64::MAX,
    ensures
        final(c)@.wf(),
        final(c)@ == remembered(old(c)@, *p, id, event_id, *arch, *rolls, rolls.hooks as nat),
        r@ == crate::terrain::next_ids(top(old(c)@.events), rolls.hooks as nat),
{
    let ghost w = c@;
    proof {
        law_past_has_different_hooks(*arch, *rolls);
    }
    let picks = pick_many(arch.backstory_hooks.len(), rolls.hooks, &rolls.hook_order);
    let mut ids: Vec<i64> = Vec::new();
    let mut n: usize = 0;
    while n < rolls.hooks
        invariant
            n <= rolls.hooks <= 5,
            c@.wf(),
            listed(w.characters, id),
            listed(c@.events, event_id),
            p.zone_id matches Some(z) ==> listed(w.zones, z),
            past_fits(*arch, *rolls),
            picks@ == hook_picks(*arch, *rolls),
            picks@.len() == rolls.hooks,
            forall|k: int|
                0 <= k < rolls.hooks ==> 0 <= #[trigger] hook_picks(*arch, *rolls)[k]
                    < arch.backstory_hooks@.len(),
            top(w.events) + 10 < i64::MAX,
            top(c@.events) == top(w.events) + n,
            c@ == remembered(w, *p, id, event_id, *arch, *rolls, n as nat),
            c@ == (World { events: c@.events, ..w }),
            ids@ == crate::terrain::next_ids(top(w.events), n as nat),
        decreases rolls.hooks - n,
    {
        let ghost before = c@;
        assert(0 <= hook_picks(*arch, *rolls)[n as int] < arch.backstory_hooks@.len());
        assert(draws_fit(
            arch.backstory_hooks@[hook_picks(*arch, *rolls)[n as int] as int]@,
            0,
            arch.slot_pools@,
            rolls.slots@[n as int]@,
        ));
        let text = substitute_with(
            arch.backstory_hooks[picks[n]].as_str(),
            &arch.slot_pools,
            &rolls.slots[n],
        );
        assert(text@ == hook_text(*arch, *rolls, n as int));
        let hour: i64 = rolls.hook_hours[n];
        let base = entry(
            "history.backstory",
            hour,
            text.clone(),
            fields3(
                text_field("archetype", p.archetype.as_str()),
                text_field("hook_template", text.as_str()),
                int_field("character_id", id),
            ),
            only(id, EventRole::Actor),
        );
        let e = Event { zone_id: p.zone_id, parent_id: Some(event_id), ..base };
        assert(e@ == past_entry(*p, id, event_id, hour, text@));
        proof {
            lemma_tables(before);
            lemma_push(
                before.events,
                EventView {
                    id: next_id(before.events),
                    summary: crate::campaign::capped(e@.summary),
                    ..e@
                },
            );
        }
        let x: i64 = c.add_event(e);
        ids.push(x);
        assert(ids@ =~= crate::terrain::next_ids(top(w.events), (n + 1) as nat));
        n = n + 1;
    }
    ids
}

fn record_scores(s: &RolledStats) -> (r: Vec<Cell>)
    ensures
        views(r@) == score_cells(*s),
{
    let mut v: Vec<Cell> = Vec::new();
    v.push(make_int_cell("str_score", s.str_score as i64));
    v.push(make_int_cell("dex_score", s.dex_score as i64));
    v.push(make_int_cell("con_score", s.con_score as i64));
    v.push(make_int_cell("int_score", s.int_score as i64));
    v.push(make_int_cell("wis_score", s.wis_score as i64));
    v.push(make_int_cell("cha_score", s.cha_score as i64));
    assert(views(v@) =~= score_cells(*s));
    v
}

/// Adds the character and writes `character.created`.
fn bear(
    c: &mut Campaign,
    content: &Content,
    p: &GenerateParams,
    arch: &Archetype,
    role: Role,
    role_text: &str,
    hp: i32,
    rolls: &NpcRolls,
) -> (r: (i64, i64, String))
    requires
        old(c)@.wf(),
        old(c)@.room(),
        npc_rolls_ok(*content, *arch, *rolls),
        role_text@ == role_of(*arch, *p),
        Role::of_text(role_text@) == Some(role),
        hp == hp_for(*arch, role_text@, rolls.scores.con_score, rolls.hp@),
        hp >= 1,
        p.zone_id matches Some(z) ==> listed(old(c)@.zones, z),
    ensures
        final(c)@.wf(),
        final(c)@ == born(old(c)@, *content, *p, *arch, *rolls),
        r.0 == next_id(old(c)@.characters),
        r.1 == next_id(old(c)@.events),
        r.2@ == npc_row(old(c)@, *content, *p, *arch, *rolls).name,
        listed(final(c)@.characters, r.0),
        listed(final(c)@.events, r.1),
        top(final(c)@.events) == top(old(c)@.events) + 1,
{
    let ghost w = c@;
    let name = pick_name(content, arch.species.as_str(), rolls.first_name, rolls.last_name);
    let ideology = pick_one(&arch.ideology_pool, rolls.ideology);
    let plans = pick_one(&arch.plan_pool, rolls.plans);
    let armor_class: i32 = match arch.ac_base {
        Some(n) => n,
        None => 10,
    };
    let speed_ft: i32 = match arch.speed_ft {
        Some(n) => n,
        None => 30,
    };
    let ch = Character {
        id: 0,
        name: name.clone(),
        role,
        party_id: None,
        str_score: rolls.scores.str_score,
        dex_score: rolls.scores.dex_score,
        con_score: rolls.scores.con_score,
        int_score: rolls.scores.int_score,
        wis_score: rolls.scores.wis_score,
        cha_score: rolls.scores.cha_score,
        hp_current: hp,
        hp_max: hp,
        hp_temp: 0,
        armor_class,
        speed_ft,
        initiative_bonus: 0,
        level: 1,
        xp_total: 0,
        proficiency_bonus: 2,
        size: Size::Medium,
        species: Some(arch.species.clone()),
        class_or_archetype: Some(p.archetype.clone()),
        ideology: copy_opt(&ideology),
        backstory: None,
        plans: copy_opt(&plans),
        loyalty: 50,
        status: Status::Alive,
        current_zone_id: p.zone_id,
        death_save_successes: 0,
        death_save_failures: 0,
        created_at: 0,
        updated_at: 0,
    };
    let ghost want = npc_row(w, *content, *p, *arch, *rolls);
    assert(Character { id: next_id(w.characters), ..ch@ } == want);
    let id: i64 = c.add_character(ch);
    let mut s = "Generated ".to_owned();
    s.append(role_text);
    s.append(" ");
    s.append(quoted(name.as_str()).as_str());
    s.append(" from archetype ");
    s.append(quoted(p.archetype.as_str()).as_str());
    s.append(" (id=");
    s.append(decimal(id).as_str());
    s.append(")");
    let base = entry(
        "character.created",
        0,
        s,
        fields9(
            text_field("role", role_text),
            text_field("archetype", p.archetype.as_str()),
            text_field("species", arch.species.as_str()),
            text_field("name", name.as_str()),
            field("rolled_stats", Value::Record(record_scores(&rolls.scores))),
            int_field("hp_max", hp as i64),
            int_field("armor_class", armor_class as i64),
            opt_text_field("ideology", &ideology),
            opt_text_field("plans", &plans),
        ),
        only(id, EventRole::Actor),
    );
    let e = Event { zone_id: p.zone_id, ..base };
    assert(e@ == npc_entry(*p, role_text@, rolls.scores, want));
    let event_id: i64 = c.add_event(e);
    (id, event_id, name)
}

/// Makes a character out of an archetype, for what chance has decided.
pub fn generate_with(
    c: &mut Campaign,
    content: &Content,
    p: &GenerateParams,
    rolls: &NpcRolls,
) -> (r: Result<GenerateResult, Error>)
    requires
        old(c)@.wf(),
        old(c)@.room(),
        archetype_at(*content, p.archetype@) matches Some(k) ==> {
            &&& content.archetypes@[k].loadout@.len() < i32::MAX
            &&& generate_refusal(old(c)@, *content, *p) is None ==> npc_rolls_ok(
                *content,
                content.archetypes@[k],
                *rolls,
            )
        },
    ensures
        final(c)@.wf(),
        generate_refusal(old(c)@, *content, *p) matches Some(e) ==> r is Err && r->Err_0@ == e && final(c)@
            == old(c)@,
        generate_refusal(old(c)@, *content, *p) is None ==> r is Ok && generate_ok(
            old(c)@,
            *content,
            *p,
            *rolls,
            final(c)@,
            r->Ok_0,
        ),
{
    let ghost w = c@;
    let (k, role, role_text, ts) = match check_generate(c, content, p) {
        Ok(x) => x,
        Err(e) => {
            return Err(e);
        },
    };
    let arch = &content.archetypes[k];
    let hp: i32 = give_hp(arch, role_text.as_str(), &ts, rolls.scores.con_score, &rolls.hp);
    let (id, event_id, name) = bear(c, content, p, arch, role, role_text.as_str(), hp, rolls);
    school(c, id, &arch.proficiencies);
    let item_ids = outfit(c, id, event_id, arch, &rolls.loadout);
    assert(c@ == equipped(w, *content, *p, *arch, *rolls));
    assert(item_ids@ =~= added_items(w, c@));
    let backstory_event_ids = remember(c, p, id, event_id, arch, rolls);
    Ok(
        GenerateResult {
            character_id: id,
            name,
            role: role_text,
            archetype: p.archetype.clone(),
            species: arch.species.clone(),
            rolled_hp_max: hp,
            rolled_stats: rolls.scores,
            item_ids,
            backstory_event_ids,
            created_event_id: event_id,
        },
    )
}

/// Rolls for an outfit.
fn draw_loadout(arch: &Archetype) -> (r: Vec<LoadoutRoll>)
    ensures
        loadout_fits(*arch, r@),
{
    let mut out: Vec<LoadoutRoll> = Vec::new();
    let mut i: usize = 0;
    while i < arch.loadout.len()
        invariant
            i <= arch.loadout.len(),
            out.len() == i,
            forall|k: int|
                0 <= k < i ==> {
                    &&& 0 <= (#[trigger] out@[k]).chance < 1_000_000
                    &&& arch.loadout@[k].quantity_dice matches Some(t) ==> (parsed(t@) matches Ok(d)
                        ==> can_roll(d, out@[k].quantity@))
                },
        decreases arch.loadout.len() - i,
    {
        let chance: i64 = random_between(0, 999_999);
        let mut quantity: Vec<i64> = Vec::new();
        if let Some(t) = &arch.loadout[i].quantity_dice {
            if let Ok(d) = parse(t.as_str()) {
                quantity = draw(&d);
            }
        }
        out.push(LoadoutRoll { chance, quantity });
        i = i + 1;
    }
    out
}

fn draw_place(n: usize) -> (r: usize)
    ensures
        n > 0 ==> r < n,
{
    if n > 0 {
        random_index(n)
    } else {
        0
    }
}

/// Rolls for a character.
fn draw_npc(content: &Content, arch: &Archetype, ts: &Vec<HpTerm>) -> (r: NpcRolls)
    requires
        arch.hp_formula matches Some(f) ==> hp_terms(f@) == Ok::<Seq<HpTerm>, Error<Seq<char>>>(ts@),
        terms_ok(ts@),
        archetype_fits(*arch),
    ensures
        npc_rolls_ok(*content, *arch, r),
{
    let scores = RolledStats {
        str_score: roll_stat(arch, "str"),
        dex_score: roll_stat(arch, "dex"),
        con_score: roll_stat(arch, "con"),
        int_score: roll_stat(arch, "int"),
        wis_score: roll_stat(arch, "wis"),
        cha_score: roll_stat(arch, "cha"),
    };
    let hp = draw_terms(ts);
    proof {
        if arch.hp_formula is Some {
            let (low, high) = score_range(*arch, "con"@);
            assert(modifier_of(low) <= modifier_of(scores.con_score as int) <= modifier_of(high));
            let (low, high) = score_range(*arch, "con"@);
            let con_mod = modifier_of(scores.con_score as int);
            lemma_hp_between(ts@, modifier_of(low), con_mod, modifier_of(high));
            lemma_hp_most(ts@, con_mod, hp@);
        }
    }
    let mut first_name: usize = 0;
    let mut last_name: usize = 0;
    if let Some(k) = find_names(content, arch.species.as_str()) {
        first_name = draw_place(content.name_pools[k].first.len());
        last_name = draw_place(content.name_pools[k].last.len());
    }
    let n: usize = arch.backstory_hooks.len();
    let low: usize = if n < 3 {
        n
    } else {
        3
    };
    let high: usize = if n < 5 {
        n
    } else {
        5
    };
    let hooks: usize = random_between(low as i64, high as i64) as usize;
    let mut hook_order: Vec<usize> = Vec::new();
    if n > 0 {
        hook_order = draw_shuffle(n);
    }
    let picks = pick_many(n, hooks, &hook_order);
    let ghost all = places(n as nat);
    proof {
        assert(all.no_duplicates());
        law_shuffling_keeps_all(all, hook_order@);
    }
    let mut hook_hours: Vec<i64> = Vec::new();
    let mut slots: Vec<Vec<usize>> = Vec::new();
    let mut k: usize = 0;
    while k < hooks
        invariant
            k <= hooks,
            hook_hours.len() == k,
            slots.len() == k,
            n == arch.backstory_hooks.len(),
            all == places(n as nat),
            picks@ == shuffled(all, hook_order@).take(hooks as int),
            picks@.len() == hooks,
            shuffled(all, hook_order@).len() == n,
            hooks <= n,
            forall|x: usize| all.contains(x) == #[trigger] shuffled(all, hook_order@).contains(x),
            forall|j: int| 0 <= j < k ==> -1000 <= #[trigger] hook_hours@[j] <= -1,
            forall|j: int|
                0 <= j < k ==> draws_fit(
                    arch.backstory_hooks@[picks@[j] as int]@,
                    0,
                    arch.slot_pools@,
                    (#[trigger] slots@[j])@,
                ),
        decreases hooks - k,
    {
        hook_hours.push(random_between(-1000, -1));
        proof {
            let mixed = shuffled(all, hook_order@);
            let x = mixed[k as int];
            assert(picks@[k as int] == x);
            assert(mixed.contains(x));
            assert(all.contains(x));
        }
        slots.push(draw_slots(arch.backstory_hooks[picks[k]].as_str(), &arch.slot_pools));
        k = k + 1;
    }
    NpcRolls {
        scores,
        hp,
        first_name,
        last_name,
        ideology: draw_place(arch.ideology_pool.len()),
        plans: draw_place(arch.plan_pool.len()),
        hooks,
        hook_order,
        hook_hours,
        slots,
        loadout: draw_loadout(arch),
    }
}

/// Whether characters can always be made out of the archetype.
pub fn check_archetype(arch: &Archetype) -> (r: bool)
    ensures
        r == archetype_fits(*arch),
{
    if arch.loadout.len() >= 0x7fff_ffff {
        return false;
    }
    match &arch.hp_formula {
        Some(f) => match read_formula(f.as_str()) {
            Ok(ts) => {
                let (low, high) = read_range(arch, "con");
                check_most(&ts, ability_modifier(low)) && check_most(&ts, ability_modifier(high))
            },
            Err(_) => true,
        },
        None => true,
    }
}

/// Makes a character out of an archetype: what comes out is what one of the decisions of
/// chance gives.
pub fn generate(c: &mut Campaign, content: &Content, p: GenerateParams) -> (r: Result<GenerateResult, Error>)
    requires
        old(c)@.wf(),
        old(c)@.room(),
        archetype_at(*content, p.archetype@) matches Some(k) ==> archetype_fits(content.archetypes@[k]),
    ensures
        final(c)@.wf(),
        generate_refusal(old(c)@, *content, p) matches Some(e) ==> r is Err && r->Err_0@ == e && final(c)@
            == old(c)@,
        generate_refusal(old(c)@, *content, p) is None ==> r is Ok && exists|rolls: NpcRolls|
            #![trigger generate_ok(old(c)@, *content, p, rolls, final(c)@, r->Ok_0)]
            npc_rolls_ok(
                *content,
                content.archetypes@[archetype_at(*content, p.archetype@)->0],
                rolls,
            ) && generate_ok(old(c)@, *content, p, rolls, final(c)@, r->Ok_0),
{
    match check_generate(c, content, &p) {
        Ok((k, _, _, ts)) => {
            let rolls = draw_npc(content, &content.archetypes[k], &ts);
            generate_with(c, content, &p, &rolls)
        },
        Err(e) => Err(e),
    }
}

// ── Laws ──

pub proof fn lemma_schooling_keeps(w: World, id: i64, list: Seq<ArchetypeProficiency>, n: nat)
    ensures
        ({
            let v = schooled(w, id, list, n);
            v == (World { proficiencies: v.proficiencies, ..w })
        }),
    decreases n,
{
    if n > 0 {
        lemma_schooling_keeps(w, id, list, (n - 1) as nat);
    }
}

pub proof fn lemma_outfit_keeps(w: World, id: i64, event_id: i64, arch: Archetype, rolls: Seq<LoadoutRoll>, n: nat)
    ensures
        ({
            let v = outfitted(w, id, event_id, arch, rolls, n);
            v == (World { items: v.items, ..w })
        }),
    decreases n,
{
    if n > 0 {
        lemma_outfit_keeps(w, id, event_id, arch, rolls, (n - 1) as nat);
    }
}

proof fn lemma_past_keeps_clock(
    w: World,
    p: GenerateParams,
    id: i64,
    event_id: i64,
    arch: Archetype,
    rolls: NpcRolls,
    n: nat,
)
    requires
        past_fits(arch, rolls),
        n <= rolls.hooks,
    ensures
        campaign_hour(remembered(w, p, id, event_id, arch, rolls, n)) == campaign_hour(w),
    decreases n,
{
    if n > 0 {
        lemma_past_keeps_clock(w, p, id, event_id, arch, rolls, (n - 1) as nat);
        let before = remembered(w, p, id, event_id, arch, rolls, (n - 1) as nat);
        let e = past_entry(p, id, event_id, rolls.hook_hours@[n - 1], hook_text(arch, rolls, n - 1));
        law_clock_is_latest_hour(before);
        law_clock_never_goes_back(before, e);
    }
}

/// The past lies before the campaign: a character that comes with a past leaves the clock
/// where it is.
pub proof fn law_past_leaves_the_clock(
    w: World,
    content: Content,
    p: GenerateParams,
    arch: Archetype,
    rolls: NpcRolls,
)
    requires
        past_fits(arch, rolls),
    ensures
        campaign_hour(generated(w, content, p, arch, rolls)) == campaign_hour(w),
{
    let id = next_id(w.characters);
    let made = born(w, content, p, arch, rolls);
    let ch = npc_row(w, content, p, arch, rolls);
    let there = World { characters: w.characters.push(ch), ..w };
    law_clock_is_latest_hour(there);
    law_clock_never_goes_back(there, npc_entry(p, role_of(arch, p), rolls.scores, ch));
    lemma_schooling_keeps(made, id, arch.proficiencies@, arch.proficiencies@.len());
    lemma_outfit_keeps(
        schooled(made, id, arch.proficiencies@, arch.proficiencies@.len()),
        id,
        next_id(w.events),
        arch,
        rolls.loadout@,
        arch.loadout@.len(),
    );
    let ready = equipped(w, content, p, arch, rolls);
    assert(ready.events == made.events);
    assert(campaign_hour(there) == campaign_hour(w));
    lemma_past_keeps_clock(ready, p, id, next_id(w.events), arch, rolls, rolls.hooks as nat);
}

/// Training and an outfit change neither the characters nor the log.
pub(crate) proof fn lemma_equipped(w: World, content: Content, p: GenerateParams, arch: Archetype, rolls: NpcRolls)
    ensures
        equipped(w, content, p, arch, rolls).events == born(w, content, p, arch, rolls).events,
        equipped(w, content, p, arch, rolls).characters == born(w, content, p, arch, rolls).characters,
{
    let id = next_id(w.characters);
    let made = born(w, content, p, arch, rolls);
    lemma_schooling_keeps(made, id, arch.proficiencies@, arch.proficiencies@.len());
    lemma_outfit_keeps(
        schooled(made, id, arch.proficiencies@, arch.proficiencies@.len()),
        id,
        next_id(w.events),
        arch,
        rolls.loadout@,
        arch.loadout@.len(),
    );
}

/// Whether the entry tells of hook `k` of the past of the character.
pub open spec fn tells(e: EventView, p: GenerateParams, id: i64, arch: Archetype, rolls: NpcRolls, k: int) -> bool {
    &&& e.kind == "history.backstory"@
    &&& e.campaign_hour == rolls.hook_hours@[k]
    &&& e.summary == capped(hook_text(arch, rolls, k))
    &&& e.zone_id == p.zone_id
    &&& e.participants == one(id, EventRole::Actor)
}

/// What of the log is remembered: one entry more for each hook.
proof fn lemma_past(
    w: World,
    p: GenerateParams,
    id: i64,
    event_id: i64,
    arch: Archetype,
    rolls: NpcRolls,
    n: nat,
    q: RecallParams,
)
    requires
        q.character_id == id,
        q.zone_id is None,
        q.other_character_id is None,
        q.other_item_id is None,
        q.since_hour is None,
        q.kind_prefix matches Some(t) && t@ == "history."@,
    ensures
        ({
            let v = remembered(w, p, id, event_id, arch, rolls, n);
            &&& v == (World { events: v.events, ..w })
            &&& v.events.len() == w.events.len() + n
            &&& forall|k: int|
                0 <= k < n ==> tells(#[trigger] v.events[w.events.len() + k], p, id, arch, rolls, k)
            &&& memories(q, v.events).len() == memories(q, w.events).len() + n
        }),
    decreases n,
{
    if n > 0 {
        let m = (n - 1) as nat;
        lemma_past(w, p, id, event_id, arch, rolls, m, q);
        let before = remembered(w, p, id, event_id, arch, rolls, m);
        let v = remembered(w, p, id, event_id, arch, rolls, n);
        let e = v.events.last();
        assert(v.events.drop_last() =~= before.events);
        assert forall|k: int| 0 <= k < n implies tells(
            #[trigger] v.events[w.events.len() + k],
            p,
            id,
            arch,
            rolls,
            k,
        ) by {
            if k < m {
                assert(v.events[w.events.len() + k] == before.events[w.events.len() + k]);
            }
        }
        lemma_past_is_history();
        assert(wanted(q, e));
        assert(e.participants.len() == 1);
        assert(roles_in(e, id, 0).len() == 0);
        assert(roles_in(e, id, 1).len() == 1);
    }
}

proof fn lemma_past_is_history()
    ensures
        kind_matches("history."@, "history.backstory"@),
        !kind_matches("history."@, "character.created"@),
{
    reveal_strlit("history.");
    reveal_strlit("backstory");
    reveal_strlit("history.backstory");
    reveal_strlit("character.created");
    reveal_strlit("%");
    assert("history.backstory"@ =~= "history."@ + "backstory"@);
    law_kind_begins_with_prefix("history."@, "backstory"@);
    lemma_other_beginning("history."@, "character.created"@);
}

/// Nobody recalls anything of entries that it took no part in.
proof fn lemma_no_memories(q: RecallParams, events: Seq<EventView>)
    requires
        forall|i: int, j: int|
            0 <= i < events.len() && 0 <= j < events[i].participants.len() ==> (
            #[trigger] events[i].participants[j]).character_id != q.character_id,
    ensures
        memories(q, events).len() == 0,
    decreases events.len(),
{
    if events.len() > 0 {
        let rest = events.drop_last();
        assert forall|i: int, j: int|
            0 <= i < rest.len() && 0 <= j < rest[i].participants.len() implies (
        #[trigger] rest[i].participants[j]).character_id != q.character_id by {
            assert(rest[i] == events[i]);
            assert(events[i].participants[j].character_id != q.character_id);
        }
        lemma_no_memories(q, rest);
        let e = events[events.len() - 1];
        assert forall|j: int| 0 <= j < e.participants.len() implies (#[trigger] e.participants[j]).character_id
            != q.character_id by {
            assert(events[events.len() - 1].participants[j].character_id != q.character_id);
        }
        lemma_no_roles(e, q.character_id, e.participants.len());
    }
}

proof fn lemma_no_roles(e: EventView, id: i64, n: nat)
    requires
        n <= e.participants.len(),
        forall|j: int| 0 <= j < n ==> (#[trigger] e.participants[j]).character_id != id,
    ensures
        roles_in(e, id, n).len() == 0,
    decreases n,
{
    if n > 0 {
        lemma_no_roles(e, id, (n - 1) as nat);
    }
}

/// A character out of an archetype has scores within its ranges and at least one hit point,
/// and none of them is lost.
pub proof fn law_character_is_as_its_archetype_says(
    w: World,
    content: Content,
    p: GenerateParams,
    arch: Archetype,
    rolls: NpcRolls,
)
    requires
        w.wf(),
        w.room(),
        generate_refusal(w, content, p) is None,
        arch == content.archetypes@[archetype_at(content, p.archetype@)->0],
        npc_rolls_ok(content, arch, rolls),
    ensures
        ({
            let v = generated(w, content, p, arch, rolls);
            let id = next_id(w.characters);
            let ch = row(v.characters, id);
            &&& listed(v.characters, id)
            &&& score_fits(arch, "str"@, ch.str_score)
            &&& score_fits(arch, "dex"@, ch.dex_score)
            &&& score_fits(arch, "con"@, ch.con_score)
            &&& score_fits(arch, "int"@, ch.int_score)
            &&& score_fits(arch, "wis"@, ch.wis_score)
            &&& score_fits(arch, "cha"@, ch.cha_score)
            &&& 1 <= ch.hp_max
            &&& ch.hp_current == ch.hp_max
        }),
{
    lemma_tables(w);
    let id = next_id(w.characters);
    let ch = npc_row(w, content, p, arch, rolls);
    lemma_push(w.characters, ch);
    lemma_equipped(w, content, p, arch, rolls);
    lemma_remembering_keeps(
        equipped(w, content, p, arch, rolls),
        p,
        id,
        next_id(w.events),
        arch,
        rolls,
        rolls.hooks as nat,
    );
    assert(generated(w, content, p, arch, rolls).characters == w.characters.push(ch));
}

pub(crate) proof fn lemma_remembering_keeps(
    w: World,
    p: GenerateParams,
    id: i64,
    event_id: i64,
    arch: Archetype,
    rolls: NpcRolls,
    n: nat,
)
    ensures
        ({
            let v = remembered(w, p, id, event_id, arch, rolls, n);
            v == (World { events: v.events, ..w })
        }),
    decreases n,
{
    if n > 0 {
        lemma_remembering_keeps(w, p, id, event_id, arch, rolls, (n - 1) as nat);
    }
}

/// The past of a new character is recalled like anything else: asked for its history, it
/// recalls just its hooks, each at its hour before the campaign.
pub proof fn law_past_is_recalled(
    w: World,
    content: Content,
    p: GenerateParams,
    arch: Archetype,
    rolls: NpcRolls,
    q: RecallParams,
    k: int,
)
    requires
        w.wf(),
        w.room(),
        past_fits(arch, rolls),
        0 <= k < rolls.hooks,
        q.character_id == next_id(w.characters),
        q.zone_id is None,
        q.other_character_id is None,
        q.other_item_id is None,
        q.since_hour is None,
        q.limit is None,
        q.kind_prefix matches Some(t) && t@ == "history."@,
    ensures
        ({
            let v = generated(w, content, p, arch, rolls);
            let e = v.events[w.events.len() + 1 + k];
            &&& tells(e, p, q.character_id, arch, rolls, k)
            &&& e.campaign_hour < 0
            &&& recall_refusal(q) is None
            &&& recalled(v, q).len() == rolls.hooks
            &&& recalled(v, q).contains(recollection(e, EventRole::Actor))
        }),
{
    let id = next_id(w.characters);
    let ready = equipped(w, content, p, arch, rolls);
    let v = generated(w, content, p, arch, rolls);
    lemma_tables(w);
    lemma_push(w.characters, npc_row(w, content, p, arch, rolls));
    lemma_equipped(w, content, p, arch, rolls);
    assert forall|i: int, j: int|
        0 <= i < w.events.len() && 0 <= j < w.events[i].participants.len() implies (
    #[trigger] w.events[i].participants[j]).character_id != id by {
        reveal(World::wf);
        assert(w.event_ok(w.events[i]));
        assert(listed(w.characters, w.events[i].participants[j].character_id));
    }
    lemma_no_memories(q, w.events);
    lemma_past_is_history();
    assert(ready.events.drop_last() =~= w.events);
    assert(ready.events.last().kind == "character.created"@);
    assert(!wanted(q, ready.events.last()));
    assert(memories(q, ready.events).len() == 0);
    lemma_past(ready, p, id, next_id(w.events), arch, rolls, rolls.hooks as nat, q);
    let i = w.events.len() + 1 + k;
    let e = v.events[i];
    assert(i == ready.events.len() + k);
    assert(tells(v.events[ready.events.len() + k], p, id, arch, rolls, k));
    law_newest_comes_first(memories(q, v.events));
    let x = recollection(e, EventRole::Actor);
    assert(recalls(q, v.events, x, i, 0));
    law_recall_forgets_nothing(v, q, x, i, 0);
    assert(byte_len(pattern_of("history."@)) <= MAX_PATTERN_BYTES) by {
        reveal_strlit("history.");
        reveal_strlit("%");
        reveal_with_fuel(byte_len, 10);
    }
}

pub(crate) proof fn lemma_outfit(w: World, id: i64, event_id: i64, arch: Archetype, rolls: Seq<LoadoutRoll>, n: nat)
    ensures
        ({
            let v = outfitted(w, id, event_id, arch, rolls, n);
            &&& w.items.len() <= v.items.len() <= w.items.len() + n
            &&& forall|k: int| 0 <= k < w.items.len() ==> #[trigger] v.items[k] == w.items[k]
            &&& forall|k: int|
                w.items.len() <= k < v.items.len() ==> (#[trigger] v.items[k]).place == Place::Holder(id)
        }),
    decreases n,
{
    if n > 0 {
        lemma_outfit(w, id, event_id, arch, rolls, (n - 1) as nat);
        let before = outfitted(w, id, event_id, arch, rolls, (n - 1) as nat);
        let v = outfitted(w, id, event_id, arch, rolls, n);
        assert(forall|k: int| 0 <= k < before.items.len() ==> #[trigger] v.items[k] == before.items[k]);
    }
}

/// All that comes with a new character is held by it, and nobody else's things change.
pub proof fn law_outfit_is_held(
    w: World,
    content: Content,
    p: GenerateParams,
    arch: Archetype,
    rolls: NpcRolls,
    k: int,
)
    requires
        0 <= k < generated(w, content, p, arch, rolls).items.len(),
    ensures
        ({
            let v = generated(w, content, p, arch, rolls);
            &&& k < w.items.len() ==> v.items[k] == w.items[k]
            &&& k >= w.items.len() ==> v.items[k].place == Place::Holder(next_id(w.characters))
        }),
{
    let id = next_id(w.characters);
    let made = born(w, content, p, arch, rolls);
    let taught = schooled(made, id, arch.proficiencies@, arch.proficiencies@.len());
    lemma_schooling_keeps(made, id, arch.proficiencies@, arch.proficiencies@.len());
    lemma_outfit(taught, id, next_id(w.events), arch, rolls.loadout@, arch.loadout@.len());
    lemma_remembering_keeps(
        equipped(w, content, p, arch, rolls),
        p,
        id,
        next_id(w.events),
        arch,
        rolls,
        rolls.hooks as nat,
    );
}

proof fn lemma_schooling(w: World, id: i64, list: Seq<ArchetypeProficiency>, n: nat, k: int)
    requires
        0 <= k < n <= list.len(),
    ensures
        training_of(schooled(w, id, list, n), id, list[k].name@) is Some,
    decreases n,
{
    let m = (n - 1) as nat;
    let before = schooled(w, id, list, m);
    let v = schooled(w, id, list, n);
    let name = list[k].name@;
    let rows = before.proficiencies;
    let more = v.proficiencies;
    lemma_training_at(more, id, name, more.len());
    lemma_training_at(rows, id, list[m as int].name@, rows.len());
    let t = archetype_training(id, list[m as int]);
    if k < m {
        lemma_schooling(w, id, list, m, k);
        lemma_training_at(rows, id, name, rows.len());
        let j = training_of(before, id, name)->0;
        assert(more[j].character_id == id && more[j].name == name);
    } else {
        match training_of(before, id, t.name) {
            Some(j) => {
                assert(more[j] == t);
            },
            None => {
                assert(more[rows.len() as int] == t);
            },
        }
    }
}

/// A new character is trained in all that its archetype names.
pub proof fn law_character_is_trained(
    w: World,
    content: Content,
    p: GenerateParams,
    arch: Archetype,
    rolls: NpcRolls,
    k: int,
)
    requires
        0 <= k < arch.proficiencies@.len(),
    ensures
        training_of(
            generated(w, content, p, arch, rolls),
            next_id(w.characters),
            arch.proficiencies@[k].name@,
        ) is Some,
{
    let id = next_id(w.characters);
    let made = born(w, content, p, arch, rolls);
    let taught = schooled(made, id, arch.proficiencies@, arch.proficiencies@.len());
    lemma_schooling(made, id, arch.proficiencies@, arch.proficiencies@.len(), k);
    lemma_outfit_keeps(taught, id, next_id(w.events), arch, rolls.loadout@, arch.loadout@.len());
    lemma_remembering_keeps(
        equipped(w, content, p, arch, rolls),
        p,
        id,
        next_id(w.events),
        arch,
        rolls,
        rolls.hooks as nat,
    );
}

} // verus!
