//! Laws of chance: what dice show, and what characters that nobody plays are made of.

use vstd::prelude::*;
use crate::campaign::{lemma_push, lemma_tables, listed, next_id, row, World};
use crate::checks::{modifier_of, training_of};
use crate::content::{Archetype, ArchetypeProficiency, Content, NamePool, SlotPool, StatRange};
use crate::dice::{in_bounds, is_roll, label, law_label_can_be_read, parsed, sum, DiceSpec, RollResult};
use crate::hit_points::{hp_of, hp_sum, hp_term, hp_terms, is_plain, parts, terms_of, HpTerm};
use crate::npcs::{
    archetype_among, archetype_at, born, equipped, generate_ok, generate_refusal, generated, lemma_equipped,
    lemma_outfit_keeps, lemma_remembering_keeps, names_among, npc_rolls_ok, npc_row, outfitted, past_fits,
    range_among, remembered, schooled, score_fits, GenerateParams, GenerateResult, LoadoutRoll, NpcRolls,
};
use crate::proficiencies::lemma_training_at;
use crate::rows::{Place, Role, Size, Status};
use crate::templates::{brace_from, filled, pool_among};
use crate::text::{int_text, is_digit, law_decimal_stands_for_number, lemma_nothing_to_trim, opt_text, texts};

verus! {

// ── Dice ──

/// Totals add up: what some dice show and what others do is what all of them show, and a single
/// one shows what it shows.
pub proof fn law_dice_add_up(a: Seq<i64>, b: Seq<i64>, x: i64)
    ensures
        sum(a + b) == sum(a) + sum(b),
        sum(seq![x]) == x,
        sum(Seq::empty()) == 0,
    decreases b.len(),
{
    assert(seq![x].drop_last() =~= Seq::<i64>::empty());
    assert(sum(seq![x].drop_last()) == 0);
    if b.len() == 0 {
        assert(a + b =~= a);
    } else {
        law_dice_add_up(a, b.drop_last(), x);
        assert((a + b).drop_last() =~= a + b.drop_last());
    }
}

/// As many dice are rolled as were asked for, and each shows from one up to its number of sides;
/// of a range one number is drawn, from its lower to its upper end. The total is what all show.
pub proof fn law_dice_show_their_sides(spec: DiceSpec, r: RollResult, i: int)
    requires
        is_roll(spec, r),
    ensures
        spec matches DiceSpec::Dice { count, sides } ==> {
            &&& r.rolls@.len() == count
            &&& 0 <= i < r.rolls@.len() ==> 1 <= r.rolls@[i] <= sides
            &&& count == 1 ==> r.total == r.rolls@[0]
        },
        spec matches DiceSpec::Range { min, max } ==> {
            &&& r.rolls@.len() == 1
            &&& min <= r.rolls@[0] <= max
            &&& r.total == r.rolls@[0]
        },
        r.rolls@.len() == 2 ==> r.total == r.rolls@[0] + r.rolls@[1],
{
    if r.rolls@.len() == 1 {
        assert(r.rolls@ =~= seq![r.rolls@[0]]);
        law_dice_add_up(Seq::empty(), Seq::empty(), r.rolls@[0]);
    }
    if r.rolls@.len() == 2 {
        assert(r.rolls@ =~= seq![r.rolls@[0]] + seq![r.rolls@[1]]);
        law_dice_add_up(seq![r.rolls@[0]], seq![r.rolls@[1]], r.rolls@[0]);
        law_dice_add_up(Seq::empty(), Seq::empty(), r.rolls@[1]);
    }
}

/// One more term of a formula for hit points adds what it stands for: a number itself, dice what
/// they show, and constitution its modifier as often as it says. There is always at least one
/// hit point, and where the terms give one or more, they give just that.
pub proof fn law_terms_add_up(ts: Seq<HpTerm>, t: HpTerm, con_mod: int, rolls: Seq<Vec<i64>>)
    ensures
        ({
            let more = hp_sum(ts.push(t), con_mod, rolls) - hp_sum(ts, con_mod, rolls);
            &&& t matches HpTerm::Constant(n) ==> more == n
            &&& t matches HpTerm::Con(n) ==> more == con_mod * n
            &&& t is Dice ==> more == sum(rolls[ts.len() as int]@)
            &&& hp_sum(Seq::empty(), con_mod, rolls) == 0
        }),
        hp_sum(ts, con_mod, rolls) >= 1 ==> hp_of(ts, con_mod, rolls) == hp_sum(ts, con_mod, rolls),
        hp_sum(ts, con_mod, rolls) < 1 ==> hp_of(ts, con_mod, rolls) == 1,
{
    assert(ts.push(t).drop_last() =~= ts);
}

// ── Characters that nobody plays ──

proof fn lemma_range(list: Seq<StatRange>, ability: Seq<char>, n: nat, i: int)
    requires
        0 <= i < n <= list.len(),
        list[i].ability@ == ability,
        forall|j: int| i < j < n ==> (#[trigger] list[j]).ability@ != ability,
    ensures
        range_among(list, ability, n) == Some(i),
    decreases n,
{
    if i < n - 1 {
        assert(list[n - 1].ability@ != ability);
        lemma_range(list, ability, (n - 1) as nat, i);
    }
}

/// Whether the score is in the range that the archetype gives for the ability, in place `i`.
pub open spec fn in_range(arch: Archetype, i: int, ability: Seq<char>, score: i32) -> bool {
    0 <= i < arch.stats@.len() && arch.stats@[i].ability@ == ability && arch.stats@[i].low <= arch.stats@[i].high && (
    forall|j: int| i < j < arch.stats@.len() ==> (#[trigger] arch.stats@[j]).ability@ != ability)
        ==> arch.stats@[i].low <= score <= arch.stats@[i].high
}

proof fn lemma_in_range(arch: Archetype, i: int, ability: Seq<char>, score: i32)
    requires
        score_fits(arch, ability, score),
    ensures
        in_range(arch, i, ability, score),
{
    if 0 <= i < arch.stats@.len() && arch.stats@[i].ability@ == ability && arch.stats@[i].low <= arch.stats@[i].high
        && forall|j: int| i < j < arch.stats@.len() ==> (#[trigger] arch.stats@[j]).ability@ != ability {
        lemma_range(arch.stats@, ability, arch.stats@.len(), i);
    }
}

proof fn lemma_archetype(list: Seq<Archetype>, id: Seq<char>, n: nat)
    requires
        n <= list.len(),
    ensures
        archetype_among(list, id, n) matches Some(k) ==> 0 <= k < n && list[k].id@ == id,
    decreases n,
{
    if n > 0 {
        lemma_archetype(list, id, (n - 1) as nat);
    }
}

/// The table of characters after one was generated is the old one and the new character.
proof fn lemma_newcomer(w: World, content: Content, p: GenerateParams, arch: Archetype, rolls: NpcRolls)
    requires
        w.wf(),
        w.room(),
    ensures
        ({
            let v = generated(w, content, p, arch, rolls);
            let ch = npc_row(w, content, p, arch, rolls);
            &&& v.characters == w.characters.push(ch)
            &&& listed(v.characters, next_id(w.characters))
            &&& row(v.characters, next_id(w.characters)) == ch
        }),
{
    lemma_tables(w);
    let ch = npc_row(w, content, p, arch, rolls);
    lemma_push(w.characters, ch);
    lemma_equipped(w, content, p, arch, rolls);
    lemma_remembering_keeps(
        equipped(w, content, p, arch, rolls),
        p,
        next_id(w.characters),
        next_id(w.events),
        arch,
        rolls,
        rolls.hooks as nat,
    );
}

/// A generated character has, in each ability, a score from the range that its archetype gives
/// for that ability. It has all its hit points, is alive, of medium size and of the first level,
/// without experience. Its role is the one that was asked for or else the one that the archetype
/// suggests; its armour class and speed are the archetype's, or else ten and thirty feet. It is
/// where it was put, and is told of as what it is.
pub proof fn law_generated_character_is_of_its_kind(
    w: World,
    content: Content,
    p: GenerateParams,
    rolls: NpcRolls,
    after: World,
    r: GenerateResult,
    i: int,
)
    requires
        w.wf(),
        w.room(),
        generate_refusal(w, content, p) is None,
        generate_ok(w, content, p, rolls, after, r),
        npc_rolls_ok(content, content.archetypes@[archetype_at(content, p.archetype@)->0], rolls),
    ensures
        ({
            let k = archetype_at(content, p.archetype@)->0;
            let arch = content.archetypes@[k];
            let ch = row(after.characters, r.character_id);
            &&& 0 <= k < content.archetypes@.len() && arch.id@ == p.archetype@
            &&& after.characters == w.characters.push(ch)
            &&& r.character_id == next_id(w.characters)
            &&& in_range(arch, i, "str"@, ch.str_score)
            &&& in_range(arch, i, "dex"@, ch.dex_score)
            &&& in_range(arch, i, "con"@, ch.con_score)
            &&& in_range(arch, i, "int"@, ch.int_score)
            &&& in_range(arch, i, "wis"@, ch.wis_score)
            &&& in_range(arch, i, "cha"@, ch.cha_score)
            &&& r.rolled_stats.str_score == ch.str_score && r.rolled_stats.dex_score == ch.dex_score
            &&& r.rolled_stats.con_score == ch.con_score && r.rolled_stats.int_score == ch.int_score
            &&& r.rolled_stats.wis_score == ch.wis_score && r.rolled_stats.cha_score == ch.cha_score
            &&& ch.hp_current == ch.hp_max && ch.hp_max >= 1
            &&& r.rolled_hp_max == ch.hp_max
            &&& r.name@ == ch.name
            &&& p.role_override is Some ==> ch.role.text() == p.role_override->0@
            &&& p.role_override is None ==> ch.role.text() == arch.role_hint@
            &&& r.role@ == ch.role.text()
            &&& arch.ac_base is Some ==> ch.armor_class == arch.ac_base->0
            &&& arch.ac_base is None ==> ch.armor_class == 10
            &&& arch.speed_ft is Some ==> ch.speed_ft == arch.speed_ft->0
            &&& arch.speed_ft is None ==> ch.speed_ft == 30
            &&& ch.current_zone_id == p.zone_id
            &&& ch.species == Some(arch.species@)
            &&& ch.class_or_archetype == Some(p.archetype@)
            &&& ch.status == Status::Alive && ch.size == Size::Medium
            &&& ch.level == 1 && ch.xp_total == 0 && ch.proficiency_bonus == 2 && ch.loyalty == 50
            &&& arch.ideology_pool@.len() == 0 ==> ch.ideology is None
            &&& arch.ideology_pool@.len() > 0 ==> exists|j: int|
                0 <= j < arch.ideology_pool@.len() && ch.ideology == Some((#[trigger] arch.ideology_pool@[j])@)
            &&& arch.plan_pool@.len() == 0 ==> ch.plans is None
            &&& arch.plan_pool@.len() > 0 ==> exists|j: int|
                0 <= j < arch.plan_pool@.len() && ch.plans == Some((#[trigger] arch.plan_pool@[j])@)
            &&& arch.hp_formula is None && ch.role.text() == "enemy"@ ==> ch.hp_max == 12
            &&& arch.hp_formula is None && ch.role.text() != "enemy"@ ==> ch.hp_max == 10
        }),
{
    lemma_archetype(content.archetypes@, p.archetype@, content.archetypes@.len());
    let arch = content.archetypes@[archetype_at(content, p.archetype@)->0];
    lemma_newcomer(w, content, p, arch, rolls);
    crate::npcs::law_character_is_as_its_archetype_says(w, content, p, arch, rolls);
    let ch = npc_row(w, content, p, arch, rolls);
    lemma_in_range(arch, i, "str"@, ch.str_score);
    lemma_in_range(arch, i, "dex"@, ch.dex_score);
    lemma_in_range(arch, i, "con"@, ch.con_score);
    lemma_in_range(arch, i, "int"@, ch.int_score);
    lemma_in_range(arch, i, "wis"@, ch.wis_score);
    lemma_in_range(arch, i, "cha"@, ch.cha_score);
    (Role::of_text(crate::npcs::role_of(arch, p))->0).lemma_text();
    if arch.ideology_pool@.len() > 0 {
        assert(ch.ideology == Some(arch.ideology_pool@[rolls.ideology as int]@));
    }
    if arch.plan_pool@.len() > 0 {
        assert(ch.plans == Some(arch.plan_pool@[rolls.plans as int]@));
    }
}

/// Hit points go by the formula of the archetype and the constitution of the character.
pub proof fn law_hit_points_go_by_the_formula(
    w: World,
    content: Content,
    p: GenerateParams,
    arch: Archetype,
    rolls: NpcRolls,
    ts: Seq<HpTerm>,
)
    requires
        w.wf(),
        w.room(),
        arch.hp_formula matches Some(f) && hp_terms(f@) == Ok::<Seq<HpTerm>, crate::error::Error<Seq<char>>>(ts),
        1 <= hp_sum(ts, modifier_of(rolls.scores.con_score as int), rolls.hp@) <= i32::MAX,
    ensures
        ({
            let ch = row(generated(w, content, p, arch, rolls).characters, next_id(w.characters));
            ch.hp_max == hp_sum(ts, modifier_of(ch.con_score as int), rolls.hp@)
        }),
{
    lemma_newcomer(w, content, p, arch, rolls);
}

proof fn lemma_names(list: Seq<NamePool>, species: Seq<char>, n: nat)
    requires
        n <= list.len(),
    ensures
        names_among(list, species, n) matches Some(k) ==> 0 <= k < n && list[k].species@ == species,
        names_among(list, species, n) is None ==> forall|j: int|
            0 <= j < n ==> (#[trigger] list[j]).species@ != species,
    decreases n,
{
    if n > 0 {
        lemma_names(list, species, (n - 1) as nat);
    }
}

/// Whether the name is one from the pool: a first name, and a last name where there are any.
pub open spec fn from_pool(pool: NamePool, name: Seq<char>) -> bool {
    exists|i: int, j: int|
        0 <= i < pool.first@.len() && #[trigger] is_name(pool, name, i, j)
}

/// Whether the name is the one with these two parts.
pub open spec fn is_name(pool: NamePool, name: Seq<char>, i: int, j: int) -> bool {
    if pool.last@.len() == 0 {
        name == pool.first@[i]@
    } else {
        0 <= j < pool.last@.len() && name == pool.first@[i]@ + " "@ + pool.last@[j]@
    }
}

/// A generated character is named from a pool of its species; where there is none, after the
/// species.
pub proof fn law_names_come_from_the_species(
    w: World,
    content: Content,
    p: GenerateParams,
    arch: Archetype,
    rolls: NpcRolls,
)
    requires
        w.wf(),
        w.room(),
        npc_rolls_ok(content, arch, rolls),
    ensures
        ({
            let ch = row(generated(w, content, p, arch, rolls).characters, next_id(w.characters));
            ||| ch.name == arch.species@ + " NPC"@
            ||| exists|k: int|
                0 <= k < content.name_pools@.len() && (#[trigger] content.name_pools@[k]).species@ == arch.species@
                    && from_pool(content.name_pools@[k], ch.name)
        }),
        (forall|k: int|
            0 <= k < content.name_pools@.len() ==> (#[trigger] content.name_pools@[k]).species@ != arch.species@)
            ==> row(generated(w, content, p, arch, rolls).characters, next_id(w.characters)).name == arch.species@
            + " NPC"@,
{
    lemma_newcomer(w, content, p, arch, rolls);
    lemma_names(content.name_pools@, arch.species@, content.name_pools@.len());
    if let Some(k) = crate::npcs::names_at(content, arch.species@) {
        let pool = content.name_pools@[k];
        let name = npc_row(w, content, p, arch, rolls).name;
        assert(is_name(pool, name, rolls.first_name as int, rolls.last_name as int));
        assert(from_pool(pool, name));
        assert(content.name_pools@[k].species@ == arch.species@);
    }
}

/// An entry of an outfit is there if chance falls below what it asks for. Then it is held by the
/// character, worn where the entry says, of the material that it says, and as many as its dice
/// show, but at least one; one where it has no dice.
pub proof fn law_outfit_is_as_chance_has_it(
    w: World,
    id: i64,
    event_id: i64,
    arch: Archetype,
    rolls: Seq<LoadoutRoll>,
    n: nat,
)
    requires
        n > 0,
    ensures
        ({
            let a = outfitted(w, id, event_id, arch, rolls, (n - 1) as nat).items;
            let b = outfitted(w, id, event_id, arch, rolls, n).items;
            let e = arch.loadout@[n - 1];
            let roll = rolls[n - 1];
            let it = b.last();
            &&& roll.chance >= e.chance ==> b == a
            &&& roll.chance < e.chance ==> {
                &&& b == a.push(it)
                &&& it.base_kind == e.base_kind@
                &&& it.material == opt_text(e.material)
                &&& it.material_tier == e.material_tier
                &&& it.place == Place::Holder(id)
                &&& it.equipped_slot == opt_text(e.equip)
                &&& it.created_at_event_id == Some(event_id)
                &&& e.quantity_dice is None ==> it.quantity == 1
                &&& e.quantity_dice is Some && parsed(e.quantity_dice->0@) is Ok && 1 <= sum(
                    roll.quantity@,
                ) <= i64::MAX ==> it.quantity == sum(roll.quantity@)
                &&& e.quantity_dice is Some && sum(roll.quantity@) < 1 ==> it.quantity == 1
                &&& e.quantity_dice is Some && parsed(e.quantity_dice->0@) is Err ==> it.quantity == 1
            }
        }),
{
}

proof fn lemma_schooled(w: World, id: i64, list: Seq<ArchetypeProficiency>, n: nat, k: int)
    requires
        0 <= k < n <= list.len(),
        forall|j: int| k < j < n ==> (#[trigger] list[j]).name@ != list[k].name@,
    ensures
        ({
            let v = schooled(w, id, list, n);
            training_of(v, id, list[k].name@) matches Some(i) && 0 <= i < v.proficiencies.len() && v.proficiencies[i]
                == crate::npcs::archetype_training(id, list[k])
        }),
    decreases n,
{
    let m = (n - 1) as nat;
    let before = schooled(w, id, list, m);
    let v = schooled(w, id, list, n);
    let name = list[k].name@;
    let t = crate::npcs::archetype_training(id, list[m as int]);
    lemma_training_at(before.proficiencies, id, t.name, before.proficiencies.len());
    lemma_training_at(before.proficiencies, id, name, before.proficiencies.len());
    if k < m {
        assert(list[m as int].name@ != name);
        lemma_schooled(w, id, list, m, k);
        match training_of(before, id, t.name) {
            Some(j) => {
                lemma_training_same(
                    before.proficiencies,
                    v.proficiencies,
                    id,
                    name,
                    before.proficiencies.len(),
                );
            },
            None => {
                lemma_training_same(
                    before.proficiencies,
                    v.proficiencies,
                    id,
                    name,
                    before.proficiencies.len(),
                );
            },
        }
    } else {
        match training_of(before, id, t.name) {
            Some(j) => {
                lemma_training_same(
                    before.proficiencies,
                    v.proficiencies,
                    id,
                    name,
                    before.proficiencies.len(),
                );
            },
            None => {},
        }
    }
}

/// Tables whose first rows are of the same characters under the same names are searched alike.
proof fn lemma_training_same(
    a: Seq<crate::rows::Proficiency<Seq<char>>>,
    b: Seq<crate::rows::Proficiency<Seq<char>>>,
    id: i64,
    name: Seq<char>,
    n: nat,
)
    requires
        n <= a.len() <= b.len(),
        forall|i: int|
            0 <= i < n ==> (#[trigger] b[i]).character_id == a[i].character_id && b[i].name == a[i].name,
    ensures
        crate::checks::training_at(a, id, name, n) == crate::checks::training_at(b, id, name, n),
    decreases n,
{
    if n > 0 {
        lemma_training_same(a, b, id, name, (n - 1) as nat);
        assert(b[n - 1].name == a[n - 1].name);
    }
}

/// A generated character is trained as its archetype says; where it says so twice, as it says
/// last.
pub proof fn law_generated_character_is_trained(
    w: World,
    content: Content,
    p: GenerateParams,
    arch: Archetype,
    rolls: NpcRolls,
    k: int,
)
    requires
        0 <= k < arch.proficiencies@.len(),
        forall|j: int|
            k < j < arch.proficiencies@.len() ==> (#[trigger] arch.proficiencies@[j]).name@
                != arch.proficiencies@[k].name@,
    ensures
        ({
            let v = generated(w, content, p, arch, rolls);
            let t = arch.proficiencies@[k];
            training_of(v, next_id(w.characters), t.name@) matches Some(i) && {
                &&& v.proficiencies[i].proficient == t.proficient
                &&& v.proficiencies[i].expertise == t.expertise
                &&& v.proficiencies[i].ranks == t.ranks
            }
        }),
{
    let id = next_id(w.characters);
    let made = born(w, content, p, arch, rolls);
    let taught = schooled(made, id, arch.proficiencies@, arch.proficiencies@.len());
    lemma_schooled(made, id, arch.proficiencies@, arch.proficiencies@.len(), k);
    lemma_outfit_keeps(taught, id, next_id(w.events), arch, rolls.loadout@, arch.loadout@.len());
    lemma_remembering_keeps(
        equipped(w, content, p, arch, rolls),
        p,
        id,
        next_id(w.events),
        arch,
        rolls,
        rolls.hooks as nat,
    );
}

// ── Templates ──

proof fn lemma_brace(s: Seq<char>, k: int, e: int)
    requires
        0 <= k <= e < s.len(),
        s[e] == '}',
        forall|i: int| k <= i < e ==> #[trigger] s[i] != '}',
    ensures
        brace_from(s, k) == Some(e),
    decreases e - k,
{
    if k < e {
        assert(s[k] != '}');
        lemma_brace(s, k + 1, e);
    }
}

proof fn lemma_pool(pools: Seq<SlotPool>, slot: Seq<char>, n: nat, i: int)
    requires
        0 <= i < n <= pools.len(),
        pools[i].slot@ == slot,
        forall|j: int| i < j < n ==> (#[trigger] pools[j]).slot@ != slot,
    ensures
        pool_among(pools, slot, n) == Some(i),
    decreases n,
{
    if i < n - 1 {
        assert(pools[n - 1].slot@ != slot);
        lemma_pool(pools, slot, (n - 1) as nat, i);
    }
}

/// A gap in a template, `${..}`, is filled by what was drawn from the pool under its name, or by
/// the number of years that was drawn; what comes after it is filled with the draws that are
/// left.
pub proof fn law_gaps_are_filled(
    s: Seq<char>,
    k: int,
    e: int,
    pools: Seq<SlotPool>,
    draws: Seq<usize>,
    i: int,
)
    requires
        0 <= k,
        k + 2 <= e < s.len(),
        s[k] == '$' && s[k + 1] == '{' && s[e] == '}',
        forall|j: int| k + 2 <= j < e ==> #[trigger] s[j] != '}',
    ensures
        ({
            let slot = s.subrange(k + 2, e);
            &&& slot == "years_ago"@ ==> filled(s, k, pools, draws) == int_text(draws[0] as int) + filled(
                s,
                e + 1,
                pools,
                draws.skip(1),
            )
            &&& slot != "years_ago"@ && 0 <= i < pools.len() && pools[i].slot@ == slot && pools[i].values@.len() > 0
                && (forall|j: int| i < j < pools.len() ==> (#[trigger] pools[j]).slot@ != slot) && draws[0]
                < pools[i].values@.len() ==> filled(s, k, pools, draws) == pools[i].values@[draws[0] as int]@
                + filled(s, e + 1, pools, draws.skip(1))
        }),
{
    lemma_brace(s, k + 2, e);
    let slot = s.subrange(k + 2, e);
    if 0 <= i < pools.len() && pools[i].slot@ == slot && (forall|j: int|
        i < j < pools.len() ==> (#[trigger] pools[j]).slot@ != slot) {
        lemma_pool(pools, slot, pools.len(), i);
        assert(texts(pools[i].values@).len() == pools[i].values@.len());
    }
}

// ── Formulas ──

/// The terms of a formula are read as they are written: a number, dice, the modifier of
/// constitution, and a multiple of it.
pub proof fn law_terms_are_read_as_written(formula: Seq<char>, n: i32, d: DiceSpec)
    requires
        in_bounds(d),
        d is Dice,
    ensures
        hp_term(formula, int_text(n as int)) == Ok::<HpTerm, crate::error::Error<Seq<char>>>(HpTerm::Constant(n)),
        hp_term(formula, "con_mod"@) == Ok::<HpTerm, crate::error::Error<Seq<char>>>(HpTerm::Con(1)),
        hp_term(formula, "con_mod*"@ + int_text(n as int)) == Ok::<HpTerm, crate::error::Error<Seq<char>>>(
            HpTerm::Con(n),
        ),
        hp_term(formula, label(d)) == Ok::<HpTerm, crate::error::Error<Seq<char>>>(HpTerm::Dice(d)),
{
    let t = int_text(n as int);
    law_decimal_stands_for_number(n as int);
    reveal_strlit("con_mod");
    reveal_strlit("con_mod*");
    if t.len() >= 7 {
        assert(t.take(7)[0] == t[0]);
        assert("con_mod"@[0] == 'c');
    }
    assert forall|i: int| 0 <= i < t.len() implies is_digit(#[trigger] t[i]) || t[i] == '-' by {}
    let con = "con_mod"@;
    assert(con.take(7) =~= con);
    assert(con.skip(7) =~= Seq::<char>::empty());
    assert(crate::text::trimmed(con.skip(7)).len() == 0);
    let many = "con_mod*"@ + t;
    assert(many.take(7) =~= con);
    assert(many.skip(7) =~= seq!['*'] + t);
    lemma_nothing_to_trim(seq!['*'] + t);
    assert((seq!['*'] + t).skip(1) =~= t);
    lemma_nothing_to_trim(t);
    let l = label(d);
    law_label_can_be_read(d);
    reveal_strlit("d");
    let count = d->count as int;
    let sides = d->sides as int;
    law_decimal_stands_for_number(count);
    law_decimal_stands_for_number(sides);
    let at = if count == 1 {
        0
    } else {
        int_text(count).len() as int
    };
    assert(l[at] == 'd');
    assert(!is_plain(l)) by {
        assert(!is_digit(l[at]) && l[at] != '-');
    }
    if l.len() >= 7 {
        assert(l.take(7)[0] == l[0]);
        assert(l[0] != 'c');
    }
}

proof fn lemma_parts_begin(s: Seq<char>, t: Seq<char>, n: nat)
    requires
        n <= s.len(),
        n <= t.len(),
        forall|i: int| 0 <= i < n ==> #[trigger] s[i] == t[i],
    ensures
        parts(s, n) == parts(t, n),
        parts(s, n).len() > 0,
    decreases n,
{
    if n > 0 {
        lemma_parts_begin(s, t, (n - 1) as nat);
        assert(s[n - 1] == t[n - 1]);
    }
}

proof fn lemma_parts(a: Seq<char>, b: Seq<char>, k: nat)
    requires
        k <= b.len(),
    ensures
        parts(a + seq!['+'] + b, a.len() + 1 + k) == parts(a, a.len()) + parts(b, k),
        parts(b, k).len() > 0,
    decreases k,
{
    let s = a + seq!['+'] + b;
    let n = a.len() + 1 + k;
    if k == 0 {
        lemma_parts_begin(s, a, a.len());
        assert(s[n - 1] == '+');
        assert(parts(s, n) =~= parts(a, a.len()) + parts(b, 0));
    } else {
        lemma_parts(a, b, (k - 1) as nat);
        assert(s[n - 1] == b[k - 1]);
        let x = parts(a, a.len());
        let y = parts(b, (k - 1) as nat);
        assert((x + y).drop_last() =~= x + y.drop_last());
        assert((x + y).last() == y.last());
        assert(parts(s, n) =~= x + parts(b, k));
    }
}

proof fn lemma_terms(f: Seq<char>, g: Seq<char>, h: Seq<char>, x: Seq<Seq<char>>, y: Seq<Seq<char>>)
    requires
        terms_of(f, x) is Ok,
        terms_of(g, y) is Ok,
    ensures
        terms_of(h, x + y) == Ok::<Seq<HpTerm>, crate::error::Error<Seq<char>>>(
            terms_of(f, x)->Ok_0 + terms_of(g, y)->Ok_0,
        ),
    decreases x.len() + y.len(),
{
    if y.len() == 0 {
        assert(x + y =~= x);
        assert(terms_of(f, x)->Ok_0 + terms_of(g, y)->Ok_0 =~= terms_of(f, x)->Ok_0);
        if x.len() > 0 {
            let none: Seq<Seq<char>> = Seq::empty();
            lemma_terms(f, g, h, x.drop_last(), none);
            assert(x.drop_last() + none =~= x.drop_last());
            assert(terms_of(f, x.drop_last())->Ok_0 + terms_of(g, none)->Ok_0 =~= terms_of(f, x.drop_last())->Ok_0);
        }
    } else {
        lemma_terms(f, g, h, x, y.drop_last());
        assert((x + y).drop_last() =~= x + y.drop_last());
        let before = terms_of(g, y.drop_last())->Ok_0;
        let t = crate::text::trimmed(y.last());
        if t.len() > 0 {
            let last = hp_term(g, t)->Ok_0;
            assert(terms_of(f, x)->Ok_0 + before.push(last) =~= (terms_of(f, x)->Ok_0 + before).push(last));
        }
    }
}

/// A sum of two formulas has the terms of the one and then those of the other.
pub proof fn law_formulas_are_sums(a: Seq<char>, b: Seq<char>)
    requires
        hp_terms(a) is Ok,
        hp_terms(b) is Ok,
    ensures
        hp_terms(a + seq!['+'] + b) == Ok::<Seq<HpTerm>, crate::error::Error<Seq<char>>>(
            hp_terms(a)->Ok_0 + hp_terms(b)->Ok_0,
        ),
{
    lemma_parts(a, b, b.len());
    lemma_terms(a, b, a + seq!['+'] + b, parts(a, a.len()), parts(b, b.len()));
}

/// What is no gap stays as it is: other characters, a gap that is never closed, and one that
/// there is nothing to fill with.
pub proof fn law_what_is_no_gap_stays(s: Seq<char>, k: int, e: int, pools: Seq<SlotPool>, draws: Seq<usize>)
    requires
        0 <= k < s.len(),
    ensures
        s[k] != '$' ==> filled(s, k, pools, draws) == seq![s[k]] + filled(s, k + 1, pools, draws),
        k + 1 < s.len() && s[k + 1] != '{' ==> filled(s, k, pools, draws) == seq![s[k]] + filled(
            s,
            k + 1,
            pools,
            draws,
        ),
        k + 1 < s.len() && s[k] == '$' && s[k + 1] == '{' && (forall|j: int|
            k + 2 <= j < s.len() ==> #[trigger] s[j] != '}') ==> filled(s, k, pools, draws) == s.skip(k),
        k + 2 <= e < s.len() && s[k] == '$' && s[k + 1] == '{' && s[e] == '}' && (forall|j: int|
            k + 2 <= j < e ==> #[trigger] s[j] != '}') && s.subrange(k + 2, e) != "years_ago"@ && (forall|j: int|
            0 <= j < pools.len() ==> (#[trigger] pools[j]).slot@ != s.subrange(k + 2, e)) ==> filled(
            s,
            k,
            pools,
            draws,
        ) == s.subrange(k, e + 1) + filled(s, e + 1, pools, draws),
{
    if forall|j: int| k + 2 <= j < s.len() ==> #[trigger] s[j] != '}' {
        lemma_no_brace(s, k + 2);
    }
    if k + 2 <= e < s.len() && s[e] == '}' && (forall|j: int| k + 2 <= j < e ==> #[trigger] s[j] != '}') {
        lemma_brace(s, k + 2, e);
        lemma_no_pool(pools, s.subrange(k + 2, e), pools.len());
    }
}

proof fn lemma_no_brace(s: Seq<char>, k: int)
    requires
        0 <= k,
        forall|j: int| k <= j < s.len() ==> #[trigger] s[j] != '}',
    ensures
        brace_from(s, k) is None,
    decreases s.len() - k,
{
    if k < s.len() {
        assert(s[k] != '}');
        lemma_no_brace(s, k + 1);
    }
}

proof fn lemma_no_pool(pools: Seq<SlotPool>, slot: Seq<char>, n: nat)
    requires
        n <= pools.len(),
    ensures
        (forall|j: int| 0 <= j < pools.len() ==> (#[trigger] pools[j]).slot@ != slot) ==> pool_among(pools, slot, n)
            is None,
    decreases n,
{
    if n > 0 {
        lemma_no_pool(pools, slot, (n - 1) as nat);
    }
}

// ── The past ──

proof fn lemma_remembered(
    w: World,
    p: GenerateParams,
    id: i64,
    event_id: i64,
    arch: Archetype,
    rolls: NpcRolls,
    n: nat,
    k: int,
)
    requires
        0 <= k < n,
    ensures
        ({
            let v = remembered(w, p, id, event_id, arch, rolls, n);
            let e = v.events[w.events.len() + k];
            &&& v.events.len() == w.events.len() + n
            &&& e.kind == "history.backstory"@
            &&& e.campaign_hour == rolls.hook_hours@[k]
            &&& e.parent_id == Some(event_id)
            &&& e.zone_id == p.zone_id
            &&& e.participants.len() == 1
            &&& e.participants[0].character_id == id
        }),
    decreases n,
{
    if n > 1 {
        if k < n - 1 {
            lemma_remembered(w, p, id, event_id, arch, rolls, (n - 1) as nat, k);
        } else {
            lemma_remembered(w, p, id, event_id, arch, rolls, (n - 1) as nat, 0);
        }
    } else {
        assert(remembered(w, p, id, event_id, arch, rolls, 0) == w);
    }
}

/// A generated character has a past of three to five events, or of as many as its archetype
/// knows, if that is fewer. Each was before the campaign, is noted after the character itself, and
/// is its own.
pub proof fn law_past_has_three_to_five_events(
    w: World,
    content: Content,
    p: GenerateParams,
    arch: Archetype,
    rolls: NpcRolls,
    k: int,
)
    requires
        past_fits(arch, rolls),
        0 <= k < rolls.hooks,
    ensures
        ({
            let known = arch.backstory_hooks@.len();
            let v = generated(w, content, p, arch, rolls);
            let e = v.events[w.events.len() + 1 + k];
            &&& known <= 3 ==> rolls.hooks == known
            &&& known > 3 ==> 3 <= rolls.hooks <= 5 && rolls.hooks <= known
            &&& v.events.len() == w.events.len() + 1 + rolls.hooks
            &&& e.kind == "history.backstory"@
            &&& -1000 <= e.campaign_hour <= -1
            &&& e.parent_id == Some(v.events[w.events.len() as int].id)
            &&& e.participants.len() == 1
            &&& e.participants[0].character_id == next_id(w.characters)
            &&& e.zone_id == p.zone_id
        }),
{
    lemma_equipped(w, content, p, arch, rolls);
    let before = equipped(w, content, p, arch, rolls);
    let id = next_id(w.characters);
    let first = next_id(w.events);
    lemma_remembered(before, p, id, first, arch, rolls, rolls.hooks as nat, k);
    lemma_log_goes_on(before, p, id, first, arch, rolls, rolls.hooks as nat);
    assert(-1000 <= rolls.hook_hours@[k] <= -1);
}

proof fn lemma_log_goes_on(
    w: World,
    p: GenerateParams,
    id: i64,
    event_id: i64,
    arch: Archetype,
    rolls: NpcRolls,
    n: nat,
)
    ensures
        ({
            let v = remembered(w, p, id, event_id, arch, rolls, n);
            &&& v.events.len() >= w.events.len()
            &&& forall|i: int| 0 <= i < w.events.len() ==> #[trigger] v.events[i] == w.events[i]
        }),
    decreases n,
{
    if n > 0 {
        lemma_log_goes_on(w, p, id, event_id, arch, rolls, (n - 1) as nat);
    }
}

// ── Notation ──

/// Only dice that can be thrown are read: from one to a hundred of them, with from two to ten
/// thousand sides; and only ranges that go up.
pub proof fn law_only_dice_that_can_be_thrown_are_read(s: Seq<char>)
    ensures
        parsed(s) matches Ok(DiceSpec::Dice { count, sides }) ==> 1 <= count <= 100 && 2 <= sides <= 10_000,
        parsed(s) matches Ok(DiceSpec::Range { min, max }) ==> min < max,
        s.len() == 0 ==> parsed(s) is Err,
{
    if s.len() == 0 {
        assert(crate::text::trim_start(s) == s);
        assert(crate::text::trim_end(s) == s);
    }
}

// ── What an archetype leaves open ──

proof fn lemma_no_range(list: Seq<StatRange>, ability: Seq<char>, n: nat)
    requires
        n <= list.len(),
        forall|j: int| 0 <= j < n ==> (#[trigger] list[j]).ability@ != ability,
    ensures
        range_among(list, ability, n) is None,
    decreases n,
{
    if n > 0 {
        assert(list[n - 1].ability@ != ability);
        lemma_no_range(list, ability, (n - 1) as nat);
    }
}

/// In an ability that the archetype gives no range for, a generated character has a score of ten.
pub proof fn law_scores_are_ten_otherwise(arch: Archetype, ability: Seq<char>, score: i32)
    requires
        score_fits(arch, ability, score),
        forall|j: int| 0 <= j < arch.stats@.len() ==> (#[trigger] arch.stats@[j]).ability@ != ability,
    ensures
        score == 10,
{
    lemma_no_range(arch.stats@, ability, arch.stats@.len());
}

/// The items that are told of a generated character are all those that are new, in their order,
/// and it holds each of them.
pub proof fn law_outfit_is_told(
    w: World,
    content: Content,
    p: GenerateParams,
    rolls: NpcRolls,
    after: World,
    r: GenerateResult,
    k: int,
)
    requires
        generate_ok(w, content, p, rolls, after, r),
        0 <= k < r.item_ids@.len(),
    ensures
        after.items.len() == w.items.len() + r.item_ids@.len(),
        after.items[w.items.len() + k].id == r.item_ids@[k],
        after.items[w.items.len() + k].place == Place::Holder(r.character_id),
{
    let arch = content.archetypes@[archetype_at(content, p.archetype@)->0];
    let id = next_id(w.characters);
    let made = born(w, content, p, arch, rolls);
    crate::npcs::lemma_schooling_keeps(made, id, arch.proficiencies@, arch.proficiencies@.len());
    let taught = schooled(made, id, arch.proficiencies@, arch.proficiencies@.len());
    crate::npcs::lemma_outfit(taught, id, next_id(w.events), arch, rolls.loadout@, arch.loadout@.len());
    lemma_remembering_keeps(
        equipped(w, content, p, arch, rolls),
        p,
        id,
        next_id(w.events),
        arch,
        rolls,
        rolls.hooks as nat,
    );
}

} // verus!
