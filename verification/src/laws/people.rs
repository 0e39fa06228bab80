//! Laws of characters: how they begin, what is read of them, and what changes about them.

use vstd::prelude::*;
use crate::campaign::{index_of, lemma_character, lemma_push, lemma_row, lemma_tables, listed, next_id, row, World};
use crate::characters::{
    conditions_of, create_refusal, created, effects_of, is_view, plans_refusal, proficiencies_of, recast,
    replanned, resources_of, role_refusal, ChangeRoleParams, CharacterView, CreateParams, UpdatePlansParams,
};
use crate::checks::training_of;
use crate::conditions::{ApplyConditionParams, RemoveConditionParams};
use crate::effects::{ApplyParams, DispelParams};
use crate::laws::checks::lemma_effect_more;
use crate::laws::{lemma_put_changes, only_changes};
use crate::proficiencies::{
    adjust_refusal, adjusted, forgotten, lemma_resource_at, lemma_training_at, resource_of, set_refusal,
    set_resource_refusal, supplied, trained, used_up, AdjustResourceParams, RemoveProficiencyParams,
    RemoveResourceParams, SetProficiencyParams, SetResourceParams,
};
use crate::rows::{
    Character, Condition, Effect, KnowledgeLevel, Proficiency, Recharge, Resource, Role, Size, Status, TargetKind,
};
use crate::text::opt_text;

verus! {

// ── Characters ──

/// A new character is as it was described; what was not said is as usual: of medium size, with
/// ten hit points and all of them, an armour class of ten, a speed of thirty feet, no bonus to
/// initiative and a loyalty of fifty. It is alive, of the first level, without experience, and
/// the last of the characters.
pub proof fn law_new_character_is_as_described(w: World, p: CreateParams)
    requires
        w.wf(),
        w.room(),
        create_refusal(w, p) is None,
    ensures
        ({
            let after = created(w, p);
            let ch = row(after.characters, next_id(w.characters));
            &&& listed(after.characters, next_id(w.characters))
            &&& after.characters == w.characters.push(ch)
            &&& ch.name == p.name@
            &&& ch.role.text() == p.role@
            &&& p.size is Some ==> ch.size.text() == p.size->0@
            &&& p.size is None ==> ch.size == Size::Medium
            &&& ch.party_id == p.party_id
            &&& ch.str_score == p.str_score && ch.dex_score == p.dex_score && ch.con_score == p.con_score
            &&& ch.int_score == p.int_score && ch.wis_score == p.wis_score && ch.cha_score == p.cha_score
            &&& p.hp_max is Some ==> ch.hp_max == p.hp_max->0
            &&& p.hp_max is None ==> ch.hp_max == 10
            &&& p.hp_current is Some ==> ch.hp_current == p.hp_current->0
            &&& p.hp_current is None ==> ch.hp_current == ch.hp_max
            &&& ch.hp_temp == 0
            &&& p.armor_class is Some ==> ch.armor_class == p.armor_class->0
            &&& p.armor_class is None ==> ch.armor_class == 10
            &&& p.speed_ft is Some ==> ch.speed_ft == p.speed_ft->0
            &&& p.speed_ft is None ==> ch.speed_ft == 30
            &&& p.initiative_bonus is Some ==> ch.initiative_bonus == p.initiative_bonus->0
            &&& p.initiative_bonus is None ==> ch.initiative_bonus == 0
            &&& p.loyalty is Some ==> ch.loyalty == p.loyalty->0
            &&& p.loyalty is None ==> ch.loyalty == 50
            &&& ch.species == opt_text(p.species)
            &&& ch.class_or_archetype == opt_text(p.class_or_archetype)
            &&& ch.ideology == opt_text(p.ideology)
            &&& ch.backstory == opt_text(p.backstory)
            &&& ch.plans == opt_text(p.plans)
            &&& ch.current_zone_id == p.current_zone_id
            &&& ch.status == Status::Alive
            &&& ch.level == 1 && ch.xp_total == 0 && ch.proficiency_bonus == 2
            &&& ch.death_save_successes == 0 && ch.death_save_failures == 0
            &&& after.items == w.items && after.effects == w.effects && after.conditions == w.conditions
        }),
{
    lemma_tables(w);
    lemma_push(w.characters, crate::characters::created_row(w, p));
    let role = Role::of_text(p.role@)->0;
    let size = Size::of_text(crate::characters::size_text(p))->0;
    role.lemma_text();
    size.lemma_text();
    Size::Medium.lemma_text();
}

/// A character begins only with scores from 1 to 30, with 1 to 10,000 hit points and no more than
/// it can have, an armour class from 1 to 50, a speed of at most 1,000 feet, a bonus to
/// initiative of at most 20 either way and a loyalty of at most 100.
pub proof fn law_new_character_is_in_bounds(w: World, p: CreateParams)
    requires
        w.wf(),
        w.room(),
        create_refusal(w, p) is None,
    ensures
        ({
            let ch = row(created(w, p).characters, next_id(w.characters));
            &&& 1 <= ch.str_score <= 30 && 1 <= ch.dex_score <= 30 && 1 <= ch.con_score <= 30
            &&& 1 <= ch.int_score <= 30 && 1 <= ch.wis_score <= 30 && 1 <= ch.cha_score <= 30
            &&& 1 <= ch.hp_max <= 10_000
            &&& 0 <= ch.hp_current <= ch.hp_max
            &&& 1 <= ch.armor_class <= 50
            &&& 0 <= ch.speed_ft <= 1_000
            &&& -20 <= ch.initiative_bonus <= 20
            &&& 0 <= ch.loyalty <= 100
            &&& ch.current_zone_id matches Some(z) ==> listed(w.zones, z)
            &&& ch.party_id matches Some(n) ==> listed(w.parties, n)
        }),
{
    lemma_tables(w);
    lemma_push(w.characters, crate::characters::created_row(w, p));
}

/// Whoever begins somewhere has been there, and knows nothing else; nobody else learns of it.
pub proof fn law_new_character_knows_where_it_is(w: World, p: CreateParams, i: int)
    ensures
        ({
            let before = w.zone_knowledge;
            let after = created(w, p).zone_knowledge;
            &&& p.current_zone_id is None ==> after == before
            &&& p.current_zone_id matches Some(z) ==> {
                &&& after.len() == before.len() + 1
                &&& 0 <= i < before.len() ==> after[i] == before[i]
                &&& after.last().character_id == next_id(w.characters)
                &&& after.last().zone_id == z
                &&& after.last().level == KnowledgeLevel::Visited
            }
        }),
{
}

/// Effects show in what is read of a character: one more that acts on a score makes the
/// effective score larger by its modifier, and leaves the score itself and all the others. With
/// no effects both are the same.
pub proof fn law_effects_show_in_the_sheet(
    w: World,
    e: Effect<Seq<char>>,
    id: i64,
    u: CharacterView,
    v: CharacterView,
)
    requires
        is_view(w, id, u),
        is_view(World { effects: w.effects.push(e), ..w }, id, v),
    ensures
        ({
            let acts = e.active && e.target_character_id == id;
            let by = |key: Seq<char>|
                if acts && e.target_key == key {
                    e.modifier as int
                } else {
                    0
                };
            &&& v.effective_str - u.effective_str == by("str_score"@)
            &&& v.effective_dex - u.effective_dex == by("dex_score"@)
            &&& v.effective_con - u.effective_con == by("con_score"@)
            &&& v.effective_int - u.effective_int == by("int_score"@)
            &&& v.effective_wis - u.effective_wis == by("wis_score"@)
            &&& v.effective_cha - u.effective_cha == by("cha_score"@)
            &&& v.effective_armor_class - u.effective_armor_class == by("armor_class"@)
            &&& v.effective_speed_ft - u.effective_speed_ft == by("speed_ft"@)
            &&& v.str_score == u.str_score && v.dex_score == u.dex_score && v.con_score == u.con_score
            &&& v.int_score == u.int_score && v.wis_score == u.wis_score && v.cha_score == u.cha_score
            &&& v.armor_class == u.armor_class && v.speed_ft == u.speed_ft
            &&& v.hp_current == u.hp_current && v.hp_max == u.hp_max
        }),
        w.effects.len() == 0 ==> {
            &&& u.effective_str == u.str_score && u.effective_dex == u.dex_score
            &&& u.effective_con == u.con_score && u.effective_int == u.int_score
            &&& u.effective_wis == u.wis_score && u.effective_cha == u.cha_score
            &&& u.effective_armor_class == u.armor_class && u.effective_speed_ft == u.speed_ft
        },
{
    lemma_effect_more(w.effects, e, id, "str_score"@);
    lemma_effect_more(w.effects, e, id, "dex_score"@);
    lemma_effect_more(w.effects, e, id, "con_score"@);
    lemma_effect_more(w.effects, e, id, "int_score"@);
    lemma_effect_more(w.effects, e, id, "wis_score"@);
    lemma_effect_more(w.effects, e, id, "cha_score"@);
    lemma_effect_more(w.effects, e, id, "armor_class"@);
    lemma_effect_more(w.effects, e, id, "speed_ft"@);
}

/// What is read of a character lists what it is trained in and what it has to spend, and what
/// acts on it and what it suffers, as long as that lasts: one more of its own is one entry more,
/// which says what it is, and one of somebody else's, or one that is over, is none.
pub proof fn law_sheet_lists_its_own(
    ps: Seq<Proficiency<Seq<char>>>,
    p: Proficiency<Seq<char>>,
    rs: Seq<Resource<Seq<char>>>,
    r: Resource<Seq<char>>,
    es: Seq<Effect<Seq<char>>>,
    e: Effect<Seq<char>>,
    cs: Seq<Condition<Seq<char>>>,
    c: Condition<Seq<char>>,
    id: i64,
)
    ensures
        ({
            let a = proficiencies_of(ps, id);
            let b = proficiencies_of(ps.push(p), id);
            &&& p.character_id != id ==> b == a
            &&& p.character_id == id ==> {
                let x = b.last();
                &&& b == a.push(x)
                &&& x.name == p.name && x.proficient == p.proficient && x.expertise == p.expertise
                &&& x.ranks == p.ranks
            }
        }),
        ({
            let a = resources_of(rs, id);
            let b = resources_of(rs.push(r), id);
            &&& r.character_id != id ==> b == a
            &&& r.character_id == id ==> {
                let x = b.last();
                &&& b == a.push(x)
                &&& x.name == r.name && x.current == r.current && x.max == r.max
                &&& x.recharge == r.recharge.text()
            }
        }),
        ({
            let a = effects_of(es, id);
            let b = effects_of(es.push(e), id);
            &&& e.target_character_id != id || !e.active ==> b == a
            &&& e.target_character_id == id && e.active ==> {
                let x = b.last();
                &&& b == a.push(x)
                &&& x.id == e.id && x.source == e.source && x.target_kind == e.target_kind.text()
                &&& x.target_key == e.target_key && x.modifier == e.modifier && x.dice_expr == e.dice_expr
                &&& x.expires_at_hour == e.expires_at_hour && x.expires_after_rounds == e.expires_after_rounds
                &&& x.expires_on_dispel == e.expires_on_dispel
            }
        }),
        ({
            let a = conditions_of(cs, id);
            let b = conditions_of(cs.push(c), id);
            &&& c.character_id != id || !c.active ==> b == a
            &&& c.character_id == id && c.active ==> {
                let x = b.last();
                &&& b == a.push(x)
                &&& x.id == c.id && x.condition == c.condition && x.severity == c.severity
                &&& x.source_event_id == c.source_event_id && x.expires_at_hour == c.expires_at_hour
                &&& x.expires_after_rounds == c.expires_after_rounds && x.remove_on_save == c.remove_on_save
            }
        }),
{
    assert(ps.push(p).drop_last() =~= ps);
    assert(rs.push(r).drop_last() =~= rs);
    assert(es.push(e).drop_last() =~= es);
    assert(cs.push(c).drop_last() =~= cs);
}

/// New plans replace the old ones, and a new role the old one; nothing else about the character
/// changes, and nobody else does.
pub proof fn law_plans_and_roles_are_replaced(w: World, p: UpdatePlansParams, q: ChangeRoleParams)
    requires
        w.wf(),
    ensures
        plans_refusal(w, p) is None ==> {
            let a = row(w.characters, p.character_id);
            let b = row(replanned(w, p).characters, p.character_id);
            &&& only_changes(w.characters, replanned(w, p).characters, p.character_id)
            &&& b.plans == Some(p.new_plans@)
            &&& b == (Character { plans: b.plans, updated_at: b.updated_at, ..a })
            &&& replanned(w, p).items == w.items && replanned(w, p).effects == w.effects
        },
        role_refusal(w, q) is None ==> {
            let a = row(w.characters, q.character_id);
            let b = row(recast(w, q).characters, q.character_id);
            &&& only_changes(w.characters, recast(w, q).characters, q.character_id)
            &&& b.role.text() == q.new_role@
            &&& b == (Character { role: b.role, updated_at: b.updated_at, ..a })
            &&& recast(w, q).items == w.items && recast(w, q).effects == w.effects
        },
{
    lemma_tables(w);
    if plans_refusal(w, p) is None {
        lemma_character(w, p.character_id);
        lemma_put_changes(w.characters, replanned(w, p).characters[index_of(w.characters, p.character_id)]);
    }
    if role_refusal(w, q) is None {
        lemma_character(w, q.character_id);
        lemma_put_changes(w.characters, recast(w, q).characters[index_of(w.characters, q.character_id)]);
        (Role::of_text(q.new_role@)->0).lemma_text();
    }
}

// ── Effects and conditions ──

/// A new effect is as it was described, acts from now on, and is added to those that there are.
/// Dispelling it ends it, and leaves it and all others as they are otherwise.
pub proof fn law_effects_begin_and_end(w: World, p: ApplyParams, d: DispelParams)
    requires
        w.wf(),
        w.room(),
    ensures
        crate::effects::apply_refusal(w, p) is None ==> {
            let after = crate::effects::applied(w, p).effects;
            let e = after.last();
            &&& after == w.effects.push(e)
            &&& e.id == next_id(w.effects)
            &&& e.target_character_id == p.target_character_id
            &&& e.source == p.source@
            &&& e.target_kind.text() == p.target_kind@
            &&& e.target_key == p.target_key@
            &&& e.modifier == p.modifier
            &&& e.dice_expr == opt_text(p.dice_expr)
            &&& e.start_event_id == next_id(w.events)
            &&& e.expires_at_hour == p.expires_at_hour
            &&& e.expires_after_rounds == p.expires_after_rounds
            &&& e.expires_on_dispel <==> p.expires_on_dispel == Some(true)
            &&& e.active
        },
        crate::effects::dispel_refusal(w, d) is None ==> {
            let a = row(w.effects, d.effect_id);
            let b = row(crate::effects::dispelled(w, d).effects, d.effect_id);
            &&& only_changes(w.effects, crate::effects::dispelled(w, d).effects, d.effect_id)
            &&& a.active && !b.active
            &&& b == (Effect { active: b.active, ..a })
        },
{
    lemma_tables(w);
    if crate::effects::apply_refusal(w, p) is None {
        (TargetKind::of_text(p.target_kind@)->0).lemma_text();
    }
    if crate::effects::dispel_refusal(w, d) is None {
        lemma_row(w.effects, d.effect_id);
        lemma_put_changes(w.effects, Effect { active: false, ..row(w.effects, d.effect_id) });
    }
}

/// A new condition is as it was described, holds from now on, and is added to those that there
/// are. Removing it ends it, and leaves it and all others as they are otherwise.
pub proof fn law_conditions_begin_and_end(w: World, p: ApplyConditionParams, d: RemoveConditionParams)
    requires
        w.wf(),
        w.room(),
    ensures
        crate::conditions::apply_refusal(w, p) is None ==> {
            let after = crate::conditions::applied(w, p).conditions;
            let c = after.last();
            &&& after == w.conditions.push(c)
            &&& c.id == next_id(w.conditions)
            &&& c.character_id == p.character_id
            &&& c.condition == p.condition@
            &&& c.severity == p.severity && c.severity >= 1
            &&& p.source_event_id is Some ==> c.source_event_id == p.source_event_id
            &&& p.source_event_id is None ==> c.source_event_id == Some(next_id(w.events))
            &&& c.expires_at_hour == p.expires_at_hour
            &&& c.expires_after_rounds == p.expires_after_rounds
            &&& c.remove_on_save == opt_text(p.remove_on_save)
            &&& c.active
        },
        crate::conditions::remove_refusal(w, d) is None ==> {
            let a = row(w.conditions, d.condition_id);
            let b = row(crate::conditions::removed(w, d).conditions, d.condition_id);
            &&& only_changes(w.conditions, crate::conditions::removed(w, d).conditions, d.condition_id)
            &&& a.active && !b.active
            &&& b == (Condition { active: b.active, ..a })
        },
{
    lemma_tables(w);
    if crate::conditions::remove_refusal(w, d) is None {
        lemma_row(w.conditions, d.condition_id);
        lemma_put_changes(w.conditions, Condition { active: false, ..row(w.conditions, d.condition_id) });
    }
}

// ── Training and resources ──

/// Setting what a character is trained in sets just that: whether it is proficient and an expert
/// only if that was said, and its ranks, none unless given. All other training stays.
pub proof fn law_training_is_as_set(w: World, p: SetProficiencyParams, i: int)
    requires
        w.wf(),
        set_refusal(w, p) is None,
    ensures
        ({
            let after = trained(w, p).proficiencies;
            let k = training_of(trained(w, p), p.character_id, p.name@);
            &&& k is Some && 0 <= k->0 < after.len()
            &&& after[k->0].character_id == p.character_id
            &&& after[k->0].name == p.name@
            &&& after[k->0].proficient <==> p.proficient == Some(true)
            &&& after[k->0].expertise <==> p.expertise == Some(true)
            &&& p.ranks is Some ==> after[k->0].ranks == p.ranks->0
            &&& p.ranks is None ==> after[k->0].ranks == 0
            &&& 0 <= i < w.proficiencies.len() ==> {
                &&& i < after.len()
                &&& after[i].character_id == w.proficiencies[i].character_id
                &&& after[i].name == w.proficiencies[i].name
                &&& w.proficiencies[i].character_id != p.character_id || w.proficiencies[i].name != p.name@
                    ==> after[i] == w.proficiencies[i]
            }
            &&& w.proficiencies.len() <= after.len() <= w.proficiencies.len() + 1
        }),
{
    lemma_training_at(w.proficiencies, p.character_id, p.name@, w.proficiencies.len());
    let after = trained(w, p).proficiencies;
    lemma_training_at(after, p.character_id, p.name@, after.len());
    crate::proficiencies::law_training_is_found_until_removed(
        w,
        p,
        RemoveProficiencyParams { character_id: p.character_id, name: p.name },
    );
}

/// Removing training removes that of the character under that name, and no other; the same of a
/// resource.
pub proof fn law_only_what_is_named_goes(w: World, p: RemoveProficiencyParams, q: RemoveResourceParams, i: int)
    requires
        w.wf(),
    ensures
        0 <= i < w.proficiencies.len() && (w.proficiencies[i].character_id != p.character_id
            || w.proficiencies[i].name != p.name@) ==> forgotten(w, p).proficiencies.contains(w.proficiencies[i]),
        0 <= i < forgotten(w, p).proficiencies.len() ==> w.proficiencies.contains(forgotten(w, p).proficiencies[i]),
        0 <= i < forgotten(w, p).proficiencies.len() ==> !({
            &&& forgotten(w, p).proficiencies[i].character_id == p.character_id
            &&& forgotten(w, p).proficiencies[i].name == p.name@
        }),
        0 <= i < w.resources.len() && (w.resources[i].character_id != q.character_id || w.resources[i].name
            != q.name@) ==> used_up(w, q).resources.contains(w.resources[i]),
        0 <= i < used_up(w, q).resources.len() ==> w.resources.contains(used_up(w, q).resources[i]),
        0 <= i < used_up(w, q).resources.len() ==> !({
            &&& used_up(w, q).resources[i].character_id == q.character_id
            &&& used_up(w, q).resources[i].name == q.name@
        }),
{
    reveal(World::wf);
    let a = w.proficiencies;
    let b = forgotten(w, p).proficiencies;
    lemma_training_at(a, p.character_id, p.name@, a.len());
    if let Some(k) = training_of(w, p.character_id, p.name@) {
        if 0 <= i < a.len() && i < k {
            assert(b[i] == a[i]);
        }
        if k < i < a.len() {
            assert(b[i - 1] == a[i]);
        }
        if 0 <= i < b.len() && i < k {
            assert(b[i] == a[i]);
        }
        if k <= i < b.len() {
            assert(b[i] == a[i + 1]);
        }
    } else {
        assert(b == a);
    }
    let c = w.resources;
    let d = used_up(w, q).resources;
    lemma_resource_at(c, q.character_id, q.name@, c.len());
    if let Some(k) = resource_of(w, q.character_id, q.name@) {
        if 0 <= i < c.len() && i < k {
            assert(d[i] == c[i]);
        }
        if k < i < c.len() {
            assert(d[i - 1] == c[i]);
        }
        if 0 <= i < d.len() && i < k {
            assert(d[i] == c[i]);
        }
        if k <= i < d.len() {
            assert(d[i] == c[i + 1]);
        }
    } else {
        assert(d == c);
    }
}

/// Setting a resource sets just that, to what was said, and leaves all the others.
pub proof fn law_resource_is_as_set(w: World, p: SetResourceParams, i: int)
    requires
        w.wf(),
        set_resource_refusal(w, p) is None,
    ensures
        ({
            let after = supplied(w, p).resources;
            let k = resource_of(supplied(w, p), p.character_id, p.name@);
            &&& k is Some && 0 <= k->0 < after.len()
            &&& after[k->0].character_id == p.character_id
            &&& after[k->0].name == p.name@
            &&& after[k->0].current == p.current
            &&& after[k->0].max == p.max
            &&& after[k->0].recharge.text() == p.recharge@
            &&& 0 <= p.current <= p.max
            &&& 0 <= i < w.resources.len() ==> {
                &&& i < after.len()
                &&& w.resources[i].character_id != p.character_id || w.resources[i].name != p.name@ ==> after[i]
                    == w.resources[i]
            }
            &&& w.resources.len() <= after.len() <= w.resources.len() + 1
        }),
{
    lemma_resource_at(w.resources, p.character_id, p.name@, w.resources.len());
    let after = supplied(w, p).resources;
    lemma_resource_at(after, p.character_id, p.name@, after.len());
    crate::proficiencies::law_resource_is_found_until_removed(
        w,
        p,
        RemoveResourceParams { character_id: p.character_id, name: p.name },
    );
    (Recharge::of_text(p.recharge@)->0).lemma_text();
}

/// Adjusting a resource adds to what there is of it, or takes from it, but leaves no less than
/// nothing and no more than there can be. What it can be at most, and all other resources, stay.
pub proof fn law_adjusting_adds(w: World, p: AdjustResourceParams, i: int)
    requires
        w.wf(),
        adjust_refusal(w, p) is None,
        0 <= i < w.resources.len(),
    ensures
        ({
            let a = w.resources[i];
            let b = adjusted(w, p).resources[i];
            let own = a.character_id == p.character_id && a.name == p.name@;
            &&& adjusted(w, p).resources.len() == w.resources.len()
            &&& !own ==> b == a
            &&& own ==> {
                &&& b == (Resource { current: b.current, ..a })
                &&& 0 <= a.current + p.delta <= a.max ==> b.current - a.current == p.delta
                &&& a.current + p.delta < 0 ==> b.current == 0
                &&& a.current + p.delta > a.max ==> b.current == a.max
            }
        }),
{
    lemma_resource_at(w.resources, p.character_id, p.name@, w.resources.len());
    reveal(World::wf);
    let k = resource_of(w, p.character_id, p.name@)->0;
    if i < k {
        assert(w.resources[i].character_id != w.resources[k].character_id || w.resources[i].name
            != w.resources[k].name);
    } else if k < i {
        assert(w.resources[k].character_id != w.resources[i].character_id || w.resources[k].name
            != w.resources[i].name);
    }
}

} // verus!
