use dm_mcp::campaign::Campaign;
use dm_mcp::characters::{self, CreateParams};
use dm_mcp::combat::{
    apply_damage, apply_healing, death_event_with, death_save_with, end, next_turn, roll_death_event,
    roll_death_save, start, start_with, sum_death_weights, ApplyDamageParams, ApplyHealingParams, DeathEventParams,
    DeathSaveParams, DeathSaveResult, EndParams, EndResult, NextTurnParams, SaveOutcome, StartParams,
};
use dm_mcp::conditions::{self, ApplyConditionParams};
use dm_mcp::content::{
    Ability, BaseItem, CheckKind, ConditionRule, Content, DamageType, DeathEvent, Encumbrance, Rider, RollModifier,
    Skill,
};
use dm_mcp::effects;
use dm_mcp::encounters::{self as enc, CreateParams as EncCreate, CreateParticipant};
use dm_mcp::error::Error;
use dm_mcp::rows::{EncounterStatus, Status};

fn s(text: &str) -> String {
    text.to_string()
}

fn base(id: &str, pounds: i64, gold: i64, stackable: bool) -> BaseItem {
    BaseItem { id: s(id), weight_lb: pounds * 1000, base_value_gp: gold * 1000, stackable }
}

fn ability(id: &str, name: &str) -> Ability {
    Ability { id: s(id), name: s(name), governs: s("") }
}

fn skill(id: &str, ability: &str) -> Skill {
    Skill { id: s(id), ability: s(ability), description: s("") }
}

fn content() -> Content {
    Content {
        abilities: vec![
            ability("str", "Strength"),
            ability("dex", "Dexterity"),
            ability("con", "Constitution"),
            ability("int", "Intelligence"),
            ability("wis", "Wisdom"),
            ability("cha", "Charisma"),
        ],
        skills: vec![skill("athletics", "str"), skill("stealth", "dex"), skill("persuasion", "cha")],
        damage_types: vec![DamageType { id: s("fire"), physical: false, description: s("burns") }],
        conditions: vec![
            ConditionRule {
                id: s("blinded"),
                riders: vec![Rider { kind: CheckKind::AttackRoll, modifier: RollModifier::Disadvantage }],
                auto_fail: vec![s("sight")],
            },
            ConditionRule {
                id: s("invisible"),
                riders: vec![Rider { kind: CheckKind::AttackRoll, modifier: RollModifier::Advantage }],
                auto_fail: vec![],
            },
            ConditionRule {
                id: s("paralyzed"),
                riders: vec![Rider { kind: CheckKind::SavingThrow, modifier: RollModifier::AutoFail }],
                auto_fail: vec![],
            },
        ],
        biomes: vec![s("temperate_forest")],
        weapons: vec![s("longsword")],
        enchantments: vec![s("flaming")],
        archetypes: vec![],
        item_bases: vec![
            base("gold", 0, 1, true),
            base("heavy_crate", 100, 5, false),
            base("stone", 10, 0, true),
            base("backpack", 5, 2, false),
            base("longsword", 3, 15, false),
        ],
        encumbrance: Encumbrance {
            capacity_per_str: 15,
            encumbered_threshold_pct: 67,
            overloaded_threshold_pct: 100,
        },
        death_events: vec![],
        setup_questions: vec![],
        name_pools: vec![],
    }
}

fn person(name: &str, role: &str) -> CreateParams {
    CreateParams {
        name: name.to_string(),
        role: role.to_string(),
        str_score: 10,
        dex_score: 10,
        con_score: 10,
        int_score: 10,
        wis_score: 10,
        cha_score: 10,
        hp_max: None,
        hp_current: None,
        armor_class: None,
        speed_ft: None,
        initiative_bonus: None,
        size: None,
        species: None,
        class_or_archetype: None,
        ideology: None,
        backstory: None,
        plans: None,
        loyalty: None,
        party_id: None,
        current_zone_id: None,
    }
}

fn death(kind: &str, weight: i32) -> DeathEvent {
    DeathEvent {
        kind: s(kind),
        description: s("..."),
        weight,
        outcome_hooks: vec![s("hook")],
        requires: vec![],
    }
}

fn with_deaths() -> Content {
    let mut k = content();
    k.death_events = vec![death("mourned", 3), death("forgotten", 0), death("haunting", 2)];
    k
}

fn char(c: &mut Campaign, name: &str, role: &str, con_score: i32, hp: i32) -> i64 {
    let mut p = person(name, role);
    p.con_score = con_score;
    p.hp_max = Some(hp);
    p.hp_current = Some(hp);
    p.armor_class = Some(12);
    p.initiative_bonus = Some(1);
    characters::create(c, p).unwrap().character_id
}

fn simple_encounter(c: &mut Campaign, players: &[i64], enemies: &[i64]) -> i64 {
    let participants = players
        .iter()
        .map(|id| CreateParticipant { character_id: *id, side: "player_side".into() })
        .chain(enemies.iter().map(|id| CreateParticipant { character_id: *id, side: "hostile".into() }))
        .collect();
    enc::create(
        c,
        EncCreate {
            zone_id: None,
            name: Some("test".into()),
            goal: "g".into(),
            estimated_duration_hours: Some(1),
            xp_budget: 100,
            participants,
        },
    )
    .unwrap()
    .encounter_id
}

fn hit(c: &mut Campaign, character_id: i64, amount: i32) {
    apply_damage(
        c,
        ApplyDamageParams { character_id, amount, damage_type: None, source: None, encounter_id: None },
    )
    .unwrap();
}

fn bless(c: &mut Campaign, target: i64, rounds: i32) -> i64 {
    effects::apply(
        c,
        effects::ApplyParams {
            target_character_id: target,
            source: "spell:bless".into(),
            target_kind: "attack".into(),
            target_key: "attack".into(),
            modifier: 0,
            dice_expr: Some("1d4".into()),
            expires_at_hour: None,
            expires_after_rounds: Some(rounds),
            expires_on_dispel: Some(true),
        },
    )
    .unwrap()
    .effect_id
}

fn turn(c: &mut Campaign, encounter_id: i64) {
    next_turn(c, NextTurnParams { encounter_id }).unwrap();
}

#[test]
fn round_based_effect_expires_on_wrap() {
    let mut c = Campaign::new();
    let player = char(&mut c, "P", "player", 12, 20);
    let enemy = char(&mut c, "E", "enemy", 12, 10);
    let eid = simple_encounter(&mut c, &[player], &[enemy]);
    start(&mut c, StartParams { encounter_id: eid }).unwrap();

    let effect_id = bless(&mut c, player, 2);

    next_turn(&mut c, NextTurnParams { encounter_id: eid }).unwrap();
    let r = next_turn(&mut c, NextTurnParams { encounter_id: eid }).unwrap();
    assert!(r.wrapped_to_new_round);
    assert_eq!(r.current_round, 2);
    assert!(c.effects.iter().find(|e| e.id == effect_id).unwrap().active);

    next_turn(&mut c, NextTurnParams { encounter_id: eid }).unwrap();
    let r = next_turn(&mut c, NextTurnParams { encounter_id: eid }).unwrap();
    assert_eq!(r.current_round, 3);
    assert!(r.expired_effect_ids.contains(&effect_id));
    assert!(!c.effects.iter().find(|e| e.id == effect_id).unwrap().active);
}

#[test]
fn stale_combat_is_auto_ended_on_new_start() {
    let mut c = Campaign::new();
    let player = char(&mut c, "P", "player", 12, 20);
    let enemy1 = char(&mut c, "E1", "enemy", 12, 10);
    let enemy2 = char(&mut c, "E2", "enemy", 12, 10);
    let eid1 = simple_encounter(&mut c, &[player], &[enemy1]);
    let eid2 = simple_encounter(&mut c, &[player], &[enemy2]);

    start(&mut c, StartParams { encounter_id: eid1 }).unwrap();
    let r2 = start(&mut c, StartParams { encounter_id: eid2 }).unwrap();
    assert_eq!(r2.auto_ended_encounter_id, Some(eid1));

    let first = c.encounters.iter().find(|e| e.id == eid1).unwrap();
    assert!(!first.in_combat, "first encounter should have in_combat=0 after auto-end");
    assert!(first.current_round.is_none());

    let count =
        c.events.iter().filter(|e| e.kind == "combat.auto_ended" && e.encounter_id == Some(eid1)).count();
    assert_eq!(count, 1);
}

#[test]
fn damage_to_zero_drops_unconscious_with_mortally_wounded() {
    let mut c = Campaign::new();
    let player = char(&mut c, "P", "player", 10, 10);
    let r = apply_damage(
        &mut c,
        ApplyDamageParams {
            character_id: player,
            amount: 12,
            damage_type: Some("slashing".into()),
            source: Some("orc raider".into()),
            encounter_id: None,
        },
    )
    .unwrap();
    assert_eq!(r.hp_current, 0);
    assert!(r.newly_unconscious);
    assert_eq!(r.status, "unconscious");
    assert!(r.mortally_wounded_condition_id.is_some());
}

#[test]
fn three_death_save_failures_marks_dead_and_rolls_death_event() {
    let mut c = Campaign::new();
    let content = with_deaths();
    let player = char(&mut c, "P", "player", 10, 10);
    hit(&mut c, player, 100);
    c.characters[0].death_save_failures = 2;
    let mut attempts = 0;
    loop {
        attempts += 1;
        assert!(attempts < 200, "never produced third failure");
        let save = roll_death_save(&mut c, DeathSaveParams { character_id: player }).unwrap();
        if save.status == "dead" {
            break;
        }
        c.characters[0].death_save_failures = 2;
        c.characters[0].death_save_successes = 0;
        c.characters[0].status = Status::Unconscious;
    }
    let de = roll_death_event(&mut c, &content, DeathEventParams { character_id: player }).unwrap();
    assert!(!de.rolled.kind.is_empty());
}

#[test]
fn damage_takes_what_there_is() {
    let mut c = Campaign::new();
    let k = char(&mut c, "P", "player", 10, 10);
    hit(&mut c, k, 4);
    assert_eq!((c.characters[0].hp_current, c.characters[0].status), (6, Status::Alive));
    assert_eq!(c.events.last().unwrap().summary, "Character id=1 took 4 damage (10→6 HP)");
    hit(&mut c, k, 6);
    assert_eq!((c.characters[0].hp_current, c.characters[0].status), (0, Status::Unconscious));
    assert_eq!(c.conditions.len(), 1);
    hit(&mut c, k, i32::MAX);
    assert_eq!(c.characters[0].hp_current, 0);
    assert_eq!(c.conditions.len(), 1, "nobody falls twice");
}

#[test]
fn healing_brings_back_and_clears_the_wound() {
    let mut c = Campaign::new();
    let k = char(&mut c, "P", "player", 10, 10);
    hit(&mut c, k, 10);
    let r = apply_healing(&mut c, ApplyHealingParams { character_id: k, amount: 4, source: None }).unwrap();
    assert_eq!((r.hp_current, r.status.as_str(), r.cleared_mortally_wounded), (4, "alive", true));
    assert!(!c.conditions[0].active);
    let r = apply_healing(&mut c, ApplyHealingParams { character_id: k, amount: i32::MAX, source: None }).unwrap();
    assert_eq!((r.hp_current, r.cleared_mortally_wounded), (10, false));
}

#[test]
fn nothing_negative_is_dealt() {
    let mut c = Campaign::new();
    let k = char(&mut c, "P", "player", 10, 10);
    c.characters[0].status = Status::Dead;
    let before = c.clone();
    let damage = |id: i64, amount: i32, encounter: Option<i64>| ApplyDamageParams {
        character_id: id,
        amount,
        damage_type: None,
        source: None,
        encounter_id: encounter,
    };
    assert_eq!(apply_damage(&mut c, damage(k, -1, None)), Err(Error::NegativeDamage));
    assert_eq!(apply_damage(&mut c, damage(9, 1, None)), Err(Error::CharacterNotFound { id: 9 }));
    assert_eq!(apply_damage(&mut c, damage(k, 1, Some(5))), Err(Error::EventRow));
    let heal = |id: i64, amount: i32| ApplyHealingParams { character_id: id, amount, source: None };
    assert_eq!(apply_healing(&mut c, heal(k, -1)), Err(Error::NegativeHealing));
    assert_eq!(apply_healing(&mut c, heal(9, 1)), Err(Error::CharacterNotFound { id: 9 }));
    assert_eq!(apply_healing(&mut c, heal(k, 1)), Err(Error::DeadCannotHeal { id: k }));
    assert_eq!(c, before);
}

#[test]
fn death_saves_count_to_three() {
    let mut c = Campaign::new();
    let k = char(&mut c, "P", "player", 10, 10);
    hit(&mut c, k, 10);
    let p = DeathSaveParams { character_id: k };
    assert_eq!(
        death_save_with(&mut c, &p, 10),
        Ok(DeathSaveResult {
            character_id: k,
            d20: 10,
            outcome: s("success"),
            successes: 1,
            failures: 0,
            status: s("unconscious"),
            event_id: 4,
        })
    );
    let r = death_save_with(&mut c, &p, 9).unwrap();
    assert_eq!((r.outcome.as_str(), r.successes, r.failures), ("fail", 1, 1));
    let r = death_save_with(&mut c, &p, 19).unwrap();
    assert_eq!((r.successes, r.failures), (2, 1));
    let r = death_save_with(&mut c, &p, 15).unwrap();
    assert_eq!((r.status.as_str(), r.successes, r.failures), ("alive", 0, 0));
    assert_eq!(c.characters[0].hp_current, 1);
    assert!(!c.conditions[0].active);
}

#[test]
fn a_one_counts_twice_and_a_twenty_saves() {
    let mut c = Campaign::new();
    let k = char(&mut c, "P", "player", 10, 10);
    let p = DeathSaveParams { character_id: k };
    hit(&mut c, k, 10);
    let r = death_save_with(&mut c, &p, 1).unwrap();
    assert_eq!((r.outcome.as_str(), r.failures, r.status.as_str()), ("critical_fail", 2, "unconscious"));
    let r = death_save_with(&mut c, &p, 20).unwrap();
    assert_eq!((r.outcome.as_str(), r.failures, r.status.as_str()), ("auto_stabilise", 0, "alive"));
    hit(&mut c, k, 1);
    death_save_with(&mut c, &p, 2).unwrap();
    let r = death_save_with(&mut c, &p, 1).unwrap();
    assert_eq!((r.failures, r.status.as_str()), (3, "dead"));
    assert_eq!(
        c.events.last().unwrap().summary,
        "Character id=1 rolled 1 on death save → critical_fail (died) (0 successes / 3 failures)"
    );
    assert_eq!(SaveOutcome::Fail.as_str(), "fail");
}

#[test]
fn only_the_unconscious_make_death_saves() {
    let mut c = Campaign::new();
    let k = char(&mut c, "P", "player", 10, 10);
    assert_eq!(
        roll_death_save(&mut c, DeathSaveParams { character_id: k }),
        Err(Error::NotUnconscious { id: k, status: Status::Alive })
    );
    assert_eq!(
        roll_death_save(&mut c, DeathSaveParams { character_id: 3 }),
        Err(Error::CharacterNotFound { id: 3 })
    );
}

#[test]
fn death_events_come_by_weight() {
    let mut c = Campaign::new();
    let k = char(&mut c, "P", "player", 10, 10);
    c.characters[0].status = Status::Dead;
    let content = with_deaths();
    assert_eq!(sum_death_weights(&content), Some(6));
    let p = DeathEventParams { character_id: k };
    let mut kinds: Vec<String> = Vec::new();
    for roll in 1..=6 {
        let mut copy = c.clone();
        kinds.push(death_event_with(&mut copy, &content, &p, roll).unwrap().rolled.kind);
    }
    assert_eq!(kinds, vec!["mourned", "mourned", "mourned", "forgotten", "haunting", "haunting"]);
}

#[test]
fn death_events_are_for_the_dead() {
    let mut c = Campaign::new();
    let k = char(&mut c, "P", "player", 10, 10);
    let p = DeathEventParams { character_id: k };
    assert_eq!(
        roll_death_event(&mut c, &with_deaths(), p.clone()),
        Err(Error::NotDead { id: k, status: Status::Alive })
    );
    c.characters[0].status = Status::Dead;
    assert_eq!(roll_death_event(&mut c, &content(), p), Err(Error::NoDeathEvents));
    assert_eq!(
        roll_death_event(&mut c, &with_deaths(), DeathEventParams { character_id: 2 }),
        Err(Error::CharacterNotFound { id: 2 })
    );
}

#[test]
fn initiative_runs_downwards() {
    let mut c = Campaign::new();
    let a = char(&mut c, "A", "player", 10, 10);
    let b = char(&mut c, "B", "player", 10, 10);
    let e = char(&mut c, "E", "enemy", 10, 10);
    let eid = simple_encounter(&mut c, &[a, b], &[e]);
    let r = start_with(&mut c, &StartParams { encounter_id: eid }, &vec![5, 18, 11]).unwrap();
    let order: Vec<(i64, i32)> = r.initiative_order.iter().map(|x| (x.character_id, x.initiative)).collect();
    assert_eq!(order, vec![(b, 19), (e, 12), (a, 6)]);
    assert_eq!(r.initiative_order[1].side, "hostile");
    assert_eq!((r.current_round, r.auto_ended_encounter_id), (1, None));
    let who: Vec<i64> = (0..4)
        .map(|_| next_turn(&mut c, NextTurnParams { encounter_id: eid }).unwrap().current_character_id)
        .collect();
    assert_eq!(who, vec![e, a, b, e]);
    assert_eq!(c.encounters[0].current_round, Some(2));
}

#[test]
fn combat_begins_and_ends() {
    let mut c = Campaign::new();
    let a = char(&mut c, "A", "player", 10, 10);
    let eid = simple_encounter(&mut c, &[a], &[]);
    start(&mut c, StartParams { encounter_id: eid }).unwrap();
    assert_eq!(
        start(&mut c, StartParams { encounter_id: eid }),
        Err(Error::AlreadyInCombat { id: eid })
    );
    let n = c.events.len() as i64;
    assert_eq!(
        end(&mut c, EndParams { encounter_id: eid, reason: Some(s("truce")) }),
        Ok(EndResult { encounter_id: eid, event_id: n + 1 })
    );
    assert_eq!(c.events.last().unwrap().summary, "Combat on encounter id=1 ended (truce)");
    assert!(c.encounter_participants.iter().all(|p| p.initiative.is_none() && !p.has_acted_this_round));
    assert_eq!(
        end(&mut c, EndParams { encounter_id: eid, reason: None }),
        Err(Error::NotInCombat { id: eid })
    );
    assert_eq!(
        next_turn(&mut c, NextTurnParams { encounter_id: eid }),
        Err(Error::NotInCombat { id: eid })
    );
}

#[test]
fn combat_needs_an_active_encounter() {
    let mut c = Campaign::new();
    let eid = simple_encounter(&mut c, &[], &[]);
    assert_eq!(start(&mut c, StartParams { encounter_id: 7 }), Err(Error::EncounterNotFound { id: 7 }));
    assert_eq!(end(&mut c, EndParams { encounter_id: 7, reason: None }), Err(Error::EncounterNotFound { id: 7 }));
    assert_eq!(
        next_turn(&mut c, NextTurnParams { encounter_id: 7 }),
        Err(Error::EncounterNotFound { id: 7 })
    );
    start(&mut c, StartParams { encounter_id: eid }).unwrap();
    assert_eq!(
        next_turn(&mut c, NextTurnParams { encounter_id: eid }),
        Err(Error::NoParticipants { id: eid })
    );
    end(&mut c, EndParams { encounter_id: eid, reason: None }).unwrap();
    enc::abandon(&mut c, enc::AbandonParams { encounter_id: eid, reason: s("bored") }).unwrap();
    assert_eq!(
        start(&mut c, StartParams { encounter_id: eid }),
        Err(Error::CannotStartCombat { id: eid, status: EncounterStatus::Abandoned })
    );
}

#[test]
fn conditions_last_their_rounds_too() {
    let mut c = Campaign::new();
    let a = char(&mut c, "A", "player", 10, 10);
    let outsider = char(&mut c, "B", "player", 10, 10);
    let eid = simple_encounter(&mut c, &[a], &[]);
    start(&mut c, StartParams { encounter_id: eid }).unwrap();
    for id in [a, outsider] {
        conditions::apply(
            &mut c,
            ApplyConditionParams {
                character_id: id,
                condition: s("prone"),
                severity: 1,
                source_event_id: None,
                expires_at_hour: None,
                expires_after_rounds: Some(1),
                remove_on_save: None,
            },
        )
        .unwrap();
    }
    let r = next_turn(&mut c, NextTurnParams { encounter_id: eid }).unwrap();
    assert!(r.wrapped_to_new_round);
    assert_eq!(r.expired_condition_ids, vec![1]);
    assert!(!c.conditions[0].active);
    assert!(c.conditions[1].active, "who is not in the fight keeps the condition");
}

#[test]
fn an_effect_of_many_rounds_counts_down() {
    let mut c = Campaign::new();
    let a = char(&mut c, "A", "player", 10, 10);
    let eid = simple_encounter(&mut c, &[a], &[]);
    start(&mut c, StartParams { encounter_id: eid }).unwrap();
    bless(&mut c, a, 5);
    for left in [4, 3, 2, 1] {
        turn(&mut c, eid);
        assert_eq!(c.effects[0].expires_after_rounds, Some(left));
    }
    turn(&mut c, eid);
    assert!(!c.effects[0].active);
}

#[test]
fn at_most_one_encounter_is_in_combat() {
    let mut c = Campaign::new();
    let a = char(&mut c, "A", "player", 10, 10);
    let ids: Vec<i64> = (0..3).map(|_| simple_encounter(&mut c, &[a], &[])).collect();
    for id in ids {
        start(&mut c, StartParams { encounter_id: id }).unwrap();
        assert_eq!(c.encounters.iter().filter(|e| e.in_combat).count(), 1);
    }
    assert!(c.check());
}

#[test]
fn turns_go_round_in_order() {
    let mut c = Campaign::new();
    let a = char(&mut c, "A", "player", 10, 10);
    let b = char(&mut c, "B", "player", 10, 10);
    let e = char(&mut c, "E", "enemy", 10, 10);
    let eid = simple_encounter(&mut c, &[a, b], &[e]);
    let order: Vec<i64> = start_with(&mut c, &StartParams { encounter_id: eid }, &vec![5, 18, 11])
        .unwrap()
        .initiative_order
        .iter()
        .map(|x| x.character_id)
        .collect();
    for k in 1..10usize {
        let r = next_turn(&mut c, NextTurnParams { encounter_id: eid }).unwrap();
        assert_eq!(r.current_character_id, order[k % 3]);
        assert_eq!(r.current_round as usize, 1 + k / 3);
        assert_eq!(r.wrapped_to_new_round, k % 3 == 0);
    }
}
