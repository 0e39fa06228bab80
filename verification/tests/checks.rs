use dm_mcp::campaign::Campaign;
use dm_mcp::characters::{create, CreateParams};
use dm_mcp::checks::{
    ability_modifier, check_sums_fit, parse_kind, posture_label, resolve, resolve_with, AbilityId, BreakdownEntry,
    CheckRolls, DieRoll, NamedModifier, Posture, ResolveCheckParams,
};
use dm_mcp::conditions::{self, ApplyConditionParams};
use dm_mcp::content::{
    Ability, BaseItem, CheckKind, ConditionRule, Content, DamageType, Encumbrance, Rider, RollModifier, Skill,
};
use dm_mcp::effects::{self, ApplyParams as EffectApplyParams};
use dm_mcp::error::{Error, Fault};
use dm_mcp::proficiencies::{set_proficiency, SetProficiencyParams};
use dm_mcp::rows::{Cell, EventParticipant, EventRole, Leaf, Value};

fn s(text: &str) -> String {
    text.to_string()
}

fn base(id: &str, pounds: i64, gold: i64, stackable: bool) -> BaseItem {
    BaseItem { id: s(id), weight_lb: pounds * 1000, base_value_gp: gold * 1000, stackable }
}

fn ability(id: &str, name: &str) -> Ability {
    Ability { id: s(id), name: s(name), governs: s("") }
}

fn skill(id: &str, ability: &str) -> Skill {
    Skill { id: s(id), ability: s(ability), description: s("") }
}

fn content() -> Content {
    Content {
        abilities: vec![
            ability("str", "Strength"),
            ability("dex", "Dexterity"),
            ability("con", "Constitution"),
            ability("int", "Intelligence"),
            ability("wis", "Wisdom"),
            ability("cha", "Charisma"),
        ],
        skills: vec![skill("athletics", "str"), skill("stealth", "dex"), skill("persuasion", "cha")],
        damage_types: vec![DamageType { id: s("fire"), physical: false, description: s("burns") }],
        conditions: vec![
            ConditionRule {
                id: s("blinded"),
                riders: vec![Rider { kind: CheckKind::AttackRoll, modifier: RollModifier::Disadvantage }],
                auto_fail: vec![s("sight")],
            },
            ConditionRule {
                id: s("invisible"),
                riders: vec![Rider { kind: CheckKind::AttackRoll, modifier: RollModifier::Advantage }],
                auto_fail: vec![],
            },
            ConditionRule {
                id: s("paralyzed"),
                riders: vec![Rider { kind: CheckKind::SavingThrow, modifier: RollModifier::AutoFail }],
                auto_fail: vec![],
            },
        ],
        biomes: vec![s("temperate_forest")],
        weapons: vec![s("longsword")],
        enchantments: vec![s("flaming")],
        archetypes: vec![],
        item_bases: vec![
            base("gold", 0, 1, true),
            base("heavy_crate", 100, 5, false),
            base("stone", 10, 0, true),
            base("backpack", 5, 2, false),
            base("longsword", 3, 15, false),
        ],
        encumbrance: Encumbrance {
            capacity_per_str: 15,
            encumbered_threshold_pct: 67,
            overloaded_threshold_pct: 100,
        },
        death_events: vec![],
        setup_questions: vec![],
        name_pools: vec![],
    }
}

fn person(name: &str, role: &str) -> CreateParams {
    CreateParams {
        name: name.to_string(),
        role: role.to_string(),
        str_score: 10,
        dex_score: 10,
        con_score: 10,
        int_score: 10,
        wis_score: 10,
        cha_score: 10,
        hp_max: None,
        hp_current: None,
        armor_class: None,
        speed_ft: None,
        initiative_bonus: None,
        size: None,
        species: None,
        class_or_archetype: None,
        ideology: None,
        backstory: None,
        plans: None,
        loyalty: None,
        party_id: None,
        current_zone_id: None,
    }
}

fn make_char(c: &mut Campaign, str_score: i32) -> i64 {
    let mut p = person("K", "player");
    p.str_score = str_score;
    p.cha_score = 14;
    create(c, p).unwrap().character_id
}

fn query(character_id: i64, kind: &str, key: &str) -> ResolveCheckParams {
    ResolveCheckParams {
        character_id,
        kind: s(kind),
        target_key: s(key),
        ability: None,
        target_character_id: None,
        dc: None,
        modifiers: vec![],
        advantage: None,
        disadvantage: None,
    }
}

fn suffer(c: &mut Campaign, character_id: i64, condition: &str) {
    conditions::apply(
        c,
        ApplyConditionParams {
            character_id,
            condition: s(condition),
            severity: 1,
            source_event_id: None,
            expires_at_hour: None,
            expires_after_rounds: None,
            remove_on_save: None,
        },
    )
    .unwrap();
}

fn enchant(c: &mut Campaign, character_id: i64, kind: &str, key: &str, modifier: i32, dice: Option<&str>) {
    effects::apply(
        c,
        EffectApplyParams {
            target_character_id: character_id,
            source: s("spell:bless"),
            target_kind: s(kind),
            target_key: s(key),
            modifier,
            dice_expr: dice.map(s),
            expires_at_hour: None,
            expires_after_rounds: None,
            expires_on_dispel: None,
        },
    )
    .unwrap();
}

fn train(c: &mut Campaign, character_id: i64, name: &str, expertise: bool, ranks: i32) {
    set_proficiency(
        c,
        SetProficiencyParams {
            character_id,
            name: s(name),
            proficient: Some(true),
            expertise: Some(expertise),
            ranks: Some(ranks),
        },
    )
    .unwrap();
}

fn rolled(d20s: Vec<i64>) -> CheckRolls {
    CheckRolls { d20s, dice: vec![] }
}

fn refused(p: ResolveCheckParams) -> Error {
    let mut c = Campaign::new();
    make_char(&mut c, 10);
    let before = c.clone();
    let e = resolve(&mut c, &content(), p).expect_err("refused");
    assert_eq!(c, before);
    e
}

#[test]
fn ability_modifier_rules() {
    assert_eq!(ability_modifier(10), 0);
    assert_eq!(ability_modifier(11), 0);
    assert_eq!(ability_modifier(12), 1);
    assert_eq!(ability_modifier(13), 1);
    assert_eq!(ability_modifier(14), 2);
    assert_eq!(ability_modifier(18), 4);
    assert_eq!(ability_modifier(9), -1);
    assert_eq!(ability_modifier(8), -1);
    assert_eq!(ability_modifier(7), -2);
}

#[test]
fn skill_check_uses_content_ability_mapping() {
    let mut c = Campaign::new();
    let k = make_char(&mut c, 10);
    let result = resolve(&mut c, &content(), query(k, "skill_check", "persuasion")).unwrap();
    assert_eq!(result.ability, "cha");
    assert!((3..=22).contains(&result.total));
    assert_eq!(result.d20s.len(), 1);
}

#[test]
fn proficiency_adds_prof_bonus() {
    let mut c = Campaign::new();
    let k = make_char(&mut c, 10);
    set_proficiency(
        &mut c,
        SetProficiencyParams {
            character_id: k,
            name: "persuasion".into(),
            proficient: Some(true),
            expertise: None,
            ranks: None,
        },
    )
    .unwrap();
    let result = resolve(&mut c, &content(), query(k, "skill_check", "persuasion")).unwrap();
    assert!(
        result.total >= 5 && result.total <= 24,
        "total {} out of expected [5, 24]; breakdown {:?}",
        result.total,
        result.breakdown
    );
}

#[test]
fn bless_on_persuasion_adds_a_rolled_die() {
    let mut c = Campaign::new();
    let k = make_char(&mut c, 10);
    enchant(&mut c, k, "skill", "persuasion", 0, Some("1d4"));
    let result = resolve(&mut c, &content(), query(k, "skill_check", "persuasion")).unwrap();
    assert_eq!(
        result.effect_dice.len(),
        1,
        "Bless should contribute one rolled die; got {:?}",
        result.effect_dice
    );
    let bless_roll = result.effect_dice[0].value;
    assert!((1..=4).contains(&bless_roll), "bless die {bless_roll} out of 1..=4");
}

#[test]
fn blinded_gives_disadvantage_on_attack_rolls() {
    let mut c = Campaign::new();
    let k = make_char(&mut c, 14);
    suffer(&mut c, k, "blinded");
    let mut p = query(k, "attack_roll", "attack");
    p.ability = Some("str".into());
    let result = resolve(&mut c, &content(), p).unwrap();
    assert_eq!(result.posture, Posture::Disadvantage);
    assert_eq!(result.d20s.len(), 2, "disadvantage rolls 2d20");
    let kept = result.d20_used;
    let min_of = *result.d20s.iter().min().unwrap();
    assert_eq!(kept, min_of, "disadvantage keeps the lower d20");
}

#[test]
fn advantage_and_disadvantage_cancel_to_normal() {
    let mut c = Campaign::new();
    let k = make_char(&mut c, 10);
    suffer(&mut c, k, "blinded");
    let mut p = query(k, "attack_roll", "attack");
    p.advantage = Some(true);
    let result = resolve(&mut c, &content(), p).unwrap();
    assert_eq!(result.posture, Posture::Normal, "adv + dis cancel");
    assert_eq!(result.d20s.len(), 1);
}

#[test]
fn caller_modifier_lands_in_breakdown_and_event() {
    let mut c = Campaign::new();
    let k = make_char(&mut c, 10);
    let mut p = query(k, "skill_check", "persuasion");
    p.dc = Some(15);
    p.modifiers = vec![NamedModifier {
        kind: "ideology_alignment".into(),
        value: -6,
        reason: Some("very_misaligned with request".into()),
    }];
    let result = resolve(&mut c, &content(), p).unwrap();
    let found = result
        .breakdown
        .iter()
        .find(|e| e.kind == "ideology_alignment")
        .expect("ideology_alignment should be in breakdown");
    assert_eq!(found.value, -6);
    assert_eq!(found.reason.as_deref(), Some("very_misaligned with request"));

    let event = c.events.iter().find(|e| e.id == result.event_id).unwrap();
    let field = event.payload.iter().find(|f| f.name == "modifiers").unwrap();
    assert_eq!(
        field.value,
        Value::Records(vec![vec![
            Cell { name: s("kind"), value: Leaf::Text(s("ideology_alignment")) },
            Cell { name: s("value"), value: Leaf::Int(-6) },
            Cell { name: s("reason"), value: Leaf::Text(s("very_misaligned with request")) },
        ]])
    );
}

#[test]
fn saving_throw_derives_ability_from_key() {
    let mut c = Campaign::new();
    let k = make_char(&mut c, 10);
    let result = resolve(&mut c, &content(), query(k, "save", "save:cha")).unwrap();
    assert_eq!(result.ability, "cha");
}

#[test]
fn everything_adds_up() {
    let mut c = Campaign::new();
    let k = make_char(&mut c, 10);
    train(&mut c, k, "persuasion", true, 3);
    enchant(&mut c, k, "ability", "cha_score", 4, None);
    enchant(&mut c, k, "skill", "persuasion", -1, None);
    enchant(&mut c, k, "skill", "persuasion", 0, Some("2d4"));
    let mut p = query(k, "skill_check", "persuasion");
    p.dc = Some(20);
    p.modifiers = vec![NamedModifier { kind: s("mood"), value: 2, reason: None }];
    let rolls = CheckRolls { d20s: vec![11], dice: vec![vec![4, 1]] };
    let r = resolve_with(&mut c, &content(), &p, &rolls).unwrap();
    // 11 rolled, 18 charisma for 4, twice the bonus of 2 and 3 ranks for 7, -1, 5 on dice, 2.
    assert_eq!(r.total, 11 + 4 + 7 - 1 + 5 + 2);
    assert_eq!(r.success, Some(true));
    assert_eq!(r.effect_dice, vec![DieRoll { spec: s("spell:bless/2d4"), value: 5 }]);
    assert!(r.breakdown.contains(&BreakdownEntry { kind: s("mood"), value: 2, reason: None }));
    assert!(r.breakdown.contains(&BreakdownEntry { kind: s("effect:spell:bless"), value: -1, reason: None }));
    assert_eq!(r.breakdown.iter().find(|e| e.kind == "proficiency").unwrap().value, 7);
    assert_eq!(r.breakdown.iter().find(|e| e.kind == "ability:cha").unwrap().value, 4);
    assert!(!r.crit && !r.fumble && !r.auto_fail);
}

#[test]
fn meeting_the_difficulty_is_enough() {
    let mut c = Campaign::new();
    let k = make_char(&mut c, 10);
    let mut p = query(k, "ability_check", "str");
    p.dc = Some(12);
    assert_eq!(resolve_with(&mut c, &content(), &p, &rolled(vec![12])).unwrap().success, Some(true));
    assert_eq!(resolve_with(&mut c, &content(), &p, &rolled(vec![11])).unwrap().success, Some(false));
    p.dc = None;
    assert_eq!(resolve_with(&mut c, &content(), &p, &rolled(vec![20])).unwrap().success, None);
}

#[test]
fn posture_picks_the_die() {
    let mut c = Campaign::new();
    let k = make_char(&mut c, 10);
    let mut p = query(k, "ability_check", "str");
    p.advantage = Some(true);
    let r = resolve_with(&mut c, &content(), &p, &rolled(vec![7, 15])).unwrap();
    assert_eq!((r.posture, r.d20_used), (Posture::Advantage, 15));
    p.advantage = None;
    p.disadvantage = Some(true);
    let r = resolve_with(&mut c, &content(), &p, &rolled(vec![7, 15])).unwrap();
    assert_eq!((r.posture, r.d20_used), (Posture::Disadvantage, 7));
    assert_eq!(posture_label(Posture::Disadvantage), "disadvantage");
    assert_eq!(posture_label(Posture::Normal), "normal");
}

#[test]
fn what_is_left_over_decides() {
    let mut c = Campaign::new();
    let k = make_char(&mut c, 10);
    suffer(&mut c, k, "blinded");
    let mut p = query(k, "attack_roll", "attack");
    p.advantage = Some(true);
    p.disadvantage = Some(true);
    let r = resolve_with(&mut c, &content(), &p, &rolled(vec![14, 9])).unwrap();
    assert_eq!((r.posture, r.d20s.len(), r.d20_used), (Posture::Disadvantage, 2, 9));
    suffer(&mut c, k, "blinded");
    p.disadvantage = None;
    let r = resolve_with(&mut c, &content(), &p, &rolled(vec![14, 9])).unwrap();
    assert_eq!(r.posture, Posture::Disadvantage, "two against one");
}

#[test]
fn effects_that_cancel_are_listed_too() {
    let mut c = Campaign::new();
    let k = make_char(&mut c, 10);
    enchant(&mut c, k, "skill", "persuasion", 2, None);
    enchant(&mut c, k, "skill", "persuasion", -2, None);
    c.effects[0].source = s("a");
    c.effects[1].source = s("b");
    let p = query(k, "skill_check", "persuasion");
    let r = resolve_with(&mut c, &content(), &p, &rolled(vec![10])).unwrap();
    assert!(r.breakdown.contains(&BreakdownEntry { kind: s("effect:a"), value: 2, reason: None }));
    assert!(r.breakdown.contains(&BreakdownEntry { kind: s("effect:b"), value: -2, reason: None }));
}

#[test]
fn only_attacks_crit_and_fumble() {
    let mut c = Campaign::new();
    let k = make_char(&mut c, 10);
    let p = query(k, "attack", "sword");
    let r = resolve_with(&mut c, &content(), &p, &rolled(vec![20])).unwrap();
    assert!(r.crit && !r.fumble);
    let r = resolve_with(&mut c, &content(), &p, &rolled(vec![1])).unwrap();
    assert!(r.fumble && !r.crit);
    let p = query(k, "ability_check", "dex");
    let r = resolve_with(&mut c, &content(), &p, &rolled(vec![20])).unwrap();
    assert!(!r.crit && !r.fumble);
}

#[test]
fn a_condition_can_make_a_check_fail() {
    let mut c = Campaign::new();
    let k = make_char(&mut c, 10);
    suffer(&mut c, k, "paralyzed");
    let mut p = query(k, "saving_throw", "save:dex");
    p.dc = Some(1);
    let r = resolve_with(&mut c, &content(), &p, &rolled(vec![20])).unwrap();
    assert!(r.auto_fail);
    assert_eq!(r.success, Some(false));
    suffer(&mut c, k, "blinded");
    let mut sight = query(k, "attack_roll", "sight");
    sight.advantage = Some(true);
    let r = resolve_with(&mut c, &content(), &sight, &rolled(vec![20])).unwrap();
    assert!(r.auto_fail);
    assert_eq!(r.success, Some(false));
}

#[test]
fn the_log_tells_of_the_check() {
    let mut c = Campaign::new();
    let k = make_char(&mut c, 10);
    let t = make_char(&mut c, 10);
    let mut p = query(k, "skill_check", "persuasion");
    p.target_character_id = Some(t);
    p.dc = Some(15);
    let r = resolve_with(&mut c, &content(), &p, &rolled(vec![9])).unwrap();
    let event = c.events.last().unwrap();
    assert_eq!(event.id, r.event_id);
    assert_eq!(event.kind, "check.resolve");
    assert_eq!(
        event.summary,
        "skill_check persuasion by character id=1: rolled 9 (posture normal), total 11 vs DC Some(15) → failure"
    );
    assert_eq!(
        event.participants,
        vec![
            EventParticipant { character_id: k, role: EventRole::Actor },
            EventParticipant { character_id: t, role: EventRole::Target },
        ]
    );
    let names: Vec<&str> = event.payload.iter().map(|f| f.name.as_str()).collect();
    assert_eq!(
        names,
        vec![
            "character_id", "kind", "target_key", "target_character_id", "ability", "effective_ability_score",
            "ability_mod", "proficiency_contrib", "posture", "d20s", "d20_used", "effect_flat_sum", "effect_dice",
            "modifiers", "dc", "total", "success", "crit", "fumble", "auto_fail",
        ]
    );
    assert_eq!(event.payload[9].value, Value::Ints(vec![9]));
}

#[test]
fn checks_that_cannot_be_made() {
    assert_eq!(refused(query(9, "skill_check", "persuasion")), Error::ReadAbility { column: s("cha_score"), id: 9 });
    assert_eq!(refused(query(1, "dance", "x")), Error::UnknownCheckKind { kind: s("dance") });
    assert_eq!(refused(query(1, "skill_check", "juggling")), Error::UnknownSkill { key: s("juggling") });
    assert_eq!(refused(query(1, "save", "dex")), Error::SaveKeyForm { key: s("dex") });
    assert_eq!(refused(query(1, "save", "save:luck")), Error::SaveAbility { ability: s("luck") });
    assert_eq!(refused(query(1, "ability_check", "luck")), Error::AbilityCheckKey { key: s("luck") });
    let mut p = query(1, "skill_check", "persuasion");
    p.ability = Some(s("luck"));
    assert_eq!(refused(p), Error::UnknownAbilityOverride { ability: s("luck") });
    let mut p = query(1, "skill_check", "persuasion");
    p.target_character_id = Some(5);
    assert_eq!(
        refused(p),
        Error::EventParticipantRow { event_id: 2, character_id: 5, role: s("target"), fault: Fault::ForeignKey }
    );
}

#[test]
fn effect_dice_must_be_readable() {
    let mut c = Campaign::new();
    let k = make_char(&mut c, 10);
    enchant(&mut c, k, "skill", "persuasion", 0, Some("4d"));
    assert_eq!(
        resolve(&mut c, &content(), query(k, "skill_check", "persuasion")),
        Err(Error::EffectDice {
            expr: s("4d"),
            source: s("spell:bless"),
            cause: s("\"4d\": die sides \"\" is not a positive integer: cannot parse integer from empty string"),
        })
    );
}

#[test]
fn sums_may_not_fit() {
    let mut c = Campaign::new();
    let k = make_char(&mut c, 10);
    let p = query(k, "skill_check", "persuasion");
    enchant(&mut c, k, "skill", "persuasion", i32::MAX, None);
    assert!(check_sums_fit(&c, &content(), &p));
    enchant(&mut c, k, "skill", "persuasion", 1, None);
    assert!(!check_sums_fit(&c, &content(), &p));
}

#[test]
fn kinds_and_abilities_have_names() {
    assert_eq!(parse_kind("saving_throw"), Ok(CheckKind::SavingThrow));
    assert_eq!(parse_kind("attack"), Ok(CheckKind::AttackRoll));
    assert_eq!(parse_kind("ability_check"), Ok(CheckKind::AbilityCheck));
    assert_eq!(
        parse_kind("x").unwrap_err().message(),
        "unknown check kind \"x\"; expected one of skill_check, save, attack_roll, ability_check"
    );
    for id in ["str", "dex", "con", "int", "wis", "cha"] {
        assert_eq!(AbilityId::parse(id).unwrap().as_str(), id);
    }
    assert_eq!(AbilityId::parse("STR"), None);
}

#[test]
fn ended_conditions_leave_no_mark() {
    let mut c = Campaign::new();
    let k = make_char(&mut c, 10);
    suffer(&mut c, k, "invisible");
    c.conditions[0].active = false;
    let r = resolve_with(&mut c, &content(), &query(k, "attack", "bow"), &rolled(vec![5])).unwrap();
    assert_eq!(r.posture, Posture::Normal);
}
