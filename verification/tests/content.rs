use dm_mcp::content::{
    Ability, Archetype, BaseItem, CheckKind, ConditionRule, Content, DamageType, Encumbrance, Rider, RollModifier,
    Skill, SlotPool,
};
use dm_mcp::error::Error;

fn s(text: &str) -> String {
    text.to_string()
}

fn base(id: &str, pounds: i64, gold: i64, stackable: bool) -> BaseItem {
    BaseItem { id: s(id), weight_lb: pounds * 1000, base_value_gp: gold * 1000, stackable }
}

fn ability(id: &str, name: &str) -> Ability {
    Ability { id: s(id), name: s(name), governs: s("") }
}

fn skill(id: &str, ability: &str) -> Skill {
    Skill { id: s(id), ability: s(ability), description: s("") }
}

fn content() -> Content {
    Content {
        abilities: vec![
            ability("str", "Strength"),
            ability("dex", "Dexterity"),
            ability("con", "Constitution"),
            ability("int", "Intelligence"),
            ability("wis", "Wisdom"),
            ability("cha", "Charisma"),
        ],
        skills: vec![skill("athletics", "str"), skill("stealth", "dex"), skill("persuasion", "cha")],
        damage_types: vec![DamageType { id: s("fire"), physical: false, description: s("burns") }],
        conditions: vec![
            ConditionRule {
                id: s("blinded"),
                riders: vec![Rider { kind: CheckKind::AttackRoll, modifier: RollModifier::Disadvantage }],
                auto_fail: vec![s("sight")],
            },
            ConditionRule {
                id: s("invisible"),
                riders: vec![Rider { kind: CheckKind::AttackRoll, modifier: RollModifier::Advantage }],
                auto_fail: vec![],
            },
            ConditionRule {
                id: s("paralyzed"),
                riders: vec![Rider { kind: CheckKind::SavingThrow, modifier: RollModifier::AutoFail }],
                auto_fail: vec![],
            },
        ],
        biomes: vec![s("temperate_forest")],
        weapons: vec![s("longsword")],
        enchantments: vec![s("flaming")],
        archetypes: vec![],
        item_bases: vec![
            base("gold", 0, 1, true),
            base("heavy_crate", 100, 5, false),
            base("stone", 10, 0, true),
            base("backpack", 5, 2, false),
            base("longsword", 3, 15, false),
        ],
        encumbrance: Encumbrance {
            capacity_per_str: 15,
            encumbered_threshold_pct: 67,
            overloaded_threshold_pct: 100,
        },
        death_events: vec![],
        setup_questions: vec![],
        name_pools: vec![],
    }
}

fn archetype(id: &str, hooks: Vec<&str>) -> Archetype {
    Archetype {
        id: s(id),
        species: s("human"),
        role_hint: s("friendly"),
        stats: vec![],
        hp_formula: None,
        ac_base: None,
        speed_ft: None,
        ideology_pool: vec![],
        plan_pool: vec![],
        backstory_hooks: hooks.into_iter().map(s).collect(),
        loadout: vec![],
        proficiencies: vec![],
        slot_pools: vec![SlotPool { slot: s("place"), values: vec![s("the mill")] }],
    }
}

#[test]
fn introspection_returns_every_section() {
    let mut c = content();
    c.damage_types.push(DamageType { id: s("necrotic"), physical: false, description: s("") });
    c.enchantments.push(s("glowing"));
    c.archetypes.push(archetype("village_elder", vec![]));
    let i = c.introspect();
    assert!(i.abilities.contains(&"str".to_string()));
    assert!(i.skills.contains(&"stealth".to_string()));
    assert!(i.damage_types.contains(&"necrotic".to_string()));
    assert!(i.conditions.contains(&"paralyzed".to_string()));
    assert!(i.weapons.contains(&"longsword".to_string()));
    assert!(i.enchantments.contains(&"glowing".to_string()));
    assert!(i.biomes.contains(&"temperate_forest".to_string()));
    assert!(i.archetypes.contains(&"village_elder".to_string()));
}

#[test]
fn validate_rejects_skill_with_unknown_ability() {
    let mut c = content();
    c.abilities = vec![Ability { id: "str".into(), name: "Strength".into(), governs: "...".into() }];
    c.skills = vec![Skill { id: "bogus".into(), ability: "xyz".into(), description: "...".into() }];
    let err = c.validate().expect_err("should reject unknown ability");
    let msg = err.message();
    assert!(msg.contains("unknown ability"), "error should name the broken invariant: {msg}");
    assert_eq!(err, Error::SkillAbility { skill: s("bogus"), ability: s("xyz"), valid: s("{\"str\"}") });
    assert_eq!(msg, "skill \"bogus\" references unknown ability \"xyz\"; valid abilities: {\"str\"}");
    c.abilities.push(Ability { id: "dex".into(), name: "Dexterity".into(), governs: "...".into() });
    c.abilities.push(c.abilities[0].clone());
    assert!(c.validate().unwrap_err().message().ends_with("; valid abilities: {\"str\", \"dex\"}"));
}

#[test]
fn sound_content_is_valid() {
    let mut c = content();
    c.archetypes.push(archetype("elder", vec!["Left ${place} ${years_ago} years ago.", "An ${open end"]));
    assert_eq!(c.validate(), Ok(()));
    assert!(c.check_measures());
}

#[test]
fn gaps_need_something_to_fill_them() {
    let mut c = content();
    c.archetypes.push(archetype("elder", vec!["Fine.", "Lost to ${enemy}."]));
    assert_eq!(c.validate(), Err(Error::SlotWithoutPool { archetype: s("elder"), slot: s("enemy") }));
    c.archetypes[0].slot_pools.push(SlotPool { slot: s("enemy"), values: vec![] });
    assert_eq!(c.validate(), Err(Error::SlotWithoutPool { archetype: s("elder"), slot: s("enemy") }));
    c.archetypes[0].slot_pools[1].values.push(s("wolves"));
    assert_eq!(c.validate(), Ok(()));
}

#[test]
fn entries_are_found_by_their_ids() {
    let c = content();
    assert_eq!(c.find_skill("persuasion"), Some(2));
    assert_eq!(c.find_skill("juggling"), None);
    assert_eq!(c.find_base("stone"), Some(2));
    assert_eq!(c.find_base("unicorn"), None);
    assert_eq!(c.self_rider_for("blinded", CheckKind::AttackRoll), Some(RollModifier::Disadvantage));
    assert_eq!(c.self_rider_for("blinded", CheckKind::SkillCheck), None);
    assert_eq!(c.self_rider_for("bored", CheckKind::SkillCheck), None);
    assert!(c.condition_auto_fails("blinded", "sight"));
    assert!(!c.condition_auto_fails("blinded", "hearing"));
}

#[test]
fn measures_have_bounds() {
    let mut c = content();
    c.item_bases[0].weight_lb = -1;
    assert!(c.check_measures());
    c.item_bases[0].weight_lb = i64::MAX;
    assert!(!c.check_measures());
    c.item_bases[0].weight_lb = 0;
    c.item_bases[0].base_value_gp = i64::MIN;
    assert!(!c.check_measures());
}
