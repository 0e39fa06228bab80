use dm_mcp::campaign::Campaign;
use dm_mcp::content::{
    Ability, Archetype, ArchetypeLoadoutEntry, ArchetypeProficiency, BaseItem, CheckKind, ConditionRule, Content,
    DamageType, Encumbrance, NamePool, Rider, RollModifier, Skill, SlotPool, StatRange,
};
use dm_mcp::dice::DiceSpec;
use dm_mcp::error::Error;
use dm_mcp::hit_points::{check_most, eval_hp_formula, eval_hp_formula_with, eval_terms, read_formula, HpTerm};
use dm_mcp::npcs::{
    check_archetype, default_hp_for_role, generate, generate_with, pick_name, pick_one, GenerateParams, LoadoutRoll,
    NpcRolls, RolledStats,
};
use dm_mcp::recall::{recall, RecallParams, RecalledEvent};
use dm_mcp::rows::{Event, EventItem, EventParticipant, EventRole, Place, Zone, ZoneKind, ZoneSize};
use dm_mcp::templates::substitute_with;
use dm_mcp::text::NumberFault;
use dm_mcp::world::current_campaign_hour;

fn s(text: &str) -> String {
    text.to_string()
}

fn base(id: &str, pounds: i64, gold: i64, stackable: bool) -> BaseItem {
    BaseItem { id: s(id), weight_lb: pounds * 1000, base_value_gp: gold * 1000, stackable }
}

fn ability(id: &str, name: &str) -> Ability {
    Ability { id: s(id), name: s(name), governs: s("") }
}

fn skill(id: &str, ability: &str) -> Skill {
    Skill { id: s(id), ability: s(ability), description: s("") }
}

fn content() -> Content {
    Content {
        abilities: vec![
            ability("str", "Strength"),
            ability("dex", "Dexterity"),
            ability("con", "Constitution"),
            ability("int", "Intelligence"),
            ability("wis", "Wisdom"),
            ability("cha", "Charisma"),
        ],
        skills: vec![skill("athletics", "str"), skill("stealth", "dex"), skill("persuasion", "cha")],
        damage_types: vec![DamageType { id: s("fire"), physical: false, description: s("burns") }],
        conditions: vec![
            ConditionRule {
                id: s("blinded"),
                riders: vec![Rider { kind: CheckKind::AttackRoll, modifier: RollModifier::Disadvantage }],
                auto_fail: vec![s("sight")],
            },
            ConditionRule {
                id: s("invisible"),
                riders: vec![Rider { kind: CheckKind::AttackRoll, modifier: RollModifier::Advantage }],
                auto_fail: vec![],
            },
            ConditionRule {
                id: s("paralyzed"),
                riders: vec![Rider { kind: CheckKind::SavingThrow, modifier: RollModifier::AutoFail }],
                auto_fail: vec![],
            },
        ],
        biomes: vec![s("temperate_forest")],
        weapons: vec![s("longsword")],
        enchantments: vec![s("flaming")],
        archetypes: vec![],
        item_bases: vec![
            base("gold", 0, 1, true),
            base("heavy_crate", 100, 5, false),
            base("stone", 10, 0, true),
            base("backpack", 5, 2, false),
            base("longsword", 3, 15, false),
        ],
        encumbrance: Encumbrance {
            capacity_per_str: 15,
            encumbered_threshold_pct: 67,
            overloaded_threshold_pct: 100,
        },
        death_events: vec![],
        setup_questions: vec![],
        name_pools: vec![],
    }
}

fn range(ability: &str, low: i32, high: i32) -> StatRange {
    StatRange { ability: s(ability), low, high }
}

fn trained(name: &str) -> ArchetypeProficiency {
    ArchetypeProficiency { name: s(name), proficient: true, expertise: false, ranks: 1 }
}

fn gear(kind: &str, chance: i64, dice: Option<&str>, equip: Option<&str>) -> ArchetypeLoadoutEntry {
    ArchetypeLoadoutEntry {
        base_kind: s(kind),
        material: None,
        material_tier: None,
        chance,
        quantity_dice: dice.map(s),
        equip: equip.map(s),
    }
}

fn orc_raider() -> Archetype {
    Archetype {
        id: s("orc_raider"),
        species: s("orc"),
        role_hint: s("enemy"),
        stats: vec![range("str", 14, 18), range("dex", 10, 14), range("con", 14, 18)],
        hp_formula: Some(s("2d8 + con_mod*2")),
        ac_base: Some(13),
        speed_ft: None,
        ideology_pool: vec![s("might"), s("clan")],
        plan_pool: vec![],
        backstory_hooks: vec![
            s("Burned ${place} ${years_ago} years ago."),
            s("Lost a duel."),
            s("Owes a debt."),
            s("Fled ${place}."),
        ],
        loadout: vec![
            gear("longsword", 1_000_000, None, Some("main_hand")),
            gear("gold", 500_000, Some("2d6"), None),
        ],
        proficiencies: vec![trained("athletics"), trained("intimidation"), trained("survival")],
        slot_pools: vec![SlotPool { slot: s("place"), values: vec![s("the mill"), s("the ford")] }],
    }
}

fn fresh() -> (Campaign, Content) {
    let mut k = content();
    let mut elder = orc_raider();
    elder.id = s("village_elder");
    elder.species = s("human");
    elder.role_hint = s("friendly");
    elder.hp_formula = None;
    k.archetypes = vec![orc_raider(), elder];
    k.name_pools = vec![
        NamePool { species: s("orc"), first: vec![s("Grash"), s("Urzog")], last: vec![] },
        NamePool { species: s("human"), first: vec![s("Mira")], last: vec![s("Ashdown"), s("Vale")] },
    ];
    (Campaign::new(), k)
}

fn wish(archetype: &str) -> GenerateParams {
    GenerateParams { archetype: s(archetype), zone_id: None, role_override: None }
}

fn rolls() -> NpcRolls {
    NpcRolls {
        scores: RolledStats {
            str_score: 16,
            dex_score: 12,
            con_score: 14,
            int_score: 10,
            wis_score: 10,
            cha_score: 10,
        },
        hp: vec![vec![8, 3], vec![]],
        first_name: 1,
        last_name: 0,
        ideology: 1,
        plans: 0,
        hooks: 3,
        hook_order: vec![3, 2, 1],
        hook_hours: vec![-900, -5, -1000],
        slots: vec![vec![1, 12], vec![], vec![]],
        loadout: vec![
            LoadoutRoll { chance: 999_999, quantity: vec![] },
            LoadoutRoll { chance: 499_999, quantity: vec![4, 5] },
        ],
    }
}

fn question(character_id: i64) -> RecallParams {
    RecallParams {
        character_id,
        zone_id: None,
        other_character_id: None,
        other_item_id: None,
        kind_prefix: None,
        since_hour: None,
        limit: None,
    }
}

#[test]
fn generate_orc_raider_rolls_in_ranges() {
    let (mut c, content) = fresh();
    let r = generate(&mut c, &content, wish("orc_raider")).expect("generate");

    assert_eq!(r.role, "enemy");
    assert_eq!(r.species, "orc");
    assert!(r.rolled_hp_max > 0);
    assert!((14..=18).contains(&r.rolled_stats.str_score));
    assert!((10..=14).contains(&r.rolled_stats.dex_score));
    assert!((14..=18).contains(&r.rolled_stats.con_score));
    assert!((3..=5).contains(&r.backstory_event_ids.len()));

    for eid in &r.backstory_event_ids {
        let e = c.events.iter().find(|e| e.id == *eid).unwrap();
        assert_eq!(e.kind, "history.backstory");
        assert!(e.campaign_hour < 0, "backstory hour should be negative, got {}", e.campaign_hour);
        assert_eq!(e.participants[0].character_id, r.character_id);
    }

    let prof_count = c.proficiencies.iter().filter(|p| p.character_id == r.character_id).count();
    assert!(prof_count >= 3, "expected several proficiencies, got {prof_count}");
}

#[test]
fn recall_returns_npc_backstory() {
    let (mut c, content) = fresh();
    let r = generate(&mut c, &content, wish("orc_raider")).unwrap();

    let recalled = recall(
        &c,
        RecallParams {
            character_id: r.character_id,
            zone_id: None,
            other_character_id: None,
            other_item_id: None,
            kind_prefix: Some("history.".into()),
            since_hour: None,
            limit: None,
        },
    )
    .unwrap();
    assert_eq!(recalled.events.len(), r.backstory_event_ids.len());
    for ev in &recalled.events {
        assert_eq!(ev.kind, "history.backstory");
        assert!(ev.campaign_hour < 0);
    }
}

#[test]
fn unknown_archetype_rejected() {
    let (mut c, content) = fresh();
    let err = generate(&mut c, &content, wish("not_a_thing")).expect_err("should reject unknown archetype");
    assert!(err.message().contains("unknown archetype"));
}

#[test]
fn role_override_applies() {
    let (mut c, content) = fresh();
    let r = generate(
        &mut c,
        &content,
        GenerateParams { archetype: "orc_raider".into(), zone_id: None, role_override: Some("neutral".into()) },
    )
    .unwrap();
    assert_eq!(r.role, "neutral");
}

#[test]
fn hp_formula_evaluates() {
    let v = eval_hp_formula("3d8 + con_mod*3", 2).unwrap();
    assert!((9..=30).contains(&v), "out of range: {v}");
    let v = eval_hp_formula("17", 0).unwrap();
    assert_eq!(v, 17);
    let v = eval_hp_formula("10 + con_mod", 3).unwrap();
    assert_eq!(v, 13);
}

#[test]
fn village_elder_is_friendly() {
    let (mut c, content) = fresh();
    let r = generate(&mut c, &content, wish("village_elder")).unwrap();
    assert_eq!(r.role, "friendly");
    assert_eq!(r.species, "human");
}

#[test]
fn chance_is_followed_to_the_letter() {
    let (mut c, content) = fresh();
    let r = generate_with(&mut c, &content, &wish("orc_raider"), &rolls()).unwrap();
    assert_eq!((r.character_id, r.created_event_id, r.name.as_str()), (1, 1, "Urzog"));
    assert_eq!(r.rolled_hp_max, 8 + 3 + 2 * 2);
    assert_eq!(r.backstory_event_ids, vec![2, 3, 4]);
    assert_eq!(r.item_ids, vec![1, 2]);
    let ch = &c.characters[0];
    assert_eq!((ch.str_score, ch.con_score, ch.armor_class, ch.speed_ft), (16, 14, 13, 30));
    assert_eq!((ch.ideology.as_deref(), ch.plans.as_deref()), (Some("clan"), None));
    assert_eq!(ch.class_or_archetype.as_deref(), Some("orc_raider"));
    let past: Vec<(i64, &str)> =
        c.events[1..].iter().map(|e| (e.campaign_hour, e.summary.as_str())).collect();
    assert_eq!(
        past,
        vec![
            (-900, "Burned the ford 12 years ago."),
            (-5, "Lost a duel."),
            (-1000, "Owes a debt."),
        ]
    );
    assert!(c.events[1..].iter().all(|e| e.parent_id == Some(1)));
    assert_eq!((c.items[0].equipped_slot.as_deref(), c.items[0].quantity), (Some("main_hand"), 1));
    assert_eq!((c.items[1].quantity, c.items[1].place), (9, Place::Holder(1)));
    assert_eq!(
        c.events[0].summary,
        "Generated enemy \"Urzog\" from archetype \"orc_raider\" (id=1)"
    );
    assert!(c.check());
}

#[test]
fn the_past_leaves_the_clock_alone() {
    let (mut c, content) = fresh();
    generate_with(&mut c, &content, &wish("orc_raider"), &rolls()).unwrap();
    assert_eq!(current_campaign_hour(&c), 0);
}

#[test]
fn chance_may_leave_things_out() {
    let (mut c, content) = fresh();
    let mut luck = rolls();
    luck.loadout[1].chance = 500_000;
    let r = generate_with(&mut c, &content, &wish("orc_raider"), &luck).unwrap();
    assert_eq!(r.item_ids, vec![1]);
}

#[test]
fn the_order_of_hooks_is_shuffled() {
    let (mut c, content) = fresh();
    let mut luck = rolls();
    luck.hook_order = vec![0, 2, 1];
    luck.slots = vec![vec![0], vec![], vec![]];
    generate_with(&mut c, &content, &wish("orc_raider"), &luck).unwrap();
    let past: Vec<&str> = c.events[1..].iter().map(|e| e.summary.as_str()).collect();
    assert_eq!(past, vec!["Fled the mill.", "Lost a duel.", "Owes a debt."]);
}

#[test]
fn characters_that_cannot_be_made() {
    let (mut c, mut content) = fresh();
    let before = c.clone();
    assert_eq!(
        generate(&mut c, &content, wish("ghost")),
        Err(Error::UnknownArchetype { archetype: s("ghost") })
    );
    let mut p = wish("orc_raider");
    p.role_override = Some(s("boss"));
    assert_eq!(
        generate(&mut c, &content, p),
        Err(Error::UnknownNpcRole { role: s("boss"), archetype: s("orc_raider"), given: s("Some(\"boss\")") })
    );
    let mut p = wish("orc_raider");
    p.zone_id = Some(3);
    assert_eq!(generate(&mut c, &content, p), Err(Error::NoSuchZone { id: 3 }));
    content.archetypes[0].hp_formula = Some(s("2x8"));
    assert_eq!(
        generate(&mut c, &content, wish("orc_raider")),
        Err(Error::HpDice {
            formula: s("2x8"),
            cause: s("\"2x8\" is not a recognised dice spec (expected d<N>, <C>d<N>, or <MIN>-<MAX>)"),
        })
    );
    assert_eq!(c, before);
}

#[test]
fn formulas_say_what_they_mean() {
    assert_eq!(
        read_formula(" 2d8 + con_mod*2 + 3 "),
        Ok(vec![HpTerm::Dice(DiceSpec::Dice { count: 2, sides: 8 }), HpTerm::Con(2), HpTerm::Constant(3)])
    );
    let rolls = vec![vec![5, 6], vec![], vec![]];
    assert_eq!(eval_hp_formula_with("2d8 + con_mod*2 + 3", -1, &rolls), Ok(11 - 2 + 3));
    assert_eq!(eval_hp_formula_with("con_mod*4", -3, &vec![vec![]]), Ok(1), "at least one hit point");
    assert_eq!(
        read_formula("con_mod*x"),
        Err(Error::HpMultiplier { formula: s("con_mod*x"), factor: s("x"), fault: NumberFault::Digit })
    );
    assert_eq!(
        read_formula("con_mod/2"),
        Err(Error::HpConMod { formula: s("con_mod/2"), term: s("con_mod/2") })
    );
    assert_eq!(
        read_formula("99999999999"),
        Err(Error::HpConstant { formula: s("99999999999"), term: s("99999999999"), fault: NumberFault::TooLarge })
    );
    assert_eq!(
        read_formula("-99999999999").unwrap_err().message(),
        "hp_formula \"-99999999999\": hp constant \"-99999999999\": number too small to fit in target type"
    );
    assert_eq!(
        read_formula("4 + d").unwrap_err().message(),
        "hp_formula \"4 + d\": \"d\": die sides \"\" is not a positive integer: \
         cannot parse integer from empty string"
    );
    let ts = read_formula("7").unwrap();
    assert_eq!(eval_terms(&ts, 0, &vec![vec![]]), 7);
    assert!(check_most(&ts, 10));
    let steep = read_formula("con_mod*2000000000").unwrap();
    assert!(!check_most(&steep, 5) && check_most(&steep, -5), "a bad constitution keeps it low");
    let level = read_formula("-2000000000 + 2000000000 + d6").unwrap();
    assert!(check_most(&level, 0), "what counts is the sum");
    assert_eq!(eval_terms(&level, 0, &vec![vec![], vec![], vec![4]]), 4);
}

#[test]
fn archetypes_are_checked_beforehand() {
    assert!(check_archetype(&orc_raider()));
    let mut wild = orc_raider();
    wild.hp_formula = Some(s("2147483647 + 1"));
    assert!(!check_archetype(&wild));
}

#[test]
fn names_come_from_the_pools() {
    let (_, content) = fresh();
    assert_eq!(pick_name(&content, "orc", 0, 0), "Grash");
    assert_eq!(pick_name(&content, "human", 0, 1), "Mira Vale");
    assert_eq!(pick_name(&content, "golem", 0, 0), "golem NPC");
    assert_eq!(pick_one(&vec![s("a"), s("b")], 1), Some(s("b")));
    assert_eq!(pick_one(&vec![], 0), None);
    assert_eq!((default_hp_for_role("enemy"), default_hp_for_role("friendly")), (12, 10));
}

#[test]
fn templates_are_filled() {
    let pools = vec![SlotPool { slot: s("who"), values: vec![s("Ana"), s("Bo")] }];
    assert_eq!(
        substitute_with("${who} left ${who} ${years_ago} years ago", &pools, &vec![1, 0, 50]),
        "Bo left Ana 50 years ago"
    );
    assert_eq!(substitute_with("no gap, $5 {really}", &pools, &vec![]), "no gap, $5 {really}");
    assert_eq!(substitute_with("a ${gap} stays", &pools, &vec![]), "a ${gap} stays");
    assert_eq!(substitute_with("an ${open end", &pools, &vec![]), "an ${open end");
}

fn log(events: &[(&str, i64)]) -> Campaign {
    let (mut c, content) = fresh();
    generate_with(&mut c, &content, &wish("orc_raider"), &rolls()).unwrap();
    c.events.clear();
    for (i, (kind, hour)) in events.iter().enumerate() {
        c.events.push(Event {
            id: i as i64 + 1,
            kind: s(kind),
            campaign_hour: *hour,
            combat_round: None,
            zone_id: None,
            encounter_id: None,
            parent_id: None,
            summary: s("..."),
            payload: vec![],
            participants: vec![EventParticipant { character_id: 1, role: EventRole::Actor }],
            items: vec![],
        });
    }
    c
}

fn ids(events: &[RecalledEvent]) -> Vec<i64> {
    events.iter().map(|e| e.event_id).collect()
}

#[test]
fn the_newest_is_recalled_first() {
    let c = log(&[("a", 5), ("b", -3), ("c", 5), ("d", 9)]);
    assert_eq!(ids(&recall(&c, question(1)).unwrap().events), vec![4, 3, 1, 2]);
    let mut p = question(1);
    p.limit = Some(2);
    assert_eq!(ids(&recall(&c, p).unwrap().events), vec![4, 3]);
    let mut p = question(1);
    p.limit = Some(-4);
    assert_eq!(ids(&recall(&c, p).unwrap().events), vec![4]);
    let mut p = question(1);
    p.since_hour = Some(5);
    assert_eq!(ids(&recall(&c, p).unwrap().events), vec![4, 3, 1]);
    assert!(recall(&c, question(2)).unwrap().events.is_empty());
}

#[test]
fn many_memories_are_cut_off() {
    let many: Vec<(&str, i64)> = (0..600).map(|i| ("x", i)).collect();
    let c = log(&many);
    assert_eq!(recall(&c, question(1)).unwrap().events.len(), 50);
    let mut p = question(1);
    p.limit = Some(10_000);
    assert_eq!(recall(&c, p).unwrap().events.len(), 500);
}

#[test]
fn kinds_are_matched_by_their_beginning() {
    let c = log(&[("combat.start", 1), ("combat.end", 2), ("Combat.x", 3), ("social.bargain", 4)]);
    let find = |prefix: &str| {
        let mut p = question(1);
        p.kind_prefix = Some(s(prefix));
        ids(&recall(&c, p).unwrap().events)
    };
    assert_eq!(find("combat."), vec![3, 2, 1]);
    assert_eq!(find("bargain"), Vec::<i64>::new());
    assert_eq!(find("%bargain"), vec![4]);
    assert_eq!(find("_ombat.e"), vec![2]);
    assert_eq!(find(""), vec![4, 3, 2, 1]);
}

#[test]
fn long_patterns_are_refused() {
    let c = log(&[("combat.start", 1)]);
    let find = |prefix: String| {
        let mut p = question(1);
        p.kind_prefix = Some(prefix);
        recall(&c, p).map(|r| ids(&r.events))
    };
    assert_eq!(find("%".repeat(49_999)), Ok(vec![1]));
    assert_eq!(find("%".repeat(50_000)), Err(Error::PatternTooLong));
    assert_eq!(find("é".repeat(25_000)), Err(Error::PatternTooLong), "bytes count");
    assert_eq!(Error::<String>::PatternTooLong.message(), "collect recall rows: LIKE or GLOB pattern too complex");
    assert_eq!(find("%_%a%r%".into()), Ok(vec![1]));
    assert_eq!(find("%_%z%".into()), Ok(vec![]));
    assert_eq!(find("combat.start\0x".into()), Ok(vec![1]), "a pattern ends at a character 0");
    assert_eq!(find("combat\0".into()), Ok(vec![]));
}

#[test]
fn memories_may_involve_others() {
    let mut c = log(&[("a", 1), ("b", 2), ("c", 3)]);
    let mut other = c.characters[0].clone();
    other.id = 2;
    c.characters.push(other);
    c.zones.push(Zone {
        id: 1,
        name: s("Z"),
        biome: s("plains"),
        kind: ZoneKind::Road,
        size: ZoneSize::Tiny,
        description: None,
    });
    c.events[0].participants.push(EventParticipant { character_id: 2, role: EventRole::Witness });
    c.events[1].zone_id = Some(1);
    c.events[2].items.push(EventItem { item_id: 1, role: s("subject") });
    let mut p = question(1);
    p.other_character_id = Some(2);
    assert_eq!(ids(&recall(&c, p).unwrap().events), vec![1]);
    let mut p = question(1);
    p.zone_id = Some(1);
    assert_eq!(ids(&recall(&c, p).unwrap().events), vec![2]);
    let mut p = question(1);
    p.other_item_id = Some(1);
    assert_eq!(ids(&recall(&c, p).unwrap().events), vec![3]);
    assert_eq!(recall(&c, question(2)).unwrap().events[0].role, "witness");
}
