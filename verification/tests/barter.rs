use dm_mcp::barter::{check_exchange_fits, exchange, exchange_with, ExchangeParams};
use dm_mcp::campaign::Campaign;
use dm_mcp::characters::{self, CreateParams as CharCreateParams};
use dm_mcp::checks::CheckRolls;
use dm_mcp::content::{
    Ability, BaseItem, CheckKind, ConditionRule, Content, DamageType, Encumbrance, Rider, RollModifier, Skill,
};
use dm_mcp::error::{Error, Fault};
use dm_mcp::inventory::{create as create_item, CreateParams as ItemCreate};
use dm_mcp::rows::Place;

fn s(text: &str) -> String {
    text.to_string()
}

fn base(id: &str, pounds: i64, gold: i64, stackable: bool) -> BaseItem {
    BaseItem { id: s(id), weight_lb: pounds * 1000, base_value_gp: gold * 1000, stackable }
}

fn ability(id: &str, name: &str) -> Ability {
    Ability { id: s(id), name: s(name), governs: s("") }
}

fn skill(id: &str, ability: &str) -> Skill {
    Skill { id: s(id), ability: s(ability), description: s("") }
}

fn content() -> Content {
    Content {
        abilities: vec![
            ability("str", "Strength"),
            ability("dex", "Dexterity"),
            ability("con", "Constitution"),
            ability("int", "Intelligence"),
            ability("wis", "Wisdom"),
            ability("cha", "Charisma"),
        ],
        skills: vec![skill("athletics", "str"), skill("stealth", "dex"), skill("persuasion", "cha")],
        damage_types: vec![DamageType { id: s("fire"), physical: false, description: s("burns") }],
        conditions: vec![
            ConditionRule {
                id: s("blinded"),
                riders: vec![Rider { kind: CheckKind::AttackRoll, modifier: RollModifier::Disadvantage }],
                auto_fail: vec![s("sight")],
            },
            ConditionRule {
                id: s("invisible"),
                riders: vec![Rider { kind: CheckKind::AttackRoll, modifier: RollModifier::Advantage }],
                auto_fail: vec![],
            },
            ConditionRule {
                id: s("paralyzed"),
                riders: vec![Rider { kind: CheckKind::SavingThrow, modifier: RollModifier::AutoFail }],
                auto_fail: vec![],
            },
        ],
        biomes: vec![s("temperate_forest")],
        weapons: vec![s("longsword")],
        enchantments: vec![s("flaming")],
        archetypes: vec![],
        item_bases: vec![
            base("gold", 0, 1, true),
            base("heavy_crate", 100, 5, false),
            base("stone", 10, 0, true),
            base("backpack", 5, 2, false),
            base("longsword", 3, 15, false),
        ],
        encumbrance: Encumbrance {
            capacity_per_str: 15,
            encumbered_threshold_pct: 67,
            overloaded_threshold_pct: 100,
        },
        death_events: vec![],
        setup_questions: vec![],
        name_pools: vec![],
    }
}

fn person(name: &str, role: &str) -> CharCreateParams {
    CharCreateParams {
        name: name.to_string(),
        role: role.to_string(),
        str_score: 10,
        dex_score: 10,
        con_score: 10,
        int_score: 10,
        wis_score: 10,
        cha_score: 10,
        hp_max: None,
        hp_current: None,
        armor_class: None,
        speed_ft: None,
        initiative_bonus: None,
        size: None,
        species: None,
        class_or_archetype: None,
        ideology: None,
        backstory: None,
        plans: None,
        loyalty: None,
        party_id: None,
        current_zone_id: None,
    }
}

fn make_char(c: &mut Campaign, name: &str, role: &str, cha: i32) -> i64 {
    let mut p = person(name, role);
    p.cha_score = cha;
    p.hp_max = Some(10);
    p.hp_current = Some(10);
    p.armor_class = Some(12);
    characters::create(c, p).unwrap().character_id
}

fn make_item(c: &mut Campaign, base: &str, holder: i64, qty: i64) -> i64 {
    create_item(
        c,
        &content(),
        ItemCreate {
            base_kind: base.into(),
            name: None,
            material: None,
            material_tier: None,
            quality: None,
            quantity: Some(qty),
            holder_character_id: Some(holder),
            zone_location_id: None,
            container_item_id: None,
        },
    )
    .unwrap()
    .item_id
}

fn holder(c: &Campaign, item: i64) -> Place {
    c.items.iter().find(|i| i.id == item).unwrap().place
}

fn offer(pc: i64, merchant: i64, offered: Vec<i64>, requested: Vec<i64>, dc: Option<i32>) -> ExchangeParams {
    ExchangeParams {
        character_id: pc,
        merchant_character_id: merchant,
        offered_item_ids: offered,
        requested_item_ids: requested,
        dc_override: dc,
    }
}

/// A player with so much gold, and a merchant with goods for 100 gold.
fn market(gold: i64) -> (Campaign, ExchangeParams) {
    let mut c = Campaign::new();
    let pc = make_char(&mut c, "P", "player", 10);
    let merchant = make_char(&mut c, "M", "neutral", 10);
    let offered = make_item(&mut c, "gold", pc, gold);
    let requested = make_item(&mut c, "gold", merchant, 100);
    (c, offer(pc, merchant, vec![offered], vec![requested], None))
}

#[test]
fn fair_offer_auto_accepts_and_swaps() {
    let mut c = Campaign::new();
    let pc = make_char(&mut c, "P", "player", 14);
    let merchant = make_char(&mut c, "M", "neutral", 10);
    let offered = make_item(&mut c, "heavy_crate", pc, 1);
    let requested = make_item(&mut c, "stone", merchant, 1);
    let r = exchange(&mut c, &content(), offer(pc, merchant, vec![offered], vec![requested], None)).unwrap();
    assert_eq!(r.outcome, "accepted");
    assert_eq!(r.resolution, "auto_accept");
    assert_eq!(holder(&c, offered), Place::Holder(merchant));
    assert_eq!(holder(&c, requested), Place::Holder(pc));
}

#[test]
fn low_offer_triggers_persuasion_with_forced_dc_success() {
    let mut c = Campaign::new();
    let pc = make_char(&mut c, "P", "player", 18);
    let merchant = make_char(&mut c, "M", "neutral", 10);
    let gold = make_item(&mut c, "gold", pc, 1);
    let crate_id = make_item(&mut c, "heavy_crate", merchant, 1);
    let r = exchange(&mut c, &content(), offer(pc, merchant, vec![gold], vec![crate_id], Some(1))).unwrap();
    assert_eq!(r.resolution, "persuasion_check");
    assert_eq!(r.outcome, "accepted");
    assert_eq!(holder(&c, crate_id), Place::Holder(pc));
}

#[test]
fn impossible_dc_fails_and_no_swap() {
    let mut c = Campaign::new();
    let pc = make_char(&mut c, "P", "player", 10);
    let merchant = make_char(&mut c, "M", "neutral", 10);
    let gold = make_item(&mut c, "gold", pc, 1);
    let crate_id = make_item(&mut c, "heavy_crate", merchant, 1);
    let r = exchange(&mut c, &content(), offer(pc, merchant, vec![gold], vec![crate_id], Some(999))).unwrap();
    assert_eq!(r.resolution, "persuasion_check");
    assert_eq!(r.outcome, "declined");
    assert_eq!(holder(&c, crate_id), Place::Holder(merchant), "failed persuasion must not move items");
}

#[test]
fn manifestly_bad_offer_refused_without_check() {
    let mut c = Campaign::new();
    let pc = make_char(&mut c, "P", "player", 10);
    let merchant = make_char(&mut c, "M", "neutral", 10);
    let gold = make_item(&mut c, "gold", pc, 1);
    let crates: Vec<i64> = (0..10).map(|_| make_item(&mut c, "heavy_crate", merchant, 1)).collect();
    let r = exchange(&mut c, &content(), offer(pc, merchant, vec![gold], crates.clone(), None)).unwrap();
    assert_eq!(r.resolution, "refused");
    assert_eq!(r.outcome, "declined");
}

#[test]
fn the_difficulty_grows_by_tenths() {
    for (gold, dc) in [(89, 12), (80, 12), (79, 14), (70, 14), (60, 16), (51, 18), (50, 18)] {
        let (mut c, p) = market(gold);
        let rolls = CheckRolls { d20s: vec![20], dice: vec![] };
        let r = exchange_with(&mut c, &content(), &p, &rolls).unwrap();
        assert_eq!((r.resolution.as_str(), r.check_dc), ("persuasion_check", Some(dc)), "{gold} gold");
    }
    for (gold, resolution) in [(90, "auto_accept"), (49, "refused"), (1000, "auto_accept")] {
        let (mut c, p) = market(gold);
        let r = exchange(&mut c, &content(), p).unwrap();
        assert_eq!((r.resolution.as_str(), r.check_dc), (resolution, None), "{gold} gold");
    }
}

#[test]
fn persuasion_decides_by_the_roll() {
    for (d20, outcome) in [(12, "accepted"), (11, "declined")] {
        let (mut c, p) = market(85);
        let items = c.items.clone();
        let rolls = CheckRolls { d20s: vec![d20], dice: vec![] };
        let r = exchange_with(&mut c, &content(), &p, &rolls).unwrap();
        assert_eq!((r.outcome.as_str(), r.check_roll_total), (outcome, Some(d20)));
        assert_eq!((r.offered_value_gp, r.requested_value_gp), (85_000, 100_000));
        if outcome == "declined" {
            assert_eq!(c.items, items);
        } else {
            assert_eq!(holder(&c, p.offered_item_ids[0]), Place::Holder(p.merchant_character_id));
            assert_eq!(holder(&c, p.requested_item_ids[0]), Place::Holder(p.character_id));
        }
    }
}

#[test]
fn the_bargain_is_on_record() {
    let (mut c, p) = market(95);
    let r = exchange(&mut c, &content(), p).unwrap();
    let event = c.events.last().unwrap();
    assert_eq!((event.id, event.kind.as_str()), (r.event_id, "social.bargain"));
    assert_eq!(
        event.summary,
        "Barter between character id=1 and merchant id=2: accepted via auto_accept \
         (offered 95.0 gp vs requested 100.0 gp)"
    );
    let roles: Vec<&str> = event.items.iter().map(|i| i.role.as_str()).collect();
    assert_eq!(roles, vec!["offered", "requested"]);
}

#[test]
fn offers_that_cannot_be_made() {
    let (mut c, p) = market(95);
    let before = c.clone();
    let k = content();
    let (pc, merchant) = (p.character_id, p.merchant_character_id);
    assert_eq!(exchange(&mut c, &k, offer(pc, merchant, vec![], vec![], None)), Err(Error::BarterEmpty));
    assert_eq!(exchange(&mut c, &k, offer(pc, pc, vec![1], vec![], None)), Err(Error::BarterSelf));
    assert_eq!(
        exchange(&mut c, &k, offer(pc, merchant, vec![2], vec![], None)),
        Err(Error::NotHeld { item: 2, character: pc, holder: Some(merchant) })
    );
    assert_eq!(exchange(&mut c, &k, offer(pc, merchant, vec![7], vec![], None)), Err(Error::ItemNotFound { id: 7 }));
    let event_id = c.events.len() as i64 + 1;
    assert_eq!(
        exchange(&mut c, &k, offer(pc, merchant, vec![1, 1], vec![], None)),
        Err(Error::EventItemRow { event_id, item_id: 1, role: s("offered"), fault: Fault::Unique })
    );
    assert_eq!(
        exchange(&mut c, &k, offer(pc, 9, vec![1], vec![], None)),
        Err(Error::BarterOffered { item: 1 })
    );
    assert_eq!(
        exchange(&mut c, &k, offer(9, merchant, vec![], vec![2], None)),
        Err(Error::EventParticipantRow {
            event_id,
            character_id: 9,
            role: s("actor"),
            fault: Fault::ForeignKey,
        })
    );
    assert_eq!(
        exchange(&mut c, &k, offer(9, merchant, vec![], vec![2], Some(5))),
        Err(Error::BarterCheck { cause: s("read cha_score for character 9: Query returned no rows") })
    );
    assert_eq!(
        exchange(&mut c, &k, offer(pc, 9, vec![1, 1], vec![], None)),
        Err(Error::BarterOffered { item: 1 })
    );
    assert_eq!(
        exchange(&mut c, &k, offer(9, merchant, vec![], vec![2, 2], None)),
        Err(Error::EventParticipantRow {
            event_id,
            character_id: 9,
            role: s("actor"),
            fault: Fault::ForeignKey,
        })
    );
    assert_eq!(
        exchange(&mut c, &k, offer(9, merchant, vec![], vec![2, 2], Some(5))),
        Err(Error::BarterCheck { cause: s("read cha_score for character 9: Query returned no rows") })
    );
    assert_eq!(
        exchange(&mut c, &k, offer(pc, merchant, vec![1], vec![2, 2], Some(5))),
        Err(Error::EventItemRow { event_id: event_id + 1, item_id: 2, role: s("requested"), fault: Fault::Unique })
    );
    let mut bare = content();
    bare.item_bases.clear();
    assert_eq!(
        exchange(&mut c, &bare, p),
        Err(Error::ItemKindUnknown { item: 1, kind: s("gold") })
    );
    assert_eq!(c, before);
}

#[test]
fn ordinary_trades_fit() {
    let (c, p) = market(85);
    assert!(content().check_measures());
    assert!(check_exchange_fits(&c, &content(), &p));
}

#[test]
fn what_costs_to_keep_is_no_offer() {
    let mut c = Campaign::new();
    let pc = make_char(&mut c, "P", "player", 10);
    let merchant = make_char(&mut c, "M", "neutral", 10);
    let mut k = content();
    let i = k.item_bases.iter().position(|b| b.id == "stone").unwrap();
    k.item_bases[i].base_value_gp = -40;
    let stone = make_item(&mut c, "stone", pc, 1);
    let gold = make_item(&mut c, "gold", merchant, 1);
    let r = exchange(&mut c, &k, offer(pc, merchant, vec![stone], vec![gold], None)).unwrap();
    assert_eq!((r.outcome.as_str(), r.resolution.as_str()), ("declined", "refused"));
    assert!(c.events.last().unwrap().summary.ends_with("(offered -0.0 gp vs requested 1.0 gp)"));
}
