use dm_mcp::campaign::Campaign;
use dm_mcp::characters::{self, CreateParams as CharCreateParams};
use dm_mcp::content::{
    Ability, BaseItem, CheckKind, ConditionRule, Content, DamageType, Encumbrance, Rider, RollModifier, Skill,
};
use dm_mcp::error::Error;
use dm_mcp::inventory::{
    create, describe_destination, drop_item, equip, get, inspect, pickup, transfer, unequip, CreateParams,
    CreateResult, DropParams, EquipParams, EquipResult, PickupParams, TransferParams, TransferResult,
    UnequipParams,
};
use dm_mcp::rows::{Place, Zone, ZoneKind, ZoneSize};

fn s(text: &str) -> String {
    text.to_string()
}

fn base(id: &str, pounds: i64, gold: i64, stackable: bool) -> BaseItem {
    BaseItem { id: s(id), weight_lb: pounds * 1000, base_value_gp: gold * 1000, stackable }
}

fn ability(id: &str, name: &str) -> Ability {
    Ability { id: s(id), name: s(name), governs: s("") }
}

fn skill(id: &str, ability: &str) -> Skill {
    Skill { id: s(id), ability: s(ability), description: s("") }
}

fn content() -> Content {
    Content {
        abilities: vec![
            ability("str", "Strength"),
            ability("dex", "Dexterity"),
            ability("con", "Constitution"),
            ability("int", "Intelligence"),
            ability("wis", "Wisdom"),
            ability("cha", "Charisma"),
        ],
        skills: vec![skill("athletics", "str"), skill("stealth", "dex"), skill("persuasion", "cha")],
        damage_types: vec![DamageType { id: s("fire"), physical: false, description: s("burns") }],
        conditions: vec![
            ConditionRule {
                id: s("blinded"),
                riders: vec![Rider { kind: CheckKind::AttackRoll, modifier: RollModifier::Disadvantage }],
                auto_fail: vec![s("sight")],
            },
            ConditionRule {
                id: s("invisible"),
                riders: vec![Rider { kind: CheckKind::AttackRoll, modifier: RollModifier::Advantage }],
                auto_fail: vec![],
            },
            ConditionRule {
                id: s("paralyzed"),
                riders: vec![Rider { kind: CheckKind::SavingThrow, modifier: RollModifier::AutoFail }],
                auto_fail: vec![],
            },
        ],
        biomes: vec![s("temperate_forest")],
        weapons: vec![s("longsword")],
        enchantments: vec![s("flaming")],
        archetypes: vec![],
        item_bases: vec![
            base("gold", 0, 1, true),
            base("heavy_crate", 100, 5, false),
            base("stone", 10, 0, true),
            base("backpack", 5, 2, false),
            base("longsword", 3, 15, false),
        ],
        encumbrance: Encumbrance {
            capacity_per_str: 15,
            encumbered_threshold_pct: 67,
            overloaded_threshold_pct: 100,
        },
        death_events: vec![],
        setup_questions: vec![],
        name_pools: vec![],
    }
}

fn person(name: &str, role: &str) -> CharCreateParams {
    CharCreateParams {
        name: name.to_string(),
        role: role.to_string(),
        str_score: 10,
        dex_score: 10,
        con_score: 10,
        int_score: 10,
        wis_score: 10,
        cha_score: 10,
        hp_max: None,
        hp_current: None,
        armor_class: None,
        speed_ft: None,
        initiative_bonus: None,
        size: None,
        species: None,
        class_or_archetype: None,
        ideology: None,
        backstory: None,
        plans: None,
        loyalty: None,
        party_id: None,
        current_zone_id: None,
    }
}

fn make_char(c: &mut Campaign, name: &str, str_score: i32) -> i64 {
    let mut p = person(name, "player");
    p.str_score = str_score;
    p.hp_max = Some(20);
    p.hp_current = Some(20);
    p.armor_class = Some(12);
    characters::create(c, p).unwrap().character_id
}

fn make_zone(c: &mut Campaign) -> i64 {
    let id = c.zones.len() as i64 + 1;
    c.zones.push(Zone {
        id,
        name: s("Z"),
        biome: s("plains"),
        kind: ZoneKind::Wilderness,
        size: ZoneSize::Small,
        description: None,
    });
    id
}

fn settle(c: &mut Campaign, id: i64, zone: i64) {
    c.characters.iter_mut().find(|x| x.id == id).unwrap().current_zone_id = Some(zone);
}

fn thing(kind: &str) -> CreateParams {
    CreateParams {
        base_kind: s(kind),
        name: None,
        material: None,
        material_tier: None,
        quality: None,
        quantity: None,
        holder_character_id: None,
        zone_location_id: None,
        container_item_id: None,
    }
}

fn lying(c: &mut Campaign, kind: &str, zone: i64) -> i64 {
    let mut p = thing(kind);
    p.zone_location_id = Some(zone);
    create(c, &content(), p).unwrap().item_id
}

fn held(c: &mut Campaign, kind: &str, holder: i64) -> i64 {
    let mut p = thing(kind);
    p.holder_character_id = Some(holder);
    create(c, &content(), p).unwrap().item_id
}

fn take(c: &mut Campaign, character_id: i64, item_id: i64) {
    pickup(c, &content(), PickupParams { character_id, item_id }).unwrap().unwrap();
}

fn goal(item_id: i64) -> TransferParams {
    TransferParams { item_id, to_character_id: None, to_container_item_id: None, to_zone_location_id: None }
}

fn into(item_id: i64, container: i64) -> TransferParams {
    TransferParams { to_container_item_id: Some(container), ..goal(item_id) }
}

#[test]
fn pickup_respects_capacity_thresholds() {
    let mut c = Campaign::new();
    let content = content();
    let pc = make_char(&mut c, "Kira", 10); // capacity = 150 lb
    let zone = make_zone(&mut c);
    settle(&mut c, pc, zone);

    let crate_id = lying(&mut c, "heavy_crate", zone);
    let r = pickup(&mut c, &content, PickupParams { character_id: pc, item_id: crate_id }).unwrap().unwrap();
    assert_eq!(r.percent_of_capacity, 66);
    assert!(!r.encumbered);

    let stone_id = lying(&mut c, "stone", zone);
    let r = pickup(&mut c, &content, PickupParams { character_id: pc, item_id: stone_id }).unwrap().unwrap();
    assert_eq!(r.percent_of_capacity, 73);
    assert!(r.encumbered);
    assert!(r.encumbered_condition_id.is_some());

    let extra_stones: Vec<i64> = (0..5).map(|_| lying(&mut c, "stone", zone)).collect();
    for sid in &extra_stones[..4] {
        pickup(&mut c, &content, PickupParams { character_id: pc, item_id: *sid }).unwrap().unwrap();
    }
    let refused = pickup(&mut c, &content, PickupParams { character_id: pc, item_id: extra_stones[4] })
        .unwrap()
        .unwrap_err();
    assert_eq!(refused.error, "would_overload");
    assert_eq!(refused.would_be_weight_lb, 160_000);
    assert_eq!(refused.capacity_lb, 150_000);
}

#[test]
fn drop_clears_encumbered_when_below_threshold() {
    let mut c = Campaign::new();
    let content = content();
    let pc = make_char(&mut c, "K", 10);
    let zone = make_zone(&mut c);
    settle(&mut c, pc, zone);
    let c1 = lying(&mut c, "heavy_crate", zone);
    let stone = lying(&mut c, "stone", zone);
    pickup(&mut c, &content, PickupParams { character_id: pc, item_id: c1 }).unwrap().unwrap();
    let r = pickup(&mut c, &content, PickupParams { character_id: pc, item_id: stone }).unwrap().unwrap();
    assert!(r.encumbered);

    let r = drop_item(&mut c, &content, DropParams { character_id: pc, item_id: stone }).unwrap();
    assert!(!r.encumbered);
    let active = c
        .conditions
        .iter()
        .filter(|x| x.character_id == pc && x.condition == "encumbered" && x.active)
        .count();
    assert_eq!(active, 0);
}

#[test]
fn a_refused_pickup_moves_nothing() {
    let mut c = Campaign::new();
    let pc = make_char(&mut c, "K", 1);
    let zone = make_zone(&mut c);
    settle(&mut c, pc, zone);
    let item = lying(&mut c, "heavy_crate", zone);
    let items = c.items.clone();
    assert!(pickup(&mut c, &content(), PickupParams { character_id: pc, item_id: item }).unwrap().is_err());
    assert_eq!(c.items, items);
    assert_eq!(items[0].place, Place::Zone(zone));
}

#[test]
fn what_is_dropped_can_be_picked_up_again() {
    let mut c = Campaign::new();
    let pc = make_char(&mut c, "K", 10);
    let zone = make_zone(&mut c);
    settle(&mut c, pc, zone);
    let item = held(&mut c, "longsword", pc);
    let r = drop_item(&mut c, &content(), DropParams { character_id: pc, item_id: item }).unwrap();
    assert_eq!((r.zone_id, r.carried_weight_lb), (zone, 0));
    assert_eq!(c.items[0].place, Place::Zone(zone));
    take(&mut c, pc, item);
    assert_eq!(c.items[0].place, Place::Holder(pc));
}

#[test]
fn things_are_somewhere() {
    let mut c = Campaign::new();
    let pc = make_char(&mut c, "K", 10);
    let before = c.clone();
    assert_eq!(create(&mut c, &content(), thing("stone")), Err(Error::LocationCount { count: 0 }));
    let mut p = thing("stone");
    p.holder_character_id = Some(pc);
    p.zone_location_id = Some(1);
    assert_eq!(create(&mut c, &content(), p), Err(Error::LocationCount { count: 2 }));
    let mut p = thing("unicorn");
    p.holder_character_id = Some(pc);
    assert_eq!(create(&mut c, &content(), p), Err(Error::UnknownBaseKind { kind: s("unicorn") }));
    let mut p = thing("stone");
    p.holder_character_id = Some(9);
    assert_eq!(create(&mut c, &content(), p), Err(Error::ItemRow));
    let mut p = thing("stone");
    p.holder_character_id = Some(pc);
    p.quantity = Some(0);
    assert_eq!(create(&mut c, &content(), p), Err(Error::QuantityLow { quantity: 0 }));
    let mut p = thing("longsword");
    p.holder_character_id = Some(pc);
    p.quantity = Some(2);
    assert_eq!(create(&mut c, &content(), p), Err(Error::NotStackable { kind: s("longsword") }));
    assert_eq!(c, before);
}

#[test]
fn stacks_weigh_and_cost_by_the_piece() {
    let mut c = Campaign::new();
    let pc = make_char(&mut c, "K", 10);
    let mut p = thing("gold");
    p.holder_character_id = Some(pc);
    p.quantity = Some(250);
    assert_eq!(create(&mut c, &content(), p), Ok(CreateResult { item_id: 1, event_id: 2 }));
    let mut p = thing("stone");
    p.holder_character_id = Some(pc);
    p.quantity = Some(3);
    create(&mut c, &content(), p).unwrap();
    let v = get(&c, &content(), pc).unwrap();
    assert_eq!((v.carried_weight_lb, v.capacity_lb, v.percent_of_capacity), (30_000, 150_000, 20));
    assert_eq!(v.items.len(), 2);
    assert_eq!((v.items[0].effective_value_gp, v.items[1].effective_weight_lb), (250_000, 30_000));
    let one = inspect(&c, &content(), 1).unwrap();
    assert_eq!((one.quantity, one.effective_value_gp), (250, 250_000));
}

#[test]
fn what_lifts_weighs_less_than_nothing() {
    let mut c = Campaign::new();
    let pc = make_char(&mut c, "K", 10);
    let mut k = content();
    let i = k.item_bases.iter().position(|b| b.id == "stone").unwrap();
    k.item_bases[i].weight_lb = -1_000;
    held(&mut c, "stone", pc);
    let v = get(&c, &k, pc).unwrap();
    assert_eq!((v.carried_weight_lb, v.percent_of_capacity, v.encumbered), (-1_000, -1, false));
}

#[test]
fn slots_are_filled_and_emptied() {
    let mut c = Campaign::new();
    let pc = make_char(&mut c, "K", 10);
    let other = make_char(&mut c, "L", 10);
    let item = held(&mut c, "longsword", pc);
    let put = |character_id: i64, item_id: i64, slot: &str| EquipParams { character_id, item_id, slot: s(slot) };
    assert_eq!(equip(&mut c, &content(), put(pc, item, "")), Err(Error::SlotEmpty));
    assert_eq!(
        equip(&mut c, &content(), put(other, item, "main_hand")),
        Err(Error::CannotEquip { item, character: other })
    );
    assert_eq!(equip(&mut c, &content(), put(pc, 9, "main_hand")), Err(Error::ItemNotFound { id: 9 }));
    assert_eq!(
        equip(&mut c, &content(), put(pc, item, "main_hand")),
        Ok(EquipResult { item_id: item, slot: Some(s("main_hand")), event_id: 4 })
    );
    assert_eq!(c.items[0].equipped_slot.as_deref(), Some("main_hand"));
    assert_eq!(
        unequip(&mut c, &content(), UnequipParams { character_id: other, item_id: item }),
        Err(Error::CannotUnequip { item, character: other })
    );
    assert_eq!(
        unequip(&mut c, &content(), UnequipParams { character_id: pc, item_id: item }).unwrap().slot,
        None
    );
    assert_eq!(c.items[0].equipped_slot, None);
}

#[test]
fn pickups_and_drops_that_cannot_be() {
    let mut c = Campaign::new();
    let pc = make_char(&mut c, "K", 10);
    let zone = make_zone(&mut c);
    let far = make_zone(&mut c);
    let item = lying(&mut c, "stone", far);
    let own = held(&mut c, "stone", pc);
    let pick = |character_id: i64, item_id: i64| PickupParams { character_id, item_id };
    assert_eq!(
        pickup(&mut c, &content(), pick(pc, item)),
        Err(Error::WrongZone { item, zone: far, character: pc, current: None })
    );
    settle(&mut c, pc, zone);
    assert_eq!(
        pickup(&mut c, &content(), pick(pc, item)),
        Err(Error::WrongZone { item, zone: far, character: pc, current: Some(zone) })
    );
    assert_eq!(
        pickup(&mut c, &content(), pick(pc, own)),
        Err(Error::ItemNotInZone { id: own, holder: Some(pc), container: None })
    );
    assert_eq!(pickup(&mut c, &content(), pick(pc, 9)), Err(Error::ItemNotFound { id: 9 }));
    assert_eq!(
        drop_item(&mut c, &content(), DropParams { character_id: pc, item_id: item }),
        Err(Error::NotHeld { item, character: pc, holder: None })
    );
    c.characters[0].current_zone_id = None;
    assert_eq!(
        drop_item(&mut c, &content(), DropParams { character_id: pc, item_id: own }),
        Err(Error::NowhereToDrop { id: pc })
    );
    assert_eq!(get(&c, &content(), 5), Err(Error::CharacterNotFound { id: 5 }));
    assert_eq!(inspect(&c, &content(), 5), Err(Error::ItemNotFound { id: 5 }));
}

#[test]
fn transfers_go_where_they_are_sent() {
    let mut c = Campaign::new();
    let pc = make_char(&mut c, "K", 10);
    let other = make_char(&mut c, "L", 10);
    let zone = make_zone(&mut c);
    let bag = held(&mut c, "backpack", pc);
    let item = held(&mut c, "longsword", pc);
    let n = c.events.len() as i64;
    assert_eq!(
        transfer(&mut c, &content(), into(item, bag)),
        Ok(TransferResult { item_id: item, event_id: n + 1 })
    );
    assert_eq!(c.items[1].place, Place::Container(bag));
    transfer(&mut c, &content(), TransferParams { to_character_id: Some(other), ..goal(item) }).unwrap();
    assert_eq!(c.items[1].place, Place::Holder(other));
    transfer(&mut c, &content(), TransferParams { to_zone_location_id: Some(zone), ..goal(item) }).unwrap();
    assert_eq!(c.items[1].place, Place::Zone(zone));
    assert_eq!(describe_destination(&into(item, bag)), "container id=1");
    assert!(c.check());
}

#[test]
fn a_transfer_moves_the_weight() {
    let mut c = Campaign::new();
    let k = content();
    let pc = make_char(&mut c, "K", 10);
    let other = make_char(&mut c, "L", 10);
    let crate_id = held(&mut c, "heavy_crate", pc);
    let load = |c: &Campaign, id: i64| get(c, &k, id).unwrap().carried_weight_lb;
    assert_eq!((load(&c, pc), load(&c, other)), (100_000, 0));
    transfer(&mut c, &k, TransferParams { to_character_id: Some(other), ..goal(crate_id) }).unwrap();
    assert_eq!((load(&c, pc), load(&c, other)), (0, 100_000));
    let bag = held(&mut c, "backpack", pc);
    let before = load(&c, pc);
    transfer(&mut c, &k, into(crate_id, bag)).unwrap();
    assert_eq!((load(&c, pc), load(&c, other)), (before, 0), "what lies in a container weighs on nobody");
}

#[test]
fn transfers_that_cannot_be() {
    let mut c = Campaign::new();
    let pc = make_char(&mut c, "K", 10);
    let weak = make_char(&mut c, "W", 1);
    let bag = held(&mut c, "backpack", pc);
    let inner = held(&mut c, "backpack", pc);
    let heavy = held(&mut c, "heavy_crate", pc);
    transfer(&mut c, &content(), into(inner, bag)).unwrap();
    let before = c.clone();
    let k = content();
    assert_eq!(transfer(&mut c, &k, goal(bag)), Err(Error::DestinationCount { count: 0 }));
    assert_eq!(transfer(&mut c, &k, into(bag, bag)), Err(Error::IntoItself { id: bag }));
    assert_eq!(transfer(&mut c, &k, into(bag, inner)), Err(Error::ContainerCycle { item: bag, container: inner }));
    assert_eq!(transfer(&mut c, &k, into(bag, 99)), Err(Error::NoDestinationContainer { id: 99 }));
    assert_eq!(
        transfer(&mut c, &k, TransferParams { to_character_id: Some(99), ..goal(bag) }),
        Err(Error::NoDestinationCharacter { id: 99 })
    );
    assert_eq!(
        transfer(&mut c, &k, TransferParams { to_zone_location_id: Some(99), ..goal(bag) }),
        Err(Error::NoDestinationZone { id: 99 })
    );
    assert_eq!(
        transfer(&mut c, &k, TransferParams { to_character_id: Some(weak), ..goal(heavy) }),
        Err(Error::TransferOverload { id: weak, would_be: 100_000, capacity: 15_000 })
    );
    assert_eq!(transfer(&mut c, &k, into(99, bag)), Err(Error::ItemNotFound { id: 99 }));
    assert_eq!(c, before);
}

#[test]
fn containers_nest_only_so_deep() {
    let mut c = Campaign::new();
    let pc = make_char(&mut c, "K", 30);
    let mut bags: Vec<i64> = vec![held(&mut c, "backpack", pc)];
    for _ in 0..40 {
        let mut p = thing("backpack");
        p.container_item_id = Some(*bags.last().unwrap());
        bags.push(create(&mut c, &content(), p).unwrap().item_id);
    }
    let item = held(&mut c, "stone", pc);
    let deepest = *bags.last().unwrap();
    assert_eq!(
        transfer(&mut c, &content(), into(item, deepest)),
        Err(Error::ContainerDepth { container: deepest })
    );
    assert!(transfer(&mut c, &content(), into(item, bags[3])).is_ok());
}
