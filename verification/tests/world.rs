use dm_mcp::campaign::Campaign;
use dm_mcp::characters::{self, CreateParams};
use dm_mcp::content::{
    Ability, BaseItem, CheckKind, ConditionRule, Content, DamageType, Encumbrance, Rider, RollModifier, SetupQuestion,
    Skill,
};
use dm_mcp::error::Error;
use dm_mcp::rows::{
    Connection, Direction, KnowledgeLevel, Landmark, LandmarkKind, LandmarkKnowledge, TravelMode, Zone, ZoneKind,
    ZoneSize,
};
use dm_mcp::setup::{self, AnswerParams as SetupAnswerParams, WorldRolls};
use dm_mcp::terrain::{direction_delta, direction_label, opposite_direction};
use dm_mcp::world::{
    current_campaign_hour, describe_zone, travel, travel_with, DescribeZoneParams, MapParams, TravelParams,
    TravelRolls,
};

fn s(text: &str) -> String {
    text.to_string()
}

fn base(id: &str, pounds: i64, gold: i64, stackable: bool) -> BaseItem {
    BaseItem { id: s(id), weight_lb: pounds * 1000, base_value_gp: gold * 1000, stackable }
}

fn ability(id: &str, name: &str) -> Ability {
    Ability { id: s(id), name: s(name), governs: s("") }
}

fn skill(id: &str, ability: &str) -> Skill {
    Skill { id: s(id), ability: s(ability), description: s("") }
}

fn content() -> Content {
    Content {
        abilities: vec![
            ability("str", "Strength"),
            ability("dex", "Dexterity"),
            ability("con", "Constitution"),
            ability("int", "Intelligence"),
            ability("wis", "Wisdom"),
            ability("cha", "Charisma"),
        ],
        skills: vec![skill("athletics", "str"), skill("stealth", "dex"), skill("persuasion", "cha")],
        damage_types: vec![DamageType { id: s("fire"), physical: false, description: s("burns") }],
        conditions: vec![
            ConditionRule {
                id: s("blinded"),
                riders: vec![Rider { kind: CheckKind::AttackRoll, modifier: RollModifier::Disadvantage }],
                auto_fail: vec![s("sight")],
            },
            ConditionRule {
                id: s("invisible"),
                riders: vec![Rider { kind: CheckKind::AttackRoll, modifier: RollModifier::Advantage }],
                auto_fail: vec![],
            },
            ConditionRule {
                id: s("paralyzed"),
                riders: vec![Rider { kind: CheckKind::SavingThrow, modifier: RollModifier::AutoFail }],
                auto_fail: vec![],
            },
        ],
        biomes: vec![s("temperate_forest")],
        weapons: vec![s("longsword")],
        enchantments: vec![s("flaming")],
        archetypes: vec![],
        item_bases: vec![
            base("gold", 0, 1, true),
            base("heavy_crate", 100, 5, false),
            base("stone", 10, 0, true),
            base("backpack", 5, 2, false),
            base("longsword", 3, 15, false),
        ],
        encumbrance: Encumbrance {
            capacity_per_str: 15,
            encumbered_threshold_pct: 67,
            overloaded_threshold_pct: 100,
        },
        death_events: vec![],
        setup_questions: vec![],
        name_pools: vec![],
    }
}

fn person(name: &str, role: &str) -> CreateParams {
    CreateParams {
        name: name.to_string(),
        role: role.to_string(),
        str_score: 10,
        dex_score: 10,
        con_score: 10,
        int_score: 10,
        wis_score: 10,
        cha_score: 10,
        hp_max: None,
        hp_current: None,
        armor_class: None,
        speed_ft: None,
        initiative_bonus: None,
        size: None,
        species: None,
        class_or_archetype: None,
        ideology: None,
        backstory: None,
        plans: None,
        loyalty: None,
        party_id: None,
        current_zone_id: None,
    }
}

fn fresh() -> (Campaign, Content) {
    let mut k = content();
    k.setup_questions = vec![SetupQuestion { id: s("starting_biome"), prompt: s("Where?") }];
    (Campaign::new(), k)
}

fn settler(c: &mut Campaign, zone: i64) -> i64 {
    let mut p = person("Kira", "player");
    p.current_zone_id = Some(zone);
    characters::create(c, p).unwrap().character_id
}

fn bootstrap_world(c: &mut Campaign, content: &Content) -> (i64, Vec<i64>, i64) {
    setup::answer(
        c,
        content,
        SetupAnswerParams { question_id: "starting_biome".into(), answer: "\"temperate_forest\"".into() },
        0,
    )
    .unwrap();
    let gw = setup::generate_world(c, content).unwrap();
    let player = settler(c, gw.starting_zone_id);
    (player, gw.neighbour_zone_ids, gw.starting_zone_id)
}

/// A first zone with neighbours to the north and the northeast, and someone in it.
fn small_world() -> (Campaign, i64) {
    let mut c = Campaign::new();
    setup::generate_from(
        &mut c,
        "plains",
        &WorldRolls { neighbours: 2, directions: vec![7, 6, 5, 4, 3, 2, 1] },
    );
    let k = settler(&mut c, 1);
    (c, k)
}

fn calm() -> TravelRolls {
    TravelRolls {
        neighbours: 2,
        directions: vec![7, 6, 5, 4, 3, 2, 1],
        landmarks: 1,
        features: vec![3, 2, 1],
    }
}

fn zone(id: i64, name: &str) -> Zone {
    Zone {
        id,
        name: s(name),
        biome: s("temperate_forest"),
        kind: ZoneKind::Wilderness,
        size: ZoneSize::Small,
        description: None,
    }
}

fn go(c: &mut Campaign, character_id: i64, to_zone_id: i64) {
    travel_with(c, &TravelParams { character_id, to_zone_id }, &calm()).unwrap();
}

fn level(c: &Campaign, character_id: i64, zone_id: i64) -> Option<KnowledgeLevel> {
    c.zone_knowledge.iter().find(|k| k.character_id == character_id && k.zone_id == zone_id).map(|k| k.level)
}

#[test]
fn travel_advances_clock_and_knowledge() {
    let (mut c, content) = fresh();
    let (player, neighbours, _starting) = bootstrap_world(&mut c, &content);
    let target = neighbours[0];

    let r = travel(&mut c, TravelParams { character_id: player, to_zone_id: target }).expect("travel");

    assert_eq!(r.knowledge_level, "visited");
    assert!(
        r.campaign_hour_after > r.campaign_hour_before,
        "clock should advance: before={} after={}",
        r.campaign_hour_before,
        r.campaign_hour_after
    );

    let row = c.characters.iter().find(|x| x.id == player).unwrap();
    assert_eq!(row.current_zone_id, Some(target));
    assert_eq!(level(&c, player, target).unwrap().as_str(), "visited");
}

#[test]
fn travel_rejects_missing_connection() {
    let (mut c, content) = fresh();
    let (player, _neighbours, _starting) = bootstrap_world(&mut c, &content);
    let island = c.zones.len() as i64 + 1;
    c.zones.push(zone(island, "Island"));
    let err = travel(&mut c, TravelParams { character_id: player, to_zone_id: island })
        .expect_err("no connection should reject travel");
    assert!(err.message().contains("zone_connection"));
}

#[test]
fn travel_first_visit_generates_stubs_and_landmarks() {
    let (mut c, content) = fresh();
    let (player, neighbours, _starting) = bootstrap_world(&mut c, &content);
    let target = neighbours[0];

    let r = travel(&mut c, TravelParams { character_id: player, to_zone_id: target }).unwrap();
    assert!(
        !r.stubs_generated.is_empty(),
        "first visit to a stub neighbour should generate its own neighbours"
    );
    assert!(!r.landmarks_generated.is_empty(), "first visit should generate at least one landmark");
}

#[test]
fn map_returns_origin_at_zero_zero_with_known_zones() {
    let (mut c, content) = fresh();
    let (player, neighbours, starting) = bootstrap_world(&mut c, &content);
    let target = neighbours[0];
    travel(&mut c, TravelParams { character_id: player, to_zone_id: target }).unwrap();
    travel(&mut c, TravelParams { character_id: player, to_zone_id: starting }).unwrap();

    let m = dm_mcp::world::map(&c, MapParams { character_id: player }).unwrap();
    assert_eq!(m.origin_zone_id, starting);
    let origin = m.zones.iter().find(|z| z.id == starting).unwrap();
    assert_eq!((origin.x, origin.y), (0, 0));
    let visited_target = m.zones.iter().find(|z| z.id == target).unwrap();
    assert_eq!(visited_target.knowledge_level, "visited");
    assert!((visited_target.x, visited_target.y) != (0, 0), "neighbour should have non-zero coords");
    assert!(
        m.connections
            .iter()
            .any(|c| (c.from_zone_id, c.to_zone_id) == (starting, target)
                || (c.from_zone_id, c.to_zone_id) == (target, starting)),
        "map should include the starting↔target connection"
    );
}

#[test]
fn describe_zone_requires_some_knowledge() {
    let (mut c, content) = fresh();
    let (player, _neighbours, _starting) = bootstrap_world(&mut c, &content);
    let hidden = c.zones.len() as i64 + 1;
    c.zones.push(zone(hidden, "Hidden Vale"));
    let err = describe_zone(&c, DescribeZoneParams { character_id: player, zone_id: hidden })
        .expect_err("describe_zone should refuse zones the character has no knowledge of");
    assert!(err.message().contains("no knowledge"));
}

#[test]
fn a_journey_takes_its_time_and_shows_the_land() {
    let (mut c, k) = small_world();
    let r = travel_with(&mut c, &TravelParams { character_id: k, to_zone_id: 2 }, &calm()).unwrap();
    assert_eq!((r.from_zone_id, r.to_zone_id, r.travel_time_hours), (1, 2, 2));
    assert_eq!((r.campaign_hour_before, r.campaign_hour_after), (0, 2));
    assert_eq!((r.stubs_generated, r.landmarks_generated), (vec![4, 5], vec![1]));
    assert_eq!(current_campaign_hour(&c), 2);
    assert_eq!(c.landmarks[0].name, "A weathered stone marker");
    assert_eq!(c.zones[3].biome, "plains");
    assert_eq!(
        c.events.last().unwrap().summary,
        "Character id=1 travelled from zone 1 to zone 2 (2h, hour now 2)"
    );
    assert_eq!(level(&c, k, 1), Some(KnowledgeLevel::Visited));
    assert_eq!(level(&c, k, 4), Some(KnowledgeLevel::Rumored));
    assert_eq!(level(&c, k, 3), None);
    let r = travel_with(&mut c, &TravelParams { character_id: k, to_zone_id: 1 }, &calm()).unwrap();
    assert_eq!((r.campaign_hour_after, r.stubs_generated.len(), r.landmarks_generated.len()), (4, 0, 0));
    assert_eq!(level(&c, k, 2), Some(KnowledgeLevel::Visited), "knowledge is not lost");
    assert_eq!(level(&c, k, 3), Some(KnowledgeLevel::Rumored));
    assert!(c.check());
}

#[test]
fn journeys_that_cannot_be_made() {
    let (mut c, k) = small_world();
    let before = c.clone();
    let to = |character_id: i64, to_zone_id: i64| TravelParams { character_id, to_zone_id };
    assert_eq!(travel(&mut c, to(k, 1)), Err(Error::AlreadyThere { id: k, zone: 1 }));
    assert_eq!(travel(&mut c, to(k, 9)), Err(Error::NoWay { from: 1, to: 9 }));
    assert_eq!(travel(&mut c, to(5, 1)), Err(Error::NoCurrentZone { id: 5 }));
    assert_eq!(c, before);
}

#[test]
fn the_map_lies_as_the_ways_lead() {
    let (mut c, k) = small_world();
    go(&mut c, k, 2);
    let m = dm_mcp::world::map(&c, MapParams { character_id: k }).unwrap();
    let places: Vec<(i64, i32, i32, &str)> =
        m.zones.iter().map(|z| (z.id, z.x, z.y, z.knowledge_level.as_str())).collect();
    assert_eq!(
        places,
        vec![(1, 0, -1, "visited"), (2, 0, 0, "visited"), (4, 0, 1, "rumored"), (5, 1, 1, "rumored")]
    );
    assert!(m.connections.iter().all(|w| w.to_zone_id != 3), "zone 3 is not known yet");
}

#[test]
fn hidden_landmarks_stay_hidden() {
    let (mut c, k) = small_world();
    for id in [1, 2] {
        c.landmarks.push(Landmark {
            id,
            zone_id: 1,
            name: s("Shrine"),
            kind: LandmarkKind::Temple,
            description: None,
            hidden: id == 2,
        });
    }
    let seen = |c: &Campaign| -> Vec<(i64, String)> {
        describe_zone(c, DescribeZoneParams { character_id: k, zone_id: 1 })
            .unwrap()
            .landmarks
            .iter()
            .map(|l| (l.id, l.knowledge_level.clone()))
            .collect()
    };
    assert_eq!(seen(&c), vec![(1, s("rumored"))]);
    c.landmark_knowledge.push(LandmarkKnowledge {
        character_id: k,
        landmark_id: 1,
        level: KnowledgeLevel::Known,
        first_event_id: None,
        last_visit_at_hour: None,
    });
    assert!(c.check());
    assert_eq!(seen(&c), vec![(1, s("known"))]);
}

#[test]
fn zones_are_described() {
    let (c, k) = small_world();
    let z = describe_zone(&c, DescribeZoneParams { character_id: k, zone_id: 1 }).unwrap();
    assert_eq!((z.name.as_str(), z.biome.as_str(), z.kind.as_str()), ("Starting plains", "plains", "wilderness"));
    assert_eq!((z.size.as_str(), z.knowledge_level.as_str()), ("small", "visited"));
    assert_eq!(
        z.connections.iter().map(|w| w.direction_from.as_str()).collect::<Vec<&str>>(),
        vec!["n", "ne"]
    );
    assert_eq!(
        describe_zone(&c, DescribeZoneParams { character_id: k, zone_id: 2 }),
        Err(Error::ZoneUnknown { id: k, zone: 2 })
    );
    assert_eq!(dm_mcp::world::map(&c, MapParams { character_id: 8 }), Err(Error::NoCurrentZone { id: 8 }));
}

#[test]
fn who_is_lost_has_no_map() {
    let (mut c, k) = small_world();
    c.zone_knowledge.clear();
    assert_eq!(dm_mcp::world::map(&c, MapParams { character_id: k }), Err(Error::LostHere { id: k, zone: 1 }));
}

#[test]
fn directions_have_their_opposites() {
    let all = [
        Direction::N, Direction::Ne, Direction::E, Direction::Se, Direction::S, Direction::Sw, Direction::W,
        Direction::Nw, Direction::Up, Direction::Down,
    ];
    for d in all {
        let back = opposite_direction(d);
        assert_eq!(opposite_direction(back), d);
        let ((x, y), (u, v)) = (direction_delta(d), direction_delta(back));
        assert_eq!((x + u, y + v), (0, 0));
    }
    assert_eq!(direction_delta(Direction::Se), (1, -1));
    assert_eq!(direction_label(Direction::Nw), "Northwest");
    assert_eq!(direction_label(Direction::Down), "Below");
}

#[test]
fn the_clock_shows_the_latest_hour() {
    let (mut c, k) = small_world();
    assert_eq!(current_campaign_hour(&c), 0);
    go(&mut c, k, 3);
    go(&mut c, k, 1);
    let late = current_campaign_hour(&c);
    assert_eq!(late, 4);
    c.events[0].campaign_hour = -300;
    assert_eq!(current_campaign_hour(&c), late);
    assert_eq!(current_campaign_hour(&Campaign::new()), 0);
}

#[test]
fn other_ways_take_other_times() {
    let (mut c, k) = small_world();
    c.zones.push(zone(4, "Keep"));
    c.connections.push(Connection {
        from_zone_id: 1,
        to_zone_id: 4,
        travel_time_hours: 9,
        travel_mode: TravelMode::Road,
        one_way: true,
        direction_from: Direction::Up,
    });
    assert!(c.check());
    let r = travel_with(&mut c, &TravelParams { character_id: k, to_zone_id: 4 }, &calm()).unwrap();
    assert_eq!(r.campaign_hour_after, 9);
    assert_eq!(
        travel(&mut c, TravelParams { character_id: k, to_zone_id: 1 }),
        Err(Error::NoWay { from: 4, to: 1 })
    );
}
