use dm_mcp::campaign::Campaign;
use dm_mcp::characters::{self, CreateParams};
use dm_mcp::content::{
    Ability, BaseItem, CheckKind, ConditionRule, Content, DamageType, Encumbrance, Rider, RollModifier, SetupQuestion,
    Skill,
};
use dm_mcp::error::Error;
use dm_mcp::rows::{Direction, Phase};
use dm_mcp::setup::{
    answer, generate_from, generate_world, generate_world_with, mark_ready, new_campaign, settle_biome,
    AnswerParams, AnswerResult, MarkReadyParams, MarkReadyResult, WorldRolls,
};

fn s(text: &str) -> String {
    text.to_string()
}

fn base(id: &str, pounds: i64, gold: i64, stackable: bool) -> BaseItem {
    BaseItem { id: s(id), weight_lb: pounds * 1000, base_value_gp: gold * 1000, stackable }
}

fn ability(id: &str, name: &str) -> Ability {
    Ability { id: s(id), name: s(name), governs: s("") }
}

fn skill(id: &str, ability: &str) -> Skill {
    Skill { id: s(id), ability: s(ability), description: s("") }
}

fn content() -> Content {
    Content {
        abilities: vec![
            ability("str", "Strength"),
            ability("dex", "Dexterity"),
            ability("con", "Constitution"),
            ability("int", "Intelligence"),
            ability("wis", "Wisdom"),
            ability("cha", "Charisma"),
        ],
        skills: vec![skill("athletics", "str"), skill("stealth", "dex"), skill("persuasion", "cha")],
        damage_types: vec![DamageType { id: s("fire"), physical: false, description: s("burns") }],
        conditions: vec![
            ConditionRule {
                id: s("blinded"),
                riders: vec![Rider { kind: CheckKind::AttackRoll, modifier: RollModifier::Disadvantage }],
                auto_fail: vec![s("sight")],
            },
            ConditionRule {
                id: s("invisible"),
                riders: vec![Rider { kind: CheckKind::AttackRoll, modifier: RollModifier::Advantage }],
                auto_fail: vec![],
            },
            ConditionRule {
                id: s("paralyzed"),
                riders: vec![Rider { kind: CheckKind::SavingThrow, modifier: RollModifier::AutoFail }],
                auto_fail: vec![],
            },
        ],
        biomes: vec![s("temperate_forest")],
        weapons: vec![s("longsword")],
        enchantments: vec![s("flaming")],
        archetypes: vec![],
        item_bases: vec![
            base("gold", 0, 1, true),
            base("heavy_crate", 100, 5, false),
            base("stone", 10, 0, true),
            base("backpack", 5, 2, false),
            base("longsword", 3, 15, false),
        ],
        encumbrance: Encumbrance {
            capacity_per_str: 15,
            encumbered_threshold_pct: 67,
            overloaded_threshold_pct: 100,
        },
        death_events: vec![],
        setup_questions: vec![],
        name_pools: vec![],
    }
}

fn person(name: &str, role: &str) -> CreateParams {
    CreateParams {
        name: name.to_string(),
        role: role.to_string(),
        str_score: 10,
        dex_score: 10,
        con_score: 10,
        int_score: 10,
        wis_score: 10,
        cha_score: 10,
        hp_max: None,
        hp_current: None,
        armor_class: None,
        speed_ft: None,
        initiative_bonus: None,
        size: None,
        species: None,
        class_or_archetype: None,
        ideology: None,
        backstory: None,
        plans: None,
        loyalty: None,
        party_id: None,
        current_zone_id: None,
    }
}

fn fresh() -> (Campaign, Content) {
    let mut k = content();
    k.setup_questions = vec![
        SetupQuestion { id: s("starting_biome"), prompt: s("Where?") },
        SetupQuestion { id: s("tone"), prompt: s("How?") },
    ];
    (Campaign::new(), k)
}

fn reply(question: &str, json: &str) -> AnswerParams {
    AnswerParams { question_id: s(question), answer: s(json) }
}

fn unshuffled(neighbours: usize) -> WorldRolls {
    WorldRolls { neighbours, directions: vec![7, 6, 5, 4, 3, 2, 1] }
}

#[test]
fn new_campaign_returns_questions_in_setup_phase() {
    let (c, content) = fresh();
    let r = new_campaign(&c, &content).unwrap();
    assert_eq!(r.phase, "setup");
    assert!(r.questions.iter().any(|q| q.id == "starting_biome"));
    assert!(r.questions.iter().any(|q| q.id == "tone"));
}

#[test]
fn answer_upserts() {
    let (mut c, content) = fresh();
    answer(&mut c, &content, reply("starting_biome", "\"temperate_forest\""), 100).unwrap();
    answer(&mut c, &content, reply("starting_biome", "\"plains\""), 200).unwrap();
    let stored: Vec<&str> =
        c.answers.iter().filter(|a| a.question_id == "starting_biome").map(|a| a.answer.as_str()).collect();
    assert_eq!(stored.len(), 1);
    assert!(stored[0].contains("plains"));
    assert_eq!(c.answers[0].answered_at, 200);
}

#[test]
fn answer_rejects_unknown_question() {
    let (mut c, content) = fresh();
    let err = answer(&mut c, &content, reply("made_up_question", "\"anything\""), 0)
        .expect_err("should reject unknown question");
    assert!(err.message().contains("unknown question_id"));
    assert_eq!(
        err.message(),
        "unknown question_id \"made_up_question\"; valid: [\"starting_biome\", \"tone\"]"
    );
}

#[test]
fn generate_world_creates_zone_plus_neighbours() {
    let (mut c, content) = fresh();
    answer(&mut c, &content, reply("starting_biome", "\"temperate_forest\""), 0).unwrap();
    let r = generate_world(&mut c, &content).expect("generate_world");
    assert!(r.starting_zone_id > 0);
    assert!(r.starting_biome == "temperate_forest");
    assert!(
        (2..=5).contains(&r.neighbour_zone_ids.len()),
        "expected 2-5 neighbours, got {}",
        r.neighbour_zone_ids.len()
    );

    for n in &r.neighbour_zone_ids {
        let ways = c
            .connections
            .iter()
            .filter(|x| {
                (x.from_zone_id == r.starting_zone_id && x.to_zone_id == *n)
                    || (x.from_zone_id == *n && x.to_zone_id == r.starting_zone_id)
            })
            .count();
        assert_eq!(ways, 2, "expected forward+reverse edges between starting and neighbour {n}");
    }
}

#[test]
fn generate_world_requires_starting_biome_answer() {
    let (mut c, content) = fresh();
    let err = generate_world(&mut c, &content).expect_err("missing starting_biome should fail");
    assert!(err.message().contains("starting_biome"));
}

#[test]
fn mark_ready_flips_phase_and_emits_event() {
    let (mut c, content) = fresh();
    answer(&mut c, &content, reply("starting_biome", "\"temperate_forest\""), 0).unwrap();
    generate_world(&mut c, &content).unwrap();

    let r = mark_ready(&mut c, MarkReadyParams { player_character_id: None }, 1_700_000_000).expect("mark_ready");

    assert_eq!(r.phase, "running");
    assert_eq!(c.state.phase.as_str(), "running");
    let event = c.events.iter().find(|e| e.id == r.event_id).unwrap();
    assert_eq!(event.kind, "campaign.started");
}

#[test]
fn mark_ready_refuses_double_invocation() {
    let (mut c, content) = fresh();
    answer(&mut c, &content, reply("starting_biome", "\"temperate_forest\""), 0).unwrap();
    generate_world(&mut c, &content).unwrap();
    mark_ready(&mut c, MarkReadyParams { player_character_id: None }, 5).unwrap();
    let err = mark_ready(&mut c, MarkReadyParams { player_character_id: None }, 6)
        .expect_err("second mark_ready should fail");
    assert!(err.message().contains("already in phase"));
}

#[test]
fn neighbours_lie_in_different_directions() {
    let mut c = Campaign::new();
    let r = generate_from(&mut c, "deep_wood", &unshuffled(3));
    assert_eq!((r.starting_zone_id, r.starting_zone_name.as_str()), (1, "Starting deep wood"));
    assert_eq!(r.neighbour_zone_ids, vec![2, 3, 4]);
    let names: Vec<&str> = c.zones.iter().map(|z| z.name.as_str()).collect();
    assert_eq!(
        names,
        vec!["Starting deep wood", "Unexplored North", "Unexplored Northeast", "Unexplored East"]
    );
    let ways: Vec<(i64, i64, Direction)> =
        c.connections.iter().map(|w| (w.from_zone_id, w.to_zone_id, w.direction_from)).collect();
    assert_eq!(
        ways,
        vec![
            (1, 2, Direction::N),
            (2, 1, Direction::S),
            (1, 3, Direction::Ne),
            (3, 1, Direction::Sw),
            (1, 4, Direction::E),
            (4, 1, Direction::W),
        ]
    );
    assert!(c.connections.iter().all(|w| w.travel_time_hours == 2 && !w.one_way));
    assert_eq!(c.events[0].kind, "world.generated");
    assert_eq!(c.events[0].zone_id, Some(1));
}

#[test]
fn draws_shuffle_the_compass() {
    let mut c = Campaign::new();
    let rolls = WorldRolls { neighbours: 2, directions: vec![0, 0, 0, 0, 0, 0, 0] };
    generate_from(&mut c, "plains", &rolls);
    // Each point in turn goes to the front, so all move down by one place.
    assert_eq!(c.connections[0].direction_from, Direction::Ne);
    assert_eq!(c.connections[2].direction_from, Direction::E);
}

#[test]
fn answers_are_read_as_json() {
    let (mut c, content) = fresh();
    answer(&mut c, &content, reply("starting_biome", "\"deep\\u0020wood\""), 0).unwrap();
    let r = generate_world_with(&mut c, &unshuffled(2)).unwrap();
    assert_eq!(r.starting_biome, "deep wood");
}

#[test]
fn only_a_text_names_a_biome() {
    assert_eq!(settle_biome(Err("why".to_string())), Err(Error::AnswerNotJson { cause: "why".to_string() }));
    assert_eq!(settle_biome(Ok(None)), Err(Error::NoStartingBiome));
    assert_eq!(settle_biome(Ok(Some("tundra".to_string()))), Ok("tundra".to_string()));
}

#[test]
fn an_answer_that_is_no_text_is_none() {
    let (mut c, content) = fresh();
    answer(&mut c, &content, reply("starting_biome", "3"), 0).unwrap();
    assert_eq!(generate_world(&mut c, &content), Err(Error::NoStartingBiome));
    answer(&mut c, &content, reply("starting_biome", "plains"), 0).unwrap();
    assert_eq!(
        generate_world(&mut c, &content).unwrap_err().message(),
        "decode campaign_setup_answers.answer JSON: expected value at line 1 column 1"
    );
    assert!(c.zones.is_empty());
}

#[test]
fn a_campaign_begins_once() {
    let (mut c, content) = fresh();
    characters::create(&mut c, person("Kira", "player")).unwrap();
    let before = c.clone();
    assert_eq!(mark_ready(&mut c, MarkReadyParams { player_character_id: Some(4) }, 9), Err(Error::StateRow));
    assert_eq!(c, before);
    assert_eq!(
        mark_ready(&mut c, MarkReadyParams { player_character_id: Some(1) }, 9),
        Ok(MarkReadyResult { phase: s("running"), started_at: 9, event_id: 2 })
    );
    assert_eq!((c.state.started_at, c.state.player_character_id), (Some(9), Some(1)));
    let phase = Phase::Running;
    assert_eq!(new_campaign(&c, &content), Err(Error::NotNew { phase }));
    assert_eq!(answer(&mut c, &content, reply("tone", "1"), 0), Err(Error::TooLateToAnswer { phase }));
    assert_eq!(generate_world(&mut c, &content), Err(Error::TooLateToGenerate { phase }));
    assert_eq!(
        mark_ready(&mut c, MarkReadyParams { player_character_id: None }, 10),
        Err(Error::AlreadyReady { phase })
    );
}

#[test]
fn the_last_answer_stands() {
    let (mut c, content) = fresh();
    assert_eq!(
        answer(&mut c, &content, reply("tone", "\"grim\""), 1),
        Ok(AnswerResult { question_id: s("tone") })
    );
    answer(&mut c, &content, reply("starting_biome", "\"plains\""), 2).unwrap();
    answer(&mut c, &content, reply("tone", "\"light\""), 3).unwrap();
    let rows: Vec<(&str, &str)> = c.answers.iter().map(|a| (a.question_id.as_str(), a.answer.as_str())).collect();
    assert_eq!(rows, vec![("tone", "\"light\""), ("starting_biome", "\"plains\"")]);
}

#[test]
fn campaign_state_singleton_is_seeded_in_setup_phase() {
    let c = Campaign::new();
    assert_eq!(c.state.phase.as_str(), "setup");
    assert_eq!(c.state.started_at, None);
}
