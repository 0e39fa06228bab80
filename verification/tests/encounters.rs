use dm_mcp::campaign::Campaign;
use dm_mcp::characters::{self, CreateParams as CharCreateParams};
use dm_mcp::doubles::Double;
use dm_mcp::encounters::{
    abandon, complete, create, fail, AbandonParams, CompleteParams, CreateParams as Setup, CreateParticipant,
    CreateResult, FailParams, OutcomeResult, PlayerXpAward,
};
use dm_mcp::error::{Error, Fault};
use dm_mcp::rows::{EncounterStatus, Value};

fn person(name: &str, role: &str) -> CharCreateParams {
    CharCreateParams {
        name: name.to_string(),
        role: role.to_string(),
        str_score: 10,
        dex_score: 10,
        con_score: 10,
        int_score: 10,
        wis_score: 10,
        cha_score: 10,
        hp_max: None,
        hp_current: None,
        armor_class: None,
        speed_ft: None,
        initiative_bonus: None,
        size: None,
        species: None,
        class_or_archetype: None,
        ideology: None,
        backstory: None,
        plans: None,
        loyalty: None,
        party_id: None,
        current_zone_id: None,
    }
}

fn make_char(c: &mut Campaign, name: &str, role: &str) -> i64 {
    let mut p = person(name, role);
    p.hp_max = Some(10);
    p.hp_current = Some(10);
    p.armor_class = Some(12);
    p.initiative_bonus = Some(1);
    characters::create(c, p).unwrap().character_id
}

fn side(character_id: i64, side: &str) -> CreateParticipant {
    CreateParticipant { character_id, side: side.into() }
}

fn setup(xp_budget: i32, participants: Vec<CreateParticipant>) -> Setup {
    Setup { zone_id: None, name: None, goal: "g".into(), estimated_duration_hours: None, xp_budget, participants }
}

fn double(x: f64) -> Double {
    Double { bits: x.to_bits() }
}

fn completion(encounter_id: i64, path: &str) -> CompleteParams {
    CompleteParams { encounter_id, path: path.into(), xp_modifier: None, hours_elapsed: None }
}

#[test]
fn create_complete_awards_xp_to_player_side() {
    let mut c = Campaign::new();
    let player = make_char(&mut c, "Kira", "player");
    let ally = make_char(&mut c, "Ally", "companion");
    let enemy = make_char(&mut c, "Goblin", "enemy");

    let made = create(
        &mut c,
        Setup {
            zone_id: None,
            name: Some("Goblin ambush".into()),
            goal: "Survive the ambush".into(),
            estimated_duration_hours: Some(1),
            xp_budget: 200,
            participants: vec![side(player, "player_side"), side(ally, "player_side"), side(enemy, "hostile")],
        },
    )
    .expect("create");

    let r = complete(&mut c, completion(made.encounter_id, "combat_victory")).expect("complete");

    assert_eq!(r.status, "goal_completed");
    assert_eq!(r.xp_awarded_total, 200);
    assert_eq!(r.per_player_xp.len(), 2);
    for award in &r.per_player_xp {
        assert_eq!(award.xp, 100);
    }
    let xp = c.characters.iter().find(|x| x.id == player).unwrap().xp_total;
    assert_eq!(xp, 100);
    let xp = c.characters.iter().find(|x| x.id == enemy).unwrap().xp_total;
    assert_eq!(xp, 0, "enemies are not player_side so no XP");
}

#[test]
fn complete_rejects_non_active() {
    let mut c = Campaign::new();
    let player = make_char(&mut c, "K", "player");
    let made = create(&mut c, setup(50, vec![side(player, "player_side")])).unwrap();
    abandon(&mut c, AbandonParams { encounter_id: made.encounter_id, reason: "fled".into() }).unwrap();
    let err = complete(&mut c, completion(made.encounter_id, "x"))
        .expect_err("completing abandoned encounter should fail");
    assert!(err.message().contains("not active"));
}

#[test]
fn complete_reports_truthful_xp_total_under_integer_division() {
    let mut c = Campaign::new();
    let a = make_char(&mut c, "A", "player");
    let b = make_char(&mut c, "B", "companion");
    let d = make_char(&mut c, "C", "companion");
    let mut p = setup(200, vec![side(a, "player_side"), side(b, "player_side"), side(d, "player_side")]);
    p.estimated_duration_hours = Some(1);
    let made = create(&mut c, p).unwrap();
    let r = complete(&mut c, completion(made.encounter_id, "combat_victory")).unwrap();
    let per_player_sum: i32 = r.per_player_xp.iter().map(|a| a.xp).sum();
    assert_eq!(r.xp_awarded_total, per_player_sum, "xp_awarded_total must equal the sum of per_player_xp");
    assert_eq!(r.xp_awarded_total, 198);
}

#[test]
fn xp_modifier_scales_award() {
    let mut c = Campaign::new();
    let player = make_char(&mut c, "K", "player");
    let made = create(&mut c, setup(200, vec![side(player, "player_side")])).unwrap();
    let r = complete(
        &mut c,
        CompleteParams {
            encounter_id: made.encounter_id,
            path: "flight".into(),
            xp_modifier: Some(double(0.5)),
            hours_elapsed: None,
        },
    )
    .unwrap();
    assert_eq!(r.xp_awarded_total, 100);
}

#[test]
fn create_rejects_negative_xp_budget() {
    let mut c = Campaign::new();
    let err = create(&mut c, setup(-50, vec![])).expect_err("negative xp_budget should bail");
    let msg = err.message();
    assert!(
        msg.contains("xp_budget") && msg.contains("-50"),
        "error should name the field and value: {msg}"
    );
}

#[test]
fn every_path_earns_the_same() {
    let mut totals: Vec<Vec<PlayerXpAward>> = Vec::new();
    for path in ["combat_victory", "negotiation", "stealth"] {
        let mut c = Campaign::new();
        let k = make_char(&mut c, "K", "player");
        create(&mut c, setup(75, vec![side(k, "player_side")])).unwrap();
        totals.push(complete(&mut c, completion(1, path)).unwrap().per_player_xp);
    }
    assert_eq!(totals[0], vec![PlayerXpAward { character_id: 1, xp: 75 }]);
    assert!(totals.iter().all(|t| *t == totals[0]));
}

#[test]
fn nobody_on_the_player_side_earns_nothing() {
    let mut c = Campaign::new();
    let enemy = make_char(&mut c, "E", "enemy");
    create(&mut c, setup(100, vec![side(enemy, "hostile")])).unwrap();
    let r = complete(&mut c, completion(1, "x")).unwrap();
    assert_eq!((r.xp_awarded_total, r.per_player_xp.len()), (0, 0));
    assert_eq!(c.characters[0].xp_total, 0);
}

#[test]
fn awards_round_to_the_nearest_point() {
    for (budget, modifier, expected) in [
        (3, 0.5, 2),
        (5, 0.5, 3),
        (100, 0.333333, 33),
        (100, 1.255, 125),
        (45, 0.7, 31),
        (100, 1.0, 100),
        (100, 3.5, 200),
        (100, -1.0, 0),
        (100, -0.0, 0),
        (100, 5e-324, 0),
        (100, f64::INFINITY, 200),
        (100, f64::NAN, 0),
        (i32::MAX, 2.0, i32::MAX),
        (i32::MAX, 1.0, i32::MAX),
        (i32::MAX, 0.1, 214748365),
    ] {
        let mut c = Campaign::new();
        let k = make_char(&mut c, "K", "player");
        create(&mut c, setup(budget, vec![side(k, "player_side")])).unwrap();
        let mut p = completion(1, "x");
        p.xp_modifier = Some(double(modifier));
        assert_eq!(complete(&mut c, p).unwrap().xp_awarded_total, expected);
    }
}

#[test]
fn an_encounter_ends_once() {
    let mut c = Campaign::new();
    create(&mut c, setup(10, vec![])).unwrap();
    assert_eq!(
        fail(&mut c, FailParams { encounter_id: 1, reason: "too slow".into() }),
        Ok(OutcomeResult { encounter_id: 1, status: "failed".into(), event_id: 2 })
    );
    let before = c.clone();
    assert_eq!(
        abandon(&mut c, AbandonParams { encounter_id: 1, reason: "x".into() }),
        Err(Error::EncounterNotActive { id: 1, status: EncounterStatus::Failed })
    );
    assert_eq!(
        complete(&mut c, completion(1, "x")),
        Err(Error::CannotComplete { id: 1, status: EncounterStatus::Failed })
    );
    assert_eq!(c, before);
}

#[test]
fn completion_takes_the_time_it_says() {
    let mut c = Campaign::new();
    let mut p = setup(0, vec![]);
    p.estimated_duration_hours = Some(3);
    assert_eq!(create(&mut c, p), Ok(CreateResult { encounter_id: 1, event_id: 1 }));
    complete(&mut c, completion(1, "x")).unwrap();
    assert_eq!(c.encounters[0].ended_at_hour, Some(3));
    create(&mut c, setup(0, vec![])).unwrap();
    let mut p = completion(2, "x");
    p.hours_elapsed = Some(5);
    complete(&mut c, p).unwrap();
    assert_eq!((c.encounters[1].started_at_hour, c.encounters[1].ended_at_hour), (3, Some(8)));
    assert_eq!(c.encounters[1].status, EncounterStatus::GoalCompleted);
}

#[test]
fn participants_are_checked() {
    let mut c = Campaign::new();
    let k = make_char(&mut c, "K", "player");
    let before = c.clone();
    assert_eq!(
        create(&mut c, setup(1, vec![side(k, "chaos")])),
        Err(Error::UnknownSide { id: k, side: "chaos".into() })
    );
    assert_eq!(
        create(&mut c, setup(1, vec![side(9, "ally")])),
        Err(Error::EncounterParticipantRow {
            encounter_id: 1,
            character_id: 9,
            side: "ally".into(),
            fault: Fault::ForeignKey,
        })
    );
    assert_eq!(
        create(&mut c, setup(1, vec![side(k, "ally"), side(k, "neutral")])),
        Err(Error::EncounterParticipantRow {
            encounter_id: 1,
            character_id: k,
            side: "neutral".into(),
            fault: Fault::Unique,
        })
    );
    let mut p = setup(1, vec![]);
    p.zone_id = Some(4);
    assert_eq!(create(&mut c, p), Err(Error::EncounterRow));
    assert_eq!(complete(&mut c, completion(1, "x")), Err(Error::EncounterNotFound { id: 1 }));
    assert_eq!(
        fail(&mut c, FailParams { encounter_id: 1, reason: "x".into() }),
        Err(Error::EncounterNotFound { id: 1 })
    );
    assert_eq!(c, before);
}

#[test]
fn outcomes_are_on_record() {
    let mut c = Campaign::new();
    create(&mut c, setup(1, vec![])).unwrap();
    abandon(&mut c, AbandonParams { encounter_id: 1, reason: "rain".into() }).unwrap();
    let event = c.events.last().unwrap();
    assert_eq!(event.kind, "encounter.abandoned");
    assert_eq!(event.encounter_id, Some(1));
    assert_eq!(event.payload.iter().find(|f| f.name == "reason").unwrap().value, Value::Text("rain".into()));
}
