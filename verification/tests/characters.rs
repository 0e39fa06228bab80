use dm_mcp::campaign::Campaign;
use dm_mcp::characters::{
    change_role, check_stats_fit, create, default_ac, default_hp, default_loyalty, default_size, default_speed,
    get, update_plans, ChangeRoleParams, CreateParams, CreateResult, UpdatePlansParams, UpdateResult,
};
use dm_mcp::error::Error;
use dm_mcp::rows::{
    Effect, EventParticipant, EventRole, Field, KnowledgeLevel, Party, Role, Size, Status, TargetKind, Value, Zone,
    ZoneKind, ZoneKnowledge, ZoneSize,
};

fn sample_params(name: &str) -> CreateParams {
    CreateParams {
        name: name.to_string(),
        role: "player".to_string(),
        str_score: 14,
        dex_score: 12,
        con_score: 13,
        int_score: 10,
        wis_score: 11,
        cha_score: 9,
        hp_max: Some(12),
        hp_current: None,
        armor_class: Some(13),
        speed_ft: Some(30),
        initiative_bonus: Some(1),
        size: None,
        species: None,
        class_or_archetype: None,
        ideology: None,
        backstory: None,
        plans: None,
        loyalty: None,
        party_id: None,
        current_zone_id: None,
    }
}

fn zone(id: i64) -> Zone {
    Zone {
        id,
        name: "Hollow".to_string(),
        biome: "forest".to_string(),
        kind: ZoneKind::Wilderness,
        size: ZoneSize::Medium,
        description: None,
    }
}

fn strength(id: i64, target: i64, event: i64, modifier: i32) -> Effect {
    Effect {
        id,
        target_character_id: target,
        source: "potion:bulls-strength".to_string(),
        target_kind: TargetKind::Ability,
        target_key: "str_score".to_string(),
        modifier,
        dice_expr: None,
        start_event_id: event,
        expires_at_hour: None,
        expires_after_rounds: None,
        expires_on_dispel: true,
        active: true,
    }
}

fn refused(change: fn(&mut CreateParams)) -> Error {
    let mut c = Campaign::new();
    let before = c.clone();
    let mut p = sample_params("X");
    change(&mut p);
    let e = create(&mut c, p).expect_err("refused");
    assert_eq!(c, before);
    e
}

#[test]
fn create_inserts_row_and_emits_event() {
    let mut c = Campaign::new();
    let r = create(&mut c, sample_params("Kira")).expect("create");
    assert!(r.character_id > 0);
    assert!(r.event_id > 0);

    let row = c.characters.iter().find(|x| x.id == r.character_id).unwrap();
    assert_eq!(row.name, "Kira");

    let event = c.events.iter().find(|e| e.id == r.event_id).unwrap();
    assert_eq!(event.kind, "character.created");
    assert_eq!(event.participants[0].character_id, r.character_id);
}

#[test]
fn create_rejects_bad_role() {
    let mut c = Campaign::new();
    let mut p = sample_params("X");
    p.role = "villain".into();
    assert!(create(&mut c, p).is_err());
}

#[test]
fn create_rejects_out_of_range_ability_scores() {
    let mut c = Campaign::new();
    let mutators: [(&str, fn(&mut CreateParams)); 4] = [
        ("str_score=999", |p| p.str_score = 999),
        ("dex_score=-5", |p| p.dex_score = -5),
        ("con_score=0", |p| p.con_score = 0),
        ("int_score=31", |p| p.int_score = 31),
    ];
    for (label, mutator) in mutators {
        let mut p = sample_params("X");
        mutator(&mut p);
        let err = create(&mut c, p).expect_err(label);
        let msg = err.message();
        assert!(msg.contains("1..=30"), "{label}: error should cite the bound: {msg}");
    }
}

#[test]
fn create_rejects_inverted_hp_relationship() {
    let mut c = Campaign::new();
    let mut p = sample_params("X");
    p.hp_max = Some(10);
    p.hp_current = Some(50);
    let err = create(&mut c, p).expect_err("hp_current > hp_max should bail");
    let msg = err.message();
    assert!(msg.contains("hp_current") && msg.contains("hp_max"));
}

#[test]
fn create_rejects_out_of_range_loyalty() {
    let mut c = Campaign::new();
    let mut p = sample_params("X");
    p.loyalty = Some(150);
    let err = create(&mut c, p).expect_err("loyalty > 100 should bail");
    assert!(err.message().contains("loyalty"));
}

#[test]
fn create_rejects_overflow_hp_max() {
    let mut c = Campaign::new();
    let mut p = sample_params("X");
    p.hp_max = Some(i32::MAX);
    let err = create(&mut c, p).expect_err("i32::MAX hp should bail");
    assert!(err.message().contains("hp_max"));
}

#[test]
fn get_returns_base_stats_matching_create() {
    let mut c = Campaign::new();
    let r = create(&mut c, sample_params("Kira")).unwrap();
    let v = get(&c, r.character_id).expect("get");
    assert_eq!(v.str_score, 14);
    assert_eq!(v.effective_str, 14, "no effects yet, effective == base");
    assert_eq!(v.armor_class, 13);
    assert_eq!(v.effective_armor_class, 13);
}

#[test]
fn get_composes_effective_stats_from_active_effects() {
    let mut c = Campaign::new();
    let r = create(&mut c, sample_params("Kira")).unwrap();
    c.effects.push(strength(1, r.character_id, r.event_id, 4));
    assert!(c.check());

    let v = get(&c, r.character_id).unwrap();
    assert_eq!(v.str_score, 14, "base unchanged");
    assert_eq!(v.effective_str, 18, "14 + 4 = 18");
    assert_eq!(v.active_effects.len(), 1);
}

#[test]
fn update_plans_changes_row_and_emits_event() {
    let mut c = Campaign::new();
    let r = create(&mut c, sample_params("Kira")).unwrap();
    let u = update_plans(
        &mut c,
        UpdatePlansParams {
            character_id: r.character_id,
            new_plans: "Find the missing blacksmith.".to_string(),
            reason: Some("Village hooks".to_string()),
        },
    )
    .expect("update_plans");
    assert!(u.event_id > 0);
    let row = c.characters.iter().find(|x| x.id == r.character_id).unwrap();
    assert_eq!(row.plans.as_deref(), Some("Find the missing blacksmith."));
    let event = c.events.iter().find(|e| e.id == u.event_id).unwrap();
    assert_eq!(event.kind, "npc.plan_changed");
}

#[test]
fn change_role_flips_role_and_emits_event() {
    let mut c = Campaign::new();
    let r = create(&mut c, sample_params("Grog")).unwrap();
    let u = change_role(
        &mut c,
        ChangeRoleParams {
            character_id: r.character_id,
            new_role: "enemy".to_string(),
            reason: "revealed as a spy".to_string(),
        },
    )
    .expect("change_role");
    let row = c.characters.iter().find(|x| x.id == r.character_id).unwrap();
    let event = c.events.iter().find(|e| e.id == u.event_id).unwrap();
    assert_eq!(row.role.as_str(), "enemy");
    assert_eq!(event.kind, "npc.role_changed");
}

#[test]
fn defaults_fill_what_the_caller_leaves_out() {
    let mut c = Campaign::new();
    let mut p = sample_params("Nim");
    p.hp_max = None;
    p.armor_class = None;
    p.speed_ft = None;
    p.initiative_bonus = None;
    assert_eq!(create(&mut c, p), Ok(CreateResult { character_id: 1, event_id: 1 }));
    let row = &c.characters[0];
    assert_eq!((row.hp_max, row.hp_current, row.hp_temp), (10, 10, 0));
    assert_eq!((row.armor_class, row.speed_ft, row.initiative_bonus, row.loyalty), (10, 30, 0, 50));
    assert_eq!((row.level, row.xp_total, row.proficiency_bonus), (1, 0, 2));
    assert_eq!((row.size, row.status, row.role), (Size::Medium, Status::Alive, Role::Player));
    assert_eq!(
        (default_hp(), default_ac(), default_speed(), default_size().as_str(), default_loyalty()),
        (10, 10, 30, "medium", 50)
    );
}

#[test]
fn creation_event_quotes_the_name() {
    let mut c = Campaign::new();
    create(&mut c, sample_params("Ki\"ra\n")).unwrap();
    let event = &c.events[0];
    assert_eq!(event.summary, "Created player \"Ki\\\"ra\\n\" (id=1)");
    assert_eq!(event.participants, vec![EventParticipant { character_id: 1, role: EventRole::Actor }]);
    assert_eq!(event.payload[0], Field { name: "role".to_string(), value: Value::Text("player".to_string()) });
    assert_eq!(event.payload[2], Field { name: "str_score".to_string(), value: Value::Int(14) });
    assert_eq!(event.payload.len(), 10);
    assert_eq!(event.campaign_hour, 0);
}

#[test]
fn characters_know_the_zone_they_start_in() {
    let mut c = Campaign::new();
    c.zones.push(zone(1));
    let mut p = sample_params("Kira");
    p.current_zone_id = Some(1);
    create(&mut c, p).unwrap();
    assert_eq!(
        c.zone_knowledge,
        vec![ZoneKnowledge {
            character_id: 1,
            zone_id: 1,
            level: KnowledgeLevel::Visited,
            first_event_id: None,
            last_visit_at_hour: Some(0),
        }]
    );
    assert_eq!(c.events[0].zone_id, Some(1));
}

#[test]
fn each_bound_has_its_own_error() {
    assert_eq!(refused(|p| p.role = "villain".into()), Error::UnknownRole { role: "villain".into() });
    assert_eq!(refused(|p| p.size = Some("vast".into())), Error::UnknownSize { size: "vast".into() });
    assert_eq!(refused(|p| p.wis_score = 31), Error::ScoreBounds { label: "wis_score".into(), value: 31 });
    assert_eq!(refused(|p| p.cha_score = 0), Error::ScoreBounds { label: "cha_score".into(), value: 0 });
    assert_eq!(refused(|p| p.hp_max = Some(0)), Error::HpMaxBounds { value: 0 });
    assert_eq!(refused(|p| p.hp_current = Some(13)), Error::HpCurrentBounds { max: 12, value: 13 });
    assert_eq!(refused(|p| p.armor_class = Some(51)), Error::ArmorClassBounds { value: 51 });
    assert_eq!(refused(|p| p.speed_ft = Some(-1)), Error::SpeedBounds { value: -1 });
    assert_eq!(refused(|p| p.initiative_bonus = Some(21)), Error::InitiativeBounds { value: 21 });
    assert_eq!(refused(|p| p.loyalty = Some(101)), Error::LoyaltyBounds { value: 101 });
    assert_eq!(refused(|p| p.party_id = Some(1)), Error::CharacterRow);
    assert_eq!(refused(|p| p.current_zone_id = Some(1)), Error::StartingZone);
}

#[test]
fn bounds_themselves_are_accepted() {
    let mut c = Campaign::new();
    c.parties.push(Party { id: 1 });
    let mut p = sample_params("Edge");
    p.str_score = 1;
    p.cha_score = 30;
    p.hp_max = Some(10_000);
    p.hp_current = Some(0);
    p.armor_class = Some(50);
    p.speed_ft = Some(0);
    p.initiative_bonus = Some(-20);
    p.loyalty = Some(100);
    p.size = Some("gargantuan".into());
    p.party_id = Some(1);
    assert!(create(&mut c, p).is_ok());
    assert!(c.check());
}

#[test]
fn messages_name_the_valid_values() {
    assert_eq!(
        refused(|p| p.role = "villain".into()).message(),
        "unknown role \"villain\"; valid: [\"player\", \"companion\", \"friendly\", \"enemy\", \"neutral\"]"
    );
    assert_eq!(
        refused(|p| p.hp_current = Some(-1)).message(),
        "hp_current must be in 0..=hp_max (12) (got -1)"
    );
}

#[test]
fn missing_characters_are_reported() {
    let mut c = Campaign::new();
    let before = c.clone();
    assert_eq!(get(&c, 7), Err(Error::CharacterNotFound { id: 7 }));
    let plans = UpdatePlansParams { character_id: 7, new_plans: String::new(), reason: None };
    assert_eq!(update_plans(&mut c, plans), Err(Error::NoSuchCharacter { id: 7 }));
    let role = ChangeRoleParams { character_id: 7, new_role: "enemy".into(), reason: String::new() };
    assert_eq!(change_role(&mut c, role), Err(Error::NoSuchCharacter { id: 7 }));
    assert_eq!(c, before);
}

#[test]
fn unknown_roles_change_nothing() {
    let mut c = Campaign::new();
    create(&mut c, sample_params("Grog")).unwrap();
    let before = c.clone();
    let p = ChangeRoleParams { character_id: 1, new_role: "boss".into(), reason: String::new() };
    assert_eq!(change_role(&mut c, p), Err(Error::UnknownRole { role: "boss".into() }));
    assert_eq!(c, before);
}

#[test]
fn changes_leave_other_characters_alone() {
    let mut c = Campaign::new();
    create(&mut c, sample_params("Kira")).unwrap();
    create(&mut c, sample_params("Grog")).unwrap();
    let kira = c.characters[0].clone();
    let p = ChangeRoleParams { character_id: 2, new_role: "companion".into(), reason: "hired".into() };
    assert_eq!(change_role(&mut c, p), Ok(UpdateResult { character_id: 2, event_id: 3 }));
    assert_eq!(c.characters[0], kira);
    assert_eq!(c.characters[1].role, Role::Companion);
}

#[test]
fn creation_leaves_other_characters_alone() {
    let mut c = Campaign::new();
    create(&mut c, sample_params("Kira")).unwrap();
    let kira = get(&c, 1).unwrap();
    create(&mut c, sample_params("Grog")).unwrap();
    assert_eq!(get(&c, 1).unwrap(), kira);
    let grog = get(&c, 2).unwrap();
    assert_eq!((grog.id, grog.name.as_str(), grog.role.as_str(), grog.effective_str), (2, "Grog", "player", 14));
    assert!(grog.proficiencies.is_empty() && grog.active_conditions.is_empty() && grog.active_effects.is_empty());
}

#[test]
fn effective_scores_add_up_and_may_not_fit() {
    let mut c = Campaign::new();
    create(&mut c, sample_params("Kira")).unwrap();
    c.effects.push(strength(1, 1, 1, 4));
    c.effects.push(strength(2, 1, 1, -7));
    assert!(check_stats_fit(&c, 1));
    assert_eq!(get(&c, 1).unwrap().effective_str, 11);
    c.effects.push(strength(3, 1, 1, i32::MAX));
    c.effects.push(strength(4, 1, 1, i32::MAX));
    assert!(!check_stats_fit(&c, 1));
}

#[test]
fn ended_effects_do_not_count() {
    let mut c = Campaign::new();
    create(&mut c, sample_params("Kira")).unwrap();
    let mut over = strength(1, 1, 1, 4);
    over.active = false;
    c.effects.push(over);
    let v = get(&c, 1).unwrap();
    assert_eq!(v.effective_str, 14);
    assert!(v.active_effects.is_empty());
}
