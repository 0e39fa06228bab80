use dm_mcp::campaign::Campaign;
use dm_mcp::characters::{self, CreateParams};
use dm_mcp::effects::{apply, dispel, ApplyParams, ApplyResult, DispelParams, DispelResult};
use dm_mcp::error::{Error, Fault};
use dm_mcp::rows::{EventRole, TargetKind, Value};

fn person(name: &str, role: &str) -> CreateParams {
    CreateParams {
        name: name.to_string(),
        role: role.to_string(),
        str_score: 10,
        dex_score: 10,
        con_score: 10,
        int_score: 10,
        wis_score: 10,
        cha_score: 10,
        hp_max: None,
        hp_current: None,
        armor_class: None,
        speed_ft: None,
        initiative_bonus: None,
        size: None,
        species: None,
        class_or_archetype: None,
        ideology: None,
        backstory: None,
        plans: None,
        loyalty: None,
        party_id: None,
        current_zone_id: None,
    }
}

fn make_character(c: &mut Campaign) -> i64 {
    let mut p = person("Kira", "player");
    p.str_score = 14;
    p.hp_max = Some(10);
    characters::create(c, p).unwrap().character_id
}

fn potion(target: i64, modifier: i32) -> ApplyParams {
    ApplyParams {
        target_character_id: target,
        source: "potion:bulls-strength".into(),
        target_kind: "ability".into(),
        target_key: "str_score".into(),
        modifier,
        dice_expr: None,
        expires_at_hour: None,
        expires_after_rounds: None,
        expires_on_dispel: Some(true),
    }
}

#[test]
fn apply_and_dispel_round_trip() {
    let mut c = Campaign::new();
    let char_id = make_character(&mut c);

    let applied = apply(&mut c, potion(char_id, 4)).expect("apply");
    let view = characters::get(&c, char_id).unwrap();
    assert_eq!(view.effective_str, 18, "14 base + 4 effect");

    let dispelled = dispel(
        &mut c,
        DispelParams { effect_id: applied.effect_id, reason: Some("potion wore off".into()) },
    )
    .expect("dispel");
    let view = characters::get(&c, char_id).unwrap();
    assert_eq!(view.effective_str, 14, "base restored after dispel");

    let kinds: Vec<String> = c
        .events
        .iter()
        .filter(|e| e.participants.iter().any(|p| p.character_id == char_id))
        .map(|e| e.kind.clone())
        .collect();
    assert!(kinds.contains(&"character.created".into()));
    assert!(kinds.contains(&"effect.applied".into()));
    assert!(kinds.contains(&"effect.expired".into()));
    assert_eq!(dispelled.effect_id, applied.effect_id);
}

#[test]
fn apply_rejects_unknown_target_kind() {
    let mut c = Campaign::new();
    let char_id = make_character(&mut c);
    let err = apply(
        &mut c,
        ApplyParams {
            target_character_id: char_id,
            source: "garbage".into(),
            target_kind: "wiggly".into(),
            target_key: "str_score".into(),
            modifier: 1,
            dice_expr: None,
            expires_at_hour: None,
            expires_after_rounds: None,
            expires_on_dispel: None,
        },
    )
    .expect_err("should reject unknown target_kind");
    assert!(err.message().contains("target_kind"));
}

#[test]
fn dispel_rejects_already_inactive() {
    let mut c = Campaign::new();
    let char_id = make_character(&mut c);
    let applied = apply(
        &mut c,
        ApplyParams {
            target_character_id: char_id,
            source: "potion".into(),
            target_kind: "ability".into(),
            target_key: "str_score".into(),
            modifier: 1,
            dice_expr: None,
            expires_at_hour: None,
            expires_after_rounds: None,
            expires_on_dispel: None,
        },
    )
    .unwrap();
    dispel(&mut c, DispelParams { effect_id: applied.effect_id, reason: None }).unwrap();

    let err = dispel(&mut c, DispelParams { effect_id: applied.effect_id, reason: None })
        .expect_err("double-dispel should fail");
    assert!(err.message().contains("already inactive"));
}

#[test]
fn base_scores_stay_as_they_are() {
    let mut c = Campaign::new();
    let k = make_character(&mut c);
    let before = c.characters.clone();
    apply(&mut c, potion(k, 4)).unwrap();
    assert_eq!(c.characters, before);
    dispel(&mut c, DispelParams { effect_id: 1, reason: None }).unwrap();
    assert_eq!(c.characters, before);
}

#[test]
fn the_effect_is_on_record() {
    let mut c = Campaign::new();
    let k = make_character(&mut c);
    let mut p = potion(k, -2);
    p.dice_expr = Some("1d4".into());
    p.expires_at_hour = Some(12);
    p.expires_after_rounds = Some(3);
    p.expires_on_dispel = None;
    assert_eq!(apply(&mut c, p), Ok(ApplyResult { effect_id: 1, event_id: 2 }));
    let row = &c.effects[0];
    assert_eq!((row.target_kind, row.modifier, row.start_event_id), (TargetKind::Ability, -2, 2));
    assert_eq!((row.expires_at_hour, row.expires_after_rounds), (Some(12), Some(3)));
    assert!(row.active);
    let event = &c.events[1];
    assert_eq!(event.kind, "effect.applied");
    assert_eq!(event.summary, "Applied potion:bulls-strength to character id=1 (ability:str_score -2)");
    assert_eq!(event.participants[0].role, EventRole::Target);
    assert_eq!(event.payload[3].value, Value::Int(-2));
}

#[test]
fn dispelling_says_why() {
    let mut c = Campaign::new();
    let k = make_character(&mut c);
    apply(&mut c, potion(k, 4)).unwrap();
    apply(&mut c, potion(k, 1)).unwrap();
    assert_eq!(
        dispel(&mut c, DispelParams { effect_id: 2, reason: Some("spilled".into()) }),
        Ok(DispelResult { effect_id: 2, event_id: 4 })
    );
    assert!(c.effects[0].active && !c.effects[1].active);
    let event = c.events.last().unwrap();
    assert_eq!(event.summary, "Dispelled potion:bulls-strength on character id=1 (ability:str_score)");
    assert_eq!(event.payload.iter().find(|f| f.name == "reason").unwrap().value, Value::Text("spilled".into()));
    dispel(&mut c, DispelParams { effect_id: 1, reason: None }).unwrap();
    let event = c.events.last().unwrap();
    assert_eq!(event.payload.iter().find(|f| f.name == "reason").unwrap().value, Value::Text("dispelled".into()));
}

#[test]
fn refusals_change_nothing() {
    let mut c = Campaign::new();
    make_character(&mut c);
    let before = c.clone();
    assert_eq!(
        apply(&mut c, potion(8, 1)),
        Err(Error::EventParticipantRow {
            event_id: 2,
            character_id: 8,
            role: "target".into(),
            fault: Fault::ForeignKey,
        })
    );
    let mut p = potion(1, 1);
    p.target_kind = "mood".into();
    assert_eq!(apply(&mut c, p), Err(Error::UnknownTargetKind { kind: "mood".into() }));
    assert_eq!(
        dispel(&mut c, DispelParams { effect_id: 4, reason: None }),
        Err(Error::EffectNotFound { id: 4 })
    );
    assert_eq!(c, before);
}
