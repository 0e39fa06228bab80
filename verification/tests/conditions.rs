use dm_mcp::campaign::Campaign;
use dm_mcp::characters::{self, CreateParams};
use dm_mcp::conditions::{
    apply, default_severity, remove, ApplyConditionParams, ApplyConditionResult, RemoveConditionParams,
    RemoveConditionResult,
};
use dm_mcp::error::{Error, Fault};
use dm_mcp::rows::Value;

fn person(name: &str, role: &str) -> CreateParams {
    CreateParams {
        name: name.to_string(),
        role: role.to_string(),
        str_score: 10,
        dex_score: 10,
        con_score: 10,
        int_score: 10,
        wis_score: 10,
        cha_score: 10,
        hp_max: None,
        hp_current: None,
        armor_class: None,
        speed_ft: None,
        initiative_bonus: None,
        size: None,
        species: None,
        class_or_archetype: None,
        ideology: None,
        backstory: None,
        plans: None,
        loyalty: None,
        party_id: None,
        current_zone_id: None,
    }
}

fn make_char(c: &mut Campaign) -> i64 {
    characters::create(c, person("K", "player")).unwrap().character_id
}

fn suffering(character_id: i64, condition: &str) -> ApplyConditionParams {
    ApplyConditionParams {
        character_id,
        condition: condition.into(),
        severity: 1,
        source_event_id: None,
        expires_at_hour: None,
        expires_after_rounds: None,
        remove_on_save: None,
    }
}

#[test]
fn apply_and_remove_round_trip() {
    let mut c = Campaign::new();
    let k = make_char(&mut c);
    let applied = apply(&mut c, suffering(k, "blinded")).unwrap();
    let row = c.conditions.iter().find(|r| r.id == applied.condition_id).unwrap();
    assert!(row.active);

    remove(
        &mut c,
        RemoveConditionParams { condition_id: applied.condition_id, reason: Some("ref test".into()) },
    )
    .unwrap();
    let row = c.conditions.iter().find(|r| r.id == applied.condition_id).unwrap();
    assert!(!row.active);
}

#[test]
fn double_remove_errors() {
    let mut c = Campaign::new();
    let k = make_char(&mut c);
    let applied = apply(&mut c, suffering(k, "poisoned")).unwrap();
    remove(&mut c, RemoveConditionParams { condition_id: applied.condition_id, reason: None }).unwrap();
    let err = remove(&mut c, RemoveConditionParams { condition_id: applied.condition_id, reason: None })
        .expect_err("double remove should fail");
    assert!(err.message().contains("already inactive"));
}

#[test]
fn the_condition_is_on_record() {
    let mut c = Campaign::new();
    let k = make_char(&mut c);
    let mut p = suffering(k, "frightened");
    p.severity = 3;
    p.source_event_id = Some(1);
    p.expires_after_rounds = Some(2);
    p.remove_on_save = Some("save:wis".into());
    assert_eq!(apply(&mut c, p), Ok(ApplyConditionResult { condition_id: 1, event_id: 2 }));
    let row = &c.conditions[0];
    assert_eq!((row.character_id, row.severity, row.expires_after_rounds), (1, 3, Some(2)));
    assert_eq!(row.source_event_id, Some(1), "what caused it");
    assert_eq!(c.events[1].parent_id, Some(1));
    assert_eq!(row.remove_on_save.as_deref(), Some("save:wis"));
    let event = &c.events[1];
    assert_eq!(event.kind, "condition.applied");
    assert_eq!(event.summary, "Applied condition \"frightened\" to character id=1 (severity=3)");
    assert_eq!(default_severity(), 1);
}

#[test]
fn removing_says_why() {
    let mut c = Campaign::new();
    let k = make_char(&mut c);
    apply(&mut c, suffering(k, "prone")).unwrap();
    assert_eq!(c.conditions[0].source_event_id, Some(2), "without a cause, the entry in the log");
    assert_eq!(
        remove(&mut c, RemoveConditionParams { condition_id: 1, reason: None }),
        Ok(RemoveConditionResult { condition_id: 1, event_id: 3 })
    );
    let event = c.events.last().unwrap();
    assert_eq!(event.kind, "condition.expired");
    assert_eq!(event.payload.iter().find(|f| f.name == "reason").unwrap().value, Value::Text("removed".into()));
    assert!(c.check());
}

#[test]
fn the_same_condition_can_be_had_twice() {
    let mut c = Campaign::new();
    let k = make_char(&mut c);
    apply(&mut c, suffering(k, "prone")).unwrap();
    apply(&mut c, suffering(k, "prone")).unwrap();
    remove(&mut c, RemoveConditionParams { condition_id: 1, reason: None }).unwrap();
    assert!(!c.conditions[0].active && c.conditions[1].active);
}

#[test]
fn refused_conditions_change_nothing() {
    let mut c = Campaign::new();
    let k = make_char(&mut c);
    let before = c.clone();
    assert_eq!(apply(&mut c, suffering(k, "")), Err(Error::ConditionEmpty));
    let mut p = suffering(k, "prone");
    p.severity = 0;
    assert_eq!(apply(&mut c, p), Err(Error::ConditionSeverity { severity: 0 }));
    assert_eq!(
        apply(&mut c, suffering(6, "prone")),
        Err(Error::EventParticipantRow {
            event_id: 2,
            character_id: 6,
            role: "target".into(),
            fault: Fault::ForeignKey,
        })
    );
    assert_eq!(
        remove(&mut c, RemoveConditionParams { condition_id: 3, reason: None }),
        Err(Error::ConditionNotFound { id: 3 })
    );
    assert_eq!(c, before);
}
