use dm_mcp::campaign::Campaign;
use dm_mcp::characters::{self, CreateParams};
use dm_mcp::error::{Error, Fault};
use dm_mcp::proficiencies::{
    adjust_resource, remove_proficiency, remove_resource, set_proficiency, set_resource, AdjustResourceParams,
    ProficiencyResult, RemoveProficiencyParams, RemoveResourceParams, ResourceResult, SetProficiencyParams,
    SetResourceParams,
};
use dm_mcp::rows::Recharge;

fn person(name: &str, role: &str) -> CreateParams {
    CreateParams {
        name: name.to_string(),
        role: role.to_string(),
        str_score: 10,
        dex_score: 10,
        con_score: 10,
        int_score: 10,
        wis_score: 10,
        cha_score: 10,
        hp_max: None,
        hp_current: None,
        armor_class: None,
        speed_ft: None,
        initiative_bonus: None,
        size: None,
        species: None,
        class_or_archetype: None,
        ideology: None,
        backstory: None,
        plans: None,
        loyalty: None,
        party_id: None,
        current_zone_id: None,
    }
}

fn make_character(c: &mut Campaign) -> i64 {
    characters::create(c, person("Kira", "player")).unwrap().character_id
}

fn training(character_id: i64, name: &str) -> SetProficiencyParams {
    SetProficiencyParams { character_id, name: name.into(), proficient: Some(true), expertise: None, ranks: None }
}

fn slots(character_id: i64, current: i32, max: i32) -> SetResourceParams {
    SetResourceParams { character_id, name: "slot:1".into(), current, max, recharge: "long_rest".into() }
}

fn spend(character_id: i64, delta: i32) -> AdjustResourceParams {
    AdjustResourceParams { character_id, name: "slot:1".into(), delta, reason: None }
}

#[test]
fn set_proficiency_upserts() {
    let mut c = Campaign::new();
    let k = make_character(&mut c);
    set_proficiency(&mut c, training(k, "stealth")).unwrap();
    set_proficiency(
        &mut c,
        SetProficiencyParams {
            character_id: k,
            name: "stealth".into(),
            proficient: Some(true),
            expertise: Some(true),
            ranks: None,
        },
    )
    .unwrap();
    let row = c.proficiencies.iter().find(|r| r.character_id == k && r.name == "stealth").unwrap();
    assert!(row.proficient);
    assert!(row.expertise);
    assert_eq!(c.proficiencies.len(), 1);
}

#[test]
fn resource_set_adjust_remove() {
    let mut c = Campaign::new();
    let k = make_character(&mut c);
    set_resource(&mut c, slots(k, 4, 4)).unwrap();

    let r = adjust_resource(
        &mut c,
        AdjustResourceParams {
            character_id: k,
            name: "slot:1".into(),
            delta: -1,
            reason: Some("cast Magic Missile".into()),
        },
    )
    .unwrap();
    assert_eq!(r.current, 3);

    let r = adjust_resource(&mut c, spend(k, -99)).unwrap();
    assert_eq!(r.current, 0, "should clamp at 0");

    remove_resource(&mut c, RemoveResourceParams { character_id: k, name: "slot:1".into() }).unwrap();
    let present = c.resources.iter().filter(|r| r.character_id == k && r.name == "slot:1").count();
    assert_eq!(present, 0);
}

#[test]
fn set_resource_rejects_invalid_recharge() {
    let mut c = Campaign::new();
    let k = make_character(&mut c);
    let err = set_resource(
        &mut c,
        SetResourceParams {
            character_id: k,
            name: "slot:1".into(),
            current: 1,
            max: 1,
            recharge: "whenever".into(),
        },
    )
    .expect_err("should reject unknown recharge");
    assert!(err.message().contains("recharge"));
}

#[test]
fn adjust_nonexistent_resource_errors() {
    let mut c = Campaign::new();
    let k = make_character(&mut c);
    let err = adjust_resource(
        &mut c,
        AdjustResourceParams { character_id: k, name: "slot:9".into(), delta: 1, reason: None },
    )
    .expect_err("adjusting missing resource should fail");
    assert!(err.message().contains("not found"));
}

#[test]
fn adjusting_stays_within_the_maximum() {
    let mut c = Campaign::new();
    let k = make_character(&mut c);
    set_resource(&mut c, slots(k, 1, 4)).unwrap();
    assert_eq!(
        adjust_resource(&mut c, spend(k, i32::MAX)),
        Ok(ResourceResult { character_id: k, name: "slot:1".into(), current: 4, max: 4, event_id: 3 })
    );
    assert_eq!(adjust_resource(&mut c, spend(k, i32::MIN)).unwrap().current, 0);
    assert_eq!(c.resources[0].recharge, Recharge::LongRest);
    assert_eq!(
        c.events.last().unwrap().summary,
        "Resource \"slot:1\" adjusted on character id=1: 4 → 0 (delta -2147483648)"
    );
}

#[test]
fn setting_a_resource_again_replaces_it() {
    let mut c = Campaign::new();
    let k = make_character(&mut c);
    set_resource(&mut c, slots(k, 1, 4)).unwrap();
    set_resource(&mut c, slots(k, 0, 0)).unwrap();
    assert_eq!(c.resources.len(), 1);
    assert_eq!((c.resources[0].current, c.resources[0].max), (0, 0));
}

#[test]
fn removal_says_whether_there_was_anything() {
    let mut c = Campaign::new();
    let k = make_character(&mut c);
    set_proficiency(&mut c, training(k, "stealth")).unwrap();
    set_proficiency(&mut c, training(k, "athletics")).unwrap();
    assert_eq!(
        remove_proficiency(&mut c, RemoveProficiencyParams { character_id: k, name: "stealth".into() }),
        Ok(ProficiencyResult { character_id: k, name: "stealth".into(), event_id: 4 })
    );
    assert_eq!(c.proficiencies.len(), 1);
    assert_eq!(c.proficiencies[0].name, "athletics");
}

#[test]
fn untrained_is_what_nothing_says() {
    let mut c = Campaign::new();
    let k = make_character(&mut c);
    let mut p = training(k, "stealth");
    p.ranks = Some(2);
    set_proficiency(&mut c, p).unwrap();
    assert_eq!(
        c.events.last().unwrap().summary,
        "Proficiency \"stealth\" set on character id=1 (proficient=true, expertise=false, ranks=2)"
    );
}

#[test]
fn refused_training_changes_nothing() {
    let mut c = Campaign::new();
    let k = make_character(&mut c);
    let before = c.clone();
    assert_eq!(set_proficiency(&mut c, training(k, "")), Err(Error::ProficiencyEmpty));
    assert_eq!(set_proficiency(&mut c, training(7, "stealth")), Err(Error::ProficiencyRow));
    assert_eq!(
        remove_proficiency(&mut c, RemoveProficiencyParams { character_id: 7, name: "x".into() }),
        Err(Error::EventParticipantRow {
            event_id: 2,
            character_id: 7,
            role: "target".into(),
            fault: Fault::ForeignKey,
        })
    );
    let mut p = slots(k, 1, 1);
    p.name = String::new();
    assert_eq!(set_resource(&mut c, p), Err(Error::ResourceEmpty));
    assert_eq!(set_resource(&mut c, slots(k, 0, -1)), Err(Error::ResourceMax));
    assert_eq!(set_resource(&mut c, slots(k, 5, 4)), Err(Error::ResourceCurrent { current: 5, max: 4 }));
    assert_eq!(set_resource(&mut c, slots(k, -1, 4)), Err(Error::ResourceCurrent { current: -1, max: 4 }));
    assert_eq!(set_resource(&mut c, slots(7, 1, 4)), Err(Error::ResourceRow));
    let mut p = slots(k, 1, 1);
    p.recharge = "noon".into();
    assert_eq!(set_resource(&mut c, p), Err(Error::UnknownRecharge { recharge: "noon".into() }));
    assert_eq!(
        adjust_resource(&mut c, spend(k, 1)),
        Err(Error::ResourceNotFound { name: "slot:1".into(), id: k })
    );
    assert_eq!(c, before);
}
