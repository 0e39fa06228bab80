use dm_mcp::campaign::Campaign;
use dm_mcp::characters::{self, CreateParams};
use dm_mcp::error::Error;
use dm_mcp::proficiencies::{set_resource, SetResourceParams};
use dm_mcp::rests::{long_rest, short_rest, LongRestParams, RefilledResource, ShortRestParams};
use dm_mcp::rows::Status;

fn person(name: &str, role: &str) -> CreateParams {
    CreateParams {
        name: name.to_string(),
        role: role.to_string(),
        str_score: 10,
        dex_score: 10,
        con_score: 10,
        int_score: 10,
        wis_score: 10,
        cha_score: 10,
        hp_max: None,
        hp_current: None,
        armor_class: None,
        speed_ft: None,
        initiative_bonus: None,
        size: None,
        species: None,
        class_or_archetype: None,
        ideology: None,
        backstory: None,
        plans: None,
        loyalty: None,
        party_id: None,
        current_zone_id: None,
    }
}

fn mk(c: &mut Campaign) -> i64 {
    let mut p = person("K", "player");
    p.hp_max = Some(20);
    p.hp_current = Some(5);
    p.armor_class = Some(12);
    characters::create(c, p).unwrap().character_id
}

fn resource(c: &mut Campaign, id: i64, name: &str, current: i32, max: i32, recharge: &str) {
    set_resource(
        c,
        SetResourceParams { character_id: id, name: name.into(), current, max, recharge: recharge.into() },
    )
    .unwrap();
}

#[test]
fn short_rest_refills_short_rest_resources_only() {
    let mut c = Campaign::new();
    let id = mk(&mut c);
    resource(&mut c, id, "hit_die", 0, 3, "short_rest");
    resource(&mut c, id, "slot:1", 0, 4, "long_rest");
    let r = short_rest(&mut c, ShortRestParams { character_id: id }).unwrap();
    assert_eq!(r.refilled_resources.len(), 1);
    assert_eq!(r.refilled_resources[0].name, "hit_die");
    assert!(r.hp_restored.is_none());

    let slot = c.resources.iter().find(|r| r.character_id == id && r.name == "slot:1").unwrap();
    assert_eq!(slot.current, 0);
}

#[test]
fn long_rest_refills_both_and_restores_hp() {
    let mut c = Campaign::new();
    let id = mk(&mut c);
    resource(&mut c, id, "hit_die", 0, 3, "short_rest");
    resource(&mut c, id, "slot:1", 0, 4, "long_rest");
    let r = long_rest(&mut c, LongRestParams { character_id: id }).unwrap();
    assert_eq!(r.refilled_resources.len(), 2);
    assert_eq!(r.hp_restored, Some(15));
    let row = c.characters.iter().find(|x| x.id == id).unwrap();
    assert_eq!(row.hp_current, 20);
}

#[test]
fn what_recharges_otherwise_stays_spent() {
    let mut c = Campaign::new();
    let id = mk(&mut c);
    resource(&mut c, id, "luck", 0, 1, "dawn");
    resource(&mut c, id, "favor", 0, 1, "never");
    resource(&mut c, id, "charge", 0, 1, "manual");
    resource(&mut c, id, "full", 2, 2, "long_rest");
    let r = long_rest(&mut c, LongRestParams { character_id: id }).unwrap();
    assert_eq!(r.refilled_resources, vec![RefilledResource { name: "luck".to_string(), from: 0, to: 1 }]);
    assert_eq!(c.resources.iter().map(|x| x.current).collect::<Vec<i32>>(), vec![1, 0, 0, 2]);
}

#[test]
fn the_log_tells_of_the_rest() {
    let mut c = Campaign::new();
    let id = mk(&mut c);
    resource(&mut c, id, "hit_die", 0, 3, "short_rest");
    let r = long_rest(&mut c, LongRestParams { character_id: id }).unwrap();
    assert_eq!(r.event_id, c.events.last().unwrap().id);
    assert_eq!(c.events.last().unwrap().kind, "rest.long");
    assert_eq!(
        c.events.last().unwrap().summary,
        "Character id=1 took a long rest — 1 resource(s) refilled, +15 HP"
    );
    short_rest(&mut c, ShortRestParams { character_id: id }).unwrap();
    assert_eq!(
        c.events.last().unwrap().summary,
        "Character id=1 took a short rest — 0 resource(s) refilled"
    );
}

#[test]
fn a_second_long_rest_has_nothing_left_to_do() {
    let mut c = Campaign::new();
    let id = mk(&mut c);
    resource(&mut c, id, "slot:1", 1, 4, "long_rest");
    long_rest(&mut c, LongRestParams { character_id: id }).unwrap();
    let rows = (c.characters.clone(), c.resources.clone());
    let r = long_rest(&mut c, LongRestParams { character_id: id }).unwrap();
    assert!(r.refilled_resources.is_empty());
    assert_eq!((c.characters, c.resources), rows);
}

#[test]
fn the_dead_and_the_missing_do_not_rest() {
    let mut c = Campaign::new();
    let id = mk(&mut c);
    c.characters[0].status = Status::Dead;
    let before = c.clone();
    assert_eq!(short_rest(&mut c, ShortRestParams { character_id: id }), Err(Error::DeadCannotRest { id }));
    assert_eq!(long_rest(&mut c, LongRestParams { character_id: id }), Err(Error::DeadCannotRest { id }));
    assert_eq!(long_rest(&mut c, LongRestParams { character_id: 4 }), Err(Error::CharacterNotFound { id: 4 }));
    assert_eq!(c, before);
}

#[test]
fn the_unconscious_keep_their_tally() {
    let mut c = Campaign::new();
    let id = mk(&mut c);
    c.characters[0].death_save_successes = 2;
    c.characters[0].death_save_failures = 1;
    c.characters[0].status = Status::Unconscious;
    long_rest(&mut c, LongRestParams { character_id: id }).unwrap();
    let row = &c.characters[0];
    assert_eq!((row.hp_current, row.death_save_successes, row.death_save_failures), (20, 2, 1));
    c.characters[0].status = Status::Alive;
    long_rest(&mut c, LongRestParams { character_id: id }).unwrap();
    let row = &c.characters[0];
    assert_eq!((row.death_save_successes, row.death_save_failures), (0, 0));
}
