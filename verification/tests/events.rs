use dm_mcp::campaign::{Campaign, MAX_SUMMARY_BYTES};
use dm_mcp::characters::{self, CreateParams};
use dm_mcp::error::{Error, Fault};
use dm_mcp::events::{emit, emit_in_tx, truncate_summary, EventSpec, ItemRef, Participant};
use dm_mcp::rows::{Field, Item, Place, Value};

fn person(name: &str, role: &str) -> CreateParams {
    CreateParams {
        name: name.to_string(),
        role: role.to_string(),
        str_score: 10,
        dex_score: 10,
        con_score: 10,
        int_score: 10,
        wis_score: 10,
        cha_score: 10,
        hp_max: None,
        hp_current: None,
        armor_class: None,
        speed_ft: None,
        initiative_bonus: None,
        size: None,
        species: None,
        class_or_archetype: None,
        ideology: None,
        backstory: None,
        plans: None,
        loyalty: None,
        party_id: None,
        current_zone_id: None,
    }
}

fn insert_character(c: &mut Campaign, name: &str) -> i64 {
    let id = characters::create(c, person(name, "player")).unwrap().character_id;
    c.events.clear();
    id
}

fn spec<'a>(kind: &'a str, summary: &str, participants: &'a [Participant<'a>]) -> EventSpec<'a> {
    EventSpec {
        kind,
        campaign_hour: 0,
        combat_round: None,
        zone_id: None,
        encounter_id: None,
        parent_id: None,
        summary: summary.to_string(),
        payload: vec![],
        participants,
        items: &[],
    }
}

#[test]
fn emit_writes_row_plus_junctions() {
    let mut c = Campaign::new();
    let kira = insert_character(&mut c, "Kira");

    let who = [Participant { character_id: kira, role: "actor" }];
    let mut e = spec("test.hello", "Kira says hello", &who);
    e.payload = vec![Field { name: "msg".to_string(), value: Value::Text("hi".to_string()) }];
    let emitted = emit(&mut c, &e).expect("emit");
    assert!(emitted.event_id > 0);

    let row = c.events.iter().find(|e| e.id == emitted.event_id).unwrap();
    assert_eq!(row.kind, "test.hello");
    assert_eq!(row.summary, "Kira says hello");
    assert_eq!(row.payload, vec![Field { name: "msg".to_string(), value: Value::Text("hi".to_string()) }]);
    assert_eq!(row.participants[0].character_id, kira);
    assert_eq!(row.participants[0].role.as_str(), "actor");
}

#[test]
fn emit_rolls_back_on_participant_fk_failure() {
    let mut c = Campaign::new();
    let who = [Participant { character_id: 99_999, role: "actor" }];
    let err = emit(&mut c, &spec("test.bad", "nope", &who)).expect_err("bad FK should fail");
    assert!(err.message().contains("FOREIGN KEY") || err.message().contains("foreign"));
    assert_eq!(c.events.len(), 0, "events row should have been rolled back");
}

#[test]
fn emit_supports_multiple_participants() {
    let mut c = Campaign::new();
    let a = insert_character(&mut c, "A");
    let b = insert_character(&mut c, "B");
    let who =
        [Participant { character_id: a, role: "actor" }, Participant { character_id: b, role: "target" }];
    let emitted = emit(&mut c, &spec("social.bargain", "A offers a thing to B", &who)).expect("emit");
    let row = c.events.iter().find(|e| e.id == emitted.event_id).unwrap();
    assert_eq!(row.participants.len(), 2);
}

#[test]
fn long_summary_is_truncated_with_ellipsis() {
    let mut c = Campaign::new();
    let kira = insert_character(&mut c, "Kira");
    let huge = "x".repeat(MAX_SUMMARY_BYTES + 200);
    let who = [Participant { character_id: kira, role: "actor" }];
    let emitted = emit(&mut c, &spec("test.long", &huge, &who)).expect("emit");

    let stored = c.events.iter().find(|e| e.id == emitted.event_id).unwrap().summary.clone();
    assert!(
        stored.len() <= MAX_SUMMARY_BYTES,
        "stored summary {} bytes should fit under the cap {}",
        stored.len(),
        MAX_SUMMARY_BYTES
    );
    assert!(
        stored.ends_with('…'),
        "truncated summary should end with the ellipsis marker; got tail {:?}",
        &stored[stored.len().saturating_sub(8)..]
    );
}

#[test]
fn short_summary_passes_through_unchanged() {
    let mut c = Campaign::new();
    let kira = insert_character(&mut c, "Kira");
    let short = "Short summary that should not be touched.";
    let who = [Participant { character_id: kira, role: "actor" }];
    let emitted = emit(&mut c, &spec("test.short", short, &who)).expect("emit");
    let row = c.events.iter().find(|e| e.id == emitted.event_id).unwrap();
    assert_eq!(row.summary, short);
}

#[test]
fn truncation_keeps_whole_characters() {
    let exact = "x".repeat(MAX_SUMMARY_BYTES);
    assert_eq!(truncate_summary(&exact), exact);
    let wide = "ß".repeat(MAX_SUMMARY_BYTES);
    let cut = truncate_summary(&wide);
    assert!(cut.len() <= MAX_SUMMARY_BYTES && cut.len() > MAX_SUMMARY_BYTES - 4);
    assert!(cut.ends_with('…'));
    assert!(cut[..cut.len() - '…'.len_utf8()].chars().all(|ch| ch == 'ß'));
    let odd = format!("x{wide}");
    assert!(truncate_summary(&odd).len() <= MAX_SUMMARY_BYTES);
    assert_eq!(truncate_summary(""), "");
}

#[test]
fn entries_are_added_to_the_end() {
    let mut c = Campaign::new();
    let first = emit(&mut c, &spec("a", "one", &[])).unwrap().event_id;
    let before = c.events.clone();
    let mut e = spec("b", "two", &[]);
    e.parent_id = Some(first);
    e.campaign_hour = 7;
    let second = emit_in_tx(&mut c, &e).unwrap().event_id;
    assert_eq!(second, first + 1);
    assert_eq!(c.events[..1], before[..]);
    assert_eq!((c.events[1].parent_id, c.events[1].campaign_hour), (Some(first), 7));
}

#[test]
fn items_may_be_referred_to() {
    let mut c = Campaign::new();
    let k = insert_character(&mut c, "K");
    c.items.push(Item {
        id: 1,
        base_kind: "rope".to_string(),
        name: None,
        material: None,
        material_tier: None,
        quality: None,
        quantity: 1,
        place: Place::Holder(k),
        equipped_slot: None,
        created_at_event_id: None,
        updated_at: 0,
    });
    let items = [ItemRef { item_id: 1, role: "subject" }];
    let mut e = spec("x", "y", &[]);
    e.items = &items;
    emit(&mut c, &e).unwrap();
    assert_eq!((c.events[0].items[0].item_id, c.events[0].items[0].role.as_str()), (1, "subject"));
    let items = [ItemRef { item_id: 2, role: "subject" }];
    let mut e = spec("x", "y", &[]);
    e.items = &items;
    assert_eq!(
        emit(&mut c, &e),
        Err(Error::EventItemRow {
            event_id: 2,
            item_id: 2,
            role: "subject".to_string(),
            fault: Fault::ForeignKey,
        })
    );
}

#[test]
fn bad_references_change_nothing() {
    let mut c = Campaign::new();
    let k = insert_character(&mut c, "K");
    let before = c.clone();
    let mut e = spec("x", "y", &[]);
    e.zone_id = Some(3);
    assert_eq!(emit(&mut c, &e), Err(Error::EventRow));
    let mut e = spec("x", "y", &[]);
    e.encounter_id = Some(3);
    assert_eq!(emit(&mut c, &e), Err(Error::EventRow));
    let mut e = spec("x", "y", &[]);
    e.parent_id = Some(3);
    assert_eq!(emit(&mut c, &e), Err(Error::EventRow));
    let row = |role: &str, fault: Fault| Error::EventParticipantRow {
        event_id: 1,
        character_id: k,
        role: role.to_string(),
        fault,
    };
    let who = [Participant { character_id: k, role: "bystander" }];
    assert_eq!(emit(&mut c, &spec("x", "y", &who)), Err(row("bystander", Fault::Check)));
    let who = [Participant { character_id: k, role: "actor" }, Participant { character_id: k, role: "actor" }];
    assert_eq!(emit(&mut c, &spec("x", "y", &who)), Err(row("actor", Fault::Unique)));
    assert_eq!(c, before);
}

#[test]
fn one_character_may_have_two_roles() {
    let mut c = Campaign::new();
    let k = insert_character(&mut c, "K");
    let who = [Participant { character_id: k, role: "actor" }, Participant { character_id: k, role: "target" }];
    emit(&mut c, &spec("x", "y", &who)).unwrap();
    assert_eq!(c.events[0].participants.len(), 2);
}
