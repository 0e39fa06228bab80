use dm_mcp::campaign::Campaign;
use dm_mcp::error::{Error, Fault};
use dm_mcp::rows::{
    Direction, EncounterStatus, EventRole, KnowledgeLevel, LandmarkKind, Party, Phase, Recharge, Role, Side, Size,
    Status, TargetKind, TravelMode, Zone, ZoneKind, ZoneSize,
};
use dm_mcp::text::{
    comes_before, contains, decimal, parse_i32, parse_i64, parse_u16, parse_u32, parse_usize, same, say_hundredths,
    say_list, say_opt, say_tenths, to_lower, to_upper, trim,
};

#[test]
fn numbers_are_written_and_read() {
    for n in [0, 7, -7, 10, i64::MAX, i64::MIN] {
        assert_eq!(decimal(n), n.to_string());
        assert_eq!(parse_i64(&decimal(n)), Some(n));
    }
    for t in ["+5", "-5", "5", "", "-", "+", "5x", "99999999999", "-2147483648", "2147483648", "007"] {
        assert_eq!(parse_i32(t), t.parse::<i32>().ok(), "{t:?}");
        assert_eq!(parse_u32(t), t.parse::<u32>().ok(), "{t:?}");
        assert_eq!(parse_u16(t), t.parse::<u16>().ok(), "{t:?}");
        assert_eq!(parse_usize(t), t.parse::<usize>().ok(), "{t:?}");
    }
}

#[test]
fn words_are_compared_and_folded() {
    assert!(same("a", "a") && !same("a", "A"));
    assert!(contains(&vec!["a".to_string()], "a") && !contains(&vec![], "a"));
    assert_eq!((to_lower("WaL-9").as_str(), to_upper("WaL-9").as_str()), ("wal-9", "WAL-9"));
    assert_eq!(trim(" \t x y\n "), "x y");
    assert!(comes_before("a", "b") && comes_before("a", "aa") && !comes_before("b", "a") && !comes_before("a", "a"));
}

#[test]
fn amounts_are_rounded() {
    assert_eq!(say_hundredths(160_000), "160.00");
    assert_eq!(say_hundredths(1_234), "1.23");
    assert_eq!(say_hundredths(-1_236), "-1.24");
    assert_eq!(say_tenths(95_000), "95.0");
    assert_eq!((say_tenths(-1_260), say_tenths(-40)), ("-1.3".to_string(), "-0.0".to_string()));
    assert_eq!(say_opt(Some(-3)), "Some(-3)");
    assert_eq!(say_opt(None), "None");
    assert_eq!(say_list(&vec!["a\"b".to_string(), "c".to_string()]), "[\"a\\\"b\", \"c\"]");
    assert_eq!(say_list(&vec![]), "[]");
}

#[test]
fn messages_quote_as_debug_does() {
    for word in ["plain", "tab\t", "quote\"", "back\\slash", "ümlaut", "\u{1}", ""] {
        let e: Error = Error::UnknownArchetype { archetype: word.to_string() };
        assert_eq!(e.message(), format!("unknown archetype {word:?}"));
    }
    let e: Error = Error::ItemNotInZone { id: 4, holder: Some(2), container: None };
    assert_eq!(e.message(), "item 4 is not in a zone (holder=Some(2), container=None)");
    let e: Error = Error::ItemNotFound { id: 4 };
    assert_eq!(e.message(), "item 4 not found: Query returned no rows");
    let e: Error = Error::EventItemRow { event_id: 2, item_id: 4, role: "offered".to_string(), fault: Fault::Unique };
    assert_eq!(
        e.message(),
        "insert event_items row (event=2, item=4, role=\"offered\"): UNIQUE constraint failed: \
         event_items.event_id, event_items.item_id, event_items.role"
    );
    let e: Error = Error::NotDead { id: 1, status: Status::Unconscious };
    assert_eq!(e.message(), "roll_death_event requires status='dead' (character 1 is \"unconscious\")");
}

#[test]
fn words_for_values_can_be_read_back() {
    assert_eq!(Role::parse("companion").map(|x| x.as_str()), Some("companion"));
    assert_eq!(Size::parse("huge").map(|x| x.as_str()), Some("huge"));
    assert_eq!(Status::parse("missing").map(|x| x.as_str()), Some("missing"));
    assert_eq!(Recharge::parse("dawn").map(|x| x.as_str()), Some("dawn"));
    assert_eq!(TargetKind::parse("hp_max").map(|x| x.as_str()), Some("hp_max"));
    assert_eq!(Side::parse("player_side").map(|x| x.as_str()), Some("player_side"));
    assert_eq!(EncounterStatus::parse("goal_completed").map(|x| x.as_str()), Some("goal_completed"));
    assert_eq!(EventRole::parse("beneficiary").map(|x| x.as_str()), Some("beneficiary"));
    assert_eq!(Phase::parse("running").map(|x| x.as_str()), Some("running"));
    assert_eq!(KnowledgeLevel::parse("mapped").map(|x| x.as_str()), Some("mapped"));
    assert_eq!(Direction::parse("nw").map(|x| x.as_str()), Some("nw"));
    assert_eq!(TravelMode::parse("portal").map(|x| x.as_str()), Some("portal"));
    assert_eq!(ZoneKind::parse("dungeon_room").map(|x| x.as_str()), Some("dungeon_room"));
    assert_eq!(ZoneSize::parse("vast").map(|x| x.as_str()), Some("vast"));
    assert_eq!(LandmarkKind::parse("dungeon_entrance").map(|x| x.as_str()), Some("dungeon_entrance"));
    assert_eq!(Role::parse("Player"), None);
}

#[test]
fn a_new_campaign_is_sound_and_has_room() {
    let c = Campaign::new();
    assert!(c.check());
    assert!(c.check_room());
}

#[test]
fn unsound_campaigns_are_found_out() {
    let mut c = Campaign::new();
    c.parties = vec![Party { id: 2 }, Party { id: 1 }];
    assert!(!c.check(), "ids increase");
    c.parties = vec![Party { id: 0 }];
    assert!(!c.check(), "ids are positive");
    c.parties = vec![Party { id: 1 }, Party { id: 5 }];
    assert!(c.check());
    c.state.player_character_id = Some(1);
    assert!(!c.check(), "there is no such character");
}

#[test]
fn campaigns_run_out_of_ids() {
    let mut c = Campaign::new();
    c.zones.push(Zone {
        id: i64::MAX,
        name: String::new(),
        biome: String::new(),
        kind: ZoneKind::Liminal,
        size: ZoneSize::Vast,
        description: None,
    });
    assert!(c.check());
    assert!(!c.check_room());
}
