use dm_mcp::dice::{draw, parse, roll, roll_with, DiceSpec, RollResult, MAX_DICE_COUNT, MAX_DIE_SIDES};
use dm_mcp::error::Error;
use dm_mcp::text::NumberFault;

#[test]
fn parses_standard_dice() {
    for (input, expected_sides) in [
        ("d4", 4u32),
        ("d6", 6),
        ("d8", 8),
        ("d10", 10),
        ("d12", 12),
        ("d20", 20),
        ("d100", 100),
    ] {
        let got = parse(input).expect(input);
        assert_eq!(
            got,
            DiceSpec::Dice { count: 1, sides: expected_sides },
            "{input} should parse to 1d{expected_sides}"
        );
    }
}

#[test]
fn parses_case_insensitive_d() {
    assert_eq!(parse("D20").unwrap(), DiceSpec::Dice { count: 1, sides: 20 });
    assert_eq!(parse("3D6").unwrap(), DiceSpec::Dice { count: 3, sides: 6 });
}

#[test]
fn parses_multi_dice() {
    assert_eq!(parse("3d6").unwrap(), DiceSpec::Dice { count: 3, sides: 6 });
    assert_eq!(parse("5d20").unwrap(), DiceSpec::Dice { count: 5, sides: 20 });
}

#[test]
fn parses_ranges() {
    assert_eq!(parse("11-43").unwrap(), DiceSpec::Range { min: 11, max: 43 });
    assert_eq!(parse("1-100").unwrap(), DiceSpec::Range { min: 1, max: 100 });
}

#[test]
fn parses_negative_range_min() {
    assert_eq!(parse("-3-5").unwrap(), DiceSpec::Range { min: -3, max: 5 });
}

#[test]
fn trims_whitespace() {
    assert_eq!(parse("  d20  ").unwrap(), DiceSpec::Dice { count: 1, sides: 20 });
}

#[test]
fn rejects_empty() {
    assert!(parse("").is_err());
    assert!(parse("   ").is_err());
}

#[test]
fn rejects_zero_count_or_sides() {
    assert!(parse("0d6").is_err());
    assert!(parse("d0").is_err());
    assert!(parse("d1").is_err(), "d1 is meaningless (always 1)");
}

#[test]
fn rejects_overflow() {
    assert!(parse(&format!("{}d6", MAX_DICE_COUNT + 1)).is_err());
    assert!(parse(&format!("d{}", MAX_DIE_SIDES + 1)).is_err());
}

#[test]
fn rejects_inverted_range() {
    let err = parse("10-5").expect_err("inverted range should fail");
    assert!(err.message().contains("min"));
}

#[test]
fn rejects_bogus_input() {
    assert!(parse("hello").is_err());
    assert!(parse("d").is_err());
    assert!(parse("3d").is_err());
    assert!(parse("3dabc").is_err());
    assert!(parse("-").is_err());
    assert!(parse("--").is_err());
}

#[test]
fn d20_is_in_range() {
    for _ in 0..50 {
        let r = roll("d20").unwrap();
        assert_eq!(r.rolls.len(), 1);
        assert!(r.total >= 1 && r.total <= 20, "got {}", r.total);
        assert_eq!(r.total, r.rolls[0]);
    }
}

#[test]
fn multi_dice_sum_matches_rolls() {
    for _ in 0..50 {
        let r = roll("3d6").unwrap();
        assert_eq!(r.rolls.len(), 3);
        for v in &r.rolls {
            assert!(*v >= 1 && *v <= 6, "{v} out of 1..=6");
        }
        assert_eq!(r.total, r.rolls.iter().sum::<i64>());
    }
}

#[test]
fn range_is_inclusive_both_ends() {
    let mut saw_min = false;
    let mut saw_max = false;
    for _ in 0..500 {
        let r = roll("11-43").unwrap();
        assert_eq!(r.rolls.len(), 1);
        assert!(r.total >= 11 && r.total <= 43, "got {}", r.total);
        if r.total == 11 {
            saw_min = true;
        }
        if r.total == 43 {
            saw_max = true;
        }
    }
    // Over 500 samples in a range of 33, each endpoint has P(miss) ≈ (32/33)^500 ≈ 2e-7.
    assert!(saw_min, "500 samples never hit the min — RNG or parser broken?");
    assert!(saw_max, "500 samples never hit the max");
}

#[test]
fn test_roll_die() {
    let die_types: Vec<(&str, i64)> =
        vec![("d4", 4), ("d6", 6), ("d8", 8), ("d10", 10), ("d12", 12), ("d20", 20), ("d100", 100)];
    for (die_type, sides) in die_types {
        let mut results = Vec::new();
        for _ in 0..10 {
            let result = roll(die_type).unwrap().total;
            assert!(result >= 1 && result <= sides);
            results.push(result);
        }
        assert!(
            results.iter().any(|x| *x != results[0]),
            "Die {} should return at least 2 different values in 10 rolls",
            die_type
        );
    }
}

#[test]
fn test_roll_multiple_dice_request() {
    let result = roll(&format!("{}{}", 3, "d6")).unwrap();
    assert_eq!(result.rolls.len(), 3);
    for value in &result.rolls {
        assert!(*value >= 1 && *value <= 6);
    }
    assert!(result.total >= 3 && result.total <= 18);
    assert_eq!(result.spec, "3d6");
}

#[test]
fn test_roll_dice_multiple() {
    let result = roll("3d6").unwrap();
    assert_eq!(result.rolls.len(), 3);
    for value in &result.rolls {
        assert!(*value >= 1 && *value <= 6);
    }
    assert!(result.total >= 3 && result.total <= 18);
    assert_eq!(result.spec, "3d6");
}

#[test]
fn test_roll_dice_multiple_different_counts() {
    let result = roll("5d20").unwrap();
    assert_eq!(result.rolls.len(), 5);
    for value in &result.rolls {
        assert!(*value >= 1 && *value <= 20);
    }
    assert!(result.total >= 5 && result.total <= 100);
    assert_eq!(result.spec, "5d20");
}

#[test]
fn each_fault_has_its_error() {
    let s = |t: &str| t.to_string();
    assert_eq!(parse(" "), Err(Error::EmptyDice));
    assert_eq!(parse("hello"), Err(Error::NotDice { spec: s("hello") }));
    assert_eq!(parse("xd6"), Err(Error::DiceCount { spec: s("xd6"), count: s("x"), fault: NumberFault::Digit }));
    assert_eq!(
        parse("3dabc"),
        Err(Error::DiceSides { spec: s("3dabc"), sides: s("abc"), fault: NumberFault::Digit })
    );
    assert_eq!(
        parse("D4294967296").unwrap_err().message(),
        "\"D4294967296\": die sides \"4294967296\" is not a positive integer: number too large to fit in target type"
    );
    assert_eq!(parse("0d6"), Err(Error::DiceCountZero { spec: s("0d6") }));
    assert_eq!(parse("d1"), Err(Error::DiceSidesFew { spec: s("d1") }));
    assert_eq!(parse("101d6"), Err(Error::DiceCountMany { spec: s("101d6"), count: 101 }));
    assert_eq!(parse("d10001"), Err(Error::DiceSidesMany { spec: s("d10001"), sides: 10001 }));
    assert_eq!(parse("5-5"), Err(Error::RangeOrder { spec: s("5-5"), min: 5, max: 5 }));
}

#[test]
fn limits_themselves_are_dice() {
    assert_eq!(parse("100d10000"), Ok(DiceSpec::Dice { count: 100, sides: 10000 }));
    assert_eq!(parse("d2"), Ok(DiceSpec::Dice { count: 1, sides: 2 }));
    assert_eq!(parse("-5--3"), Ok(DiceSpec::Range { min: -5, max: -3 }));
}

#[test]
fn totals_add_up_what_was_rolled() {
    let dice = DiceSpec::Dice { count: 3, sides: 6 };
    assert_eq!(
        roll_with(&dice, vec![6, 1, 4]),
        RollResult { spec: "3d6".to_string(), total: 11, rolls: vec![6, 1, 4] }
    );
    let range = DiceSpec::Range { min: -3, max: 5 };
    assert_eq!(
        roll_with(&range, vec![-2]),
        RollResult { spec: "-3-5".to_string(), total: -2, rolls: vec![-2] }
    );
}

#[test]
fn labels_can_be_read_back() {
    for spec in ["d20", "3d6", "100d10000", "11-43", "-3-5"] {
        assert_eq!(roll(spec).unwrap().spec, spec);
        assert!(parse(spec).is_ok());
    }
    assert_eq!(roll("  D20 ").unwrap().spec, "d20");
}

#[test]
fn whatever_can_be_rolled_is_rolled() {
    let one = DiceSpec::Dice { count: 2, sides: 1 };
    assert_eq!(draw(&one), vec![1, 1]);
    assert_eq!(roll_with(&one, vec![1, 1]), RollResult { spec: "2d1".to_string(), total: 2, rolls: vec![1, 1] });
    let none = DiceSpec::Dice { count: 0, sides: 6 };
    assert_eq!(roll_with(&none, draw(&none)).total, 0);
    let fixed = DiceSpec::Range { min: 7, max: 7 };
    assert_eq!(roll_with(&fixed, draw(&fixed)), RollResult { spec: "7-7".to_string(), total: 7, rolls: vec![7] });
    let many = DiceSpec::Dice { count: 1000, sides: 20_000 };
    let r = roll_with(&many, draw(&many));
    assert!(r.rolls.len() == 1000 && r.rolls.iter().all(|x| 1 <= *x && *x <= 20_000));
    assert_eq!(r.total, r.rolls.iter().sum::<i64>());
}

#[test]
fn white_space_and_the_case_of_d_do_not_matter() {
    for s in ["3d6", "d20", "11-43", "-5--3", "3d", "hello", "d1", ""] {
        let plain = parse(s).ok();
        assert_eq!(parse(&format!(" \t{s}\u{3000}\n")).ok(), plain);
        assert_eq!(parse(&s.replace('d', "D")).ok(), plain);
    }
}
