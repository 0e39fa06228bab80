use dm_mcp::doubles::{count_parts, multiply, Double};
use dm_mcp::text::{say_hundredths, say_tenths};

fn double(x: f64) -> Double {
    Double { bits: x.to_bits() }
}

#[test]
fn decimals_are_those_of_the_nearest_double() {
    let huge = [1i128 << 53, 1 << 62, 1 << 90, 3 << 100, 1 << 126, i128::MIN];
    for n in (-12_000..12_000).chain(huge) {
        let x = n as f64 / 1000.0;
        assert_eq!(say_tenths(n), format!("{x:.1}"), "{n} thousandths");
        assert_eq!(say_hundredths(n), format!("{x:.2}"), "{n} thousandths");
    }
    assert_eq!((say_tenths(250), say_tenths(750)), ("0.2".to_string(), "0.8".to_string()));
    assert_eq!((say_tenths(350), say_tenths(450)), ("0.3".to_string(), "0.5".to_string()));
    assert_eq!((say_hundredths(125), say_hundredths(-1)), ("0.12".to_string(), "-0.00".to_string()));
    assert_eq!(count_parts(0, 1000, 10), 0);
}

#[test]
fn products_are_those_of_doubles() {
    let factors = [0.0, -0.0, 5e-324, 1e-300, 1e-9, 0.1, 0.29, 0.5, 0.7, 1.0, 1.255, 1.9999999999999998, 2.0];
    for n in (0..2_000).chain([0x7fff_fffe, 0x7fff_ffff, 0xffff_ffff]) {
        for x in factors {
            assert_eq!(multiply(n, double(x)), (n as f64 * x).round() as u128, "{n} times {x}");
        }
    }
}

#[test]
fn numbers_are_kept_within_two() {
    let cases = [
        (-1.0, 0.0),
        (f64::NEG_INFINITY, 0.0),
        (-0.0, -0.0),
        (0.25, 0.25),
        (2.0, 2.0),
        (2.0000000000000004, 2.0),
        (f64::INFINITY, 2.0),
    ];
    for (x, expected) in cases {
        assert_eq!(double(x).clamp_to_two(), double(expected));
        assert!(!double(x).check_nan());
    }
    for x in [f64::NAN, -f64::NAN] {
        assert!(double(x).check_nan());
        assert_eq!(double(x).clamp_to_two(), double(x));
    }
}
