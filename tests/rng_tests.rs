use giv::entropy::{sample_word, Entropy};
use giv::rng::{dice_notation, dice_total, execute_spec, plain_value, rng_command, RngResult};
use giv::rng_spec::{count_decimal_places, parse_spec, RngSpec};
use giv::GivError;

fn float_of(s: &str) -> f64 {
    s.parse::<f64>().unwrap()
}

#[test]
fn test_parse_dice() {
    assert_eq!(parse_spec("2d6").unwrap(), RngSpec::Dice { count: 2, sides: 6, modifier: 0 });
    assert_eq!(parse_spec("d8").unwrap(), RngSpec::Dice { count: 1, sides: 8, modifier: 0 });
    assert_eq!(
        parse_spec("10d100").unwrap(),
        RngSpec::Dice { count: 10, sides: 100, modifier: 0 }
    );
    assert_eq!(parse_spec("3d6+2").unwrap(), RngSpec::Dice { count: 3, sides: 6, modifier: 2 });
    assert_eq!(
        parse_spec("1d20-1").unwrap(),
        RngSpec::Dice { count: 1, sides: 20, modifier: -1 }
    );
    assert_eq!(parse_spec("d8+5").unwrap(), RngSpec::Dice { count: 1, sides: 8, modifier: 5 });
}

#[test]
fn test_parse_range_int() {
    assert_eq!(parse_spec("1..100").unwrap(), RngSpec::RangeInt { start: 1, end: 100 });
    assert_eq!(parse_spec("0..10").unwrap(), RngSpec::RangeInt { start: 0, end: 10 });
}

#[test]
fn test_parse_range_float() {
    let check = |text: &str, start: f64, end: f64, precision: usize| match parse_spec(text)
        .unwrap()
    {
        RngSpec::RangeFloat { start: s, end: e, precision: p } => {
            assert_eq!(float_of(&s), start);
            assert_eq!(float_of(&e), end);
            assert_eq!(p, precision);
        }
        other => panic!("unexpected {:?}", other),
    };
    check("0.0..1.0", 0.0, 1.0, 1);
    check("0.000..1", 0.0, 1.0, 3);
    check("1.5..10.75", 1.5, 10.75, 2);
}

#[test]
fn test_parse_invalid() {
    assert!(parse_spec("d").is_err());
    assert!(parse_spec("..").is_err());
    assert!(parse_spec("1..").is_err());
    assert!(parse_spec("..10").is_err());
    assert!(parse_spec("10..5").is_err());
    assert!(parse_spec("10..10").is_err());
    assert!(parse_spec("0d6").is_err());
    assert!(parse_spec("2d0").is_err());
    assert!(parse_spec("hello").is_err());
    assert!(parse_spec("123").is_err());
}

#[test]
fn test_count_decimal_places() {
    assert_eq!(count_decimal_places("1.0"), 1);
    assert_eq!(count_decimal_places("1.00"), 2);
    assert_eq!(count_decimal_places("1.000"), 3);
    assert_eq!(count_decimal_places("0.123456"), 6);
    assert_eq!(count_decimal_places("123"), 0);
    assert_eq!(count_decimal_places("123.0"), 1);
}

#[test]
fn parse_rejects_malformed_numbers() {
    assert!(parse_spec("2d6+3+1").is_err());
    assert!(parse_spec("2d6++3").is_err());
    assert!(parse_spec("2d+3").is_err());
    assert!(parse_spec("18446744073709551616d6").is_err());
    assert!(parse_spec("2d6+9223372036854775808").is_err());
    assert_eq!(
        parse_spec("2d6-9223372036854775807").unwrap(),
        RngSpec::Dice { count: 2, sides: 6, modifier: -9223372036854775807 }
    );
    assert!(parse_spec("1.0..1.00").is_err());
    assert!(parse_spec("2.5..1.25").is_err());
    assert!(parse_spec("1.2.3..4").is_err());
    assert!(parse_spec("inf..1.0").is_err());
    assert!(parse_spec(" 1..2").is_err());
    let err = parse_spec("hello").unwrap_err();
    assert_eq!(err, GivError::InvalidRngSpec("hello".to_string()));
}

#[test]
fn parse_round_trips_through_canonical_notation() {
    let pairs = [
        ("1d6", "d6"),
        ("01d6", "d6"),
        ("2d6+0", "2d6"),
        ("2d06", "2d6"),
        ("1d20-01", "d20-1"),
        ("0001..0100", "1..100"),
    ];
    for (spec, canonical) in pairs {
        assert_eq!(parse_spec(spec).unwrap(), parse_spec(canonical).unwrap());
    }
}

#[test]
fn dice_notation_rendering() {
    assert_eq!(dice_notation(2, 6, 0), "2d6");
    assert_eq!(dice_notation(2, 6, 3), "2d6+3");
    assert_eq!(dice_notation(1, 20, -1), "d20-1");
    assert_eq!(dice_notation(1, 8, 5), "d8+5");
}

#[test]
fn forced_sixes_for_two_dice() {
    // 5 is below the cutoff for six sides and 1 + 5 % 6 = 6.
    let mut e = Entropy::from_words(vec![5]);
    let spec = parse_spec("2d6+3").unwrap();
    match execute_spec(&mut e, &spec).unwrap() {
        RngResult::Dice { notation, value, modifier, source } => {
            assert_eq!(notation, "2d6+3");
            assert_eq!(value, 15);
            assert_eq!(modifier, 3);
            assert_eq!(source, vec![6, 6]);
        }
        other => panic!("unexpected {:?}", other),
    }
}

#[test]
fn test_execute_spec() {
    let mut rng = Entropy::from_os().unwrap();
    let spec = RngSpec::Dice { count: 3, sides: 6, modifier: 0 };
    match execute_spec(&mut rng, &spec).unwrap() {
        RngResult::Dice { notation, value, modifier, source } => {
            assert_eq!(notation, "3d6");
            assert_eq!(modifier, 0);
            assert_eq!(source.len(), 3);
            let expected_sum: i64 = source.iter().map(|&x| i64::try_from(x).unwrap()).sum();
            assert_eq!(value, expected_sum);
            for roll in source {
                assert!(roll >= 1 && roll <= 6);
            }
            assert!(value >= 3 && value <= 18);
        }
        _ => panic!("Expected Dice result"),
    }
    let spec = RngSpec::Dice { count: 2, sides: 6, modifier: 5 };
    match execute_spec(&mut rng, &spec).unwrap() {
        RngResult::Dice { notation, value, modifier, source } => {
            assert_eq!(notation, "2d6+5");
            assert_eq!(modifier, 5);
            assert_eq!(source.len(), 2);
            let roll_sum: i64 = source.iter().map(|&x| i64::try_from(x).unwrap()).sum();
            assert_eq!(value, roll_sum + 5);
            assert!(value >= 7 && value <= 17);
        }
        _ => panic!("Expected Dice result"),
    }
    let spec = RngSpec::Dice { count: 1, sides: 20, modifier: -1 };
    match execute_spec(&mut rng, &spec).unwrap() {
        RngResult::Dice { notation, value, modifier, source } => {
            assert_eq!(notation, "d20-1");
            assert_eq!(modifier, -1);
            assert_eq!(source.len(), 1);
            let roll_sum: i64 = source.iter().map(|&x| i64::try_from(x).unwrap()).sum();
            assert_eq!(value, roll_sum - 1);
            assert!(value >= 0 && value <= 19);
        }
        _ => panic!("Expected Dice result"),
    }
    let spec = RngSpec::RangeInt { start: 1, end: 100 };
    match execute_spec(&mut rng, &spec).unwrap() {
        RngResult::RangeInt { notation, value } => {
            assert_eq!(notation, "1..100");
            assert!(value >= 1 && value <= 100);
        }
        _ => panic!("Expected RangeInt result"),
    }
    let spec = RngSpec::RangeFloat { start: "0.0".to_string(), end: "1.0".to_string(), precision: 3 };
    match execute_spec(&mut rng, &spec).unwrap() {
        RngResult::RangeFloat { notation, precision, .. } => {
            assert_eq!(notation, "0.000..1.000");
            assert_eq!(precision, 3);
        }
        _ => panic!("Expected RangeFloat result"),
    }
}

#[test]
fn test_gen_range_int() {
    let mut rng = Entropy::from_os().unwrap();
    for _ in 0..100 {
        let value = rng.bounded_int(1, 10);
        assert!(value >= 1 && value <= 10);
    }
    let value = rng.bounded_int(5, 5);
    assert_eq!(value, 5);
}

#[test]
fn rejection_sampler_redraws_biased_words() {
    // For [0, 2] the span is 3 and the cutoff is 2^64 - 1, so u64::MAX is rejected.
    assert_eq!(sample_word(u64::MAX, 0, 2), None);
    assert_eq!(sample_word(7, 0, 2), Some(1));
    let mut e = Entropy::from_words(vec![u64::MAX, 7]);
    assert_eq!(e.bounded_int(0, 2), 1);
    // The whole u64 range takes every word as it is.
    assert_eq!(sample_word(u64::MAX, 0, u64::MAX), Some(u64::MAX));
    let mut e = Entropy::from_words(vec![41]);
    assert_eq!(e.bounded_int(10, 10), 10);
}

#[test]
fn dice_overflow_is_reported() {
    assert!(matches!(dice_total(&vec![u64::MAX, 1], 0), Err(GivError::NumericOverflow(_))));
    assert!(matches!(
        dice_total(&vec![i64::MAX as u64], 1),
        Err(GivError::NumericOverflow(_))
    ));
    assert_eq!(dice_total(&vec![3, 4], -10).unwrap(), -3);
    let mut e = Entropy::from_words(vec![u64::MAX - 1]);
    let spec = RngSpec::Dice { count: 2, sides: u64::MAX, modifier: 0 };
    let err = execute_spec(&mut e, &spec).unwrap_err();
    assert!(matches!(err, GivError::NumericOverflow(_)));
}

#[test]
fn rng_command_is_all_or_nothing() {
    let mut e = Entropy::from_seed(11);
    let err = rng_command(&mut e, &vec![]).unwrap_err();
    assert!(matches!(err, GivError::RequiredArgumentsNotProvided(_)));
    let err = rng_command(&mut e, &vec!["2d6".to_string(), "nope".to_string()]).unwrap_err();
    assert_eq!(err, GivError::InvalidRngSpec("nope".to_string()));
    let out = rng_command(&mut e, &vec!["2d6".to_string(), "1..3".to_string()]).unwrap();
    assert_eq!(out.len(), 2);
}

#[test]
fn seeded_entropy_is_deterministic() {
    let specs = vec!["4d12-2".to_string(), "1..1000".to_string(), "0.5..2.25".to_string()];
    let mut a = Entropy::from_seed(2024);
    let mut b = Entropy::from_seed(2024);
    assert_eq!(rng_command(&mut a, &specs).unwrap(), rng_command(&mut b, &specs).unwrap());
}

#[test]
fn plain_values_of_results() {
    let dice = RngResult::Dice { notation: "2d6-20".to_string(), value: -8, modifier: -20, source: vec![6, 6] };
    assert_eq!(plain_value(&dice), Some("-8".to_string()));
    let range = RngResult::RangeInt { notation: "1..100".to_string(), value: 42 };
    assert_eq!(plain_value(&range), Some("42".to_string()));
}
