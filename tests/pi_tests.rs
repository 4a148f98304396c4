use giv::pi::{generate_pi, get_pi, get_rounding, pi_command, PI_DEFAULT_PLACES};
use giv::pi_digits::PI_DECIMALS;
use giv::GivError;

#[test]
fn mod_test_get_pi() {
    let result = get_pi(PI_DEFAULT_PLACES, true);
    assert!(result.is_ok());
    assert_eq!(result.unwrap(), "3.141592653589793");
    assert_eq!(get_pi(1, true).unwrap(), "3.1");
    assert_eq!(get_pi(1, false).unwrap(), "3.1");
    assert_eq!(get_pi(2, true).unwrap(), "3.14");
    assert_eq!(get_pi(2, false).unwrap(), "3.14");
    assert_eq!(get_pi(3, true).unwrap(), "3.142");
    assert_eq!(get_pi(3, false).unwrap(), "3.141");
    assert_eq!(get_pi(6, true).unwrap(), "3.141593");
    assert_eq!(get_pi(6, false).unwrap(), "3.141592");
    assert_eq!(get_pi(7, true).unwrap(), "3.1415927");
    assert_eq!(get_pi(7, false).unwrap(), "3.1415926");
    assert_eq!(get_pi(10, true).unwrap(), "3.1415926536");
    assert_eq!(get_pi(10, false).unwrap(), "3.1415926535");
    assert_eq!(get_pi(15, true).unwrap(), "3.141592653589793");
    assert_eq!(get_pi(15, false).unwrap(), "3.141592653589793");
    let f64_pi = std::f64::consts::PI.to_string();
    assert_eq!(&get_pi(15, true).unwrap(), &f64_pi);
    let f32_pi = std::f32::consts::PI.to_string();
    assert_eq!(&get_pi(7, true).unwrap(), &f32_pi);
    assert_eq!(get_pi(25, true).unwrap(), "3.1415926535897932384626434");
    assert_eq!(get_pi(25, false).unwrap(), "3.1415926535897932384626433");
    assert_eq!(
        get_pi(50, true).unwrap(),
        "3.14159265358979323846264338327950288419716939937511"
    );
    assert_eq!(
        get_pi(50, false).unwrap(),
        "3.14159265358979323846264338327950288419716939937510"
    );
    let full_decimals = format!("{}{}", "3.", PI_DECIMALS);
    assert_eq!(get_pi(PI_DECIMALS.len(), true).unwrap(), full_decimals);
    assert_eq!(get_pi(PI_DECIMALS.len(), false).unwrap(), full_decimals);
}

#[test]
fn mod_test_get_pi_zero_places() {
    let result = get_pi(0, true);
    assert!(result.is_err());
    let err = result.unwrap_err();
    match err {
        GivError::DecimalPlacesOutOfRange(places, max) => {
            assert_eq!(places, 0);
            assert_eq!(max, PI_DECIMALS.len());
        }
        _ => panic!("Unexpected error type: {:?}", err),
    }
    assert!(get_pi(0, false).is_err());
}

#[test]
fn mod_test_get_pi_too_many_places() {
    let result = get_pi(PI_DECIMALS.len() + 1, true);
    assert!(result.is_err());
    let err = result.unwrap_err();
    match err {
        GivError::DecimalPlacesOutOfRange(places, max) => {
            assert_eq!(places, PI_DECIMALS.len() + 1);
            assert_eq!(max, PI_DECIMALS.len());
        }
        _ => panic!("Unexpected error type: {:?}", err),
    }
    assert!(get_pi(PI_DECIMALS.len() + 1, false).is_err());
}

#[test]
fn mod_test_pi_decimals_length() {
    assert_eq!(PI_DECIMALS.len(), 10000);
}

#[test]
fn test_conflicting_rounding_flags() {
    let result = get_rounding((Some(true), Some(true)));
    assert!(result.is_err());
    let err = result.unwrap_err();
    match err {
        GivError::ConflictingFlags(_) => {}
        _ => panic!("Unexpected error type: {:?}", err),
    }
    assert_eq!(
        err.message(),
        "Conflicting flags: cannot specify both --round and --no-round"
    );
}

#[test]
fn rounding_flag_choices() {
    assert_eq!(get_rounding((None, None)).unwrap(), true);
    assert_eq!(get_rounding((Some(true), None)).unwrap(), true);
    assert_eq!(get_rounding((Some(true), Some(false))).unwrap(), true);
    assert_eq!(get_rounding((None, Some(true))).unwrap(), false);
    assert_eq!(get_rounding((Some(false), Some(true))).unwrap(), false);
}

#[test]
fn pi_five_places_without_rounding() {
    let out = pi_command(Some(5), (None, Some(true))).unwrap();
    assert_eq!(out.pi, "3.14159");
    assert!(!out.rounded);
}

#[test]
fn pi_three_places_default_rounding() {
    let out = pi_command(Some(3), (None, None)).unwrap();
    assert_eq!(out.pi, "3.142");
    assert!(out.rounded);
}

#[test]
fn pi_default_places() {
    let out = generate_pi(None, None).unwrap();
    assert_eq!(out.pi, "3.141592653589793");
    assert!(out.rounded);
}

#[test]
fn pi_truncation_matches_table_for_every_place_count() {
    for p in 1..=PI_DECIMALS.len() {
        let text = get_pi(p, false).unwrap();
        assert_eq!(&text[2..], &PI_DECIMALS[..p]);
        assert!(text.starts_with("3."));
        let rounded = get_pi(p, true).unwrap();
        assert!(rounded.starts_with("3."));
        assert_eq!(rounded.len(), p + 2);
        if p < PI_DECIMALS.len() && PI_DECIMALS.as_bytes()[p] < b'5' {
            assert_eq!(rounded, text);
        }
    }
}

#[test]
fn out_of_range_message() {
    let err = get_pi(0, true).unwrap_err();
    assert_eq!(
        err.message(),
        "Requested number of PI decimal places '0' is not supported please select a value between '1' and '10000'"
    );
}
