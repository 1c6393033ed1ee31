use wasm_operator::settings::{
    cache_dir, checked_duration, namespace, parse_duration, thresholds, use_prediction,
    SettingsError, Thresholds,
};

#[test]
fn durations_in_each_unit() {
    assert_eq!(parse_duration(Some("300000"), 1), 300_000);
    assert_eq!(parse_duration(Some("300000ms"), 1), 300_000);
    assert_eq!(parse_duration(Some("300s"), 1), 300_000);
    assert_eq!(parse_duration(Some("5m"), 1), 300_000);
    assert_eq!(parse_duration(Some("2h"), 1), 7_200_000);
    assert_eq!(parse_duration(Some("1d"), 1), 86_400_000);
}

#[test]
fn durations_in_capitals() {
    assert_eq!(parse_duration(Some("7MS"), 1), 7);
    assert_eq!(parse_duration(Some("7mS"), 1), 7);
    assert_eq!(parse_duration(Some("7Ms"), 1), 7);
    assert_eq!(parse_duration(Some("7S"), 1), 7_000);
    assert_eq!(parse_duration(Some("7M"), 1), 420_000);
    assert_eq!(parse_duration(Some("7H"), 1), 25_200_000);
    assert_eq!(parse_duration(Some("7D"), 1), 604_800_000);
}

#[test]
fn what_is_no_duration_stands_for_the_default() {
    assert_eq!(parse_duration(None, 5000), 5000);
    for text in ["", "s", "ms", "m", "x", "5x", "5 s", "-5s", "+5s", "1.5s", "5sé", "é5s", "5s5m"] {
        assert_eq!(parse_duration(Some(text), 5000), 5000, "{:?}", text);
    }
}

#[test]
fn durations_that_are_too_large() {
    assert_eq!(checked_duration(Some("18446744073709551615"), 1), Some(u64::MAX));
    assert_eq!(checked_duration(Some("18446744073709551616"), 1), None);
    assert_eq!(checked_duration(Some("18446744073709551615s"), 1), None);
    assert_eq!(checked_duration(Some("18446744073709551616x5s"), 1), None);
    assert_eq!(checked_duration(Some("213503982334d"), 1), Some(18_446_744_073_657_600_000));
    assert_eq!(checked_duration(Some("213503982335d"), 1), None);
}

#[test]
fn thresholds_must_not_cross() {
    assert_eq!(thresholds(None, None), Ok(Thresholds { idle_ms: 5000, execute_ms: 500 }));
    assert_eq!(thresholds(Some("501"), None), Ok(Thresholds { idle_ms: 501, execute_ms: 500 }));
    let crossed = thresholds(Some("500"), None);
    assert_eq!(crossed, Err(SettingsError::ThresholdsCrossed));
    assert_eq!(
        crossed.unwrap_err().text(),
        "WASMOP_IDLE_THRESHOLD must be greater than WASMOP_EXECUTE_THRESHOLD"
    );
    assert_eq!(
        thresholds(Some("99999999999999999999"), None),
        Err(SettingsError::IdleTooLarge)
    );
    assert_eq!(
        thresholds(None, Some("99999999999999999999")),
        Err(SettingsError::ExecuteTooLarge)
    );
    assert_eq!(SettingsError::IdleTooLarge.text(), "WASMOP_IDLE_THRESHOLD is too large");
    assert_eq!(SettingsError::ExecuteTooLarge.text(), "WASMOP_EXECUTE_THRESHOLD is too large");
}

#[test]
fn prediction_is_turned_on_by_true_or_1() {
    assert!(use_prediction(Some("true")));
    assert!(use_prediction(Some("1")));
    for setting in [None, Some(""), Some("TRUE"), Some("yes"), Some("0"), Some("true ")] {
        assert!(!use_prediction(setting));
    }
}

#[test]
fn other_defaults() {
    assert_eq!(cache_dir(None), "/tmp/wasmop-cache");
    assert_eq!(cache_dir(Some("/var/cache")), "/var/cache");
    assert_eq!(namespace(None), "default");
    assert_eq!(namespace(Some("ops")), "ops");
}
