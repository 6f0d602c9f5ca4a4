use card_api::card::is_card_enabled;

#[test]
fn test_is_card_enabled_defaults_false() {
    assert!(!is_card_enabled(None));
}

#[test]
fn test_is_card_enabled_true_values() {
    for val in ["1", "true", "yes", "on", "TRUE", "Yes"] {
        assert!(is_card_enabled(Some(val.to_string())), "failed for value: {}", val);
    }
}

#[test]
fn test_is_card_enabled_false_values() {
    for val in ["0", "false", "no", "off", "FALSE", "No"] {
        assert!(!is_card_enabled(Some(val.to_string())), "failed for value: {}", val);
    }
}

#[test]
fn card_flag_is_trimmed() {
    assert!(is_card_enabled(Some("  On\n".to_string())));
    assert!(!is_card_enabled(Some("".to_string())));
    assert!(!is_card_enabled(Some("t rue".to_string())));
    assert!(!is_card_enabled(Some("enabled".to_string())));
}
