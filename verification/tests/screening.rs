use card_api::card::screening::{
    create_screening, parse_denylist, AllowAllScreening, ConfiguredScreening, NoOpScreening,
    Screening, ScreeningError,
};

#[test]
fn test_allow_all_with_empty_denylist_allows_all() {
    let screening = AllowAllScreening::new(vec![]);

    assert!(screening.check_country("US").is_ok());
    assert!(screening.check_country("GB").is_ok());
    assert!(screening.check_country("DE").is_ok());
    assert!(screening.check_country("ng").is_ok()); // case insensitive
}

#[test]
fn test_allow_all_with_denylist_blocks_denied() {
    let screening = AllowAllScreening::new(vec!["NG".to_string(), "IR".to_string()]);

    assert!(screening.check_country("US").is_ok());
    assert!(screening.check_country("GB").is_ok());

    let result = screening.check_country("NG");
    assert!(result.is_err());
    assert_eq!(
        result.unwrap_err(),
        ScreeningError::CountryBlocked("NG".to_string())
    );

    let result = screening.check_country("ng"); // case insensitive
    assert!(result.is_err());
    assert_eq!(
        result.unwrap_err(),
        ScreeningError::CountryBlocked("NG".to_string())
    );

    let result = screening.check_country("IR");
    assert!(result.is_err());
    assert_eq!(
        result.unwrap_err(),
        ScreeningError::CountryBlocked("IR".to_string())
    );
}

#[test]
fn test_noop_screening_always_allows() {
    let screening = NoOpScreening;

    assert!(screening.check_country("US").is_ok());
    assert!(screening.check_country("NG").is_ok());
    assert!(screening.check_country("IR").is_ok());
    assert!(screening.check_country("XX").is_ok());
}

#[test]
fn test_create_screening_respects_flag() {
    let screening = create_screening(None, None);
    assert_eq!(screening.name(), "NoOpScreening");

    let screening = create_screening(Some("true".to_string()), None);
    assert_eq!(screening.name(), "AllowAllScreening");

    let screening = create_screening(Some("true".to_string()), Some("NG,IR".to_string()));
    assert_eq!(screening.name(), "AllowAllScreening");
    assert!(screening.check_country("NG").is_err());
    assert!(screening.check_country("US").is_ok());
}

#[test]
fn test_from_env_parses_comma_separated() {
    let screening = AllowAllScreening::from_env(Some("NG, IR,  KP  ".to_string()));
    assert_eq!(screening.denylist, vec!["NG", "IR", "KP"]);
}

#[test]
fn test_from_env_handles_empty() {
    let screening = AllowAllScreening::from_env(Some("".to_string()));
    assert!(screening.denylist.is_empty());

    let screening = AllowAllScreening::from_env(None);
    assert!(screening.denylist.is_empty());
}

#[test]
fn from_env_uppercases_entries() {
    let screening = AllowAllScreening::from_env(Some("ng,ir".to_string()));
    assert_eq!(screening.denylist, vec!["NG", "IR"]);
    assert_eq!(
        screening.check_country("Ng").unwrap_err(),
        ScreeningError::CountryBlocked("NG".to_string())
    );
}

#[test]
fn from_env_drops_blank_entries() {
    let screening = AllowAllScreening::from_env(Some(" , ,,\t".to_string()));
    assert!(screening.denylist.is_empty());
    let screening = AllowAllScreening::from_env(Some(",KP,".to_string()));
    assert_eq!(screening.denylist, vec!["KP"]);
}

#[test]
fn parse_denylist_keeps_order_and_duplicates() {
    assert_eq!(parse_denylist("ir, ng ,IR"), vec!["IR", "NG", "IR"]);
    assert_eq!(parse_denylist("ß"), vec!["SS"]);
}

#[test]
fn lowercase_entries_match_case_insensitively() {
    let screening = AllowAllScreening::new(vec!["ng".to_string(), "Ir".to_string()]);
    assert_eq!(screening.denylist, vec!["ng", "Ir"]);
    assert_eq!(
        screening.check_country("ng").unwrap_err(),
        ScreeningError::CountryBlocked("NG".to_string())
    );
    assert_eq!(
        screening.check_country("NG").unwrap_err(),
        ScreeningError::CountryBlocked("NG".to_string())
    );
    assert_eq!(
        screening.check_country("iR").unwrap_err(),
        ScreeningError::CountryBlocked("IR".to_string())
    );
    assert!(screening.check_country("US").is_ok());
}

#[test]
fn screening_names() {
    assert_eq!(AllowAllScreening::new(vec![]).name(), "AllowAllScreening");
    assert_eq!(NoOpScreening.name(), "NoOpScreening");
}

#[test]
fn configured_screening_follows_flag_values() {
    let on = create_screening(Some(" YES ".to_string()), Some("ir".to_string()));
    assert!(matches!(on, ConfiguredScreening::AllowAll(_)));
    assert_eq!(
        on.check_country("ir").unwrap_err(),
        ScreeningError::CountryBlocked("IR".to_string())
    );

    let off = create_screening(Some("off".to_string()), Some("IR".to_string()));
    assert!(matches!(off, ConfiguredScreening::NoOp(_)));
    assert!(off.check_country("IR").is_ok());
}

#[test]
fn screening_error_messages() {
    assert_eq!(
        ScreeningError::CountryBlocked("NG".to_string()).message(),
        "Country NG is blocked"
    );
    assert_eq!(
        ScreeningError::Unavailable.message(),
        "Screening service unavailable"
    );
}

#[test]
fn denylist_concatenates_and_round_trips() {
    let a = AllowAllScreening::from_env(Some(" ng, ir".to_string())).denylist;
    let b = AllowAllScreening::from_env(Some("kp,,".to_string())).denylist;
    let both = AllowAllScreening::from_env(Some(" ng, ir,kp,,".to_string())).denylist;
    let mut joined = a.clone();
    joined.extend(b);
    assert_eq!(both, joined);

    let again = AllowAllScreening::from_env(Some(both.join(","))).denylist;
    assert_eq!(again, both);
}

#[test]
fn ascii_case_variants_are_screened_alike() {
    let screening = AllowAllScreening::new(vec!["kP".to_string()]);
    for code in ["kp", "KP", "Kp", "kP"] {
        assert_eq!(
            screening.check_country(code).unwrap_err(),
            ScreeningError::CountryBlocked("KP".to_string())
        );
    }
}
