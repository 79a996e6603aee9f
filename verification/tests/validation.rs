use folder_classifier::config::{AppConfig, FolderTypeConfig, FolderTypesFile};
use folder_classifier::validation::{is_blank_text, is_whitespace_char, validate_config, ConfigError};

fn folder_type(id: &str) -> FolderTypeConfig {
    FolderTypeConfig {
        id: id.to_string(),
        label: id.to_string(),
        icon: String::new(),
        detect: None,
    }
}

fn app(id: &str, command: &str) -> AppConfig {
    AppConfig {
        id: id.to_string(),
        name: id.to_string(),
        icon: String::new(),
        command: command.to_string(),
        default: false,
    }
}

fn file(types: &[&str], apps: &[(&str, &str)]) -> FolderTypesFile {
    FolderTypesFile {
        types: types.iter().map(|id| folder_type(id)).collect(),
        apps: apps.iter().map(|(id, command)| app(id, command)).collect(),
    }
}

#[test]
fn a_sound_configuration_is_accepted() {
    let config = file(&["next", "python", "unknown"], &[("code", "code {path}"), ("term", "wt")]);
    assert!(validate_config(&config).is_ok());
    assert!(validate_config(&file(&["unknown"], &[])).is_ok());
}

#[test]
fn a_repeated_type_id_is_refused() {
    let config = file(&["next", "python", "next", "python", "unknown"], &[]);
    match validate_config(&config) {
        Err(ConfigError::DuplicateTypeId(id)) => assert_eq!(id, "next"),
        other => panic!("unexpected outcome: {other:?}"),
    }
}

#[test]
fn the_first_repeat_is_the_one_reported() {
    let config = file(&["a", "b", "b", "a", "unknown"], &[]);
    match validate_config(&config) {
        Err(ConfigError::DuplicateTypeId(id)) => assert_eq!(id, "b"),
        other => panic!("unexpected outcome: {other:?}"),
    }
}

#[test]
fn a_missing_unknown_type_is_refused() {
    assert!(matches!(
        validate_config(&file(&["next", "python"], &[])),
        Err(ConfigError::MissingUnknownType)
    ));
    assert!(matches!(validate_config(&file(&[], &[])), Err(ConfigError::MissingUnknownType)));
    assert!(matches!(
        validate_config(&file(&["Unknown"], &[])),
        Err(ConfigError::MissingUnknownType)
    ));
}

#[test]
fn a_blank_app_id_is_refused() {
    assert!(matches!(
        validate_config(&file(&["unknown"], &[("", "code")])),
        Err(ConfigError::EmptyAppId)
    ));
    assert!(matches!(
        validate_config(&file(&["unknown"], &[("ok", "run"), (" \t\n", "code")])),
        Err(ConfigError::EmptyAppId)
    ));
}

#[test]
fn a_blank_app_command_is_refused() {
    match validate_config(&file(&["unknown"], &[("code", "   ")])) {
        Err(ConfigError::EmptyAppCommand(id)) => assert_eq!(id, "code"),
        other => panic!("unexpected outcome: {other:?}"),
    }
}

#[test]
fn a_repeated_app_id_is_refused() {
    match validate_config(&file(&["unknown"], &[("code", "code"), ("term", "wt"), ("code", "vi")])) {
        Err(ConfigError::DuplicateAppId(id)) => assert_eq!(id, "code"),
        other => panic!("unexpected outcome: {other:?}"),
    }
}

#[test]
fn type_faults_come_before_app_faults() {
    assert!(matches!(
        validate_config(&file(&["a", "a"], &[("", "")])),
        Err(ConfigError::DuplicateTypeId(_))
    ));
    assert!(matches!(
        validate_config(&file(&["a"], &[("", "")])),
        Err(ConfigError::MissingUnknownType)
    ));
}

#[test]
fn the_first_faulty_app_is_the_one_reported() {
    let config = file(&["unknown"], &[("a", "run"), ("a", " "), ("", "run")]);
    match validate_config(&config) {
        Err(ConfigError::EmptyAppCommand(id)) => assert_eq!(id, "a"),
        other => panic!("unexpected outcome: {other:?}"),
    }
    let config = file(&["unknown"], &[("a", "run"), ("a", "go"), ("", "run")]);
    assert!(matches!(validate_config(&config), Err(ConfigError::DuplicateAppId(_))));
}

#[test]
fn type_and_app_ids_do_not_clash_with_each_other() {
    assert!(validate_config(&file(&["unknown", "code"], &[("code", "code"), ("unknown", "x")]))
        .is_ok());
}

#[test]
fn whitespace_is_what_the_standard_library_calls_whitespace() {
    for code in 0..=0x10FFFFu32 {
        if let Some(c) = char::from_u32(code) {
            assert_eq!(is_whitespace_char(c), c.is_whitespace(), "U+{code:04X}");
        }
    }
}

#[test]
fn blank_means_empty_after_trimming() {
    for text in ["", " ", "\t\r\n", "\u{3000}\u{2003}", " a ", "a", "\u{200B}", "  .  "] {
        assert_eq!(is_blank_text(text), text.trim().is_empty(), "{text:?}");
    }
    assert!(is_blank_text(""));
    assert!(!is_blank_text(" x"));
}
