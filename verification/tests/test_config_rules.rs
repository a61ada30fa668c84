use sac::config::{is_yes, parse_bool, Config, ConfigError};

#[test]
fn test_parse_bool() {
    assert_eq!(parse_bool("true"), Some(true));
    assert_eq!(parse_bool("false"), Some(false));
    assert_eq!(parse_bool("True"), None);
    assert_eq!(parse_bool("yes"), None);
}

#[test]
fn test_is_yes() {
    assert!(is_yes("y"));
    assert!(is_yes(" Y \n"));
    assert!(!is_yes("yes"));
    assert!(!is_yes(""));
    assert!(!is_yes("n"));
}

#[test]
fn test_set_errors_and_messages() {
    let mut config = Config::default();
    match config.set("general.auto_check_remote", "maybe") {
        Err(e @ ConfigError::InvalidBool { .. }) => {
            assert!(e.message().contains("maybe"), "{}", e.message())
        }
        other => panic!("unexpected {:?}", other),
    }
    assert!(config.general.auto_check_remote);
    match config.set("shell.kind", "zsh") {
        Err(e @ ConfigError::UnknownKey { .. }) => {
            assert!(e.message().contains("shell.kind"), "{}", e.message())
        }
        other => panic!("unexpected {:?}", other),
    }
    assert_eq!(config.shell.shell_type, "zsh");
}

#[test]
fn test_sync_enabled_and_daily_check() {
    let mut config = Config::default();
    assert!(!config.sync_enabled());
    config.set("commands_source.mode", "remote").unwrap();
    assert!(!config.sync_enabled());
    config.set("commands_source.url", "https://example.com/c.toml").unwrap();
    assert!(config.sync_enabled());
    assert!(config.daily_check_due("2024-03-01"));
    config.set("general.last_check", "2024-03-01").unwrap();
    assert!(!config.daily_check_due("2024-03-01"));
    assert!(config.daily_check_due("2024-03-02"));
    config.set("general.auto_check_remote", "false").unwrap();
    assert!(!config.daily_check_due("2024-03-02"));
}
