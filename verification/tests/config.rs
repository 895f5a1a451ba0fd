use rarian::config::{Config, ConfigFile};

#[test]
fn defaults_without_a_file() {
    let config = Config::new(None, "/home/me/.local/share/rarian".to_string(), None);
    assert_eq!(config.data_path, "/home/me/.local/share/rarian");
    assert!(config.watcher_paths.is_empty());
    assert_eq!(config.comment_identifier, "@#$");
    assert_eq!(config.sleep_duration, 1000);
}

#[test]
fn the_command_line_overrides_the_file() {
    let file = ConfigFile {
        data_path: Some("/from/file".to_string()),
        watcher_paths: Some(vec!["/w".to_string()]),
        comment_identifier: Some("##".to_string()),
        sleep_duration: Some(1000),
    };
    let config = Config::new(Some("/from/args".to_string()), "/platform".to_string(), Some(file));
    assert_eq!(config.data_path, "/from/args");
    assert_eq!(config.watcher_paths, vec!["/w"]);
    assert_eq!(config.comment_identifier, "##");
    assert_eq!(config.sleep_duration, 1000);
}

#[test]
fn missing_fields_take_their_defaults() {
    let file = ConfigFile {
        data_path: Some("/from/file".to_string()),
        watcher_paths: None,
        comment_identifier: None,
        sleep_duration: None,
    };
    let config = Config::new(None, "/platform".to_string(), Some(file));
    assert_eq!(config.data_path, "/from/file");
    assert!(config.watcher_paths.is_empty());
    assert_eq!(config.comment_identifier, "@#$");
    assert_eq!(config.sleep_duration, 1000);
    let empty = ConfigFile {
        data_path: None,
        watcher_paths: None,
        comment_identifier: None,
        sleep_duration: Some(5),
    };
    let config = Config::new(None, "/platform".to_string(), Some(empty));
    assert_eq!(config.data_path, "/platform");
    assert_eq!(config.sleep_duration, 5);
}
