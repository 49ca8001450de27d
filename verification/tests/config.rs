use std::collections::HashMap;

use config::{Config, File, FileFormat};
use up::config::{get_commands, get_config_path, ConfigError};
use up::dirs::config_dir;

/// Parses TOML configuration text and hands the pairs to the library, the
/// way the surrounding binary does for a file read from `path`.
fn load_commands(path: &str, content: &str) -> Result<Vec<(String, String)>, ConfigError> {
    let cfg = Config::builder()
        .add_source(File::from_str(content, FileFormat::Toml))
        .build()
        .map_err(|e| ConfigError::NotFound(format!("Could not find file: {path}\n{e}")))?;
    let map: HashMap<String, String> = cfg
        .try_deserialize()
        .map_err(|e| ConfigError::FileError(format!("Could not read file {path}.\n{e}")))?;
    let pairs: Vec<(String, String)> = map.into_iter().collect();
    get_commands(path, &pairs)
}

#[test]
fn get_config_fails_properly_with_invalid_config_file() {
    let files = [
        ("empty_command.toml", "update = \"\"\n"),
        ("empty_config.toml", ""),
        ("no_command_name.toml", "= \"echo hello\"\n"),
        ("no_command.toml", "update =\n"),
    ];
    for (wrong_file, content) in files {
        let path = "./test/invalid_configs/".to_string() + wrong_file;
        let result = load_commands(&path, content);
        assert!(
            result.is_err(),
            "get_commands for {wrong_file} should have failed",
        );
    }
}

#[test]
fn get_file_path_works_properly() {
    let path = get_config_path(&Some("/tmp/config.toml".into()), config_dir());
    assert!(path.is_ok());
    assert_eq!(path.unwrap(), "/tmp/config.toml");
}

#[test]
fn get_config_path_defaults_to_standard_config_directory() {
    let path = get_config_path(&None, config_dir());
    assert!(path.is_ok());
    assert_eq!(path.unwrap(), "/tmp/up/commands.toml");
}

#[test]
fn get_config_path_without_any_directory_is_not_found() {
    let path = get_config_path(&None, None);
    assert!(matches!(path, Err(ConfigError::NotFound(_))));
    assert_eq!(
        path.unwrap_err().message(),
        "Error reading config: Could not find a standard config location"
    );
}

#[test]
fn get_config_works_with_valid_input() {
    let content = "multiple_words = \"echo valid\"\nword = \"echo valid\"\n";
    let result = load_commands("./test/valid_configs/valid_config.toml", content);
    assert!(result.is_ok());
    let result = result.unwrap();
    assert!(result.contains(&(String::from("multiple words"), String::from("echo valid"))));
    assert!(result.contains(&(String::from("word"), String::from("echo valid"))));
}

#[test]
fn get_commands_drops_empty_commands_and_keeps_order() {
    let pairs = vec![
        ("first_task".to_string(), "echo one".to_string()),
        ("skipped".to_string(), String::new()),
        ("second_task".to_string(), "echo two".to_string()),
    ];
    let result = get_commands("commands.toml", &pairs).unwrap();
    assert_eq!(
        result,
        vec![
            ("first task".to_string(), "echo one".to_string()),
            ("second task".to_string(), "echo two".to_string()),
        ]
    );
}

#[test]
fn get_commands_reports_an_all_empty_configuration() {
    let pairs = vec![("a".to_string(), String::new())];
    let result = get_commands("c.toml", &pairs);
    match result {
        Err(ConfigError::FileEmpty(m)) => {
            assert_eq!(m, "File c.toml is empty, or all its commands are empty");
        }
        _ => panic!("an all-empty configuration should be refused"),
    }
}

#[test]
fn config_test_error_display() {
    let error = ConfigError::NotFound("file1.toml".to_string());
    assert_eq!(error.message(), "Error reading config: file1.toml");

    let error = ConfigError::FileError("file1.toml".to_string());
    assert_eq!(error.message(), "Error reading config: file1.toml");

    let error = ConfigError::FileEmpty("file1.toml".to_string());
    assert_eq!(error.message(), "Error reading config: file1.toml");
}
