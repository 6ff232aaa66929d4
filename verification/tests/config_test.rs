use switchboard::config::{
    load_config, parse_bool_env, Config, ConfigError, ConfigVars, LogDirectoryMode,
    DEFAULT_OPENAI_ENABLED, DEFAULT_OPENAI_TARGET_URL,
};

/// A snapshot of the environment with ANTHROPIC_API_KEY set, plus `extra`.
fn vars_with(extra: &[(&str, &str)]) -> ConfigVars {
    let mut vars = ConfigVars::default();
    vars.anthropic_api_key = Some("test-key".to_string());
    for (key, value) in extra {
        let value = Some(value.to_string());
        match *key {
            "PORT" => vars.port = value,
            "ANTHROPIC_API_KEY" => vars.anthropic_api_key = value,
            "ANTHROPIC_TARGET_URL" => vars.anthropic_target_url = value,
            "OPENAI_API_KEY" => vars.openai_api_key = value,
            "OPENAI_API_BASE_URL" => vars.openai_api_base_url = value,
            "OPENAI_ENABLED" => vars.openai_enabled = value,
            "LOG_LEVEL" => vars.log_level = value,
            "LOG_FORMAT" => vars.log_format = value,
            "LOG_BODIES" => vars.log_bodies = value,
            "LOG_FILE_PATH" => vars.log_file_path = value,
            "LOG_FILE_LEVEL" => vars.log_file_level = value,
            "LOG_MAX_BODY_SIZE" => vars.log_max_body_size = value,
            "LOG_DIRECTORY_MODE" => vars.log_directory_mode = value,
            "LOG_MAX_AGE_DAYS" => vars.log_max_age_days = value,
            other => panic!("unknown variable {}", other),
        }
    }
    vars
}

#[test]
fn test_openai_api_key_required_when_enabled() {
    let result = load_config(vars_with(&[("OPENAI_ENABLED", "true")]));
    assert!(matches!(result, Err(ConfigError::MissingOpenAiKey)));
}

#[test]
fn test_missing_anthropic_api_key() {
    match load_config(ConfigVars::default()) {
        Err(ConfigError::MissingRequiredKey(key)) => assert_eq!(key, "ANTHROPIC_API_KEY"),
        other => panic!("Expected ConfigError::MissingRequiredKey but got {:?}", other.err()),
    }
}

#[test]
fn test_empty_anthropic_api_key() {
    match load_config(vars_with(&[("ANTHROPIC_API_KEY", "")])) {
        Err(ConfigError::EmptyValue(key)) => assert_eq!(key, "ANTHROPIC_API_KEY"),
        other => panic!("Expected ConfigError::EmptyValue but got {:?}", other.err()),
    }
}

#[test]
fn test_invalid_boolean_value_log_bodies() {
    match load_config(vars_with(&[("LOG_BODIES", "not-a-boolean")])) {
        Err(ConfigError::InvalidBooleanValue { var, value }) => {
            assert_eq!(var, "LOG_BODIES");
            assert_eq!(value, "not-a-boolean");
        }
        other => panic!("Expected InvalidBooleanValue but got {:?}", other.err()),
    }
}

#[test]
fn test_invalid_boolean_value_openai_enabled() {
    match load_config(vars_with(&[("OPENAI_ENABLED", "maybe")])) {
        Err(ConfigError::InvalidBooleanValue { var, value }) => {
            assert_eq!(var, "OPENAI_ENABLED");
            assert_eq!(value, "maybe");
        }
        other => panic!("Expected InvalidBooleanValue but got {:?}", other.err()),
    }
}

#[test]
fn test_invalid_numeric_value_port() {
    match load_config(vars_with(&[("PORT", "not-a-number")])) {
        Err(ConfigError::InvalidNumericValue { var, value }) => {
            assert_eq!(var, "PORT");
            assert_eq!(value, "not-a-number");
        }
        other => panic!("Expected InvalidNumericValue but got {:?}", other.err()),
    }
}

#[test]
fn test_invalid_numeric_value_max_body_size() {
    match load_config(vars_with(&[("LOG_MAX_BODY_SIZE", "not-a-number")])) {
        Err(ConfigError::InvalidNumericValue { var, value }) => {
            assert_eq!(var, "LOG_MAX_BODY_SIZE");
            assert_eq!(value, "not-a-number");
        }
        other => panic!("Expected InvalidNumericValue but got {:?}", other.err()),
    }
}

#[test]
fn test_invalid_numeric_value_max_age_days() {
    match load_config(vars_with(&[("LOG_MAX_AGE_DAYS", "not-a-number")])) {
        Err(ConfigError::InvalidNumericValue { var, value }) => {
            assert_eq!(var, "LOG_MAX_AGE_DAYS");
            assert_eq!(value, "not-a-number");
        }
        other => panic!("Expected InvalidNumericValue but got {:?}", other.err()),
    }
}

#[test]
fn test_invalid_url_format_anthropic() {
    match load_config(vars_with(&[("ANTHROPIC_TARGET_URL", "invalid-url-no-protocol")])) {
        Err(ConfigError::InvalidFormat { var, reason }) => {
            assert_eq!(var, "ANTHROPIC_TARGET_URL");
            assert!(reason.contains("URL must start with 'http://' or 'https://'"));
        }
        other => panic!("Expected InvalidFormat but got {:?}", other.err()),
    }
}

#[test]
fn test_invalid_url_format_openai() {
    match load_config(vars_with(&[("OPENAI_API_BASE_URL", "invalid-url-no-protocol")])) {
        Err(ConfigError::InvalidFormat { var, reason }) => {
            assert_eq!(var, "OPENAI_API_BASE_URL");
            assert!(reason.contains("URL must start with 'http://' or 'https://'"));
        }
        other => panic!("Expected InvalidFormat but got {:?}", other.err()),
    }
}

#[test]
fn test_invalid_log_level() {
    match load_config(vars_with(&[("LOG_LEVEL", "invalid-level")])) {
        Err(ConfigError::InvalidFormat { var, reason }) => {
            assert_eq!(var, "LOG_LEVEL");
            assert!(reason.contains("Invalid log level"));
        }
        other => panic!("Expected InvalidFormat but got {:?}", other.err()),
    }
}

#[test]
fn test_invalid_log_format() {
    match load_config(vars_with(&[("LOG_FORMAT", "invalid-format")])) {
        Err(ConfigError::InvalidFormat { var, reason }) => {
            assert_eq!(var, "LOG_FORMAT");
            assert!(reason.contains("Invalid log format"));
        }
        other => panic!("Expected InvalidFormat but got {:?}", other.err()),
    }
}

#[test]
fn test_invalid_log_directory_mode() {
    match load_config(vars_with(&[("LOG_DIRECTORY_MODE", "invalid-mode")])) {
        Err(ConfigError::InvalidFormat { var, reason }) => {
            assert_eq!(var, "LOG_DIRECTORY_MODE");
            assert!(reason.contains("Invalid value"));
        }
        other => panic!("Expected InvalidFormat but got {:?}", other.err()),
    }
}

#[test]
fn test_successful_config_loading() {
    let result = load_config(vars_with(&[
        ("PORT", "9090"),
        ("ANTHROPIC_TARGET_URL", "https://custom.anthropic.com"),
        ("LOG_LEVEL", "debug"),
        ("LOG_FORMAT", "json"),
        ("LOG_BODIES", "false"),
        ("LOG_FILE_PATH", "/tmp/test.log"),
    ]));
    match result {
        Ok(config) => {
            assert_eq!(config.port, "9090");
            assert_eq!(config.anthropic_api_key, "test-key");
            assert_eq!(config.anthropic_target_url, "https://custom.anthropic.com");
            assert_eq!(config.log_stdout_level, "debug");
            assert_eq!(config.log_format, "json");
            assert!(!config.log_bodies);
            assert_eq!(config.log_file_path, "/tmp/test.log");
        }
        Err(e) => panic!("Expected Ok but got error: {:?}", e),
    }
}

#[test]
fn test_defaults_when_only_key_is_set() {
    let config = load_config(vars_with(&[])).expect("valid configuration");
    let defaults = Config::default();
    assert_eq!(config.port, "8080");
    assert_eq!(config.port, defaults.port);
    assert_eq!(config.anthropic_target_url, "https://api.anthropic.com");
    assert_eq!(config.openai_api_base_url, "https://api.openai.com");
    assert!(!config.openai_enabled);
    assert_eq!(config.openai_api_key, None);
    assert_eq!(config.log_stdout_level, "info");
    assert_eq!(config.log_format, "pretty");
    assert!(config.log_bodies);
    assert_eq!(config.log_file_path, "./switchboard.log");
    assert_eq!(config.log_file_level, "debug");
    assert_eq!(config.log_max_body_size, 20480);
    assert_eq!(config.log_directory_mode, LogDirectoryMode::Default);
    assert_eq!(config.log_max_age_days, None);
    assert_eq!(defaults.anthropic_api_key, "");
}

#[test]
fn test_openai_configuration_values() {
    let config = load_config(vars_with(&[
        ("OPENAI_ENABLED", "TRUE"),
        ("OPENAI_API_KEY", "sk-test"),
        ("OPENAI_API_BASE_URL", "http://localhost:9000"),
    ]))
    .expect("valid configuration");
    assert!(config.openai_enabled);
    assert_eq!(config.openai_api_key, Some("sk-test".to_string()));
    assert_eq!(config.openai_api_base_url, "http://localhost:9000");

    let disabled = load_config(vars_with(&[("OPENAI_ENABLED", "0")])).expect("valid");
    assert!(!disabled.openai_enabled);
}

#[test]
fn test_numeric_and_mode_values() {
    let config = load_config(vars_with(&[
        ("PORT", "+65535"),
        ("LOG_MAX_BODY_SIZE", "1024"),
        ("LOG_DIRECTORY_MODE", "XDG"),
        ("LOG_MAX_AGE_DAYS", "7"),
        ("LOG_FILE_LEVEL", "TRACE"),
    ]))
    .expect("valid configuration");
    assert_eq!(config.port, "+65535");
    assert_eq!(config.log_max_body_size, 1024);
    assert_eq!(config.log_directory_mode, LogDirectoryMode::Xdg);
    assert_eq!(config.log_max_age_days, Some(7));
    assert_eq!(config.log_file_level, "TRACE");

    let system = load_config(vars_with(&[("LOG_DIRECTORY_MODE", "system")])).expect("valid");
    assert_eq!(system.log_directory_mode, LogDirectoryMode::System);

    assert!(matches!(
        load_config(vars_with(&[("PORT", "65536")])),
        Err(ConfigError::InvalidNumericValue { .. })
    ));
    assert!(matches!(
        load_config(vars_with(&[("LOG_MAX_AGE_DAYS", "4294967296")])),
        Err(ConfigError::InvalidNumericValue { .. })
    ));
}

#[test]
fn test_first_error_wins() {
    match load_config(vars_with(&[("PORT", "x"), ("LOG_LEVEL", "loud")])) {
        Err(ConfigError::InvalidNumericValue { var, .. }) => assert_eq!(var, "PORT"),
        other => panic!("Expected the PORT error first, got {:?}", other.err()),
    }
    let mut vars = vars_with(&[("PORT", "x")]);
    vars.anthropic_api_key = None;
    assert!(matches!(load_config(vars), Err(ConfigError::InvalidNumericValue { .. })));
}

#[test]
fn test_invalid_value_reasons_are_exact() {
    match load_config(vars_with(&[("LOG_LEVEL", "loud")])) {
        Err(ConfigError::InvalidFormat { reason, .. }) => assert_eq!(
            reason,
            "Invalid log level 'loud'. Expected 'trace', 'debug', 'info', 'warn', or 'error'"
        ),
        other => panic!("unexpected {:?}", other.err()),
    }
    match load_config(vars_with(&[("LOG_FORMAT", "xml")])) {
        Err(ConfigError::InvalidFormat { reason, .. }) => {
            assert_eq!(reason, "Invalid log format 'xml'. Expected 'pretty' or 'json'")
        }
        other => panic!("unexpected {:?}", other.err()),
    }
    match load_config(vars_with(&[("LOG_DIRECTORY_MODE", "home")])) {
        Err(ConfigError::InvalidFormat { reason, .. }) => {
            assert_eq!(reason, "Invalid value 'home'. Expected 'xdg', 'system', or 'default'")
        }
        other => panic!("unexpected {:?}", other.err()),
    }
}

#[test]
fn test_parse_bool_env_values() {
    assert_eq!(parse_bool_env("FLAG", None, true).ok(), Some(true));
    assert_eq!(parse_bool_env("FLAG", None, false).ok(), Some(false));
    for v in ["true", "TRUE", "True", "1"] {
        assert_eq!(parse_bool_env("FLAG", Some(v.to_string()), false).ok(), Some(true));
    }
    for v in ["false", "FALSE", "fAlSe", "0"] {
        assert_eq!(parse_bool_env("FLAG", Some(v.to_string()), true).ok(), Some(false));
    }
    match parse_bool_env("FLAG", Some("yes".to_string()), true) {
        Err(ConfigError::InvalidBooleanValue { var, value }) => {
            assert_eq!(var, "FLAG");
            assert_eq!(value, "yes");
        }
        other => panic!("unexpected {:?}", other),
    }
    assert!(parse_bool_env("FLAG", Some("".to_string()), true).is_err());
}

#[test]
fn test_openai_default_values() {
    let config = load_config(vars_with(&[])).expect("valid configuration");
    assert!(config.openai_api_key.is_none());
    assert_eq!(config.openai_api_base_url, DEFAULT_OPENAI_TARGET_URL);
    assert_eq!(config.openai_enabled, DEFAULT_OPENAI_ENABLED);
    assert!(!config.openai_enabled);
}

#[test]
fn test_openai_custom_values() {
    let config = load_config(vars_with(&[
        ("OPENAI_API_KEY", "test-openai-key"),
        ("OPENAI_API_BASE_URL", "https://custom-openai.example.com"),
        ("OPENAI_ENABLED", "true"),
    ]))
    .expect("valid configuration");
    assert_eq!(config.openai_api_key.as_deref(), Some("test-openai-key"));
    assert_eq!(config.openai_api_base_url, "https://custom-openai.example.com");
    assert!(config.openai_enabled);
}

#[test]
fn test_openai_enabled_boolean_parsing() {
    let cases = [
        ("true", true),
        ("True", true),
        ("TRUE", true),
        ("1", true),
        ("false", false),
        ("False", false),
        ("FALSE", false),
        ("0", false),
        ("yes", DEFAULT_OPENAI_ENABLED),
        ("no", DEFAULT_OPENAI_ENABLED),
        ("enabled", DEFAULT_OPENAI_ENABLED),
        ("disabled", DEFAULT_OPENAI_ENABLED),
    ];
    for (input, expected) in cases {
        match parse_bool_env("OPENAI_ENABLED", Some(input.to_string()), DEFAULT_OPENAI_ENABLED) {
            Ok(value) => assert_eq!(value, expected, "OPENAI_ENABLED='{}'", input),
            Err(_) => assert_eq!(expected, DEFAULT_OPENAI_ENABLED, "OPENAI_ENABLED='{}'", input),
        }
    }
}

#[test]
fn test_openai_api_key_not_required_when_disabled() {
    let config = load_config(vars_with(&[("OPENAI_ENABLED", "false")])).expect("valid");
    assert!(!config.openai_enabled);
    assert!(config.openai_api_key.is_none());
}

#[test]
fn test_load_test_config_with_invalid_port() {
    let result = load_config(vars_with(&[
        ("ANTHROPIC_TARGET_URL", "https://example.com"),
        ("PORT", "invalid"),
    ]));
    assert!(result.is_err());
    match result {
        Err(ConfigError::InvalidNumericValue { var, value }) => {
            assert_eq!(var, "PORT");
            assert_eq!(value, "invalid");
        }
        err => panic!("Expected InvalidNumericValue error for PORT, got: {:?}", err.err()),
    }
}
