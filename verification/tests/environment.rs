use sqs_replayer_lambda::environment::ConfigError;
use sqs_replayer_lambda::environment::Environment;
use sqs_replayer_lambda::environment::DEFAULT_CONFIG_PATH;
use sqs_replayer_lambda::environment::MAXIMUM_DELAY_LIMIT_SECONDS;
use sqs_replayer_lambda::string_map::StringMap;

fn vars() -> StringMap<String> {
    StringMap::new()
}

fn vars_with(name: &str, value: &str) -> StringMap<String> {
    let mut values = vars();
    values.insert(name.to_string(), value.to_string());
    values
}

fn error_of(values: &StringMap<String>) -> String {
    Environment::parse(values).unwrap_err().message()
}

#[test]
fn sets_defaults_when_optional_values_unset() {
    let result = Environment::parse(&vars()).unwrap();
    assert_eq!(
        result,
        Environment {
            config_path: "/sqs-replay/queues/".to_string(),
            max_attempts: 5,
            backoff_rate_seconds: 30,
            maximum_delay_seconds: 900,
            use_jitter: false,
        }
    );
}

#[test]
fn accepts_explicit_values() {
    let mut values = vars();
    values.insert("MAX_ATTEMPTS".to_string(), "3".to_string());
    values.insert("BACKOFF_RATE".to_string(), "60".to_string());
    values.insert("MAXIMUM_DELAY".to_string(), "120".to_string());
    values.insert("SSM_PARAMETER_PATH".to_string(), "/custom/".to_string());
    let result = Environment::parse(&values).unwrap();
    assert_eq!(result.max_attempts, 3);
    assert_eq!(result.backoff_rate_seconds, 60);
    assert_eq!(result.maximum_delay_seconds, 120);
    assert_eq!(result.config_path, "/custom/");
}

#[test]
fn jitter_defaults_to_false() {
    let result = Environment::parse(&StringMap::new()).unwrap();
    assert!(!result.use_jitter);
}

#[test]
fn accepts_jitter_flag() {
    let mut values = vars();
    values.insert("BACKOFF_JITTER".to_string(), "true".to_string());
    let result = Environment::parse(&values).unwrap();
    assert!(result.use_jitter);
}

#[test]
fn rejects_an_invalid_jitter_flag() {
    let mut values = vars();
    values.insert("BACKOFF_JITTER".to_string(), "yes".to_string());
    assert!(Environment::parse(&values).is_err());
}

#[test]
fn errors_when_config_path_is_not_absolute() {
    let mut values = StringMap::new();
    values.insert("SSM_PARAMETER_PATH".to_string(), "rel".to_string());
    assert!(Environment::parse(&values).is_err());
}

#[test]
fn errors_when_backoff_rate_is_negative() {
    let mut values = vars();
    values.insert("BACKOFF_RATE".to_string(), "-1".to_string());
    assert!(Environment::parse(&values).is_err());
}

#[test]
fn errors_when_maximum_delay_is_negative() {
    let mut values = vars();
    values.insert("MAXIMUM_DELAY".to_string(), "-1".to_string());
    assert!(Environment::parse(&values).is_err());
}

#[test]
fn errors_when_max_attempts_is_negative() {
    let mut values = vars();
    values.insert("MAX_ATTEMPTS".to_string(), "-1".to_string());
    assert!(Environment::parse(&values).is_err());
}

#[test]
fn errors_when_maximum_delay_is_greater_than_15_minutes() {
    let mut values = vars();
    values.insert("MAXIMUM_DELAY".to_string(), "1000".to_string());
    assert!(Environment::parse(&values).is_err());
}

#[test]
fn errors_when_maximum_delay_is_a_float() {
    let mut values = vars();
    values.insert("MAXIMUM_DELAY".to_string(), "3.14".to_string());
    assert!(Environment::parse(&values).is_err());
}

#[test]
fn constants_match_the_service_limits() {
    assert_eq!(DEFAULT_CONFIG_PATH, "/sqs-replay/queues/");
    assert_eq!(MAXIMUM_DELAY_LIMIT_SECONDS, 900);
}

#[test]
fn maximum_delay_may_equal_the_limit() {
    let result = Environment::parse(&vars_with("MAXIMUM_DELAY", "900")).unwrap();
    assert_eq!(result.maximum_delay_seconds, 900);
    assert!(Environment::parse(&vars_with("MAXIMUM_DELAY", "901")).is_err());
}

#[test]
fn zero_is_not_a_positive_integer() {
    for name in ["MAX_ATTEMPTS", "BACKOFF_RATE", "MAXIMUM_DELAY"] {
        assert_eq!(
            error_of(&vars_with(name, "0")),
            format!("invalid configuration: {name} must be a positive integer")
        );
    }
}

#[test]
fn integers_follow_the_notation_of_the_standard_library() {
    for value in ["", "+", " 5", "5 ", "5_0", "4294967296", "0x5", "\u{664}"] {
        assert!(Environment::parse(&vars_with("MAX_ATTEMPTS", value)).is_err());
    }
    for (value, expected) in [("+5", 5), ("007", 7), ("4294967295", u32::MAX)] {
        let result = Environment::parse(&vars_with("MAX_ATTEMPTS", value)).unwrap();
        assert_eq!(result.max_attempts, expected);
    }
}

#[test]
fn flags_ignore_case() {
    for value in ["true", "TRUE", "True", "tRuE"] {
        let result = Environment::parse(&vars_with("BACKOFF_JITTER", value)).unwrap();
        assert!(result.use_jitter);
    }
    for value in ["false", "FALSE", "False"] {
        let result = Environment::parse(&vars_with("BACKOFF_JITTER", value)).unwrap();
        assert!(!result.use_jitter);
    }
    for value in ["", "tru", "truee", " true", "1"] {
        assert!(Environment::parse(&vars_with("BACKOFF_JITTER", value)).is_err());
    }
}

#[test]
fn errors_name_the_variable() {
    assert_eq!(
        error_of(&vars_with("SSM_PARAMETER_PATH", "rel")),
        "invalid configuration: SSM_PARAMETER_PATH must start with '/'"
    );
    assert_eq!(
        error_of(&vars_with("SSM_PARAMETER_PATH", "")),
        "invalid configuration: SSM_PARAMETER_PATH must start with '/'"
    );
    assert_eq!(
        error_of(&vars_with("MAXIMUM_DELAY", "1000")),
        "invalid configuration: MAXIMUM_DELAY must be at most 900 seconds"
    );
    assert_eq!(
        error_of(&vars_with("BACKOFF_JITTER", "yes")),
        "invalid configuration: BACKOFF_JITTER must be either 'true' or 'false'"
    );
}

#[test]
fn the_first_invalid_variable_is_reported() {
    let mut values = vars_with("BACKOFF_JITTER", "maybe");
    values.insert("BACKOFF_RATE".to_string(), "fast".to_string());
    values.insert("MAX_ATTEMPTS".to_string(), "many".to_string());
    let ConfigError::Invalid(message) = Environment::parse(&values).unwrap_err();
    assert_eq!(message, "MAX_ATTEMPTS must be a positive integer");
}

#[test]
fn other_variables_are_ignored() {
    let values = vars_with("PATH", "not an option");
    assert_eq!(
        Environment::parse(&values).unwrap(),
        Environment::parse(&vars()).unwrap()
    );
}

#[test]
fn a_cloned_environment_is_equal() {
    let environment = Environment::parse(&vars_with("MAX_ATTEMPTS", "9")).unwrap();
    assert_eq!(environment.clone(), environment);
}
