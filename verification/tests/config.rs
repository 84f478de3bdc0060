use sqs_replayer_lambda::config::ConfigAction;
use sqs_replayer_lambda::config::ConfigError;
use sqs_replayer_lambda::config::ConfigEvent;
use sqs_replayer_lambda::config::ConfigStore;
use sqs_replayer_lambda::config::QueueConfig;
use sqs_replayer_lambda::config::CACHE_TTL_NANOS;
use sqs_replayer_lambda::environment::Environment;

const ARN: &str = "arn:aws:sqs:us-east-1:123456789012:ReplayQueue";
const PATH: &str = "/sqs-replay/queues/";

fn environment() -> Environment {
    Environment {
        config_path: "/sqs-replay/queues/".to_string(),
        max_attempts: 5,
        backoff_rate_seconds: 30,
        maximum_delay_seconds: 900,
        use_jitter: false,
    }
}

fn minimal_config() -> QueueConfig {
    QueueConfig {
        replay_queue_arn: "arn:aws:sqs:us-east-1:123456789012:ReplayQueue".to_string(),
        destination_queue_url: "https://sqs.us-east-1.amazonaws.com/123456789012/Queue".to_string(),
        max_attempts: None,
        backoff_rate_seconds: None,
        maximum_delay_seconds: None,
        use_jitter: None,
    }
}

fn config_of(arn: &str, url: &str) -> QueueConfig {
    QueueConfig {
        replay_queue_arn: arn.to_string(),
        destination_queue_url: url.to_string(),
        ..minimal_config()
    }
}

fn page(parameters: Vec<Option<QueueConfig>>, next_token: Option<&str>) -> ConfigEvent {
    ConfigEvent::Page {
        parameters,
        next_token: next_token.map(str::to_string),
    }
}

fn fetched(action: ConfigAction) -> (String, Option<String>) {
    match action {
        ConfigAction::FetchPage { path, next_token } => (path, next_token),
        other => panic!("expected a page to be fetched, got {other:?}"),
    }
}

fn found(action: ConfigAction) -> Option<QueueConfig> {
    match action {
        ConfigAction::Found(config) => config,
        other => panic!("expected an answer, got {other:?}"),
    }
}

fn failed(action: ConfigAction) -> ConfigError {
    match action {
        ConfigAction::Failed(error) => error,
        other => panic!("expected a failure, got {other:?}"),
    }
}

#[test]
fn applies_global_defaults_when_tuning_is_omitted() {
    let config = minimal_config();
    let resolved = config.resolve(&environment());
    assert_eq!(
        resolved.queue_url,
        "https://sqs.us-east-1.amazonaws.com/123456789012/Queue"
    );
    assert_eq!(resolved.max_attempts, 5);
    assert_eq!(resolved.backoff_rate_seconds, 30);
    assert_eq!(resolved.maximum_delay_seconds, 900);
    assert!(!resolved.use_jitter);
}

#[test]
fn defaults_follow_the_environment() {
    let config = minimal_config();
    let environment = Environment {
        max_attempts: 2,
        backoff_rate_seconds: 10,
        maximum_delay_seconds: 120,
        ..environment()
    };
    let resolved = config.resolve(&environment);
    assert_eq!(resolved.max_attempts, 2);
    assert_eq!(resolved.backoff_rate_seconds, 10);
    assert_eq!(resolved.maximum_delay_seconds, 120);
}

#[test]
fn resolves_jitter_from_the_config_and_environment() {
    let config = QueueConfig {
        use_jitter: Some(true),
        ..minimal_config()
    };
    assert!(config.resolve(&environment()).use_jitter);
}

#[test]
fn jitter_falls_back_to_the_environment_default() {
    let config = minimal_config();
    let environment = Environment {
        use_jitter: true,
        ..environment()
    };
    assert!(config.resolve(&environment).use_jitter);
}

#[test]
fn tuning_in_the_config_wins_over_the_defaults() {
    let config = QueueConfig {
        max_attempts: Some(3),
        backoff_rate_seconds: Some(60),
        maximum_delay_seconds: Some(300),
        use_jitter: Some(false),
        ..minimal_config()
    };
    let resolved = config.resolve(&Environment {
        use_jitter: true,
        ..environment()
    });
    assert_eq!(resolved.max_attempts, 3);
    assert_eq!(resolved.backoff_rate_seconds, 60);
    assert_eq!(resolved.maximum_delay_seconds, 300);
    assert!(!resolved.use_jitter);
    assert_eq!(resolved.clone().queue_url, resolved.queue_url);
}

#[test]
fn an_empty_store_loads_and_then_answers() {
    let mut store = ConfigStore::new(PATH.to_string());
    assert_eq!(
        fetched(store.config_for(ARN, 0, ConfigEvent::Requested)),
        (PATH.to_string(), None)
    );
    let event = page(vec![Some(minimal_config())], None);
    let config = found(store.config_for(ARN, 1, event)).unwrap();
    assert_eq!(config.replay_queue_arn, ARN);
    assert!(found(store.config_for("arn:other", 2, ConfigEvent::Requested)).is_none());
}

#[test]
fn a_load_stays_fresh_for_one_minute() {
    let mut store = ConfigStore::new(PATH.to_string());
    fetched(store.config_for(ARN, 0, ConfigEvent::Requested));
    found(store.config_for(ARN, 1_000, page(vec![Some(minimal_config())], None)));
    assert_eq!(CACHE_TTL_NANOS, 60_000_000_000);
    let last_fresh = 1_000 + CACHE_TTL_NANOS - 1;
    assert!(found(store.config_for(ARN, last_fresh, ConfigEvent::Requested)).is_some());
    fetched(store.config_for(ARN, last_fresh + 1, ConfigEvent::Requested));
}

#[test]
fn a_clock_that_steps_back_does_not_make_the_cache_stale() {
    let mut store = ConfigStore::new(PATH.to_string());
    fetched(store.config_for(ARN, 0, ConfigEvent::Requested));
    found(store.config_for(ARN, 5_000, page(vec![Some(minimal_config())], None)));
    assert!(found(store.config_for(ARN, 4_000, ConfigEvent::Requested)).is_some());
}

#[test]
fn pages_add_up_and_unreadable_parameters_are_skipped() {
    let mut store = ConfigStore::new(PATH.to_string());
    fetched(store.config_for(ARN, 0, ConfigEvent::Requested));
    let first = page(
        vec![None, Some(config_of("arn:a", "url-1")), None],
        Some("page-2"),
    );
    assert_eq!(
        fetched(store.config_for(ARN, 1, first)),
        (PATH.to_string(), Some("page-2".to_string()))
    );
    let second = page(
        vec![
            Some(config_of("arn:b", "url-2")),
            Some(config_of("arn:a", "url-3")),
        ],
        None,
    );
    assert!(found(store.config_for(ARN, 2, second)).is_none());
    let a = found(store.config_for("arn:a", 3, ConfigEvent::Requested)).unwrap();
    let b = found(store.config_for("arn:b", 3, ConfigEvent::Requested)).unwrap();
    assert_eq!(a.destination_queue_url, "url-3");
    assert_eq!(b.destination_queue_url, "url-2");
}

#[test]
fn a_reload_forgets_what_is_no_longer_there() {
    let mut store = ConfigStore::new(PATH.to_string());
    fetched(store.config_for(ARN, 0, ConfigEvent::Requested));
    found(store.config_for(ARN, 0, page(vec![Some(minimal_config())], None)));
    fetched(store.config_for(ARN, CACHE_TTL_NANOS, ConfigEvent::Requested));
    assert!(found(store.config_for(ARN, CACHE_TTL_NANOS, page(vec![], None))).is_none());
}

#[test]
fn a_failed_load_keeps_the_cache_and_drops_the_pages() {
    let mut store = ConfigStore::new(PATH.to_string());
    fetched(store.config_for(ARN, 0, ConfigEvent::Requested));
    found(store.config_for(ARN, 0, page(vec![Some(minimal_config())], None)));
    fetched(store.config_for(ARN, CACHE_TTL_NANOS, ConfigEvent::Requested));
    let partial = page(vec![Some(config_of("arn:new", "url"))], Some("more"));
    fetched(store.config_for(ARN, CACHE_TTL_NANOS, partial));
    let error = failed(store.config_for(
        ARN,
        CACHE_TTL_NANOS,
        ConfigEvent::LoadFailed("throttled".to_string()),
    ));
    assert_eq!(
        error.message(),
        "failed to load replay configs from SSM: throttled"
    );
    assert!(found(store.config_for(ARN, 1, ConfigEvent::Requested)).is_some());
    assert!(found(store.config_for("arn:new", 1, ConfigEvent::Requested)).is_none());
}

#[test]
fn config_errors_are_described() {
    assert_eq!(
        ConfigError::Missing("eventSourceARN").message(),
        "missing eventSourceARN"
    );
}
