//! The whole flow from a batch of records to the response, against a stand-in
//! for the parameter store and the queues.

use sqs_replayer_lambda::batch::all_rejected_ids;
use sqs_replayer_lambda::batch::replay_batches;
use sqs_replayer_lambda::batch::BatchAnswer;
use sqs_replayer_lambda::batch::BatchOutcome;
use sqs_replayer_lambda::batch::ReplayBatch;
use sqs_replayer_lambda::config::ConfigError;
use sqs_replayer_lambda::config::ConfigEvent;
use sqs_replayer_lambda::config::ConfigStore;
use sqs_replayer_lambda::config::QueueConfig;
use sqs_replayer_lambda::environment::Environment;
use sqs_replayer_lambda::handle;
use sqs_replayer_lambda::message::SqsMessage;
use sqs_replayer_lambda::message::SqsMessageAttribute;
use sqs_replayer_lambda::plan_replays;
use sqs_replayer_lambda::push_failure;
use sqs_replayer_lambda::resolve_config;
use sqs_replayer_lambda::respond;
use sqs_replayer_lambda::string_map::StringMap;
use sqs_replayer_lambda::BatchResponse;
use sqs_replayer_lambda::HandleAction;
use sqs_replayer_lambda::Invocation;
use sqs_replayer_lambda::Reason;
use sqs_replayer_lambda::ResolveAction;

const REPLAY_NUM_PROPERTY_NAME: &str = "sqs-dlq-replay-num";
const SSM_PATH: &str = "/sqs-replay/queues/";
const REPLAY_ARN: &str = "arn:aws:sqs:us-east-1:123456789012:ReplayQueue";
const SOURCE_URL: &str = "https://sqs.us-east-1.amazonaws.com/123456789012/SourceQueue";
const OTHER_SOURCE_URL: &str = "https://sqs.us-east-1.amazonaws.com/123456789012/OtherQueue";
const ARN_A: &str = "arn:aws:sqs:us-east-1:123456789012:QueueA";
const ARN_B: &str = "arn:aws:sqs:us-east-1:123456789012:QueueB";

/// One page of parameters; `None` stands for a parameter that cannot be read.
type Page = Vec<Option<QueueConfig>>;

/// What a run of the flow did.
struct Run {
    response: Result<BatchResponse, ConfigError>,
    page_tokens: Vec<Option<String>>,
    batches: Vec<ReplayBatch>,
}

fn environment() -> Environment {
    Environment {
        config_path: SSM_PATH.to_string(),
        max_attempts: 5,
        backoff_rate_seconds: 30,
        maximum_delay_seconds: 900,
        use_jitter: false,
    }
}

/// Runs the flow with a new store. Page `i` is served for token `page-i`.
fn run(records: Vec<SqsMessage>, pages: Vec<Page>, failed: Option<Vec<&str>>) -> Run {
    let mut store = ConfigStore::new(SSM_PATH.to_string());
    run_with(&mut store, records, pages, failed)
}

fn run_with(
    store: &mut ConfigStore,
    records: Vec<SqsMessage>,
    pages: Vec<Page>,
    failed: Option<Vec<&str>>,
) -> Run {
    let env = environment();
    let mut counter = 0;
    let mut invocation = Invocation::new(records);
    let mut event = ConfigEvent::Requested;
    let mut page_tokens = Vec::new();
    let total = pages.len();
    let mut pages = pages.into_iter();
    let plan = loop {
        match handle(&env, store, &mut invocation, 7, event, &mut counter) {
            HandleAction::FetchPage { path, next_token } => {
                assert_eq!(path, SSM_PATH);
                page_tokens.push(next_token);
                event = match pages.next() {
                    Some(parameters) => ConfigEvent::Page {
                        parameters,
                        next_token: if page_tokens.len() < total {
                            Some(format!("page-{}", page_tokens.len() + 1))
                        } else {
                            None
                        },
                    },
                    None => ConfigEvent::LoadFailed("unavailable".to_string()),
                };
            }
            HandleAction::Failed(error) => {
                return Run {
                    response: Err(error),
                    page_tokens,
                    batches: Vec::new(),
                }
            }
            HandleAction::Replay(plan) => break plan,
        }
    };
    let batches = replay_batches(plan.sends);
    let mut outcomes = Vec::new();
    for batch in &batches {
        let answer = match &failed {
            Some(ids) => BatchAnswer::Answered {
                failed: ids.iter().map(|id| id.to_string()).collect(),
            },
            None => BatchAnswer::CallFailed,
        };
        outcomes.push(BatchOutcome {
            sent: batch.message_ids(),
            answer,
        });
    }
    Run {
        response: Ok(respond(plan.failures, all_rejected_ids(outcomes))),
        page_tokens,
        batches,
    }
}

fn config_for(replay_arn: &str) -> QueueConfig {
    QueueConfig {
        replay_queue_arn: replay_arn.to_string(),
        destination_queue_url: SOURCE_URL.to_string(),
        max_attempts: None,
        backoff_rate_seconds: None,
        maximum_delay_seconds: None,
        use_jitter: None,
    }
}

fn config_all_tuning() -> QueueConfig {
    QueueConfig {
        max_attempts: Some(5),
        backoff_rate_seconds: Some(30),
        maximum_delay_seconds: Some(900),
        use_jitter: Some(false),
        ..config_for(REPLAY_ARN)
    }
}

fn record(message_id: &str, body: &str, replay_num: Option<u32>) -> SqsMessage {
    record_for(REPLAY_ARN, message_id, body, replay_num)
}

fn record_for(arn: &str, message_id: &str, body: &str, replay_num: Option<u32>) -> SqsMessage {
    let mut message_attributes = StringMap::new();
    if let Some(num) = replay_num {
        message_attributes.insert(
            REPLAY_NUM_PROPERTY_NAME.to_string(),
            number_attribute(&num.to_string()),
        );
    }
    SqsMessage {
        message_id: Some(message_id.to_string()),
        body: Some(body.to_string()),
        attributes: StringMap::new(),
        message_attributes,
        event_source_arn: Some(arn.to_string()),
    }
}

fn number_attribute(value: &str) -> SqsMessageAttribute {
    SqsMessageAttribute {
        string_value: Some(value.to_string()),
        binary_value: None,
        string_list_values: Vec::new(),
        binary_list_values: Vec::new(),
        data_type: Some("Number".to_string()),
    }
}

fn failure_ids(run: &Run) -> Vec<String> {
    run.response
        .as_ref()
        .unwrap()
        .batch_item_failures
        .iter()
        .map(|failure| failure.item_identifier.clone())
        .collect()
}

#[test]
fn replays_a_message_to_its_source_with_backoff_delay() {
    let run = run(
        vec![record("id-1", "Hello from SQS!", None)],
        vec![vec![Some(config_all_tuning())]],
        Some(vec![]),
    );
    assert!(failure_ids(&run).is_empty());
    assert_eq!(run.batches.len(), 1);
    assert_eq!(run.batches[0].queue_url, SOURCE_URL);
    let (id, request) = &run.batches[0].entries[0];
    assert_eq!(id, "id-1");
    assert_eq!(request.message_body, "Hello from SQS!");
    assert_eq!(request.delay_seconds, 60);
    let count = request
        .message_attributes
        .get(REPLAY_NUM_PROPERTY_NAME)
        .unwrap();
    assert_eq!(count.string_value.as_deref(), Some("1"));
}

#[test]
fn resolves_the_destination_and_tuning_from_the_construct_config() {
    let config = QueueConfig {
        destination_queue_url: OTHER_SOURCE_URL.to_string(),
        max_attempts: Some(3),
        backoff_rate_seconds: Some(60),
        maximum_delay_seconds: Some(300),
        use_jitter: Some(false),
        ..config_for(REPLAY_ARN)
    };
    let run = run(
        vec![record("id-1", "body", None)],
        vec![vec![Some(config)]],
        Some(vec![]),
    );
    assert!(failure_ids(&run).is_empty());
    assert_eq!(run.batches[0].queue_url, OTHER_SOURCE_URL);
    assert_eq!(run.batches[0].entries[0].1.delay_seconds, 120);
}

#[test]
fn applies_global_defaults_when_the_config_omits_tuning() {
    let run = run(
        vec![record("id-1", "body", None)],
        vec![vec![Some(config_for(REPLAY_ARN))]],
        Some(vec![]),
    );
    assert!(failure_ids(&run).is_empty());
    assert_eq!(run.batches[0].queue_url, SOURCE_URL);
    assert_eq!(run.batches[0].entries[0].1.delay_seconds, 60);
}

#[test]
fn reports_a_batch_item_failure_when_max_attempts_is_reached() {
    let run = run(
        vec![record("id-1", "body", Some(5))],
        vec![vec![Some(config_all_tuning())]],
        Some(vec![]),
    );
    assert_eq!(failure_ids(&run), vec!["id-1"]);
    assert!(run.batches.is_empty());
}

#[test]
fn reports_a_batch_item_failure_when_no_config_exists() {
    let run = run(
        vec![record("id-1", "body", None)],
        vec![vec![]],
        Some(vec![]),
    );
    assert_eq!(failure_ids(&run), vec!["id-1"]);
    assert!(run.batches.is_empty());
}

#[test]
fn loads_configs_across_multiple_ssm_pages() {
    let other = QueueConfig {
        destination_queue_url: OTHER_SOURCE_URL.to_string(),
        ..config_for(ARN_B)
    };
    let run = run(
        vec![
            record_for(ARN_A, "id-a", "from a", None),
            record_for(ARN_B, "id-b", "from b", None),
        ],
        vec![vec![Some(other)], vec![Some(config_for(ARN_A))]],
        Some(vec![]),
    );
    assert!(failure_ids(&run).is_empty());
    assert_eq!(run.page_tokens, vec![None, Some("page-2".to_string())]);
    assert_eq!(run.batches.len(), 2);
}

#[test]
fn skips_malformed_configs_and_reports_the_missing_destination() {
    let run = run(
        vec![
            record_for(ARN_A, "id-a", "from a", None),
            record_for(ARN_B, "id-b", "from b", None),
        ],
        vec![vec![None, Some(config_for(ARN_A))]],
        Some(vec![]),
    );
    assert_eq!(failure_ids(&run), vec!["id-b"]);
    assert_eq!(run.batches.len(), 1);
    assert_eq!(run.batches[0].message_ids(), vec!["id-a"]);
}

#[test]
fn splits_replays_across_sqs_calls_at_the_entry_limit() {
    let records: Vec<_> = (0..25)
        .map(|i| record(&format!("id-{i}"), "body", None))
        .collect();
    let run = run(
        records,
        vec![vec![Some(config_all_tuning())]],
        Some(vec![]),
    );
    assert!(failure_ids(&run).is_empty());
    assert_eq!(run.batches.len(), 3);
    assert!(run.batches.iter().all(|batch| batch.entries.len() <= 10));
    let total: usize = run.batches.iter().map(|batch| batch.entries.len()).sum();
    assert_eq!(total, 25);
}

#[test]
fn splits_replays_when_a_payload_exceeds_the_sqs_limit() {
    let big = "a".repeat(120 * 1024);
    let records: Vec<_> = (0..3)
        .map(|i| record(&format!("id-{i}"), &big, None))
        .collect();
    let run = run(
        records,
        vec![vec![Some(config_all_tuning())]],
        Some(vec![]),
    );
    assert!(failure_ids(&run).is_empty());
    assert_eq!(run.batches.len(), 2);
    assert!(run.batches.iter().all(|batch| batch.entries.len() <= 2));
}

#[test]
fn reports_rejected_entries_as_batch_item_failures() {
    let run = run(
        vec![record("id-ok", "ok", None), record("id-bad", "bad", None)],
        vec![vec![Some(config_all_tuning())]],
        Some(vec!["id-bad"]),
    );
    assert_eq!(failure_ids(&run), vec!["id-bad"]);
}

#[test]
fn reports_every_entry_when_the_batch_call_errors() {
    let run = run(
        vec![record("id-1", "one", None), record("id-2", "two", None)],
        vec![vec![Some(config_all_tuning())]],
        None,
    );
    let mut ids = failure_ids(&run);
    ids.sort_unstable();
    assert_eq!(ids, vec!["id-1", "id-2"]);
}

#[test]
fn reports_a_batch_item_failure_when_a_record_has_no_event_source_arn() {
    let record = SqsMessage {
        event_source_arn: None,
        ..record("id-1", "body", None)
    };
    let run = run(
        vec![record],
        vec![vec![Some(config_all_tuning())]],
        Some(vec![]),
    );
    assert_eq!(failure_ids(&run), vec!["id-1"]);
    assert!(run.batches.is_empty());
    assert!(run.page_tokens.is_empty());
}

#[test]
fn reports_a_batch_item_failure_when_a_replay_num_is_not_a_number() {
    let mut record = record("id-1", "body", None);
    record.message_attributes.insert(
        REPLAY_NUM_PROPERTY_NAME.to_string(),
        SqsMessageAttribute {
            data_type: Some("String".to_string()),
            ..number_attribute("not-a-number")
        },
    );
    let run = run(
        vec![record],
        vec![vec![Some(config_all_tuning())]],
        Some(vec![]),
    );
    assert_eq!(failure_ids(&run), vec!["id-1"]);
    assert!(run.batches.is_empty());
}

#[test]
fn reports_a_batch_item_failure_when_a_message_has_no_body() {
    let record = SqsMessage {
        body: None,
        ..record("id-1", "unused", None)
    };
    let run = run(
        vec![record],
        vec![vec![Some(config_all_tuning())]],
        Some(vec![]),
    );
    assert_eq!(failure_ids(&run), vec!["id-1"]);
    assert!(run.batches.is_empty());
}

#[test]
fn forwards_the_trace_header_to_the_replayed_message() {
    let trace = "Root=1-5759e988-bd862e3fe1be46a994272793;Parent=53995c3f42cd8ad8;Sampled=1";
    let mut record = record("id-1", "body", None);
    record
        .attributes
        .insert("AWSTraceHeader".to_string(), trace.to_string());
    let run = run(
        vec![record],
        vec![vec![Some(config_all_tuning())]],
        Some(vec![]),
    );
    assert!(failure_ids(&run).is_empty());
    let request = &run.batches[0].entries[0].1;
    let header = request
        .message_system_attributes
        .get("AWSTraceHeader")
        .unwrap();
    assert_eq!(header.string_value.as_deref(), Some(trace));
}

#[test]
fn a_load_that_fails_fails_the_batch() {
    let run = run(vec![record("id-1", "body", None)], vec![], Some(vec![]));
    let error = run.response.unwrap_err();
    assert_eq!(
        error.message(),
        "failed to load replay configs from SSM: unavailable"
    );
    assert_eq!(run.page_tokens, vec![None]);
}

#[test]
fn a_fresh_cache_serves_the_next_batch() {
    let mut store = ConfigStore::new(SSM_PATH.to_string());
    let first = run_with(
        &mut store,
        vec![record("id-1", "body", None)],
        vec![vec![Some(config_all_tuning())]],
        Some(vec![]),
    );
    assert_eq!(first.page_tokens.len(), 1);
    let second = run_with(
        &mut store,
        vec![record("id-2", "body", None)],
        vec![],
        Some(vec![]),
    );
    assert!(second.page_tokens.is_empty());
    assert_eq!(second.batches[0].message_ids(), vec!["id-2"]);
}

#[test]
fn a_record_without_an_id_is_neither_sent_nor_reported() {
    let sendable = SqsMessage {
        message_id: None,
        ..record("unused", "body", None)
    };
    let exhausted = SqsMessage {
        message_id: None,
        ..record("unused", "body", Some(5))
    };
    let run = run(
        vec![sendable, exhausted, record("id-3", "body", None)],
        vec![vec![Some(config_all_tuning())]],
        Some(vec![]),
    );
    assert!(failure_ids(&run).is_empty());
    assert_eq!(run.batches.len(), 1);
    assert_eq!(run.batches[0].message_ids(), vec!["id-3"]);
}

#[test]
fn failures_of_the_plan_come_before_those_of_the_calls() {
    let run = run(
        vec![
            record("id-1", "body", None),
            record("id-2", "body", Some(9)),
            record("id-3", "body", None),
        ],
        vec![vec![Some(config_all_tuning())]],
        None,
    );
    assert_eq!(failure_ids(&run), vec!["id-2", "id-1", "id-3"]);
}

#[test]
fn every_message_is_sent_or_reported_once() {
    let records = vec![
        record("id-1", "body", None),
        record_for("arn:unknown", "id-2", "body", None),
        record("id-3", "body", Some(4)),
        record("id-4", "body", Some(5)),
    ];
    let run = run(
        records,
        vec![vec![Some(config_all_tuning())]],
        Some(vec![]),
    );
    assert_eq!(failure_ids(&run), vec!["id-2", "id-4"]);
    assert_eq!(run.batches.len(), 1);
    assert_eq!(run.batches[0].message_ids(), vec!["id-1", "id-3"]);
    assert_eq!(run.batches[0].entries[1].1.delay_seconds, 900);
}

#[test]
fn records_with_known_destinations_are_planned() {
    let mut counter = 0;
    let mut resolved = StringMap::new();
    resolved.insert(
        REPLAY_ARN.to_string(),
        Some(config_all_tuning().resolve(&environment())),
    );
    resolved.insert(ARN_A.to_string(), None);
    let records = vec![
        record("id-1", "body", Some(1)),
        record_for(ARN_A, "id-2", "body", None),
    ];
    let plan = plan_replays(&records, &resolved, &mut counter);
    assert_eq!(plan.failures.len(), 1);
    assert_eq!(plan.failures[0].item_identifier, "id-2");
    assert_eq!(plan.sends.len(), 1);
    assert_eq!(plan.sends[0].0, "id-1");
    assert_eq!(plan.sends[0].1.delay_seconds, 120);
}

#[test]
fn a_destination_without_an_arn_is_missing() {
    let mut store = ConfigStore::new(SSM_PATH.to_string());
    let action = resolve_config(&environment(), &mut store, None, 0, ConfigEvent::Requested);
    match action {
        ResolveAction::Failed(error) => assert_eq!(error.message(), "missing eventSourceARN"),
        other => panic!("expected a failure, got {other:?}"),
    }
}

#[test]
fn failures_without_an_id_are_not_pushed() {
    let mut failures = Vec::new();
    push_failure(&mut failures, Some(&"id-1".to_string()));
    push_failure(&mut failures, None);
    assert_eq!(failures.len(), 1);
    assert_eq!(failures[0].item_identifier, "id-1");
}

#[test]
fn what_becomes_of_a_record_does_not_depend_on_the_others() {
    let first = || {
        vec![
            record("id-1", "body", Some(5)),
            record("id-2", "body", Some(2)),
        ]
    };
    let second = || vec![record("id-3", "body", Some(7)), record("id-4", "body", None)];
    let pages = || vec![vec![Some(config_all_tuning())]];
    let one = run(first(), pages(), Some(vec![]));
    let other = run(second(), pages(), Some(vec![]));
    let mut records = first();
    records.append(&mut second());
    let both = run(records, pages(), Some(vec![]));
    let mut failures = failure_ids(&one);
    failures.append(&mut failure_ids(&other));
    assert_eq!(failure_ids(&both), failures);
    assert_eq!(both.batches[0].message_ids(), vec!["id-2", "id-4"]);
    assert_eq!(one.batches[0].entries[0].1.delay_seconds, 240);
    assert_eq!(both.batches[0].entries[0].1.delay_seconds, 240);
}

#[test]
fn an_arn_that_occurs_again_is_not_looked_up_again() {
    let run = run(
        vec![
            record("id-1", "body", None),
            record("id-2", "body", None),
            record_for(ARN_A, "id-3", "body", None),
        ],
        vec![vec![Some(config_for(ARN_A)), Some(config_all_tuning())]],
        Some(vec![]),
    );
    assert_eq!(run.page_tokens, vec![None]);
    assert!(failure_ids(&run).is_empty());
    assert_eq!(run.batches.len(), 1);
    assert_eq!(run.batches[0].message_ids(), vec!["id-1", "id-2", "id-3"]);
}

#[test]
fn the_plan_tells_why_a_record_is_not_sent() {
    let mut resolved = StringMap::new();
    resolved.insert(
        REPLAY_ARN.to_string(),
        Some(config_all_tuning().resolve(&environment())),
    );
    resolved.insert(ARN_A.to_string(), None);
    let mut malformed = record("id-4", "body", None);
    malformed.message_attributes.insert(
        REPLAY_NUM_PROPERTY_NAME.to_string(),
        number_attribute("four"),
    );
    let records = vec![
        SqsMessage {
            event_source_arn: None,
            ..record("id-1", "body", None)
        },
        record_for(ARN_A, "id-2", "body", None),
        record("id-3", "body", Some(5)),
        malformed,
        SqsMessage {
            body: None,
            ..record("id-5", "unused", None)
        },
        record("id-6", "body", None),
        SqsMessage {
            message_id: None,
            ..record("unused", "body", None)
        },
    ];
    let plan = plan_replays(&records, &resolved, &mut 0);
    let notes: Vec<(Option<&str>, Reason)> = plan
        .notes
        .iter()
        .map(|note| (note.message_id.as_deref(), note.reason))
        .collect();
    assert_eq!(
        notes,
        vec![
            (Some("id-1"), Reason::NoEventSourceArn),
            (Some("id-2"), Reason::NoConfig),
            (Some("id-3"), Reason::RetryMaximumReached),
            (Some("id-4"), Reason::InvalidReplayNum),
            (Some("id-5"), Reason::MissingBody),
            (None, Reason::NoMessageId),
        ]
    );
    assert_eq!(plan.failures.len(), 5);
    assert_eq!(plan.sends.len(), 1);
}

#[test]
fn each_jittered_delay_of_a_batch_has_its_own_counter() {
    let config = QueueConfig {
        use_jitter: Some(true),
        ..config_all_tuning()
    };
    let mut resolved = StringMap::new();
    resolved.insert(
        REPLAY_ARN.to_string(),
        Some(config.resolve(&environment())),
    );
    let records = vec![
        record("id-1", "body", None),
        record("id-2", "body", Some(5)),
        SqsMessage {
            message_id: None,
            ..record("unused", "body", None)
        },
        record("id-4", "body", None),
    ];
    let mut counter = 40;
    let plan = plan_replays(&records, &resolved, &mut counter);
    assert_eq!(plan.sends.len(), 2);
    assert_eq!(counter, 43);
}
