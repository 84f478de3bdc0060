use sqs_replayer_lambda::config::ResolvedQueueConfig;
use sqs_replayer_lambda::message::SqsMessage;
use sqs_replayer_lambda::message::SqsMessageAttribute;
use sqs_replayer_lambda::replay::build_replay_request;
use sqs_replayer_lambda::replay::request_with_delay;
use sqs_replayer_lambda::replay::send_replay;
use sqs_replayer_lambda::replay::MessageAttributeValue;
use sqs_replayer_lambda::replay::ReplayError;
use sqs_replayer_lambda::replay::ReplayRequest;
use sqs_replayer_lambda::replay::REPLAY_NUM_PROPERTY_NAME;
use sqs_replayer_lambda::replay::TRACE_HEADER_PROPERTY_NAME;
use sqs_replayer_lambda::string_map::StringMap;

fn config() -> ResolvedQueueConfig {
    ResolvedQueueConfig {
        queue_url: "https://sqs.ap-southeast-2.amazonaws.com/12345/MyQueue".to_string(),
        max_attempts: 5,
        backoff_rate_seconds: 30,
        maximum_delay_seconds: 900,
        use_jitter: false,
    }
}

fn record() -> SqsMessage {
    let mut attributes = StringMap::new();
    for (name, value) in [
        ("ApproximateReceiveCount", "1"),
        ("SentTimestamp", "1523232000000"),
        ("SenderId", "123456789012"),
        ("ApproximateFirstReceiveTimestamp", "1523232000001"),
    ] {
        attributes.insert(name.to_string(), value.to_string());
    }
    SqsMessage {
        message_id: Some("19dd0b57-b21e-4ac1-bd88-01bbb068cb78".to_string()),
        body: Some("Hello from SQS!".to_string()),
        attributes,
        message_attributes: StringMap::new(),
        event_source_arn: Some("arn:aws:sqs:us-east-1:123456789012:MyQueue".to_string()),
    }
}

fn attribute(value: Option<&str>, data_type: &str) -> SqsMessageAttribute {
    SqsMessageAttribute {
        string_value: value.map(str::to_string),
        binary_value: None,
        string_list_values: Vec::new(),
        binary_list_values: Vec::new(),
        data_type: Some(data_type.to_string()),
    }
}

fn sent<'a>(request: &'a ReplayRequest, name: &str) -> &'a MessageAttributeValue {
    request.message_attributes.get(name).unwrap()
}

fn with_count(value: &str) -> SqsMessage {
    let mut record = record();
    record.message_attributes.insert(
        REPLAY_NUM_PROPERTY_NAME.to_string(),
        attribute(Some(value), "Number"),
    );
    record
}

#[test]
fn adds_a_delay_and_replay_num_to_a_message() {
    let request = build_replay_request(&config(), &record(), &mut 0)
        .unwrap()
        .expect("first attempt is within max attempts");
    assert_eq!(request.delay_seconds, 60);
    let replay = sent(&request, REPLAY_NUM_PROPERTY_NAME);
    assert_eq!(replay.string_value.as_deref(), Some("1"));
    assert_eq!(replay.data_type(), "Number");
}

#[test]
fn adds_a_delay_and_increments_an_existing_replay_num() {
    let mut record = record();
    record.message_attributes.insert(
        REPLAY_NUM_PROPERTY_NAME.to_string(),
        attribute(Some("1"), "String"),
    );
    let request = build_replay_request(&config(), &record, &mut 0)
        .unwrap()
        .expect("second attempt is within max attempts");
    let replay = sent(&request, REPLAY_NUM_PROPERTY_NAME);
    assert_eq!(replay.string_value.as_deref(), Some("2"));
    assert_eq!(replay.data_type(), "Number");
}

#[test]
fn preserves_incoming_message_attributes() {
    let mut record = record();
    record
        .message_attributes
        .insert("custom".to_string(), attribute(Some("value"), "String"));
    let request = build_replay_request(&config(), &record, &mut 0).unwrap().unwrap();
    let custom = sent(&request, "custom");
    assert_eq!(custom.string_value.as_deref(), Some("value"));
    assert_eq!(custom.data_type(), "String");
}

#[test]
fn uses_the_destination_and_tuning_from_the_resolved_config() {
    let mut custom = config();
    custom.queue_url = "https://sqs.us-east-1.amazonaws.com/123456789012/OtherQueue".to_string();
    custom.max_attempts = 2;
    custom.backoff_rate_seconds = 60;
    let request = build_replay_request(&custom, &record(), &mut 0).unwrap().unwrap();
    assert_eq!(
        request.queue_url,
        "https://sqs.us-east-1.amazonaws.com/123456789012/OtherQueue"
    );
    assert_eq!(request.delay_seconds, 120);
}

#[test]
fn adds_full_jitter_when_enabled() {
    let mut custom = config();
    custom.use_jitter = true;
    for _ in 0..100 {
        let request = build_replay_request(&custom, &record(), &mut 0).unwrap().unwrap();
        assert!(request.delay_seconds <= 900);
    }
}

#[test]
fn rejects_a_message_when_max_attempts_is_reached() {
    let mut record = record();
    record.message_attributes.insert(
        REPLAY_NUM_PROPERTY_NAME.to_string(),
        attribute(Some("5"), "Number"),
    );
    assert!(build_replay_request(&config(), &record, &mut 0).unwrap().is_none());
}

#[test]
fn treats_a_missing_string_value_as_first_attempt() {
    let mut record = record();
    record.message_attributes.insert(
        REPLAY_NUM_PROPERTY_NAME.to_string(),
        attribute(None, "Number"),
    );
    let request = build_replay_request(&config(), &record, &mut 0)
        .unwrap()
        .expect("missing string value defaults to first attempt");
    let replay = sent(&request, REPLAY_NUM_PROPERTY_NAME);
    assert_eq!(replay.string_value.as_deref(), Some("1"));
}

#[test]
fn copies_fifo_attributes_when_present() {
    let mut record = record();
    record
        .attributes
        .insert("MessageDeduplicationId".to_string(), "dedupe".to_string());
    record
        .attributes
        .insert("MessageGroupId".to_string(), "group".to_string());
    let request = build_replay_request(&config(), &record, &mut 0).unwrap().unwrap();
    assert_eq!(request.message_deduplication_id.as_deref(), Some("dedupe"));
    assert_eq!(request.message_group_id.as_deref(), Some("group"));
}

#[test]
fn omits_fifo_attributes_when_absent() {
    let request = build_replay_request(&config(), &record(), &mut 0).unwrap().unwrap();
    assert_eq!(request.message_deduplication_id, None);
    assert_eq!(request.message_group_id, None);
}

#[test]
fn forwards_the_xray_trace_header_system_attribute() {
    let mut record = record();
    record.attributes.insert(
        TRACE_HEADER_PROPERTY_NAME.to_string(),
        "Root=1-5759e988-bd862e3fe1be46a994272793;Parent=53995c3f42cd8ad8;Sampled=1".to_string(),
    );
    let request = build_replay_request(&config(), &record, &mut 0).unwrap().unwrap();
    let trace = request
        .message_system_attributes
        .get("AWSTraceHeader")
        .unwrap();
    assert_eq!(
        trace.string_value.as_deref(),
        Some("Root=1-5759e988-bd862e3fe1be46a994272793;Parent=53995c3f42cd8ad8;Sampled=1")
    );
    assert_eq!(trace.data_type(), "String");
    assert_eq!(request.message_system_attributes.len(), 1);
}

#[test]
fn omits_system_attributes_when_no_trace_header_is_present() {
    let request = build_replay_request(&config(), &record(), &mut 0).unwrap().unwrap();
    assert!(request.message_system_attributes.is_empty());
}

#[test]
fn carries_binary_and_list_values() {
    let mut record = record();
    record.message_attributes.insert(
        "blob".to_string(),
        SqsMessageAttribute {
            string_value: None,
            binary_value: Some(vec![0, 159, 146, 150]),
            string_list_values: vec!["a".to_string(), "b".to_string()],
            binary_list_values: vec![vec![1, 2], vec![]],
            data_type: Some("Binary".to_string()),
        },
    );
    let request = build_replay_request(&config(), &record, &mut 0).unwrap().unwrap();
    let blob = sent(&request, "blob");
    assert_eq!(blob.string_value, None);
    assert_eq!(blob.binary_value, Some(vec![0, 159, 146, 150]));
    assert_eq!(
        blob.string_list_values,
        Some(vec!["a".to_string(), "b".to_string()])
    );
    assert_eq!(blob.binary_list_values, Some(vec![vec![1, 2], vec![]]));
    assert_eq!(blob.data_type(), "Binary");
    assert_eq!(request.message_attributes.len(), 2);
}

#[test]
fn leaves_empty_lists_out_and_defaults_the_data_type() {
    let mut record = record();
    record.message_attributes.insert(
        "bare".to_string(),
        SqsMessageAttribute {
            data_type: None,
            ..attribute(Some("x"), "unused")
        },
    );
    let request = build_replay_request(&config(), &record, &mut 0).unwrap().unwrap();
    let bare = sent(&request, "bare");
    assert_eq!(bare.string_list_values, None);
    assert_eq!(bare.binary_list_values, None);
    assert_eq!(bare.binary_value, None);
    assert_eq!(bare.data_type(), "");
}

#[test]
fn rejects_a_replay_num_that_is_not_a_number() {
    for value in ["not-a-number", "", "-1", "1.5", "4294967296"] {
        let result = build_replay_request(&config(), &with_count(value), &mut 0);
        assert!(matches!(result, Err(ReplayError::InvalidReplayNum)));
    }
}

#[test]
fn rejects_a_message_without_a_body() {
    let record = SqsMessage {
        body: None,
        ..record()
    };
    let result = build_replay_request(&config(), &record, &mut 0);
    assert!(matches!(result, Err(ReplayError::MissingBody)));
}

#[test]
fn the_attempt_limit_comes_before_the_body() {
    let exhausted = SqsMessage {
        body: None,
        ..with_count("5")
    };
    assert!(build_replay_request(&config(), &exhausted, &mut 0)
        .unwrap()
        .is_none());
    let invalid = SqsMessage {
        body: None,
        ..with_count("five")
    };
    let result = build_replay_request(&config(), &invalid, &mut 0);
    assert!(matches!(result, Err(ReplayError::InvalidReplayNum)));
}

#[test]
fn the_largest_replay_num_is_past_every_limit() {
    let custom = ResolvedQueueConfig {
        max_attempts: u32::MAX,
        ..config()
    };
    assert!(build_replay_request(&custom, &with_count("4294967295"), &mut 0)
        .unwrap()
        .is_none());
    let request = build_replay_request(&custom, &with_count("4294967294"), &mut 0)
        .unwrap()
        .unwrap();
    assert_eq!(
        sent(&request, REPLAY_NUM_PROPERTY_NAME)
            .string_value
            .as_deref(),
        Some("4294967295")
    );
    assert_eq!(request.delay_seconds, 900);
}

#[test]
fn a_message_is_replayed_as_often_as_allowed() {
    let mut current = record();
    let mut delays = Vec::new();
    while let Some(request) = build_replay_request(&config(), &current, &mut 0).unwrap() {
        delays.push(request.delay_seconds);
        let count = sent(&request, REPLAY_NUM_PROPERTY_NAME);
        assert_eq!(count.string_value, Some(delays.len().to_string()));
        assert_eq!(request.message_body, "Hello from SQS!");
        current = with_count(count.string_value.as_deref().unwrap());
    }
    assert_eq!(delays, vec![60, 120, 240, 480, 900]);
}

#[test]
fn a_known_delay_is_used_as_it_is() {
    let request = request_with_delay(&config(), &record(), 3, 17).unwrap();
    assert_eq!(request.delay_seconds, 17);
    assert_eq!(
        sent(&request, REPLAY_NUM_PROPERTY_NAME)
            .string_value
            .as_deref(),
        Some("3")
    );
    let bodiless = SqsMessage {
        body: None,
        ..record()
    };
    let result = request_with_delay(&config(), &bodiless, 3, 17);
    assert!(matches!(result, Err(ReplayError::MissingBody)));
}

#[test]
fn a_call_leaves_out_what_is_empty() {
    let request = build_replay_request(&config(), &record(), &mut 0).unwrap().unwrap();
    let message = send_replay(request);
    assert_eq!(
        message.queue_url,
        "https://sqs.ap-southeast-2.amazonaws.com/12345/MyQueue"
    );
    assert_eq!(message.message_body, "Hello from SQS!");
    assert_eq!(message.delay_seconds, 60);
    assert_eq!(message.message_attributes.len(), 1);
    assert!(message.message_system_attributes.is_none());
    assert_eq!(message.message_deduplication_id, None);
    assert_eq!(message.message_group_id, None);
}

#[test]
fn a_call_carries_what_the_request_has() {
    let mut record = record();
    for (name, value) in [
        ("MessageDeduplicationId", "dedupe"),
        ("MessageGroupId", "group"),
        ("AWSTraceHeader", "Root=1"),
    ] {
        record.attributes.insert(name.to_string(), value.to_string());
    }
    let request = build_replay_request(&config(), &record, &mut 0).unwrap().unwrap();
    let message = send_replay(request.clone());
    assert_eq!(message.message_deduplication_id.as_deref(), Some("dedupe"));
    assert_eq!(message.message_group_id.as_deref(), Some("group"));
    let system = message.message_system_attributes.unwrap();
    assert_eq!(
        system.get("AWSTraceHeader").unwrap().string_value.as_deref(),
        Some("Root=1")
    );
    assert_eq!(request.message_group_id.as_deref(), Some("group"));
}

#[test]
fn replay_errors_are_described() {
    assert_eq!(ReplayError::MissingBody.message(), "message has no body");
    assert_eq!(
        ReplayError::InvalidReplayNum.message(),
        "sqs-dlq-replay-num attribute is not a number"
    );
    assert_eq!(
        ReplayError::Send("timeout".to_string()).message(),
        "failed to send replayed message: timeout"
    );
}

#[test]
fn only_jitter_that_draws_raises_the_counter() {
    let jittery = ResolvedQueueConfig {
        use_jitter: true,
        ..config()
    };
    let bodiless = SqsMessage {
        body: None,
        ..record()
    };
    let mut counter = 3;
    build_replay_request(&config(), &record(), &mut counter).unwrap();
    build_replay_request(&jittery, &with_count("5"), &mut counter).unwrap();
    build_replay_request(&jittery, &with_count("five"), &mut counter).unwrap_err();
    build_replay_request(&jittery, &bodiless, &mut counter).unwrap_err();
    assert_eq!(counter, 3);
    build_replay_request(&jittery, &record(), &mut counter).unwrap();
    assert_eq!(counter, 4);
}
