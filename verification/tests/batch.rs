use sqs_replayer_lambda::batch::all_rejected_ids;
use sqs_replayer_lambda::batch::measure_message;
use sqs_replayer_lambda::batch::rejected_ids;
use sqs_replayer_lambda::batch::replay_batches;
use sqs_replayer_lambda::batch::BatchAnswer;
use sqs_replayer_lambda::batch::BatchOutcome;
use sqs_replayer_lambda::batch::MAX_BATCH_BYTES;
use sqs_replayer_lambda::batch::MAX_BATCH_ENTRIES;
use sqs_replayer_lambda::replay::MessageAttributeValue;
use sqs_replayer_lambda::replay::MessageSystemAttributeValue;
use sqs_replayer_lambda::replay::ReplayRequest;
use sqs_replayer_lambda::string_map::StringMap;

fn request(queue_url: &str, body: &str) -> ReplayRequest {
    ReplayRequest {
        queue_url: queue_url.to_string(),
        message_body: body.to_string(),
        delay_seconds: 60,
        message_attributes: StringMap::new(),
        message_system_attributes: StringMap::new(),
        message_deduplication_id: None,
        message_group_id: None,
    }
}

fn send(id: &str, queue_url: &str, body: &str) -> (String, ReplayRequest) {
    (id.to_string(), request(queue_url, body))
}

fn shape(sends: Vec<(String, ReplayRequest)>) -> Vec<(String, Vec<String>)> {
    replay_batches(sends)
        .iter()
        .map(|batch| (batch.queue_url.clone(), batch.message_ids()))
        .collect()
}

fn ids(names: &[&str]) -> Vec<String> {
    names.iter().map(|name| name.to_string()).collect()
}

#[test]
fn no_requests_make_no_batches() {
    assert!(replay_batches(Vec::new()).is_empty());
}

#[test]
fn each_queue_gets_its_own_batches_in_order() {
    let sends = vec![
        send("1", "a", "x"),
        send("2", "b", "x"),
        send("3", "a", "x"),
        send("4", "c", "x"),
        send("5", "b", "x"),
    ];
    assert_eq!(
        shape(sends),
        vec![
            ("a".to_string(), ids(&["1", "3"])),
            ("b".to_string(), ids(&["2", "5"])),
            ("c".to_string(), ids(&["4"])),
        ]
    );
}

#[test]
fn a_batch_takes_ten_entries() {
    assert_eq!(MAX_BATCH_ENTRIES, 10);
    let sends: Vec<_> = (0..21).map(|i| send(&i.to_string(), "a", "x")).collect();
    let sizes: Vec<usize> = replay_batches(sends)
        .iter()
        .map(|batch| batch.entries.len())
        .collect();
    assert_eq!(sizes, vec![10, 10, 1]);
}

#[test]
fn a_batch_may_be_filled_to_the_byte() {
    assert_eq!(MAX_BATCH_BYTES, 262_144);
    let half = "a".repeat(MAX_BATCH_BYTES / 2);
    let exact = vec![send("1", "a", &half), send("2", "a", &half)];
    assert_eq!(shape(exact), vec![("a".to_string(), ids(&["1", "2"]))]);
    let over = vec![
        send("1", "a", &half),
        send("2", "a", &half),
        send("3", "a", "x"),
    ];
    assert_eq!(
        shape(over),
        vec![
            ("a".to_string(), ids(&["1", "2"])),
            ("a".to_string(), ids(&["3"])),
        ]
    );
}

#[test]
fn a_message_that_is_too_large_stands_alone() {
    let huge = "a".repeat(MAX_BATCH_BYTES + 1);
    let sends = vec![
        send("1", "a", "x"),
        send("2", "a", &huge),
        send("3", "a", "x"),
    ];
    assert_eq!(
        shape(sends),
        vec![
            ("a".to_string(), ids(&["1"])),
            ("a".to_string(), ids(&["2"])),
            ("a".to_string(), ids(&["3"])),
        ]
    );
}

#[test]
fn sizes_count_bytes_of_body_and_attributes() {
    let mut request = request("a", "gr\u{fc}n");
    assert_eq!(measure_message(&request), 5);
    request.message_attributes.insert(
        "name".to_string(),
        MessageAttributeValue {
            string_value: Some("value".to_string()),
            binary_value: Some(vec![1, 2, 3]),
            string_list_values: Some(vec!["ab".to_string(), "c".to_string()]),
            binary_list_values: Some(vec![vec![0; 4], vec![0; 6]]),
            data_type: "String".to_string(),
        },
    );
    assert_eq!(measure_message(&request), 5 + 4 + 6 + 5 + 3 + 3 + 10);
    request.message_system_attributes.insert(
        "AWSTraceHeader".to_string(),
        MessageSystemAttributeValue {
            string_value: Some("Root=1".to_string()),
            data_type: "String".to_string(),
        },
    );
    assert_eq!(measure_message(&request), 36);
}

#[test]
fn rejections_are_those_of_the_answer() {
    let answer = BatchAnswer::Answered {
        failed: ids(&["2"]),
    };
    assert_eq!(rejected_ids(ids(&["1", "2"]), answer), ids(&["2"]));
    let answer = BatchAnswer::Answered { failed: Vec::new() };
    assert!(rejected_ids(ids(&["1", "2"]), answer).is_empty());
    assert_eq!(
        rejected_ids(ids(&["1", "2"]), BatchAnswer::CallFailed),
        ids(&["1", "2"])
    );
}

#[test]
fn rejections_of_all_calls_are_collected_in_order() {
    let outcomes = vec![
        BatchOutcome {
            sent: ids(&["1", "2"]),
            answer: BatchAnswer::CallFailed,
        },
        BatchOutcome {
            sent: ids(&["3", "4"]),
            answer: BatchAnswer::Answered {
                failed: ids(&["4"]),
            },
        },
        BatchOutcome {
            sent: ids(&["5"]),
            answer: BatchAnswer::Answered { failed: Vec::new() },
        },
    ];
    assert_eq!(all_rejected_ids(outcomes), ids(&["1", "2", "4"]));
    assert!(all_rejected_ids(Vec::new()).is_empty());
}
