//! Replaying a message: whether, when and with what attributes it is sent back.
use vstd::prelude::*;
use vstd::string::StringExecFns;

use crate::backoff::backoff;
use crate::backoff::backoff_with_jitter;
use crate::config::ResolvedQueueConfig;
use crate::message::SqsMessage;
use crate::message::SqsMessageAttribute;
use crate::string_map::StringMap;
use crate::text::decimal;
use crate::text::parse_u32;

verus! {

/// Message attribute tracking how many times a message has been replayed.
pub const REPLAY_NUM_PROPERTY_NAME: &'static str = "sqs-dlq-replay-num";

/// SQS system attribute carrying the X-Ray trace header, propagated so every
/// replay attempt joins the same distributed trace.
pub const TRACE_HEADER_PROPERTY_NAME: &'static str = "AWSTraceHeader";

/// A message attribute as it is sent.
#[derive(Debug)]
pub struct MessageAttributeValue {
    pub string_value: Option<String>,
    pub binary_value: Option<Vec<u8>>,
    pub string_list_values: Option<Vec<String>>,
    pub binary_list_values: Option<Vec<Vec<u8>>>,
    pub data_type: String,
}

/// A message system attribute as it is sent.
#[derive(Debug)]
pub struct MessageSystemAttributeValue {
    pub string_value: Option<String>,
    pub data_type: String,
}

/// A fully-formed SQS `SendMessage` request, ready to be sent.
#[derive(Debug)]
pub struct ReplayRequest {
    pub queue_url: String,
    pub message_body: String,
    pub delay_seconds: u32,
    pub message_attributes: StringMap<MessageAttributeValue>,
    pub message_system_attributes: StringMap<MessageSystemAttributeValue>,
    pub message_deduplication_id: Option<String>,
    pub message_group_id: Option<String>,
}

/// Replay processing error.
#[derive(Debug)]
pub enum ReplayError {
    MissingBody,
    InvalidReplayNum,
    /// The message could not be sent; holds the service's own description.
    Send(String),
}

/// What a [`MessageAttributeValue`] holds.
pub struct AttributeValueView {
    pub string_value: Option<Seq<char>>,
    pub binary_value: Option<Seq<u8>>,
    pub string_list_values: Option<Seq<Seq<char>>>,
    pub binary_list_values: Option<Seq<Seq<u8>>>,
    pub data_type: Seq<char>,
}

/// What a [`MessageSystemAttributeValue`] holds.
pub struct SystemAttributeValueView {
    pub string_value: Option<Seq<char>>,
    pub data_type: Seq<char>,
}

/// What a [`ReplayRequest`] holds.
pub struct RequestView {
    pub queue_url: Seq<char>,
    pub message_body: Seq<char>,
    pub delay_seconds: u32,
    pub message_attributes: Map<Seq<char>, AttributeValueView>,
    pub message_system_attributes: Map<Seq<char>, SystemAttributeValueView>,
    pub message_deduplication_id: Option<Seq<char>>,
    pub message_group_id: Option<Seq<char>>,
}

impl View for MessageAttributeValue {
    type V = AttributeValueView;

    open spec fn view(&self) -> AttributeValueView {
        AttributeValueView {
            string_value: self.string_value.deep_view(),
            binary_value: self.binary_value.deep_view(),
            string_list_values: self.string_list_values.deep_view(),
            binary_list_values: self.binary_list_values.deep_view(),
            data_type: self.data_type@,
        }
    }
}

impl DeepView for MessageAttributeValue {
    type V = AttributeValueView;

    open spec fn deep_view(&self) -> AttributeValueView {
        self@
    }
}

impl View for MessageSystemAttributeValue {
    type V = SystemAttributeValueView;

    open spec fn view(&self) -> SystemAttributeValueView {
        SystemAttributeValueView {
            string_value: self.string_value.deep_view(),
            data_type: self.data_type@,
        }
    }
}

impl DeepView for MessageSystemAttributeValue {
    type V = SystemAttributeValueView;

    open spec fn deep_view(&self) -> SystemAttributeValueView {
        self@
    }
}

impl View for ReplayRequest {
    type V = RequestView;

    open spec fn view(&self) -> RequestView {
        RequestView {
            queue_url: self.queue_url@,
            message_body: self.message_body@,
            delay_seconds: self.delay_seconds,
            message_attributes: self.message_attributes.deep_view(),
            message_system_attributes: self.message_system_attributes.deep_view(),
            message_deduplication_id: self.message_deduplication_id.deep_view(),
            message_group_id: self.message_group_id.deep_view(),
        }
    }
}

/// The value for a key, if a map holds it.
pub open spec fn value_of<V>(map: Map<Seq<char>, V>, key: Seq<char>) -> Option<V> {
    if map.contains_key(key) {
        Some(map[key])
    } else {
        None
    }
}

/// How often a message has been replayed: 0 without the attribute or without
/// a string value in it, and `None` when that value is not a number.
pub open spec fn replay_count(record: crate::message::MessageView) -> Option<u32> {
    match value_of(record.message_attributes, REPLAY_NUM_PROPERTY_NAME@) {
        Some(attribute) => match attribute.string_value {
            Some(value) => crate::text::u32_in(value),
            None => Some(0),
        },
        None => Some(0),
    }
}

/// What becomes of a message.
pub enum Verdict {
    /// Its replay count is not a number.
    InvalidReplayNum,
    /// It has been replayed as often as allowed.
    Exhausted,
    /// It may be replayed but has no body.
    MissingBody,
    /// It is replayed; holds the number of the attempt, counted from 1.
    Replay(u32),
}

/// What becomes of a message under a configuration.
pub open spec fn verdict(
    config: crate::config::ResolvedView,
    record: crate::message::MessageView,
) -> Verdict {
    match replay_count(record) {
        None => Verdict::InvalidReplayNum,
        Some(count) => if count >= config.max_attempts {
            Verdict::Exhausted
        } else if record.body is None {
            Verdict::MissingBody
        } else {
            Verdict::Replay((count + 1) as u32)
        },
    }
}

/// The backoff delay of an attempt under a configuration.
pub open spec fn configured_backoff(config: crate::config::ResolvedView, attempt: u32) -> nat {
    crate::backoff::backoff_delay(
        config.backoff_rate_seconds as nat,
        config.maximum_delay_seconds as nat,
        attempt as nat,
    )
}

/// The delays that an attempt may get: the backoff delay, or with jitter
/// a number between 0 and it that can be drawn with the counter.
pub open spec fn delay_allowed(
    config: crate::config::ResolvedView,
    attempt: u32,
    counter: u64,
    delay: u32,
) -> bool {
    if config.use_jitter {
        crate::backoff::can_be_drawn(configured_backoff(config, attempt), counter, delay as nat)
    } else {
        delay == configured_backoff(config, attempt)
    }
}

/// The counter after the delay of an attempt has been computed: only jitter draws.
pub open spec fn counter_after_delay(
    config: crate::config::ResolvedView,
    attempt: u32,
    counter: u64,
) -> u64 {
    if config.use_jitter {
        crate::backoff::counter_after_draw(configured_backoff(config, attempt), counter)
    } else {
        counter
    }
}

/// The counter after the request for a message has been built: a message that
/// is not replayed draws nothing.
pub open spec fn counter_after_request(
    config: crate::config::ResolvedView,
    record: crate::message::MessageView,
    counter: u64,
) -> u64 {
    match verdict(config, record) {
        Verdict::Replay(attempt) => counter_after_delay(config, attempt, counter),
        _ => counter,
    }
}

/// A list of attribute values as it is sent: not at all when it is empty.
pub open spec fn sent_list<T>(values: Seq<T>) -> Option<Seq<T>> {
    if values.len() == 0 {
        None
    } else {
        Some(values)
    }
}

/// An incoming attribute as it is sent on.
pub open spec fn forwarded(attribute: crate::message::AttributeView) -> AttributeValueView {
    AttributeValueView {
        string_value: attribute.string_value,
        binary_value: attribute.binary_value,
        string_list_values: sent_list(attribute.string_list_values),
        binary_list_values: sent_list(attribute.binary_list_values),
        data_type: match attribute.data_type {
            Some(data_type) => data_type,
            None => Seq::empty(),
        },
    }
}

/// The attribute that tells the number of an attempt.
pub open spec fn replay_num_attribute(attempt: u32) -> AttributeValueView {
    AttributeValueView {
        string_value: Some(crate::text::decimal_text(attempt as nat)),
        binary_value: None,
        string_list_values: None,
        binary_list_values: None,
        data_type: "Number"@,
    }
}

/// The attributes of a replayed message: all that came in, and the number of
/// the attempt in place of the one that came in.
pub open spec fn sent_attributes(
    input: Map<Seq<char>, crate::message::AttributeView>,
    attempt: u32,
) -> Map<Seq<char>, AttributeValueView> {
    input.map_values(|attribute: crate::message::AttributeView| forwarded(attribute)).insert(
        REPLAY_NUM_PROPERTY_NAME@,
        replay_num_attribute(attempt),
    )
}

/// The system attributes of a replayed message: the trace header if one came
/// in, and nothing else.
pub open spec fn sent_system_attributes(input: Map<Seq<char>, Seq<char>>) -> Map<
    Seq<char>,
    SystemAttributeValueView,
> {
    if input.contains_key(TRACE_HEADER_PROPERTY_NAME@) {
        Map::empty().insert(
            TRACE_HEADER_PROPERTY_NAME@,
            SystemAttributeValueView {
                string_value: Some(input[TRACE_HEADER_PROPERTY_NAME@]),
                data_type: "String"@,
            },
        )
    } else {
        Map::empty()
    }
}

/// The request that replays a message with a body.
pub open spec fn replay_request(
    config: crate::config::ResolvedView,
    record: crate::message::MessageView,
    attempt: u32,
    delay: u32,
) -> RequestView {
    RequestView {
        queue_url: config.queue_url,
        message_body: record.body->0,
        delay_seconds: delay,
        message_attributes: sent_attributes(record.message_attributes, attempt),
        message_system_attributes: sent_system_attributes(record.attributes),
        message_deduplication_id: value_of(record.attributes, "MessageDeduplicationId"@),
        message_group_id: value_of(record.attributes, "MessageGroupId"@),
    }
}

/// Builds a message attribute with [`MessageAttributeValueBuilder::build`] of
/// `aws_sdk_sqs`. It keeps each part as it was set, the binary ones through
/// [`Blob::new`], and fails exactly when no data type was set.
///
/// [`MessageAttributeValueBuilder::build`]: aws_sdk_sqs::types::builders::MessageAttributeValueBuilder::build
/// [`Blob::new`]: aws_smithy_types::Blob::new
#[verifier::external_body]
fn build_attribute(
    string_value: Option<String>,
    binary_value: Option<Vec<u8>>,
    string_list_values: Option<Vec<String>>,
    binary_list_values: Option<Vec<Vec<u8>>>,
    data_type: Option<String>,
) -> (built: Option<MessageAttributeValue>)
    ensures
        built is Some == data_type is Some,
        built matches Some(value) ==> value@ == (AttributeValueView {
            string_value: string_value.deep_view(),
            binary_value: binary_value.deep_view(),
            string_list_values: string_list_values.deep_view(),
            binary_list_values: binary_list_values.deep_view(),
            data_type: data_type->0@,
        }),
{
    let built = aws_sdk_sqs::types::MessageAttributeValue::builder()
        .set_string_value(string_value)
        .set_binary_value(binary_value.map(aws_smithy_types::Blob::new))
        .set_string_list_values(string_list_values)
        .set_binary_list_values(binary_list_values.map(|list| list.into_iter().map(aws_smithy_types::Blob::new).collect()))
        .set_data_type(data_type)
        .build();
    built.ok().map(|value| MessageAttributeValue {
        string_value: value.string_value,
        binary_value: value.binary_value.map(|blob| blob.into_inner()),
        string_list_values: value.string_list_values,
        binary_list_values: value.binary_list_values.map(|list| list.into_iter().map(|blob| blob.into_inner()).collect()),
        data_type: value.data_type,
    })
}

/// Builds a message system attribute with
/// [`MessageSystemAttributeValueBuilder::build`] of `aws_sdk_sqs`. It keeps the
/// string value and the data type as they were set, and fails exactly when no
/// data type was set.
///
/// [`MessageSystemAttributeValueBuilder::build`]: aws_sdk_sqs::types::builders::MessageSystemAttributeValueBuilder::build
#[verifier::external_body]
fn build_system_attribute(string_value: Option<String>, data_type: Option<String>) -> (built: Option<
    MessageSystemAttributeValue,
>)
    ensures
        built is Some == data_type is Some,
        built matches Some(value) ==> value@ == (SystemAttributeValueView {
            string_value: string_value.deep_view(),
            data_type: data_type->0@,
        }),
{
    let built = aws_sdk_sqs::types::MessageSystemAttributeValue::builder()
        .set_string_value(string_value)
        .set_data_type(data_type)
        .build();
    built.ok().map(|value| MessageSystemAttributeValue {
        string_value: value.string_value,
        data_type: value.data_type,
    })
}

impl MessageAttributeValue {
    /// The data type of the attribute.
    pub fn data_type(&self) -> (data_type: &str)
        ensures
            data_type@ == self@.data_type,
            data_type@ == self.data_type@,
    {
        self.data_type.as_str()
    }
}

impl MessageSystemAttributeValue {
    /// The data type of the attribute.
    pub fn data_type(&self) -> (data_type: &str)
        ensures
            data_type@ == self@.data_type,
            data_type@ == self.data_type@,
    {
        self.data_type.as_str()
    }
}

impl ReplayError {
    /// The error as it is shown to an operator.
    pub fn message(&self) -> (shown: String)
        ensures
            shown@ == match self {
                ReplayError::MissingBody => "message has no body"@,
                ReplayError::InvalidReplayNum => "sqs-dlq-replay-num attribute is not a number"@,
                ReplayError::Send(error) => "failed to send replayed message: "@ + error@,
            },
    {
        match self {
            ReplayError::MissingBody => "message has no body".to_owned(),
            ReplayError::InvalidReplayNum => {
                "sqs-dlq-replay-num attribute is not a number".to_owned()
            },
            ReplayError::Send(error) => "failed to send replayed message: ".to_owned().concat(
                error.as_str(),
            ),
        }
    }
}

/// Copies a list of byte strings.
fn copy_blobs(list: &Vec<Vec<u8>>) -> (copy: Vec<Vec<u8>>)
    ensures
        copy.deep_view() == list.deep_view(),
{
    let mut copy: Vec<Vec<u8>> = Vec::new();
    let mut i: usize = 0;
    while i < list.len()
        invariant
            i <= list@.len(),
            copy@.len() == i,
            forall|j: int| 0 <= j < i ==> (#[trigger] copy@[j])@ == list@[j]@,
        decreases list@.len() - i,
    {
        let blob = list[i].clone();
        assert(blob@ =~= list@[i as int]@);
        copy.push(blob);
        i += 1;
    }
    assert(copy.deep_view() =~= list.deep_view()) by {
        assert forall|j: int| 0 <= j < list@.len() implies copy.deep_view()[j]
            == list.deep_view()[j] by {
            assert(copy@[j]@ == list@[j]@);
            assert(copy@[j].deep_view() =~= list@[j].deep_view());
        }
    }
    copy
}

/// Copies a list of strings.
fn copy_strings(list: &Vec<String>) -> (copy: Vec<String>)
    ensures
        copy.deep_view() == list.deep_view(),
{
    let copy = list.clone();
    assert(copy.deep_view() =~= list.deep_view());
    copy
}

/// Copies a byte string, if there is one.
fn copy_blob(blob: &Option<Vec<u8>>) -> (copy: Option<Vec<u8>>)
    ensures
        copy.deep_view() == blob.deep_view(),
{
    match blob {
        Some(bytes) => {
            let copy = bytes.clone();
            assert(copy.deep_view() =~= bytes.deep_view());
            Some(copy)
        },
        None => None,
    }
}

impl Clone for MessageAttributeValue {
    fn clone(&self) -> (copy: Self)
        ensures
            copy@ == self@,
    {
        MessageAttributeValue {
            string_value: self.string_value.clone(),
            binary_value: copy_blob(&self.binary_value),
            string_list_values: match &self.string_list_values {
                Some(list) => Some(copy_strings(list)),
                None => None,
            },
            binary_list_values: match &self.binary_list_values {
                Some(list) => Some(copy_blobs(list)),
                None => None,
            },
            data_type: self.data_type.clone(),
        }
    }
}

impl Clone for MessageSystemAttributeValue {
    fn clone(&self) -> (copy: Self)
        ensures
            copy@ == self@,
    {
        MessageSystemAttributeValue {
            string_value: self.string_value.clone(),
            data_type: self.data_type.clone(),
        }
    }
}

impl Clone for ReplayRequest {
    fn clone(&self) -> (copy: Self)
        ensures
            copy@ == self@,
    {
        let message_attributes = self.message_attributes.clone();
        let message_system_attributes = self.message_system_attributes.clone();
        proof {
            crate::string_map::lemma_same_entries(message_attributes, self.message_attributes);
            crate::string_map::lemma_same_entries(
                message_system_attributes,
                self.message_system_attributes,
            );
        }
        ReplayRequest {
            queue_url: self.queue_url.clone(),
            message_body: self.message_body.clone(),
            delay_seconds: self.delay_seconds,
            message_attributes,
            message_system_attributes,
            message_deduplication_id: self.message_deduplication_id.clone(),
            message_group_id: self.message_group_id.clone(),
        }
    }
}

/// An incoming attribute as it is sent on.
fn forward_attribute(attribute: &SqsMessageAttribute) -> (value: MessageAttributeValue)
    ensures
        value@ == forwarded(attribute@),
{
    let string_list_values = if attribute.string_list_values.is_empty() {
        None
    } else {
        Some(copy_strings(&attribute.string_list_values))
    };
    let binary_list_values = if attribute.binary_list_values.is_empty() {
        None
    } else {
        Some(copy_blobs(&attribute.binary_list_values))
    };
    let data_type = match &attribute.data_type {
        Some(data_type) => data_type.clone(),
        None => String::new(),
    };
    build_attribute(
        attribute.string_value.clone(),
        copy_blob(&attribute.binary_value),
        string_list_values,
        binary_list_values,
        Some(data_type),
    ).expect("message attribute value has a data type")
}

/// Maps incoming message attributes to `SendMessage` attributes, adding the
/// replay count.
fn map_message_attributes(input: &StringMap<SqsMessageAttribute>, replay_num: u32) -> (attributes:
    StringMap<MessageAttributeValue>)
    ensures
        attributes.deep_view() == sent_attributes(input.deep_view(), replay_num),
{
    let mut attributes: StringMap<MessageAttributeValue> = StringMap::new();
    let n = input.len();
    let ghost pairs = input.pairs();
    let ghost forward = |attribute: SqsMessageAttribute| forwarded(attribute@);
    assert(pairs.take(0) =~= Seq::empty());
    assert(attributes.deep_view() =~= crate::string_map::map_of(pairs.take(0)).map_values(forward));
    let mut i: usize = 0;
    while i < n
        invariant
            i <= n,
            n == pairs.len(),
            pairs == input.pairs(),
            forward == (|attribute: SqsMessageAttribute| forwarded(attribute@)),
            attributes.deep_view() == crate::string_map::map_of(pairs.take(i as int)).map_values(
                forward,
            ),
        decreases n - i,
    {
        let (name, attribute) = input.entry(i);
        let value = forward_attribute(attribute);
        let ghost before = attributes.deep_view();
        let ghost sent = value@;
        attributes.insert(name.clone(), value);
        assert(attributes.deep_view() =~= before.insert(name@, sent));
        assert(pairs.take(i + 1).drop_last() =~= pairs.take(i as int));
        assert(crate::string_map::map_of(pairs.take(i + 1)).map_values(forward) =~= before.insert(
            name@,
            sent,
        ));
        i += 1;
    }
    assert(pairs.take(n as int) =~= pairs);
    assert(input@.map_values(forward) =~= input.deep_view().map_values(
        |attribute: crate::message::AttributeView| forwarded(attribute),
    ));
    let ghost before = attributes.deep_view();
    let count = build_attribute(
        Some(decimal(replay_num)),
        None,
        None,
        None,
        Some("Number".to_owned()),
    ).expect("replay count attribute is fully populated");
    let ghost counted = count@;
    attributes.insert(REPLAY_NUM_PROPERTY_NAME.to_owned(), count);
    assert(attributes.deep_view() =~= before.insert(REPLAY_NUM_PROPERTY_NAME@, counted));
    attributes
}

/// Maps the incoming SQS system attributes to `SendMessage` system attributes,
/// forwarding the X-Ray trace header so replay attempts stay in the same trace.
/// `SendMessage` only supports `AWSTraceHeader` as a system attribute, so the
/// remaining delivery metadata (e.g. `ApproximateReceiveCount`) is not carried.
fn map_message_system_attributes(input: &StringMap<String>) -> (attributes: StringMap<
    MessageSystemAttributeValue,
>)
    ensures
        attributes.deep_view() == sent_system_attributes(input.deep_view()),
{
    let mut attributes: StringMap<MessageSystemAttributeValue> = StringMap::new();
    if let Some(trace_header) = input.get(TRACE_HEADER_PROPERTY_NAME) {
        let value = build_system_attribute(
            Some(trace_header.clone()),
            Some("String".to_owned()),
        ).expect("trace header system attribute is fully populated");
        attributes.insert(TRACE_HEADER_PROPERTY_NAME.to_owned(), value);
    }
    assert(attributes.deep_view() =~= sent_system_attributes(input.deep_view()));
    attributes
}

/// Reads the existing replay count for a record, treating a missing attribute
/// or missing string value as the first attempt.
fn replay_num(record: &SqsMessage) -> (count: Result<u32, ReplayError>)
    ensures
        match count {
            Ok(count) => replay_count(record@) == Some(count),
            Err(error) => replay_count(record@) is None && error is InvalidReplayNum,
        },
{
    let value = match record.message_attributes.get(REPLAY_NUM_PROPERTY_NAME) {
        Some(attribute) => match &attribute.string_value {
            Some(value) => value.as_str(),
            None => return Ok(0),
        },
        None => return Ok(0),
    };
    match parse_u32(value) {
        Some(count) => Ok(count),
        None => Err(ReplayError::InvalidReplayNum),
    }
}

/// Computes the delay for a replay attempt, optionally adding full jitter.
fn delay_seconds(config: &ResolvedQueueConfig, attempt: u32, counter: &mut u64) -> (delay: u32)
    ensures
        delay_allowed(config@, attempt, *old(counter), delay),
        *final(counter) == counter_after_delay(config@, attempt, *old(counter)),
        delay <= config.maximum_delay_seconds,
        delay <= config.backoff_rate_seconds * vstd::arithmetic::power2::pow2(attempt as nat),
        !config.use_jitter ==> {
            ||| delay == config.maximum_delay_seconds
            ||| delay == config.backoff_rate_seconds * vstd::arithmetic::power2::pow2(attempt as nat)
        },
{
    let base = config.backoff_rate_seconds;
    let max = config.maximum_delay_seconds;
    if config.use_jitter {
        backoff_with_jitter(base, max, attempt, counter)
    } else {
        backoff(base, max, attempt)
    }
}

/// Copies the system attribute of the given name, if the record has it.
fn system_attribute(record: &SqsMessage, name: &str) -> (value: Option<String>)
    ensures
        value.deep_view() == value_of(record@.attributes, name@),
{
    match record.attributes.get(name) {
        Some(value) => Some(value.clone()),
        None => None,
    }
}

/// Builds the [`ReplayRequest`] for an attempt whose delay is already known.
///
/// # Errors
///
/// Returns [`ReplayError::MissingBody`] when the record has no body.
pub fn request_with_delay(
    config: &ResolvedQueueConfig,
    record: &SqsMessage,
    attempt: u32,
    delay: u32,
) -> (result: Result<ReplayRequest, ReplayError>)
    ensures
        match result {
            Ok(request) => record@.body is Some && request@ == replay_request(
                config@,
                record@,
                attempt,
                delay,
            ),
            Err(error) => record@.body is None && error is MissingBody,
        },
        result matches Ok(request) ==> {
            &&& request.queue_url@ == config.queue_url@
            &&& record.body matches Some(body) && request.message_body@ == body@
            &&& request.delay_seconds == delay
        },
{
    let message_body = match &record.body {
        Some(body) => body.clone(),
        None => return Err(ReplayError::MissingBody),
    };
    Ok(
        ReplayRequest {
            queue_url: config.queue_url.clone(),
            message_body,
            delay_seconds: delay,
            message_attributes: map_message_attributes(&record.message_attributes, attempt),
            message_system_attributes: map_message_system_attributes(&record.attributes),
            message_deduplication_id: system_attribute(record, "MessageDeduplicationId"),
            message_group_id: system_attribute(record, "MessageGroupId"),
        },
    )
}

/// Builds a [`ReplayRequest`] for an SQS record, or `None` when the replay
/// attempt limit has been exceeded (the message should be reported as failed).
/// With jitter the delay is drawn with the counter, which rises with each draw.
///
/// # Errors
///
/// Returns [`ReplayError::InvalidReplayNum`] when the replay count is not a
/// number, and [`ReplayError::MissingBody`] when the record has no body.
pub fn build_replay_request(
    config: &ResolvedQueueConfig,
    record: &SqsMessage,
    counter: &mut u64,
) -> (result: Result<Option<ReplayRequest>, ReplayError>)
    ensures
        *final(counter) == counter_after_request(config@, record@, *old(counter)),
        result matches Ok(Some(request)) ==> {
            &&& request.queue_url@ == config.queue_url@
            &&& record.body matches Some(body) && request.message_body@ == body@
            &&& request.delay_seconds <= config.maximum_delay_seconds
        },
        !config.use_jitter ==> *final(counter) == *old(counter),
        match verdict(config@, record@) {
            Verdict::InvalidReplayNum => result matches Err(ReplayError::InvalidReplayNum),
            Verdict::Exhausted => result matches Ok(None),
            Verdict::MissingBody => result matches Err(ReplayError::MissingBody),
            Verdict::Replay(attempt) => {
                &&& result matches Ok(Some(request))
                &&& delay_allowed(config@, attempt, *old(counter), request.delay_seconds)
                &&& request@ == replay_request(config@, record@, attempt, request.delay_seconds)
            },
        },
{
    let count = match replay_num(record) {
        Ok(count) => count,
        Err(error) => return Err(error),
    };
    if count >= config.max_attempts {
        return Ok(None);
    }
    if record.body.is_none() {
        return Err(ReplayError::MissingBody);
    }
    let attempt: u32 = count + 1;
    let delay = delay_seconds(config, attempt, counter);
    match request_with_delay(config, record, attempt, delay) {
        Ok(request) => Ok(Some(request)),
        Err(error) => Err(error),
    }
}

/// The parameters of an SQS `SendMessage` call.
#[derive(Debug)]
pub struct SendMessage {
    pub queue_url: String,
    pub message_body: String,
    pub delay_seconds: i32,
    pub message_attributes: StringMap<MessageAttributeValue>,
    pub message_system_attributes: Option<StringMap<MessageSystemAttributeValue>>,
    pub message_deduplication_id: Option<String>,
    pub message_group_id: Option<String>,
}

/// The `SendMessage` call that sends a replay request back to the queue,
/// consuming the request so its fields can be moved rather than cloned. System
/// attributes are left out of the call when there are none.
pub fn send_replay(request: ReplayRequest) -> (message: SendMessage)
    ensures
        message.queue_url == request.queue_url,
        message.message_body == request.message_body,
        message.delay_seconds == request.delay_seconds as i32,
        message.message_attributes == request.message_attributes,
        message.message_system_attributes == if request@.message_system_attributes
            == Map::<Seq<char>, SystemAttributeValueView>::empty() {
            None
        } else {
            Some(request.message_system_attributes)
        },
        message.message_deduplication_id == request.message_deduplication_id,
        message.message_group_id == request.message_group_id,
{
    let none = request.message_system_attributes.is_empty();
    proof {
        let exec = request.message_system_attributes@;
        let shown = request@.message_system_attributes;
        assert(none ==> shown =~= Map::<Seq<char>, SystemAttributeValueView>::empty());
        assert(shown == Map::<Seq<char>, SystemAttributeValueView>::empty() ==> exec
            =~= Map::<Seq<char>, MessageSystemAttributeValue>::empty()) by {
            assert(shown.dom() =~= exec.dom());
        }
    }
    SendMessage {
        queue_url: request.queue_url,
        message_body: request.message_body,
        delay_seconds: request.delay_seconds as i32,
        message_attributes: request.message_attributes,
        message_system_attributes: if none {
            None
        } else {
            Some(request.message_system_attributes)
        },
        message_deduplication_id: request.message_deduplication_id,
        message_group_id: request.message_group_id,
    }
}

/// An attribute that was sent, as it comes in when the queue delivers it unchanged.
pub open spec fn received(value: AttributeValueView) -> crate::message::AttributeView {
    crate::message::AttributeView {
        string_value: value.string_value,
        binary_value: value.binary_value,
        string_list_values: match value.string_list_values {
            Some(values) => values,
            None => Seq::empty(),
        },
        binary_list_values: match value.binary_list_values {
            Some(values) => values,
            None => Seq::empty(),
        },
        data_type: Some(value.data_type),
    }
}

/// A map with one more value, if there is one.
pub open spec fn with_value(
    map: Map<Seq<char>, Seq<char>>,
    key: Seq<char>,
    value: Option<Seq<char>>,
) -> Map<Seq<char>, Seq<char>> {
    match value {
        Some(value) => map.insert(key, value),
        None => map,
    }
}

/// The message that comes in when a request is sent and a queue delivers it
/// unchanged under the given identifier.
pub open spec fn redelivered(
    request: RequestView,
    message_id: Option<Seq<char>>,
    event_source_arn: Option<Seq<char>>,
) -> crate::message::MessageView {
    let traced = match value_of(request.message_system_attributes, TRACE_HEADER_PROPERTY_NAME@) {
        Some(value) => with_value(Map::empty(), TRACE_HEADER_PROPERTY_NAME@, value.string_value),
        None => Map::empty(),
    };
    let deduplicated = with_value(
        traced,
        "MessageDeduplicationId"@,
        request.message_deduplication_id,
    );
    crate::message::MessageView {
        message_id,
        body: Some(request.message_body),
        attributes: with_value(deduplicated, "MessageGroupId"@, request.message_group_id),
        message_attributes: request.message_attributes.map_values(
            |value: AttributeValueView| received(value),
        ),
        event_source_arn,
    }
}

/// A message after it has been replayed once for each of the given delays and
/// delivered again each time.
pub open spec fn after_replays(
    config: crate::config::ResolvedView,
    record: crate::message::MessageView,
    delays: Seq<u32>,
) -> crate::message::MessageView
    decreases delays.len(),
{
    if delays.len() == 0 {
        record
    } else {
        let before = after_replays(config, record, delays.drop_last());
        let attempt = (replay_count(before)->0 + 1) as u32;
        redelivered(
            replay_request(config, before, attempt, delays.last()),
            record.message_id,
            record.event_source_arn,
        )
    }
}

/// A replayed message has the attributes that came in and the replay count. The
/// replay count is the number of the attempt, whatever came in under its name,
/// and reads back as that number.
pub proof fn replay_count_replaces_what_came_in(
    input: Map<Seq<char>, crate::message::AttributeView>,
    attempt: u32,
)
    ensures
        ({
            let sent = sent_attributes(input, attempt);
            let count = sent[REPLAY_NUM_PROPERTY_NAME@];
            &&& sent.dom() == input.dom().insert(REPLAY_NUM_PROPERTY_NAME@)
            &&& count == replay_num_attribute(attempt)
            &&& crate::text::u32_in(count.string_value->0) == Some(attempt)
            &&& forall|name: Seq<char>|
                name != REPLAY_NUM_PROPERTY_NAME@ && input.contains_key(name)
                    ==> #[trigger] sent[name] == forwarded(input[name])
        }),
{
    crate::text::lemma_decimal_text_reads_back(attempt);
    assert(sent_attributes(input, attempt).dom() =~= input.dom().insert(REPLAY_NUM_PROPERTY_NAME@));
}

/// A replayed message that comes in again tells the number of its attempt.
pub proof fn replay_count_is_carried(
    config: crate::config::ResolvedView,
    record: crate::message::MessageView,
    attempt: u32,
    delay: u32,
    message_id: Option<Seq<char>>,
    event_source_arn: Option<Seq<char>>,
)
    ensures
        replay_count(
            redelivered(
                replay_request(config, record, attempt, delay),
                message_id,
                event_source_arn,
            ),
        ) == Some(attempt),
{
    crate::text::lemma_decimal_text_reads_back(attempt);
}

/// A message that keeps failing is replayed until it has been replayed as often
/// as its configuration allows, with its body unchanged and the number of the
/// attempt going up by one each time, and is then not replayed any more.
pub proof fn message_is_replayed_up_to_the_limit(
    config: crate::config::ResolvedView,
    record: crate::message::MessageView,
    delays: Seq<u32>,
)
    requires
        record.body is Some,
        replay_count(record) is Some,
        replay_count(record)->0 + delays.len() <= config.max_attempts,
    ensures
        ({
            let count = replay_count(record)->0 + delays.len();
            let message = after_replays(config, record, delays);
            &&& replay_count(message) == Some(count as u32)
            &&& message.body == record.body
            &&& verdict(config, message) == if count < config.max_attempts {
                Verdict::Replay((count + 1) as u32)
            } else {
                Verdict::Exhausted
            }
        }),
    decreases delays.len(),
{
    if delays.len() > 0 {
        let before = after_replays(config, record, delays.drop_last());
        message_is_replayed_up_to_the_limit(config, record, delays.drop_last());
        replay_count_is_carried(
            config,
            before,
            (replay_count(before)->0 + 1) as u32,
            delays.last(),
            record.message_id,
            record.event_source_arn,
        );
    }
}

/// Whatever a message carries besides its replay count survives any further
/// replay: a message that was replayed and comes in again is sent with the same
/// body, attributes, trace header and FIFO identifiers as the first time.
pub proof fn replays_carry_the_same_message(
    config: crate::config::ResolvedView,
    record: crate::message::MessageView,
    attempt: u32,
    delay: u32,
    message_id: Option<Seq<char>>,
    event_source_arn: Option<Seq<char>>,
    later_attempt: u32,
    later_delay: u32,
)
    requires
        record.body is Some,
    ensures
        ({
            let first = replay_request(config, record, attempt, delay);
            let again = redelivered(first, message_id, event_source_arn);
            let second = replay_request(config, again, later_attempt, later_delay);
            &&& second.queue_url == first.queue_url
            &&& second.message_body == first.message_body
            &&& second.message_attributes.remove(REPLAY_NUM_PROPERTY_NAME@)
                == first.message_attributes.remove(REPLAY_NUM_PROPERTY_NAME@)
            &&& second.message_system_attributes == first.message_system_attributes
            &&& second.message_deduplication_id == first.message_deduplication_id
            &&& second.message_group_id == first.message_group_id
        }),
{
    reveal_strlit("AWSTraceHeader");
    reveal_strlit("MessageDeduplicationId");
    reveal_strlit("MessageGroupId");
    let first = replay_request(config, record, attempt, delay);
    let again = redelivered(first, message_id, event_source_arn);
    let second = replay_request(config, again, later_attempt, later_delay);
    assert("AWSTraceHeader"@.len() != "MessageDeduplicationId"@.len());
    assert("AWSTraceHeader"@[0] != "MessageGroupId"@[0]);
    assert("MessageDeduplicationId"@.len() != "MessageGroupId"@.len());
    assert(second.message_attributes.remove(REPLAY_NUM_PROPERTY_NAME@)
        =~= first.message_attributes.remove(REPLAY_NUM_PROPERTY_NAME@)) by {
        assert forall|name: Seq<char>|
            name != REPLAY_NUM_PROPERTY_NAME@ && first.message_attributes.contains_key(
                name,
            ) implies second.message_attributes[name] == first.message_attributes[name] by {
            let attribute = record.message_attributes[name];
            assert(forwarded(received(forwarded(attribute))) == forwarded(attribute));
        }
    }
    assert(second.message_system_attributes =~= first.message_system_attributes);
}

/// No delay exceeds the maximum that the configuration sets.
pub proof fn delay_is_within_the_maximum(
    config: crate::config::ResolvedView,
    attempt: u32,
    counter: u64,
    delay: u32,
)
    requires
        delay_allowed(config, attempt, counter, delay),
    ensures
        delay <= config.maximum_delay_seconds,
{
}

/// The delay of an attempt is at most the maximum and at most the rate times two to
/// the power of the attempt, with jitter or without; without jitter it is one of
/// the two, so the smaller.
pub proof fn delay_follows_the_formula(
    config: crate::config::ResolvedView,
    attempt: u32,
    counter: u64,
    delay: u32,
)
    requires
        delay_allowed(config, attempt, counter, delay),
    ensures
        ({
            let doubled = config.backoff_rate_seconds * vstd::arithmetic::power2::pow2(
                attempt as nat,
            );
            &&& delay <= config.maximum_delay_seconds
            &&& delay <= doubled
            &&& !config.use_jitter ==> delay == config.maximum_delay_seconds || delay == doubled
        }),
{
}

/// With jitter, every delay up to the smaller of the maximum and the rate times two
/// to the power of the attempt is drawn with some counter.
pub proof fn every_jittered_delay_may_come(
    config: crate::config::ResolvedView,
    attempt: u32,
    delay: u32,
)
    requires
        config.use_jitter,
        delay <= config.maximum_delay_seconds,
        delay <= config.backoff_rate_seconds * vstd::arithmetic::power2::pow2(attempt as nat),
    ensures
        exists|counter: u64| #[trigger] delay_allowed(config, attempt, counter, delay),
{
    let limit = configured_backoff(config, attempt);
    crate::backoff::every_number_can_be_drawn(limit as u32, delay);
    let counter = choose|counter: u64| #[trigger]
        crate::backoff::can_be_drawn(limit, counter, delay as nat);
    assert(delay_allowed(config, attempt, counter, delay));
}

/// With jitter, the delay is what the counter and some fraction of a second give
/// for the smaller of the maximum and the rate times two to the power of the attempt.
pub proof fn jittered_delay_is_drawn_with_the_counter(
    config: crate::config::ResolvedView,
    attempt: u32,
    counter: u64,
    delay: u32,
    limit: nat,
)
    requires
        config.use_jitter,
        delay_allowed(config, attempt, counter, delay),
        limit <= config.maximum_delay_seconds,
        limit <= config.backoff_rate_seconds * vstd::arithmetic::power2::pow2(attempt as nat),
        limit == config.maximum_delay_seconds || limit == config.backoff_rate_seconds
            * vstd::arithmetic::power2::pow2(attempt as nat),
    ensures
        exists|nanos: u64|
            nanos < 1_000_000_000 && delay == #[trigger] crate::backoff::drawn(
                limit,
                counter,
                nanos,
            ),
{
    assert(limit == configured_backoff(config, attempt));
}

/// The counter rises by one for a message that is replayed with jitter between
/// some delays, and stays for every other message.
pub proof fn counter_rises_only_for_jitter(
    config: crate::config::ResolvedView,
    record: crate::message::MessageView,
    counter: u64,
)
    ensures
        counter_after_request(config, record, counter) == if verdict(config, record) is Replay
            && config.use_jitter && config.backoff_rate_seconds > 0 && config.maximum_delay_seconds
            > 0 {
            counter.wrapping_add(1)
        } else {
            counter
        },
{
    if let Verdict::Replay(attempt) = verdict(config, record) {
        crate::backoff::backoff_is_positive(
            config.backoff_rate_seconds as nat,
            config.maximum_delay_seconds as nat,
            attempt as nat,
        );
    }
}

/// The replay count of a message is the number in the string value of its
/// attribute of that name, and 0 without one.
pub proof fn replay_count_is_read_from_the_attribute(record: crate::message::MessageView)
    ensures
        ({
            let attributes = record.message_attributes;
            let name = "sqs-dlq-replay-num"@;
            replay_count(record) == if attributes.contains_key(name)
                && attributes[name].string_value is Some {
                crate::text::u32_in(attributes[name].string_value->0)
            } else {
                Some(0u32)
            }
        }),
{
}

/// A message is replayed exactly when its count is a number below the limit and it
/// has a body, and then as the attempt after that count. The count comes before
/// the limit, and the limit before the body, in what is said of a message that
/// is not replayed.
pub proof fn message_is_replayed_below_the_limit(
    config: crate::config::ResolvedView,
    record: crate::message::MessageView,
)
    ensures
        ({
            let count = replay_count(record);
            let judged = verdict(config, record);
            &&& judged is Replay <==> count is Some && count->0 < config.max_attempts
                && record.body is Some
            &&& judged matches Verdict::Replay(attempt) ==> attempt == count->0 + 1 && 1 <= attempt
                <= config.max_attempts
            &&& judged is InvalidReplayNum <==> count is None
            &&& judged is Exhausted <==> count is Some && count->0 >= config.max_attempts
            &&& judged is MissingBody <==> count is Some && count->0 < config.max_attempts
                && record.body is None
        }),
{
}

/// An attribute is sent on as it came in: both values as they are, each list as
/// it is or not at all when it is empty, and the data type, empty when there was none.
pub proof fn attribute_is_sent_as_it_came_in(attribute: crate::message::AttributeView)
    ensures
        ({
            let sent = forwarded(attribute);
            &&& sent.string_value == attribute.string_value
            &&& sent.binary_value == attribute.binary_value
            &&& match sent.string_list_values {
                Some(list) => list.len() > 0 && list == attribute.string_list_values,
                None => attribute.string_list_values.len() == 0,
            }
            &&& match sent.binary_list_values {
                Some(list) => list.len() > 0 && list == attribute.binary_list_values,
                None => attribute.binary_list_values.len() == 0,
            }
            &&& match attribute.data_type {
                Some(data_type) => sent.data_type == data_type,
                None => sent.data_type.len() == 0,
            }
        }),
{
}

/// An attribute with a data type comes in again exactly as it came in at first.
pub proof fn attribute_comes_in_again_unchanged(attribute: crate::message::AttributeView)
    requires
        attribute.data_type is Some,
    ensures
        received(forwarded(attribute)) == attribute,
{
    let again = received(forwarded(attribute));
    assert(again.string_list_values =~= attribute.string_list_values);
    assert(again.binary_list_values =~= attribute.binary_list_values);
}

/// A request carries the message: its destination and delay, the body, every
/// attribute that came in with its values, the count of the attempt, the trace
/// header alone of the system attributes, and the FIFO identifiers.
pub proof fn request_carries_the_message(
    config: crate::config::ResolvedView,
    record: crate::message::MessageView,
    attempt: u32,
    delay: u32,
    name: Seq<char>,
)
    requires
        record.body is Some,
    ensures
        ({
            let request = replay_request(config, record, attempt, delay);
            let sent = request.message_attributes;
            let came = record.message_attributes;
            &&& request.queue_url == config.queue_url
            &&& request.delay_seconds == delay
            &&& record.body == Some(request.message_body)
            &&& sent.contains_key(name) <==> came.contains_key(name) || name
                == "sqs-dlq-replay-num"@
            &&& came.contains_key(name) && name != "sqs-dlq-replay-num"@ ==> {
                &&& sent[name].string_value == came[name].string_value
                &&& sent[name].binary_value == came[name].binary_value
                &&& match sent[name].string_list_values {
                    Some(list) => list.len() > 0 && list == came[name].string_list_values,
                    None => came[name].string_list_values.len() == 0,
                }
                &&& match sent[name].binary_list_values {
                    Some(list) => list.len() > 0 && list == came[name].binary_list_values,
                    None => came[name].binary_list_values.len() == 0,
                }
                &&& match came[name].data_type {
                    Some(data_type) => sent[name].data_type == data_type,
                    None => sent[name].data_type.len() == 0,
                }
            }
            &&& name == "sqs-dlq-replay-num"@ ==> {
                &&& sent[name].string_value is Some
                &&& crate::text::u32_in(sent[name].string_value->0) == Some(attempt)
                &&& sent[name].string_value == Some(crate::text::decimal_text(attempt as nat))
                &&& sent[name].data_type == "Number"@
                &&& sent[name].binary_value is None
                &&& sent[name].string_list_values is None
                &&& sent[name].binary_list_values is None
            }
            &&& request.message_system_attributes.contains_key(name) <==> name == "AWSTraceHeader"@
                && record.attributes.contains_key(name)
            &&& request.message_system_attributes.contains_key(name) ==> {
                &&& request.message_system_attributes[name].string_value == Some(
                    record.attributes[name],
                )
                &&& request.message_system_attributes[name].data_type == "String"@
            }
            &&& match request.message_deduplication_id {
                Some(id) => record.attributes.contains_key("MessageDeduplicationId"@)
                    && record.attributes["MessageDeduplicationId"@] == id,
                None => !record.attributes.contains_key("MessageDeduplicationId"@),
            }
            &&& match request.message_group_id {
                Some(id) => record.attributes.contains_key("MessageGroupId"@)
                    && record.attributes["MessageGroupId"@] == id,
                None => !record.attributes.contains_key("MessageGroupId"@),
            }
        }),
{
    crate::text::lemma_decimal_text_reads_back(attempt);
}

/// A replayed message that comes in again is the message that came in at first,
/// but for its replay count and the system attributes that are not carried.
pub proof fn replayed_message_comes_in_again(
    config: crate::config::ResolvedView,
    record: crate::message::MessageView,
    attempt: u32,
    delay: u32,
    name: Seq<char>,
)
    requires
        record.body is Some,
        record.message_attributes.contains_key(name),
        name != "sqs-dlq-replay-num"@,
        record.message_attributes[name].data_type is Some,
    ensures
        ({
            let again = redelivered(
                replay_request(config, record, attempt, delay),
                record.message_id,
                record.event_source_arn,
            );
            &&& again.body == record.body
            &&& again.message_id == record.message_id
            &&& again.event_source_arn == record.event_source_arn
            &&& again.message_attributes.contains_key(name)
            &&& again.message_attributes[name] == record.message_attributes[name]
        }),
{
    attribute_comes_in_again_unchanged(record.message_attributes[name]);
}

/// What is carried of the system attributes comes in again as it came in at first.
pub proof fn carried_system_attributes_come_in_again(
    config: crate::config::ResolvedView,
    record: crate::message::MessageView,
    attempt: u32,
    delay: u32,
    name: Seq<char>,
)
    requires
        record.body is Some,
    ensures
        ({
            let again = redelivered(
                replay_request(config, record, attempt, delay),
                record.message_id,
                record.event_source_arn,
            );
            let carried = name == "AWSTraceHeader"@ || name == "MessageDeduplicationId"@ || name
                == "MessageGroupId"@;
            &&& again.attributes.contains_key(name) <==> carried && record.attributes.contains_key(
                name,
            )
            &&& again.attributes.contains_key(name) ==> again.attributes[name]
                == record.attributes[name]
        }),
{
}

/// An attribute that is sent is seen with all that it holds.
pub proof fn attribute_value_shows_all_it_holds(value: MessageAttributeValue)
    ensures
        match value.string_value {
            Some(text) => value@.string_value == Some(text@),
            None => value@.string_value is None,
        },
        match value.binary_value {
            Some(blob) => value@.binary_value is Some && value@.binary_value->0 =~= blob@,
            None => value@.binary_value is None,
        },
        match value.string_list_values {
            Some(list) => {
                &&& value@.string_list_values is Some
                &&& value@.string_list_values->0.len() == list@.len()
                &&& forall|i: int|
                    0 <= i < list@.len() ==> (#[trigger] value@.string_list_values->0[i])
                        == list@[i]@
            },
            None => value@.string_list_values is None,
        },
        match value.binary_list_values {
            Some(list) => {
                &&& value@.binary_list_values is Some
                &&& value@.binary_list_values->0.len() == list@.len()
                &&& forall|i: int|
                    0 <= i < list@.len() ==> (#[trigger] value@.binary_list_values->0[i])
                        =~= list@[i]@
            },
            None => value@.binary_list_values is None,
        },
        value@.data_type == value.data_type@,
{
}

/// A system attribute that is sent is seen with all that it holds.
pub proof fn system_attribute_value_shows_all_it_holds(value: MessageSystemAttributeValue)
    ensures
        match value.string_value {
            Some(text) => value@.string_value == Some(text@),
            None => value@.string_value is None,
        },
        value@.data_type == value.data_type@,
{
}

/// A request is seen with all that it holds.
pub proof fn request_shows_all_it_holds(request: ReplayRequest, name: Seq<char>)
    ensures
        request@.queue_url == request.queue_url@,
        request@.message_body == request.message_body@,
        request@.delay_seconds == request.delay_seconds,
        request@.message_attributes.contains_key(name)
            <==> request.message_attributes@.contains_key(name),
        request.message_attributes@.contains_key(name) ==> request@.message_attributes[name]
            == request.message_attributes@[name]@,
        request@.message_system_attributes.contains_key(name)
            <==> request.message_system_attributes@.contains_key(name),
        request.message_system_attributes@.contains_key(name)
            ==> request@.message_system_attributes[name]
            == request.message_system_attributes@[name]@,
        match request.message_deduplication_id {
            Some(id) => request@.message_deduplication_id == Some(id@),
            None => request@.message_deduplication_id is None,
        },
        match request.message_group_id {
            Some(id) => request@.message_group_id == Some(id@),
            None => request@.message_group_id is None,
        },
{
}

} // verus!
