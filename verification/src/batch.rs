//! Grouping replay requests into SQS `SendMessageBatch` calls.
use vstd::prelude::*;

use crate::replay::MessageAttributeValue;
use crate::replay::ReplayRequest;
use crate::string_map::StringMap;

verus! {

/// Maximum number of entries in one `SendMessageBatch` call.
pub const MAX_BATCH_ENTRIES: usize = 10;

/// Maximum size in bytes of all messages in one `SendMessageBatch` call: 256 KiB.
pub const MAX_BATCH_BYTES: usize = 256 * 1024;

/// The entries of one `SendMessageBatch` call: requests to one queue, each with
/// the identifier of the message that it replays.
#[derive(Debug)]
pub struct ReplayBatch {
    pub queue_url: String,
    pub entries: Vec<(String, ReplayRequest)>,
}

/// How SQS answered a `SendMessageBatch` call.
#[derive(Debug)]
pub enum BatchAnswer {
    /// The call went through; holds the identifiers of the entries that SQS rejected.
    Answered { failed: Vec<String> },
    /// The call as a whole failed.
    CallFailed,
}

/// What a [`ReplayBatch`] holds.
pub struct BatchView {
    pub queue_url: Seq<char>,
    pub entries: Seq<(String, ReplayRequest)>,
}

impl View for ReplayBatch {
    type V = BatchView;

    open spec fn view(&self) -> BatchView {
        BatchView { queue_url: self.queue_url@, entries: self.entries@ }
    }
}

impl DeepView for ReplayBatch {
    type V = BatchView;

    open spec fn deep_view(&self) -> BatchView {
        self@
    }
}

/// The size of a text in bytes.
pub open spec fn text_size(text: Seq<char>) -> nat {
    vstd::utf8::encode_utf8(text).len()
}

/// The size of a list of texts in bytes.
pub open spec fn texts_size(texts: Seq<String>) -> nat
    decreases texts.len(),
{
    if texts.len() == 0 {
        0
    } else {
        texts_size(texts.drop_last()) + text_size(texts.last()@)
    }
}

/// The size of a list of byte strings in bytes.
pub open spec fn blobs_size(blobs: Seq<Vec<u8>>) -> nat
    decreases blobs.len(),
{
    if blobs.len() == 0 {
        0
    } else {
        blobs_size(blobs.drop_last()) + blobs.last()@.len()
    }
}

/// The size of an attribute in bytes: its data type and all its values.
pub open spec fn attribute_size(value: MessageAttributeValue) -> nat {
    let text = match value.string_value {
        Some(text) => text_size(text@),
        None => 0,
    };
    let blob = match value.binary_value {
        Some(blob) => blob@.len(),
        None => 0,
    };
    let texts = match value.string_list_values {
        Some(texts) => texts_size(texts@),
        None => 0,
    };
    let blobs = match value.binary_list_values {
        Some(blobs) => blobs_size(blobs@),
        None => 0,
    };
    text_size(value.data_type@) + text + blob + texts + blobs
}

/// The size of named attributes in bytes, names included.
pub open spec fn attributes_size(pairs: Seq<(Seq<char>, MessageAttributeValue)>) -> nat
    decreases pairs.len(),
{
    if pairs.len() == 0 {
        0
    } else {
        attributes_size(pairs.drop_last()) + text_size(pairs.last().0) + attribute_size(
            pairs.last().1,
        )
    }
}

/// The size of a message in bytes, as SQS counts it: the body and the message
/// attributes with their names, types and values. System attributes do not count.
pub open spec fn message_size(request: ReplayRequest) -> nat {
    text_size(request.message_body@) + attributes_size(request.message_attributes.pairs())
}

/// The size of the messages of a batch in bytes.
pub open spec fn payload_size(entries: Seq<(String, ReplayRequest)>) -> nat
    decreases entries.len(),
{
    if entries.len() == 0 {
        0
    } else {
        payload_size(entries.drop_last()) + message_size(entries.last().1)
    }
}

/// Whether a batch can take one more message within the limits of SQS.
pub open spec fn fits(entries: Seq<(String, ReplayRequest)>, request: ReplayRequest) -> bool {
    &&& entries.len() < MAX_BATCH_ENTRIES
    &&& payload_size(entries) + message_size(request) <= MAX_BATCH_BYTES
}

/// The place of the last batch for a queue, or -1.
pub open spec fn last_batch_for(batches: Seq<BatchView>, queue_url: Seq<char>) -> int
    decreases batches.len(),
{
    if batches.len() == 0 {
        -1
    } else if batches.last().queue_url == queue_url {
        batches.len() - 1
    } else {
        last_batch_for(batches.drop_last(), queue_url)
    }
}

/// Batches with one more message: at the end of the last batch for its queue if
/// it fits there, else in a new batch.
pub open spec fn placed(batches: Seq<BatchView>, send: (String, ReplayRequest)) -> Seq<BatchView> {
    let queue_url = send.1.queue_url@;
    let at = last_batch_for(batches, queue_url);
    if at >= 0 && fits(batches[at].entries, send.1) {
        batches.update(at, BatchView { queue_url, entries: batches[at].entries.push(send) })
    } else {
        batches.push(BatchView { queue_url, entries: seq![send] })
    }
}

/// The batches for messages that are placed one after the other.
pub open spec fn batches_of(sends: Seq<(String, ReplayRequest)>) -> Seq<BatchView>
    decreases sends.len(),
{
    if sends.len() == 0 {
        Seq::empty()
    } else {
        placed(batches_of(sends.drop_last()), sends.last())
    }
}

/// The last batch for a queue is one for that queue, and no later one is.
proof fn lemma_last_batch_for(batches: Seq<BatchView>, queue_url: Seq<char>)
    ensures
        ({
            let at = last_batch_for(batches, queue_url);
            &&& -1 <= at < batches.len()
            &&& at >= 0 ==> batches[at].queue_url == queue_url
            &&& forall|i: int|
                at < i < batches.len() ==> (#[trigger] batches[i]).queue_url != queue_url
        }),
    decreases batches.len(),
{
    if batches.len() > 0 && batches.last().queue_url != queue_url {
        lemma_last_batch_for(batches.drop_last(), queue_url);
        assert forall|i: int|
            last_batch_for(batches, queue_url) < i < batches.len() implies (
        #[trigger] batches[i]).queue_url != queue_url by {
            if i < batches.len() - 1 {
                assert(batches.drop_last()[i] == batches[i]);
            }
        }
    }
}

/// A number, or the largest `usize` if it is larger than that.
pub open spec fn capped(n: nat) -> nat {
    if n <= usize::MAX {
        n
    } else {
        usize::MAX as nat
    }
}

/// Measures a text.
fn measure_text(text: &str) -> (size: usize)
    ensures
        size == text_size(text@),
        size == vstd::utf8::encode_utf8(text@).len(),
{
    text.as_bytes().len()
}

/// Measures a list of texts, up to the largest `usize`.
fn measure_texts(texts: &Vec<String>) -> (size: usize)
    ensures
        size == capped(texts_size(texts@)),
{
    let mut size: usize = 0;
    let mut i: usize = 0;
    assert(texts@.take(0) =~= Seq::empty());
    while i < texts.len()
        invariant
            i <= texts@.len(),
            size == capped(texts_size(texts@.take(i as int))),
        decreases texts@.len() - i,
    {
        assert(texts@.take(i + 1).drop_last() =~= texts@.take(i as int));
        size = size.saturating_add(measure_text(texts[i].as_str()));
        i += 1;
    }
    assert(texts@.take(texts@.len() as int) =~= texts@);
    size
}

/// Measures a list of byte strings, up to the largest `usize`.
fn measure_blobs(blobs: &Vec<Vec<u8>>) -> (size: usize)
    ensures
        size == capped(blobs_size(blobs@)),
{
    let mut size: usize = 0;
    let mut i: usize = 0;
    assert(blobs@.take(0) =~= Seq::empty());
    while i < blobs.len()
        invariant
            i <= blobs@.len(),
            size == capped(blobs_size(blobs@.take(i as int))),
        decreases blobs@.len() - i,
    {
        assert(blobs@.take(i + 1).drop_last() =~= blobs@.take(i as int));
        size = size.saturating_add(blobs[i].len());
        i += 1;
    }
    assert(blobs@.take(blobs@.len() as int) =~= blobs@);
    size
}

/// Measures an attribute, up to the largest `usize`.
fn measure_attribute(value: &MessageAttributeValue) -> (size: usize)
    ensures
        size == capped(attribute_size(*value)),
{
    let text = match &value.string_value {
        Some(text) => measure_text(text.as_str()),
        None => 0,
    };
    let blob = match &value.binary_value {
        Some(blob) => blob.len(),
        None => 0,
    };
    let texts = match &value.string_list_values {
        Some(texts) => measure_texts(texts),
        None => 0,
    };
    let blobs = match &value.binary_list_values {
        Some(blobs) => measure_blobs(blobs),
        None => 0,
    };
    measure_text(value.data_type.as_str()).saturating_add(text).saturating_add(
        blob,
    ).saturating_add(texts).saturating_add(blobs)
}

/// Measures named attributes, up to the largest `usize`.
fn measure_attributes(attributes: &StringMap<MessageAttributeValue>) -> (size: usize)
    ensures
        size == capped(attributes_size(attributes.pairs())),
{
    let mut size: usize = 0;
    let n = attributes.len();
    let ghost pairs = attributes.pairs();
    assert(pairs.take(0) =~= Seq::empty());
    let mut i: usize = 0;
    while i < n
        invariant
            i <= n,
            n == pairs.len(),
            pairs == attributes.pairs(),
            size == capped(attributes_size(pairs.take(i as int))),
        decreases n - i,
    {
        assert(pairs.take(i + 1).drop_last() =~= pairs.take(i as int));
        let (name, value) = attributes.entry(i);
        size = size.saturating_add(measure_text(name.as_str())).saturating_add(
            measure_attribute(value),
        );
        i += 1;
    }
    assert(pairs.take(n as int) =~= pairs);
    size
}

/// Measures a message as SQS counts it, up to the largest `usize`.
pub fn measure_message(request: &ReplayRequest) -> (size: usize)
    ensures
        size == capped(message_size(*request)),
        message_size(*request) <= usize::MAX ==> size == message_size(*request),
        message_size(*request) > usize::MAX ==> size == usize::MAX,
{
    measure_text(request.message_body.as_str()).saturating_add(
        measure_attributes(&request.message_attributes),
    )
}

/// Measures the messages of a batch, up to the largest `usize`.
fn measure_payload(entries: &Vec<(String, ReplayRequest)>) -> (size: usize)
    ensures
        size == capped(payload_size(entries@)),
{
    let mut size: usize = 0;
    let mut i: usize = 0;
    assert(entries@.take(0) =~= Seq::empty());
    while i < entries.len()
        invariant
            i <= entries@.len(),
            size == capped(payload_size(entries@.take(i as int))),
        decreases entries@.len() - i,
    {
        assert(entries@.take(i + 1).drop_last() =~= entries@.take(i as int));
        size = size.saturating_add(measure_message(&entries[i].1));
        i += 1;
    }
    assert(entries@.take(entries@.len() as int) =~= entries@);
    size
}

/// Finds the last batch for a queue.
fn find_last_batch(batches: &Vec<ReplayBatch>, queue_url: &str) -> (at: Option<usize>)
    ensures
        match at {
            Some(i) => i < batches@.len() && i == last_batch_for(batches.deep_view(), queue_url@),
            None => last_batch_for(batches.deep_view(), queue_url@) < 0,
        },
{
    let mut i: usize = batches.len();
    let ghost views = batches.deep_view();
    assert(views.take(views.len() as int) =~= views);
    while i > 0
        invariant
            i <= batches@.len(),
            views == batches.deep_view(),
            last_batch_for(views, queue_url@) == last_batch_for(
                views.take(i as int),
                queue_url@,
            ),
        decreases i,
    {
        assert(views.take(i as int).drop_last() =~= views.take(i - 1));
        if crate::text::str_eq(batches[i - 1].queue_url.as_str(), queue_url) {
            return Some(i - 1);
        }
        i -= 1;
    }
    None
}

/// Groups replay requests into `SendMessageBatch` calls: one queue per call,
/// requests to a queue in their order, and each call within the limits of SQS
/// on the number of entries and on their size. A message that is too large by
/// itself gets a call of its own, for SQS to reject.
pub fn replay_batches(sends: Vec<(String, ReplayRequest)>) -> (batches: Vec<ReplayBatch>)
    ensures
        batches.deep_view() == batches_of(sends@),
{
    let mut batches: Vec<ReplayBatch> = Vec::new();
    assert(batches.deep_view() =~= Seq::empty());
    assert(sends@.take(0) =~= Seq::empty());
    for send in it: sends
        invariant
            it.seq() == sends@,
            batches.deep_view() == batches_of(sends@.take(it.index())),
    {
        let ghost before = batches.deep_view();
        let ghost taken = sends@.take(it.index() + 1);
        assert(taken.drop_last() =~= sends@.take(it.index()));
        assert(taken.last() == send);
        let at = find_last_batch(&batches, send.1.queue_url.as_str());
        let open = match at {
            Some(i) => batches[i].entries.len() < MAX_BATCH_ENTRIES && measure_payload(
                &batches[i].entries,
            ).saturating_add(measure_message(&send.1)) <= MAX_BATCH_BYTES,
            None => false,
        };
        proof {
            lemma_last_batch_for(before, send.1.queue_url@);
        }
        match at {
            Some(i) if open => {
                assert(before[i as int] == batches@[i as int]@);
                assert(fits(before[i as int].entries, send.1));
                batches[i].entries.push(send);
                assert(batches.deep_view() =~= placed(before, send));
            },
            _ => {
                let queue_url = send.1.queue_url.clone();
                let mut entries: Vec<(String, ReplayRequest)> = Vec::new();
                entries.push(send);
                batches.push(ReplayBatch { queue_url, entries });
                assert(batches.deep_view() =~= placed(before, send));
            },
        }
    }
    assert(sends@.take(sends@.len() as int) =~= sends@);
    batches
}

/// The identifiers of entries, in order.
pub open spec fn entry_ids(entries: Seq<(String, ReplayRequest)>) -> Seq<Seq<char>> {
    Seq::new(entries.len(), |i: int| entries[i].0@)
}

impl ReplayBatch {
    /// The identifiers of the messages that the batch replays, in order.
    pub fn message_ids(&self) -> (ids: Vec<String>)
        ensures
            ids.deep_view() == entry_ids(self.entries@),
            ids@.len() == self.entries@.len(),
            forall|i: int| 0 <= i < ids@.len() ==> (#[trigger] ids@[i])@ == self.entries@[i].0@,
    {
        let mut ids: Vec<String> = Vec::new();
        let mut i: usize = 0;
        while i < self.entries.len()
            invariant
                i <= self.entries@.len(),
                ids@.len() == i,
                forall|j: int| 0 <= j < i ==> (#[trigger] ids@[j])@ == self.entries@[j].0@,
            decreases self.entries@.len() - i,
        {
            ids.push(self.entries[i].0.clone());
            i += 1;
        }
        assert(ids.deep_view() =~= entry_ids(self.entries@));
        ids
    }
}

/// The identifiers of the messages that a call did not get into the queue: those
/// that SQS rejected, or all when the call as a whole failed.
pub fn rejected_ids(sent: Vec<String>, answer: BatchAnswer) -> (rejected: Vec<String>)
    ensures
        rejected == match answer {
            BatchAnswer::Answered { failed } => failed,
            BatchAnswer::CallFailed => sent,
        },
{
    match answer {
        BatchAnswer::Answered { failed } => failed,
        BatchAnswer::CallFailed => sent,
    }
}

/// A `SendMessageBatch` call that was made: the identifiers of its entries, and
/// how SQS answered.
#[derive(Debug)]
pub struct BatchOutcome {
    pub sent: Vec<String>,
    pub answer: BatchAnswer,
}

/// The identifiers of the messages that a call did not get into the queue.
pub open spec fn rejected_by(outcome: BatchOutcome) -> Seq<Seq<char>> {
    match outcome.answer {
        BatchAnswer::Answered { failed } => failed.deep_view(),
        BatchAnswer::CallFailed => outcome.sent.deep_view(),
    }
}

/// Lists put one after the other.
pub open spec fn joined(lists: Seq<Seq<Seq<char>>>) -> Seq<Seq<char>>
    decreases lists.len(),
{
    if lists.len() == 0 {
        Seq::empty()
    } else {
        joined(lists.drop_last()) + lists.last()
    }
}

/// What each of several calls did not get into the queue.
pub open spec fn rejections(outcomes: Seq<BatchOutcome>) -> Seq<Seq<Seq<char>>> {
    Seq::new(outcomes.len(), |i: int| rejected_by(outcomes[i]))
}

/// The identifiers of the messages that several calls did not get into the
/// queue, one call after the other.
pub fn all_rejected_ids(outcomes: Vec<BatchOutcome>) -> (rejected: Vec<String>)
    ensures
        rejected.deep_view() == joined(rejections(outcomes@)),
        rejected.deep_view() == outcomes@.fold_left(
            Seq::<Seq<char>>::empty(),
            |all: Seq<Seq<char>>, outcome: BatchOutcome|
                all + match outcome.answer {
                    BatchAnswer::Answered { failed } => failed.deep_view(),
                    BatchAnswer::CallFailed => outcome.sent.deep_view(),
                },
        ),
{
    proof {
        rejected_messages_are_those_of_the_answers(outcomes@);
    }
    let mut all: Vec<String> = Vec::new();
    let ghost lists = rejections(outcomes@);
    assert(lists.take(0) =~= Seq::empty());
    assert(all.deep_view() =~= Seq::empty());
    for outcome in it: outcomes
        invariant
            it.seq() == outcomes@,
            lists == rejections(outcomes@),
            all.deep_view() == joined(lists.take(it.index())),
    {
        let ghost before = all.deep_view();
        assert(lists.take(it.index() + 1).drop_last() =~= lists.take(it.index()));
        assert(lists.take(it.index() + 1).last() == rejected_by(outcome));
        let mut rejected = rejected_ids(outcome.sent, outcome.answer);
        let ghost added = rejected.deep_view();
        all.append(&mut rejected);
        assert(all.deep_view() =~= before + added);
    }
    assert(lists.take(lists.len() as int) =~= lists);
    all
}

/// What is collected of calls is, call after call, every identifier that SQS
/// rejected of a call that it answered, and every identifier that was sent of a
/// call that failed.
pub proof fn rejected_messages_are_those_of_the_answers(outcomes: Seq<BatchOutcome>)
    ensures
        joined(rejections(outcomes)) == outcomes.fold_left(
            Seq::<Seq<char>>::empty(),
            |all: Seq<Seq<char>>, outcome: BatchOutcome|
                all + match outcome.answer {
                    BatchAnswer::Answered { failed } => failed.deep_view(),
                    BatchAnswer::CallFailed => outcome.sent.deep_view(),
                },
        ),
    decreases outcomes.len(),
{
    if outcomes.len() > 0 {
        rejected_messages_are_those_of_the_answers(outcomes.drop_last());
        assert(rejections(outcomes).drop_last() =~= rejections(outcomes.drop_last()));
    }
}

/// Of a single call, what is collected is what SQS rejected if it answered, and
/// what was sent if the call failed.
pub proof fn single_call_is_reported_as_answered(outcome: BatchOutcome)
    ensures
        joined(rejections(seq![outcome])) == match outcome.answer {
            BatchAnswer::Answered { failed } => failed.deep_view(),
            BatchAnswer::CallFailed => outcome.sent.deep_view(),
        },
{
    let lists = rejections(seq![outcome]);
    assert(lists.drop_last() =~= Seq::empty());
    assert(joined(lists.drop_last()) =~= Seq::empty());
    assert(joined(lists) =~= lists.last());
}

/// Calls are collected one after the other: those of two series of calls are
/// those of the first, then those of the second.
pub proof fn calls_are_collected_in_order(first: Seq<BatchOutcome>, second: Seq<BatchOutcome>)
    ensures
        joined(rejections(first + second)) == joined(rejections(first)) + joined(
            rejections(second),
        ),
    decreases second.len(),
{
    if second.len() == 0 {
        assert(first + second =~= first);
        assert(rejections(second) =~= Seq::empty());
    } else {
        calls_are_collected_in_order(first, second.drop_last());
        assert(rejections(first + second).drop_last() =~= rejections(first + second.drop_last()));
        assert(rejections(second).drop_last() =~= rejections(second.drop_last()));
    }
    assert(joined(rejections(first + second)) =~= joined(rejections(first)) + joined(
        rejections(second),
    ));
}

/// Whether a batch is one that SQS accepts: it has entries, all for its queue,
/// and keeps the limits on their number and on their size, except that a
/// message that is too large by itself may stand alone.
pub open spec fn acceptable(batch: BatchView) -> bool {
    &&& 1 <= batch.entries.len() <= MAX_BATCH_ENTRIES
    &&& forall|i: int|
        0 <= i < batch.entries.len() ==> (#[trigger] batch.entries[i]).1.queue_url@
            == batch.queue_url
    &&& batch.entries.len() == 1 || payload_size(batch.entries) <= MAX_BATCH_BYTES
}

/// Every batch is one that SQS accepts.
pub proof fn batches_keep_the_limits(sends: Seq<(String, ReplayRequest)>)
    ensures
        forall|i: int| 0 <= i < batches_of(sends).len() ==> acceptable(#[trigger] batches_of(sends)[i]),
    decreases sends.len(),
{
    if sends.len() > 0 {
        let before = batches_of(sends.drop_last());
        let send = sends.last();
        batches_keep_the_limits(sends.drop_last());
        lemma_last_batch_for(before, send.1.queue_url@);
        let at = last_batch_for(before, send.1.queue_url@);
        assert forall|i: int| 0 <= i < batches_of(sends).len() implies acceptable(
            #[trigger] batches_of(sends)[i],
        ) by {
            let batch = batches_of(sends)[i];
            if at >= 0 && fits(before[at].entries, send.1) {
                if i == at {
                    assert(acceptable(before[at]));
                    assert(batch.entries.drop_last() =~= before[at].entries);
                } else {
                    assert(batch == before[i]);
                }
            } else if i < before.len() {
                assert(batch == before[i]);
            }
        }
    }
}

/// The entries of all batches for a queue, one batch after the other.
pub open spec fn entries_for(batches: Seq<BatchView>, queue_url: Seq<char>) -> Seq<
    (String, ReplayRequest),
>
    decreases batches.len(),
{
    if batches.len() == 0 {
        Seq::empty()
    } else if batches.last().queue_url == queue_url {
        entries_for(batches.drop_last(), queue_url) + batches.last().entries
    } else {
        entries_for(batches.drop_last(), queue_url)
    }
}

/// The messages for a queue, in order.
pub open spec fn sends_for(sends: Seq<(String, ReplayRequest)>, queue_url: Seq<char>) -> Seq<
    (String, ReplayRequest),
>
    decreases sends.len(),
{
    if sends.len() == 0 {
        Seq::empty()
    } else if sends.last().1.queue_url@ == queue_url {
        sends_for(sends.drop_last(), queue_url).push(sends.last())
    } else {
        sends_for(sends.drop_last(), queue_url)
    }
}

/// Adding to the last batch for a queue adds to the end of that queue's entries
/// and leaves those of the other queues alone.
proof fn lemma_entries_for_update(
    batches: Seq<BatchView>,
    at: int,
    send: (String, ReplayRequest),
    queue_url: Seq<char>,
)
    requires
        0 <= at < batches.len(),
        forall|i: int|
            at < i < batches.len() ==> (#[trigger] batches[i]).queue_url != batches[at].queue_url,
    ensures
        entries_for(
            batches.update(
                at,
                BatchView {
                    queue_url: batches[at].queue_url,
                    entries: batches[at].entries.push(send),
                },
            ),
            queue_url,
        ) == if queue_url == batches[at].queue_url {
            entries_for(batches, queue_url).push(send)
        } else {
            entries_for(batches, queue_url)
        },
    decreases batches.len(),
{
    let grown = BatchView {
        queue_url: batches[at].queue_url,
        entries: batches[at].entries.push(send),
    };
    let updated = batches.update(at, grown);
    let front = batches.drop_last();
    if at == batches.len() - 1 {
        assert(updated.drop_last() =~= front);
        if queue_url == batches[at].queue_url {
            assert(entries_for(updated, queue_url) =~= entries_for(batches, queue_url).push(send));
        }
    } else {
        assert(updated.drop_last() =~= front.update(at, grown));
        assert(batches[batches.len() - 1].queue_url != batches[at].queue_url);
        assert forall|i: int| at < i < front.len() implies (#[trigger] front[i]).queue_url
            != front[at].queue_url by {
            assert(front[i] == batches[i]);
        }
        lemma_entries_for_update(front, at, send, queue_url);
    }
}

/// The batches for a queue hold exactly the messages for that queue, each once
/// and in their order.
pub proof fn batches_hold_each_queue_in_order(
    sends: Seq<(String, ReplayRequest)>,
    queue_url: Seq<char>,
)
    ensures
        entries_for(batches_of(sends), queue_url) == sends_for(sends, queue_url),
    decreases sends.len(),
{
    if sends.len() > 0 {
        let before = batches_of(sends.drop_last());
        let send = sends.last();
        let at = last_batch_for(before, send.1.queue_url@);
        batches_hold_each_queue_in_order(sends.drop_last(), queue_url);
        lemma_last_batch_for(before, send.1.queue_url@);
        if at >= 0 && fits(before[at].entries, send.1) {
            lemma_entries_for_update(before, at, send, queue_url);
        } else {
            let new_batch = BatchView { queue_url: send.1.queue_url@, entries: seq![send] };
            assert(before.push(new_batch).drop_last() =~= before);
            assert(entries_for(before, queue_url) + seq![send] =~= entries_for(
                before,
                queue_url,
            ).push(send));
        }
    }
}

/// The identifiers of the entries of each batch.
pub open spec fn ids_by_batch(batches: Seq<BatchView>) -> Seq<Seq<Seq<char>>> {
    Seq::new(batches.len(), |i: int| entry_ids(batches[i].entries))
}

/// Adding to one list adds to the lists put together.
proof fn lemma_joined_update(lists: Seq<Seq<Seq<char>>>, at: int, id: Seq<char>)
    requires
        0 <= at < lists.len(),
    ensures
        joined(lists.update(at, lists[at].push(id))).to_multiset() == joined(
            lists,
        ).to_multiset().insert(id),
    decreases lists.len(),
{
    broadcast use vstd::seq_lib::group_to_multiset_ensures;

    let updated = lists.update(at, lists[at].push(id));
    let front = lists.drop_last();
    if at == lists.len() - 1 {
        assert(updated.drop_last() =~= front);
        assert(joined(updated) =~= joined(lists).push(id));
    } else {
        assert(updated.drop_last() =~= front.update(at, front[at].push(id)));
        lemma_joined_update(front, at, id);
        vstd::seq_lib::lemma_multiset_commutative(joined(updated.drop_last()), updated.last());
        vstd::seq_lib::lemma_multiset_commutative(joined(front), lists.last());
        assert(joined(updated).to_multiset() =~= joined(lists).to_multiset().insert(id));
    }
}

/// Every message is in exactly one call: together the batches have each
/// identifier as often as the messages do.
pub proof fn batches_hold_every_message_once(sends: Seq<(String, ReplayRequest)>)
    ensures
        joined(ids_by_batch(batches_of(sends))).to_multiset() == entry_ids(sends).to_multiset(),
    decreases sends.len(),
{
    broadcast use vstd::seq_lib::group_to_multiset_ensures;

    if sends.len() == 0 {
        assert(ids_by_batch(batches_of(sends)) =~= Seq::empty());
        assert(entry_ids(sends) =~= Seq::empty());
    } else {
        let before = batches_of(sends.drop_last());
        let after = batches_of(sends);
        let send = sends.last();
        let lists = ids_by_batch(before);
        let at = last_batch_for(before, send.1.queue_url@);
        batches_hold_every_message_once(sends.drop_last());
        lemma_last_batch_for(before, send.1.queue_url@);
        assert(entry_ids(sends) =~= entry_ids(sends.drop_last()).push(send.0@));
        if at >= 0 && fits(before[at].entries, send.1) {
            assert(entry_ids(after[at].entries) =~= lists[at].push(send.0@));
            assert(ids_by_batch(after) =~= lists.update(at, lists[at].push(send.0@)));
            lemma_joined_update(lists, at, send.0@);
        } else {
            assert(ids_by_batch(after).drop_last() =~= lists);
            assert(ids_by_batch(after).last() =~= seq![send.0@]);
            assert(joined(ids_by_batch(after)) =~= joined(lists).push(send.0@));
        }
    }
}

/// Splitting each of several lists in two splits the lists put together.
pub proof fn lemma_joined_split(
    lists: Seq<Seq<Seq<char>>>,
    first: Seq<Seq<Seq<char>>>,
    second: Seq<Seq<Seq<char>>>,
)
    requires
        first.len() == lists.len(),
        second.len() == lists.len(),
        forall|i: int|
            0 <= i < lists.len() ==> (#[trigger] lists[i]).to_multiset()
                == first[i].to_multiset().add(second[i].to_multiset()),
    ensures
        joined(lists).to_multiset() == joined(first).to_multiset().add(
            joined(second).to_multiset(),
        ),
    decreases lists.len(),
{
    broadcast use vstd::seq_lib::group_to_multiset_ensures;

    if lists.len() == 0 {
        assert(joined(lists).to_multiset() =~= joined(first).to_multiset().add(
            joined(second).to_multiset(),
        ));
    } else {
        let n = lists.len() - 1;
        assert(lists[n].to_multiset() == first[n].to_multiset().add(second[n].to_multiset()));
        assert forall|i: int| 0 <= i < n implies (#[trigger] lists.drop_last()[i]).to_multiset()
            == first.drop_last()[i].to_multiset().add(second.drop_last()[i].to_multiset()) by {
            assert(lists[i].to_multiset() == first[i].to_multiset().add(second[i].to_multiset()));
        }
        lemma_joined_split(lists.drop_last(), first.drop_last(), second.drop_last());
        vstd::seq_lib::lemma_multiset_commutative(joined(lists.drop_last()), lists.last());
        vstd::seq_lib::lemma_multiset_commutative(joined(first.drop_last()), first.last());
        vstd::seq_lib::lemma_multiset_commutative(joined(second.drop_last()), second.last());
        assert(joined(lists).to_multiset() =~= joined(first).to_multiset().add(
            joined(second).to_multiset(),
        ));
    }
}

/// Whether the batches at two places are for one queue with none for that queue
/// in between.
pub open spec fn follows(batches: Seq<BatchView>, i: int, j: int) -> bool {
    &&& 0 <= i < j < batches.len()
    &&& batches[i].queue_url == batches[j].queue_url
    &&& forall|k: int| i < k < j ==> (#[trigger] batches[k]).queue_url != batches[i].queue_url
}

/// No call is made without need: a queue gets another batch only for a message
/// that the batch before could not take.
pub proof fn batches_are_split_only_at_the_limits(sends: Seq<(String, ReplayRequest)>)
    ensures
        forall|i: int, j: int| #[trigger]
            follows(batches_of(sends), i, j) ==> !fits(
                batches_of(sends)[i].entries,
                batches_of(sends)[j].entries[0].1,
            ),
    decreases sends.len(),
{
    if sends.len() > 0 {
        let before = batches_of(sends.drop_last());
        let after = batches_of(sends);
        let send = sends.last();
        let queue_url = send.1.queue_url@;
        let at = last_batch_for(before, queue_url);
        batches_are_split_only_at_the_limits(sends.drop_last());
        batches_keep_the_limits(sends.drop_last());
        lemma_last_batch_for(before, queue_url);
        assert forall|i: int, j: int| #[trigger] follows(after, i, j) implies !fits(
            after[i].entries,
            after[j].entries[0].1,
        ) by {
            if at >= 0 && fits(before[at].entries, send.1) {
                assert forall|k: int| 0 <= k < before.len() implies (#[trigger] before[k]).queue_url
                    == after[k].queue_url by {}
                assert(follows(before, i, j)) by {
                    assert forall|k: int| i < k < j implies (#[trigger] before[k]).queue_url
                        != before[i].queue_url by {
                        assert(after[k].queue_url != after[i].queue_url);
                    }
                }
                if i == at {
                    assert(before[j].queue_url != queue_url);
                } else {
                    assert(after[i] == before[i]);
                }
                assert(acceptable(before[j]));
                assert(after[j].entries[0] == before[j].entries[0]);
            } else {
                assert forall|k: int| 0 <= k < before.len() implies #[trigger] before[k]
                    == after[k] by {}
                if j < before.len() {
                    assert(follows(before, i, j)) by {
                        assert forall|k: int| i < k < j implies (#[trigger] before[k]).queue_url
                            != before[i].queue_url by {
                            assert(after[k].queue_url != after[i].queue_url);
                        }
                    }
                } else {
                    assert(before[i].queue_url == queue_url);
                    if i < at {
                        assert(after[at].queue_url != after[i].queue_url);
                    }
                    assert(i == at);
                }
            }
        }
    }
}

/// The size of a list of texts is the sum of the sizes of all of them in UTF-8.
pub proof fn texts_are_measured_together(texts: Seq<String>)
    ensures
        texts_size(texts) == texts.fold_left(
            0nat,
            |sum: nat, text: String| sum + vstd::utf8::encode_utf8(text@).len(),
        ),
    decreases texts.len(),
{
    if texts.len() > 0 {
        texts_are_measured_together(texts.drop_last());
    }
}

/// The size of a list of byte strings is the sum of the lengths of all of them.
pub proof fn blobs_are_measured_together(blobs: Seq<Vec<u8>>)
    ensures
        blobs_size(blobs) == blobs.fold_left(0nat, |sum: nat, blob: Vec<u8>| sum + blob@.len()),
    decreases blobs.len(),
{
    if blobs.len() > 0 {
        blobs_are_measured_together(blobs.drop_last());
    }
}

/// The size of an attribute is that of its data type and of all its values.
pub proof fn attribute_is_measured_with_all_its_values(value: MessageAttributeValue)
    ensures
        attribute_size(value) == vstd::utf8::encode_utf8(value.data_type@).len() + (
        match value.string_value {
            Some(text) => vstd::utf8::encode_utf8(text@).len(),
            None => 0,
        }) + (match value.binary_value {
            Some(blob) => blob@.len(),
            None => 0,
        }) + (match value.string_list_values {
            Some(texts) => texts@.fold_left(
                0nat,
                |sum: nat, text: String| sum + vstd::utf8::encode_utf8(text@).len(),
            ),
            None => 0,
        }) + (match value.binary_list_values {
            Some(blobs) => blobs@.fold_left(0nat, |sum: nat, blob: Vec<u8>| sum + blob@.len()),
            None => 0,
        }),
{
    if let Some(texts) = value.string_list_values {
        texts_are_measured_together(texts@);
    }
    if let Some(blobs) = value.binary_list_values {
        blobs_are_measured_together(blobs@);
    }
}

/// The size of named attributes is the sum over all of them of the name and the
/// attribute.
pub proof fn attributes_are_measured_together(pairs: Seq<(Seq<char>, MessageAttributeValue)>)
    ensures
        attributes_size(pairs) == pairs.fold_left(
            0nat,
            |sum: nat, pair: (Seq<char>, MessageAttributeValue)|
                sum + vstd::utf8::encode_utf8(pair.0).len() + attribute_size(pair.1),
        ),
    decreases pairs.len(),
{
    if pairs.len() > 0 {
        attributes_are_measured_together(pairs.drop_last());
    }
}

/// The size of a message is that of its body in UTF-8 and of all its attributes.
pub proof fn message_is_measured_whole(request: ReplayRequest)
    ensures
        message_size(request) == vstd::utf8::encode_utf8(request.message_body@).len()
            + request.message_attributes.pairs().fold_left(
            0nat,
            |sum: nat, pair: (Seq<char>, MessageAttributeValue)|
                sum + vstd::utf8::encode_utf8(pair.0).len() + attribute_size(pair.1),
        ),
{
    attributes_are_measured_together(request.message_attributes.pairs());
}

/// The size of a batch is the sum of the sizes of all its messages.
pub proof fn payload_is_measured_whole(entries: Seq<(String, ReplayRequest)>)
    ensures
        payload_size(entries) == entries.fold_left(
            0nat,
            |sum: nat, entry: (String, ReplayRequest)| sum + message_size(entry.1),
        ),
    decreases entries.len(),
{
    if entries.len() > 0 {
        payload_is_measured_whole(entries.drop_last());
    }
}

/// The size of a batch with one more message is larger by that message, and that
/// of two batches together is that of the one plus that of the other.
pub proof fn payload_adds_up(
    first: Seq<(String, ReplayRequest)>,
    second: Seq<(String, ReplayRequest)>,
    entry: (String, ReplayRequest),
)
    ensures
        payload_size(Seq::<(String, ReplayRequest)>::empty()) == 0,
        payload_size(first.push(entry)) == payload_size(first) + message_size(entry.1),
        payload_size(first + second) == payload_size(first) + payload_size(second),
    decreases second.len(),
{
    assert(first.push(entry).drop_last() =~= first);
    if second.len() == 0 {
        assert(first + second =~= first);
    } else {
        payload_adds_up(first, second.drop_last(), entry);
        assert((first + second).drop_last() =~= first + second.drop_last());
    }
}

/// The bodies of a batch are no larger than the batch.
proof fn lemma_bodies_within_payload(entries: Seq<(String, ReplayRequest)>)
    ensures
        entries.fold_left(
            0nat,
            |sum: nat, entry: (String, ReplayRequest)|
                sum + vstd::utf8::encode_utf8(entry.1.message_body@).len(),
        ) <= payload_size(entries),
    decreases entries.len(),
{
    if entries.len() > 0 {
        lemma_bodies_within_payload(entries.drop_last());
    }
}

/// Every call has between one and ten entries, all for its queue. When it has more
/// than one, all its messages together have at most 256 KiB, and so have their
/// bodies alone.
pub proof fn every_call_is_within_the_limits(sends: Seq<(String, ReplayRequest)>, i: int)
    requires
        0 <= i < batches_of(sends).len(),
    ensures
        ({
            let batch = batches_of(sends)[i];
            &&& 1 <= batch.entries.len() <= 10
            &&& forall|j: int|
                0 <= j < batch.entries.len() ==> (#[trigger] batch.entries[j]).1.queue_url@
                    == batch.queue_url
            &&& batch.entries.len() > 1 ==> {
                &&& batch.entries.fold_left(
                    0nat,
                    |sum: nat, entry: (String, ReplayRequest)| sum + message_size(entry.1),
                ) <= 262_144
                &&& batch.entries.fold_left(
                    0nat,
                    |sum: nat, entry: (String, ReplayRequest)|
                        sum + vstd::utf8::encode_utf8(entry.1.message_body@).len(),
                ) <= 262_144
            }
        }),
{
    let batch = batches_of(sends)[i];
    batches_keep_the_limits(sends);
    assert(acceptable(batch));
    payload_is_measured_whole(batch.entries);
    lemma_bodies_within_payload(batch.entries);
}

/// A queue gets another call only when the call before has ten entries or has no
/// room for the first message of the next one.
pub proof fn queue_gets_another_call_only_at_a_limit(
    sends: Seq<(String, ReplayRequest)>,
    i: int,
    j: int,
)
    requires
        0 <= i < j < batches_of(sends).len(),
        batches_of(sends)[i].queue_url == batches_of(sends)[j].queue_url,
        forall|k: int|
            i < k < j ==> (#[trigger] batches_of(sends)[k]).queue_url != batches_of(sends)[i].queue_url,
    ensures
        ({
            let before = batches_of(sends)[i].entries;
            let next = batches_of(sends)[j].entries;
            ||| before.len() == 10
            ||| before.fold_left(
                0nat,
                |sum: nat, entry: (String, ReplayRequest)| sum + message_size(entry.1),
            ) + message_size(next[0].1) > 262_144
        }),
{
    batches_are_split_only_at_the_limits(sends);
    batches_keep_the_limits(sends);
    assert(follows(batches_of(sends), i, j));
    assert(acceptable(batches_of(sends)[i]));
    payload_is_measured_whole(batches_of(sends)[i].entries);
}

/// The entries of the batches for a queue are those of each such batch in turn.
proof fn lemma_entries_for_is_a_fold(batches: Seq<BatchView>, queue_url: Seq<char>)
    ensures
        entries_for(batches, queue_url) == batches.fold_left(
            Seq::<(String, ReplayRequest)>::empty(),
            |all: Seq<(String, ReplayRequest)>, batch: BatchView|
                if batch.queue_url == queue_url {
                    all + batch.entries
                } else {
                    all
                },
        ),
    decreases batches.len(),
{
    if batches.len() > 0 {
        lemma_entries_for_is_a_fold(batches.drop_last(), queue_url);
    }
}

/// The messages for a queue are those that are left without the others.
proof fn lemma_sends_for_is_a_filter(sends: Seq<(String, ReplayRequest)>, queue_url: Seq<char>)
    ensures
        sends_for(sends, queue_url) == sends.filter(
            |send: (String, ReplayRequest)| send.1.queue_url@ == queue_url,
        ),
    decreases sends.len(),
{
    reveal(Seq::filter);
    if sends.len() > 0 {
        lemma_sends_for_is_a_filter(sends.drop_last(), queue_url);
    }
}

/// The calls for a queue, one after the other, have exactly the messages for that
/// queue, as they are and in their order.
pub proof fn calls_for_a_queue_have_its_messages(
    sends: Seq<(String, ReplayRequest)>,
    queue_url: Seq<char>,
)
    ensures
        batches_of(sends).fold_left(
            Seq::<(String, ReplayRequest)>::empty(),
            |all: Seq<(String, ReplayRequest)>, batch: BatchView|
                if batch.queue_url == queue_url {
                    all + batch.entries
                } else {
                    all
                },
        ) == sends.filter(|send: (String, ReplayRequest)| send.1.queue_url@ == queue_url),
{
    batches_hold_each_queue_in_order(sends, queue_url);
    lemma_entries_for_is_a_fold(batches_of(sends), queue_url);
    lemma_sends_for_is_a_filter(sends, queue_url);
}

/// A batch is seen with all that it holds.
pub proof fn batch_shows_all_it_holds(batch: ReplayBatch)
    ensures
        batch@.queue_url == batch.queue_url@,
        batch@.entries == batch.entries@,
        batch.deep_view() == batch@,
{
}

} // verus!
