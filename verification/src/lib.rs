//! Replays messages from a replay queue to the queue that they came from, with
//! exponential backoff and a limit on the number of attempts.
//!
//! The library decides and its caller acts. For a batch of messages the caller
//! runs [`handle`], reading the configuration pages that it asks for, until it
//! gives a [`ReplayPlan`]; sends the batches that [`batch::replay_batches`] makes
//! of the plan; and answers with what [`respond`] makes of the outcome.
pub mod backoff;
pub mod batch;
pub mod config;
pub mod environment;
pub mod message;
pub mod replay;
pub mod string_map;
pub mod text;

use vstd::prelude::*;

use crate::config::ConfigAction;
use crate::config::ConfigError;
use crate::config::ConfigEvent;
use crate::config::ConfigStore;
use crate::config::ResolvedQueueConfig;
use crate::environment::Environment;
use crate::message::SqsMessage;
use crate::replay::build_replay_request;
use crate::replay::ReplayError;
use crate::replay::ReplayRequest;
use crate::string_map::StringMap;

verus! {

/// Response shape consumed by the SQS event source mapping's
/// `ReportBatchItemFailures` functionality.
#[derive(Debug)]
pub struct BatchResponse {
    pub batch_item_failures: Vec<BatchItemFailure>,
}

/// A single message that should be returned to the queue for retry.
#[derive(Debug)]
pub struct BatchItemFailure {
    pub item_identifier: String,
}

impl View for BatchItemFailure {
    type V = Seq<char>;

    open spec fn view(&self) -> Seq<char> {
        self.item_identifier@
    }
}

impl DeepView for BatchItemFailure {
    type V = Seq<char>;

    open spec fn deep_view(&self) -> Seq<char> {
        self@
    }
}

/// Adds a message to the failures, if it has an identifier to report it by.
pub fn push_failure(failures: &mut Vec<BatchItemFailure>, message_id: Option<&String>)
    ensures
        final(failures).deep_view() == match message_id {
            Some(id) => old(failures).deep_view().push(id@),
            None => old(failures).deep_view(),
        },
{
    if let Some(message_id) = message_id {
        failures.push(BatchItemFailure { item_identifier: message_id.clone() });
        assert(failures.deep_view() =~= old(failures).deep_view().push(message_id@));
    }
}

/// What to do next for the destination of a record.
#[derive(Debug)]
pub enum ResolveAction {
    /// Read a page of the parameters under a path, and of all paths below it.
    FetchPage { path: String, next_token: Option<String> },
    /// The destination, `None` when there is no configuration for it.
    Resolved(Option<ResolvedQueueConfig>),
    /// The destination could not be resolved.
    Failed(ConfigError),
}

/// What a [`ResolveAction`] asks for.
pub enum ResolveActionView {
    FetchPage { path: Seq<char>, next_token: Option<Seq<char>> },
    Resolved(Option<crate::config::ResolvedView>),
    Failed(crate::config::ConfigErrorView),
}

impl View for ResolveAction {
    type V = ResolveActionView;

    open spec fn view(&self) -> ResolveActionView {
        match self {
            ResolveAction::FetchPage { path, next_token } => ResolveActionView::FetchPage {
                path: path@,
                next_token: next_token.deep_view(),
            },
            ResolveAction::Resolved(config) => ResolveActionView::Resolved(config.deep_view()),
            ResolveAction::Failed(error) => ResolveActionView::Failed(error@),
        }
    }
}

/// The store and the action that follow an event while the destination for a
/// replay queue ARN is resolved: those of the store, with the defaults applied
/// to a configuration that is found.
pub open spec fn resolve_after(
    env: crate::environment::EnvironmentView,
    store: crate::config::StoreView,
    event_source_arn: Option<Seq<char>>,
    now: u64,
    event: crate::config::ConfigEventView,
) -> (crate::config::StoreView, ResolveActionView) {
    match event_source_arn {
        None => (
            store,
            ResolveActionView::Failed(crate::config::ConfigErrorView::Missing("eventSourceARN"@)),
        ),
        Some(arn) => {
            let (next, action) = store.after(arn, now, event);
            (
                next,
                match action {
                    crate::config::ConfigActionView::FetchPage { path, next_token } =>
                        ResolveActionView::FetchPage { path, next_token },
                    crate::config::ConfigActionView::Found(Some(config)) =>
                        ResolveActionView::Resolved(
                            Some(crate::config::resolved_config(config, env)),
                        ),
                    crate::config::ConfigActionView::Found(None) => ResolveActionView::Resolved(
                        None,
                    ),
                    crate::config::ConfigActionView::Failed(error) => ResolveActionView::Failed(
                        error,
                    ),
                },
            )
        },
    }
}

/// Resolves the replay destination for a record from the SSM config store,
/// keyed by the replay queue ARN, one event at a time.
///
/// The action is [`ResolveAction::Failed`] with [`ConfigError::Missing`] when no
/// `eventSourceARN` is given, and with [`ConfigError::Load`] when the SSM
/// parameters cannot be read.
pub fn resolve_config(
    env: &Environment,
    config_store: &mut ConfigStore,
    event_source_arn: Option<&str>,
    now: u64,
    event: ConfigEvent,
) -> (action: ResolveAction)
    ensures
        (final(config_store)@, action@) == resolve_after(
            env@,
            old(config_store)@,
            event_source_arn.deep_view(),
            now,
            event@,
        ),
{
    let arn = match event_source_arn {
        Some(arn) => arn,
        None => return ResolveAction::Failed(ConfigError::Missing("eventSourceARN")),
    };
    match config_store.config_for(arn, now, event) {
        ConfigAction::FetchPage { path, next_token } => ResolveAction::FetchPage {
            path,
            next_token,
        },
        ConfigAction::Found(Some(config)) => ResolveAction::Resolved(Some(config.resolve(env))),
        ConfigAction::Found(None) => ResolveAction::Resolved(None),
        ConfigAction::Failed(error) => ResolveAction::Failed(error),
    }
}

/// Destinations by replay queue ARN, `None` for an ARN without configuration.
pub type Destinations = Map<Seq<char>, Option<crate::config::ResolvedView>>;

/// Why a record is not sent.
#[derive(Debug, Clone, Copy, PartialEq, Eq, Structural)]
pub enum Reason {
    /// It has no `eventSourceARN`.
    NoEventSourceArn,
    /// There is no configuration for its queue.
    NoConfig,
    /// Its replay attempts are exhausted.
    RetryMaximumReached,
    /// Its replay count is not a number.
    InvalidReplayNum,
    /// It has no body.
    MissingBody,
    /// It has no identifier, so it could not be reported if it cannot be sent.
    NoMessageId,
}

/// What becomes of a record once the destinations are known.
pub enum Fate {
    /// It is reported as a failure: it has no ARN, its queue has no
    /// configuration, its attempts are exhausted, or it is malformed.
    Report(Reason),
    /// It is replayed under a configuration as the attempt of a number.
    Replay(crate::config::ResolvedView, u32),
}

/// What becomes of a record.
pub open spec fn fate(record: crate::message::MessageView, resolved: Destinations) -> Fate {
    match record.event_source_arn {
        None => Fate::Report(Reason::NoEventSourceArn),
        Some(arn) => match resolved[arn] {
            None => Fate::Report(Reason::NoConfig),
            Some(config) => match crate::replay::verdict(config, record) {
                crate::replay::Verdict::Replay(attempt) => Fate::Replay(config, attempt),
                crate::replay::Verdict::Exhausted => Fate::Report(Reason::RetryMaximumReached),
                crate::replay::Verdict::InvalidReplayNum => Fate::Report(Reason::InvalidReplayNum),
                crate::replay::Verdict::MissingBody => Fate::Report(Reason::MissingBody),
            },
        },
    }
}

/// The counter after a record has been planned. A record without an identifier
/// draws its delay before it is skipped.
pub open spec fn counter_after_record(
    record: crate::message::MessageView,
    resolved: Destinations,
    counter: u64,
) -> u64 {
    match fate(record, resolved) {
        Fate::Replay(config, attempt) => crate::replay::counter_after_delay(
            config,
            attempt,
            counter,
        ),
        Fate::Report(_) => counter,
    }
}

/// The counter after records have been planned one after the other.
pub open spec fn counter_after(
    records: Seq<crate::message::MessageView>,
    resolved: Destinations,
    counter: u64,
) -> u64
    decreases records.len(),
{
    if records.len() == 0 {
        counter
    } else {
        counter_after_record(
            records.last(),
            resolved,
            counter_after(records.drop_last(), resolved, counter),
        )
    }
}

/// A message that is to be replayed.
pub struct PlannedSend {
    pub message_id: Seq<char>,
    pub config: crate::config::ResolvedView,
    pub record: crate::message::MessageView,
    pub attempt: u32,
    /// The counter that its delay is drawn with, if it is drawn.
    pub counter: u64,
}

/// The identifiers of the records that are reported, in order. A record
/// without an identifier cannot be reported.
pub open spec fn planned_failures(
    records: Seq<crate::message::MessageView>,
    resolved: Destinations,
) -> Seq<Seq<char>>
    decreases records.len(),
{
    if records.len() == 0 {
        Seq::empty()
    } else {
        let before = planned_failures(records.drop_last(), resolved);
        match (fate(records.last(), resolved), records.last().message_id) {
            (Fate::Report(_), Some(id)) => before.push(id),
            _ => before,
        }
    }
}

/// The records that are replayed, in order. A record without an identifier is
/// skipped, for it could not be reported if it cannot be sent.
pub open spec fn planned_sends(
    records: Seq<crate::message::MessageView>,
    resolved: Destinations,
    counter: u64,
) -> Seq<PlannedSend>
    decreases records.len(),
{
    if records.len() == 0 {
        Seq::empty()
    } else {
        let before = planned_sends(records.drop_last(), resolved, counter);
        match (fate(records.last(), resolved), records.last().message_id) {
            (Fate::Replay(config, attempt), Some(message_id)) => before.push(
                PlannedSend {
                    message_id,
                    config,
                    record: records.last(),
                    attempt,
                    counter: counter_after(records.drop_last(), resolved, counter),
                },
            ),
            _ => before,
        }
    }
}

/// Why a record is not sent, if it is not.
pub open spec fn withheld(record: crate::message::MessageView, resolved: Destinations) -> Option<
    Reason,
> {
    match fate(record, resolved) {
        Fate::Report(reason) => Some(reason),
        Fate::Replay(..) => if record.message_id is None {
            Some(Reason::NoMessageId)
        } else {
            None
        },
    }
}

/// The records that are not sent, in order, with the reason of each.
pub open spec fn planned_notes(
    records: Seq<crate::message::MessageView>,
    resolved: Destinations,
) -> Seq<(Option<Seq<char>>, Reason)>
    decreases records.len(),
{
    if records.len() == 0 {
        Seq::empty()
    } else {
        let before = planned_notes(records.drop_last(), resolved);
        match withheld(records.last(), resolved) {
            Some(reason) => before.push((records.last().message_id, reason)),
            None => before,
        }
    }
}

/// Whether a request with its identifier is the one that replays a message:
/// it carries the message as planned, with a delay that the attempt may get.
pub open spec fn carries_out(send: (String, ReplayRequest), planned: PlannedSend) -> bool {
    &&& send.0@ == planned.message_id
    &&& crate::replay::delay_allowed(
        planned.config,
        planned.attempt,
        planned.counter,
        send.1.delay_seconds,
    )
    &&& send.1@ == crate::replay::replay_request(
        planned.config,
        planned.record,
        planned.attempt,
        send.1.delay_seconds,
    )
}

/// A record that is not sent, with its identifier if it has one.
#[derive(Debug)]
pub struct Note {
    pub message_id: Option<String>,
    pub reason: Reason,
}

impl View for Note {
    type V = (Option<Seq<char>>, Reason);

    open spec fn view(&self) -> (Option<Seq<char>>, Reason) {
        (self.message_id.deep_view(), self.reason)
    }
}

impl DeepView for Note {
    type V = (Option<Seq<char>>, Reason);

    open spec fn deep_view(&self) -> (Option<Seq<char>>, Reason) {
        self@
    }
}

/// What is to be done with a batch of records.
#[derive(Debug)]
pub struct ReplayPlan {
    /// Messages that are reported without an attempt to send them.
    pub failures: Vec<BatchItemFailure>,
    /// Requests to send, each with the identifier of the message that it replays.
    pub sends: Vec<(String, ReplayRequest)>,
    /// Records that are not sent, and why.
    pub notes: Vec<Note>,
}

impl ReplayPlan {
    /// Whether the plan is one for a batch of records that starts with a counter.
    pub open spec fn is_for(
        self,
        records: Seq<crate::message::MessageView>,
        resolved: Destinations,
        counter: u64,
    ) -> bool {
        let planned = planned_sends(records, resolved, counter);
        &&& self.notes.deep_view() == planned_notes(records, resolved)
        &&& self.failures.deep_view() == planned_failures(records, resolved)
        &&& self.sends@.len() == planned.len()
        &&& forall|i: int|
            0 <= i < planned.len() ==> carries_out(#[trigger] self.sends@[i], planned[i])
    }
}

/// Whether the destination of each of the first `n` records is known.
pub open spec fn resolved_up_to(
    records: Seq<crate::message::MessageView>,
    n: int,
    resolved: Destinations,
) -> bool {
    forall|i: int|
        0 <= i < n ==> ((#[trigger] records[i]).event_source_arn matches Some(arn)
            ==> resolved.contains_key(arn))
}

/// Builds the replay requests for records whose destinations are known. A record
/// without a request is a batch item failure (no config, retry maximum reached,
/// or malformed), so only that message is redelivered rather than the whole batch.
/// Delays with jitter are drawn with the counter, which rises with each draw.
pub fn plan_replays(
    records: &Vec<SqsMessage>,
    resolved: &StringMap<Option<ResolvedQueueConfig>>,
    counter: &mut u64,
) -> (plan: ReplayPlan)
    requires
        resolved_up_to(records.deep_view(), records@.len() as int, resolved.deep_view()),
    ensures
        plan.is_for(records.deep_view(), resolved.deep_view(), *old(counter)),
        *final(counter) == counter_after(
            records.deep_view(),
            resolved.deep_view(),
            *old(counter),
        ),
{
    let mut failures: Vec<BatchItemFailure> = Vec::new();
    let mut sends: Vec<(String, ReplayRequest)> = Vec::new();
    let mut notes: Vec<Note> = Vec::new();
    let ghost views = records.deep_view();
    let ghost known = resolved.deep_view();
    let ghost start = *counter;
    assert(views.take(0) =~= Seq::empty());
    assert(failures.deep_view() =~= Seq::empty());
    assert(notes.deep_view() =~= Seq::empty());
    let mut i: usize = 0;
    while i < records.len()
        invariant
            i <= records@.len(),
            views == records.deep_view(),
            known == resolved.deep_view(),
            resolved_up_to(views, records@.len() as int, known),
            *counter == counter_after(views.take(i as int), known, start),
            failures.deep_view() == planned_failures(views.take(i as int), known),
            notes.deep_view() == planned_notes(views.take(i as int), known),
            sends@.len() == planned_sends(views.take(i as int), known, start).len(),
            forall|j: int|
                0 <= j < sends@.len() ==> carries_out(
                    #[trigger] sends@[j],
                    planned_sends(views.take(i as int), known, start)[j],
                ),
        decreases records@.len() - i,
    {
        let record = &records[i];
        assert(views.take(i + 1).drop_last() =~= views.take(i as int));
        assert(views.take(i + 1).last() == record@);
        assert(views[i as int] == record@);
        i += 1;
        let config = match &record.event_source_arn {
            None => Err(Reason::NoEventSourceArn),
            Some(arn) => match resolved.get(arn.as_str()) {
                Some(Some(config)) => Ok(config),
                _ => Err(Reason::NoConfig),
            },
        };
        let request = match config {
            Err(reason) => Err(reason),
            Ok(config) => match build_replay_request(config, record, counter) {
                Ok(Some(request)) => Ok(request),
                Ok(None) => Err(Reason::RetryMaximumReached),
                Err(ReplayError::MissingBody) => Err(Reason::MissingBody),
                Err(_) => Err(Reason::InvalidReplayNum),
            },
        };
        let reason = match request {
            Ok(request) => match &record.message_id {
                Some(message_id) => {
                    sends.push((message_id.clone(), request));
                    None
                },
                None => Some(Reason::NoMessageId),
            },
            Err(reason) => {
                push_failure(&mut failures, record.message_id.as_ref());
                Some(reason)
            },
        };
        if let Some(reason) = reason {
            let ghost before = notes.deep_view();
            notes.push(Note { message_id: record.message_id.clone(), reason });
            assert(notes.deep_view() =~= before.push((record@.message_id, reason)));
        }
    }
    assert(views.take(views.len() as int) =~= views);
    ReplayPlan { failures, sends, notes }
}

/// A batch of records on its way to a [`ReplayPlan`].
pub struct Invocation {
    records: Vec<SqsMessage>,
    next: usize,
    resolved: StringMap<Option<ResolvedQueueConfig>>,
}

/// What an [`Invocation`] holds.
pub struct InvocationView {
    pub records: Seq<crate::message::MessageView>,
    /// The first record whose destination has not been looked at.
    pub next: nat,
    pub resolved: Destinations,
}

impl View for Invocation {
    type V = InvocationView;

    closed spec fn view(&self) -> InvocationView {
        InvocationView {
            records: self.records.deep_view(),
            next: self.next as nat,
            resolved: self.resolved.deep_view(),
        }
    }
}

impl Invocation {
    /// The destinations of all records before the next one are known.
    #[verifier::type_invariant]
    spec fn well_formed(self) -> bool {
        &&& self.next <= self.records@.len()
        &&& resolved_up_to(self.records.deep_view(), self.next as int, self.resolved.deep_view())
    }

    /// A batch of records of which no destination is known yet.
    pub fn new(records: Vec<SqsMessage>) -> (invocation: Self)
        ensures
            invocation@ == (InvocationView {
                records: records.deep_view(),
                next: 0,
                resolved: Map::empty(),
            }),
    {
        let invocation = Invocation { records, next: 0, resolved: StringMap::new() };
        assert(invocation@.resolved =~= Map::empty());
        invocation
    }
}

/// What to do next for a batch of records.
#[derive(Debug)]
pub enum HandleAction {
    /// Read a page of the parameters under a path, and of all paths below it.
    FetchPage { path: String, next_token: Option<String> },
    /// Give the batch up: a replay queue's configuration cannot be resolved.
    Failed(ConfigError),
    /// Send the requests of the plan and report its failures.
    Replay(ReplayPlan),
}

/// Where the search for destinations stands after an event.
pub enum Progress {
    /// It waits for a page of parameters.
    FetchPage { path: Seq<char>, next_token: Option<Seq<char>> },
    /// It failed.
    Failed(crate::config::ConfigErrorView),
    /// All destinations are known.
    Resolved,
}

/// The invocation, the store and the progress that follow an event: each
/// replay ARN is resolved when it first comes up, one record after the other.
/// The event is for the first ARN that is not resolved yet; each further one
/// is asked for in turn.
pub open spec fn handle_after(
    env: crate::environment::EnvironmentView,
    store: crate::config::StoreView,
    invocation: InvocationView,
    now: u64,
    event: crate::config::ConfigEventView,
) -> (InvocationView, crate::config::StoreView, Progress)
    decreases invocation.records.len() - invocation.next,
{
    let skipped = InvocationView { next: invocation.next + 1, ..invocation };
    if invocation.next >= invocation.records.len() {
        (invocation, store, Progress::Resolved)
    } else {
        match invocation.records[invocation.next as int].event_source_arn {
            None => handle_after(env, store, skipped, now, event),
            Some(arn) => if invocation.resolved.contains_key(arn) {
                handle_after(env, store, skipped, now, event)
            } else {
                let (next_store, action) = resolve_after(env, store, Some(arn), now, event);
                match action {
                    ResolveActionView::FetchPage { path, next_token } => (
                        invocation,
                        next_store,
                        Progress::FetchPage { path, next_token },
                    ),
                    ResolveActionView::Failed(error) => (
                        invocation,
                        next_store,
                        Progress::Failed(error),
                    ),
                    ResolveActionView::Resolved(config) => handle_after(
                        env,
                        next_store,
                        InvocationView {
                            next: invocation.next + 1,
                            resolved: invocation.resolved.insert(arn, config),
                            ..invocation
                        },
                        now,
                        crate::config::ConfigEventView::Requested,
                    ),
                }
            },
        }
    }
}

/// Replays each SQS record back to its configured queue, reporting batch item
/// failures, one event at a time: looks the configuration of each replay ARN up
/// exactly once, then plans the replays.
///
/// A message is reported as a failure when it has exhausted its replay
/// attempts, has no configuration yet, or is malformed. The action is
/// [`HandleAction::Failed`] only when a replay queue's configuration cannot be
/// resolved (e.g. SSM is unavailable); a single malformed record is reported as
/// a batch item failure instead of failing the whole batch.
///
/// The first event is [`ConfigEvent::Requested`]; after it, each event tells
/// how reading the page went that the last action asked for. Delays with jitter
/// are drawn with the counter, which rises with each draw and is to be shared by
/// all batches.
pub fn handle(
    env: &Environment,
    config_store: &mut ConfigStore,
    invocation: &mut Invocation,
    now: u64,
    event: ConfigEvent,
    counter: &mut u64,
) -> (action: HandleAction)
    ensures
        ({
            let (next, store, progress) = handle_after(
                env@,
                old(config_store)@,
                old(invocation)@,
                now,
                event@,
            );
            &&& final(invocation)@ == next
            &&& final(config_store)@ == store
            &&& *final(counter) == if progress is Resolved {
                counter_after(next.records, next.resolved, *old(counter))
            } else {
                *old(counter)
            }
            &&& match progress {
                Progress::FetchPage { path, next_token } => action matches HandleAction::FetchPage {
                    path: p,
                    next_token: t,
                } && p@ == path && t.deep_view() == next_token,
                Progress::Failed(error) => action matches HandleAction::Failed(e) && e@ == error,
                Progress::Resolved => action matches HandleAction::Replay(plan) && plan.is_for(
                    next.records,
                    next.resolved,
                    *old(counter),
                ),
            }
        }),
{
    proof {
        use_type_invariant(&*invocation);
    }
    let ghost start = invocation@;
    let ghost start_store = config_store@;
    let ghost first = event@;
    let mut next = invocation.next;
    let mut resolved: StringMap<Option<ResolvedQueueConfig>> = StringMap::new();
    invocation.next = 0;
    core::mem::swap(&mut resolved, &mut invocation.resolved);
    let mut event = event;
    let mut stopped: Option<HandleAction> = None;
    let ghost views = invocation.records.deep_view();
    while stopped.is_none() && next < invocation.records.len()
        invariant
            views == invocation.records.deep_view(),
            start.records == views,
            next <= views.len(),
            resolved_up_to(views, next as int, resolved.deep_view()),
            ({
                let here = InvocationView {
                    records: views,
                    next: next as nat,
                    resolved: resolved.deep_view(),
                };
                let result = handle_after(env@, start_store, start, now, first);
                match stopped {
                    None => result == handle_after(env@, config_store@, here, now, event@),
                    Some(HandleAction::FetchPage { path, next_token }) => result == (
                        here,
                        config_store@,
                        Progress::FetchPage { path: path@, next_token: next_token.deep_view() },
                    ),
                    Some(HandleAction::Failed(error)) => result == (
                        here,
                        config_store@,
                        Progress::Failed(error@),
                    ),
                    Some(HandleAction::Replay(_)) => false,
                }
            }),
        decreases
            views.len() - next,
            if stopped is None {
                1int
            } else {
                0int
            },
    {
        let record = &invocation.records[next];
        assert(views[next as int] == record@);
        match &record.event_source_arn {
            Some(arn) if !resolved.contains_key(arn.as_str()) => {
                match resolve_config(env, config_store, Some(arn.as_str()), now, event) {
                    ResolveAction::FetchPage { path, next_token } => {
                        event = ConfigEvent::Requested;
                        stopped = Some(HandleAction::FetchPage { path, next_token });
                    },
                    ResolveAction::Failed(error) => {
                        event = ConfigEvent::Requested;
                        stopped = Some(HandleAction::Failed(error));
                    },
                    ResolveAction::Resolved(config) => {
                        event = ConfigEvent::Requested;
                        let ghost before = resolved.deep_view();
                        let ghost destination = config.deep_view();
                        resolved.insert(arn.clone(), config);
                        assert(resolved.deep_view() =~= before.insert(arn@, destination));
                        next += 1;
                    },
                }
            },
            _ => {
                next += 1;
            },
        }
    }
    let action = match stopped {
        Some(action) => action,
        None => HandleAction::Replay(plan_replays(&invocation.records, &resolved, counter)),
    };
    invocation.resolved = resolved;
    invocation.next = next;
    action
}

/// Completes the response: the messages of the plan's failures, then those that
/// could not be sent.
pub fn respond(failures: Vec<BatchItemFailure>, rejected: Vec<String>) -> (response: BatchResponse)
    ensures
        response.batch_item_failures.deep_view() == failures.deep_view() + rejected.deep_view(),
{
    let mut all = failures;
    let ghost ids = rejected.deep_view();
    assert(all.deep_view() =~= failures.deep_view() + ids.take(0));
    for message_id in it: rejected
        invariant
            it.seq() == rejected@,
            ids == rejected.deep_view(),
            all.deep_view() == failures.deep_view() + ids.take(it.index()),
    {
        let ghost before = all.deep_view();
        let ghost id = message_id@;
        assert(ids[it.index()] == id);
        all.push(BatchItemFailure { item_identifier: message_id });
        assert(all.deep_view() =~= before.push(id));
        assert(ids.take(it.index() + 1) =~= ids.take(it.index()).push(id));
    }
    assert(ids.take(ids.len() as int) =~= ids);
    BatchResponse { batch_item_failures: all }
}

/// The identifiers of the records that have one, in order.
pub open spec fn message_ids(records: Seq<crate::message::MessageView>) -> Seq<Seq<char>>
    decreases records.len(),
{
    if records.len() == 0 {
        Seq::empty()
    } else {
        let before = message_ids(records.drop_last());
        match records.last().message_id {
            Some(id) => before.push(id),
            None => before,
        }
    }
}

/// The identifiers of messages that are to be replayed, in order.
pub open spec fn send_ids(sends: Seq<PlannedSend>) -> Seq<Seq<char>> {
    Seq::new(sends.len(), |i: int| sends[i].message_id)
}

/// Every message with an identifier is either reported or replayed, and none is
/// both, reported twice or replayed twice: together the failures and the
/// requests of a plan have each identifier as often as the records do.
pub proof fn every_message_is_reported_or_replayed(
    records: Seq<crate::message::MessageView>,
    resolved: Destinations,
    counter: u64,
)
    ensures
        message_ids(records).to_multiset() == planned_failures(records, resolved).to_multiset().add(
            send_ids(planned_sends(records, resolved, counter)).to_multiset(),
        ),
    decreases records.len(),
{
    broadcast use vstd::seq_lib::group_to_multiset_ensures;

    let failures = planned_failures(records, resolved);
    let sends = planned_sends(records, resolved, counter);
    if records.len() == 0 {
        assert(message_ids(records) =~= Seq::empty());
        assert(send_ids(sends) =~= Seq::empty());
        assert(message_ids(records).to_multiset() =~= failures.to_multiset().add(
            send_ids(sends).to_multiset(),
        ));
    } else {
        let front = records.drop_last();
        every_message_is_reported_or_replayed(front, resolved, counter);
        if let (Fate::Replay(config, attempt), Some(id)) = (
            fate(records.last(), resolved),
            records.last().message_id,
        ) {
            assert(send_ids(sends) =~= send_ids(planned_sends(front, resolved, counter)).push(id));
        }
        assert(message_ids(records).to_multiset() =~= failures.to_multiset().add(
            send_ids(sends).to_multiset(),
        ));
    }
}

/// No message is lost: when the entries of each call are those that SQS accepted
/// together with those that it rejected, or with all that were sent if the call
/// failed, every message with an identifier was accepted or is in the response,
/// and none is both.
pub proof fn every_message_is_accepted_or_reported(
    records: Seq<crate::message::MessageView>,
    resolved: Destinations,
    counter: u64,
    plan: ReplayPlan,
    outcomes: Seq<crate::batch::BatchOutcome>,
    accepted: Seq<Seq<Seq<char>>>,
)
    requires
        plan.is_for(records, resolved, counter),
        outcomes.len() == crate::batch::batches_of(plan.sends@).len(),
        accepted.len() == outcomes.len(),
        forall|i: int|
            0 <= i < outcomes.len() ==> (#[trigger] crate::batch::ids_by_batch(
                crate::batch::batches_of(plan.sends@),
            )[i]).to_multiset() == accepted[i].to_multiset().add(
                match outcomes[i].answer {
                    crate::batch::BatchAnswer::Answered { failed } => failed.deep_view(),
                    crate::batch::BatchAnswer::CallFailed => outcomes[i].sent.deep_view(),
                }.to_multiset(),
            ),
    ensures
        message_ids(records).to_multiset() == crate::batch::joined(accepted).to_multiset().add(
            (plan.failures.deep_view() + crate::batch::joined(
                crate::batch::rejections(outcomes),
            )).to_multiset(),
        ),
{
    let rejections = crate::batch::rejections(outcomes);
    let lists = crate::batch::ids_by_batch(crate::batch::batches_of(plan.sends@));
    every_message_is_reported_or_replayed(records, resolved, counter);
    crate::batch::batches_hold_every_message_once(plan.sends@);
    assert(crate::batch::entry_ids(plan.sends@) =~= send_ids(planned_sends(records, resolved, counter)));
    assert forall|i: int| 0 <= i < lists.len() implies (#[trigger] lists[i]).to_multiset()
        == accepted[i].to_multiset().add(rejections[i].to_multiset()) by {}
    crate::batch::lemma_joined_split(lists, accepted, rejections);
    vstd::seq_lib::lemma_multiset_commutative(
        plan.failures.deep_view(),
        crate::batch::joined(rejections),
    );
    assert(message_ids(records).to_multiset() =~= crate::batch::joined(accepted).to_multiset().add(
        (plan.failures.deep_view() + crate::batch::joined(rejections)).to_multiset(),
    ));
}

/// What becomes of a record does not depend on the other records: the plan for
/// two batches put together is the plan for the one followed by that for the
/// other, which goes on with the counter where the first left it.
pub proof fn records_are_planned_independently(
    first: Seq<crate::message::MessageView>,
    second: Seq<crate::message::MessageView>,
    resolved: Destinations,
    counter: u64,
)
    ensures
        ({
            let between = counter_after(first, resolved, counter);
            &&& counter_after(first + second, resolved, counter) == counter_after(
                second,
                resolved,
                between,
            )
            &&& planned_failures(first + second, resolved) == planned_failures(first, resolved)
                + planned_failures(second, resolved)
            &&& planned_notes(first + second, resolved) == planned_notes(first, resolved)
                + planned_notes(second, resolved)
            &&& planned_sends(first + second, resolved, counter) == planned_sends(
                first,
                resolved,
                counter,
            ) + planned_sends(second, resolved, between)
        }),
    decreases second.len(),
{
    let between = counter_after(first, resolved, counter);
    if second.len() == 0 {
        assert(first + second =~= first);
    } else {
        records_are_planned_independently(first, second.drop_last(), resolved, counter);
        assert((first + second).drop_last() =~= first + second.drop_last());
    }
    assert(planned_failures(first + second, resolved) =~= planned_failures(first, resolved)
        + planned_failures(second, resolved));
    assert(planned_notes(first + second, resolved) =~= planned_notes(first, resolved)
        + planned_notes(second, resolved));
    assert(planned_sends(first + second, resolved, counter) =~= planned_sends(
        first,
        resolved,
        counter,
    ) + planned_sends(second, resolved, between));
}

/// Whether the delay of an attempt is drawn.
pub open spec fn draws(config: crate::config::ResolvedView, attempt: u32) -> bool {
    config.use_jitter && crate::replay::configured_backoff(config, attempt) > 0
}

/// How many delays are drawn for records.
pub open spec fn draw_count(
    records: Seq<crate::message::MessageView>,
    resolved: Destinations,
) -> nat
    decreases records.len(),
{
    if records.len() == 0 {
        0
    } else {
        let before = draw_count(records.drop_last(), resolved);
        match fate(records.last(), resolved) {
            Fate::Replay(config, attempt) if draws(config, attempt) => before + 1,
            _ => before,
        }
    }
}

/// The counter counts the delays that are drawn for records.
proof fn lemma_counter_counts_draws(
    records: Seq<crate::message::MessageView>,
    resolved: Destinations,
    counter: u64,
)
    ensures
        counter_after(records, resolved, counter) == crate::backoff::counter_after_draws(
            counter,
            draw_count(records, resolved),
        ),
        draw_count(records, resolved) <= records.len(),
    decreases records.len(),
{
    if records.len() > 0 {
        lemma_counter_counts_draws(records.drop_last(), resolved, counter);
    }
}

/// Whether a message that is to be replayed draws with the counter that follows
/// a number of draws.
spec fn draws_at(send: PlannedSend, counter: u64, drawn: nat, limit: nat) -> bool {
    &&& send.counter == crate::backoff::counter_after_draws(counter, drawn)
    &&& drawn <= limit
    &&& draws(send.config, send.attempt) ==> drawn < limit
}

/// Each message that is to be replayed draws with the counter that follows some
/// of the draws before it.
proof fn lemma_sends_draw_in_turn(
    records: Seq<crate::message::MessageView>,
    resolved: Destinations,
    counter: u64,
    i: int,
)
    requires
        0 <= i < planned_sends(records, resolved, counter).len(),
    ensures
        exists|drawn: nat| #[trigger]
            draws_at(
                planned_sends(records, resolved, counter)[i],
                counter,
                drawn,
                draw_count(records, resolved),
            ),
    decreases records.len(),
{
    let front = records.drop_last();
    let send = planned_sends(records, resolved, counter)[i];
    let limit = draw_count(records, resolved);
    if i < planned_sends(front, resolved, counter).len() {
        lemma_sends_draw_in_turn(front, resolved, counter, i);
        let drawn = choose|drawn: nat| #[trigger]
            draws_at(
                planned_sends(front, resolved, counter)[i],
                counter,
                drawn,
                draw_count(front, resolved),
            );
        assert(draws_at(send, counter, drawn, limit));
    } else {
        lemma_counter_counts_draws(front, resolved, counter);
        assert(draws_at(send, counter, draw_count(front, resolved), limit));
    }
}

/// No two messages of a batch draw their delays with the same counter, so none
/// draws from the seed of another.
pub proof fn delays_of_a_batch_never_share_a_seed(
    records: Seq<crate::message::MessageView>,
    resolved: Destinations,
    counter: u64,
    i: int,
    j: int,
    nanos: u64,
)
    requires
        records.len() <= u64::MAX,
        0 <= i < j < planned_sends(records, resolved, counter).len(),
        draws(
            planned_sends(records, resolved, counter)[i].config,
            planned_sends(records, resolved, counter)[i].attempt,
        ),
    ensures
        ({
            let sends = planned_sends(records, resolved, counter);
            &&& sends[i].counter != sends[j].counter
            &&& crate::backoff::seed(sends[i].counter, nanos) != crate::backoff::seed(
                sends[j].counter,
                nanos,
            )
        }),
    decreases records.len(),
{
    let front = records.drop_last();
    let sends = planned_sends(records, resolved, counter);
    let before = planned_sends(front, resolved, counter);
    if j < before.len() {
        delays_of_a_batch_never_share_a_seed(front, resolved, counter, i, j, nanos);
    } else {
        let limit = draw_count(front, resolved);
        lemma_counter_counts_draws(front, resolved, counter);
        lemma_sends_draw_in_turn(front, resolved, counter, i);
        let drawn = choose|drawn: nat| #[trigger] draws_at(before[i], counter, drawn, limit);
        assert(before[i] == sends[i]);
        crate::backoff::draws_never_share_a_seed(counter, drawn, limit, nanos);
    }
}

/// Whether an ARN is that of one of the first `n` records.
pub open spec fn arn_occurs(
    records: Seq<crate::message::MessageView>,
    n: int,
    arn: Seq<char>,
) -> bool {
    exists|i: int| 0 <= i < n && (#[trigger] records[i]).event_source_arn == Some(arn)
}

/// Whether the destinations that an invocation knows are those of the records
/// before its next one, no more and no less.
pub open spec fn knows_what_it_passed(invocation: InvocationView) -> bool {
    &&& invocation.next <= invocation.records.len()
    &&& forall|arn: Seq<char>| #[trigger]
        invocation.resolved.contains_key(arn) <==> arn_occurs(
            invocation.records,
            invocation.next as int,
            arn,
        )
}

/// An event never changes the records or a destination that is already known, so
/// each replay ARN is resolved once; and when the search ends, the destinations
/// known are exactly those of the ARNs that occur.
pub proof fn each_arn_is_resolved_once(
    env: crate::environment::EnvironmentView,
    store: crate::config::StoreView,
    invocation: InvocationView,
    now: u64,
    event: crate::config::ConfigEventView,
)
    requires
        knows_what_it_passed(invocation),
    ensures
        ({
            let (next, next_store, progress) = handle_after(env, store, invocation, now, event);
            &&& next.records == invocation.records
            &&& invocation.resolved.submap_of(next.resolved)
            &&& knows_what_it_passed(next)
            &&& progress is Resolved ==> next.next == next.records.len()
        }),
    decreases invocation.records.len() - invocation.next,
{
    if invocation.next < invocation.records.len() {
        let record = invocation.records[invocation.next as int];
        let n = invocation.next as int;
        assert forall|arn: Seq<char>| #[trigger]
            arn_occurs(invocation.records, n + 1, arn) == (arn_occurs(invocation.records, n, arn)
                || record.event_source_arn == Some(arn)) by {
            if record.event_source_arn == Some(arn) {
                assert(invocation.records[n].event_source_arn == Some(arn));
            }
        }
        let skipped = InvocationView { next: invocation.next + 1, ..invocation };
        match record.event_source_arn {
            None => {
                each_arn_is_resolved_once(env, store, skipped, now, event);
            },
            Some(arn) => {
                if invocation.resolved.contains_key(arn) {
                    each_arn_is_resolved_once(env, store, skipped, now, event);
                } else {
                    let (next_store, action) = resolve_after(env, store, Some(arn), now, event);
                    if let ResolveActionView::Resolved(config) = action {
                        let requested = crate::config::ConfigEventView::Requested;
                        let known = InvocationView {
                            next: invocation.next + 1,
                            resolved: invocation.resolved.insert(arn, config),
                            ..invocation
                        };
                        each_arn_is_resolved_once(env, next_store, known, now, requested);
                        assert(invocation.resolved.submap_of(known.resolved));
                        vstd::map_lib::lemma_submap_of_trans(
                            invocation.resolved,
                            known.resolved,
                            handle_after(env, next_store, known, now, requested).0.resolved,
                        );
                    }
                }
            },
        }
    }
}

/// The batch as a whole fails only when a page of parameters could not be read,
/// and then with the description that the service gave.
pub proof fn batch_fails_only_when_loading_fails(
    env: crate::environment::EnvironmentView,
    store: crate::config::StoreView,
    invocation: InvocationView,
    now: u64,
    event: crate::config::ConfigEventView,
)
    ensures
        handle_after(env, store, invocation, now, event).2 matches Progress::Failed(error) ==> {
            &&& event matches crate::config::ConfigEventView::LoadFailed(description)
            &&& error == crate::config::ConfigErrorView::Load(description)
        },
    decreases invocation.records.len() - invocation.next,
{
    if invocation.next < invocation.records.len() {
        let skipped = InvocationView { next: invocation.next + 1, ..invocation };
        match invocation.records[invocation.next as int].event_source_arn {
            None => {
                batch_fails_only_when_loading_fails(env, store, skipped, now, event);
            },
            Some(arn) => {
                if invocation.resolved.contains_key(arn) {
                    batch_fails_only_when_loading_fails(env, store, skipped, now, event);
                } else {
                    let (next_store, action) = resolve_after(env, store, Some(arn), now, event);
                    if let ResolveActionView::Resolved(config) = action {
                        batch_fails_only_when_loading_fails(
                            env,
                            next_store,
                            InvocationView {
                                next: invocation.next + 1,
                                resolved: invocation.resolved.insert(arn, config),
                                ..invocation
                            },
                            now,
                            crate::config::ConfigEventView::Requested,
                        );
                    }
                }
            },
        }
    }
}

/// The destination that a cached configuration gives for an ARN.
pub open spec fn cached_destination(
    env: crate::environment::EnvironmentView,
    store: crate::config::StoreView,
    arn: Seq<char>,
) -> Option<crate::config::ResolvedView> {
    match store.lookup(arn) {
        Some(config) => Some(crate::config::resolved_config(config, env)),
        None => None,
    }
}

/// With a fresh cache a batch is resolved at once, without reading a page: each
/// ARN that was not known gets what the cache holds for it, and the cache stays
/// as it is.
pub proof fn fresh_cache_resolves_the_batch(
    env: crate::environment::EnvironmentView,
    store: crate::config::StoreView,
    invocation: InvocationView,
    now: u64,
)
    requires
        store.is_fresh(now),
    ensures
        ({
            let (next, next_store, progress) = handle_after(
                env,
                store,
                invocation,
                now,
                crate::config::ConfigEventView::Requested,
            );
            &&& progress is Resolved
            &&& next_store.cache == store.cache
            &&& forall|arn: Seq<char>| #[trigger]
                next.resolved.contains_key(arn) ==> next.resolved[arn]
                    == if invocation.resolved.contains_key(arn) {
                    invocation.resolved[arn]
                } else {
                    cached_destination(env, store, arn)
                }
        }),
    decreases invocation.records.len() - invocation.next,
{
    let requested = crate::config::ConfigEventView::Requested;
    if invocation.next < invocation.records.len() {
        let skipped = InvocationView { next: invocation.next + 1, ..invocation };
        match invocation.records[invocation.next as int].event_source_arn {
            None => {
                fresh_cache_resolves_the_batch(env, store, skipped, now);
            },
            Some(arn) => {
                if invocation.resolved.contains_key(arn) {
                    fresh_cache_resolves_the_batch(env, store, skipped, now);
                } else {
                    let (next_store, action) = resolve_after(
                        env,
                        store,
                        Some(arn),
                        now,
                        requested,
                    );
                    let known = InvocationView {
                        next: invocation.next + 1,
                        resolved: invocation.resolved.insert(arn, cached_destination(env, store, arn)),
                        ..invocation
                    };
                    assert(action == ResolveActionView::Resolved(
                        cached_destination(env, store, arn),
                    ));
                    fresh_cache_resolves_the_batch(env, next_store, known, now);
                    each_lookup_depends_on_the_cache(env, store, next_store);
                }
            },
        }
    }
}

/// The last page of a load resolves the batch at once, from what was loaded:
/// each ARN that was not known gets what the new cache holds for it.
pub proof fn last_page_resolves_the_batch(
    env: crate::environment::EnvironmentView,
    store: crate::config::StoreView,
    invocation: InvocationView,
    now: u64,
    parameters: Seq<Option<crate::config::QueueConfigView>>,
)
    requires
        store.ttl > 0,
    ensures
        ({
            let page = crate::config::ConfigEventView::Page { parameters, next_token: None };
            let (next, next_store, progress) = handle_after(env, store, invocation, now, page);
            let loaded = crate::config::with_page(store.loading, parameters);
            &&& progress is Resolved
            &&& next_store.cache == Some((now, loaded)) || (next_store == store && next.resolved
                == invocation.resolved)
            &&& forall|arn: Seq<char>| #[trigger]
                next.resolved.contains_key(arn) ==> next.resolved[arn]
                    == if invocation.resolved.contains_key(arn) {
                    invocation.resolved[arn]
                } else {
                    cached_destination(env, next_store, arn)
                }
        }),
    decreases invocation.records.len() - invocation.next,
{
    let page = crate::config::ConfigEventView::Page { parameters, next_token: None };
    if invocation.next < invocation.records.len() {
        let skipped = InvocationView { next: invocation.next + 1, ..invocation };
        match invocation.records[invocation.next as int].event_source_arn {
            None => {
                last_page_resolves_the_batch(env, store, skipped, now, parameters);
            },
            Some(arn) => {
                if invocation.resolved.contains_key(arn) {
                    last_page_resolves_the_batch(env, store, skipped, now, parameters);
                } else {
                    let (next_store, action) = resolve_after(env, store, Some(arn), now, page);
                    let known = InvocationView {
                        next: invocation.next + 1,
                        resolved: invocation.resolved.insert(
                            arn,
                            cached_destination(env, next_store, arn),
                        ),
                        ..invocation
                    };
                    let requested = crate::config::ConfigEventView::Requested;
                    let end = handle_after(env, next_store, known, now, requested);
                    assert(action == ResolveActionView::Resolved(
                        cached_destination(env, next_store, arn),
                    ));
                    fresh_cache_resolves_the_batch(env, next_store, known, now);
                    each_lookup_depends_on_the_cache(env, next_store, end.1);
                }
            },
        }
    }
}

/// Stores with one cache give the same destinations.
proof fn each_lookup_depends_on_the_cache(
    env: crate::environment::EnvironmentView,
    store: crate::config::StoreView,
    other: crate::config::StoreView,
)
    requires
        store.cache == other.cache,
    ensures
        forall|arn: Seq<char>| #[trigger]
            cached_destination(env, store, arn) == cached_destination(env, other, arn),
{
}

/// The destination for an ARN is the cached configuration with the defaults for
/// each tuning value that it leaves out, and there is one exactly when the cache
/// has a configuration for the ARN.
pub proof fn cached_destination_is_the_configuration(
    env: crate::environment::EnvironmentView,
    store: crate::config::StoreView,
    loaded_at: u64,
    configs: crate::config::Configs,
    arn: Seq<char>,
)
    requires
        store.cache == Some((loaded_at, configs)),
    ensures
        match cached_destination(env, store, arn) {
            None => !configs.contains_key(arn),
            Some(destination) => {
                &&& configs.contains_key(arn)
                &&& destination.queue_url == configs[arn].destination_queue_url
                &&& destination.max_attempts == match configs[arn].max_attempts {
                    Some(set) => set,
                    None => env.max_attempts,
                }
                &&& destination.backoff_rate_seconds == match configs[arn].backoff_rate_seconds {
                    Some(set) => set,
                    None => env.backoff_rate_seconds,
                }
                &&& destination.maximum_delay_seconds == match configs[arn].maximum_delay_seconds {
                    Some(set) => set,
                    None => env.maximum_delay_seconds,
                }
                &&& destination.use_jitter == match configs[arn].use_jitter {
                    Some(set) => set,
                    None => env.use_jitter,
                }
            },
        },
{
}

/// Resolving a destination asks the store and applies the defaults to what it
/// finds; it reads the pages that the store asks for, fails as the store fails,
/// and fails without an ARN, which leaves the store alone.
pub proof fn destination_is_resolved_from_the_store(
    env: crate::environment::EnvironmentView,
    store: crate::config::StoreView,
    arn: Seq<char>,
    now: u64,
    event: crate::config::ConfigEventView,
)
    ensures
        ({
            let (asked_store, asked) = store.after(arn, now, event);
            let (next, action) = resolve_after(env, store, Some(arn), now, event);
            &&& next == asked_store
            &&& match asked {
                crate::config::ConfigActionView::FetchPage { path, next_token } => action == (
                ResolveActionView::FetchPage { path, next_token }),
                crate::config::ConfigActionView::Failed(error) => action
                    == ResolveActionView::Failed(error),
                crate::config::ConfigActionView::Found(None) => action
                    == ResolveActionView::Resolved(None),
                crate::config::ConfigActionView::Found(Some(config)) => {
                    &&& action matches ResolveActionView::Resolved(Some(destination))
                    &&& destination.queue_url == config.destination_queue_url
                    &&& destination.max_attempts == match config.max_attempts {
                        Some(set) => set,
                        None => env.max_attempts,
                    }
                    &&& destination.backoff_rate_seconds == match config.backoff_rate_seconds {
                        Some(set) => set,
                        None => env.backoff_rate_seconds,
                    }
                    &&& destination.maximum_delay_seconds == match config.maximum_delay_seconds {
                        Some(set) => set,
                        None => env.maximum_delay_seconds,
                    }
                    &&& destination.use_jitter == match config.use_jitter {
                        Some(set) => set,
                        None => env.use_jitter,
                    }
                },
            }
        }),
        resolve_after(env, store, None, now, event) == (
            store,
            ResolveActionView::Failed(crate::config::ConfigErrorView::Missing("eventSourceARN"@)),
        ),
{
}

/// A record is replayed exactly when it has an ARN whose queue has a configuration,
/// its replay count is a number below the limit of that configuration, and it has
/// a body; it is then replayed under that configuration, as the attempt after its
/// count. Otherwise it is reported, with the first of these that it lacks.
pub proof fn record_is_replayed_or_reported_with_its_reason(
    record: crate::message::MessageView,
    resolved: Destinations,
)
    ensures
        ({
            let count = crate::replay::replay_count(record);
            let decided = fate(record, resolved);
            match record.event_source_arn {
                None => decided == Fate::Report(Reason::NoEventSourceArn),
                Some(arn) => match resolved[arn] {
                    None => decided == Fate::Report(Reason::NoConfig),
                    Some(config) => if count is None {
                        decided == Fate::Report(Reason::InvalidReplayNum)
                    } else if count->0 >= config.max_attempts {
                        decided == Fate::Report(Reason::RetryMaximumReached)
                    } else if record.body is None {
                        decided == Fate::Report(Reason::MissingBody)
                    } else {
                        decided == Fate::Replay(config, (count->0 + 1) as u32)
                    },
                },
            }
        }),
{
}

/// The failures of a plan are the identifiers of the records that are reported,
/// as far as they have one, in their order.
pub proof fn failures_are_the_reported_records(
    records: Seq<crate::message::MessageView>,
    resolved: Destinations,
)
    ensures
        planned_failures(records, resolved) == records.filter_map(
            |record: crate::message::MessageView|
                match fate(record, resolved) {
                    Fate::Report(_) => record.message_id,
                    Fate::Replay(..) => None,
                },
        ),
    decreases records.len(),
{
    if records.len() > 0 {
        failures_are_the_reported_records(records.drop_last(), resolved);
    }
    assert(planned_failures(records, resolved) =~= records.filter_map(
        |record: crate::message::MessageView|
            match fate(record, resolved) {
                Fate::Report(_) => record.message_id,
                Fate::Replay(..) => None,
            },
    ));
}

/// The records of a plan's requests are those that are replayed and have an
/// identifier, in their order.
pub proof fn sends_are_the_replayed_records(
    records: Seq<crate::message::MessageView>,
    resolved: Destinations,
    counter: u64,
)
    ensures
        planned_sends(records, resolved, counter).map_values(|send: PlannedSend| send.record)
            == records.filter_map(
            |record: crate::message::MessageView|
                if fate(record, resolved) is Replay && record.message_id is Some {
                    Some(record)
                } else {
                    None
                },
        ),
    decreases records.len(),
{
    if records.len() > 0 {
        sends_are_the_replayed_records(records.drop_last(), resolved, counter);
    }
    assert(planned_sends(records, resolved, counter).map_values(|send: PlannedSend| send.record)
        =~= records.filter_map(
        |record: crate::message::MessageView|
            if fate(record, resolved) is Replay && record.message_id is Some {
                Some(record)
            } else {
                None
            },
    ));
}

/// Each request of a plan is for a record under the record's own identifier, the
/// configuration of the record's own queue and the attempt after the record's count.
pub proof fn send_is_for_its_record(
    records: Seq<crate::message::MessageView>,
    resolved: Destinations,
    counter: u64,
    i: int,
)
    requires
        0 <= i < planned_sends(records, resolved, counter).len(),
    ensures
        ({
            let send = planned_sends(records, resolved, counter)[i];
            &&& records.contains(send.record)
            &&& send.record.message_id == Some(send.message_id)
            &&& send.record.event_source_arn is Some
            &&& resolved[send.record.event_source_arn->0] == Some(send.config)
            &&& crate::replay::replay_count(send.record) is Some
            &&& send.attempt == crate::replay::replay_count(send.record)->0 + 1
            &&& send.attempt <= send.config.max_attempts
            &&& send.record.body is Some
        }),
    decreases records.len(),
{
    let front = records.drop_last();
    let send = planned_sends(records, resolved, counter)[i];
    if i < planned_sends(front, resolved, counter).len() {
        send_is_for_its_record(front, resolved, counter, i);
        let at = choose|at: int| 0 <= at < front.len() && front[at] == send.record;
        assert(records[at] == send.record);
    } else {
        assert(records[records.len() - 1] == send.record);
    }
}

/// The notes of a plan are the records that are not sent, in their order: those
/// that are reported, with the reason, and those that have no identifier.
pub proof fn notes_are_the_records_not_sent(
    records: Seq<crate::message::MessageView>,
    resolved: Destinations,
)
    ensures
        planned_notes(records, resolved) == records.filter_map(
            |record: crate::message::MessageView|
                match fate(record, resolved) {
                    Fate::Report(reason) => Some((record.message_id, reason)),
                    Fate::Replay(..) => if record.message_id is None {
                        Some((record.message_id, Reason::NoMessageId))
                    } else {
                        None
                    },
                },
        ),
    decreases records.len(),
{
    if records.len() > 0 {
        notes_are_the_records_not_sent(records.drop_last(), resolved);
    }
    assert(planned_notes(records, resolved) =~= records.filter_map(
        |record: crate::message::MessageView|
            match fate(record, resolved) {
                Fate::Report(reason) => Some((record.message_id, reason)),
                Fate::Replay(..) => if record.message_id is None {
                    Some((record.message_id, Reason::NoMessageId))
                } else {
                    None
                },
            },
    ));
}

/// The identifiers of records are those that the records have, in their order.
pub proof fn message_ids_are_those_of_the_records(records: Seq<crate::message::MessageView>)
    ensures
        message_ids(records) == records.filter_map(
            |record: crate::message::MessageView| record.message_id,
        ),
    decreases records.len(),
{
    if records.len() > 0 {
        message_ids_are_those_of_the_records(records.drop_last());
    }
    assert(message_ids(records) =~= records.filter_map(
        |record: crate::message::MessageView| record.message_id,
    ));
}

/// The counter rises by one for each record that is replayed with jitter between
/// some delays, whether or not it has an identifier, and for no other record.
pub proof fn counter_counts_the_jittered_records(
    records: Seq<crate::message::MessageView>,
    record: crate::message::MessageView,
    resolved: Destinations,
    counter: u64,
)
    ensures
        counter_after(Seq::empty(), resolved, counter) == counter,
        ({
            let before = counter_after(records, resolved, counter);
            counter_after(records.push(record), resolved, counter) == match fate(record, resolved) {
                Fate::Replay(config, _) if config.use_jitter && config.backoff_rate_seconds > 0
                    && config.maximum_delay_seconds > 0 => before.wrapping_add(1),
                _ => before,
            }
        }),
{
    assert(records.push(record).drop_last() =~= records);
    if let Fate::Replay(config, attempt) = fate(record, resolved) {
        crate::backoff::backoff_is_positive(
            config.backoff_rate_seconds as nat,
            config.maximum_delay_seconds as nat,
            attempt as nat,
        );
    }
}

/// Each request of a plan draws with the counter as the records before its own
/// left it.
pub proof fn send_draws_with_the_counter_of_its_turn(
    records: Seq<crate::message::MessageView>,
    record: crate::message::MessageView,
    resolved: Destinations,
    counter: u64,
)
    requires
        fate(record, resolved) is Replay,
        record.message_id is Some,
    ensures
        ({
            let sends = planned_sends(records.push(record), resolved, counter);
            &&& sends.len() == planned_sends(records, resolved, counter).len() + 1
            &&& sends.drop_last() == planned_sends(records, resolved, counter)
            &&& sends.last().record == record
            &&& sends.last().counter == counter_after(records, resolved, counter)
        }),
{
    assert(records.push(record).drop_last() =~= records);
    assert(planned_sends(records.push(record), resolved, counter).drop_last() =~= planned_sends(
        records,
        resolved,
        counter,
    ));
}

/// A plan reports the records that are to be reported, and has a request for each
/// record that is to be replayed, which carries the record: its identifier, its
/// destination, its body and a delay within the limits.
pub proof fn plan_carries_the_records(
    plan: ReplayPlan,
    records: Seq<crate::message::MessageView>,
    resolved: Destinations,
    counter: u64,
    i: int,
)
    requires
        plan.is_for(records, resolved, counter),
    ensures
        plan.failures@.len() == planned_failures(records, resolved).len(),
        0 <= i < plan.failures@.len() ==> plan.failures@[i].item_identifier@ == planned_failures(
            records,
            resolved,
        )[i],
        plan.notes@.len() == planned_notes(records, resolved).len(),
        0 <= i < plan.notes@.len() ==> {
            let note = planned_notes(records, resolved)[i];
            &&& plan.notes@[i].reason == note.1
            &&& match plan.notes@[i].message_id {
                Some(id) => note.0 == Some(id@),
                None => note.0 is None,
            }
        },
        plan.sends@.len() == planned_sends(records, resolved, counter).len(),
        0 <= i < plan.sends@.len() ==> {
            let planned = planned_sends(records, resolved, counter)[i];
            let (message_id, request) = plan.sends@[i];
            let doubled = planned.config.backoff_rate_seconds * vstd::arithmetic::power2::pow2(
                planned.attempt as nat,
            );
            &&& planned.record.message_id == Some(message_id@)
            &&& request.queue_url@ == planned.config.queue_url
            &&& planned.record.body == Some(request.message_body@)
            &&& request@ == crate::replay::replay_request(
                planned.config,
                planned.record,
                planned.attempt,
                request.delay_seconds,
            )
            &&& crate::replay::delay_allowed(
                planned.config,
                planned.attempt,
                planned.counter,
                request.delay_seconds,
            )
            &&& request.delay_seconds <= planned.config.maximum_delay_seconds
            &&& request.delay_seconds <= doubled
            &&& !planned.config.use_jitter ==> request.delay_seconds
                == planned.config.maximum_delay_seconds || request.delay_seconds == doubled
        },
{
    assert(0 <= i < plan.failures@.len() ==> plan.failures.deep_view()[i]
        == plan.failures@[i].item_identifier@);
    assert(0 <= i < plan.notes@.len() ==> plan.notes.deep_view()[i] == plan.notes@[i]@);
    if 0 <= i < plan.sends@.len() {
        send_is_for_its_record(records, resolved, counter, i);
        let planned = planned_sends(records, resolved, counter)[i];
        assert(carries_out(plan.sends@[i], planned));
    }
}

/// Requests leave no unfinished load once one has been made.
proof fn lemma_request_drops_the_load(
    env: crate::environment::EnvironmentView,
    store: crate::config::StoreView,
    invocation: InvocationView,
    now: u64,
)
    ensures
        ({
            let requested = crate::config::ConfigEventView::Requested;
            let nothing = Map::<Seq<char>, crate::config::QueueConfigView>::empty();
            let loading = handle_after(env, store, invocation, now, requested).1.loading;
            &&& loading == nothing || loading == store.loading
            &&& invocation.next < invocation.records.len()
                && invocation.records[invocation.next as int].event_source_arn is Some
                && !invocation.resolved.contains_key(
                invocation.records[invocation.next as int].event_source_arn->0,
            ) ==> loading == nothing
        }),
    decreases invocation.records.len() - invocation.next,
{
    let requested = crate::config::ConfigEventView::Requested;
    if invocation.next < invocation.records.len() {
        let skipped = InvocationView { next: invocation.next + 1, ..invocation };
        match invocation.records[invocation.next as int].event_source_arn {
            None => {
                lemma_request_drops_the_load(env, store, skipped, now);
            },
            Some(arn) => {
                if invocation.resolved.contains_key(arn) {
                    lemma_request_drops_the_load(env, store, skipped, now);
                } else {
                    let (next_store, action) = resolve_after(env, store, Some(arn), now, requested);
                    if let ResolveActionView::Resolved(config) = action {
                        let known = InvocationView {
                            next: invocation.next + 1,
                            resolved: invocation.resolved.insert(arn, config),
                            ..invocation
                        };
                        lemma_request_drops_the_load(env, next_store, known, now);
                    }
                }
            },
        }
    }
}

/// A batch with no destination left to find is resolved at once, whatever the
/// event, and leaves the store and the destinations as they are.
pub proof fn batch_without_open_destinations_is_resolved(
    env: crate::environment::EnvironmentView,
    store: crate::config::StoreView,
    invocation: InvocationView,
    now: u64,
    event: crate::config::ConfigEventView,
)
    requires
        forall|i: int|
            invocation.next <= i < invocation.records.len() && (
            #[trigger] invocation.records[i]).event_source_arn is Some
                ==> invocation.resolved.contains_key(invocation.records[i].event_source_arn->0),
    ensures
        ({
            let (next, next_store, progress) = handle_after(env, store, invocation, now, event);
            &&& progress is Resolved
            &&& next_store == store
            &&& next.resolved == invocation.resolved
            &&& next.records == invocation.records
        }),
    decreases invocation.records.len() - invocation.next,
{
    if invocation.next < invocation.records.len() {
        let skipped = InvocationView { next: invocation.next + 1, ..invocation };
        assert(invocation.records[invocation.next as int].event_source_arn is Some
            ==> invocation.resolved.contains_key(
            invocation.records[invocation.next as int].event_source_arn->0,
        ));
        batch_without_open_destinations_is_resolved(env, store, skipped, now, event);
    }
}

/// While the destination of a record is not known, a batch waits for it: it reads
/// the first page when nothing fresh is cached, each further page while there is
/// one, and fails when a page cannot be read. Pages add to the load, the last one
/// puts the load into the cache, and everything else leaves the cache as it is.
pub proof fn batch_waits_for_its_destinations(
    env: crate::environment::EnvironmentView,
    store: crate::config::StoreView,
    invocation: InvocationView,
    now: u64,
    event: crate::config::ConfigEventView,
    pending: int,
)
    requires
        invocation.next <= pending < invocation.records.len(),
        invocation.records[pending].event_source_arn is Some,
        !invocation.resolved.contains_key(invocation.records[pending].event_source_arn->0),
    ensures
        ({
            let (next, next_store, progress) = handle_after(env, store, invocation, now, event);
            let nothing = Map::<Seq<char>, crate::config::QueueConfigView>::empty();
            match event {
                crate::config::ConfigEventView::Requested => {
                    &&& next_store.cache == store.cache
                    &&& next_store.loading == nothing
                    &&& match store.cache {
                        Some((loaded_at, _)) if store.ttl > 0 && now - loaded_at < store.ttl =>
                            progress is Resolved,
                        _ => progress == (Progress::FetchPage {
                            path: store.path,
                            next_token: None,
                        }),
                    }
                },
                crate::config::ConfigEventView::Page { parameters, next_token: Some(token) } => {
                    &&& next_store.cache == store.cache
                    &&& next_store.loading == crate::config::with_page(store.loading, parameters)
                    &&& progress == (Progress::FetchPage {
                        path: store.path,
                        next_token: Some(token),
                    })
                },
                crate::config::ConfigEventView::Page { parameters, next_token: None } => {
                    store.ttl > 0 ==> {
                        &&& next_store.cache == Some(
                            (now, crate::config::with_page(store.loading, parameters)),
                        )
                        &&& progress is Resolved
                    }
                },
                crate::config::ConfigEventView::LoadFailed(description) => {
                    &&& next_store.cache == store.cache
                    &&& next_store.loading == nothing
                    &&& progress == Progress::Failed(
                        crate::config::ConfigErrorView::Load(description),
                    )
                },
            }
        }),
    decreases invocation.records.len() - invocation.next,
{
    let skipped = InvocationView { next: invocation.next + 1, ..invocation };
    let first = invocation.records[invocation.next as int].event_source_arn;
    if first is None || invocation.resolved.contains_key(first->0) {
        batch_waits_for_its_destinations(env, store, skipped, now, event, pending);
    } else {
        match event {
            crate::config::ConfigEventView::Requested => {
                if store.is_fresh(now) {
                    fresh_cache_resolves_the_batch(env, store, invocation, now);
                    lemma_request_drops_the_load(env, store, invocation, now);
                }
            },
            crate::config::ConfigEventView::Page { parameters, next_token: None } => {
                if store.ttl > 0 {
                    let loaded = resolve_after(env, store, first, now, event).0;
                    let known = InvocationView {
                        next: invocation.next + 1,
                        resolved: invocation.resolved.insert(
                            first->0,
                            cached_destination(env, loaded, first->0),
                        ),
                        ..invocation
                    };
                    fresh_cache_resolves_the_batch(env, loaded, known, now);
                }
            },
            _ => {},
        }
    }
}

/// When the search for destinations has ended, the destinations known are those
/// of the ARNs of the records, no more and no less.
pub proof fn resolved_batch_knows_its_arns(
    env: crate::environment::EnvironmentView,
    store: crate::config::StoreView,
    invocation: InvocationView,
    now: u64,
    event: crate::config::ConfigEventView,
    arn: Seq<char>,
)
    requires
        invocation.next <= invocation.records.len(),
        forall|known: Seq<char>| #[trigger]
            invocation.resolved.contains_key(known) <==> exists|i: int|
                0 <= i < invocation.next && (#[trigger] invocation.records[i]).event_source_arn
                    == Some(known),
        handle_after(env, store, invocation, now, event).2 is Resolved,
    ensures
        ({
            let next = handle_after(env, store, invocation, now, event).0;
            &&& next.records == invocation.records
            &&& next.resolved.contains_key(arn) <==> exists|i: int|
                0 <= i < invocation.records.len() && (
                #[trigger] invocation.records[i]).event_source_arn == Some(arn)
            &&& invocation.resolved.contains_key(arn) ==> next.resolved[arn]
                == invocation.resolved[arn]
        }),
{
    assert forall|known: Seq<char>| #[trigger]
        invocation.resolved.contains_key(known) == arn_occurs(
            invocation.records,
            invocation.next as int,
            known,
        ) by {}
    each_arn_is_resolved_once(env, store, invocation, now, event);
    let next = handle_after(env, store, invocation, now, event).0;
    assert(next.resolved.contains_key(arn) == arn_occurs(
        next.records,
        next.next as int,
        arn,
    ));
}

/// A failure, and a note, is seen with all that it holds.
pub proof fn failure_and_note_show_all_they_hold(failure: BatchItemFailure, note: Note)
    ensures
        failure@ == failure.item_identifier@,
        failure.deep_view() == failure@,
        note.deep_view() == note@,
        note@.1 == note.reason,
        match note.message_id {
            Some(id) => note@.0 == Some(id@),
            None => note@.0 is None,
        },
{
}

/// What is done next for a destination is seen with all that it holds.
pub proof fn resolve_action_shows_all_it_holds(action: ResolveAction)
    ensures
        match action {
            ResolveAction::FetchPage { path, next_token } => {
                &&& action@ is FetchPage
                &&& action@->path == path@
                &&& match next_token {
                    Some(token) => action@->next_token == Some(token@),
                    None => action@->next_token is None,
                }
            },
            ResolveAction::Resolved(Some(config)) => action@ == ResolveActionView::Resolved(
                Some(config@),
            ),
            ResolveAction::Resolved(None) => action@ == ResolveActionView::Resolved(None),
            ResolveAction::Failed(ConfigError::Missing(name)) => action@
                == ResolveActionView::Failed(crate::config::ConfigErrorView::Missing(name@)),
            ResolveAction::Failed(ConfigError::Load(error)) => action@ == ResolveActionView::Failed(
                crate::config::ConfigErrorView::Load(error@),
            ),
        },
{
}

} // verus!
