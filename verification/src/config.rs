//! Per-queue replay configuration and the store that caches it.
use vstd::prelude::*;
use vstd::string::StringExecFns;

use crate::environment::Environment;
use crate::string_map::StringMap;

verus! {

/// How long loaded configurations stay fresh, in nanoseconds: one minute.
pub const CACHE_TTL_NANOS: u64 = 60_000_000_000;

/// Per-queue replay configuration, stored in SSM Parameter Store and keyed by
/// replay queue ARN.
#[derive(Debug)]
pub struct QueueConfig {
    /// ARN of the replay queue this configuration belongs to.
    pub replay_queue_arn: String,
    /// Queue to send replayed messages back to.
    pub destination_queue_url: String,
    /// Maximum replay attempts.
    pub max_attempts: Option<u32>,
    /// Multiplier for the backoff calculation, in seconds.
    pub backoff_rate_seconds: Option<u32>,
    /// Upper bound for the backoff delay, in seconds.
    pub maximum_delay_seconds: Option<u32>,
    /// Whether to add full jitter to the backoff delay.
    pub use_jitter: Option<bool>,
}

/// A [`QueueConfig`] with global defaults applied, ready for the replay logic.
#[derive(Debug)]
pub struct ResolvedQueueConfig {
    pub queue_url: String,
    pub max_attempts: u32,
    pub backoff_rate_seconds: u32,
    pub maximum_delay_seconds: u32,
    pub use_jitter: bool,
}

/// What a [`QueueConfig`] holds.
pub struct QueueConfigView {
    pub replay_queue_arn: Seq<char>,
    pub destination_queue_url: Seq<char>,
    pub max_attempts: Option<u32>,
    pub backoff_rate_seconds: Option<u32>,
    pub maximum_delay_seconds: Option<u32>,
    pub use_jitter: Option<bool>,
}

/// What a [`ResolvedQueueConfig`] holds.
pub struct ResolvedView {
    pub queue_url: Seq<char>,
    pub max_attempts: u32,
    pub backoff_rate_seconds: u32,
    pub maximum_delay_seconds: u32,
    pub use_jitter: bool,
}

impl View for QueueConfig {
    type V = QueueConfigView;

    open spec fn view(&self) -> QueueConfigView {
        QueueConfigView {
            replay_queue_arn: self.replay_queue_arn@,
            destination_queue_url: self.destination_queue_url@,
            max_attempts: self.max_attempts,
            backoff_rate_seconds: self.backoff_rate_seconds,
            maximum_delay_seconds: self.maximum_delay_seconds,
            use_jitter: self.use_jitter,
        }
    }
}

impl DeepView for QueueConfig {
    type V = QueueConfigView;

    open spec fn deep_view(&self) -> QueueConfigView {
        self@
    }
}

impl View for ResolvedQueueConfig {
    type V = ResolvedView;

    open spec fn view(&self) -> ResolvedView {
        ResolvedView {
            queue_url: self.queue_url@,
            max_attempts: self.max_attempts,
            backoff_rate_seconds: self.backoff_rate_seconds,
            maximum_delay_seconds: self.maximum_delay_seconds,
            use_jitter: self.use_jitter,
        }
    }
}

impl DeepView for ResolvedQueueConfig {
    type V = ResolvedView;

    open spec fn deep_view(&self) -> ResolvedView {
        self@
    }
}

/// A tuning value: the one that is set, else the default.
pub open spec fn tuned<T>(set: Option<T>, default: T) -> T {
    match set {
        Some(value) => value,
        None => default,
    }
}

/// A configuration with defaults in place of the tuning values that it leaves out.
pub open spec fn resolved_config(
    config: QueueConfigView,
    defaults: crate::environment::EnvironmentView,
) -> ResolvedView {
    ResolvedView {
        queue_url: config.destination_queue_url,
        max_attempts: tuned(config.max_attempts, defaults.max_attempts),
        backoff_rate_seconds: tuned(config.backoff_rate_seconds, defaults.backoff_rate_seconds),
        maximum_delay_seconds: tuned(config.maximum_delay_seconds, defaults.maximum_delay_seconds),
        use_jitter: tuned(config.use_jitter, defaults.use_jitter),
    }
}

impl Clone for QueueConfig {
    fn clone(&self) -> (copy: Self)
        ensures
            copy@ == self@,
    {
        QueueConfig {
            replay_queue_arn: self.replay_queue_arn.clone(),
            destination_queue_url: self.destination_queue_url.clone(),
            max_attempts: self.max_attempts,
            backoff_rate_seconds: self.backoff_rate_seconds,
            maximum_delay_seconds: self.maximum_delay_seconds,
            use_jitter: self.use_jitter,
        }
    }
}

impl Clone for ResolvedQueueConfig {
    fn clone(&self) -> (copy: Self)
        ensures
            copy@ == self@,
    {
        ResolvedQueueConfig {
            queue_url: self.queue_url.clone(),
            max_attempts: self.max_attempts,
            backoff_rate_seconds: self.backoff_rate_seconds,
            maximum_delay_seconds: self.maximum_delay_seconds,
            use_jitter: self.use_jitter,
        }
    }
}

impl QueueConfig {
    /// Applies the lambda's global defaults to any tuning value not set in the
    /// stored config.
    #[must_use]
    pub fn resolve(&self, defaults: &Environment) -> (resolved: ResolvedQueueConfig)
        ensures
            resolved@ == resolved_config(self@, defaults@),
            resolved.queue_url@ == self.destination_queue_url@,
            resolved.max_attempts == match self.max_attempts {
                Some(set) => set,
                None => defaults.max_attempts,
            },
            resolved.backoff_rate_seconds == match self.backoff_rate_seconds {
                Some(set) => set,
                None => defaults.backoff_rate_seconds,
            },
            resolved.maximum_delay_seconds == match self.maximum_delay_seconds {
                Some(set) => set,
                None => defaults.maximum_delay_seconds,
            },
            resolved.use_jitter == match self.use_jitter {
                Some(set) => set,
                None => defaults.use_jitter,
            },
    {
        ResolvedQueueConfig {
            queue_url: self.destination_queue_url.clone(),
            max_attempts: self.max_attempts.unwrap_or(defaults.max_attempts),
            backoff_rate_seconds: self.backoff_rate_seconds.unwrap_or(
                defaults.backoff_rate_seconds,
            ),
            maximum_delay_seconds: self.maximum_delay_seconds.unwrap_or(
                defaults.maximum_delay_seconds,
            ),
            use_jitter: self.use_jitter.unwrap_or(defaults.use_jitter),
        }
    }
}

/// Config store loading error.
#[derive(Debug)]
pub enum ConfigError {
    /// A value that is needed to look a configuration up is missing.
    Missing(&'static str),
    /// The parameters could not be read; holds the service's own description.
    Load(String),
}

/// What a [`ConfigError`] says.
pub enum ConfigErrorView {
    Missing(Seq<char>),
    Load(Seq<char>),
}

impl View for ConfigError {
    type V = ConfigErrorView;

    open spec fn view(&self) -> ConfigErrorView {
        match self {
            ConfigError::Missing(name) => ConfigErrorView::Missing(name@),
            ConfigError::Load(error) => ConfigErrorView::Load(error@),
        }
    }
}

impl ConfigError {
    /// The error as it is shown to an operator.
    pub fn message(&self) -> (shown: String)
        ensures
            shown@ == match self@ {
                ConfigErrorView::Missing(name) => "missing "@ + name,
                ConfigErrorView::Load(error) => "failed to load replay configs from SSM: "@ + error,
            },
    {
        match self {
            ConfigError::Missing(name) => "missing ".to_owned().concat(name),
            ConfigError::Load(error) => "failed to load replay configs from SSM: ".to_owned().concat(
                error.as_str(),
            ),
        }
    }
}

/// Configurations by replay queue ARN.
pub type Configs = Map<Seq<char>, QueueConfigView>;

/// Loaded configurations with the time at which they were loaded.
struct Cache {
    loaded_at: u64,
    configs: StringMap<QueueConfig>,
}

/// Loads per-queue replay configurations from SSM Parameter Store and caches
/// them for a short time so new queues are picked up without a redeploy.
///
/// The store decides and the caller acts: [`ConfigStore::config_for`] answers
/// each [`ConfigEvent`] with the [`ConfigAction`] to take. Times are readings
/// of one monotonic clock, in nanoseconds.
pub struct ConfigStore {
    path: String,
    cache: Option<Cache>,
    loading: StringMap<QueueConfig>,
    ttl: u64,
}

/// What a [`ConfigStore`] holds.
pub struct StoreView {
    /// Parameter path under which the configurations are stored.
    pub path: Seq<char>,
    /// Time of loading, and what was loaded.
    pub cache: Option<(u64, Configs)>,
    /// What the pages of a load that is under way have given so far.
    pub loading: Configs,
    /// How long a load stays fresh.
    pub ttl: u64,
}

/// What happened since the last action of a [`ConfigStore`].
#[derive(Debug)]
pub enum ConfigEvent {
    /// A configuration is asked for.
    Requested,
    /// A page of parameters came in: what each one holds, `None` for a
    /// parameter without a readable configuration, and the token of the next
    /// page if there is one.
    Page { parameters: Vec<Option<QueueConfig>>, next_token: Option<String> },
    /// A page of parameters could not be read; holds the service's description.
    LoadFailed(String),
}

/// What a [`ConfigEvent`] holds.
pub enum ConfigEventView {
    Requested,
    Page { parameters: Seq<Option<QueueConfigView>>, next_token: Option<Seq<char>> },
    LoadFailed(Seq<char>),
}

impl View for ConfigEvent {
    type V = ConfigEventView;

    open spec fn view(&self) -> ConfigEventView {
        match self {
            ConfigEvent::Requested => ConfigEventView::Requested,
            ConfigEvent::Page { parameters, next_token } => ConfigEventView::Page {
                parameters: parameters.deep_view(),
                next_token: next_token.deep_view(),
            },
            ConfigEvent::LoadFailed(error) => ConfigEventView::LoadFailed(error@),
        }
    }
}

/// What to do next for a configuration that was asked for.
#[derive(Debug)]
pub enum ConfigAction {
    /// Read a page of the parameters under a path, and of all paths below it.
    FetchPage { path: String, next_token: Option<String> },
    /// The configuration, `None` when there is none for the ARN.
    Found(Option<QueueConfig>),
    /// The configurations could not be loaded.
    Failed(ConfigError),
}

/// What a [`ConfigAction`] asks for.
pub enum ConfigActionView {
    FetchPage { path: Seq<char>, next_token: Option<Seq<char>> },
    Found(Option<QueueConfigView>),
    Failed(ConfigErrorView),
}

impl View for ConfigAction {
    type V = ConfigActionView;

    open spec fn view(&self) -> ConfigActionView {
        match self {
            ConfigAction::FetchPage { path, next_token } => ConfigActionView::FetchPage {
                path: path@,
                next_token: next_token.deep_view(),
            },
            ConfigAction::Found(config) => ConfigActionView::Found(config.deep_view()),
            ConfigAction::Failed(error) => ConfigActionView::Failed(error@),
        }
    }
}

/// Configurations with those of a page added: each under its own ARN, a later
/// one in place of an earlier one, and unreadable parameters left out.
pub open spec fn with_page(configs: Configs, parameters: Seq<Option<QueueConfigView>>) -> Configs
    decreases parameters.len(),
{
    if parameters.len() == 0 {
        configs
    } else {
        let before = with_page(configs, parameters.drop_last());
        match parameters.last() {
            Some(config) => before.insert(config.replay_queue_arn, config),
            None => before,
        }
    }
}

impl StoreView {
    /// Whether the cache was loaded less than the time to live ago.
    pub open spec fn is_fresh(self, now: u64) -> bool {
        match self.cache {
            Some((loaded_at, _)) => now - loaded_at < self.ttl && self.ttl > 0,
            None => false,
        }
    }

    /// The cached configuration for an ARN.
    pub open spec fn lookup(self, arn: Seq<char>) -> Option<QueueConfigView> {
        match self.cache {
            Some((_, configs)) => if configs.contains_key(arn) {
                Some(configs[arn])
            } else {
                None
            },
            None => None,
        }
    }

    /// The store and the action that follow an event while the configuration
    /// for an ARN is asked for.
    ///
    /// A fresh cache answers a request, and a stale one starts a load. A page
    /// adds to the load; the last page puts the load into the cache and answers.
    /// A failure drops the load and leaves the cache as it was.
    pub open spec fn after(self, arn: Seq<char>, now: u64, event: ConfigEventView) -> (
        StoreView,
        ConfigActionView,
    ) {
        match event {
            ConfigEventView::Requested => {
                let idle = StoreView { loading: Map::empty(), ..self };
                if self.is_fresh(now) {
                    (idle, ConfigActionView::Found(self.lookup(arn)))
                } else {
                    (idle, ConfigActionView::FetchPage { path: self.path, next_token: None })
                }
            },
            ConfigEventView::Page { parameters, next_token } => {
                let loaded = with_page(self.loading, parameters);
                if next_token is Some {
                    (
                        StoreView { loading: loaded, ..self },
                        ConfigActionView::FetchPage { path: self.path, next_token },
                    )
                } else {
                    let refreshed = StoreView {
                        cache: Some((now, loaded)),
                        loading: Map::empty(),
                        ..self
                    };
                    (refreshed, ConfigActionView::Found(refreshed.lookup(arn)))
                }
            },
            ConfigEventView::LoadFailed(error) => (
                StoreView { loading: Map::empty(), ..self },
                ConfigActionView::Failed(ConfigErrorView::Load(error)),
            ),
        }
    }
}

impl View for ConfigStore {
    type V = StoreView;

    closed spec fn view(&self) -> StoreView {
        StoreView {
            path: self.path@,
            cache: match self.cache {
                Some(cache) => Some((cache.loaded_at, cache.configs.deep_view())),
                None => None,
            },
            loading: self.loading.deep_view(),
            ttl: self.ttl,
        }
    }
}

impl ConfigStore {
    /// A store for the configurations under a parameter path, with nothing loaded.
    #[must_use]
    pub fn new(path: String) -> (store: Self)
        ensures
            store@ == (StoreView {
                path: path@,
                cache: None,
                loading: Map::empty(),
                ttl: CACHE_TTL_NANOS,
            }),
            store@.ttl == 60_000_000_000,
    {
        let store = ConfigStore {
            path,
            cache: None,
            loading: StringMap::new(),
            ttl: CACHE_TTL_NANOS,
        };
        assert(store@.loading =~= Map::empty());
        store
    }

    /// Answers an event while the configuration for a replay queue ARN is asked
    /// for, refreshing the cache when it is stale.
    pub fn config_for(&mut self, replay_arn: &str, now: u64, event: ConfigEvent) -> (action:
        ConfigAction)
        ensures
            (final(self)@, action@) == old(self)@.after(replay_arn@, now, event@),
    {
        match event {
            ConfigEvent::Requested => self.refresh_if_stale(replay_arn, now),
            ConfigEvent::Page { parameters, next_token } => self.refresh(
                replay_arn,
                now,
                parameters,
                next_token,
            ),
            ConfigEvent::LoadFailed(error) => {
                self.loading = StringMap::new();
                assert(self@.loading =~= Map::empty());
                ConfigAction::Failed(ConfigError::Load(error))
            },
        }
    }

    /// The cached configuration for an ARN.
    fn lookup(&self, replay_arn: &str) -> (config: Option<QueueConfig>)
        ensures
            config.deep_view() == self@.lookup(replay_arn@),
    {
        match &self.cache {
            Some(cache) => match cache.configs.get(replay_arn) {
                Some(config) => Some(config.clone()),
                None => None,
            },
            None => None,
        }
    }

    /// Answers a request from a fresh cache, and starts a load otherwise.
    fn refresh_if_stale(&mut self, replay_arn: &str, now: u64) -> (action: ConfigAction)
        ensures
            (final(self)@, action@) == old(self)@.after(
                replay_arn@,
                now,
                ConfigEventView::Requested,
            ),
    {
        self.loading = StringMap::new();
        assert(self@.loading =~= Map::empty());
        let fresh = match &self.cache {
            Some(cache) => now.saturating_sub(cache.loaded_at) < self.ttl,
            None => false,
        };
        if fresh {
            ConfigAction::Found(self.lookup(replay_arn))
        } else {
            ConfigAction::FetchPage { path: self.path.clone(), next_token: None }
        }
    }

    /// Adds a page of parameters to the load that is under way, and puts the
    /// load into the cache when it is the last page.
    fn refresh(
        &mut self,
        replay_arn: &str,
        now: u64,
        parameters: Vec<Option<QueueConfig>>,
        next_token: Option<String>,
    ) -> (action: ConfigAction)
        ensures
            (final(self)@, action@) == old(self)@.after(
                replay_arn@,
                now,
                ConfigEventView::Page {
                    parameters: parameters.deep_view(),
                    next_token: next_token.deep_view(),
                },
            ),
    {
        let mut configs: StringMap<QueueConfig> = StringMap::new();
        core::mem::swap(&mut configs, &mut self.loading);
        let ghost start = configs.deep_view();
        let ghost page = parameters.deep_view();
        assert(page.take(0) =~= Seq::empty());
        let mut i: usize = 0;
        while i < parameters.len()
            invariant
                i <= parameters@.len(),
                page == parameters.deep_view(),
                configs.deep_view() == with_page(start, page.take(i as int)),
            decreases parameters@.len() - i,
        {
            assert(page.take(i + 1).drop_last() =~= page.take(i as int));
            if let Some(config) = &parameters[i] {
                let ghost before = configs.deep_view();
                configs.insert(config.replay_queue_arn.clone(), config.clone());
                assert(configs.deep_view() =~= before.insert(config@.replay_queue_arn, config@));
            }
            i += 1;
        }
        assert(page.take(page.len() as int) =~= page);
        if next_token.is_some() {
            self.loading = configs;
            ConfigAction::FetchPage { path: self.path.clone(), next_token }
        } else {
            self.cache = Some(Cache { loaded_at: now, configs });
            assert(self@.loading =~= Map::empty());
            ConfigAction::Found(self.lookup(replay_arn))
        }
    }
}

/// Whether each configuration stands under the ARN of its own replay queue.
pub open spec fn keyed_by_arn(configs: Configs) -> bool {
    forall|arn: Seq<char>| #[trigger]
        configs.contains_key(arn) ==> configs[arn].replay_queue_arn == arn
}

impl StoreView {
    /// Whether all configurations that the store holds stand under their own ARN.
    pub open spec fn well_formed(self) -> bool {
        &&& keyed_by_arn(self.loading)
        &&& self.cache matches Some((_, configs)) ==> keyed_by_arn(configs)
    }
}

/// Loading one page after another gives what one page with all the parameters
/// would have given.
pub proof fn pages_add_up(
    configs: Configs,
    first: Seq<Option<QueueConfigView>>,
    second: Seq<Option<QueueConfigView>>,
)
    ensures
        with_page(with_page(configs, first), second) == with_page(configs, first + second),
    decreases second.len(),
{
    if second.len() == 0 {
        assert(first + second =~= first);
    } else {
        pages_add_up(configs, first, second.drop_last());
        assert((first + second).drop_last() =~= first + second.drop_last());
    }
}

/// A parameter that cannot be read does not keep the others from being loaded:
/// the page gives what it would have given without that parameter.
pub proof fn unreadable_parameter_is_skipped(
    configs: Configs,
    before: Seq<Option<QueueConfigView>>,
    after: Seq<Option<QueueConfigView>>,
)
    ensures
        with_page(configs, before.push(None) + after) == with_page(configs, before + after),
{
    pages_add_up(configs, before.push(None), after);
    pages_add_up(configs, before, after);
    assert(before.push(None::<QueueConfigView>).drop_last() =~= before);
}

/// Pages keep configurations under the ARN of their own replay queue.
pub proof fn pages_stay_keyed_by_arn(configs: Configs, parameters: Seq<Option<QueueConfigView>>)
    requires
        keyed_by_arn(configs),
    ensures
        keyed_by_arn(with_page(configs, parameters)),
    decreases parameters.len(),
{
    if parameters.len() > 0 {
        pages_stay_keyed_by_arn(configs, parameters.drop_last());
    }
}

/// Every event keeps the store well formed and its path and time to live as
/// they were, and a configuration that is found is that of the ARN asked for.
pub proof fn store_answers_for_the_arn(
    store: StoreView,
    arn: Seq<char>,
    now: u64,
    event: ConfigEventView,
)
    requires
        store.well_formed(),
    ensures
        ({
            let (next, action) = store.after(arn, now, event);
            &&& next.well_formed()
            &&& next.path == store.path
            &&& next.ttl == store.ttl
            &&& action matches ConfigActionView::Found(Some(config)) ==> config.replay_queue_arn
                == arn
        }),
{
    if let ConfigEventView::Page { parameters, next_token } = event {
        pages_stay_keyed_by_arn(store.loading, parameters);
    }
}

/// A request reads a page exactly when nothing has been loaded or the load is as
/// old as the time to live; otherwise the cache answers, for ARNs that are not in
/// it too. Either way the request leaves the cache as it was.
pub proof fn request_reads_only_when_stale(store: StoreView, arn: Seq<char>, now: u64)
    requires
        store.ttl > 0,
    ensures
        ({
            let (next, action) = store.after(arn, now, ConfigEventView::Requested);
            &&& action is FetchPage <==> match store.cache {
                None => true,
                Some((loaded_at, _)) => now - loaded_at >= store.ttl,
            }
            &&& action !is FetchPage ==> action == ConfigActionView::Found(store.lookup(arn))
            &&& next.cache == store.cache
            &&& store.loading == Map::<Seq<char>, QueueConfigView>::empty() ==> next == store
        }),
{
}

/// A load that ended less than the time to live ago answers every request
/// without another load, and the cache stays as it is; a load that ended
/// earlier answers none.
pub proof fn load_stays_fresh_for_the_ttl(
    store: StoreView,
    arn: Seq<char>,
    loaded_at: u64,
    parameters: Seq<Option<QueueConfigView>>,
    other_arn: Seq<char>,
    now: u64,
)
    requires
        loaded_at <= now,
    ensures
        ({
            let page = ConfigEventView::Page { parameters, next_token: None };
            let loaded = store.after(arn, loaded_at, page).0;
            let (next, action) = loaded.after(other_arn, now, ConfigEventView::Requested);
            &&& next.cache == Some((loaded_at, with_page(store.loading, parameters)))
            &&& now - loaded_at < store.ttl ==> action == ConfigActionView::Found(
                loaded.lookup(other_arn),
            )
            &&& now - loaded_at >= store.ttl ==> action == (ConfigActionView::FetchPage {
                path: store.path,
                next_token: None,
            })
        }),
{
}

/// A page that is not the last leaves the cache as it was, and so does a
/// failure after it, which also drops what was loaded so far.
pub proof fn failed_load_keeps_the_cache(
    store: StoreView,
    arn: Seq<char>,
    now: u64,
    parameters: Seq<Option<QueueConfigView>>,
    token: Seq<char>,
    error: Seq<char>,
)
    ensures
        ({
            let page = ConfigEventView::Page { parameters, next_token: Some(token) };
            let (loading, fetch) = store.after(arn, now, page);
            let (next, action) = loading.after(arn, now, ConfigEventView::LoadFailed(error));
            &&& loading.cache == store.cache
            &&& fetch == (ConfigActionView::FetchPage {
                path: store.path,
                next_token: Some(token),
            })
            &&& next.cache == store.cache
            &&& next.loading == Map::<Seq<char>, QueueConfigView>::empty()
            &&& action == ConfigActionView::Failed(ConfigErrorView::Load(error))
        }),
{
}

/// A tuning value that is set wins over the default, one value at a time, and the
/// destination is the one that is stored.
pub proof fn tuning_wins_over_the_defaults(
    config: QueueConfigView,
    defaults: crate::environment::EnvironmentView,
)
    ensures
        ({
            let resolved = resolved_config(config, defaults);
            &&& resolved.queue_url == config.destination_queue_url
            &&& resolved.max_attempts == match config.max_attempts {
                Some(set) => set,
                None => defaults.max_attempts,
            }
            &&& resolved.backoff_rate_seconds == match config.backoff_rate_seconds {
                Some(set) => set,
                None => defaults.backoff_rate_seconds,
            }
            &&& resolved.maximum_delay_seconds == match config.maximum_delay_seconds {
                Some(set) => set,
                None => defaults.maximum_delay_seconds,
            }
            &&& resolved.use_jitter == match config.use_jitter {
                Some(set) => set,
                None => defaults.use_jitter,
            }
        }),
{
}

/// What is loaded is what was read: the last parameter for an ARN is loaded under
/// that ARN as it stands.
pub proof fn last_parameter_for_an_arn_is_loaded(
    configs: Configs,
    parameters: Seq<Option<QueueConfigView>>,
    i: int,
)
    requires
        0 <= i < parameters.len(),
        parameters[i] is Some,
        forall|j: int|
            i < j < parameters.len() && (#[trigger] parameters[j]) is Some
                ==> parameters[j]->0.replay_queue_arn != parameters[i]->0.replay_queue_arn,
    ensures
        ({
            let arn = parameters[i]->0.replay_queue_arn;
            let loaded = with_page(configs, parameters);
            &&& loaded.contains_key(arn)
            &&& loaded[arn] == parameters[i]->0
        }),
    decreases parameters.len(),
{
    let front = parameters.drop_last();
    if i < parameters.len() - 1 {
        assert(parameters[parameters.len() - 1] is Some
            ==> parameters[parameters.len() - 1]->0.replay_queue_arn
            != parameters[i]->0.replay_queue_arn);
        assert forall|j: int|
            i < j < front.len() && (#[trigger] front[j]) is Some implies front[j]->0.replay_queue_arn
            != front[i]->0.replay_queue_arn by {
            assert(front[j] == parameters[j]);
        }
        last_parameter_for_an_arn_is_loaded(configs, front, i);
    }
}

/// Nothing is loaded that was not read: an ARN of no parameter keeps what was
/// there for it before.
pub proof fn arn_of_no_parameter_is_left_alone(
    configs: Configs,
    parameters: Seq<Option<QueueConfigView>>,
    arn: Seq<char>,
)
    requires
        forall|j: int|
            0 <= j < parameters.len() && (#[trigger] parameters[j]) is Some
                ==> parameters[j]->0.replay_queue_arn != arn,
    ensures
        ({
            let loaded = with_page(configs, parameters);
            &&& loaded.contains_key(arn) <==> configs.contains_key(arn)
            &&& configs.contains_key(arn) ==> loaded[arn] == configs[arn]
        }),
    decreases parameters.len(),
{
    if parameters.len() > 0 {
        let front = parameters.drop_last();
        assert(parameters[parameters.len() - 1] is Some
            ==> parameters[parameters.len() - 1]->0.replay_queue_arn != arn);
        assert forall|j: int| 0 <= j < front.len() && (#[trigger] front[j]) is Some implies front[j]
            ->0.replay_queue_arn != arn by {
            assert(front[j] == parameters[j]);
        }
        arn_of_no_parameter_is_left_alone(configs, front, arn);
    }
}

/// After a load the store answers for an ARN with the last parameter that was
/// read for it, in all its fields, at once and as long as the load is fresh.
pub proof fn load_answers_with_the_last_parameter(
    store: StoreView,
    parameters: Seq<Option<QueueConfigView>>,
    i: int,
    loaded_at: u64,
    asked: Seq<char>,
    now: u64,
)
    requires
        0 <= i < parameters.len(),
        parameters[i] is Some,
        forall|j: int|
            i < j < parameters.len() && (#[trigger] parameters[j]) is Some
                ==> parameters[j]->0.replay_queue_arn != parameters[i]->0.replay_queue_arn,
        loaded_at <= now,
        now - loaded_at < store.ttl,
    ensures
        ({
            let arn = parameters[i]->0.replay_queue_arn;
            let page = ConfigEventView::Page { parameters, next_token: None };
            let found = ConfigActionView::Found(parameters[i]);
            &&& store.after(arn, loaded_at, page).1 == found
            &&& store.after(asked, loaded_at, page).0.after(
                arn,
                now,
                ConfigEventView::Requested,
            ).1 == found
        }),
{
    last_parameter_for_an_arn_is_loaded(store.loading, parameters, i);
}

/// After a load the store has no answer for an ARN that neither this page nor an
/// earlier one of the load had a parameter for.
pub proof fn load_has_no_answer_without_a_parameter(
    store: StoreView,
    parameters: Seq<Option<QueueConfigView>>,
    arn: Seq<char>,
    loaded_at: u64,
    asked: Seq<char>,
    now: u64,
)
    requires
        forall|j: int|
            0 <= j < parameters.len() && (#[trigger] parameters[j]) is Some
                ==> parameters[j]->0.replay_queue_arn != arn,
        !store.loading.contains_key(arn),
        loaded_at <= now,
        now - loaded_at < store.ttl,
    ensures
        ({
            let page = ConfigEventView::Page { parameters, next_token: None };
            let none = ConfigActionView::Found(None);
            &&& store.after(arn, loaded_at, page).1 == none
            &&& store.after(asked, loaded_at, page).0.after(
                arn,
                now,
                ConfigEventView::Requested,
            ).1 == none
        }),
{
    arn_of_no_parameter_is_left_alone(store.loading, parameters, arn);
}

/// A parameter of an earlier page is found after the last page, unless a later
/// parameter is for the same ARN.
pub proof fn earlier_page_counts_too(
    store: StoreView,
    first: Seq<Option<QueueConfigView>>,
    token: Seq<char>,
    second: Seq<Option<QueueConfigView>>,
    i: int,
    asked: Seq<char>,
    now: u64,
)
    requires
        0 <= i < first.len(),
        first[i] is Some,
        forall|j: int|
            i < j < first.len() && (#[trigger] first[j]) is Some ==> first[j]->0.replay_queue_arn
                != first[i]->0.replay_queue_arn,
        forall|j: int|
            0 <= j < second.len() && (#[trigger] second[j]) is Some ==> second[j]->0.replay_queue_arn
                != first[i]->0.replay_queue_arn,
    ensures
        ({
            let page = ConfigEventView::Page { parameters: first, next_token: Some(token) };
            let last = ConfigEventView::Page { parameters: second, next_token: None };
            let (loading, action) = store.after(asked, now, page);
            &&& action == (ConfigActionView::FetchPage {
                path: store.path,
                next_token: Some(token),
            })
            &&& loading.after(first[i]->0.replay_queue_arn, now, last).1 == ConfigActionView::Found(
                first[i],
            )
        }),
{
    last_parameter_for_an_arn_is_loaded(store.loading, first, i);
    arn_of_no_parameter_is_left_alone(
        with_page(store.loading, first),
        second,
        first[i]->0.replay_queue_arn,
    );
}

/// A new load starts from nothing: a request drops what an unfinished load had.
pub proof fn load_starts_from_nothing(store: StoreView, arn: Seq<char>, now: u64)
    ensures
        store.after(arn, now, ConfigEventView::Requested).0.loading == Map::<
            Seq<char>,
            QueueConfigView,
        >::empty(),
{
}

/// A configuration is seen with all that it holds.
pub proof fn queue_config_shows_all_it_holds(config: QueueConfig)
    ensures
        config@.replay_queue_arn == config.replay_queue_arn@,
        config@.destination_queue_url == config.destination_queue_url@,
        config@.max_attempts == config.max_attempts,
        config@.backoff_rate_seconds == config.backoff_rate_seconds,
        config@.maximum_delay_seconds == config.maximum_delay_seconds,
        config@.use_jitter == config.use_jitter,
        config.deep_view() == config@,
{
}

/// A resolved configuration is seen with all that it holds.
pub proof fn resolved_config_shows_all_it_holds(config: ResolvedQueueConfig)
    ensures
        config@.queue_url == config.queue_url@,
        config@.max_attempts == config.max_attempts,
        config@.backoff_rate_seconds == config.backoff_rate_seconds,
        config@.maximum_delay_seconds == config.maximum_delay_seconds,
        config@.use_jitter == config.use_jitter,
        config.deep_view() == config@,
{
}

/// An event is seen with all that it holds.
pub proof fn config_event_shows_all_it_holds(event: ConfigEvent)
    ensures
        match event {
            ConfigEvent::Requested => event@ == ConfigEventView::Requested,
            ConfigEvent::Page { parameters, next_token } => {
                &&& event@ is Page
                &&& event@->parameters.len() == parameters@.len()
                &&& forall|i: int|
                    0 <= i < parameters@.len() ==> match parameters@[i] {
                        Some(config) => (#[trigger] event@->parameters[i]) == Some(config@),
                        None => event@->parameters[i] is None,
                    }
                &&& match next_token {
                    Some(token) => event@->next_token == Some(token@),
                    None => event@->next_token is None,
                }
            },
            ConfigEvent::LoadFailed(error) => event@ == ConfigEventView::LoadFailed(error@),
        },
{
}

/// An action is seen with all that it holds.
pub proof fn config_action_shows_all_it_holds(action: ConfigAction)
    ensures
        match action {
            ConfigAction::FetchPage { path, next_token } => {
                &&& action@ is FetchPage
                &&& action@->path == path@
                &&& match next_token {
                    Some(token) => action@->next_token == Some(token@),
                    None => action@->next_token is None,
                }
            },
            ConfigAction::Found(Some(config)) => action@ == ConfigActionView::Found(Some(config@)),
            ConfigAction::Found(None) => action@ == ConfigActionView::Found(None),
            ConfigAction::Failed(ConfigError::Missing(name)) => action@ == ConfigActionView::Failed(
                ConfigErrorView::Missing(name@),
            ),
            ConfigAction::Failed(ConfigError::Load(error)) => action@ == ConfigActionView::Failed(
                ConfigErrorView::Load(error@),
            ),
        },
{
}

/// A cached configuration is found under its ARN as it stands, and nothing is
/// found for another ARN or without a cache.
pub proof fn lookup_reads_the_cache(store: StoreView, arn: Seq<char>)
    ensures
        store.lookup(arn) == match store.cache {
            None => None,
            Some((_, configs)) => if configs.contains_key(arn) {
                Some(configs[arn])
            } else {
                None
            },
        },
{
}

} // verus!
