//! Background tile fetching.
//!
//! Workers take tile requests off a shared queue, serve them from the disk
//! cache when possible, otherwise download them with `curl`, and send the raw
//! bytes back. The [`Downloader`] holds what the workers share and decides
//! each of their steps; the steps themselves (the look-up in the cache, the
//! download, reading a key) are the caller's.

use crate::cache::Cache;
#[allow(unused_imports)]
use crate::cache::CacheLimits;
use crate::config;
use crate::config::{ApiKeySource, CachePolicy, Provider};
#[allow(unused_imports)]
use crate::config::{HeaderModel, KeySourceModel, ProviderModel};
use crate::keys;
use crate::keys::{KeyCache, KeyState};
#[allow(unused_imports)]
use crate::keys::{KeyModel, KeyTable};
use crate::paths;
use crate::paths::{Environment, FsPath};
use crate::text;
use crate::tile;
use crate::tile::TileId;
use std::collections::VecDeque;
use vstd::prelude::*;

verus! {

/// How many workers fetch tiles.
pub const NUM_WORKERS: usize = 4;

/// Identifies a tile and the provider it belongs to.
#[derive(Debug, Clone, Copy, PartialEq, Eq, Hash, Structural)]
pub struct TileKey {
    pub provider: usize,
    pub tile: TileId,
}

/// A finished request. `data` is `None` when the fetch failed.
#[derive(Debug)]
pub struct TileResult {
    pub key: TileKey,
    pub data: Option<Vec<u8>>,
}

/// The requests that no worker has taken yet.
///
/// Serves the most recently pushed tile first, so that a freshly panned or
/// zoomed view comes ahead of requests left over from where the user just
/// was.
pub struct WorkQueue {
    items: VecDeque<TileKey>,
}

impl View for WorkQueue {
    type V = Seq<TileKey>;

    closed spec fn view(&self) -> Seq<TileKey> {
        self.items@
    }
}

impl WorkQueue {
    /// An empty queue.
    pub fn new() -> (r: Self)
        ensures
            r@ == Seq::<TileKey>::empty(),
    {
        WorkQueue { items: VecDeque::new() }
    }

    /// Adds a request.
    pub fn push(&mut self, key: TileKey)
        ensures
            final(self)@ == old(self)@.push(key),
    {
        self.items.push_back(key);
    }

    /// Takes the newest request, or `None` if there is none to take.
    pub fn pop(&mut self) -> (r: Option<TileKey>)
        ensures
            old(self)@.len() == 0 ==> r is None && final(self)@ == old(self)@,
            old(self)@.len() > 0 ==> r == Some(old(self)@.last()) && final(self)@ == old(
                self,
            )@.drop_last(),
    {
        let r = self.items.pop_back();
        proof {
            if old(self)@.len() > 0 {
                assert(self@ =~= old(self)@.drop_last());
            }
        }
        r
    }

    /// Drops every request.
    pub fn clear(&mut self)
        ensures
            final(self)@ == Seq::<TileKey>::empty(),
    {
        self.items.clear();
    }
}

/// The name under which tiles are requested.
pub open spec fn agent_name(version: Seq<char>) -> Seq<char> {
    "WaltzGPS/"@ + version + " (map viewer)"@
}

/// The name under which tiles are requested.
pub fn user_agent(version: &str) -> (r: String)
    ensures
        r@ == agent_name(version@),
{
    let mut r = "WaltzGPS/".to_owned();
    r.append(version);
    r.append(" (map viewer)");
    r
}

/// The arguments that come before a provider's headers: silent, but with
/// errors shown, following redirects, giving up after twenty seconds.
pub open spec fn fixed_arguments(agent: Seq<char>) -> Seq<Seq<char>> {
    seq!["-s"@, "-S"@, "-L"@, "--max-time"@, "20"@, "-A"@, agent]
}

/// The arguments for a row of headers: each behind its own `-H`.
pub open spec fn header_arguments(headers: Seq<HeaderModel>) -> Seq<Seq<char>>
    decreases headers.len(),
{
    if headers.len() == 0 {
        Seq::empty()
    } else {
        header_arguments(headers.drop_last()) + seq![
            "-H"@,
            headers.last().name + ": "@ + headers.last().value,
        ]
    }
}

/// The arguments of a download. The address stands behind `--`, so that it
/// is never taken for an option.
pub open spec fn curl_arguments(
    provider: ProviderModel,
    tile: TileId,
    api_key: Option<Seq<char>>,
    agent: Seq<char>,
) -> Seq<Seq<char>> {
    fixed_arguments(agent) + header_arguments(provider.headers) + seq![
        "--"@,
        tile::tile_url_with_key(tile, provider, api_key),
    ]
}

/// The values of a row of strings.
pub open spec fn string_views(s: Seq<String>) -> Seq<Seq<char>> {
    s.map_values(|t: String| t@)
}

/// Adds an argument.
fn push_argument(args: &mut Vec<String>, arg: String)
    ensures
        string_views(final(args)@) == string_views(old(args)@).push(arg@),
{
    args.push(arg);
    proof {
        assert(string_views(args@) =~= string_views(old(args)@).push(arg@));
    }
}

/// The arguments with which `curl` downloads a tile.
pub fn curl_args(provider: &Provider, tile: TileId, api_key: Option<&str>, agent: &str) -> (r: Vec<
    String,
>)
    requires
        tile::has_row(tile, provider.tms),
    ensures
        string_views(r@) == curl_arguments(
            provider@,
            tile,
            match api_key {
                Some(key) => Some(key@),
                None => None,
            },
            agent@,
        ),
{
    let mut args: Vec<String> = Vec::new();
    proof {
        assert(string_views(args@) =~= Seq::empty());
    }
    push_argument(&mut args, "-s".to_owned());
    push_argument(&mut args, "-S".to_owned());
    push_argument(&mut args, "-L".to_owned());
    push_argument(&mut args, "--max-time".to_owned());
    push_argument(&mut args, "20".to_owned());
    push_argument(&mut args, "-A".to_owned());
    push_argument(&mut args, agent.to_owned());
    proof {
        assert(string_views(args@) =~= fixed_arguments(agent@));
        assert(provider@.headers.take(0) =~= Seq::empty());
        assert(fixed_arguments(agent@) + header_arguments(provider@.headers.take(0))
            =~= fixed_arguments(agent@));
    }
    let mut i: usize = 0;
    while i < provider.headers.len()
        invariant
            i <= provider.headers@.len(),
            string_views(args@) == fixed_arguments(agent@) + header_arguments(
                provider@.headers.take(i as int),
            ),
        decreases provider.headers@.len() - i,
    {
        let ghost before = string_views(args@);
        let mut line = provider.headers[i].name.clone();
        line.append(": ");
        line.append(provider.headers[i].value.as_str());
        push_argument(&mut args, "-H".to_owned());
        push_argument(&mut args, line);
        proof {
            let h = provider@.headers;
            assert(h.take(i + 1).drop_last() =~= h.take(i as int));
            assert(h.take(i + 1).last() == provider.headers@[i as int]@);
            assert(string_views(args@) =~= fixed_arguments(agent@) + header_arguments(
                h.take(i + 1),
            ));
        }
        i += 1;
    }
    proof {
        assert(provider@.headers.take(i as int) =~= provider@.headers);
    }
    let ghost before = string_views(args@);
    push_argument(&mut args, "--".to_owned());
    push_argument(&mut args, tile.url_with_key(provider, api_key));
    proof {
        assert(string_views(args@) =~= before + seq![
            "--"@,
            tile::tile_url_with_key(
                tile,
                provider@,
                match api_key {
                    Some(key) => Some(key@),
                    None => None,
                },
            ),
        ]);
    }
    args
}

/// What a download gave: its output, if it succeeded and printed anything.
pub fn downloaded(success: bool, stdout: Vec<u8>) -> (r: Option<Vec<u8>>)
    ensures
        r == (if success && stdout@.len() > 0 {
            Some(stdout)
        } else {
            None
        }),
{
    if !success || stdout.len() == 0 {
        None
    } else {
        Some(stdout)
    }
}

/// A tile in words.
pub open spec fn tile_in_words(tile: TileId) -> Seq<char> {
    "TileId { z: "@ + text::decimal(tile.z as nat) + ", x: "@ + text::decimal(tile.x as nat)
        + ", y: "@ + text::decimal(tile.y as nat) + " }"@
}

/// The report of a failed download. It names the template and not the
/// address, so that an API key never ends up in a log.
pub fn failure_message(tile: TileId, provider: &Provider) -> (r: String)
    ensures
        r@ == "tile "@ + tile_in_words(tile) + " fetch failed for "@ + provider@.url,
{
    let mut r = "tile TileId { z: ".to_owned();
    r.append(text::decimal_string(tile.z as u64).as_str());
    r.append(", x: ");
    r.append(text::decimal_string(tile.x as u64).as_str());
    r.append(", y: ");
    r.append(text::decimal_string(tile.y as u64).as_str());
    r.append(" } fetch failed for ");
    r.append(provider.url.as_str());
    proof {
        reveal_strlit("tile TileId { z: ");
        reveal_strlit("tile ");
        reveal_strlit("TileId { z: ");
        reveal_strlit(" } fetch failed for ");
        reveal_strlit(" }");
        reveal_strlit(" fetch failed for ");
        assert("tile TileId { z: "@ =~= "tile "@ + "TileId { z: "@);
        assert(" } fetch failed for "@ =~= " }"@ + " fetch failed for "@);
        assert(r@ =~= "tile "@ + tile_in_words(tile) + " fetch failed for "@ + provider@.url);
    }
    r
}

/// What a worker does next.
#[derive(Debug)]
pub enum WorkerStep {
    /// Hand the result to the user interface.
    Deliver(TileResult),
    /// Look the tile up in the cache. The provider is the one that the list
    /// with this number has at the tile's index.
    LookUp { key: TileKey, provider: Provider, list: u64 },
    /// Download the tile, with this key if the template asks for one.
    Fetch { key: TileKey, provider: Provider, api_key: Option<String> },
}

/// The value of a [`WorkerStep`].
pub enum StepModel {
    Deliver { key: TileKey, data: Option<Seq<u8>> },
    LookUp { key: TileKey, provider: ProviderModel, list: nat },
    Fetch { key: TileKey, provider: ProviderModel, api_key: Option<Seq<char>> },
}

/// What optional bytes hold, if they are there.
pub open spec fn bytes_view(b: Option<Vec<u8>>) -> Option<Seq<u8>> {
    match b {
        Some(bytes) => Some(bytes@),
        None => None,
    }
}

impl View for WorkerStep {
    type V = StepModel;

    open spec fn view(&self) -> StepModel {
        match self {
            WorkerStep::Deliver(result) => StepModel::Deliver {
                key: result.key,
                data: bytes_view(result.data),
            },
            WorkerStep::LookUp { key, provider, list } => StepModel::LookUp {
                key: *key,
                provider: provider@,
                list: *list as nat,
            },
            WorkerStep::Fetch { key, provider, api_key } => StepModel::Fetch {
                key: *key,
                provider: provider@,
                api_key: config::text_view(*api_key),
            },
        }
    }
}

/// The first step of a request: look the tile up, or give up if its provider
/// is gone.
pub open spec fn first_step(
    key: TileKey,
    providers: Seq<ProviderModel>,
    list: nat,
) -> StepModel {
    if key.provider < providers.len() {
        StepModel::LookUp { key, provider: providers[key.provider as int], list }
    } else {
        StepModel::Deliver { key, data: None }
    }
}

/// The step after a look-up. A tile found in the cache is delivered whatever
/// the state of the API key; without a key that is needed nothing is
/// downloaded.
pub open spec fn step_after_lookup(
    key: TileKey,
    provider: ProviderModel,
    cached: Option<Seq<u8>>,
    state: KeyModel,
) -> StepModel {
    match cached {
        Some(bytes) => StepModel::Deliver { key, data: Some(bytes) },
        None => match state {
            KeyModel::Failed => StepModel::Deliver { key, data: None },
            KeyModel::NotNeeded => StepModel::Fetch { key, provider, api_key: None },
            KeyModel::Ready(k) => StepModel::Fetch { key, provider, api_key: Some(k) },
        },
    }
}

/// A key source to read on a thread of its own.
#[derive(Debug)]
pub struct KeyJob {
    /// The index of the provider that waits for it.
    pub idx: usize,
    /// The ticket to hand back with the answer.
    pub ticket: u64,
    pub source: ApiKeySource,
}

/// The value of a [`KeyJob`].
pub struct JobModel {
    pub idx: usize,
    pub ticket: nat,
    pub source: KeySourceModel,
}

impl View for KeyJob {
    type V = JobModel;

    open spec fn view(&self) -> JobModel {
        JobModel { idx: self.idx, ticket: self.ticket as nat, source: self.source@ }
    }
}

/// What an optional job holds, if it is there.
pub open spec fn job_view(job: Option<KeyJob>) -> Option<JobModel> {
    match job {
        Some(j) => Some(j@),
        None => None,
    }
}

/// What the workers and the user interface share.
pub struct Downloader {
    queue: WorkQueue,
    providers: Vec<Provider>,
    list: u64,
    key_cache: KeyCache,
    results_taken: bool,
    cache: Cache,
}

/// The value of a [`Downloader`].
pub struct DownloaderModel {
    /// The requests that are waiting, the newest last.
    pub queue: Seq<TileKey>,
    pub providers: Seq<ProviderModel>,
    /// The number of the provider list. Each list has a number of its own.
    pub list: nat,
    /// Memoized API keys by provider index.
    pub keys: KeyTable,
    /// Whether the user interface has claimed the results.
    pub results_taken: bool,
    pub cache: CacheLimits,
}

impl View for Downloader {
    type V = DownloaderModel;

    closed spec fn view(&self) -> DownloaderModel {
        DownloaderModel {
            queue: self.queue@,
            providers: config::provider_views(self.providers@),
            list: self.list as nat,
            keys: self.key_cache@,
            results_taken: self.results_taken,
            cache: self.cache@,
        }
    }
}

/// A downloader with nothing to do.
pub open spec fn idle(providers: Seq<ProviderModel>, cache: CacheLimits) -> DownloaderModel {
    DownloaderModel {
        queue: Seq::empty(),
        providers,
        list: 0,
        keys: keys::fresh_table(),
        results_taken: false,
        cache,
    }
}

/// A downloader with another provider list. Every memoized key is forgotten,
/// and no reading that is under way is waited for any more.
pub open spec fn with_list(m: DownloaderModel, providers: Seq<ProviderModel>) -> DownloaderModel {
    DownloaderModel { providers, list: m.list + 1, keys: keys::forgotten(m.keys), ..m }
}

/// A downloader after the end of a reading.
pub open spec fn with_reading(
    m: DownloaderModel,
    idx: usize,
    ticket: nat,
    resolved: Option<Seq<char>>,
    now: u128,
) -> DownloaderModel {
    DownloaderModel {
        keys: keys::after_reading(m.keys, idx, ticket, keys::reading_outcome(resolved, now)),
        ..m
    }
}

/// How a worker goes on after a look-up.
pub struct LookupModel {
    /// What it does next.
    pub step: StepModel,
    /// The key source that has to be read, if one has to be.
    pub job: Option<JobModel>,
    /// The downloader afterwards.
    pub after: DownloaderModel,
}

/// Whether the list with this number is in force and has a provider for the
/// tile. Only then do the keys in memory belong to the tile's provider.
pub open spec fn in_force(m: DownloaderModel, key: TileKey, list: nat) -> bool {
    list == m.list && key.provider < m.providers.len()
}

/// How a worker goes on after a look-up with the provider that the list with
/// the given number had for the tile. If that list has been replaced since,
/// the tile is still downloaded if its provider needs no key or has a literal
/// one; a key that has to be read is not there, since those in memory are of
/// other providers.
pub open spec fn looked_up(
    m: DownloaderModel,
    key: TileKey,
    provider: ProviderModel,
    list: nat,
    cached: Option<Seq<u8>>,
    now: u128,
) -> LookupModel {
    if cached is Some {
        LookupModel { step: StepModel::Deliver { key, data: cached }, job: None, after: m }
    } else if !in_force(m, key, list) {
        LookupModel {
            step: step_after_lookup(key, provider, cached, keys::own_key(provider.api_key_source)),
            job: None,
            after: m,
        }
    } else {
        let listed = m.providers[key.provider as int];
        let answer = keys::resolution(m.keys, key.provider, listed.api_key_source, now);
        LookupModel {
            step: step_after_lookup(key, listed, cached, answer.state),
            job: match answer.start {
                Some(ticket) => Some(
                    JobModel { idx: key.provider, ticket, source: listed.api_key_source->0 },
                ),
                None => None,
            },
            after: DownloaderModel { keys: answer.table, ..m },
        }
    }
}

impl Downloader {
    /// A downloader with nothing to do.
    pub fn new(providers: Vec<Provider>, cache: Cache) -> (r: Downloader)
        ensures
            r@ == idle(config::provider_views(providers@), cache@),
    {
        Downloader {
            queue: WorkQueue::new(),
            providers,
            list: 0,
            key_cache: KeyCache::new(),
            results_taken: false,
            cache,
        }
    }

    /// Enqueues a tile for fetching.
    pub fn request(&mut self, key: TileKey)
        ensures
            final(self)@ == (DownloaderModel { queue: old(self)@.queue.push(key), ..old(self)@ }),
    {
        self.queue.push(key);
    }

    /// The limits of the disk cache in force.
    pub fn cache(&self) -> (r: Cache)
        ensures
            r@ == self@.cache,
    {
        self.cache.snapshot()
    }

    /// Replaces the policy of the disk cache.
    pub fn update_cache_policy(&mut self, policy: &CachePolicy, env: &Environment)
        requires
            crate::cache::countable_age(policy@),
        ensures
            final(self)@ == (DownloaderModel {
                cache: crate::cache::limits_of(policy@, *env),
                ..old(self)@
            }),
    {
        self.cache.update_policy(policy, env);
    }

    /// Whether there is a number for another provider list and a ticket for
    /// another reading.
    pub fn has_numbers(&self) -> (r: bool)
        ensures
            r == (self@.list < u64::MAX && self@.keys.next_ticket < u64::MAX),
    {
        self.list < u64::MAX && self.key_cache.has_ticket()
    }

    /// Replaces the provider list. Every memoized key is forgotten, since the
    /// indices and sources may have changed, and so is every reading that is
    /// under way: its answer will not be taken.
    pub fn set_providers(&mut self, providers: Vec<Provider>)
        requires
            old(self)@.list < u64::MAX,
        ensures
            final(self)@ == with_list(old(self)@, config::provider_views(providers@)),
    {
        self.providers = providers;
        self.list = self.list + 1;
        self.key_cache.clear();
    }

    /// Drops every request that no worker has taken.
    pub fn clear_queue(&mut self)
        ensures
            final(self)@ == (DownloaderModel { queue: Seq::empty(), ..old(self)@ }),
    {
        self.queue.clear();
    }

    /// Claims the results, which can be done only once.
    pub fn take_results(&mut self)
        requires
            !old(self)@.results_taken,
        ensures
            final(self)@ == (DownloaderModel { results_taken: true, ..old(self)@ }),
    {
        self.results_taken = true;
    }

    /// Whether the results have been claimed.
    pub fn results_taken(&self) -> (r: bool)
        ensures
            r == self@.results_taken,
    {
        self.results_taken
    }

    /// Takes the newest request off the queue and begins it. `None` means
    /// that the worker has to wait for a request.
    pub fn next_step(&mut self) -> (r: Option<WorkerStep>)
        ensures
            old(self)@.queue.len() == 0 ==> r is None && final(self)@ == old(self)@,
            old(self)@.queue.len() > 0 ==> r is Some && r->0@ == first_step(
                old(self)@.queue.last(),
                old(self)@.providers,
                old(self)@.list,
            ) && final(self)@ == (DownloaderModel {
                queue: old(self)@.queue.drop_last(),
                ..old(self)@
            }),
    {
        match self.queue.pop() {
            None => None,
            Some(key) => {
                if key.provider < self.providers.len() {
                    let provider = self.providers[key.provider].clone();
                    Some(WorkerStep::LookUp { key, provider, list: self.list })
                } else {
                    Some(WorkerStep::Deliver(TileResult { key, data: None }))
                }
            },
        }
    }

    /// Goes on after a look-up in the cache with the provider that the list
    /// with the given number had for the tile. If there is a job in the
    /// answer, its key source has to be read on a thread of its own, and
    /// [`Downloader::finish_key`] told what came out.
    pub fn after_lookup(
        &mut self,
        key: TileKey,
        provider: Provider,
        list: u64,
        cached: Option<Vec<u8>>,
        now: u128,
    ) -> (r: (WorkerStep, Option<KeyJob>))
        requires
            old(self)@.keys.next_ticket < u64::MAX,
        ensures
            ({
                let answer = looked_up(
                    old(self)@,
                    key,
                    provider@,
                    list as nat,
                    bytes_view(cached),
                    now,
                );
                &&& r.0@ == answer.step
                &&& job_view(r.1) == answer.job
                &&& final(self)@ == answer.after
            }),
    {
        if cached.is_some() {
            return (WorkerStep::Deliver(TileResult { key, data: cached }), None);
        }
        if list != self.list || key.provider >= self.providers.len() {
            let state = keys::key_without_reading(&provider);
            return (step_for_key(key, provider, state), None);
        }
        let listed = self.providers[key.provider].clone();
        proof {
            assert(self@.providers[key.provider as int] == self.providers@[key.provider as int]@);
        }
        let (state, start) = keys::resolve_key(&mut self.key_cache, key.provider, &listed, now);
        let job = match (start, &listed.api_key_source) {
            (Some(ticket), Some(source)) => Some(
                KeyJob { idx: key.provider, ticket, source: source.clone() },
            ),
            _ => None,
        };
        (step_for_key(key, listed, state), job)
    }

    /// Records what reading a provider's key source gave, if that reading is
    /// still waited for.
    pub fn finish_key(&mut self, idx: usize, ticket: u64, resolved: Option<String>, now: u128)
        ensures
            final(self)@ == with_reading(
                old(self)@,
                idx,
                ticket as nat,
                config::text_view(resolved),
                now,
            ),
    {
        keys::finish_key(&mut self.key_cache, idx, ticket, resolved, now);
    }
}

/// The step for a tile that is not in the cache.
fn step_for_key(key: TileKey, provider: Provider, state: KeyState) -> (r: WorkerStep)
    ensures
        r@ == step_after_lookup(key, provider@, None, state@),
{
    match state {
        KeyState::Failed => WorkerStep::Deliver(TileResult { key, data: None }),
        KeyState::NotNeeded => WorkerStep::Fetch { key, provider, api_key: None },
        KeyState::Ready(k) => WorkerStep::Fetch { key, provider, api_key: Some(k) },
    }
}

/// The end of a download: the result to deliver and, if there are bytes in
/// it, the file of the cache in which they are to be stored first.
pub fn fetch_and_cache(
    cache: &Cache,
    provider: &Provider,
    key: TileKey,
    fetched: Option<Vec<u8>>,
) -> (r: (TileResult, Option<FsPath>))
    ensures
        r.0.key == key,
        r.0.data == fetched,
        paths::path_view(r.1) == (match fetched {
            Some(_) => Some(
                crate::cache::tile_file(cache@.dir, provider@.name, key.tile),
            ),
            None => None,
        }),
{
    let file = match &fetched {
        Some(_) => Some(cache.put(provider.name.as_str(), key.tile)),
        None => None,
    };
    (TileResult { key, data: fetched }, file)
}

/// The order in which a queue is served if nothing more comes in.
pub open spec fn served(queue: Seq<TileKey>) -> Seq<TileKey>
    decreases queue.len(),
{
    if queue.len() == 0 {
        Seq::empty()
    } else {
        seq![queue.last()] + served(queue.drop_last())
    }
}

/// The newest request is served first and the oldest last: of any two
/// requests, the later one comes before the earlier one.
pub proof fn law_newest_is_served_first(queue: Seq<TileKey>)
    ensures
        served(queue) == queue.reverse(),
        forall|key: TileKey| #[trigger] served(queue.push(key)) == seq![key] + served(queue),
    decreases queue.len(),
{
    if queue.len() > 0 {
        law_newest_is_served_first(queue.drop_last());
    }
    assert(served(queue) =~= queue.reverse());
    assert forall|key: TileKey| #[trigger] served(queue.push(key)) == seq![key] + served(
        queue,
    ) by {
        assert(queue.push(key).drop_last() =~= queue);
    }
}

/// A tile that is in the cache is delivered whatever the state of its
/// provider's key.
pub proof fn law_cached_tile_needs_no_key(
    key: TileKey,
    provider: ProviderModel,
    bytes: Seq<u8>,
    state: KeyModel,
)
    ensures
        step_after_lookup(key, provider, Some(bytes), state) == (StepModel::Deliver {
            key,
            data: Some(bytes),
        }),
{
}

/// A tile whose provider has a key source is never downloaded without a key,
/// and one whose provider has none is always downloaded, without a key.
pub proof fn law_no_download_without_key(
    key: TileKey,
    provider: ProviderModel,
    memo: KeyTable,
    now: u128,
)
    ensures
        ({
            let state = keys::resolution(memo, key.provider, provider.api_key_source, now).state;
            let step = step_after_lookup(key, provider, None, state);
            &&& provider.api_key_source is None ==> step == (StepModel::Fetch {
                key,
                provider,
                api_key: None,
            })
            &&& provider.api_key_source is Some ==> match step {
                StepModel::Fetch { api_key, .. } => api_key is Some,
                StepModel::Deliver { key: answered, data } => answered == key && data is None,
                StepModel::LookUp { .. } => false,
            }
        }),
{
}

/// Each request is answered for the tile it asked for, at every step.
pub proof fn law_step_is_for_its_request(
    m: DownloaderModel,
    key: TileKey,
    provider: ProviderModel,
    list: nat,
    cached: Option<Seq<u8>>,
    now: u128,
)
    ensures
        step_key(first_step(key, m.providers, m.list)) == key,
        first_step(key, m.providers, m.list) is LookUp <==> key.provider < m.providers.len(),
        step_key(looked_up(m, key, provider, list, cached, now).step) == key,
{
}

/// The request that a step belongs to.
pub open spec fn step_key(step: StepModel) -> TileKey {
    match step {
        StepModel::Deliver { key, .. } => key,
        StepModel::LookUp { key, .. } => key,
        StepModel::Fetch { key, .. } => key,
    }
}

/// The address of a tile is the last argument of its download, directly
/// behind the `--` that ends the options, however many headers there are.
pub proof fn law_address_comes_last(
    provider: ProviderModel,
    tile: TileId,
    api_key: Option<Seq<char>>,
    agent: Seq<char>,
)
    ensures
        ({
            let args = curl_arguments(provider, tile, api_key, agent);
            &&& args.len() == 9 + 2 * provider.headers.len()
            &&& args[args.len() - 2] == "--"@
            &&& args.last() == tile::tile_url_with_key(tile, provider, api_key)
        }),
{
    lemma_header_arguments(provider.headers);
}

/// Each header takes two arguments.
proof fn lemma_header_arguments(headers: Seq<HeaderModel>)
    ensures
        header_arguments(headers).len() == 2 * headers.len(),
    decreases headers.len(),
{
    if headers.len() > 0 {
        lemma_header_arguments(headers.drop_last());
    }
}

/// Each header of a provider is sent, in the order in which they are listed.
pub proof fn law_headers_are_sent(
    provider: ProviderModel,
    tile: TileId,
    api_key: Option<Seq<char>>,
    agent: Seq<char>,
    i: int,
)
    requires
        0 <= i < provider.headers.len(),
    ensures
        ({
            let args = curl_arguments(provider, tile, api_key, agent);
            let h = provider.headers[i];
            &&& args[7 + 2 * i] == "-H"@
            &&& args[8 + 2 * i] == h.name + ": "@ + h.value
        }),
{
    lemma_header_arguments(provider.headers);
    lemma_header_at(provider.headers, i);
}

/// Where the arguments of a header stand.
proof fn lemma_header_at(headers: Seq<HeaderModel>, i: int)
    requires
        0 <= i < headers.len(),
    ensures
        header_arguments(headers)[2 * i] == "-H"@,
        header_arguments(headers)[2 * i + 1] == headers[i].name + ": "@ + headers[i].value,
    decreases headers.len(),
{
    lemma_header_arguments(headers.drop_last());
    if i < headers.len() - 1 {
        lemma_header_at(headers.drop_last(), i);
    }
}

/// After the provider list was replaced, the first request for a key that
/// takes reading starts a reading of the new provider's source and is given
/// no key.
pub proof fn law_new_list_reads_keys_anew(
    m: DownloaderModel,
    providers: Seq<ProviderModel>,
    key: TileKey,
    now: u128,
)
    requires
        key.provider < providers.len(),
        ({
            let source = providers[key.provider as int].api_key_source;
            source is Some && !(source->0 is Literal)
        }),
    ensures
        ({
            let new = with_list(m, providers);
            let listed = providers[key.provider as int];
            let answer = looked_up(new, key, listed, new.list, None, now);
            &&& answer.step == (StepModel::Deliver { key, data: None })
            &&& answer.job == Some(
                JobModel {
                    idx: key.provider,
                    ticket: m.keys.next_ticket,
                    source: providers[key.provider as int].api_key_source->0,
                },
            )
        }),
{
}

/// A look-up with a provider of a list that has been replaced since, or for a
/// tile that the list has no provider for, reads no key and leaves the keys in
/// memory alone. What becomes of the tile rests on its own provider and not on
/// what is in memory: it is downloaded if that provider needs no key, or with
/// its literal key.
pub proof fn law_outdated_lookup_touches_no_key(
    m: DownloaderModel,
    key: TileKey,
    provider: ProviderModel,
    list: nat,
    cached: Option<Seq<u8>>,
    now: u128,
)
    requires
        list != m.list || key.provider >= m.providers.len(),
    ensures
        ({
            let answer = looked_up(m, key, provider, list, cached, now);
            &&& answer.job is None
            &&& answer.after == m
            &&& answer.step == (match (cached, provider.api_key_source) {
                (None, None) => StepModel::Fetch { key, provider, api_key: None },
                (None, Some(KeySourceModel::Literal(literal))) => if text::trim(literal).len()
                    == 0 {
                    StepModel::Deliver { key, data: None }
                } else {
                    StepModel::Fetch { key, provider, api_key: Some(text::trim(literal)) }
                },
                _ => StepModel::Deliver { key, data: cached },
            })
        }),
{
}

/// A look-up that was taken up since the list came into force goes on with
/// the provider that it was taken up with.
pub proof fn law_lookup_keeps_its_provider(
    m: DownloaderModel,
    key: TileKey,
    provider: ProviderModel,
    list: nat,
    now: u128,
)
    requires
        list == m.list ==> first_step(key, m.providers, m.list) == (StepModel::LookUp {
            key,
            provider,
            list,
        }),
    ensures
        looked_up(m, key, provider, list, None, now).step matches StepModel::Fetch {
            provider: used,
            ..
        } ==> used == provider,
{
}

/// A download is silent but for errors, follows redirects, gives up after
/// twenty seconds and names the program, whatever is downloaded.
pub proof fn law_options_of_a_download(
    provider: ProviderModel,
    tile: TileId,
    api_key: Option<Seq<char>>,
    version: Seq<char>,
)
    ensures
        ({
            let args = curl_arguments(provider, tile, api_key, agent_name(version));
            &&& args.len() == 7 + 2 * provider.headers.len() + 2
            &&& args[0] == "-s"@
            &&& args[1] == "-S"@
            &&& args[2] == "-L"@
            &&& args[3] == "--max-time"@
            &&& args[4] == "20"@
            &&& args[5] == "-A"@
            &&& args[6] == "WaltzGPS/"@ + version + " (map viewer)"@
        }),
{
    lemma_header_arguments(provider.headers);
}

/// A tile in words names its zoom level, its column and its row, in this
/// order.
pub proof fn law_tile_in_words(tile: TileId)
    ensures
        ({
            let z = "TileId { z: "@ + text::decimal(tile.z as nat);
            let x = ", x: "@ + text::decimal(tile.x as nat);
            let y = ", y: "@ + text::decimal(tile.y as nat);
            tile_in_words(tile) == z + x + y + " }"@
        }),
{
    let z = "TileId { z: "@ + text::decimal(tile.z as nat);
    let x = ", x: "@ + text::decimal(tile.x as nat);
    let y = ", y: "@ + text::decimal(tile.y as nat);
    assert(tile_in_words(tile) =~= z + x + y + " }"@);
}

/// A request is taken up with the provider that the list has for it; without
/// one it is given up.
pub proof fn law_request_is_taken_up(
    key: TileKey,
    providers: Seq<ProviderModel>,
    list: nat,
)
    ensures
        key.provider < providers.len() ==> first_step(key, providers, list) == (StepModel::LookUp {
            key,
            provider: providers[key.provider as int],
            list,
        }),
        key.provider >= providers.len() ==> first_step(key, providers, list) == (
        StepModel::Deliver { key, data: None }),
{
}

/// A tile that was found is delivered as it was found, and nothing else
/// happens.
pub proof fn law_found_tile_is_delivered(
    m: DownloaderModel,
    key: TileKey,
    provider: ProviderModel,
    list: nat,
    bytes: Seq<u8>,
    now: u128,
)
    ensures
        ({
            let answer = looked_up(m, key, provider, list, Some(bytes), now);
            &&& answer.step == (StepModel::Deliver { key, data: Some(bytes) })
            &&& answer.job is None
            &&& answer.after == m
        }),
{
}

/// A tile that was not found is downloaded from the provider that the list in
/// force has for it: without a key if that provider needs none, with the
/// literal key if it has one, with the key that was read if there is one.
/// Otherwise it is not downloaded.
pub proof fn law_missing_tile_is_downloaded(
    m: DownloaderModel,
    key: TileKey,
    provider: ProviderModel,
    a: Seq<char>,
    k: Seq<char>,
    b: Seq<char>,
    now: u128,
)
    requires
        key.provider < m.providers.len(),
        text::all_white(a),
        text::all_white(b),
        text::is_core(k) || k.len() == 0,
    ensures
        ({
            let listed = m.providers[key.provider as int];
            let source = listed.api_key_source;
            let slow = source is Some && !(source->0 is Literal);
            let known = m.keys.states.contains_key(key.provider);
            let answer = looked_up(m, key, provider, m.list, None, now);
            &&& source is None ==> answer.step == (StepModel::Fetch {
                key,
                provider: listed,
                api_key: None,
            })
            &&& source == Some(KeySourceModel::Literal(a + k + b)) && k.len() > 0 ==> answer.step
                == (StepModel::Fetch { key, provider: listed, api_key: Some(k) })
            &&& source == Some(KeySourceModel::Literal(a + k + b)) && k.len() == 0 ==> answer.step
                == (StepModel::Deliver { key, data: None })
            &&& slow && known && m.keys.states[key.provider] == keys::ResolvedModel::Ready(k)
                ==> answer.step == (StepModel::Fetch {
                key,
                provider: listed,
                api_key: Some(k),
            })
            &&& slow && !(known && m.keys.states[key.provider] is Ready) ==> answer.step == (
            StepModel::Deliver { key, data: None })
            &&& slow && !known ==> answer.job == Some(
                JobModel { idx: key.provider, ticket: m.keys.next_ticket, source: source->0 },
            )
            &&& !slow ==> answer.job is None && answer.after == m
            &&& answer.after.queue == m.queue
            &&& answer.after.providers == m.providers
            &&& answer.after.list == m.list
            &&& answer.after.results_taken == m.results_taken
            &&& answer.after.cache == m.cache
        }),
{
    keys::law_literal_is_handed_out(m.keys, key.provider, a, k, b, now);
}

/// Another provider list leaves the requests, the cache and the claim on the
/// results as they are. It has a number that no list before it had, and no
/// key.
pub proof fn law_new_list_forgets_the_keys_only(
    m: DownloaderModel,
    providers: Seq<ProviderModel>,
    idx: usize,
)
    ensures
        ({
            let after = with_list(m, providers);
            &&& after.providers == providers
            &&& after.list == m.list + 1
            &&& !after.keys.states.contains_key(idx)
            &&& after.keys.next_ticket == m.keys.next_ticket
            &&& after.queue == m.queue
            &&& after.results_taken == m.results_taken
            &&& after.cache == m.cache
        }),
{
}

/// The end of a reading touches nothing but the keys.
pub proof fn law_reading_touches_the_keys_only(
    m: DownloaderModel,
    idx: usize,
    ticket: nat,
    resolved: Option<Seq<char>>,
    now: u128,
)
    ensures
        ({
            let after = with_reading(m, idx, ticket, resolved, now);
            let waiting = m.keys.states.contains_key(idx) && m.keys.states[idx] == (
            keys::ResolvedModel::Pending { ticket });
            &&& after.queue == m.queue
            &&& after.providers == m.providers
            &&& after.list == m.list
            &&& after.results_taken == m.results_taken
            &&& after.cache == m.cache
            &&& !waiting ==> after.keys == m.keys
            &&& waiting && resolved is Some ==> after.keys.states[idx]
                == keys::ResolvedModel::Ready(resolved->0)
            &&& waiting && resolved is None ==> after.keys.states[idx] == (
            keys::ResolvedModel::Failed { at: now })
        }),
{
}

/// A downloader starts with no requests and no keys, with the list and the
/// ticket that are numbered zero, and its results are there to be claimed.
pub proof fn law_idle_downloader(
    providers: Seq<ProviderModel>,
    cache: CacheLimits,
    idx: usize,
)
    ensures
        idle(providers, cache).queue.len() == 0,
        idle(providers, cache).providers == providers,
        idle(providers, cache).cache == cache,
        !idle(providers, cache).keys.states.contains_key(idx),
        idle(providers, cache).list == 0,
        idle(providers, cache).keys.next_ticket == 0,
        !idle(providers, cache).results_taken,
{
}

/// The keys in memory belong to a tile exactly if it was looked up with the
/// list that is in force and that list has a provider for it.
pub proof fn law_when_keys_belong_to_a_tile(m: DownloaderModel, key: TileKey, list: nat)
    ensures
        list != m.list ==> !in_force(m, key, list),
        key.provider >= m.providers.len() ==> !in_force(m, key, list),
        key.provider < m.providers.len() ==> in_force(m, key, m.list),
{
}

} // verus!
