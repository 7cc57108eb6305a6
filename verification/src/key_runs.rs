//! What holds of the API keys over every run of the program: whatever
//! requests come in, whichever readings end, however late, and however often
//! the provider list is replaced.

use crate::cache::CacheLimits;
use crate::config::{KeySourceModel, ProviderModel};
#[allow(unused_imports)]
use crate::downloader;
use crate::downloader::{DownloaderModel, TileKey};
#[allow(unused_imports)]
use crate::downloader::StepModel;
#[allow(unused_imports)]
use crate::keys;
#[allow(unused_imports)]
use crate::keys::ResolvedModel;
#[allow(unused_imports)]
use crate::text;
use vstd::prelude::*;

verus! {

/// A reading that was started.
pub struct StartedReading {
    /// The provider that it was started for.
    pub idx: usize,
    /// The number of the list that the provider stood in.
    pub list: nat,
    /// What is read.
    pub source: KeySourceModel,
}

/// A run so far.
pub struct Run {
    pub downloader: DownloaderModel,
    /// Every reading that was started, by ticket.
    pub readings: Map<nat, StartedReading>,
    /// The readings that have not ended.
    pub running: Set<nat>,
    /// The answers that were taken, by ticket.
    pub answers: Map<nat, Option<Seq<char>>>,
}

/// Something that happens in a run.
pub enum Event {
    /// A worker goes on after a look-up.
    LookedUp {
        key: TileKey,
        provider: ProviderModel,
        list: nat,
        cached: Option<Seq<u8>>,
        now: u128,
    },
    /// A reading ends.
    Ended { idx: usize, ticket: nat, resolved: Option<Seq<char>>, now: u128 },
    /// The provider list is replaced.
    NewList { providers: Seq<ProviderModel> },
    /// Anything else: requests come and go, the results are claimed, the
    /// cache gets other limits.
    Elsewhere { queue: Seq<TileKey>, results_taken: bool, cache: CacheLimits },
}

/// The beginning of a run.
pub open spec fn started(providers: Seq<ProviderModel>, cache: CacheLimits) -> Run {
    Run {
        downloader: downloader::idle(providers, cache),
        readings: Map::empty(),
        running: Set::empty(),
        answers: Map::empty(),
    }
}

/// A run after one more event.
pub open spec fn happened(run: Run, event: Event) -> Run {
    let m = run.downloader;
    match event {
        Event::LookedUp { key, provider, list, cached, now } => {
            let answer = downloader::looked_up(m, key, provider, list, cached, now);
            match answer.job {
                Some(job) => Run {
                    downloader: answer.after,
                    readings: run.readings.insert(
                        job.ticket,
                        StartedReading { idx: job.idx, list: m.list, source: job.source },
                    ),
                    running: run.running.insert(job.ticket),
                    ..run
                },
                None => Run { downloader: answer.after, ..run },
            }
        },
        Event::Ended { idx, ticket, resolved, now } => Run {
            downloader: downloader::with_reading(m, idx, ticket, resolved, now),
            running: run.running.remove(ticket),
            answers: if keys::awaits(m.keys, idx, ticket) {
                run.answers.insert(ticket, resolved)
            } else {
                run.answers
            },
            ..run
        },
        Event::NewList { providers } => Run {
            downloader: downloader::with_list(m, providers),
            ..run
        },
        Event::Elsewhere { queue, results_taken, cache } => Run {
            downloader: DownloaderModel { queue, results_taken, cache, ..m },
            ..run
        },
    }
}

/// The run in which these events happen, one after the other.
pub open spec fn run_of(
    providers: Seq<ProviderModel>,
    cache: CacheLimits,
    events: Seq<Event>,
) -> Run
    decreases events.len(),
{
    if events.len() == 0 {
        started(providers, cache)
    } else {
        happened(run_of(providers, cache, events.drop_last()), events.last())
    }
}

/// The key source of the provider that the list in force has at an index.
pub open spec fn source_at(m: DownloaderModel, idx: usize) -> Option<KeySourceModel> {
    if idx < m.providers.len() {
        m.providers[idx as int].api_key_source
    } else {
        None
    }
}

/// Whether a ticket belongs to a reading of the source that the list in force
/// has at an index, started since that list came into force.
pub open spec fn is_current(run: Run, ticket: nat, idx: usize) -> bool {
    &&& run.readings.contains_key(ticket)
    &&& run.readings[ticket].idx == idx
    &&& run.readings[ticket].list == run.downloader.list
    &&& source_at(run.downloader, idx) == Some(run.readings[ticket].source)
}

/// Whether a key is the answer of such a reading.
pub open spec fn gave(run: Run, ticket: nat, idx: usize, key: Seq<char>) -> bool {
    &&& is_current(run, ticket, idx)
    &&& run.answers.contains_key(ticket)
    &&& run.answers[ticket] == Some(key)
}

/// Whether a key was read from the source that the list in force has at an
/// index, since that list came into force.
pub open spec fn was_read(run: Run, idx: usize, key: Seq<char>) -> bool {
    exists|ticket: nat| #[trigger] gave(run, ticket, idx, key)
}

/// Whether what is memoized for a provider comes from its own source.
pub open spec fn comes_from_own_source(run: Run, idx: usize) -> bool {
    let state = run.downloader.keys.states[idx];
    &&& state matches ResolvedModel::Pending { ticket } ==> is_current(run, ticket, idx)
    &&& state matches ResolvedModel::Ready(key) ==> was_read(run, idx, key)
}

/// What every event keeps.
spec fn in_order(run: Run) -> bool {
    let m = run.downloader;
    &&& run.running.finite()
    &&& forall|t: nat| #[trigger]
        run.readings.contains_key(t) ==> t < m.keys.next_ticket && run.readings[t].list <= m.list
    &&& forall|t: nat| #[trigger] run.running.contains(t) ==> run.readings.contains_key(t)
    &&& forall|t: nat| #[trigger]
        run.running.contains(t) && run.readings[t].list == m.list ==> keys::awaits(
            m.keys,
            run.readings[t].idx,
            t,
        )
    &&& forall|idx: usize| #[trigger]
        m.keys.states.contains_key(idx) ==> comes_from_own_source(run, idx)
}

/// One event keeps the run in order.
proof fn lemma_happened(run: Run, event: Event)
    requires
        in_order(run),
    ensures
        in_order(happened(run, event)),
{
    let m = run.downloader;
    let after = happened(run, event);
    let n = after.downloader;
    assert forall|t: nat| #[trigger]
        after.running.contains(t) && after.readings[t].list == n.list implies keys::awaits(
        n.keys,
        after.readings[t].idx,
        t,
    ) by {
        if run.running.contains(t) {
            assert(run.readings.contains_key(t));
        }
    }
    assert forall|idx: usize| #[trigger]
        n.keys.states.contains_key(idx) implies comes_from_own_source(after, idx) by {
        lemma_sources(run, event, idx);
    }
}

/// One event keeps what is memoized for a provider tied to its own source.
proof fn lemma_sources(run: Run, event: Event, idx: usize)
    requires
        in_order(run),
        happened(run, event).downloader.keys.states.contains_key(idx),
    ensures
        comes_from_own_source(happened(run, event), idx),
{
    let m = run.downloader;
    let after = happened(run, event);
    let n = after.downloader;
    if m.keys.states.contains_key(idx) && n.keys.states[idx] == m.keys.states[idx] && !(
    event is NewList) {
        assert(comes_from_own_source(run, idx));
        if let ResolvedModel::Pending { ticket } = m.keys.states[idx] {
            assert(is_current(run, ticket, idx));
            assert(run.readings.contains_key(ticket));
            assert(after.readings[ticket] == run.readings[ticket]);
            assert(is_current(after, ticket, idx));
        }
        if let ResolvedModel::Ready(key) = m.keys.states[idx] {
            let t = choose|t: nat| gave(run, t, idx, key);
            assert(run.readings.contains_key(t));
            if let Event::Ended { idx: i, ticket, .. } = event {
                if ticket == t && keys::awaits(m.keys, i, ticket) {
                    assert(comes_from_own_source(run, i));
                }
            }
            assert(gave(after, t, idx, key));
            assert(was_read(after, idx, key));
        }
    } else {
        match event {
            Event::LookedUp { key, provider, list, cached, now } => {
                let answer = downloader::looked_up(m, key, provider, list, cached, now);
                assert(answer.job is Some);
                assert(answer.job->0.idx == idx);
                assert(is_current(after, m.keys.next_ticket, idx));
            },
            Event::Ended { idx: i, ticket, resolved, .. } => {
                assert(i == idx);
                assert(comes_from_own_source(run, idx));
                if let Some(key) = resolved {
                    assert(gave(after, ticket, idx, key));
                    assert(was_read(after, idx, key));
                }
            },
            Event::NewList { .. } => {},
            Event::Elsewhere { .. } => {},
        }
    }
}

/// Every run is in order.
proof fn lemma_run(providers: Seq<ProviderModel>, cache: CacheLimits, events: Seq<Event>)
    ensures
        in_order(run_of(providers, cache, events)),
    decreases events.len(),
{
    if events.len() > 0 {
        lemma_run(providers, cache, events.drop_last());
        lemma_happened(run_of(providers, cache, events.drop_last()), events.last());
    }
}

/// Whatever happens, a key in memory was read from the source of the provider
/// that the list in force has at its index, by a reading that was started
/// since that list came into force. A provider that waits for a reading waits
/// for one of its own source.
pub proof fn law_keys_come_from_own_source(
    providers: Seq<ProviderModel>,
    cache: CacheLimits,
    events: Seq<Event>,
    idx: usize,
)
    ensures
        ({
            let run = run_of(providers, cache, events);
            run.downloader.keys.states.contains_key(idx) ==> comes_from_own_source(run, idx)
        }),
{
    lemma_run(providers, cache, events);
}

/// Whatever happens, a tile is downloaded only with a key of the provider that
/// it is downloaded from: its literal one, or one that was read from its
/// source. Of the latter, that provider stands in the list in force, and the
/// key was read since that list came into force. A tile is downloaded from
/// the provider that the list in force has for it, or from the one that it
/// was looked up with if that stood in another list.
pub proof fn law_no_key_of_another_provider(
    providers: Seq<ProviderModel>,
    cache: CacheLimits,
    events: Seq<Event>,
    key: TileKey,
    provider: ProviderModel,
    list: nat,
    cached: Option<Seq<u8>>,
    now: u128,
)
    ensures
        ({
            let run = run_of(providers, cache, events);
            let m = run.downloader;
            downloader::looked_up(
                m,
                key,
                provider,
                list,
                cached,
                now,
            ).step matches StepModel::Fetch { key: fetched, provider: used, api_key } ==> {
                &&& fetched == key
                &&& used == (if downloader::in_force(m, key, list) {
                    m.providers[key.provider as int]
                } else {
                    provider
                })
                &&& api_key is None <==> used.api_key_source is None
                &&& api_key is Some ==> match used.api_key_source->0 {
                    KeySourceModel::Literal(literal) => api_key->0 == text::trim(literal),
                    _ => downloader::in_force(m, key, list) && was_read(
                        run,
                        key.provider,
                        api_key->0,
                    ),
                }
            }
        }),
{
    lemma_run(providers, cache, events);
    let run = run_of(providers, cache, events);
    if run.downloader.keys.states.contains_key(key.provider) {
        assert(comes_from_own_source(run, key.provider));
    }
}

/// The readings under way for a provider of the list in force.
pub open spec fn under_way(run: Run, idx: usize) -> Set<nat> {
    run.running.filter(
        |t: nat| run.readings[t].idx == idx && run.readings[t].list == run.downloader.list,
    )
}

/// Whatever happens, at most one reading is under way for each provider of
/// the list in force, and it is the one that the provider waits for. A
/// reading that was started for an earlier list may still be running; its
/// end changes nothing.
pub proof fn law_one_reading_at_a_time(
    providers: Seq<ProviderModel>,
    cache: CacheLimits,
    events: Seq<Event>,
    idx: usize,
)
    ensures
        ({
            let run = run_of(providers, cache, events);
            let m = run.downloader;
            &&& under_way(run, idx).finite()
            &&& under_way(run, idx).len() <= 1
            &&& forall|t: nat| #[trigger]
                under_way(run, idx).contains(t) ==> keys::awaits(m.keys, idx, t)
            &&& forall|t: nat, i: usize, resolved: Option<Seq<char>>, now: u128|
                run.running.contains(t) && run.readings[t].list != m.list
                    ==> #[trigger] downloader::with_reading(m, i, t, resolved, now) == m
        }),
{
    lemma_run(providers, cache, events);
    let run = run_of(providers, cache, events);
    let m = run.downloader;
    let set = under_way(run, idx);
    if set.len() > 0 {
        let t = set.choose();
        assert(set.contains(t));
        assert(keys::awaits(m.keys, idx, t));
        assert forall|u: nat| set.contains(u) implies u == t by {
            assert(run.running.contains(u));
            assert(keys::awaits(m.keys, idx, u));
        }
        assert(set =~= Set::empty().insert(t));
    }
    assert forall|t: nat, i: usize, resolved: Option<Seq<char>>, now: u128|
        run.running.contains(t) && run.readings[t].list != m.list implies
        #[trigger] downloader::with_reading(m, i, t, resolved, now) == m by {
        if keys::awaits(m.keys, i, t) {
            assert(comes_from_own_source(run, i));
        }
    }
}

} // verus!
