//! API keys: where they come from and how a resolved key is memoized.
//!
//! Reading a key may be slow or hang (a file, a command), so it is never done
//! by the caller of [`resolve_key`]. The answer says at once whether a key is
//! there, and which source has to be read on a thread of its own. Each reading
//! has a ticket. Its answer counts only while that ticket is waited for, so
//! that a reading begun before the provider list changed leaves no trace.

use crate::config::{ApiKeySource, Provider};
#[allow(unused_imports)]
use crate::config::KeySourceModel;
use crate::text;
use std::collections::HashMap;
use vstd::prelude::*;
#[allow(unused_imports)]
use vstd::utf8::*;

verus! {

broadcast use vstd::std_specs::hash::group_hash_axioms;

/// How long to wait before reading the key of a provider again after a
/// failure, in nanoseconds: fifteen seconds.
pub const KEY_FAILED_BACKOFF: u128 = 15_000_000_000;

/// Outcome of resolving a provider's API key.
#[derive(Debug)]
pub enum ResolvedKeyState {
    /// The source is being read, under this ticket.
    Pending { ticket: u64 },
    /// Kept until the provider list changes.
    Ready(String),
    /// Tried again after [`KEY_FAILED_BACKOFF`]. The time is in nanoseconds
    /// on a clock that never runs backwards.
    Failed { at: u128 },
}

/// The value of a [`ResolvedKeyState`].
pub enum ResolvedModel {
    Pending { ticket: nat },
    Ready(Seq<char>),
    Failed { at: u128 },
}

impl View for ResolvedKeyState {
    type V = ResolvedModel;

    open spec fn view(&self) -> ResolvedModel {
        match self {
            ResolvedKeyState::Pending { ticket } => ResolvedModel::Pending {
                ticket: *ticket as nat,
            },
            ResolvedKeyState::Ready(key) => ResolvedModel::Ready(key@),
            ResolvedKeyState::Failed { at } => ResolvedModel::Failed { at: *at },
        }
    }
}

/// What a fetch knows about the key of its provider.
#[derive(Debug)]
pub enum KeyState {
    /// The provider has no key source; there is nothing to substitute.
    NotNeeded,
    Ready(String),
    /// No key is there yet; the tile must not be fetched.
    Failed,
}

/// The value of a [`KeyState`].
pub enum KeyModel {
    NotNeeded,
    Ready(Seq<char>),
    Failed,
}

impl View for KeyState {
    type V = KeyModel;

    open spec fn view(&self) -> KeyModel {
        match self {
            KeyState::NotNeeded => KeyModel::NotNeeded,
            KeyState::Ready(key) => KeyModel::Ready(key@),
            KeyState::Failed => KeyModel::Failed,
        }
    }
}

/// Memoized key resolutions, by provider index.
pub struct KeyCache {
    states: HashMap<usize, ResolvedKeyState>,
    next_ticket: u64,
}

/// The value of a [`KeyCache`].
pub struct KeyTable {
    pub states: Map<usize, ResolvedModel>,
    /// The ticket of the next reading. No ticket is given out twice.
    pub next_ticket: nat,
}

/// The values of a table of resolutions.
pub open spec fn resolved_views(m: Map<usize, ResolvedKeyState>) -> Map<usize, ResolvedModel> {
    m.map_values(|s: ResolvedKeyState| s@)
}

impl View for KeyCache {
    type V = KeyTable;

    closed spec fn view(&self) -> KeyTable {
        KeyTable { states: resolved_views(self.states@), next_ticket: self.next_ticket as nat }
    }
}

/// A table without resolutions, from which no ticket has been given out.
pub open spec fn fresh_table() -> KeyTable {
    KeyTable { states: Map::empty(), next_ticket: 0 }
}

/// A table once every resolution has been forgotten. Tickets go on from where
/// they were.
pub open spec fn forgotten(table: KeyTable) -> KeyTable {
    KeyTable { states: Map::empty(), ..table }
}

impl KeyCache {
    /// A table without resolutions.
    pub fn new() -> (r: Self)
        ensures
            r@ == fresh_table(),
    {
        let r = KeyCache { states: HashMap::new(), next_ticket: 0 };
        proof {
            assert(r@.states =~= Map::<usize, ResolvedModel>::empty());
        }
        r
    }

    /// Forgets every resolution, those that are under way included.
    pub fn clear(&mut self)
        ensures
            final(self)@ == forgotten(old(self)@),
    {
        self.states.clear();
        proof {
            assert(self@.states =~= Map::<usize, ResolvedModel>::empty());
        }
    }

    /// Whether there is a ticket for another reading.
    pub fn has_ticket(&self) -> (r: bool)
        ensures
            r == (self@.next_ticket < u64::MAX),
    {
        self.next_ticket < u64::MAX
    }

    /// Records the resolution of a provider, in place of any it had.
    fn insert(&mut self, idx: usize, state: ResolvedKeyState)
        ensures
            final(self)@ == (KeyTable {
                states: old(self)@.states.insert(idx, state@),
                ..old(self)@
            }),
    {
        self.states.insert(idx, state);
        proof {
            assert(self@.states =~= old(self)@.states.insert(idx, state@));
        }
    }
}

/// The answer to a request for a provider's key.
pub struct ResolutionModel {
    /// What the fetch knows.
    pub state: KeyModel,
    /// The ticket under which the source has to be read, if it has to be.
    pub start: Option<nat>,
    /// The table afterwards.
    pub table: KeyTable,
}

/// Whether a failure is too recent to try again.
pub open spec fn backing_off(at: u128, now: u128) -> bool {
    now - at < KEY_FAILED_BACKOFF
}

/// What a fetch knows of a provider's key from the provider alone: whether it
/// needs one, and the key if it is a literal. Any other key is not there.
pub open spec fn own_key(source: Option<KeySourceModel>) -> KeyModel {
    match source {
        None => KeyModel::NotNeeded,
        Some(KeySourceModel::Literal(text)) => if text::trim(text).len() == 0 {
            KeyModel::Failed
        } else {
            KeyModel::Ready(text::trim(text))
        },
        Some(_) => KeyModel::Failed,
    }
}

/// Whether a source has to be read to get a key from it.
pub open spec fn is_slow(source: Option<KeySourceModel>) -> bool {
    source is Some && !(source->0 is Literal)
}

/// How a request for a provider's key is answered at time `now`.
pub open spec fn resolution(
    table: KeyTable,
    idx: usize,
    source: Option<KeySourceModel>,
    now: u128,
) -> ResolutionModel {
    if !is_slow(source) {
        ResolutionModel { state: own_key(source), start: None, table }
    } else if table.states.contains_key(idx) && table.states[idx] is Ready {
        ResolutionModel {
            state: KeyModel::Ready(table.states[idx]->Ready_0),
            start: None,
            table,
        }
    } else if table.states.contains_key(idx) && (table.states[idx] is Pending || backing_off(
        table.states[idx]->at,
        now,
    )) {
        ResolutionModel { state: KeyModel::Failed, start: None, table }
    } else {
        ResolutionModel {
            state: KeyModel::Failed,
            start: Some(table.next_ticket),
            table: KeyTable {
                states: table.states.insert(
                    idx,
                    ResolvedModel::Pending { ticket: table.next_ticket },
                ),
                next_ticket: table.next_ticket + 1,
            },
        }
    }
}

/// Whether a failure at `at` is too recent at `now`.
fn is_backing_off(at: u128, now: u128) -> (r: bool)
    ensures
        r == backing_off(at, now),
{
    now <= at || now - at < KEY_FAILED_BACKOFF
}

/// The value of an optional ticket.
pub open spec fn ticket_view(ticket: Option<u64>) -> Option<nat> {
    match ticket {
        Some(t) => Some(t as nat),
        None => None,
    }
}

/// What a fetch knows of a provider's key from the provider alone.
pub fn key_without_reading(provider: &Provider) -> (r: KeyState)
    ensures
        r@ == own_key(provider@.api_key_source),
{
    match &provider.api_key_source {
        None => KeyState::NotNeeded,
        Some(ApiKeySource::Literal(s)) => {
            let key = text::trimmed(s.as_str());
            if key.as_str().is_empty() {
                KeyState::Failed
            } else {
                KeyState::Ready(key)
            }
        },
        Some(_) => KeyState::Failed,
    }
}

/// Answers a request for a provider's key without waiting for anything. A
/// literal is answered from the provider itself; any other source from the
/// memoized resolutions. If the answer holds a ticket, the source has to be
/// read under it, and [`finish_key`] told what came out.
pub fn resolve_key(key_cache: &mut KeyCache, idx: usize, provider: &Provider, now: u128) -> (r: (
    KeyState,
    Option<u64>,
))
    requires
        old(key_cache)@.next_ticket < u64::MAX,
    ensures
        r.0@ == resolution(old(key_cache)@, idx, provider@.api_key_source, now).state,
        ticket_view(r.1) == resolution(old(key_cache)@, idx, provider@.api_key_source, now).start,
        final(key_cache)@ == resolution(old(key_cache)@, idx, provider@.api_key_source, now).table,
{
    match &provider.api_key_source {
        None | Some(ApiKeySource::Literal(_)) => (key_without_reading(provider), None),
        _ => {
            match key_cache.states.get(&idx) {
                Some(ResolvedKeyState::Ready(key)) => {
                    return (KeyState::Ready(key.clone()), None);
                },
                Some(ResolvedKeyState::Pending { .. }) => {
                    return (KeyState::Failed, None);
                },
                Some(ResolvedKeyState::Failed { at }) => {
                    if is_backing_off(*at, now) {
                        return (KeyState::Failed, None);
                    }
                },
                None => {},
            }
            let ticket: u64 = key_cache.next_ticket;
            key_cache.next_ticket = ticket + 1;
            key_cache.insert(idx, ResolvedKeyState::Pending { ticket });
            (KeyState::Failed, Some(ticket))
        },
    }
}

/// The outcome of a reading that ended at `now`.
pub open spec fn reading_outcome(resolved: Option<Seq<char>>, now: u128) -> ResolvedModel {
    match resolved {
        Some(key) => ResolvedModel::Ready(key),
        None => ResolvedModel::Failed { at: now },
    }
}

/// Whether the reading with this ticket is the one that provider `idx` waits
/// for.
pub open spec fn awaits(table: KeyTable, idx: usize, ticket: nat) -> bool {
    table.states.contains_key(idx) && table.states[idx] == (ResolvedModel::Pending { ticket })
}

/// The table after the end of a reading. An answer that nobody waits for any
/// more changes nothing.
pub open spec fn after_reading(
    table: KeyTable,
    idx: usize,
    ticket: nat,
    outcome: ResolvedModel,
) -> KeyTable {
    if awaits(table, idx, ticket) {
        KeyTable { states: table.states.insert(idx, outcome), ..table }
    } else {
        table
    }
}

/// Records what reading a provider's key source gave, if that reading is
/// still waited for.
pub fn finish_key(
    key_cache: &mut KeyCache,
    idx: usize,
    ticket: u64,
    resolved: Option<String>,
    now: u128,
)
    ensures
        final(key_cache)@ == after_reading(
            old(key_cache)@,
            idx,
            ticket as nat,
            reading_outcome(crate::config::text_view(resolved), now),
        ),
{
    let waiting = match key_cache.states.get(&idx) {
        Some(ResolvedKeyState::Pending { ticket: t }) => *t == ticket,
        _ => false,
    };
    if waiting {
        let state = match resolved {
            Some(key) => ResolvedKeyState::Ready(key),
            None => ResolvedKeyState::Failed { at: now },
        };
        key_cache.insert(idx, state);
    }
}

/// What was read from a key source.
#[derive(Debug)]
pub enum KeyReading {
    /// Nothing: there was nothing to read, or it could not be read.
    Nothing,
    /// The contents of a file.
    FileText(String),
    /// The end of a command.
    CommandOutput { success: bool, stdout: Vec<u8> },
}

/// `String::from_utf8`: succeeds on valid UTF-8 and on nothing else, and
/// gives the text that the bytes encode.
#[verifier::external_body]
fn utf8_text(bytes: Vec<u8>) -> (r: Option<String>)
    ensures
        r is Some <==> valid_utf8(bytes@),
        r is Some ==> r->0@ == decode_utf8(bytes@),
{
    String::from_utf8(bytes).ok()
}

/// The text that a source gave, if it gave any.
pub open spec fn raw_key(source: KeySourceModel, reading: KeyReading) -> Option<Seq<char>> {
    match (source, reading) {
        (KeySourceModel::Literal(text), _) => Some(text),
        (KeySourceModel::File(_), KeyReading::FileText(text)) => Some(text@),
        (KeySourceModel::Command(_), KeyReading::CommandOutput { success, stdout }) => if success
            && valid_utf8(stdout@) {
            Some(decode_utf8(stdout@))
        } else {
            None
        },
        _ => None,
    }
}

/// The key in a text: the text without white space around it, if anything is
/// left.
pub open spec fn key_in(raw: Option<Seq<char>>) -> Option<Seq<char>> {
    if raw is Some && text::trim(raw->0).len() > 0 {
        Some(text::trim(raw->0))
    } else {
        None
    }
}

/// The key that a source holds, given what was read from it. Never an empty
/// one: a missing file, a command that fails or prints something other than
/// text, and blank contents all give `None`.
pub fn read_key_source(src: &ApiKeySource, reading: KeyReading) -> (r: Option<String>)
    ensures
        crate::config::text_view(r) == key_in(raw_key(src@, reading)),
{
    let raw = match (src, reading) {
        (ApiKeySource::Literal(s), _) => Some(s.clone()),
        (ApiKeySource::File(_), KeyReading::FileText(text)) => Some(text),
        (ApiKeySource::Command(_), KeyReading::CommandOutput { success, stdout }) => {
            if success {
                utf8_text(stdout)
            } else {
                None
            }
        },
        _ => None,
    };
    match raw {
        Some(s) => {
            let key = text::trimmed(s.as_str());
            if key.as_str().is_empty() {
                None
            } else {
                Some(key)
            }
        },
        None => None,
    }
}

/// Something that happens to a table between two changes of the provider
/// list.
pub enum KeyEvent {
    /// The key of a provider is asked for.
    Asked { idx: usize, source: Option<KeySourceModel>, now: u128 },
    /// A reading ends.
    Ended { idx: usize, ticket: nat, resolved: Option<Seq<char>>, now: u128 },
}

/// The table after one event.
pub open spec fn after_event(table: KeyTable, event: KeyEvent) -> KeyTable {
    match event {
        KeyEvent::Asked { idx, source, now } => resolution(table, idx, source, now).table,
        KeyEvent::Ended { idx, ticket, resolved, now } => after_reading(
            table,
            idx,
            ticket,
            reading_outcome(resolved, now),
        ),
    }
}

/// The table after a row of events.
pub open spec fn after_events(table: KeyTable, events: Seq<KeyEvent>) -> KeyTable
    decreases events.len(),
{
    if events.len() == 0 {
        table
    } else {
        after_event(after_events(table, events.drop_last()), events.last())
    }
}

/// Whether an event starts a reading for a provider.
pub open spec fn starts_reading(table: KeyTable, event: KeyEvent, idx: usize) -> bool {
    match event {
        KeyEvent::Asked { idx: asked, source, now } => asked == idx && resolution(
            table,
            asked,
            source,
            now,
        ).start is Some,
        KeyEvent::Ended { .. } => false,
    }
}

/// How many readings for one provider a row of events starts.
pub open spec fn readings_started(table: KeyTable, events: Seq<KeyEvent>, idx: usize) -> nat
    decreases events.len(),
{
    if events.len() == 0 {
        0
    } else {
        let before = after_events(table, events.drop_last());
        readings_started(table, events.drop_last(), idx) + (if starts_reading(
            before,
            events.last(),
            idx,
        ) {
            1nat
        } else {
            0nat
        })
    }
}

/// While a provider waits for a reading, no other reading is started for it,
/// however many requests come in, for whatever providers and at whatever
/// times, and whichever other readings end.
pub proof fn law_no_second_reading_while_waiting(
    table: KeyTable,
    events: Seq<KeyEvent>,
    idx: usize,
    ticket: nat,
)
    requires
        awaits(table, idx, ticket),
        forall|i: int|
            0 <= i < events.len() ==> !((#[trigger] events[i]) matches KeyEvent::Ended {
                idx: ended,
                ticket: t,
                ..
            } && ended == idx && t == ticket),
    ensures
        awaits(after_events(table, events), idx, ticket),
        readings_started(table, events, idx) == 0,
    decreases events.len(),
{
    if events.len() > 0 {
        let rest = events.drop_last();
        assert forall|i: int| 0 <= i < rest.len() implies !((
        #[trigger] rest[i]) matches KeyEvent::Ended { idx: ended, ticket: t, .. } && ended == idx
            && t == ticket) by {
            assert(rest[i] == events[i]);
        }
        law_no_second_reading_while_waiting(table, rest, idx, ticket);
        assert(events.last() == events[events.len() - 1]);
    }
}

/// A key that was read is handed out from then on, without another reading,
/// whatever requests come in and whatever readings end in between, and
/// however long that takes.
pub proof fn law_ready_key_is_kept(
    table: KeyTable,
    events: Seq<KeyEvent>,
    idx: usize,
    source: KeySourceModel,
    now: u128,
)
    requires
        table.states.contains_key(idx),
        table.states[idx] is Ready,
        !(source is Literal),
    ensures
        after_events(table, events).states.contains_key(idx),
        after_events(table, events).states[idx] == table.states[idx],
        resolution(after_events(table, events), idx, Some(source), now).state
            == KeyModel::Ready(table.states[idx]->Ready_0),
        readings_started(table, events, idx) == 0,
    decreases events.len(),
{
    if events.len() > 0 {
        law_ready_key_is_kept(table, events.drop_last(), idx, source, now);
    }
}

/// A failed reading is repeated once the backoff is over, and not before.
pub proof fn law_failure_is_retried_after_backoff(
    table: KeyTable,
    idx: usize,
    source: KeySourceModel,
    now: u128,
)
    requires
        table.states.contains_key(idx),
        table.states[idx] is Failed,
        !(source is Literal),
    ensures
        resolution(table, idx, Some(source), now).start is Some <==> now - table.states[idx]->at
            >= KEY_FAILED_BACKOFF,
        resolution(table, idx, Some(source), now).state is Failed,
{
}

/// What a reading that is waited for gives is what the next request is
/// answered.
pub proof fn law_reading_answers_next_request(
    table: KeyTable,
    idx: usize,
    ticket: nat,
    source: KeySourceModel,
    resolved: Option<Seq<char>>,
    ended: u128,
    now: u128,
)
    requires
        awaits(table, idx, ticket),
        !(source is Literal),
    ensures
        ({
            let after = resolution(
                after_reading(table, idx, ticket, reading_outcome(resolved, ended)),
                idx,
                Some(source),
                now,
            );
            match resolved {
                Some(key) => after.state == KeyModel::Ready(key) && after.start is None,
                None => after.state is Failed && (after.start is Some <==> now - ended
                    >= KEY_FAILED_BACKOFF),
            }
        }),
{
}

/// A provider without a key source, or with a literal one, is answered
/// without the table, and leaves it alone.
pub proof fn law_table_is_for_slow_sources(
    table: KeyTable,
    other: KeyTable,
    idx: usize,
    source: Option<KeySourceModel>,
    now: u128,
    later: u128,
)
    requires
        source is None || source->0 is Literal,
    ensures
        resolution(table, idx, source, now).table == table,
        resolution(table, idx, source, now).start is None,
        resolution(table, idx, source, now).state == resolution(other, idx, source, later).state,
{
}

/// A key that was read is never empty and has no white space around it.
pub proof fn law_key_is_never_blank(source: KeySourceModel, reading: KeyReading)
    ensures
        key_in(raw_key(source, reading)) is Some ==> {
            let key = key_in(raw_key(source, reading))->0;
            key.len() > 0 && text::is_trimmed(key)
        },
{
    if raw_key(source, reading) is Some {
        text::law_trim_is_idempotent(raw_key(source, reading)->0);
    }
}

/// A literal is resolved to the key that reading it would give.
pub proof fn law_literal_needs_no_reading(
    table: KeyTable,
    idx: usize,
    text: Seq<char>,
    reading: KeyReading,
    now: u128,
)
    ensures
        resolution(table, idx, Some(KeySourceModel::Literal(text)), now).state == (match key_in(
            raw_key(KeySourceModel::Literal(text), reading),
        ) {
            Some(key) => KeyModel::Ready(key),
            None => KeyModel::Failed,
        }),
{
}

/// A reading that is under way for one provider makes no difference to any
/// other: what a request for one does leaves the answers for all others as
/// they were.
pub proof fn law_providers_do_not_wait_for_each_other(
    table: KeyTable,
    idx: usize,
    source: Option<KeySourceModel>,
    now: u128,
    other: usize,
    other_source: Option<KeySourceModel>,
    later: u128,
)
    requires
        other != idx,
    ensures
        ({
            let after = resolution(table, idx, source, now).table;
            let before = resolution(table, other, other_source, later);
            &&& resolution(after, other, other_source, later).state == before.state
            &&& resolution(after, other, other_source, later).start is Some <==> before.start is Some
        }),
{
}

/// Whether a key source gives the key in `a + k + b`, where `a` and `b` are
/// white space and `k` is not: the whole of `k`, and no key if `k` is empty.
pub open spec fn is_key_of(found: Option<Seq<char>>, k: Seq<char>) -> bool {
    &&& k.len() > 0 ==> found == Some(k)
    &&& k.len() == 0 ==> found is None
}

/// The key in a file, in what a command prints or in a literal is all that
/// stands there but the white space around it, whatever its length. Where
/// nothing else stands there, there is no key.
pub proof fn law_key_is_all_but_the_white_space_around_it(
    a: Seq<char>,
    k: Seq<char>,
    b: Seq<char>,
    place: Seq<char>,
    contents: String,
    stdout: Vec<u8>,
    reading: KeyReading,
)
    requires
        text::all_white(a),
        text::all_white(b),
        text::is_core(k) || k.len() == 0,
    ensures
        contents@ == a + k + b ==> is_key_of(
            key_in(raw_key(KeySourceModel::File(place), KeyReading::FileText(contents))),
            k,
        ),
        valid_utf8(stdout@) && decode_utf8(stdout@) == a + k + b ==> is_key_of(
            key_in(
                raw_key(
                    KeySourceModel::Command(place),
                    KeyReading::CommandOutput { success: true, stdout },
                ),
            ),
            k,
        ),
        is_key_of(key_in(raw_key(KeySourceModel::Literal(a + k + b), reading)), k),
{
    text::law_trim_removes_white_space_only(a, k, b);
    if k.len() == 0 {
        assert(a + k + b =~= a + b);
    }
}

/// A literal key is handed out at once: all of it but the white space around
/// it. A blank one is no key.
pub proof fn law_literal_is_handed_out(
    table: KeyTable,
    idx: usize,
    a: Seq<char>,
    k: Seq<char>,
    b: Seq<char>,
    now: u128,
)
    requires
        text::all_white(a),
        text::all_white(b),
        text::is_core(k) || k.len() == 0,
    ensures
        ({
            let answer = resolution(table, idx, Some(KeySourceModel::Literal(a + k + b)), now);
            &&& k.len() > 0 ==> answer.state == KeyModel::Ready(k)
            &&& k.len() == 0 ==> answer.state is Failed
            &&& answer.start is None
            &&& answer.state == own_key(Some(KeySourceModel::Literal(a + k + b)))
        }),
{
    text::law_trim_removes_white_space_only(a, k, b);
    if k.len() == 0 {
        assert(a + k + b =~= a + b);
    }
}

/// Without a key source no key is needed. A key in a file or from a command
/// is not known without reading it.
pub proof fn law_key_need(place: Seq<char>, table: KeyTable, idx: usize, now: u128)
    ensures
        own_key(None) is NotNeeded,
        resolution(table, idx, None, now).state is NotNeeded,
        own_key(Some(KeySourceModel::File(place))) is Failed,
        own_key(Some(KeySourceModel::Command(place))) is Failed,
{
}

/// A file that could not be read, a command that failed or printed something
/// other than text, and an answer that is not of the source's kind give no
/// key.
pub proof fn law_no_text_no_key(
    place: Seq<char>,
    success: bool,
    stdout: Vec<u8>,
    contents: String,
)
    ensures
        key_in(raw_key(KeySourceModel::File(place), KeyReading::Nothing)) is None,
        key_in(raw_key(KeySourceModel::Command(place), KeyReading::Nothing)) is None,
        !success || !valid_utf8(stdout@) ==> key_in(
            raw_key(
                KeySourceModel::Command(place),
                KeyReading::CommandOutput { success, stdout },
            ),
        ) is None,
        key_in(
            raw_key(
                KeySourceModel::File(place),
                KeyReading::CommandOutput { success, stdout },
            ),
        ) is None,
        key_in(
            raw_key(KeySourceModel::Command(place), KeyReading::FileText(contents)),
        ) is None,
{
}

/// The first request for the key of a file or a command starts a reading, under
/// a ticket that was never given out before; the provider waits for that
/// reading from then on.
pub proof fn law_first_request_starts_a_reading(
    table: KeyTable,
    idx: usize,
    source: KeySourceModel,
    now: u128,
)
    requires
        !table.states.contains_key(idx),
        !(source is Literal),
    ensures
        ({
            let answer = resolution(table, idx, Some(source), now);
            &&& answer.state is Failed
            &&& answer.start == Some(table.next_ticket)
            &&& answer.table.next_ticket == table.next_ticket + 1
            &&& answer.table.states.contains_key(idx)
            &&& answer.table.states[idx] == (ResolvedModel::Pending { ticket: table.next_ticket })
        }),
{
}

/// After a failure a provider's source is read again once fifteen seconds
/// have gone by, and not before.
pub proof fn law_retry_after_fifteen_seconds(
    table: KeyTable,
    idx: usize,
    source: KeySourceModel,
    at: u128,
    now: u128,
)
    requires
        table.states.contains_key(idx),
        table.states[idx] == (ResolvedModel::Failed { at }),
        !(source is Literal),
    ensures
        ({
            let answer = resolution(table, idx, Some(source), now);
            &&& answer.state is Failed
            &&& now >= at + 15 * 1_000_000_000 ==> answer.start == Some(table.next_ticket)
                && answer.table.next_ticket == table.next_ticket + 1 && answer.table.states[idx]
                == (ResolvedModel::Pending { ticket: table.next_ticket })
            &&& now < at + 15 * 1_000_000_000 ==> answer.start is None && answer.table == table
        }),
{
}

/// A request changes what is known of its own provider only.
pub proof fn law_request_leaves_others_alone(
    table: KeyTable,
    idx: usize,
    source: Option<KeySourceModel>,
    now: u128,
    other: usize,
)
    requires
        other != idx,
    ensures
        ({
            let after = resolution(table, idx, source, now).table.states;
            &&& after.contains_key(other) <==> table.states.contains_key(other)
            &&& table.states.contains_key(other) ==> after[other] == table.states[other]
        }),
{
}

/// The end of a reading that its provider waits for is recorded for that
/// provider: the key that was read, or when it failed. Any other answer
/// changes nothing.
pub proof fn law_end_of_a_reading_is_recorded(
    table: KeyTable,
    idx: usize,
    ticket: nat,
    resolved: Option<Seq<char>>,
    now: u128,
    other: usize,
)
    ensures
        ({
            let after = after_reading(table, idx, ticket, reading_outcome(resolved, now));
            let waiting = table.states.contains_key(idx) && table.states[idx] == (
            ResolvedModel::Pending { ticket });
            &&& !waiting ==> after == table
            &&& waiting && resolved is Some ==> after.states[idx] == ResolvedModel::Ready(
                resolved->0,
            )
            &&& waiting && resolved is None ==> after.states[idx] == (ResolvedModel::Failed {
                at: now,
            })
            &&& after.next_ticket == table.next_ticket
            &&& after.states.contains_key(other) <==> table.states.contains_key(other)
            &&& other != idx && table.states.contains_key(other) ==> after.states[other]
                == table.states[other]
        }),
{
}

/// Forgetting leaves no provider with a resolution, and no ticket to be given
/// out again.
pub proof fn law_forgetting_is_complete(table: KeyTable, idx: usize)
    ensures
        !forgotten(table).states.contains_key(idx),
        forgotten(table).next_ticket == table.next_ticket,
        !fresh_table().states.contains_key(idx),
        fresh_table().next_ticket == 0,
{
}

} // verus!
