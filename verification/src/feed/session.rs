//! One sport's live session: what it admits from each capture, when it
//! reports a disconnect, and what its watchdog does next.  The application
//! owns the browser, the clock and the lifecycle hook, and hands the outcome
//! of each outside step to these functions.
use vstd::prelude::*;
use crate::domain::events::{
    digest_text, event_key_text, opt_string_view, payload_hash_spec, sanitized, trimmed_timestamp,
    EventType, NormalizedEvent,
};
use crate::feed::adapters::{
    extract_outcome, FeedAdapter, FeedError, FeedErrorV, NormalizedMatch, SourceEnvelope,
    SourceLayer, layer_priority,
};
use crate::feed::browser::{FeedBrowserError, OwnedBrowserConfig, OwnedTarget};
use crate::json::{json_clone, Json, JsonV};
use crate::text::{add_name, contains_name, names, owned};

verus! {

#[derive(Debug, Clone, Copy, PartialEq, Eq, Structural)]
pub enum SessionState {
    Starting,
    Ready,
    Connected,
    Stale,
    Disconnected,
    Stopped,
}

/// Timing of a feed session.
#[derive(Debug)]
pub struct FeedSessionConfig {
    pub browser: OwnedBrowserConfig,
    pub heartbeat_interval: std::time::Duration,
    pub stale_after: std::time::Duration,
}

impl Default for FeedSessionConfig {
    /// A heartbeat every 5 s; stale after 20 s without one.
    fn default() -> (r: Self)
        ensures
            r.browser.executable is None,
            r.browser.profile_dir is None,
            r.browser.startup_timeout == crate::assets::seconds(15),
            r.heartbeat_interval == crate::assets::seconds(5),
            r.stale_after == crate::assets::seconds(20),
    {
        FeedSessionConfig {
            browser: OwnedBrowserConfig::default(),
            heartbeat_interval: crate::assets::duration_secs(5),
            stale_after: crate::assets::duration_secs(20),
        }
    }
}

/// What the session tells its lifecycle hook.
#[derive(Debug, Clone)]
pub enum FeedLifecycleEvent {
    Disconnected { session_id: String, sport_id: i32 },
    Reconnected { session_id: String, sport_id: i32 },
}

fn copy_opt_text(s: &Option<String>) -> (r: Option<String>)
    ensures
        opt_string_view(r) == opt_string_view(*s),
{
    match s {
        Some(t) => Some(owned(t.as_str())),
        None => None,
    }
}

/// The event a snapshot row becomes.
pub open spec fn match_event_type(m: NormalizedMatch) -> EventType {
    if m.is_live {
        EventType::MatchDiscoveredLive
    } else {
        EventType::MatchFinished
    }
}

/// The de-duplication key of that event.
pub open spec fn match_event_key(m: NormalizedMatch) -> Seq<char> {
    event_key_text(
        Some(m.match_id@),
        match_event_type(m),
        trimmed_timestamp(opt_string_view(m.source_timestamp)),
        payload_hash_spec(sanitized(m.payload@)),
    )
}

/// `e` is the event made of row `m` for sport `sport_id`, received at
/// `received_at`.
pub open spec fn event_of(e: NormalizedEvent, m: NormalizedMatch, sport_id: i32, received_at: Seq<char>) -> bool {
    &&& e.event_type == match_event_type(m)
    &&& opt_string_view(e.match_id) == Some(m.match_id@)
    &&& e.sport_id == Some(sport_id)
    &&& opt_string_view(e.source_timestamp) == trimmed_timestamp(
        opt_string_view(m.source_timestamp),
    )
    &&& e.received_at@ == received_at
    &&& e.payload@ == sanitized(m.payload@)
    &&& e.payload_hash@ == payload_hash_spec(sanitized(m.payload@))
    &&& e.event_id@ == "evt-"@ + digest_text(match_event_key(m))
    &&& e.source_event_id is None
    &&& e.feed_session_id is None
    &&& e.dataset_id is None
}

/// Admission of a snapshot, row by row: a live row marks its match as seen
/// live; a row that is not live is admitted only for a match seen live in
/// this session; an admitted row is emitted unless its event key was
/// emitted before.  Gives the live set, the emitted keys and the indices of
/// the emitted rows.
pub open spec fn ingest_fold(
    live: Set<Seq<char>>,
    seen: Set<Seq<char>>,
    ms: Seq<NormalizedMatch>,
) -> (Set<Seq<char>>, Set<Seq<char>>, Seq<int>)
    decreases ms.len(),
{
    if ms.len() == 0 {
        (live, seen, Seq::empty())
    } else {
        let prev = ingest_fold(live, seen, ms.drop_last());
        let m = ms.last();
        let l2 = if m.is_live {
            prev.0.insert(m.match_id@)
        } else {
            prev.0
        };
        if !l2.contains(m.match_id@) {
            (l2, prev.1, prev.2)
        } else if prev.1.contains(match_event_key(m)) {
            (l2, prev.1, prev.2)
        } else {
            (l2, prev.1.insert(match_event_key(m)), prev.2.push(ms.len() - 1))
        }
    }
}

/// Admitting rows never forgets a live match or an emitted key; a row that
/// is not live is emitted only for a match seen live in the session; each
/// emitted key is new to the session and emitted once.
pub proof fn ingest_admits_terminal_rows_only_after_live(
    live: Set<Seq<char>>,
    seen: Set<Seq<char>>,
    ms: Seq<NormalizedMatch>,
)
    ensures
        live.subset_of(ingest_fold(live, seen, ms).0),
        seen.subset_of(ingest_fold(live, seen, ms).1),
        forall|j: int|
            0 <= j < ingest_fold(live, seen, ms).2.len() ==> {
                let i = #[trigger] ingest_fold(live, seen, ms).2[j];
                &&& 0 <= i < ms.len()
                &&& ingest_fold(live, seen, ms).0.contains(ms[i].match_id@)
                &&& !seen.contains(match_event_key(ms[i]))
                &&& ingest_fold(live, seen, ms).1.contains(match_event_key(ms[i]))
            },
        forall|j: int, k: int|
            0 <= j < k < ingest_fold(live, seen, ms).2.len() ==> ingest_fold(live, seen, ms).2[j]
                < ingest_fold(live, seen, ms).2[k] && match_event_key(
                ms[ingest_fold(live, seen, ms).2[j]],
            ) != match_event_key(ms[ingest_fold(live, seen, ms).2[k]]),
    decreases ms.len(),
{
    if ms.len() > 0 {
        ingest_admits_terminal_rows_only_after_live(live, seen, ms.drop_last());
        let prev = ingest_fold(live, seen, ms.drop_last());
        let cur = ingest_fold(live, seen, ms);
        assert forall|j: int| 0 <= j < prev.2.len() implies ms.drop_last()[prev.2[j]] == ms[prev.2[j]] by {
        }
        assert(prev.0.subset_of(cur.0));
        assert(prev.1.subset_of(cur.1));
    }
}

/// A live session of one sport.
pub struct FeedSession<A: FeedAdapter> {
    adapter: A,
    target: OwnedTarget,
    state: SessionState,
    seen_live: Vec<String>,
    seen_events: Vec<String>,
    session_id: String,
    disconnect_notified: bool,
    config: FeedSessionConfig,
}

/// What the watchdog does on a tick.
#[derive(Debug, Clone, Copy, PartialEq, Eq, Structural)]
pub enum WatchdogAction {
    /// The browser is unhealthy: report the disconnect, recreate the
    /// target and send a heartbeat.
    Reconnect,
    /// No heartbeat for too long: mark the session stale, then as above.
    ReconnectStale,
    /// Send a heartbeat.
    Heartbeat,
    /// Nothing to do.
    Idle,
}

pub open spec fn watchdog_spec(healthy: bool, elapsed: int, heartbeat_interval: int, stale_after: int) -> WatchdogAction {
    if !healthy {
        WatchdogAction::Reconnect
    } else if elapsed >= stale_after {
        WatchdogAction::ReconnectStale
    } else if elapsed >= heartbeat_interval {
        WatchdogAction::Heartbeat
    } else {
        WatchdogAction::Idle
    }
}

/// The watchdog's decision from the browser's health and the time since the
/// last heartbeat (all times in one unit).
pub fn watchdog_action(
    healthy: bool,
    elapsed: u128,
    heartbeat_interval: u128,
    stale_after: u128,
) -> (r: WatchdogAction)
    ensures
        r == watchdog_spec(healthy, elapsed as int, heartbeat_interval as int, stale_after as int),
{
    if !healthy {
        WatchdogAction::Reconnect
    } else if elapsed >= stale_after {
        WatchdogAction::ReconnectStale
    } else if elapsed >= heartbeat_interval {
        WatchdogAction::Heartbeat
    } else {
        WatchdogAction::Idle
    }
}

/// Whether a session is stale after `elapsed` without a heartbeat.
pub fn is_stale_after(elapsed: u128, stale_after: u128) -> (r: bool)
    ensures
        r == (elapsed >= stale_after),
{
    elapsed >= stale_after
}

/// The capture order: network, then store, then DOM, each in arrival order
/// (a stable sort by priority).  Gives indices into `envs`.
pub open spec fn layer_indices(envs: Seq<SourceEnvelope>, p: u8) -> Seq<int>
    decreases envs.len(),
{
    if envs.len() == 0 {
        Seq::empty()
    } else if layer_priority(envs.last().layer) == p {
        layer_indices(envs.drop_last(), p).push(envs.len() - 1)
    } else {
        layer_indices(envs.drop_last(), p)
    }
}

pub open spec fn priority_order(envs: Seq<SourceEnvelope>) -> Seq<int> {
    layer_indices(envs, 0) + layer_indices(envs, 1) + layer_indices(envs, 2)
}

/// Whether extraction of a payload succeeds.
pub open spec fn extract_succeeds(payload: JsonV, sport_id: i32) -> bool {
    exists|v: Vec<NormalizedMatch>| extract_outcome(payload, sport_id, Ok(v))
}

pub proof fn lemma_layer_indices(envs: Seq<SourceEnvelope>, p: u8)
    ensures
        forall|j: int|
            0 <= j < layer_indices(envs, p).len() ==> 0 <= #[trigger] layer_indices(envs, p)[j]
                < envs.len() && layer_priority(envs[layer_indices(envs, p)[j]].layer) == p,
        forall|i: int|
            0 <= i < envs.len() && layer_priority(#[trigger] envs[i].layer) == p ==> layer_indices(
                envs,
                p,
            ).contains(i),
    decreases envs.len(),
{
    if envs.len() > 0 {
        lemma_layer_indices(envs.drop_last(), p);
        let prev = layer_indices(envs.drop_last(), p);
        assert forall|i: int|
            0 <= i < envs.len() && layer_priority(#[trigger] envs[i].layer) == p implies layer_indices(
            envs,
            p,
        ).contains(i) by {
            if i < envs.len() - 1 {
                assert(envs.drop_last()[i] == envs[i]);
                let k = choose|k: int| 0 <= k < prev.len() && prev[k] == i;
                if layer_priority(envs.last().layer) == p {
                    assert(layer_indices(envs, p)[k] == i);
                }
            } else {
                if layer_priority(envs.last().layer) == p {
                    assert(layer_indices(envs, p)[prev.len() as int] == i);
                }
            }
        }
    }
}

/// `e` is the error that extraction of `payload` gives.
pub open spec fn extract_error_is(payload: JsonV, sport_id: i32, e: FeedError) -> bool {
    extract_outcome(payload, sport_id, Err(e))
}

/// `new` is `old` after admitting the rows `v` of a capture with payload
/// `payload`, and `events` are the events emitted.
pub open spec fn admitted_by<A: FeedAdapter>(
    old: FeedSession<A>,
    new: FeedSession<A>,
    payload: JsonV,
    received_at: Seq<char>,
    events: Seq<NormalizedEvent>,
    v: Vec<NormalizedMatch>,
) -> bool {
    &&& extract_outcome(payload, old.spec_sport(), Ok(v))
    &&& new.spec_state() == SessionState::Connected
    &&& new.same_identity(&old)
    &&& new.live_set() == ingest_fold(old.live_set(), old.emitted_keys(), v@).0
    &&& new.emitted_keys() == ingest_fold(old.live_set(), old.emitted_keys(), v@).1
    &&& events.len() == ingest_fold(old.live_set(), old.emitted_keys(), v@).2.len()
    &&& forall|j: int|
        0 <= j < events.len() ==> event_of(
            #[trigger] events[j],
            v@[ingest_fold(old.live_set(), old.emitted_keys(), v@).2[j]],
            old.spec_sport(),
            received_at,
        )
}

pub open spec fn admitted<A: FeedAdapter>(
    old: FeedSession<A>,
    new: FeedSession<A>,
    payload: JsonV,
    received_at: Seq<char>,
    events: Seq<NormalizedEvent>,
) -> bool {
    exists|v: Vec<NormalizedMatch>| admitted_by(old, new, payload, received_at, events, v)
}

/// The idempotency key of an event, as `NormalizedEvent::event_key` gives it.
pub open spec fn event_key_of(e: NormalizedEvent) -> Seq<char> {
    event_key_text(
        opt_string_view(e.match_id),
        e.event_type,
        opt_string_view(e.source_timestamp),
        e.payload_hash@,
    )
}

/// One ingest returns each event key at most once: the keys of the returned
/// events are pairwise distinct, none was emitted before in the session, and
/// every one is emitted afterwards.
pub proof fn one_ingest_emits_each_key_once<A: FeedAdapter>(
    old: FeedSession<A>,
    new: FeedSession<A>,
    payload: JsonV,
    received_at: Seq<char>,
    events: Seq<NormalizedEvent>,
)
    requires
        admitted(old, new, payload, received_at, events),
    ensures
        forall|j: int, k: int|
            0 <= j < k < events.len() ==> event_key_of(#[trigger] events[j]) != event_key_of(
                #[trigger] events[k],
            ),
        forall|j: int|
            0 <= j < events.len() ==> !old.emitted_keys().contains(event_key_of(#[trigger] events[j]))
                && new.emitted_keys().contains(event_key_of(events[j])),
{
    let v = choose|v: Vec<NormalizedMatch>| admitted_by(old, new, payload, received_at, events, v);
    let f = ingest_fold(old.live_set(), old.emitted_keys(), v@);
    ingest_admits_terminal_rows_only_after_live(old.live_set(), old.emitted_keys(), v@);
    assert forall|j: int| 0 <= j < events.len() implies event_key_of(#[trigger] events[j])
        == match_event_key(v@[f.2[j]]) by {
        assert(event_of(events[j], v@[f.2[j]], old.spec_sport(), received_at));
    }
    assert forall|j: int, k: int| 0 <= j < k < events.len() implies event_key_of(
        #[trigger] events[j],
    ) != event_key_of(#[trigger] events[k]) by {
        assert(event_key_of(events[j]) == match_event_key(v@[f.2[j]]));
        assert(event_key_of(events[k]) == match_event_key(v@[f.2[k]]));
    }
    assert forall|j: int| 0 <= j < events.len() implies !old.emitted_keys().contains(
        event_key_of(#[trigger] events[j]),
    ) && new.emitted_keys().contains(event_key_of(events[j])) by {
        assert(event_key_of(events[j]) == match_event_key(v@[f.2[j]]));
        let i = f.2[j];
        assert(0 <= i < v@.len());
    }
}

/// The outcome of trying non-empty captures in priority order.
pub open spec fn preferred_outcome<A: FeedAdapter>(
    old: FeedSession<A>,
    new: FeedSession<A>,
    envs: Seq<SourceEnvelope>,
    received_at: Seq<char>,
    r: Result<Vec<NormalizedEvent>, FeedError>,
) -> bool {
    let order = priority_order(envs);
    match r {
        Err(e) => {
            &&& new == old
            &&& forall|k: int|
                0 <= k < order.len() ==> !extract_succeeds(
                    envs[#[trigger] order[k]].payload@,
                    old.spec_sport(),
                )
            &&& order.len() > 0
            &&& extract_error_is(envs[order.last()].payload@, old.spec_sport(), e)
        },
        Ok(events) => exists|k: int|
            0 <= k < order.len() && (forall|m: int|
                0 <= m < k ==> !extract_succeeds(envs[#[trigger] order[m]].payload@, old.spec_sport()))
                && admitted(old, new, envs[order[k]].payload@, received_at, events@),
    }
}

/// The captures of one cycle in arrival order, or `None` when the target
/// is lost: not connected, or no network capture and the fallbacks failed.
pub open spec fn capture_sources(
    capture: Option<(Option<SourceEnvelope>, Result<Vec<SourceEnvelope>, FeedBrowserError>)>,
) -> Option<Seq<SourceEnvelope>> {
    match capture {
        None => None,
        Some((None, Err(_))) => None,
        Some((Some(n), Err(_))) => Some(seq![n]),
        Some((None, Ok(f))) => Some(f@),
        Some((Some(n), Ok(f))) => Some(seq![n] + f@),
    }
}

impl<A: FeedAdapter> FeedSession<A> {
    pub closed spec fn live_set(&self) -> Set<Seq<char>> {
        names(self.seen_live@)
    }

    pub closed spec fn emitted_keys(&self) -> Set<Seq<char>> {
        names(self.seen_events@)
    }

    pub closed spec fn spec_state(&self) -> SessionState {
        self.state
    }

    pub closed spec fn spec_session_id(&self) -> Seq<char> {
        self.session_id@
    }

    pub closed spec fn spec_sport(&self) -> i32 {
        self.adapter.sport()
    }

    pub closed spec fn spec_name(&self) -> Seq<char> {
        self.adapter.sport_name()
    }

    pub closed spec fn notified(&self) -> bool {
        self.disconnect_notified
    }

    pub closed spec fn spec_target(&self) -> OwnedTarget {
        self.target
    }

    pub closed spec fn spec_adapter(&self) -> A {
        self.adapter
    }

    pub closed spec fn spec_config(&self) -> FeedSessionConfig {
        self.config
    }

    /// Everything but the state and the two sets.
    pub open spec fn same_identity(&self, other: &Self) -> bool {
        &&& self.spec_session_id() == other.spec_session_id()
        &&& self.spec_sport() == other.spec_sport()
        &&& self.spec_name() == other.spec_name()
        &&& self.spec_target() == other.spec_target()
        &&& self.notified() == other.notified()
        &&& self.spec_adapter() == other.spec_adapter()
        &&& self.spec_config() == other.spec_config()
    }

    /// A new session: ready, nothing seen, named `feed-` and a fresh random
    /// identifier.
    pub fn new(adapter: A, target: OwnedTarget, config: FeedSessionConfig) -> (r: Self)
        ensures
            r.spec_state() == SessionState::Ready,
            r.live_set() == Set::<Seq<char>>::empty(),
            r.emitted_keys() == Set::<Seq<char>>::empty(),
            exists|u: Seq<char>| uuid_v4_text(u) && r.spec_session_id() == "feed-"@ + u,
            r.spec_sport() == adapter.sport(),
            r.spec_name() == adapter.sport_name(),
            r.spec_target() == target,
            r.spec_adapter() == adapter,
            r.spec_config() == config,
            !r.notified(),
    {
        let id = new_uuid();
        let mut sid: Vec<char> = Vec::new();
        proof {
            reveal_strlit("feed-");
        }
        crate::text::extend_str(&mut sid, "feed-");
        crate::text::extend_str(&mut sid, id.as_str());
        assert(sid@ =~= "feed-"@ + id@);
        let r = FeedSession {
            adapter,
            target,
            state: SessionState::Ready,
            seen_live: Vec::new(),
            seen_events: Vec::new(),
            session_id: crate::text::string_from_chars(&sid),
            disconnect_notified: false,
            config,
        };
        assert(names(r.seen_live@) =~= Set::<Seq<char>>::empty());
        assert(names(r.seen_events@) =~= Set::<Seq<char>>::empty());
        r
    }

    pub fn adapter(&self) -> (r: &A)
        ensures
            *r == self.spec_adapter(),
    {
        &self.adapter
    }

    pub fn target(&self) -> (r: &OwnedTarget)
        ensures
            *r == self.spec_target(),
    {
        &self.target
    }

    pub fn state(&self) -> (r: SessionState)
        ensures
            r == self.spec_state(),
    {
        self.state
    }

    pub fn session_id(&self) -> (r: &str)
        ensures
            r@ == self.spec_session_id(),
    {
        self.session_id.as_str()
    }

    pub fn config(&self) -> (r: &FeedSessionConfig)
        ensures
            *r == self.spec_config(),
    {
        &self.config
    }

    fn sport_payload(&self) -> (r: Json)
        ensures
            r@ == JsonV::Object(seq![("sport"@, JsonV::Str(self.spec_name()))]),
    {
        let name = self.adapter.name();
        let mut fields: Vec<(String, Json)> = Vec::new();
        fields.push((owned("sport"), Json::Str(owned(name))));
        proof {
            crate::json::lemma_fields_view(fields@);
            assert(crate::json::fields_view(fields@) =~= seq![("sport"@, JsonV::Str(self.spec_name()))]);
        }
        Json::Object(fields)
    }

    /// A heartbeat: the session is connected.
    pub fn heartbeat(&mut self, received_at: String) -> (r: NormalizedEvent)
        ensures
            final(self).spec_state() == SessionState::Connected,
            final(self).same_identity(old(self)),
            final(self).live_set() == old(self).live_set(),
            final(self).emitted_keys() == old(self).emitted_keys(),
            r.event_type == EventType::FeedHeartbeat,
            r.match_id is None,
            r.sport_id == Some(old(self).spec_sport()),
            r.source_timestamp is None,
            r.received_at == received_at,
            r.payload@ == sanitized(JsonV::Object(seq![("sport"@, JsonV::Str(old(self).spec_name()))])),
    {
        self.state = SessionState::Connected;
        let payload = self.sport_payload();
        NormalizedEvent::new(
            EventType::FeedHeartbeat,
            None,
            Some(self.adapter.sport_id()),
            None,
            received_at,
            payload,
        )
    }

    /// A transport disconnect.  The lifecycle event is given only for the
    /// first disconnect since the last reconnect.
    pub fn mark_disconnected(&mut self, received_at: String) -> (r: (NormalizedEvent, Option<FeedLifecycleEvent>))
        ensures
            final(self).spec_state() == SessionState::Disconnected,
            final(self).notified(),
            final(self).spec_session_id() == old(self).spec_session_id(),
            final(self).spec_sport() == old(self).spec_sport(),
            final(self).spec_name() == old(self).spec_name(),
            final(self).spec_target() == old(self).spec_target(),
            final(self).live_set() == old(self).live_set(),
            final(self).emitted_keys() == old(self).emitted_keys(),
            r.0.event_type == EventType::FeedDisconnected,
            r.0.match_id is None,
            r.0.sport_id == Some(old(self).spec_sport()),
            r.0.received_at == received_at,
            r.0.payload@ == sanitized(JsonV::Object(seq![("sport"@, JsonV::Str(old(self).spec_name()))])),
            match r.1 {
                Some(FeedLifecycleEvent::Disconnected { session_id, sport_id }) => !old(self).notified()
                    && session_id@ == old(self).spec_session_id() && sport_id == old(self).spec_sport(),
                Some(FeedLifecycleEvent::Reconnected { .. }) => false,
                None => old(self).notified(),
            },
    {
        self.state = SessionState::Disconnected;
        let mut lifecycle: Option<FeedLifecycleEvent> = None;
        if !self.disconnect_notified {
            self.disconnect_notified = true;
            lifecycle = Some(
                FeedLifecycleEvent::Disconnected {
                    session_id: owned(self.session_id.as_str()),
                    sport_id: self.adapter.sport_id(),
                },
            );
        }
        let payload = self.sport_payload();
        let event = NormalizedEvent::new(
            EventType::FeedDisconnected,
            None,
            Some(self.adapter.sport_id()),
            None,
            received_at,
            payload,
        );
        (event, lifecycle)
    }

    /// The target was recreated: the session is connected again.  The
    /// lifecycle event is given when a disconnect was reported before.
    pub fn reconnected(&mut self, target: OwnedTarget) -> (r: Option<FeedLifecycleEvent>)
        ensures
            final(self).spec_state() == SessionState::Connected,
            final(self).spec_target() == target,
            !final(self).notified(),
            final(self).spec_session_id() == old(self).spec_session_id(),
            final(self).spec_sport() == old(self).spec_sport(),
            final(self).spec_name() == old(self).spec_name(),
            final(self).live_set() == old(self).live_set(),
            final(self).emitted_keys() == old(self).emitted_keys(),
            match r {
                Some(FeedLifecycleEvent::Reconnected { session_id, sport_id }) => old(self).notified()
                    && session_id@ == old(self).spec_session_id() && sport_id == old(self).spec_sport(),
                Some(FeedLifecycleEvent::Disconnected { .. }) => false,
                None => !old(self).notified(),
            },
    {
        self.target = target;
        self.state = SessionState::Connected;
        if self.disconnect_notified {
            self.disconnect_notified = false;
            Some(
                FeedLifecycleEvent::Reconnected {
                    session_id: owned(self.session_id.as_str()),
                    sport_id: self.adapter.sport_id(),
                },
            )
        } else {
            None
        }
    }

    /// Set the session's state (stale before a reconnect, stopped at
    /// shutdown, disconnected when the source changed).
    pub fn set_state(&mut self, state: SessionState)
        ensures
            final(self).spec_state() == state,
            final(self).same_identity(old(self)),
            final(self).live_set() == old(self).live_set(),
            final(self).emitted_keys() == old(self).emitted_keys(),
    {
        self.state = state;
    }

    /// Admits the rows of a validated snapshot (see `ingest_fold`).
    pub fn ingest_snapshot(&mut self, snapshot: &Vec<NormalizedMatch>, received_at: &str) -> (r: Vec<NormalizedEvent>)
        ensures
            final(self).spec_state() == SessionState::Connected,
            final(self).same_identity(old(self)),
            final(self).live_set() == ingest_fold(old(self).live_set(), old(self).emitted_keys(), snapshot@).0,
            final(self).emitted_keys() == ingest_fold(old(self).live_set(), old(self).emitted_keys(), snapshot@).1,
            r@.len() == ingest_fold(old(self).live_set(), old(self).emitted_keys(), snapshot@).2.len(),
            forall|j: int|
                0 <= j < r@.len() ==> event_of(
                    #[trigger] r@[j],
                    snapshot@[ingest_fold(old(self).live_set(), old(self).emitted_keys(), snapshot@).2[j]],
                    old(self).spec_sport(),
                    received_at@,
                ),
    {
        self.state = SessionState::Connected;
        let ghost live0 = names(self.seen_live@);
        let ghost seen0 = names(self.seen_events@);
        let mut events: Vec<NormalizedEvent> = Vec::new();
        let mut i: usize = 0;
        while i < snapshot.len()
            invariant
                i <= snapshot.len(),
                self.same_identity(old(self)),
                self.state == SessionState::Connected,
                live0 == old(self).live_set(),
                seen0 == old(self).emitted_keys(),
                names(self.seen_live@) == ingest_fold(live0, seen0, snapshot@.take(i as int)).0,
                names(self.seen_events@) == ingest_fold(live0, seen0, snapshot@.take(i as int)).1,
                events@.len() == ingest_fold(live0, seen0, snapshot@.take(i as int)).2.len(),
                forall|j: int|
                    0 <= j < events@.len() ==> 0 <= #[trigger] ingest_fold(live0, seen0, snapshot@.take(i as int)).2[j] < i,
                forall|j: int|
                    0 <= j < events@.len() ==> event_of(
                        #[trigger] events@[j],
                        snapshot@[ingest_fold(live0, seen0, snapshot@.take(i as int)).2[j]],
                        self.adapter.sport(),
                        received_at@,
                    ),
            decreases snapshot.len() - i,
        {
            let ghost prefix = snapshot@.take(i as int);
            assert(snapshot@.take(i + 1).drop_last() =~= prefix);
            assert(snapshot@.take(i + 1).last() == snapshot@[i as int]);
            let item = &snapshot[i];
            let id = item.match_id.as_str();
            if item.is_live {
                add_name(&mut self.seen_live, id);
            }
            if !item.is_live && !contains_name(&self.seen_live, id) {
                i = i + 1;
                continue;
            }
            let event_type = if !item.is_live {
                EventType::MatchFinished
            } else {
                EventType::MatchDiscoveredLive
            };
            let event = NormalizedEvent::new(
                event_type,
                Some(owned(id)),
                Some(self.adapter.sport_id()),
                copy_opt_text(&item.source_timestamp),
                owned(received_at),
                json_clone(&item.payload),
            );
            let key = event.event_key();
            if !contains_name(&self.seen_events, key.as_str()) {
                add_name(&mut self.seen_events, key.as_str());
                events.push(event);
            }
            i = i + 1;
        }
        assert(snapshot@.take(snapshot@.len() as int) =~= snapshot@);
        events
    }

    /// Validates a capture with the sport's adapter and admits its rows.  A
    /// capture that breaks the contract changes nothing.
    pub fn ingest(&mut self, envelope: &SourceEnvelope, received_at: &str) -> (r: Result<Vec<NormalizedEvent>, FeedError>)
        ensures
            match r {
                Err(e) => extract_error_is(envelope.payload@, old(self).spec_sport(), e) && *final(self) == *old(self),
                Ok(events) => admitted(*old(self), *final(self), envelope.payload@, received_at@, events@),
            },
    {
        let snapshot = match self.adapter.extract(envelope) {
            Ok(v) => v,
            Err(e) => {
                return Err(e);
            },
        };
        let events = self.ingest_snapshot(&snapshot, received_at);
        assert(admitted_by(*old(self), *self, envelope.payload@, received_at@, events@, snapshot));
        Ok(events)
    }

    /// Tries the captures in priority order (network, store, DOM) and admits
    /// the first that passes the contract; when none does, the error of the
    /// last one tried is returned and nothing changes.
    pub fn ingest_preferred(&mut self, envelopes: &Vec<SourceEnvelope>, received_at: &str) -> (r: Result<Vec<NormalizedEvent>, FeedError>)
        ensures
            envelopes@.len() == 0 ==> (r matches Err(e) && e@ == FeedErrorV::SourceChanged(
                "no feed source available"@,
            ) && *final(self) == *old(self)),
            envelopes@.len() > 0 ==> preferred_outcome(*old(self), *final(self), envelopes@, received_at@, r),
    {
        if envelopes.len() == 0 {
            return Err(FeedError::SourceChanged(owned("no feed source available")));
        }
        let order = priority_indices(envelopes);
        proof {
            lemma_layer_indices(envelopes@, 0);
            lemma_layer_indices(envelopes@, 1);
            lemma_layer_indices(envelopes@, 2);
            let i = 0int;
            let p = layer_priority(envelopes@[i].layer);
            assert(layer_indices(envelopes@, p).contains(i));
            assert(priority_order(envelopes@).len() > 0);
        }
        let mut last_error: Option<FeedError> = None;
        let mut k: usize = 0;
        while k < order.len()
            invariant
                k <= order.len(),
                order@.len() == priority_order(envelopes@).len(),
                order@.len() > 0,
                forall|j: int| 0 <= j < order@.len() ==> order@[j] as int == #[trigger] priority_order(envelopes@)[j],
                forall|j: int| 0 <= j < order@.len() ==> 0 <= #[trigger] priority_order(envelopes@)[j] < envelopes@.len(),
                *self == *old(self),
                forall|m: int|
                    0 <= m < k ==> !extract_succeeds(
                        envelopes@[#[trigger] priority_order(envelopes@)[m]].payload@,
                        old(self).spec_sport(),
                    ),
                k > 0 ==> (last_error matches Some(e) && extract_error_is(
                    envelopes@[priority_order(envelopes@)[k - 1]].payload@,
                    old(self).spec_sport(),
                    e,
                )),
            decreases order.len() - k,
        {
            let idx = order[k];
            match self.ingest(&envelopes[idx], received_at) {
                Ok(events) => {
                    proof {
                        let v = choose|v: Vec<NormalizedMatch>| admitted_by(*old(self), *self, envelopes@[idx as int].payload@, received_at@, events@, v);
                        assert(extract_outcome(envelopes@[idx as int].payload@, old(self).spec_sport(), Ok(v)));
                        assert(extract_succeeds(envelopes@[priority_order(envelopes@)[k as int]].payload@, old(self).spec_sport()));
                    }
                    return Ok(events);
                },
                Err(e) => {
                    proof {
                        if extract_succeeds(envelopes@[idx as int].payload@, old(self).spec_sport()) {
                            let v = choose|v: Vec<NormalizedMatch>|
                                extract_outcome(envelopes@[idx as int].payload@, old(self).spec_sport(), Ok(v));
                            lemma_extract_outcome_exclusive(envelopes@[idx as int].payload@, old(self).spec_sport(), v, e);
                        }
                    }
                    last_error = Some(e);
                },
            }
            k = k + 1;
        }
        match last_error {
            Some(e) => Err(e),
            None => Err(FeedError::SourceChanged(owned("no valid feed source"))),
        }
    }

    /// One capture cycle after the application has tried the target.
    /// `capture` is `None` when the target could not be connected; otherwise
    /// it holds the network capture, if any, and the fallback captures.
    /// Without a connection, or with neither a network capture nor
    /// fallbacks, the disconnect is reported; with no capture at all there
    /// is nothing to admit; otherwise the captures go to `ingest_preferred`.
    pub fn poll_step(
        &mut self,
        capture: Option<(Option<SourceEnvelope>, Result<Vec<SourceEnvelope>, FeedBrowserError>)>,
        received_at: String,
    ) -> (r: (Result<Vec<NormalizedEvent>, FeedError>, Option<FeedLifecycleEvent>))
        ensures
            match capture_sources(capture) {
                None => {
                    &&& r.0 matches Err(e) && e@ == FeedErrorV::Disconnected
                    &&& final(self).spec_state() == SessionState::Disconnected
                    &&& final(self).notified()
                    &&& final(self).spec_session_id() == old(self).spec_session_id()
                    &&& final(self).spec_target() == old(self).spec_target()
                    &&& final(self).live_set() == old(self).live_set()
                    &&& final(self).emitted_keys() == old(self).emitted_keys()
                    &&& (r.1 is Some <==> !old(self).notified())
                },
                Some(sources) => {
                    &&& r.1 is None
                    &&& sources.len() == 0 ==> (r.0 matches Ok(v) && v@.len() == 0 && *final(self) == *old(self))
                    &&& sources.len() > 0 ==> preferred_outcome(*old(self), *final(self), sources, received_at@, r.0)
                },
            },
    {
        match capture {
            None => {
                let (_, lifecycle) = self.mark_disconnected(received_at);
                (Err(FeedError::Disconnected), lifecycle)
            },
            Some((network, fallbacks)) => {
                let mut sources: Vec<SourceEnvelope> = Vec::new();
                let had_network = network.is_some();
                match network {
                    Some(n) => sources.push(n),
                    None => {},
                }
                match fallbacks {
                    Ok(mut f) => sources.append(&mut f),
                    Err(_) => {
                        if !had_network {
                            let (_, lifecycle) = self.mark_disconnected(received_at);
                            return (Err(FeedError::Disconnected), lifecycle);
                        }
                    },
                }
                if sources.len() == 0 {
                    return (Ok(Vec::new()), None);
                }
                let r = self.ingest_preferred(&sources, received_at.as_str());
                (r, None)
            },
        }
    }
}

/// What the runtime loop does after a capture cycle.
pub enum RunStep {
    /// Keep these events and go on.
    Continue(Vec<NormalizedEvent>),
    /// The target was lost: recreate it and go on.
    Reconnect,
    /// Stop with this error.
    Stop(FeedError),
}

/// A lost connection is recovered; a changed source stops the run (the
/// session is then disconnected); any other error stops it too.
pub fn run_step(polled: Result<Vec<NormalizedEvent>, FeedError>) -> (r: RunStep)
    ensures
        match polled {
            Ok(v) => r matches RunStep::Continue(w) && w@ == v@,
            Err(FeedError::Disconnected) => r is Reconnect,
            Err(e) => r matches RunStep::Stop(f) && f@ == e@,
        },
{
    match polled {
        Ok(v) => RunStep::Continue(v),
        Err(FeedError::Disconnected) => RunStep::Reconnect,
        Err(e) => RunStep::Stop(e),
    }
}

/// Indices of the captures in priority order.
pub fn priority_indices(envs: &Vec<SourceEnvelope>) -> (r: Vec<usize>)
    ensures
        r@.len() == priority_order(envs@).len(),
        forall|j: int| 0 <= j < r@.len() ==> r@[j] as int == #[trigger] priority_order(envs@)[j],
{
    let mut out: Vec<usize> = Vec::new();
    let mut p: u8 = 0;
    let ghost mut done: Seq<int> = Seq::empty();
    while p < 3
        invariant
            p <= 3,
            done == (if p == 0 {
                Seq::<int>::empty()
            } else if p == 1 {
                layer_indices(envs@, 0)
            } else if p == 2 {
                layer_indices(envs@, 0) + layer_indices(envs@, 1)
            } else {
                priority_order(envs@)
            }),
            out@.len() == done.len(),
            forall|j: int| 0 <= j < out@.len() ==> out@[j] as int == #[trigger] done[j],
        decreases 3 - p,
    {
        let mut i: usize = 0;
        let ghost start = out@.len();
        while i < envs.len()
            invariant
                i <= envs.len(),
                p < 3,
                start == done.len(),
                out@.len() == done.len() + layer_indices(envs@.take(i as int), p).len(),
                forall|j: int| 0 <= j < done.len() ==> out@[j] as int == #[trigger] done[j],
                forall|j: int|
                    0 <= j < layer_indices(envs@.take(i as int), p).len() ==> out@[start + j] as int
                        == #[trigger] layer_indices(envs@.take(i as int), p)[j],
            decreases envs.len() - i,
        {
            assert(envs@.take(i + 1).drop_last() =~= envs@.take(i as int));
            if envs[i].layer.priority() == p {
                out.push(i);
            }
            i = i + 1;
        }
        assert(envs@.take(envs@.len() as int) =~= envs@);
        proof {
            let add = layer_indices(envs@, p);
            let nd = done + add;
            assert forall|j: int| 0 <= j < out@.len() implies out@[j] as int == #[trigger] nd[j] by {
                if j >= done.len() {
                    assert(out@[start + (j - start)] as int == add[j - start]);
                }
            }
            done = nd;
        }
        p = p + 1;
    }
    out
}

/// Extraction of one payload cannot both succeed and fail.
pub proof fn lemma_extract_outcome_exclusive(payload: JsonV, sport_id: i32, v: Vec<NormalizedMatch>, e: FeedError)
    requires
        extract_outcome(payload, sport_id, Ok(v)),
    ensures
        !extract_outcome(payload, sport_id, Err(e)),
{
}

/// Extraction never reports a lost connection.
pub proof fn lemma_extract_error_not_disconnected(payload: JsonV, sport_id: i32, e: FeedError)
    requires
        extract_outcome(payload, sport_id, Err(e)),
    ensures
        !(e is Disconnected),
{
}

/// Calls `SystemTime::now().duration_since(UNIX_EPOCH)`: the whole seconds
/// since the Unix epoch, or `None` when the clock is set before it.  The
/// result depends on the clock, so nothing is stated of it.
#[verifier::external_body]
fn unix_seconds() -> Option<u64> {
    match std::time::SystemTime::now().duration_since(std::time::UNIX_EPOCH) {
        Ok(d) => Some(d.as_secs()),
        Err(_) => None,
    }
}

/// The current Unix time in whole seconds as decimal text, `0` when the
/// clock is before the epoch.
pub fn now() -> (r: String)
    ensures
        exists|n: nat| r@ == crate::json::nat_text(n),
{
    match unix_seconds() {
        Some(s) => {
            let d = crate::json::nat_digits(s);
            crate::text::string_from_chars(&d)
        },
        None => {
            let d = crate::json::nat_digits(0);
            crate::text::string_from_chars(&d)
        },
    }
}

/// A lower-case hexadecimal digit.
pub open spec fn is_lower_hex(c: char) -> bool {
    ('0' <= c && c <= '9') || ('a' <= c && c <= 'f')
}

/// The hyphenated lower-case text of a random (version 4, RFC 4122 variant)
/// UUID: 32 hex digits in groups of 8-4-4-4-12, the version digit `4` and a
/// variant digit of `8`, `9`, `a` or `b`.
pub open spec fn uuid_v4_text(s: Seq<char>) -> bool {
    &&& s.len() == 36
    &&& forall|i: int|
        0 <= i < 36 ==> if i == 8 || i == 13 || i == 18 || i == 23 {
            #[trigger] s[i] == '-'
        } else {
            is_lower_hex(s[i])
        }
    &&& s[14] == '4'
    &&& (s[19] == '8' || s[19] == '9' || s[19] == 'a' || s[19] == 'b')
}

/// Calls `uuid::Uuid::new_v4` and formats it with `Display`, which writes
/// the hyphenated lower-case form; `new_v4` sets the version and variant
/// bits.  The other digits are random, so only that shape is stated.
#[verifier::external_body]
pub(crate) fn new_uuid() -> (r: String)
    ensures
        uuid_v4_text(r@),
{
    uuid::Uuid::new_v4().to_string()
}

} // verus!
