use vstd::prelude::*;
use crate::domain::events::{opt_str_view, opt_string_view, EventType, NormalizedEvent};
use std::cmp::Ordering;
pub use crate::storage::repositories::MatchSnapshot;
use crate::text::{
    chars_eq_str, chars_of, lemma_seq_order, order_chars, seq_order, status_norm, status_norm_exec,
    trim, trim_str,
};

verus! {

/// The canonical lifecycle state of a match.
#[derive(Debug, Clone, Copy, PartialEq, Eq, Structural)]
pub enum InternalState {
    DiscoveredLive,
    Live,
    HalfTime,
    Paused,
    Finishing,
    Finished,
    Cancelled,
    Postponed,
    Abandoned,
    RecoveryPending,
    Finalized,
    Unknown,
}

pub open spec fn state_name(s: InternalState) -> Seq<char> {
    match s {
        InternalState::DiscoveredLive => "DISCOVERED_LIVE"@,
        InternalState::Live => "LIVE"@,
        InternalState::HalfTime => "HALF_TIME"@,
        InternalState::Paused => "PAUSED"@,
        InternalState::Finishing => "FINISHING"@,
        InternalState::Finished => "FINISHED"@,
        InternalState::Cancelled => "CANCELLED"@,
        InternalState::Postponed => "POSTPONED"@,
        InternalState::Abandoned => "ABANDONED"@,
        InternalState::RecoveryPending => "RECOVERY_PENDING"@,
        InternalState::Finalized => "FINALIZED"@,
        InternalState::Unknown => "UNKNOWN"@,
    }
}

/// A trimmed storage text without one pair of surrounding double quotes.
pub open spec fn unquote(t: Seq<char>) -> Seq<char> {
    if t.len() >= 2 && t[0] == '"' && t.last() == '"' {
        t.subrange(1, t.len() - 1)
    } else {
        t
    }
}

/// The state named by an uppercased storage key.
pub open spec fn state_for_key(k: Seq<char>) -> Option<InternalState> {
    if k == "DISCOVERED_LIVE"@ {
        Some(InternalState::DiscoveredLive)
    } else if k == "LIVE"@ {
        Some(InternalState::Live)
    } else if k == "HALF_TIME"@ || k == "HALFTIME"@ {
        Some(InternalState::HalfTime)
    } else if k == "PAUSED"@ {
        Some(InternalState::Paused)
    } else if k == "FINISHING"@ {
        Some(InternalState::Finishing)
    } else if k == "FINISHED"@ {
        Some(InternalState::Finished)
    } else if k == "CANCELLED"@ || k == "CANCELED"@ {
        Some(InternalState::Cancelled)
    } else if k == "POSTPONED"@ {
        Some(InternalState::Postponed)
    } else if k == "ABANDONED"@ {
        Some(InternalState::Abandoned)
    } else if k == "RECOVERY_PENDING"@ {
        Some(InternalState::RecoveryPending)
    } else if k == "FINALIZED"@ {
        Some(InternalState::Finalized)
    } else if k == "UNKNOWN"@ {
        Some(InternalState::Unknown)
    } else {
        None
    }
}

/// `InternalState::from_storage` on a text.
pub open spec fn state_from_storage(s: Seq<char>) -> Option<InternalState> {
    state_for_key(crate::text::upper_seq(unquote(trim(s))))
}

pub open spec fn state_is_terminal(s: InternalState) -> bool {
    ||| s == InternalState::Finished
    ||| s == InternalState::Cancelled
    ||| s == InternalState::Postponed
    ||| s == InternalState::Abandoned
    ||| s == InternalState::Finalized
}

pub open spec fn state_is_live(s: InternalState) -> bool {
    ||| s == InternalState::DiscoveredLive
    ||| s == InternalState::Live
    ||| s == InternalState::HalfTime
    ||| s == InternalState::Paused
    ||| s == InternalState::Finishing
}

/// Position of a state in the forward lifecycle order.
pub open spec fn state_rank(s: InternalState) -> int {
    match s {
        InternalState::Unknown => 0,
        InternalState::DiscoveredLive => 1,
        InternalState::Live => 2,
        InternalState::HalfTime => 3,
        InternalState::Paused => 4,
        InternalState::Finishing => 5,
        InternalState::Finished => 6,
        InternalState::Cancelled => 6,
        InternalState::Postponed => 6,
        InternalState::Abandoned => 6,
        InternalState::RecoveryPending => 7,
        InternalState::Finalized => 8,
    }
}

impl InternalState {
    pub fn as_str(self) -> (r: &'static str)
        ensures
            r@ == state_name(self),
    {
        match self {
            InternalState::DiscoveredLive => "DISCOVERED_LIVE",
            InternalState::Live => "LIVE",
            InternalState::HalfTime => "HALF_TIME",
            InternalState::Paused => "PAUSED",
            InternalState::Finishing => "FINISHING",
            InternalState::Finished => "FINISHED",
            InternalState::Cancelled => "CANCELLED",
            InternalState::Postponed => "POSTPONED",
            InternalState::Abandoned => "ABANDONED",
            InternalState::RecoveryPending => "RECOVERY_PENDING",
            InternalState::Finalized => "FINALIZED",
            InternalState::Unknown => "UNKNOWN",
        }
    }

    /// Read plain SQLite text, while accepting the quoted legacy form.
    pub fn from_storage(value: &str) -> (r: Option<Self>)
        ensures
            r == state_from_storage(value@),
    {
        let t = trim_str(value);
        let n = t.len();
        let mut inner: Vec<char> = Vec::new();
        if n >= 2 && t[0] == '"' && t[n - 1] == '"' {
            let mut i: usize = 1;
            while i < n - 1
                invariant
                    n == t.len(),
                    n >= 2,
                    1 <= i <= n - 1,
                    inner@ == t@.subrange(1, i as int),
                decreases n - 1 - i,
            {
                inner.push(t[i]);
                i = i + 1;
                assert(t@.subrange(1, i as int) =~= t@.subrange(1, i - 1).push(t@[i - 1]));
            }
        } else {
            inner = t;
        }
        assert(inner@ == unquote(trim(value@)));
        let k = crate::text::upper_chars(&inner);
        if chars_eq_str(&k, "DISCOVERED_LIVE") {
            Some(InternalState::DiscoveredLive)
        } else if chars_eq_str(&k, "LIVE") {
            Some(InternalState::Live)
        } else if chars_eq_str(&k, "HALF_TIME") || chars_eq_str(&k, "HALFTIME") {
            Some(InternalState::HalfTime)
        } else if chars_eq_str(&k, "PAUSED") {
            Some(InternalState::Paused)
        } else if chars_eq_str(&k, "FINISHING") {
            Some(InternalState::Finishing)
        } else if chars_eq_str(&k, "FINISHED") {
            Some(InternalState::Finished)
        } else if chars_eq_str(&k, "CANCELLED") || chars_eq_str(&k, "CANCELED") {
            Some(InternalState::Cancelled)
        } else if chars_eq_str(&k, "POSTPONED") {
            Some(InternalState::Postponed)
        } else if chars_eq_str(&k, "ABANDONED") {
            Some(InternalState::Abandoned)
        } else if chars_eq_str(&k, "RECOVERY_PENDING") {
            Some(InternalState::RecoveryPending)
        } else if chars_eq_str(&k, "FINALIZED") {
            Some(InternalState::Finalized)
        } else if chars_eq_str(&k, "UNKNOWN") {
            Some(InternalState::Unknown)
        } else {
            None
        }
    }

    pub fn is_terminal(self) -> (r: bool)
        ensures
            r == state_is_terminal(self),
    {
        match self {
            InternalState::Finished | InternalState::Cancelled | InternalState::Postponed
            | InternalState::Abandoned | InternalState::Finalized => true,
            _ => false,
        }
    }

    pub fn is_live(self) -> (r: bool)
        ensures
            r == state_is_live(self),
    {
        match self {
            InternalState::DiscoveredLive | InternalState::Live | InternalState::HalfTime
            | InternalState::Paused | InternalState::Finishing => true,
            _ => false,
        }
    }

    pub fn rank(self) -> (r: u8)
        ensures
            r as int == state_rank(self),
    {
        match self {
            InternalState::Unknown => 0,
            InternalState::DiscoveredLive => 1,
            InternalState::Live => 2,
            InternalState::HalfTime => 3,
            InternalState::Paused => 4,
            InternalState::Finishing => 5,
            InternalState::Finished | InternalState::Cancelled | InternalState::Postponed
            | InternalState::Abandoned => 6,
            InternalState::RecoveryPending => 7,
            InternalState::Finalized => 8,
        }
    }
}

/// Evidence that a source row is (or was) live.
#[derive(Debug, Clone, PartialEq, Eq)]
pub struct AdmissionEvidence {
    pub source_status: Option<String>,
    pub started: bool,
    pub clock: Option<String>,
    pub period: Option<String>,
    pub home_score: Option<i64>,
    pub away_score: Option<i64>,
}

impl Default for AdmissionEvidence {
    fn default() -> (r: Self)
        ensures
            r.source_status is None,
            !r.started,
            r.clock is None,
            r.period is None,
            r.home_score is None,
            r.away_score is None,
    {
        AdmissionEvidence {
            source_status: None,
            started: false,
            clock: None,
            period: None,
            home_score: None,
            away_score: None,
        }
    }
}

/// Non-empty after trimming.
pub open spec fn filled(t: Option<String>) -> bool {
    match t {
        Some(s) => trim(s@).len() > 0,
        None => false,
    }
}

pub open spec fn evidence_started(e: AdmissionEvidence) -> bool {
    ||| e.started
    ||| filled(e.clock)
    ||| filled(e.period)
    ||| e.home_score is Some
    ||| e.away_score is Some
}

/// The evidence's status text, empty when absent.
pub open spec fn status_text(e: AdmissionEvidence) -> Seq<char> {
    match e.source_status {
        Some(s) => s@,
        None => Seq::empty(),
    }
}

pub open spec fn evidence_live(e: AdmissionEvidence) -> bool {
    (e.source_status is Some && is_live_status_text(e.source_status->0@)) || evidence_started(e)
}

fn filled_exec(t: &Option<String>) -> (r: bool)
    ensures
        r == filled(*t),
{
    match t {
        Some(s) => {
            let v = trim_str(s.as_str());
            v.len() > 0
        },
        None => false,
    }
}

impl AdmissionEvidence {
    /// Evidence made of a source status label only.
    pub fn live_status(status: &str) -> (r: Self)
        ensures
            r.source_status matches Some(t) && t@ == status@,
            !r.started,
            r.clock is None,
            r.period is None,
            r.home_score is None,
            r.away_score is None,
    {
        AdmissionEvidence {
            source_status: Some(crate::text::owned(status)),
            started: false,
            clock: None,
            period: None,
            home_score: None,
            away_score: None,
        }
    }

    pub fn has_started(&self) -> (r: bool)
        ensures
            r == evidence_started(*self),
    {
        self.started || filled_exec(&self.clock) || filled_exec(&self.period)
            || self.home_score.is_some() || self.away_score.is_some()
    }

    pub fn is_live(&self) -> (r: bool)
        ensures
            r == evidence_live(*self),
    {
        let by_status = match &self.source_status {
            Some(s) => is_live_status(s.as_str()),
            None => false,
        };
        by_status || self.has_started()
    }
}

#[derive(Debug, Clone, Copy, PartialEq, Eq, Structural)]
pub enum AdmissionResult {
    Admit,
    RejectScheduled,
    RejectNotStarted,
    RejectTerminalWithoutLiveHistory,
    RejectTerminalImmutable,
}

pub open spec fn is_live_status_text(s: Seq<char>) -> bool {
    let n = status_norm(s);
    ||| n == "live"@
    ||| n == "in play"@
    ||| n == "playing"@
    ||| n == "started"@
    ||| n == "halftime"@
    ||| n == "half-time"@
    ||| n == "paused"@
}

pub open spec fn is_scheduled_status_text(s: Seq<char>) -> bool {
    let n = status_norm(s);
    ||| n == "scheduled"@
    ||| n == "upcoming"@
    ||| n == "not started"@
    ||| n == "ns"@
}

pub open spec fn is_terminal_status_text(s: Seq<char>) -> bool {
    let n = status_norm(s);
    ||| n == "finished"@
    ||| n == "full time"@
    ||| n == "ft"@
    ||| n == "cancelled"@
    ||| n == "canceled"@
    ||| n == "postponed"@
    ||| n == "abandoned"@
}

pub open spec fn state_of_status(s: Seq<char>) -> Option<InternalState> {
    let n = status_norm(s);
    if n == "live"@ || n == "in play"@ || n == "playing"@ || n == "started"@ {
        Some(InternalState::Live)
    } else if n == "halftime"@ || n == "half time"@ {
        Some(InternalState::HalfTime)
    } else if n == "paused"@ {
        Some(InternalState::Paused)
    } else if n == "finishing"@ {
        Some(InternalState::Finishing)
    } else if n == "finished"@ || n == "full time"@ || n == "ft"@ {
        Some(InternalState::Finished)
    } else if n == "cancelled"@ || n == "canceled"@ {
        Some(InternalState::Cancelled)
    } else if n == "postponed"@ {
        Some(InternalState::Postponed)
    } else if n == "abandoned"@ {
        Some(InternalState::Abandoned)
    } else {
        None
    }
}

pub fn is_live_status(status: &str) -> (r: bool)
    ensures
        r == is_live_status_text(status@),
{
    let n = status_norm_exec(status);
    chars_eq_str(&n, "live") || chars_eq_str(&n, "in play") || chars_eq_str(&n, "playing")
        || chars_eq_str(&n, "started") || chars_eq_str(&n, "halftime") || chars_eq_str(
        &n,
        "half-time",
    ) || chars_eq_str(&n, "paused")
}

pub fn is_scheduled_status(status: &str) -> (r: bool)
    ensures
        r == is_scheduled_status_text(status@),
{
    let n = status_norm_exec(status);
    chars_eq_str(&n, "scheduled") || chars_eq_str(&n, "upcoming") || chars_eq_str(
        &n,
        "not started",
    ) || chars_eq_str(&n, "ns")
}

pub fn is_terminal_status(status: &str) -> (r: bool)
    ensures
        r == is_terminal_status_text(status@),
{
    let n = status_norm_exec(status);
    chars_eq_str(&n, "finished") || chars_eq_str(&n, "full time") || chars_eq_str(&n, "ft")
        || chars_eq_str(&n, "cancelled") || chars_eq_str(&n, "canceled") || chars_eq_str(
        &n,
        "postponed",
    ) || chars_eq_str(&n, "abandoned")
}

pub fn state_from_status(status: &str) -> (r: Option<InternalState>)
    ensures
        r == state_of_status(status@),
{
    let n = status_norm_exec(status);
    if chars_eq_str(&n, "live") || chars_eq_str(&n, "in play") || chars_eq_str(&n, "playing")
        || chars_eq_str(&n, "started") {
        Some(InternalState::Live)
    } else if chars_eq_str(&n, "halftime") || chars_eq_str(&n, "half time") {
        Some(InternalState::HalfTime)
    } else if chars_eq_str(&n, "paused") {
        Some(InternalState::Paused)
    } else if chars_eq_str(&n, "finishing") {
        Some(InternalState::Finishing)
    } else if chars_eq_str(&n, "finished") || chars_eq_str(&n, "full time") || chars_eq_str(
        &n,
        "ft",
    ) {
        Some(InternalState::Finished)
    } else if chars_eq_str(&n, "cancelled") || chars_eq_str(&n, "canceled") {
        Some(InternalState::Cancelled)
    } else if chars_eq_str(&n, "postponed") {
        Some(InternalState::Postponed)
    } else if chars_eq_str(&n, "abandoned") {
        Some(InternalState::Abandoned)
    } else {
        None
    }
}

/// The admission decision for a source row.
pub open spec fn admission(e: AdmissionEvidence, existing_live: bool) -> AdmissionResult {
    let status = status_text(e);
    if is_scheduled_status_text(status) && !evidence_started(e) {
        AdmissionResult::RejectScheduled
    } else if is_terminal_status_text(status) && !existing_live {
        AdmissionResult::RejectTerminalWithoutLiveHistory
    } else if is_terminal_status_text(status) && existing_live {
        AdmissionResult::Admit
    } else if evidence_live(e) {
        AdmissionResult::Admit
    } else {
        AdmissionResult::RejectNotStarted
    }
}

pub fn admission_result(evidence: &AdmissionEvidence, existing_live: bool) -> (r: AdmissionResult)
    ensures
        r == admission(*evidence, existing_live),
{
    let status: String = match &evidence.source_status {
        Some(s) => s.clone(),
        None => String::new(),
    };
    assert(status@ == status_text(*evidence));
    if is_scheduled_status(status.as_str()) && !evidence.has_started() {
        return AdmissionResult::RejectScheduled;
    }
    if is_terminal_status(status.as_str()) && !existing_live {
        return AdmissionResult::RejectTerminalWithoutLiveHistory;
    }
    // A terminal row is admissible only as the continuation of a match that
    // was already admitted while live.
    if is_terminal_status(status.as_str()) && existing_live {
        return AdmissionResult::Admit;
    }
    if evidence.is_live() {
        return AdmissionResult::Admit;
    }
    AdmissionResult::RejectNotStarted
}

/// Where a match in recovery may go: back to live, to a terminal result, to
/// `UNKNOWN` once its grace expires, or to finalized.
pub open spec fn recovery_exit(candidate: InternalState) -> bool {
    state_is_live(candidate) || state_is_terminal(candidate) || candidate == InternalState::Unknown
}

/// Whether applying `candidate` is allowed. Terminal state is immutable; a
/// match in recovery may return to live, reach a result or become unknown;
/// otherwise no event may move a snapshot backwards in its state order.
pub open spec fn monotonic(current: Option<InternalState>, candidate: InternalState) -> bool {
    match current {
        None => true,
        Some(existing) => if existing == candidate {
            true
        } else if existing == InternalState::Finalized {
            false
        } else if state_is_terminal(existing) {
            false
        } else if existing == InternalState::RecoveryPending {
            recovery_exit(candidate)
        } else {
            state_rank(candidate) >= state_rank(existing)
        },
    }
}

pub fn is_monotonic(current: Option<InternalState>, candidate: InternalState) -> (r: bool)
    ensures
        r == monotonic(current, candidate),
{
    match current {
        None => true,
        Some(existing) => {
            if existing == candidate {
                true
            } else if existing == InternalState::Finalized {
                false
            } else if existing.is_terminal() {
                false
            } else if existing == InternalState::RecoveryPending {
                candidate.is_live() || candidate.is_terminal() || candidate == InternalState::Unknown
            } else {
                candidate.rank() >= existing.rank()
            }
        },
    }
}

/// The state an event proposes before the monotonicity guard.
pub open spec fn proposed_state(
    current: Option<InternalState>,
    event_type: EventType,
    source_status: Option<Seq<char>>,
) -> InternalState {
    let from_status = match source_status {
        Some(s) => state_of_status(s),
        None => None,
    };
    match from_status {
        Some(s) => s,
        None => match event_type {
            EventType::MatchDiscoveredLive => InternalState::DiscoveredLive,
            EventType::MatchFinished => InternalState::Finished,
            EventType::MatchRemovedFromLive => InternalState::Finishing,
            EventType::MatchStatusChanged => match current {
                Some(c) => c,
                None => InternalState::Unknown,
            },
            _ => match current {
                Some(c) => c,
                None => InternalState::Live,
            },
        },
    }
}

pub open spec fn next_state_spec(
    current: Option<InternalState>,
    event_type: EventType,
    source_status: Option<Seq<char>>,
) -> InternalState {
    let candidate = proposed_state(current, event_type, source_status);
    if monotonic(current, candidate) {
        candidate
    } else {
        match current {
            Some(c) => c,
            None => candidate,
        }
    }
}

pub open spec fn opt_view(s: Option<&str>) -> Option<Seq<char>> {
    match s {
        Some(t) => Some(t@),
        None => None,
    }
}

pub fn next_state(
    current: Option<InternalState>,
    event_type: EventType,
    source_status: Option<&str>,
) -> (r: InternalState)
    ensures
        r == next_state_spec(current, event_type, opt_view(source_status)),
{
    let from_status = match source_status {
        Some(s) => state_from_status(s),
        None => None,
    };
    let candidate = match from_status {
        Some(s) => s,
        None => match event_type {
            EventType::MatchDiscoveredLive => InternalState::DiscoveredLive,
            EventType::MatchFinished => InternalState::Finished,
            EventType::MatchRemovedFromLive => InternalState::Finishing,
            EventType::MatchStatusChanged => match current {
                Some(c) => c,
                None => InternalState::Unknown,
            },
            _ => match current {
                Some(c) => c,
                None => InternalState::Live,
            },
        },
    };
    // A late status label must not move the canonical state backwards.
    if is_monotonic(current, candidate) {
        candidate
    } else {
        match current {
            Some(c) => c,
            None => candidate,
        }
    }
}

/// A terminal state is immutable: no other state may follow it.
pub proof fn terminal_state_is_immutable(current: InternalState, candidate: InternalState)
    requires
        state_is_terminal(current),
        candidate != current,
    ensures
        !monotonic(Some(current), candidate),
{
}

/// The status words told apart by their length and first two characters.
proof fn lemma_status_words()
    ensures
        "live"@.len() == 4 && "live"@[0] == 'l' && "live"@[1] == 'i',
        "in play"@.len() == 7 && "in play"@[0] == 'i' && "in play"@[1] == 'n',
        "playing"@.len() == 7 && "playing"@[0] == 'p' && "playing"@[1] == 'l',
        "started"@.len() == 7 && "started"@[0] == 's' && "started"@[1] == 't',
        "halftime"@.len() == 8 && "halftime"@[0] == 'h' && "halftime"@[1] == 'a',
        "half time"@.len() == 9 && "half time"@[0] == 'h' && "half time"@[1] == 'a',
        "paused"@.len() == 6 && "paused"@[0] == 'p' && "paused"@[1] == 'a',
        "finishing"@.len() == 9 && "finishing"@[0] == 'f' && "finishing"@[1] == 'i',
        "finished"@.len() == 8 && "finished"@[0] == 'f' && "finished"@[1] == 'i',
        "full time"@.len() == 9 && "full time"@[0] == 'f' && "full time"@[1] == 'u',
        "ft"@.len() == 2 && "ft"@[0] == 'f' && "ft"@[1] == 't',
        "cancelled"@.len() == 9 && "cancelled"@[0] == 'c' && "cancelled"@[1] == 'a',
        "canceled"@.len() == 8 && "canceled"@[0] == 'c' && "canceled"@[1] == 'a',
        "postponed"@.len() == 9 && "postponed"@[0] == 'p' && "postponed"@[1] == 'o',
        "abandoned"@.len() == 9 && "abandoned"@[0] == 'a' && "abandoned"@[1] == 'b',
        "scheduled"@.len() == 9 && "scheduled"@[0] == 's' && "scheduled"@[1] == 'c',
        "upcoming"@.len() == 8 && "upcoming"@[0] == 'u' && "upcoming"@[1] == 'p',
        "not started"@.len() == 11 && "not started"@[0] == 'n' && "not started"@[1] == 'o',
        "ns"@.len() == 2 && "ns"@[0] == 'n' && "ns"@[1] == 's',
        "half-time"@.len() == 9 && "half-time"@[0] == 'h' && "half-time"@[1] == 'a',
{
    reveal_strlit("live");
    reveal_strlit("in play");
    reveal_strlit("playing");
    reveal_strlit("started");
    reveal_strlit("halftime");
    reveal_strlit("half time");
    reveal_strlit("paused");
    reveal_strlit("finishing");
    reveal_strlit("finished");
    reveal_strlit("full time");
    reveal_strlit("ft");
    reveal_strlit("cancelled");
    reveal_strlit("canceled");
    reveal_strlit("postponed");
    reveal_strlit("abandoned");
    reveal_strlit("scheduled");
    reveal_strlit("upcoming");
    reveal_strlit("not started");
    reveal_strlit("ns");
    reveal_strlit("half-time");
}

/// A row labelled live, in play, playing, started, half time or paused is
/// admitted, with or without live history; a row labelled scheduled,
/// upcoming, not started or ns with no sign of having started is rejected
/// as scheduled.
pub proof fn live_and_scheduled_rows(e: AdmissionEvidence, existing_live: bool)
    ensures
        ({
            let n = crate::text::status_norm(status_text(e));
            n == "live"@ || n == "in play"@ || n == "playing"@ || n == "started"@ || n == "halftime"@
                || n == "half-time"@ || n == "paused"@
        }) ==> admission(e, existing_live) == AdmissionResult::Admit,
        ({
            let n = crate::text::status_norm(status_text(e));
            n == "scheduled"@ || n == "upcoming"@ || n == "not started"@ || n == "ns"@
        }) && !e.started && e.home_score is None && e.away_score is None && !filled(e.clock) && !filled(
            e.period,
        ) ==> admission(e, existing_live) == AdmissionResult::RejectScheduled,
{
    lemma_status_words();
}

/// A finish event finishes a match: for a match not yet in a terminal
/// state, a `MatchFinished` event whose status label is absent or names no
/// state moves the match to `FINISHED`.
pub proof fn finished_event_finishes_the_match(current: Option<InternalState>, status: Option<Seq<char>>)
    requires
        current is None || !state_is_terminal(current->0),
        status is None || state_of_status(status->0) is None,
    ensures
        next_state_spec(current, EventType::MatchFinished, status) == InternalState::Finished,
{
}

/// Without a status label that names a state, events move a match as
/// their kind says: a new match seen live is discovered live; a match
/// dropped from the live list while still in play is finishing; a status
/// change keeps the state (a new match's state is unknown); other match
/// events keep the state (a new match is live).
pub proof fn unlabelled_events_move_as_their_kind(
    current: Option<InternalState>,
    event_type: EventType,
    status: Option<Seq<char>>,
)
    requires
        status is None || state_of_status(status->0) is None,
    ensures
        current is None && event_type == EventType::MatchDiscoveredLive ==> next_state_spec(
            current,
            event_type,
            status,
        ) == InternalState::DiscoveredLive,
        (current == Some(InternalState::DiscoveredLive) || current == Some(InternalState::Live)
            || current == Some(InternalState::HalfTime) || current == Some(InternalState::Paused))
            && event_type == EventType::MatchRemovedFromLive ==> next_state_spec(current, event_type, status)
            == InternalState::Finishing,
        event_type == EventType::MatchStatusChanged ==> next_state_spec(current, event_type, status)
            == match current {
            Some(c) => c,
            None => InternalState::Unknown,
        },
        (event_type == EventType::MatchScoreChanged || event_type == EventType::MatchClockChanged
            || event_type == EventType::MatchPeriodChanged || event_type == EventType::MatchOddsChanged)
            ==> next_state_spec(current, event_type, status) == match current {
            Some(c) => c,
            None => InternalState::Live,
        },
{
}

/// Status labels name their states, whatever their case and padding: the
/// live, half-time, paused and finishing labels name those states, and the
/// finished, cancelled, postponed and abandoned labels name the terminal
/// states, which a match not yet over then takes on any event.
pub proof fn status_labels_name_their_states(
    s: Seq<char>,
    current: Option<InternalState>,
    event_type: EventType,
)
    ensures
        ({
            let n = crate::text::status_norm(s);
            &&& (n == "live"@ || n == "in play"@ || n == "playing"@ || n == "started"@) ==> state_of_status(s)
                == Some(InternalState::Live)
            &&& (n == "halftime"@ || n == "half time"@) ==> state_of_status(s) == Some(InternalState::HalfTime)
            &&& n == "paused"@ ==> state_of_status(s) == Some(InternalState::Paused)
            &&& n == "finishing"@ ==> state_of_status(s) == Some(InternalState::Finishing)
            &&& (n == "finished"@ || n == "full time"@ || n == "ft"@) ==> state_of_status(s) == Some(
                InternalState::Finished,
            )
            &&& (n == "cancelled"@ || n == "canceled"@) ==> state_of_status(s) == Some(InternalState::Cancelled)
            &&& n == "postponed"@ ==> state_of_status(s) == Some(InternalState::Postponed)
            &&& n == "abandoned"@ ==> state_of_status(s) == Some(InternalState::Abandoned)
            &&& (n == "finished"@ || n == "full time"@ || n == "ft"@ || n == "cancelled"@ || n == "canceled"@
                || n == "postponed"@ || n == "abandoned"@) && (current is None || !state_is_terminal(
                current->0,
            )) ==> next_state_spec(current, event_type, Some(s)) == state_of_status(s)->0
                && state_is_terminal(state_of_status(s)->0)
        }),
{
    lemma_status_words();
}

/// A row that says the match is over (finished, full time, ft, cancelled,
/// canceled, postponed or abandoned, whatever the case and padding) is
/// admitted only as the continuation of a match with live history, and is
/// otherwise rejected for the lack of it.
pub proof fn terminal_rows_need_live_history(e: AdmissionEvidence, existing_live: bool)
    requires
        ({
            let n = crate::text::status_norm(status_text(e));
            n == "finished"@ || n == "full time"@ || n == "ft"@ || n == "cancelled"@ || n == "canceled"@
                || n == "postponed"@ || n == "abandoned"@
        }),
    ensures
        admission(e, existing_live) == if existing_live {
            AdmissionResult::Admit
        } else {
            AdmissionResult::RejectTerminalWithoutLiveHistory
        },
{
    lemma_status_words();
}

/// The recovery flow is allowed: a live match may enter recovery, and a match
/// in recovery may return to live, reach any terminal result or become
/// unknown.
pub proof fn recovery_flow_is_allowed(live: InternalState, result: InternalState)
    requires
        state_is_live(live),
        state_is_terminal(result),
    ensures
        monotonic(Some(live), InternalState::RecoveryPending),
        monotonic(Some(InternalState::RecoveryPending), live),
        monotonic(Some(InternalState::RecoveryPending), result),
        monotonic(Some(InternalState::RecoveryPending), InternalState::Unknown),
{
}

/// The state chosen for any event never moves the match backwards, and a
/// terminal state is kept whatever event follows.
pub proof fn next_state_never_regresses(
    current: Option<InternalState>,
    event_type: EventType,
    source_status: Option<Seq<char>>,
)
    ensures
        monotonic(current, next_state_spec(current, event_type, source_status)),
        current is Some && state_is_terminal(current->0) ==> next_state_spec(
            current,
            event_type,
            source_status,
        ) == current->0,
{
}

/// A terminal row is never admitted without live history, and a scheduled
/// row without start evidence is always rejected as scheduled.
pub proof fn admission_requires_live_history(e: AdmissionEvidence, existing_live: bool)
    ensures
        is_terminal_status_text(status_text(e)) && !existing_live && !(is_scheduled_status_text(
            status_text(e),
        ) && !evidence_started(e)) ==> admission(e, existing_live)
            == AdmissionResult::RejectTerminalWithoutLiveHistory,
        is_scheduled_status_text(status_text(e)) && !evidence_started(e) ==> admission(
            e,
            existing_live,
        ) == AdmissionResult::RejectScheduled,
        admission(e, existing_live) == AdmissionResult::Admit ==> evidence_live(e) || (
        is_terminal_status_text(status_text(e)) && existing_live),
{
}

/// A key of capitals and underscores is unchanged by trimming, unquoting
/// and uppercasing.
proof fn lemma_plain_key(k: Seq<char>)
    requires
        k.len() > 0,
        forall|i: int| 0 <= i < k.len() ==> ('A' <= #[trigger] k[i] <= 'Z' || k[i] == '_'),
    ensures
        trim(k) == k,
        unquote(k) == k,
        crate::text::upper_seq(k) == k,
{
    assert(!crate::text::is_ws(k[0]));
    assert(crate::text::trim_start(k) == k);
    assert(!crate::text::is_ws(k.last()));
    assert(crate::text::trim_end(k) == k);
    assert(crate::text::upper_seq(k) =~= k);
}

/// A plain key quoted, or in lower case, still reads as the key.
proof fn lemma_plain_key_forms(k: Seq<char>)
    requires
        k.len() > 0,
        forall|i: int| 0 <= i < k.len() ==> ('A' <= #[trigger] k[i] <= 'Z' || k[i] == '_'),
    ensures
        crate::text::upper_seq(unquote(trim(seq!['"'] + k + seq!['"']))) == k,
        crate::text::upper_seq(unquote(trim(crate::text::lower_seq(k)))) == k,
{
    lemma_plain_key(k);
    let q = seq!['"'] + k + seq!['"'];
    assert(q[0] == '"' && q.last() == '"');
    assert(!crate::text::is_ws(q[0]));
    assert(crate::text::trim_start(q) == q);
    assert(!crate::text::is_ws(q.last()));
    assert(crate::text::trim_end(q) == q);
    assert(unquote(q) =~= k);
    let l = crate::text::lower_seq(k);
    assert forall|i: int| 0 <= i < k.len() implies ('a' <= #[trigger] l[i] <= 'z' || l[i] == '_')
        && crate::text::upper(l[i]) == k[i] by {
        if k[i] != '_' {
            crate::text::lemma_case_round_trip(k[i]);
        }
    }
    assert(!crate::text::is_ws(l[0]));
    assert(crate::text::trim_start(l) == l);
    assert(!crate::text::is_ws(l.last()));
    assert(crate::text::trim_end(l) == l);
    assert(l[0] != '"');
    assert(unquote(l) == l);
    assert(crate::text::upper_seq(l) =~= k);
}

/// What `as_str` stores, `from_storage` reads back as the same state, also
/// when it is quoted or written in lower case.
pub proof fn state_names_read_back(s: InternalState)
    ensures
        state_from_storage(state_name(s)) == Some(s),
        state_from_storage(seq!['"'] + state_name(s) + seq!['"']) == Some(s),
        state_from_storage(crate::text::lower_seq(state_name(s))) == Some(s),
{
    reveal_strlit("DISCOVERED_LIVE");
    reveal_strlit("LIVE");
    reveal_strlit("HALF_TIME");
    reveal_strlit("HALFTIME");
    reveal_strlit("PAUSED");
    reveal_strlit("FINISHING");
    reveal_strlit("FINISHED");
    reveal_strlit("CANCELLED");
    reveal_strlit("CANCELED");
    reveal_strlit("POSTPONED");
    reveal_strlit("ABANDONED");
    reveal_strlit("RECOVERY_PENDING");
    reveal_strlit("FINALIZED");
    reveal_strlit("UNKNOWN");
    lemma_plain_key(state_name(s));
    lemma_plain_key_forms(state_name(s));
}


/// A timestamp only when it is non-empty.
pub open spec fn present(t: Option<Seq<char>>) -> Option<Seq<char>> {
    match t {
        Some(v) => if v.len() > 0 {
            Some(v)
        } else {
            None
        },
        None => None,
    }
}

/// Event order as -1, 0 or 1: source time when both sides have one, else
/// receipt time; payload hashes break ties.
pub open spec fn order_parts(
    incoming_source_timestamp: Option<Seq<char>>,
    incoming_received_at: Option<Seq<char>>,
    incoming_payload_hash: Option<Seq<char>>,
    current_source_timestamp: Option<Seq<char>>,
    current_received_at: Option<Seq<char>>,
    current_payload_hash: Option<Seq<char>>,
) -> int {
    let a = present(incoming_source_timestamp);
    let b = present(current_source_timestamp);
    let first = if a is Some && b is Some {
        seq_order(a->0, b->0)
    } else {
        seq_order(
            crate::domain::events::opt_text(incoming_received_at),
            crate::domain::events::opt_text(current_received_at),
        )
    };
    if first != 0 {
        first
    } else {
        seq_order(
            crate::domain::events::opt_text(incoming_payload_hash),
            crate::domain::events::opt_text(current_payload_hash),
        )
    }
}

/// -1, 0 or 1 for `Less`, `Equal`, `Greater`.
pub open spec fn ordering_value(o: Ordering) -> int {
    match o {
        Ordering::Less => -1,
        Ordering::Equal => 0,
        Ordering::Greater => 1,
    }
}

fn opt_chars(s: Option<&str>) -> (r: Vec<char>)
    ensures
        r@ == crate::domain::events::opt_text(opt_str_view(s)),
{
    match s {
        Some(t) => chars_of(t),
        None => Vec::new(),
    }
}

fn ordering_of(v: i8) -> (r: Ordering)
    requires
        -1 <= v <= 1,
    ensures
        ordering_value(r) == v,
{
    if v < 0 {
        Ordering::Less
    } else if v == 0 {
        Ordering::Equal
    } else {
        Ordering::Greater
    }
}

/// Compares an incoming event with an already persisted history row. Source
/// time is authoritative only when both values exist; otherwise receipt time
/// is used. Payload hashes make equal-time events deterministic.
pub fn compare_order_parts(
    incoming_source_timestamp: Option<&str>,
    incoming_received_at: Option<&str>,
    incoming_payload_hash: Option<&str>,
    current_source_timestamp: Option<&str>,
    current_received_at: Option<&str>,
    current_payload_hash: Option<&str>,
) -> (r: Ordering)
    ensures
        ordering_value(r) == order_parts(
            opt_str_view(incoming_source_timestamp),
            opt_str_view(incoming_received_at),
            opt_str_view(incoming_payload_hash),
            opt_str_view(current_source_timestamp),
            opt_str_view(current_received_at),
            opt_str_view(current_payload_hash),
        ),
{
    let a = opt_chars(incoming_source_timestamp);
    let b = opt_chars(current_source_timestamp);
    let a_present = incoming_source_timestamp.is_some() && a.len() > 0;
    let b_present = current_source_timestamp.is_some() && b.len() > 0;
    let first = if a_present && b_present {
        order_chars(&a, &b)
    } else {
        let x = opt_chars(incoming_received_at);
        let y = opt_chars(current_received_at);
        order_chars(&x, &y)
    };
    proof {
        lemma_seq_order(a@, b@);
        lemma_seq_order(
            crate::domain::events::opt_text(opt_str_view(incoming_received_at)),
            crate::domain::events::opt_text(opt_str_view(current_received_at)),
        );
    }
    if first != 0 {
        ordering_of(first)
    } else {
        let x = opt_chars(incoming_payload_hash);
        let y = opt_chars(current_payload_hash);
        let h = order_chars(&x, &y);
        proof {
            lemma_seq_order(x@, y@);
        }
        ordering_of(h)
    }
}

/// Orders an incoming event against the current row's source time and
/// receipt time (the row's hash is not consulted).
pub fn compare_event_order(
    current_source_timestamp: Option<&str>,
    current_received_at: Option<&str>,
    event: &NormalizedEvent,
) -> (r: Ordering)
    ensures
        ordering_value(r) == order_parts(
            opt_string_view(event.source_timestamp),
            Some(event.received_at@),
            Some(event.payload_hash@),
            opt_str_view(current_source_timestamp),
            opt_str_view(current_received_at),
            None,
        ),
{
    let ts: Option<&str> = match &event.source_timestamp {
        Some(t) => Some(t.as_str()),
        None => None,
    };
    compare_order_parts(
        ts,
        Some(event.received_at.as_str()),
        Some(event.payload_hash.as_str()),
        current_source_timestamp,
        current_received_at,
        None,
    )
}

/// Event order is antisymmetric: swapping the two events negates it, so two
/// rows can never each be newer than the other.
pub proof fn event_order_is_antisymmetric(
    a_src: Option<Seq<char>>,
    a_recv: Option<Seq<char>>,
    a_hash: Option<Seq<char>>,
    b_src: Option<Seq<char>>,
    b_recv: Option<Seq<char>>,
    b_hash: Option<Seq<char>>,
)
    ensures
        order_parts(a_src, a_recv, a_hash, b_src, b_recv, b_hash) == -order_parts(
            b_src,
            b_recv,
            b_hash,
            a_src,
            a_recv,
            a_hash,
        ),
{
    let a = present(a_src);
    let b = present(b_src);
    if a is Some && b is Some {
        lemma_seq_order(a->0, b->0);
    }
    lemma_seq_order(
        crate::domain::events::opt_text(a_recv),
        crate::domain::events::opt_text(b_recv),
    );
    lemma_seq_order(
        crate::domain::events::opt_text(a_hash),
        crate::domain::events::opt_text(b_hash),
    );
}

}
