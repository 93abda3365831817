//! The decisions of the repository: which events are applied, which are
//! stale, what a match snapshot is built from, which odds quotes are
//! recorded, and how a detail section is split into rows.  The SQL runs in
//! the application.
use vstd::prelude::*;
use std::cmp::Ordering;
use crate::domain::events::{opt_str_view, opt_string_view, EventType, NormalizedEvent};
use crate::domain::match_state::{
    admission, admission_result, compare_order_parts, event_order_is_antisymmetric, next_state,
    next_state_spec, opt_view, order_parts, ordering_value, state_from_storage, state_is_live,
    state_is_terminal, AdmissionEvidence, AdmissionResult, InternalState,
};
use crate::domain::odds::{decimal_norm, decimal_norm_is_idempotent, OddsQuote};
use crate::json::{
    as_bool, as_i64, as_str, canon, fields_view, get, get_member, int_text_of, int_to_text,
    items_view, json_clone, json_parse, json_text, json_view, lemma_fields_view, lemma_items_view,
    member, parse_json_text,
    member_i64, member_str, Json, JsonV,
};
use crate::text::{extend_str, owned, str_eq, string_from_chars, trim, trim_str};

verus! {

/// The result of applying one event.
#[derive(Debug, Clone, Copy, PartialEq, Eq, Structural)]
pub enum MutationOutcome {
    Accepted,
    Duplicate,
    Stale,
    Rejected(AdmissionResult),
}

/// Events about a match (as opposed to feed events).
pub open spec fn match_event(t: EventType) -> bool {
    ||| t == EventType::MatchDiscoveredLive
    ||| t == EventType::MatchScoreChanged
    ||| t == EventType::MatchClockChanged
    ||| t == EventType::MatchPeriodChanged
    ||| t == EventType::MatchStatusChanged
    ||| t == EventType::MatchOddsChanged
    ||| t == EventType::MatchFinished
    ||| t == EventType::MatchRemovedFromLive
}

pub fn is_match_event(t: EventType) -> (r: bool)
    ensures
        r == match_event(t),
{
    match t {
        EventType::MatchDiscoveredLive | EventType::MatchScoreChanged | EventType::MatchClockChanged
        | EventType::MatchPeriodChanged | EventType::MatchStatusChanged
        | EventType::MatchOddsChanged | EventType::MatchFinished
        | EventType::MatchRemovedFromLive => true,
        _ => false,
    }
}

/// What happens to an event before any match row is written.
#[derive(Debug, Clone, Copy, PartialEq, Eq, Structural)]
pub enum EventGate {
    /// Its key was recorded before: nothing more is written.
    Duplicate,
    /// Recorded; it names no match, so there is nothing more to do.
    Recorded,
    /// Recorded, but the match may not take it.
    Rejected(AdmissionResult),
    /// Recorded and admitted: go on to the staleness check.
    Proceed,
}

/// Admission of a stored event: one whose key was already stored goes no
/// further; one without a match is kept only; a match event is refused once
/// the match's latest state is terminal, and otherwise goes through admission.
pub open spec fn gate_spec(
    inserted: bool,
    has_match: bool,
    event_type: EventType,
    latest_terminal: bool,
    evidence: AdmissionEvidence,
    existing_live: bool,
) -> EventGate {
    if !inserted {
        EventGate::Duplicate
    } else if !has_match {
        EventGate::Recorded
    } else if match_event(event_type) && latest_terminal {
        EventGate::Rejected(AdmissionResult::RejectTerminalImmutable)
    } else if match_event(event_type) && admission(evidence, existing_live)
        != AdmissionResult::Admit {
        EventGate::Rejected(admission(evidence, existing_live))
    } else {
        EventGate::Proceed
    }
}

pub fn event_gate(
    inserted: bool,
    event: &NormalizedEvent,
    latest_terminal: bool,
    evidence: &AdmissionEvidence,
    existing_live: bool,
) -> (r: EventGate)
    ensures
        r == gate_spec(
            inserted,
            event.match_id is Some,
            event.event_type,
            latest_terminal,
            *evidence,
            existing_live,
        ),
{
    if !inserted {
        return EventGate::Duplicate;
    }
    if event.match_id.is_none() {
        return EventGate::Recorded;
    }
    if is_match_event(event.event_type) {
        if latest_terminal {
            return EventGate::Rejected(AdmissionResult::RejectTerminalImmutable);
        }
        let a = admission_result(evidence, existing_live);
        match a {
            AdmissionResult::Admit => {},
            _ => {
                return EventGate::Rejected(a);
            },
        }
    }
    EventGate::Proceed
}

/// Once the latest state of a match is terminal, no match event changes it.
pub proof fn terminal_match_takes_no_match_event(
    inserted: bool,
    event_type: EventType,
    evidence: AdmissionEvidence,
    existing_live: bool,
)
    requires
        inserted,
        match_event(event_type),
    ensures
        gate_spec(inserted, true, event_type, true, evidence, existing_live) == EventGate::Rejected(
            AdmissionResult::RejectTerminalImmutable,
        ),
{
}

/// The outcome of an admitted event: stale when it is older than the
/// match's latest state, or when it carried quotes and one of them was
/// older than the stored quote.
pub fn event_outcome(stale: bool, quote_count: usize, stale_quote: bool) -> (r: MutationOutcome)
    ensures
        r == if stale || (quote_count > 0 && stale_quote) {
            MutationOutcome::Stale
        } else {
            MutationOutcome::Accepted
        },
{
    if stale || (quote_count > 0 && stale_quote) {
        MutationOutcome::Stale
    } else {
        MutationOutcome::Accepted
    }
}

/// What is written for an event after its admission gate.
#[derive(Debug, Clone, Copy, PartialEq, Eq, Structural)]
pub enum EventPlan {
    /// Nothing more is written; this is the outcome.
    Finish(MutationOutcome),
    /// The event joins the state history.  Unless it is stale it also
    /// replaces the match snapshot (with its outbox row) and records its
    /// quotes; a fresh discovery also plans the initial detail jobs.
    Apply { stale: bool, plan_jobs: bool },
}

pub open spec fn event_plan_spec(gate: EventGate, e: NormalizedEvent, latest: Option<HistoryRow>) -> EventPlan {
    match gate {
        EventGate::Duplicate => EventPlan::Finish(MutationOutcome::Duplicate),
        EventGate::Recorded => EventPlan::Finish(MutationOutcome::Accepted),
        EventGate::Rejected(r) => EventPlan::Finish(MutationOutcome::Rejected(r)),
        EventGate::Proceed => {
            let stale = e.event_type != EventType::MatchOddsChanged && event_stale(e, latest);
            EventPlan::Apply {
                stale,
                plan_jobs: !stale && e.event_type == EventType::MatchDiscoveredLive,
            }
        },
    }
}

/// Decides what applying an event writes, from its gate and the latest
/// state history row of its match.
pub fn plan_event(gate: EventGate, event: &NormalizedEvent, latest: Option<&HistoryRow>) -> (r: EventPlan)
    ensures
        r == event_plan_spec(
            gate,
            *event,
            match latest {
                Some(h) => Some(*h),
                None => None,
            },
        ),
{
    match gate {
        EventGate::Duplicate => EventPlan::Finish(MutationOutcome::Duplicate),
        EventGate::Recorded => EventPlan::Finish(MutationOutcome::Accepted),
        EventGate::Rejected(r) => EventPlan::Finish(MutationOutcome::Rejected(r)),
        EventGate::Proceed => {
            let stale = stale_for_snapshot(event, latest);
            let discovered = match event.event_type {
                EventType::MatchDiscoveredLive => true,
                _ => false,
            };
            EventPlan::Apply { stale, plan_jobs: !stale && discovered }
        },
    }
}

/// The result of an event: the final outcome of a plan that stops, or for
/// an event that is written `event_outcome` over its quotes.
pub open spec fn application_outcome(plan: EventPlan, quote_count: nat, stale_quote: bool) -> MutationOutcome {
    match plan {
        EventPlan::Finish(o) => o,
        EventPlan::Apply { stale, .. } => if stale || (quote_count > 0 && stale_quote) {
            MutationOutcome::Stale
        } else {
            MutationOutcome::Accepted
        },
    }
}

/// What one event does, from its gate through its plan to its result: an
/// event whose key is already stored is a duplicate and writes nothing more; an
/// admitted match event (other than an odds event) that orders before the
/// latest state of its match is stale, keeps the snapshot, plans no jobs and
/// records no quotes; an admitted event that orders after it replaces the
/// snapshot and is accepted unless one of its quotes was stale.
pub proof fn event_application_law(
    inserted: bool,
    e: NormalizedEvent,
    latest_terminal: bool,
    evidence: AdmissionEvidence,
    existing_live: bool,
    latest: Option<HistoryRow>,
    quote_count: nat,
    stale_quote: bool,
)
    ensures
        ({
            let gate = gate_spec(
                inserted,
                e.match_id is Some,
                e.event_type,
                latest_terminal,
                evidence,
                existing_live,
            );
            let plan = event_plan_spec(gate, e, latest);
            &&& !inserted ==> plan == EventPlan::Finish(MutationOutcome::Duplicate)
            &&& gate == EventGate::Proceed && e.event_type != EventType::MatchOddsChanged
                && event_stale(e, latest) ==> plan == (EventPlan::Apply {
                stale: true,
                plan_jobs: false,
            }) && application_outcome(plan, quote_count, stale_quote) == MutationOutcome::Stale
            &&& gate == EventGate::Proceed && !event_stale(e, latest) ==> plan == (EventPlan::Apply {
                stale: false,
                plan_jobs: e.event_type == EventType::MatchDiscoveredLive,
            }) && (application_outcome(plan, quote_count, stale_quote) == MutationOutcome::Accepted
                <==> !(quote_count > 0 && stale_quote))
        }),
{
}

/// One stored state-history row, with its state parsed.
#[derive(Debug, Clone)]
pub struct HistoryRow {
    pub source_timestamp: Option<String>,
    pub received_at: String,
    pub payload_hash: String,
    pub state: InternalState,
}

/// The order of row `a` against row `b`: -1, 0 or 1.
pub open spec fn row_order(a: HistoryRow, b: HistoryRow) -> int {
    order_parts(
        opt_string_view(a.source_timestamp),
        Some(a.received_at@),
        Some(a.payload_hash@),
        opt_string_view(b.source_timestamp),
        Some(b.received_at@),
        Some(b.payload_hash@),
    )
}

fn later_than(a: &HistoryRow, b: &HistoryRow) -> (r: bool)
    ensures
        r == (row_order(*a, *b) > 0),
{
    let sa: Option<&str> = match &a.source_timestamp {
        Some(s) => Some(s.as_str()),
        None => None,
    };
    let sb: Option<&str> = match &b.source_timestamp {
        Some(s) => Some(s.as_str()),
        None => None,
    };
    let o = compare_order_parts(
        sa,
        Some(a.received_at.as_str()),
        Some(a.payload_hash.as_str()),
        sb,
        Some(b.received_at.as_str()),
        Some(b.payload_hash.as_str()),
    );
    match o {
        Ordering::Greater => true,
        _ => false,
    }
}

/// The index of the latest row: scanning in order, a row replaces the
/// current latest only when it orders strictly after it.
pub open spec fn latest_index(rows: Seq<HistoryRow>) -> Option<int>
    decreases rows.len(),
{
    if rows.len() == 0 {
        None
    } else {
        match latest_index(rows.drop_last()) {
            None => Some(rows.len() - 1),
            Some(k) => if row_order(rows.last(), rows[k]) > 0 {
                Some(rows.len() - 1)
            } else {
                Some(k)
            },
        }
    }
}

pub proof fn lemma_latest_index_bounds(rows: Seq<HistoryRow>)
    ensures
        match latest_index(rows) {
            Some(k) => 0 <= k < rows.len(),
            None => rows.len() == 0,
        },
    decreases rows.len(),
{
    if rows.len() > 0 {
        lemma_latest_index_bounds(rows.drop_last());
    }
}

/// The latest history row of a match.
pub fn latest_state_history(rows: &Vec<HistoryRow>) -> (r: Option<usize>)
    ensures
        match r {
            Some(k) => latest_index(rows@) == Some(k as int),
            None => latest_index(rows@) is None,
        },
{
    let mut latest: Option<usize> = None;
    let mut i: usize = 0;
    while i < rows.len()
        invariant
            i <= rows.len(),
            match latest {
                Some(k) => latest_index(rows@.take(i as int)) == Some(k as int) && k < i,
                None => latest_index(rows@.take(i as int)) is None,
            },
        decreases rows.len() - i,
    {
        let ghost t = rows@.take(i + 1);
        assert(t.drop_last() =~= rows@.take(i as int));
        assert(t.last() == rows@[i as int]);
        match latest {
            None => {
                latest = Some(i);
            },
            Some(k) => {
                assert(rows@.take(i as int)[k as int] == rows@[k as int]);
                assert(t[k as int] == rows@[k as int]);
                if later_than(&rows[i], &rows[k]) {
                    latest = Some(i);
                }
            },
        }
        i = i + 1;
    }
    assert(rows@.take(rows@.len() as int) =~= rows@);
    latest
}

/// An event is stale when it orders before the latest state of its match.
pub open spec fn event_stale(e: NormalizedEvent, latest: Option<HistoryRow>) -> bool {
    match latest {
        None => false,
        Some(h) => order_parts(
            opt_string_view(e.source_timestamp),
            Some(e.received_at@),
            Some(e.payload_hash@),
            opt_string_view(h.source_timestamp),
            Some(h.received_at@),
            Some(h.payload_hash@),
        ) < 0,
    }
}

pub fn is_stale(event: &NormalizedEvent, latest: Option<&HistoryRow>) -> (r: bool)
    ensures
        r == event_stale(
            *event,
            match latest {
                Some(h) => Some(*h),
                None => None,
            },
        ),
{
    let h = match latest {
        None => {
            return false;
        },
        Some(h) => h,
    };
    let se: Option<&str> = match &event.source_timestamp {
        Some(s) => Some(s.as_str()),
        None => None,
    };
    let sh: Option<&str> = match &h.source_timestamp {
        Some(s) => Some(s.as_str()),
        None => None,
    };
    let o = compare_order_parts(
        se,
        Some(event.received_at.as_str()),
        Some(event.payload_hash.as_str()),
        sh,
        Some(h.received_at.as_str()),
        Some(h.payload_hash.as_str()),
    );
    match o {
        Ordering::Less => true,
        _ => false,
    }
}

/// Whether an event is too old to change the canonical snapshot: an odds
/// event never is (its quotes are ordered one by one); another event is
/// when the latest history row orders after it.
pub fn stale_for_snapshot(event: &NormalizedEvent, latest: Option<&HistoryRow>) -> (r: bool)
    ensures
        r == (event.event_type != EventType::MatchOddsChanged && event_stale(
            *event,
            match latest {
                Some(h) => Some(*h),
                None => None,
            },
        )),
{
    match event.event_type {
        EventType::MatchOddsChanged => false,
        _ => is_stale(event, latest),
    }
}

/// Whether a column's declared SQLite type is a text type (`TEXT` in it,
/// in any case).
pub fn is_text_column(declared_type: &str) -> (r: bool)
    ensures
        r == crate::text::contains_seq(crate::text::upper_seq(declared_type@), "TEXT"@),
{
    let c = crate::text::chars_of(declared_type);
    let u = crate::text::upper_chars(&c);
    crate::text::contains_str(&u, "TEXT")
}

/// Whether a match counts as previously live: its row is live, or one of
/// its stored states is a live state.
pub open spec fn previously_live(row_live: Option<i64>, states: Seq<Seq<char>>) -> bool {
    (row_live matches Some(v) && v != 0) || exists|i: int|
        0 <= i < states.len() && (state_from_storage(#[trigger] states[i]) matches Some(s)
            && state_is_live(s))
}

pub fn existing_match_is_live(row_live: Option<i64>, states: &Vec<String>) -> (r: bool)
    ensures
        r == previously_live(row_live, crate::crawler::snapshot::texts(states@)),
{
    match row_live {
        Some(v) => {
            if v != 0 {
                return true;
            }
        },
        None => {},
    }
    let ghost st = crate::crawler::snapshot::texts(states@);
    let mut i: usize = 0;
    while i < states.len()
        invariant
            i <= states.len(),
            st == crate::crawler::snapshot::texts(states@),
            !(row_live matches Some(v) && v != 0),
            forall|j: int|
                0 <= j < i ==> !(state_from_storage(#[trigger] st[j]) matches Some(s) && state_is_live(s)),
        decreases states.len() - i,
    {
        assert(st[i as int] == states@[i as int]@);
        match InternalState::from_storage(states[i].as_str()) {
            Some(s) => {
                if s.is_live() {
                    return true;
                }
            },
            None => {},
        }
        i = i + 1;
    }
    false
}

/// The stored row of a match, with its score lists already read as JSON.
pub struct ExistingMatch {
    pub competition_id: String,
    pub home_team_id: String,
    pub away_team_id: String,
    pub match_time: i64,
    pub status_id: Option<i32>,
    pub home_scores: Json,
    pub away_scores: Json,
}

/// A stored score list, as it parses; an empty list when it does not.
pub fn stored_scores(text: &str) -> (r: Json)
    ensures
        r@ == match json_parse(text@) {
            Ok(v) => v,
            Err(_) => JsonV::Array(Seq::empty()),
        },
{
    match parse_json_text(text) {
        Ok(j) => j,
        Err(_) => {
            let r = Json::Array(Vec::new());
            assert(items_view(Seq::<Json>::empty()) =~= Seq::<JsonV>::empty());
            r
        },
    }
}

/// The canonical state of a match after an event.
#[derive(Debug)]
pub struct MatchSnapshot {
    pub match_id: String,
    pub sport_id: i32,
    pub competition_id: String,
    pub home_team_id: String,
    pub away_team_id: String,
    pub match_time: i64,
    pub status_id: Option<i32>,
    pub state: InternalState,
    pub home_scores: Json,
    pub away_scores: Json,
    pub period: Option<String>,
    pub clock: Option<String>,
    pub source_timestamp: Option<String>,
    pub received_at: String,
    pub payload_hash: String,
    pub raw_payload: Json,
}

/// An optional text as JSON: the string, or null.
pub open spec fn opt_text_json(t: Option<Seq<char>>) -> JsonV {
    match t {
        Some(v) => JsonV::Str(v),
        None => JsonV::Null,
    }
}

fn opt_text_value(t: &Option<String>) -> (r: Json)
    ensures
        r@ == opt_text_json(opt_string_view(*t)),
{
    match t {
        Some(v) => Json::Str(owned(v.as_str())),
        None => Json::Null,
    }
}

/// The outbox payload of a match snapshot, members in key order.
pub open spec fn snapshot_payload_spec(s: MatchSnapshot) -> JsonV {
    JsonV::Object(
        seq![
            ("away_scores"@, s.away_scores@),
            ("away_team_id"@, JsonV::Str(s.away_team_id@)),
            ("clock"@, opt_text_json(opt_string_view(s.clock))),
            ("competition_id"@, JsonV::Str(s.competition_id@)),
            ("home_scores"@, s.home_scores@),
            ("home_team_id"@, JsonV::Str(s.home_team_id@)),
            ("match_id"@, JsonV::Str(s.match_id@)),
            ("match_time"@, JsonV::Number(int_text_of(s.match_time as int))),
            ("payload_hash"@, JsonV::Str(s.payload_hash@)),
            ("period"@, opt_text_json(opt_string_view(s.period))),
            ("raw_payload"@, s.raw_payload@),
            ("received_at"@, JsonV::Str(s.received_at@)),
            ("source_timestamp"@, opt_text_json(opt_string_view(s.source_timestamp))),
            ("sport_id"@, JsonV::Number(int_text_of(s.sport_id as int))),
            ("state"@, JsonV::Str(crate::domain::match_state::state_name(s.state))),
            ("status_id"@, match s.status_id {
                Some(v) => JsonV::Number(int_text_of(v as int)),
                None => JsonV::Null,
            }),
        ],
    )
}

/// The outbox payload that announces a new match snapshot.
pub fn snapshot_outbox_payload(s: &MatchSnapshot) -> (r: Json)
    ensures
        r@ == snapshot_payload_spec(*s),
{
    let status = match s.status_id {
        Some(v) => crate::json::json_int(v as i64),
        None => Json::Null,
    };
    let mut f: Vec<(String, Json)> = Vec::new();
    f.push((owned("away_scores"), json_clone(&s.away_scores)));
    f.push((owned("away_team_id"), Json::Str(owned(s.away_team_id.as_str()))));
    f.push((owned("clock"), opt_text_value(&s.clock)));
    f.push((owned("competition_id"), Json::Str(owned(s.competition_id.as_str()))));
    f.push((owned("home_scores"), json_clone(&s.home_scores)));
    f.push((owned("home_team_id"), Json::Str(owned(s.home_team_id.as_str()))));
    f.push((owned("match_id"), Json::Str(owned(s.match_id.as_str()))));
    f.push((owned("match_time"), crate::json::json_int(s.match_time)));
    f.push((owned("payload_hash"), Json::Str(owned(s.payload_hash.as_str()))));
    f.push((owned("period"), opt_text_value(&s.period)));
    f.push((owned("raw_payload"), json_clone(&s.raw_payload)));
    f.push((owned("received_at"), Json::Str(owned(s.received_at.as_str()))));
    f.push((owned("source_timestamp"), opt_text_value(&s.source_timestamp)));
    f.push((owned("sport_id"), crate::json::json_int(s.sport_id as i64)));
    f.push((owned("state"), Json::Str(owned(s.state.as_str()))));
    f.push((owned("status_id"), status));
    proof {
        lemma_fields_view(f@);
        assert(fields_view(f@) =~= snapshot_payload_spec(*s)->Object_0);
    }
    Json::Object(f)
}

/// The outbox payload of a recorded odds quote, members in key order.
pub open spec fn quote_payload_spec(q: OddsQuote) -> JsonV {
    JsonV::Object(
        seq![
            ("identity"@, JsonV::Object(seq![
                ("bookmaker_id"@, JsonV::Str(q.identity.bookmaker_id@)),
                ("line_value"@, JsonV::Str(q.identity.line_value@)),
                ("market_type"@, JsonV::Str(q.identity.market_type@)),
                ("match_id"@, JsonV::Str(q.identity.match_id@)),
                ("period"@, JsonV::Str(q.identity.period@)),
                ("selection_key"@, JsonV::Str(q.identity.selection_key@)),
            ])),
            ("is_live"@, JsonV::Bool(q.is_live)),
            ("odds_value"@, JsonV::Str(q.odds_value@)),
            ("payload"@, q.payload@),
            ("payload_hash"@, JsonV::Str(q.payload_hash@)),
            ("received_at"@, JsonV::Str(q.received_at@)),
            ("source_timestamp"@, opt_text_json(opt_string_view(q.source_timestamp))),
        ],
    )
}

/// The outbox payload that announces a recorded quote.
pub fn quote_outbox_payload(q: &OddsQuote) -> (r: Json)
    ensures
        r@ == quote_payload_spec(*q),
{
    let i = &q.identity;
    let mut g: Vec<(String, Json)> = Vec::new();
    g.push((owned("bookmaker_id"), Json::Str(owned(i.bookmaker_id.as_str()))));
    g.push((owned("line_value"), Json::Str(owned(i.line_value.as_str()))));
    g.push((owned("market_type"), Json::Str(owned(i.market_type.as_str()))));
    g.push((owned("match_id"), Json::Str(owned(i.match_id.as_str()))));
    g.push((owned("period"), Json::Str(owned(i.period.as_str()))));
    g.push((owned("selection_key"), Json::Str(owned(i.selection_key.as_str()))));
    proof {
        lemma_fields_view(g@);
        assert(fields_view(g@) =~= quote_payload_spec(*q)->Object_0[0].1->Object_0);
    }
    let mut f: Vec<(String, Json)> = Vec::new();
    f.push((owned("identity"), Json::Object(g)));
    f.push((owned("is_live"), Json::Bool(q.is_live)));
    f.push((owned("odds_value"), Json::Str(owned(q.odds_value.as_str()))));
    f.push((owned("payload"), json_clone(&q.payload)));
    f.push((owned("payload_hash"), Json::Str(owned(q.payload_hash.as_str()))));
    f.push((owned("received_at"), Json::Str(owned(q.received_at.as_str()))));
    f.push((owned("source_timestamp"), opt_text_value(&q.source_timestamp)));
    proof {
        lemma_fields_view(f@);
        assert(fields_view(f@) =~= quote_payload_spec(*q)->Object_0);
    }
    Json::Object(f)
}

/// `p[a]`, else `p[b]`, as text; empty when neither is a string.
pub open spec fn text2(p: JsonV, a: Seq<char>, b: Seq<char>) -> Seq<char> {
    match as_str(member(p, a)) {
        Some(s) => s,
        None => match as_str(member(p, b)) {
            Some(s) => s,
            None => Seq::empty(),
        },
    }
}

/// A value, or the fallback when it is empty.
pub open spec fn nonempty_or_spec(v: Seq<char>, fallback: Option<Seq<char>>) -> Seq<char> {
    if v.len() == 0 {
        match fallback {
            Some(f) => f,
            None => Seq::empty(),
        }
    } else {
        v
    }
}

pub fn nonempty_or(value: String, fallback: Option<String>) -> (r: String)
    ensures
        r@ == nonempty_or_spec(value@, opt_string_view(fallback)),
{
    if value.as_str().is_empty() {
        match fallback {
            Some(f) => f,
            None => String::new(),
        }
    } else {
        value
    }
}

/// The first of `keys` whose member is a string, trimmed; `None` when there
/// is none or it is blank.
pub open spec fn text_value_of(p: JsonV, keys: Seq<Seq<char>>) -> Option<Seq<char>>
    decreases keys.len(),
{
    if keys.len() == 0 {
        None
    } else {
        match as_str(member(p, keys[0])) {
            Some(s) => if trim(s).len() > 0 {
                Some(trim(s))
            } else {
                None
            },
            None => text_value_of(p, keys.drop_first()),
        }
    }
}

pub fn text_value(payload: &Json, keys: &[&str]) -> (r: Option<String>)
    ensures
        opt_string_view(r) == text_value_of(payload@, crate::feed::adapters::key_views(keys@)),
{
    let ghost all = crate::feed::adapters::key_views(keys@);
    let mut i: usize = 0;
    assert(all.subrange(0, all.len() as int) =~= all);
    while i < keys.len()
        invariant
            i <= keys.len(),
            all == crate::feed::adapters::key_views(keys@),
            all.len() == keys@.len(),
            text_value_of(payload@, all) == text_value_of(payload@, all.subrange(i as int, all.len() as int)),
        decreases keys.len() - i,
    {
        let ghost rest = all.subrange(i as int, all.len() as int);
        assert(rest[0] == keys@[i as int]@);
        assert(rest.drop_first() =~= all.subrange(i + 1, all.len() as int));
        match member_str(payload, keys[i]) {
            Some(s) => {
                let t = trim_str(s.as_str());
                if t.len() == 0 {
                    return None;
                }
                return Some(string_from_chars(&t));
            },
            None => {},
        }
        i = i + 1;
    }
    None
}

/// A score list: the payload's member under either name, else the stored
/// list, else an empty list.
pub open spec fn scores_of(p: JsonV, a: Seq<char>, b: Seq<char>, stored: Option<JsonV>) -> JsonV {
    match get(p, a) {
        Some(v) => v,
        None => match get(p, b) {
            Some(v) => v,
            None => match stored {
                Some(s) => s,
                None => JsonV::Array(Seq::empty()),
            },
        },
    }
}

fn scores_exec(p: &Json, a: &str, b: &str, stored: Option<&Json>) -> (r: Json)
    ensures
        r@ == scores_of(p@, a@, b@, match stored {
            Some(s) => Some(s@),
            None => None,
        }),
{
    match get_member(p, a) {
        Some(v) => json_clone(v),
        None => match get_member(p, b) {
            Some(v) => json_clone(v),
            None => match stored {
                Some(s) => json_clone(s),
                None => {
                    let v: Vec<Json> = Vec::new();
                    proof {
                        lemma_items_view(v@);
                        assert(items_view(v@) =~= Seq::<JsonV>::empty());
                    }
                    Json::Array(v)
                },
            },
        },
    }
}

/// The sport of an event: its own, else the payload's `sport_id`.
pub open spec fn event_sport(e: NormalizedEvent) -> Option<i32> {
    match e.sport_id {
        Some(s) => Some(s),
        None => match as_i64(member(e.payload@, "sport_id"@)) {
            Some(v) => Some(v as i32),
            None => None,
        },
    }
}

/// The snapshot an event yields, from its payload, the admission evidence,
/// the stored row and the latest stored state.
pub open spec fn snapshot_of(
    s: MatchSnapshot,
    e: NormalizedEvent,
    evidence: AdmissionEvidence,
    existing: Option<ExistingMatch>,
    current: Option<InternalState>,
) -> bool {
    let p = e.payload@;
    &&& opt_string_view(e.match_id) == Some(s.match_id@)
    &&& event_sport(e) == Some(s.sport_id)
    &&& s.competition_id@ == nonempty_or_spec(
        text2(p, "competition_id"@, "competitionId"@),
        match existing {
            Some(x) => Some(x.competition_id@),
            None => None,
        },
    )
    &&& s.home_team_id@ == nonempty_or_spec(
        text2(p, "home_team_id"@, "homeTeamId"@),
        match existing {
            Some(x) => Some(x.home_team_id@),
            None => None,
        },
    )
    &&& s.away_team_id@ == nonempty_or_spec(
        text2(p, "away_team_id"@, "awayTeamId"@),
        match existing {
            Some(x) => Some(x.away_team_id@),
            None => None,
        },
    )
    &&& s.match_time == match as_i64(member(p, "match_time"@)) {
        Some(v) => v,
        None => match as_i64(member(p, "matchTime"@)) {
            Some(v) => v,
            None => match existing {
                Some(x) => x.match_time as int,
                None => 0,
            },
        },
    }
    &&& s.status_id == match as_i64(member(p, "status_id"@)) {
        Some(v) => Some(v as i32),
        None => match as_i64(member(p, "statusId"@)) {
            Some(v) => Some(v as i32),
            None => match existing {
                Some(x) => x.status_id,
                None => None,
            },
        },
    }
    &&& s.state == next_state_spec(current, e.event_type, opt_string_view(evidence.source_status))
    &&& s.home_scores@ == scores_of(p, "home_scores"@, "homeScores"@, match existing {
        Some(x) => Some(x.home_scores@),
        None => None,
    })
    &&& s.away_scores@ == scores_of(p, "away_scores"@, "awayScores"@, match existing {
        Some(x) => Some(x.away_scores@),
        None => None,
    })
    &&& opt_string_view(s.period) == match evidence.period {
        Some(v) => Some(v@),
        None => text_value_of(p, seq!["period"@]),
    }
    &&& opt_string_view(s.clock) == match evidence.clock {
        Some(v) => Some(v@),
        None => text_value_of(p, seq!["clock"@, "match_clock"@]),
    }
    &&& opt_string_view(s.source_timestamp) == opt_string_view(e.source_timestamp)
    &&& s.received_at@ == e.received_at@
    &&& s.payload_hash@ == e.payload_hash@
    &&& s.raw_payload@ == p
}

fn copy_opt(s: &Option<String>) -> (r: Option<String>)
    ensures
        opt_string_view(r) == opt_string_view(*s),
{
    match s {
        Some(t) => Some(owned(t.as_str())),
        None => None,
    }
}

fn text2_exec(p: &Json, a: &str, b: &str) -> (r: String)
    ensures
        r@ == text2(p@, a@, b@),
{
    match member_str(p, a) {
        Some(s) => owned(s.as_str()),
        None => match member_str(p, b) {
            Some(s) => owned(s.as_str()),
            None => String::new(),
        },
    }
}

/// Builds the match snapshot an event yields; `None` when the event names
/// no match or no sport.
pub fn snapshot_from_event(
    event: &NormalizedEvent,
    evidence: &AdmissionEvidence,
    existing: Option<&ExistingMatch>,
    current_state: Option<InternalState>,
) -> (r: Option<MatchSnapshot>)
    ensures
        match r {
            Some(s) => snapshot_of(
                s,
                *event,
                *evidence,
                match existing {
                    Some(x) => Some(*x),
                    None => None,
                },
                current_state,
            ),
            None => event.match_id is None || event_sport(*event) is None,
        },
{
    let p = &event.payload;
    let match_id = match &event.match_id {
        Some(m) => owned(m.as_str()),
        None => {
            return None;
        },
    };
    let sport_id: i32 = match event.sport_id {
        Some(s) => s,
        None => match member_i64(p, "sport_id") {
            Some(v) => v as i32,
            None => {
                return None;
            },
        },
    };
    let status_src: Option<&str> = match &evidence.source_status {
        Some(s) => Some(s.as_str()),
        None => None,
    };
    let state = next_state(current_state, event.event_type, status_src);
    let (fc, fh, fa, ft, fs): (Option<String>, Option<String>, Option<String>, Option<i64>, Option<i32>) = match existing {
        Some(x) => (
            Some(owned(x.competition_id.as_str())),
            Some(owned(x.home_team_id.as_str())),
            Some(owned(x.away_team_id.as_str())),
            Some(x.match_time),
            x.status_id,
        ),
        None => (None, None, None, None, None),
    };
    let match_time: i64 = match member_i64(p, "match_time") {
        Some(v) => v,
        None => match member_i64(p, "matchTime") {
            Some(v) => v,
            None => match ft {
                Some(t) => t,
                None => 0,
            },
        },
    };
    let status_id: Option<i32> = match member_i64(p, "status_id") {
        Some(v) => Some(v as i32),
        None => match member_i64(p, "statusId") {
            Some(v) => Some(v as i32),
            None => fs,
        },
    };
    let (stored_home, stored_away): (Option<&Json>, Option<&Json>) = match existing {
        Some(x) => (Some(&x.home_scores), Some(&x.away_scores)),
        None => (None, None),
    };
    let period = match &evidence.period {
        Some(v) => Some(owned(v.as_str())),
        None => {
            let keys: [&str; 1] = ["period"];
            assert(crate::feed::adapters::key_views(keys@) =~= seq!["period"@]);
            text_value(p, &keys)
        },
    };
    let clock = match &evidence.clock {
        Some(v) => Some(owned(v.as_str())),
        None => {
            let keys: [&str; 2] = ["clock", "match_clock"];
            assert(crate::feed::adapters::key_views(keys@) =~= seq!["clock"@, "match_clock"@]);
            text_value(p, &keys)
        },
    };
    Some(
        MatchSnapshot {
            match_id,
            sport_id,
            competition_id: nonempty_or(text2_exec(p, "competition_id", "competitionId"), fc),
            home_team_id: nonempty_or(text2_exec(p, "home_team_id", "homeTeamId"), fh),
            away_team_id: nonempty_or(text2_exec(p, "away_team_id", "awayTeamId"), fa),
            match_time,
            status_id,
            state,
            home_scores: scores_exec(p, "home_scores", "homeScores", stored_home),
            away_scores: scores_exec(p, "away_scores", "awayScores", stored_away),
            period,
            clock,
            source_timestamp: copy_opt(&event.source_timestamp),
            received_at: owned(event.received_at.as_str()),
            payload_hash: owned(event.payload_hash.as_str()),
            raw_payload: json_clone(p),
        },
    )
}

/// The stored current quote of an odds identity.
pub struct CurrentQuote {
    pub odds_value: String,
    pub source_timestamp: Option<String>,
    pub received_at: String,
    pub payload_hash: String,
}

/// What happens to a quote.
#[derive(Debug, Clone, Copy, PartialEq, Eq, Structural)]
pub enum QuoteAction {
    /// Older than the stored quote: dropped, and the event is stale.
    Stale,
    /// Same price as stored: nothing is written.
    Unchanged,
    /// A new price: recorded in the history and as the current quote.
    Record,
}

pub open spec fn quote_action_spec(q: OddsQuote, current: Option<CurrentQuote>) -> QuoteAction {
    match current {
        Some(c) => if order_parts(
            opt_string_view(q.source_timestamp),
            Some(q.received_at@),
            Some(q.payload_hash@),
            opt_string_view(c.source_timestamp),
            Some(c.received_at@),
            Some(c.payload_hash@),
        ) < 0 {
            QuoteAction::Stale
        } else if decimal_norm(c.odds_value@) == q.odds_value@ {
            QuoteAction::Unchanged
        } else {
            QuoteAction::Record
        },
        None => QuoteAction::Record,
    }
}

pub fn apply_quote(q: &OddsQuote, current: Option<&CurrentQuote>) -> (r: QuoteAction)
    ensures
        r == quote_action_spec(
            *q,
            match current {
                Some(c) => Some(*c),
                None => None,
            },
        ),
{
    match current {
        None => QuoteAction::Record,
        Some(c) => {
            let sq: Option<&str> = match &q.source_timestamp {
                Some(s) => Some(s.as_str()),
                None => None,
            };
            let sc: Option<&str> = match &c.source_timestamp {
                Some(s) => Some(s.as_str()),
                None => None,
            };
            let o = compare_order_parts(
                sq,
                Some(q.received_at.as_str()),
                Some(q.payload_hash.as_str()),
                sc,
                Some(c.received_at.as_str()),
                Some(c.payload_hash.as_str()),
            );
            match o {
                Ordering::Less => {
                    return QuoteAction::Stale;
                },
                _ => {},
            }
            if q.value_changed(Some(c.odds_value.as_str())) {
                QuoteAction::Record
            } else {
                QuoteAction::Unchanged
            }
        },
    }
}

/// Quotes are ordered by source time when both carry one: a quote whose
/// source time is earlier than the stored quote's is stale, whatever its
/// price, receipt time or payload; one whose source time is later is
/// recorded exactly when its price differs from the stored one.  Without a
/// stored quote every quote is recorded.
pub proof fn quotes_follow_source_time(q: OddsQuote, c: CurrentQuote)
    ensures
        quote_action_spec(q, None) == QuoteAction::Record,
        (q.source_timestamp matches Some(a) && c.source_timestamp matches Some(b) && a@.len() > 0
            && b@.len() > 0 && crate::text::seq_order(a@, b@) < 0) ==> quote_action_spec(q, Some(c))
            == QuoteAction::Stale,
        (q.source_timestamp matches Some(a) && c.source_timestamp matches Some(b) && a@.len() > 0
            && b@.len() > 0 && crate::text::seq_order(b@, a@) < 0) ==> quote_action_spec(q, Some(c))
            == if decimal_norm(c.odds_value@) == q.odds_value@ {
            QuoteAction::Unchanged
        } else {
            QuoteAction::Record
        },
{
    match (q.source_timestamp, c.source_timestamp) {
        (Some(a), Some(b)) => {
            crate::text::lemma_seq_order(a@, b@);
        },
        _ => {},
    }
}

/// The current quote that recording `q` stores.
pub open spec fn recorded_quote(q: OddsQuote) -> CurrentQuote {
    CurrentQuote {
        odds_value: q.odds_value,
        source_timestamp: q.source_timestamp,
        received_at: q.received_at,
        payload_hash: q.payload_hash,
    }
}

/// Replaying a quote is safe: once a quote with a normalized price has been
/// recorded, the same quote arriving again is neither stale nor a change.
pub proof fn replayed_quote_changes_nothing(q: OddsQuote, raw_price: Seq<char>)
    requires
        q.odds_value@ == decimal_norm(raw_price),
    ensures
        quote_action_spec(q, Some(recorded_quote(q))) == QuoteAction::Unchanged,
{
    let s = opt_string_view(q.source_timestamp);
    let r = Some(q.received_at@);
    let h = Some(q.payload_hash@);
    event_order_is_antisymmetric(s, r, h, s, r, h);
    decimal_norm_is_idempotent(raw_price);
}

/// The sections planned for a match first seen live.
pub open spec fn initial_sections() -> Seq<Seq<char>> {
    seq!["overview"@, "odds"@, "h2h"@, "lineups"@, "stats"@, "incidents"@]
}

/// The sections of `sections` not in `done`, in order.
pub open spec fn pending_sections(sections: Seq<Seq<char>>, done: Set<Seq<char>>) -> Seq<Seq<char>>
    decreases sections.len(),
{
    if sections.len() == 0 {
        Seq::empty()
    } else {
        let prev = pending_sections(sections.drop_last(), done);
        if done.contains(sections.last()) {
            prev
        } else {
            prev.push(sections.last())
        }
    }
}

/// The initial sections still to plan: those not already completed or
/// confirmed empty, in planning order.
pub fn plan_initial_detail_jobs(completed: &Vec<String>) -> (r: Vec<&'static str>)
    ensures
        crate::feed::adapters::key_views(r@) == pending_sections(
            initial_sections(),
            crate::text::names(completed@),
        ),
{
    let all: [&'static str; 6] = ["overview", "odds", "h2h", "lineups", "stats", "incidents"];
    assert(crate::feed::adapters::key_views(all@) =~= initial_sections());
    let ghost done = crate::text::names(completed@);
    let mut out: Vec<&'static str> = Vec::new();
    let mut i: usize = 0;
    while i < 6
        invariant
            i <= 6,
            done == crate::text::names(completed@),
            crate::feed::adapters::key_views(all@) == initial_sections(),
            crate::feed::adapters::key_views(out@) == pending_sections(
                initial_sections().take(i as int),
                done,
            ),
        decreases 6 - i,
    {
        let s = all[i];
        assert(initial_sections()[i as int] == s@);
        let ghost before = out@;
        proof {
            assert(initial_sections().take(i + 1).drop_last() =~= initial_sections().take(i as int));
        }
        if !crate::text::contains_name(completed, s) {
            out.push(s);
            assert(crate::feed::adapters::key_views(out@) =~= crate::feed::adapters::key_views(
                before,
            ).push(s@));
        }
        i = i + 1;
    }
    assert(initial_sections().take(6) =~= initial_sections());
    out
}

/// The status a failed job gets.
pub fn fail_status(permanent: bool) -> (r: &'static str)
    ensures
        r@ == if permanent {
            "FAILED_PERMANENT"@
        } else {
            "FAILED_RETRYABLE"@
        },
{
    if permanent {
        "FAILED_PERMANENT"
    } else {
        "FAILED_RETRYABLE"
    }
}

/// An SQLite date modifier of a number of seconds: `+N seconds`.
pub fn seconds_modifier(secs: i64) -> (r: String)
    ensures
        r@ == "+"@ + int_text_of(secs as int) + " seconds"@,
{
    let mut out: Vec<char> = Vec::new();
    extend_str(&mut out, "+");
    let n = int_to_text(secs);
    extend_str(&mut out, n.as_str());
    extend_str(&mut out, " seconds");
    string_from_chars(&out)
}

/// The status of a saved section.
pub fn section_status(is_empty: bool) -> (r: &'static str)
    ensures
        r@ == if is_empty {
            "EMPTY_CONFIRMED"@
        } else {
            "COMPLETED"@
        },
{
    if is_empty {
        "EMPTY_CONFIRMED"
    } else {
        "COMPLETED"
    }
}

/// One statistic row: its key, the side (`home`, `away` or `none`) and the
/// value's JSON text.
#[derive(Debug, Clone)]
pub struct StatRow {
    pub stat_key: String,
    pub side: String,
    pub value_json: String,
}

pub open spec fn stat_view(r: StatRow) -> (Seq<char>, Seq<char>, Seq<char>) {
    (r.stat_key@, r.side@, r.value_json@)
}

/// The statistic rows of a stats object, member by member: a list of two or
/// more values gives a home and an away row from its first two values, a
/// shorter list gives none, any other value one row for no side.
pub open spec fn stat_rows(f: Seq<(Seq<char>, JsonV)>) -> Seq<(Seq<char>, Seq<char>, Seq<char>)>
    decreases f.len(),
{
    if f.len() == 0 {
        Seq::empty()
    } else {
        let prev = stat_rows(f.drop_last());
        let (k, v) = f.last();
        match v {
            JsonV::Array(items) => if items.len() >= 2 {
                prev.push((k, "home"@, canon(items[0]))).push((k, "away"@, canon(items[1])))
            } else {
                prev
            },
            _ => prev.push((k, "none"@, canon(v))),
        }
    }
}

/// The statistic rows of a stats section (none unless it is an object).
pub fn stat_rows_of(data: &Json) -> (r: Vec<StatRow>)
    ensures
        r@.map_values(|x: StatRow| stat_view(x)) == match data@ {
            JsonV::Object(f) => stat_rows(f),
            _ => Seq::empty(),
        },
{
    let mut out: Vec<StatRow> = Vec::new();
    match data {
        Json::Object(fields) => {
            proof {
                lemma_fields_view(fields@);
            }
            let ghost fv = fields_view(fields@);
            let mut i: usize = 0;
            while i < fields.len()
                invariant
                    i <= fields.len(),
                    fv == fields_view(fields@),
                    fv.len() == fields@.len(),
                    forall|m: int| 0 <= m < fields@.len() ==> #[trigger] fv[m] == (fields@[m].0@, json_view(fields@[m].1)),
                    out@.map_values(|x: StatRow| stat_view(x)) == stat_rows(fv.take(i as int)),
                decreases fields.len() - i,
            {
                let ghost t = fv.take(i + 1);
                assert(t.drop_last() =~= fv.take(i as int));
                assert(t.last() == fv[i as int]);
                let key = &fields[i].0;
                let val = &fields[i].1;
                match val {
                    Json::Array(items) => {
                        proof {
                            lemma_items_view(items@);
                        }
                        if items.len() >= 2 {
                            out.push(StatRow { stat_key: key.clone(), side: owned("home"), value_json: json_text(&items[0]) });
                            out.push(StatRow { stat_key: key.clone(), side: owned("away"), value_json: json_text(&items[1]) });
                        }
                    },
                    _ => {
                        out.push(StatRow { stat_key: key.clone(), side: owned("none"), value_json: json_text(val) });
                    },
                }
                i = i + 1;
                assert(out@.map_values(|x: StatRow| stat_view(x)) =~= stat_rows(fv.take(i as int)));
            }
            assert(fv.take(fv.len() as int) =~= fv);
        },
        _ => {},
    }
    assert(out@.map_values(|x: StatRow| stat_view(x)) =~= match data@ {
        JsonV::Object(f) => stat_rows(f),
        _ => Seq::empty(),
    });
    out
}

/// One lineup row.
#[derive(Debug, Clone)]
pub struct LineupRow {
    pub side: String,
    pub player_id: String,
    pub coach_id: Option<String>,
    pub position: Option<String>,
    pub shirt_number: Option<String>,
    pub starter: i32,
    pub lineup_json: String,
}

pub open spec fn player_id_of(p: JsonV) -> Seq<char> {
    text2(p, "id"@, "playerId"@)
}

pub open spec fn lineup_row_of(r: LineupRow, side: Seq<char>, p: JsonV) -> bool {
    &&& r.side@ == side
    &&& r.player_id@ == player_id_of(p)
    &&& opt_string_view(r.coach_id) == as_str(member(p, "coachId"@))
    &&& opt_string_view(r.position) == as_str(member(p, "position"@))
    &&& opt_string_view(r.shirt_number) == match as_str(member(p, "shirtNumber"@)) {
        Some(s) => Some(s),
        None => as_str(member(p, "shirt_number"@)),
    }
    &&& r.starter == (if as_bool(member(p, "starter"@)) == Some(true) {
        1i32
    } else {
        0i32
    })
    &&& r.lineup_json@ == canon(p)
}

/// The players of one side that have an id, in order.
pub open spec fn lineup_players(s: Seq<JsonV>) -> Seq<JsonV>
    decreases s.len(),
{
    if s.len() == 0 {
        s
    } else if player_id_of(s.last()).len() > 0 {
        lineup_players(s.drop_last()).push(s.last())
    } else {
        lineup_players(s.drop_last())
    }
}

/// The players of `data[side]` that have an id (none when it is not a
/// list).
pub open spec fn side_players(data: JsonV, side: Seq<char>) -> Seq<JsonV> {
    match member(data, side) {
        JsonV::Array(ps) => lineup_players(ps),
        _ => Seq::empty(),
    }
}

/// The lineup rows of one side.
pub fn lineup_rows_of(data: &Json, side: &str) -> (r: Vec<LineupRow>)
    ensures
        r@.len() == side_players(data@, side@).len(),
        forall|j: int| 0 <= j < r@.len() ==> lineup_row_of(#[trigger] r@[j], side@, side_players(data@, side@)[j]),
{
    let mut out: Vec<LineupRow> = Vec::new();
    match get_member(data, side) {
        Some(Json::Array(players)) => {
            proof {
                lemma_items_view(players@);
            }
            let ghost pv = items_view(players@);
            let mut i: usize = 0;
            while i < players.len()
                invariant
                    i <= players.len(),
                    pv == items_view(players@),
                    pv.len() == players@.len(),
                    forall|m: int| 0 <= m < players@.len() ==> #[trigger] pv[m] == json_view(players@[m]),
                    out@.len() == lineup_players(pv.take(i as int)).len(),
                    forall|j: int|
                        0 <= j < out@.len() ==> lineup_row_of(#[trigger] out@[j], side@, lineup_players(pv.take(i as int))[j]),
                decreases players.len() - i,
            {
                let ghost t = pv.take(i + 1);
                assert(t.drop_last() =~= pv.take(i as int));
                assert(t.last() == pv[i as int]);
                let p = &players[i];
                let pid = text2_exec(p, "id", "playerId");
                if !pid.as_str().is_empty() {
                    let shirt = match member_str(p, "shirtNumber") {
                        Some(x) => Some(owned(x.as_str())),
                        None => match member_str(p, "shirt_number") {
                            Some(x) => Some(owned(x.as_str())),
                            None => None,
                        },
                    };
                    let starter: i32 = match get_member(p, "starter") {
                        Some(Json::Bool(b)) => if *b {
                            1
                        } else {
                            0
                        },
                        _ => 0,
                    };
                    let coach = match member_str(p, "coachId") {
                        Some(x) => Some(owned(x.as_str())),
                        None => None,
                    };
                    let position = match member_str(p, "position") {
                        Some(x) => Some(owned(x.as_str())),
                        None => None,
                    };
                    out.push(
                        LineupRow {
                            side: owned(side),
                            player_id: pid,
                            coach_id: coach,
                            position,
                            shirt_number: shirt,
                            starter,
                            lineup_json: json_text(p),
                        },
                    );
                }
                i = i + 1;
            }
            assert(pv.take(pv.len() as int) =~= pv);
        },
        _ => {},
    }
    out
}

/// One incident row: `incident-N` and the incident's JSON text.
#[derive(Debug, Clone)]
pub struct IncidentRow {
    pub incident_key: String,
    pub incident_json: String,
}

/// The incident rows of an incidents list, numbered from 0.
pub fn incident_rows_of(data: &Json) -> (r: Vec<IncidentRow>)
    ensures
        match data@ {
            JsonV::Array(items) => r@.len() == items.len() && forall|j: int|
                0 <= j < r@.len() ==> (#[trigger] r@[j]).incident_key@ == "incident-"@ + crate::json::nat_text(j as nat)
                    && r@[j].incident_json@ == canon(items[j]),
            _ => r@.len() == 0,
        },
{
    let mut out: Vec<IncidentRow> = Vec::new();
    match data {
        Json::Array(items) => {
            proof {
                lemma_items_view(items@);
            }
            let mut i: usize = 0;
            while i < items.len()
                invariant
                    i <= items.len(),
                    items_view(items@).len() == items@.len(),
                    forall|m: int| 0 <= m < items@.len() ==> #[trigger] items_view(items@)[m] == json_view(items@[m]),
                    out@.len() == i,
                    forall|j: int|
                        0 <= j < i ==> (#[trigger] out@[j]).incident_key@ == "incident-"@ + crate::json::nat_text(j as nat)
                            && out@[j].incident_json@ == canon(items_view(items@)[j]),
                decreases items.len() - i,
            {
                let mut key: Vec<char> = Vec::new();
                extend_str(&mut key, "incident-");
                let n = crate::json::nat_digits(i as u64);
                crate::text::extend_chars(&mut key, &n);
                out.push(IncidentRow { incident_key: string_from_chars(&key), incident_json: json_text(&items[i]) });
                i = i + 1;
            }
        },
        _ => {},
    }
    out
}

/// One head-to-head reference: its key, JSON text and content hash.
#[derive(Debug, Clone)]
pub struct H2hRow {
    pub reference_key: String,
    pub reference_json: String,
    pub content_hash: String,
}

/// The reference key of history item `j`: its id, else `h2h-j`.
pub open spec fn h2h_key(item: JsonV, j: int) -> Seq<char> {
    match as_str(member(item, "id"@)) {
        Some(s) => s,
        None => "h2h-"@ + crate::json::nat_text(j as nat),
    }
}

/// The head-to-head references of `data.history`.
pub fn h2h_rows_of(data: &Json) -> (r: Vec<H2hRow>)
    ensures
        match member(data@, "history"@) {
            JsonV::Array(items) => r@.len() == items.len() && forall|j: int|
                0 <= j < r@.len() ==> (#[trigger] r@[j]).reference_key@ == h2h_key(items[j], j)
                    && r@[j].reference_json@ == canon(items[j]) && r@[j].content_hash@
                    == crate::text::hex_bytes(
                    crate::digest::md5_digest(vstd::utf8::encode_utf8(canon(items[j]))),
                ),
            _ => r@.len() == 0,
        },
{
    let mut out: Vec<H2hRow> = Vec::new();
    match get_member(data, "history") {
        Some(Json::Array(items)) => {
            proof {
                lemma_items_view(items@);
            }
            let mut i: usize = 0;
            while i < items.len()
                invariant
                    i <= items.len(),
                    items_view(items@).len() == items@.len(),
                    forall|m: int| 0 <= m < items@.len() ==> #[trigger] items_view(items@)[m] == json_view(items@[m]),
                    out@.len() == i,
                    forall|j: int|
                        0 <= j < i ==> (#[trigger] out@[j]).reference_key@ == h2h_key(items_view(items@)[j], j)
                            && out@[j].reference_json@ == canon(items_view(items@)[j]) && out@[j].content_hash@
                            == crate::text::hex_bytes(
                            crate::digest::md5_digest(vstd::utf8::encode_utf8(canon(items_view(items@)[j]))),
                        ),
                decreases items.len() - i,
            {
                let item = &items[i];
                let key = match member_str(item, "id") {
                    Some(s) => owned(s.as_str()),
                    None => {
                        let mut k: Vec<char> = Vec::new();
                        extend_str(&mut k, "h2h-");
                        let n = crate::json::nat_digits(i as u64);
                        crate::text::extend_chars(&mut k, &n);
                        string_from_chars(&k)
                    },
                };
                let text = json_text(item);
                let hash = crate::digest::md5_hex(text.as_str().as_bytes());
                out.push(H2hRow { reference_key: key, reference_json: text, content_hash: hash });
                i = i + 1;
            }
        },
        _ => {},
    }
    out
}

/// The rows a saved section is split into.
pub struct SectionRows {
    pub statistics: Vec<StatRow>,
    pub lineups: Vec<LineupRow>,
    pub incidents: Vec<IncidentRow>,
    pub h2h: Vec<H2hRow>,
}

/// Splits a non-empty section into its rows: statistics for `stats`, both
/// sides' players for `lineups`, numbered incidents for `incidents`,
/// references for `h2h`; other sections, and empty ones, give none.
pub fn section_rows(section_name: &str, data: &Json, is_empty: bool) -> (r: SectionRows)
    ensures
        (is_empty || section_name@ != "stats"@) ==> r.statistics@.len() == 0,
        (is_empty || section_name@ != "lineups"@) ==> r.lineups@.len() == 0,
        (is_empty || section_name@ != "incidents"@) ==> r.incidents@.len() == 0,
        (is_empty || section_name@ != "h2h"@) ==> r.h2h@.len() == 0,
        !is_empty && section_name@ == "stats"@ ==> r.statistics@.map_values(|x: StatRow| stat_view(x))
            == match data@ {
            JsonV::Object(f) => stat_rows(f),
            _ => Seq::empty(),
        },
        !is_empty && section_name@ == "lineups"@ ==> r.lineups@.len() == side_players(data@, "home"@).len()
            + side_players(data@, "away"@).len(),
        !is_empty && section_name@ == "lineups"@ ==> forall|j: int|
            0 <= j < side_players(data@, "home"@).len() ==> lineup_row_of(
                #[trigger] r.lineups@[j],
                "home"@,
                side_players(data@, "home"@)[j],
            ),
        !is_empty && section_name@ == "lineups"@ ==> forall|j: int|
            side_players(data@, "home"@).len() <= j < r.lineups@.len() ==> lineup_row_of(
                #[trigger] r.lineups@[j],
                "away"@,
                side_players(data@, "away"@)[j - side_players(data@, "home"@).len()],
            ),
{
    let mut rows = SectionRows { statistics: Vec::new(), lineups: Vec::new(), incidents: Vec::new(), h2h: Vec::new() };
    if is_empty {
        return rows;
    }
    let c = crate::text::chars_of(section_name);
    proof {
        reveal_strlit("stats");
        reveal_strlit("lineups");
        reveal_strlit("incidents");
        reveal_strlit("h2h");
    }
    if crate::text::chars_eq_str(&c, "stats") {
        assert(section_name@.len() == 5);
        rows.statistics = stat_rows_of(data);
    } else if crate::text::chars_eq_str(&c, "lineups") {
        let mut home = lineup_rows_of(data, "home");
        let ghost h = home@;
        assert(h.len() == side_players(data@, "home"@).len());
        let mut away = lineup_rows_of(data, "away");
        let ghost a = away@;
        home.append(&mut away);
        assert(home@ =~= h + a);
        assert forall|j: int| 0 <= j < h.len() implies home@[j] == h[j] by {}
        assert forall|j: int| h.len() <= j < home@.len() implies home@[j] == a[j - h.len()] by {}
        assert(home@.len() == side_players(data@, "home"@).len() + side_players(data@, "away"@).len());
        rows.lineups = home;
        assert(rows.lineups@.len() == side_players(data@, "home"@).len() + side_players(data@, "away"@).len());
    } else if crate::text::chars_eq_str(&c, "incidents") {
        assert(section_name@.len() == 9);
        rows.incidents = incident_rows_of(data);
    } else if crate::text::chars_eq_str(&c, "h2h") {
        assert(section_name@.len() == 3);
        rows.h2h = h2h_rows_of(data);
    }
    rows
}

/// The asset id that replaces a string: that of the first replacement whose
/// URL, or that URL's placeholder, equals it.
pub open spec fn replacement_for(s: Seq<char>, reps: Seq<(Seq<char>, Seq<char>)>) -> Option<Seq<char>>
    decreases reps.len(),
{
    if reps.len() == 0 {
        None
    } else if s == reps[0].0 || s == crate::detail::extractor::placeholder_of(reps[0].0) {
        Some(reps[0].1)
    } else {
        replacement_for(s, reps.drop_first())
    }
}

/// A value with every object member that holds an image URL or its
/// placeholder replaced by the asset id; other members and list items are
/// searched in depth.
pub open spec fn replaced(j: JsonV, reps: Seq<(Seq<char>, Seq<char>)>) -> JsonV
    decreases j, 0nat,
{
    match j {
        JsonV::Array(items) => JsonV::Array(replaced_list(items, reps)),
        JsonV::Object(f) => JsonV::Object(replaced_fields(f, reps)),
        _ => j,
    }
}

pub open spec fn replaced_list(s: Seq<JsonV>, reps: Seq<(Seq<char>, Seq<char>)>) -> Seq<JsonV>
    decreases s, 0nat,
{
    if s.len() == 0 {
        Seq::empty()
    } else {
        replaced_list(s.drop_last(), reps).push(replaced(s.last(), reps))
    }
}

pub open spec fn replaced_member(v: JsonV, reps: Seq<(Seq<char>, Seq<char>)>) -> JsonV
    decreases v, 1nat,
{
    match v {
        JsonV::Str(s) => match replacement_for(s, reps) {
            Some(id) => JsonV::Str(id),
            None => v,
        },
        _ => replaced(v, reps),
    }
}

pub open spec fn replaced_fields(f: Seq<(Seq<char>, JsonV)>, reps: Seq<(Seq<char>, Seq<char>)>) -> Seq<(Seq<char>, JsonV)>
    decreases f, 0nat,
{
    if f.len() == 0 {
        Seq::empty()
    } else {
        replaced_fields(f.drop_last(), reps).push((f.last().0, replaced_member(f.last().1, reps)))
    }
}

pub open spec fn reps_view(reps: Seq<(String, String)>) -> Seq<(Seq<char>, Seq<char>)> {
    reps.map_values(|p: (String, String)| (p.0@, p.1@))
}

fn replacement_exec(s: &str, reps: &Vec<(String, String)>) -> (r: Option<String>)
    ensures
        opt_string_view(r) == replacement_for(s@, reps_view(reps@)),
{
    let ghost all = reps_view(reps@);
    let mut i: usize = 0;
    assert(all.subrange(0, all.len() as int) =~= all);
    while i < reps.len()
        invariant
            i <= reps.len(),
            all == reps_view(reps@),
            all.len() == reps@.len(),
            replacement_for(s@, all) == replacement_for(s@, all.subrange(i as int, all.len() as int)),
        decreases reps.len() - i,
    {
        let ghost rest = all.subrange(i as int, all.len() as int);
        assert(rest[0] == (reps@[i as int].0@, reps@[i as int].1@));
        assert(rest.drop_first() =~= all.subrange(i + 1, all.len() as int));
        let url = reps[i].0.as_str();
        let ph = crate::detail::extractor::placeholder_for(url);
        if str_eq(s, url) || str_eq(s, ph.as_str()) {
            return Some(owned(reps[i].1.as_str()));
        }
        i = i + 1;
    }
    None
}

fn replace_ref(j: &Json, reps: &Vec<(String, String)>) -> (r: Json)
    ensures
        r@ == replaced(j@, reps_view(reps@)),
    decreases j,
{
    match j {
        Json::Array(items) => {
            let mut out: Vec<Json> = Vec::new();
            let mut i: usize = 0;
            proof {
                lemma_items_view(items@);
                lemma_items_view(out@);
            }
            while i < items.len()
                invariant
                    *j == Json::Array(*items),
                    i <= items.len(),
                    items_view(items@).len() == items@.len(),
                    forall|k: int| 0 <= k < items@.len() ==> #[trigger] items_view(items@)[k] == json_view(items@[k]),
                    items_view(out@) == replaced_list(items_view(items@).take(i as int), reps_view(reps@)),
                decreases items.len() - i,
            {
                proof {
                    assert(decreases_to!(*j => (*j)->Array_0));
                    assert(decreases_to!(*items => items@));
                    assert(decreases_to!(items@ => items@[i as int]));
                }
                let x = replace_ref(&items[i], reps);
                let ghost before = out@;
                out.push(x);
                proof {
                    assert(out@.drop_last() =~= before);
                    let t = items_view(items@).take(i + 1);
                    assert(t.drop_last() =~= items_view(items@).take(i as int));
                    lemma_items_view(out@);
                    lemma_items_view(before);
                    assert(items_view(out@) =~= items_view(before).push(json_view(x)));
                }
                i = i + 1;
            }
            assert(items_view(items@).take(items.len() as int) =~= items_view(items@));
            Json::Array(out)
        },
        Json::Object(fields) => {
            let mut out: Vec<(String, Json)> = Vec::new();
            let mut i: usize = 0;
            proof {
                lemma_fields_view(fields@);
                lemma_fields_view(out@);
            }
            while i < fields.len()
                invariant
                    *j == Json::Object(*fields),
                    i <= fields.len(),
                    fields_view(fields@).len() == fields@.len(),
                    forall|k: int|
                        0 <= k < fields@.len() ==> #[trigger] fields_view(fields@)[k] == (fields@[k].0@, json_view(fields@[k].1)),
                    fields_view(out@) == replaced_fields(fields_view(fields@).take(i as int), reps_view(reps@)),
                decreases fields.len() - i,
            {
                proof {
                    assert(decreases_to!(*j => (*j)->Object_0));
                    assert(decreases_to!(*fields => fields@));
                    assert(decreases_to!(fields@ => fields@[i as int]));
                    assert(decreases_to!(fields@[i as int] => fields@[i as int].1));
                }
                let ghost t = fields_view(fields@).take(i + 1);
                proof {
                    assert(t.drop_last() =~= fields_view(fields@).take(i as int));
                }
                let v = &fields[i].1;
                let nv = match v {
                    Json::Str(s) => match replacement_exec(s.as_str(), reps) {
                        Some(id) => Json::Str(id),
                        None => Json::Str(s.clone()),
                    },
                    _ => replace_ref(v, reps),
                };
                assert(json_view(nv) == replaced_member(json_view(fields@[i as int].1), reps_view(reps@)));
                assert(t.last() == (fields@[i as int].0@, json_view(fields@[i as int].1)));
                assert(replaced_fields(t, reps_view(reps@)) == replaced_fields(
                    fields_view(fields@).take(i as int),
                    reps_view(reps@),
                ).push((t.last().0, replaced_member(t.last().1, reps_view(reps@)))));
                let ghost before = out@;
                out.push((fields[i].0.clone(), nv));
                proof {
                    lemma_fields_view(out@);
                    lemma_fields_view(before);
                    assert(fields_view(out@) =~= fields_view(before).push((fields@[i as int].0@, json_view(nv))));
                }
                i = i + 1;
            }
            assert(fields_view(fields@).take(fields.len() as int) =~= fields_view(fields@));
            Json::Object(out)
        },
        Json::Null => Json::Null,
        Json::Bool(b) => Json::Bool(*b),
        Json::Number(t) => Json::Number(t.clone()),
        Json::Str(x) => Json::Str(x.clone()),
    }
}

/// Replaces, in place, every image URL or placeholder held by an object
/// member with its asset id.
pub fn replace_all_placeholders(val: &mut Json, asset_replacements: &Vec<(String, String)>)
    ensures
        final(val)@ == replaced(old(val)@, reps_view(asset_replacements@)),
{
    let r = replace_ref(val, asset_replacements);
    *val = r;
}

/// The id recorded for an image that could not be stored.
pub open spec fn unavailable_asset() -> Seq<char> {
    "asset-unavailable"@
}

/// The replacement pairs of a section's candidates: each candidate's URL
/// with the asset id it was stored as, or the unavailable id when its
/// download failed or is missing.
pub fn asset_replacements(
    candidates: &Vec<crate::detail::types::ImageCandidate>,
    stored: &Vec<Option<String>>,
) -> (r: Vec<(String, String)>)
    requires
        stored@.len() == candidates@.len(),
    ensures
        r@.len() == candidates@.len(),
        forall|i: int|
            0 <= i < r@.len() ==> (#[trigger] r@[i]).0@ == candidates@[i].url@ && r@[i].1@ == match stored@[i] {
                Some(id) => id@,
                None => unavailable_asset(),
            },
{
    let mut out: Vec<(String, String)> = Vec::new();
    let mut i: usize = 0;
    while i < candidates.len()
        invariant
            i <= candidates.len(),
            stored@.len() == candidates@.len(),
            out@.len() == i,
            forall|k: int|
                0 <= k < i ==> (#[trigger] out@[k]).0@ == candidates@[k].url@ && out@[k].1@ == match stored@[k] {
                    Some(id) => id@,
                    None => unavailable_asset(),
                },
        decreases candidates.len() - i,
    {
        let id = match &stored[i] {
            Some(a) => owned(a.as_str()),
            None => owned("asset-unavailable"),
        };
        out.push((owned(candidates[i].url.as_str()), id));
        i = i + 1;
    }
    out
}

/// Whether a stored logo is a remote address to import.
pub open spec fn remote_url(s: Seq<char>) -> bool {
    crate::text::starts_with(s, "http://"@) || crate::text::starts_with(s, "https://"@)
}

pub fn is_remote_url(s: &str) -> (r: bool)
    ensures
        r == remote_url(s@),
{
    let c = crate::text::chars_of(s);
    crate::text::starts_with_str(&c, "http://") || crate::text::starts_with_str(&c, "https://")
}

/// The value a legacy logo column gets: a remote logo becomes the imported
/// asset id, or the unavailable id when the import failed (the flag is then
/// set); any other value stays.
pub fn legacy_logo_value(logo: Option<String>, imported: Option<Result<String, String>>) -> (r: (Option<String>, bool))
    requires
        (logo matches Some(u) && remote_url(u@)) <==> imported is Some,
    ensures
        match imported {
            Some(Ok(id)) => opt_string_view(r.0) == Some(id@) && !r.1,
            Some(Err(_)) => opt_string_view(r.0) == Some(unavailable_asset()) && r.1,
            None => opt_string_view(r.0) == opt_string_view(logo) && !r.1,
        },
{
    match imported {
        Some(Ok(id)) => (Some(id), false),
        Some(Err(_)) => (Some(owned("asset-unavailable")), true),
        None => (logo, false),
    }
}

/// The outbox payload announcing a stored asset.
pub fn asset_outbox_payload(
    asset_id: &str,
    content_hash: &str,
    storage_key: &str,
    mime_type: &str,
    byte_size: i64,
    width: Option<i32>,
    height: Option<i32>,
) -> (r: Json)
    ensures
        r@ == JsonV::Object(seq![
            ("asset_id"@, JsonV::Str(asset_id@)),
            ("byte_size"@, JsonV::Number(int_text_of(byte_size as int))),
            ("content_hash"@, JsonV::Str(content_hash@)),
            ("height"@, match height {
                Some(h) => JsonV::Number(int_text_of(h as int)),
                None => JsonV::Null,
            }),
            ("mime_type"@, JsonV::Str(mime_type@)),
            ("storage_key"@, JsonV::Str(storage_key@)),
            ("width"@, match width {
                Some(w) => JsonV::Number(int_text_of(w as int)),
                None => JsonV::Null,
            }),
        ]),
{
    let h = match height {
        Some(v) => crate::json::json_int(v as i64),
        None => Json::Null,
    };
    let w = match width {
        Some(v) => crate::json::json_int(v as i64),
        None => Json::Null,
    };
    let mut f: Vec<(String, Json)> = Vec::new();
    f.push((owned("asset_id"), Json::Str(owned(asset_id))));
    f.push((owned("byte_size"), crate::json::json_int(byte_size)));
    f.push((owned("content_hash"), Json::Str(owned(content_hash))));
    f.push((owned("height"), h));
    f.push((owned("mime_type"), Json::Str(owned(mime_type))));
    f.push((owned("storage_key"), Json::Str(owned(storage_key))));
    f.push((owned("width"), w));
    proof {
        lemma_fields_view(f@);
        assert(fields_view(f@) =~= seq![
            ("asset_id"@, JsonV::Str(asset_id@)),
            ("byte_size"@, JsonV::Number(int_text_of(byte_size as int))),
            ("content_hash"@, JsonV::Str(content_hash@)),
            ("height"@, match height {
                Some(h) => JsonV::Number(int_text_of(h as int)),
                None => JsonV::Null,
            }),
            ("mime_type"@, JsonV::Str(mime_type@)),
            ("storage_key"@, JsonV::Str(storage_key@)),
            ("width"@, match width {
                Some(w) => JsonV::Number(int_text_of(w as int)),
                None => JsonV::Null,
            }),
        ]);
    }
    Json::Object(f)
}

/// The check of an asset already stored with the same content hash: its
/// file must exist, be readable, and still hash to the content hash.
pub open spec fn existing_asset_outcome(
    asset_id: Seq<char>,
    path: Seq<char>,
    is_file: bool,
    read: Result<Seq<u8>, Seq<char>>,
    content_hash: Seq<char>,
) -> Result<(), Seq<char>> {
    if !is_file {
        Err("Published asset is missing: "@ + path)
    } else {
        match read {
            Err(e) => Err("Cannot read existing asset "@ + asset_id + ": "@ + e),
            Ok(b) => if crate::text::hex_bytes(crate::digest::sha256_digest(b)) == content_hash {
                Ok(())
            } else {
                Err("Existing asset "@ + asset_id + " failed content-hash verification"@)
            },
        }
    }
}

pub fn verify_existing_asset(
    asset_id: &str,
    path: &str,
    is_file: bool,
    read: Result<Vec<u8>, String>,
    content_hash: &str,
) -> (r: Result<(), String>)
    ensures
        match (r, existing_asset_outcome(
            asset_id@,
            path@,
            is_file,
            match read {
                Ok(b) => Ok(b@),
                Err(e) => Err(e@),
            },
            content_hash@,
        )) {
            (Ok(()), Ok(())) => true,
            (Err(a), Err(b)) => a@ == b,
            _ => false,
        },
{
    let mut msg: Vec<char> = Vec::new();
    if !is_file {
        extend_str(&mut msg, "Published asset is missing: ");
        extend_str(&mut msg, path);
        return Err(string_from_chars(&msg));
    }
    match read {
        Err(e) => {
            extend_str(&mut msg, "Cannot read existing asset ");
            extend_str(&mut msg, asset_id);
            extend_str(&mut msg, ": ");
            extend_str(&mut msg, e.as_str());
            Err(string_from_chars(&msg))
        },
        Ok(b) => {
            let h = crate::assets::store::calculate_sha256(&b);
            if str_eq(h.as_str(), content_hash) {
                Ok(())
            } else {
                extend_str(&mut msg, "Existing asset ");
                extend_str(&mut msg, asset_id);
                extend_str(&mut msg, " failed content-hash verification");
                Err(string_from_chars(&msg))
            }
        },
    }
}

} // verus!
