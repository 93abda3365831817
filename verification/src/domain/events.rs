use vstd::prelude::*;
use crate::json::{
    canon, fields_view, insert_member, insert_sorted, items_view, json_text, json_view,
    keys_distinct, lemma_ascending_unique, lemma_fields_view, lemma_items_view,
    lemma_norm_fields_contents, norm_fields, normalized, norm_v, Json, JsonV,
};
use crate::text::{
    chars_eq_str, chars_of, contains_seq, contains_str, extend_str, hex_of_u64, hex_u64,
    lower_chars, lower_seq, string_from_chars, trim, trim_str,
};
use vstd::utf8::encode_utf8;

verus! {

/// Events emitted by a feed adapter.  The names deliberately do not contain
/// source-specific status codes or payload shapes.
#[derive(Debug, Clone, Copy, PartialEq, Eq, Structural)]
pub enum EventType {
    FeedConnected,
    FeedDisconnected,
    FeedHeartbeat,
    MatchDiscoveredLive,
    MatchScoreChanged,
    MatchClockChanged,
    MatchPeriodChanged,
    MatchStatusChanged,
    MatchOddsChanged,
    MatchRemovedFromLive,
    MatchFinished,
}

pub open spec fn event_type_name(t: EventType) -> Seq<char> {
    match t {
        EventType::FeedConnected => "FEED_CONNECTED"@,
        EventType::FeedDisconnected => "FEED_DISCONNECTED"@,
        EventType::FeedHeartbeat => "FEED_HEARTBEAT"@,
        EventType::MatchDiscoveredLive => "MATCH_DISCOVERED_LIVE"@,
        EventType::MatchScoreChanged => "MATCH_SCORE_CHANGED"@,
        EventType::MatchClockChanged => "MATCH_CLOCK_CHANGED"@,
        EventType::MatchPeriodChanged => "MATCH_PERIOD_CHANGED"@,
        EventType::MatchStatusChanged => "MATCH_STATUS_CHANGED"@,
        EventType::MatchOddsChanged => "MATCH_ODDS_CHANGED"@,
        EventType::MatchRemovedFromLive => "MATCH_REMOVED_FROM_LIVE"@,
        EventType::MatchFinished => "MATCH_FINISHED"@,
    }
}

impl EventType {
    pub fn as_str(self) -> (r: &'static str)
        ensures
            r@ == event_type_name(self),
    {
        match self {
            EventType::FeedConnected => "FEED_CONNECTED",
            EventType::FeedDisconnected => "FEED_DISCONNECTED",
            EventType::FeedHeartbeat => "FEED_HEARTBEAT",
            EventType::MatchDiscoveredLive => "MATCH_DISCOVERED_LIVE",
            EventType::MatchScoreChanged => "MATCH_SCORE_CHANGED",
            EventType::MatchClockChanged => "MATCH_CLOCK_CHANGED",
            EventType::MatchPeriodChanged => "MATCH_PERIOD_CHANGED",
            EventType::MatchStatusChanged => "MATCH_STATUS_CHANGED",
            EventType::MatchOddsChanged => "MATCH_ODDS_CHANGED",
            EventType::MatchRemovedFromLive => "MATCH_REMOVED_FROM_LIVE",
            EventType::MatchFinished => "MATCH_FINISHED",
        }
    }
}


/// Member names that carry chat-like content and are never kept.
pub open spec fn blocked_key(k: Seq<char>) -> bool {
    let l = lower_seq(k);
    ||| l == "chat"@
    ||| l == "message"@
    ||| l == "messages"@
    ||| l == "comment"@
    ||| l == "comments"@
    ||| contains_seq(l, "chat"@)
    ||| contains_seq(l, "message"@)
    ||| contains_seq(l, "comment"@)
}

pub fn is_blocked_key(k: &str) -> (r: bool)
    ensures
        r == blocked_key(k@),
{
    let cs = chars_of(k);
    let l = lower_chars(&cs);
    chars_eq_str(&l, "chat") || chars_eq_str(&l, "message") || chars_eq_str(&l, "messages")
        || chars_eq_str(&l, "comment") || chars_eq_str(&l, "comments") || contains_str(
        &l,
        "chat",
    ) || contains_str(&l, "message") || contains_str(&l, "comment")
}

/// A payload with chat-like members removed at every depth and every
/// object's members in key order.
pub open spec fn sanitized(j: JsonV) -> JsonV
    decreases j, 0nat,
{
    match j {
        JsonV::Array(items) => JsonV::Array(sanitized_list(items)),
        JsonV::Object(f) => JsonV::Object(sanitized_fields(f)),
        _ => j,
    }
}

pub open spec fn sanitized_list(s: Seq<JsonV>) -> Seq<JsonV>
    decreases s, 0nat,
{
    if s.len() == 0 {
        Seq::empty()
    } else {
        sanitized_list(s.drop_last()).push(sanitized(s.last()))
    }
}

pub open spec fn sanitized_fields(s: Seq<(Seq<char>, JsonV)>) -> Seq<(Seq<char>, JsonV)>
    decreases s, 0nat,
{
    if s.len() == 0 {
        Seq::empty()
    } else if blocked_key(s.last().0) {
        sanitized_fields(s.drop_last())
    } else {
        insert_sorted(sanitized_fields(s.drop_last()), s.last().0, sanitized(s.last().1))
    }
}

/// No member with a chat-like name, at any depth.
pub open spec fn chat_free(j: JsonV) -> bool
    decreases j, 0nat,
{
    match j {
        JsonV::Array(items) => chat_free_list(items),
        JsonV::Object(f) => chat_free_fields(f),
        _ => true,
    }
}

pub open spec fn chat_free_list(s: Seq<JsonV>) -> bool
    decreases s, 0nat,
{
    s.len() == 0 || (chat_free_list(s.drop_last()) && chat_free(s.last()))
}

pub open spec fn chat_free_fields(s: Seq<(Seq<char>, JsonV)>) -> bool
    decreases s, 0nat,
{
    s.len() == 0 || (!blocked_key(s[0].0) && chat_free(s[0].1) && chat_free_fields(
        s.drop_first(),
    ))
}

proof fn lemma_insert_chat_free(f: Seq<(Seq<char>, JsonV)>, k: Seq<char>, v: JsonV)
    requires
        chat_free_fields(f),
        !blocked_key(k),
        chat_free(v),
    ensures
        chat_free_fields(insert_sorted(f, k, v)),
    decreases f.len(),
{
    let r = insert_sorted(f, k, v);
    if f.len() == 0 {
        assert(r[0] == (k, v));
        assert(r.drop_first() =~= Seq::<(Seq<char>, JsonV)>::empty());
        assert(chat_free_fields(r.drop_first()));
        assert(chat_free_fields(r));
    } else if f[0].0 == k {
        assert(r[0] == (k, v));
        assert(r.drop_first() =~= f.drop_first());
        assert(chat_free_fields(r));
    } else if crate::json::key_lt(k, f[0].0) {
        assert(r[0] == (k, v));
        assert(r.drop_first() =~= f);
        assert(chat_free_fields(r));
    } else {
        lemma_insert_chat_free(f.drop_first(), k, v);
        assert(r[0] == f[0]);
        assert(r.drop_first() =~= insert_sorted(f.drop_first(), k, v));
        assert(chat_free_fields(r));
    }
}

proof fn lemma_sanitized_list_chat_free(s: Seq<JsonV>)
    ensures
        chat_free_list(sanitized_list(s)),
    decreases s, 1nat,
{
    if s.len() > 0 {
        lemma_sanitized_list_chat_free(s.drop_last());
        sanitized_payload_has_no_chat(s.last());
        assert(sanitized_list(s).drop_last() =~= sanitized_list(s.drop_last()));
    }
}

proof fn lemma_sanitized_fields_chat_free(s: Seq<(Seq<char>, JsonV)>)
    ensures
        chat_free_fields(sanitized_fields(s)),
    decreases s, 1nat,
{
    if s.len() > 0 {
        lemma_sanitized_fields_chat_free(s.drop_last());
        if !blocked_key(s.last().0) {
            sanitized_payload_has_no_chat(s.last().1);
            lemma_insert_chat_free(
                sanitized_fields(s.drop_last()),
                s.last().0,
                sanitized(s.last().1),
            );
        }
    }
}

/// A sanitized payload keeps no member with a chat-like name, at any depth.
pub proof fn sanitized_payload_has_no_chat(j: JsonV)
    ensures
        chat_free(sanitized(j)),
    decreases j, 1nat,
{
    match j {
        JsonV::Array(items) => lemma_sanitized_list_chat_free(items),
        JsonV::Object(f) => lemma_sanitized_fields_chat_free(f),
        _ => {},
    }
}

fn sanitize_ref(j: &Json) -> (r: Json)
    ensures
        r@ == sanitized(j@),
    decreases j,
{
    match j {
        Json::Array(items) => {
            let mut out: Vec<Json> = Vec::new();
            let mut i: usize = 0;
            proof {
                lemma_items_view(items@);
            }
            while i < items.len()
                invariant
                    *j == Json::Array(*items),
                    i <= items.len(),
                    items_view(items@).len() == items@.len(),
                    forall|k: int|
                        0 <= k < items@.len() ==> #[trigger] items_view(items@)[k] == json_view(
                            items@[k],
                        ),
                    items_view(out@) == sanitized_list(items_view(items@).take(i as int)),
                decreases items.len() - i,
            {
                proof {
                    assert(decreases_to!(*j => (*j)->Array_0));
                    assert(decreases_to!(*items => items@));
                    assert(decreases_to!(items@ => items@[i as int]));
                }
                let x = sanitize_ref(&items[i]);
                let ghost before = out@;
                out.push(x);
                proof {
                    assert(out@.drop_last() =~= before);
                    let t = items_view(items@).take(i + 1);
                    assert(t.drop_last() =~= items_view(items@).take(i as int));
                }
                i = i + 1;
            }
            assert(items_view(items@).take(items.len() as int) =~= items_view(items@));
            Json::Array(out)
        },
        Json::Object(fields) => {
            let mut out: Vec<(String, Json)> = Vec::new();
            let mut i: usize = 0;
            proof {
                lemma_fields_view(fields@);
            }
            while i < fields.len()
                invariant
                    *j == Json::Object(*fields),
                    i <= fields.len(),
                    fields_view(fields@).len() == fields@.len(),
                    forall|k: int|
                        0 <= k < fields@.len() ==> #[trigger] fields_view(fields@)[k] == (
                            fields@[k].0@,
                            json_view(fields@[k].1),
                        ),
                    fields_view(out@) == sanitized_fields(fields_view(fields@).take(i as int)),
                decreases fields.len() - i,
            {
                proof {
                    assert(decreases_to!(*j => (*j)->Object_0));
                    assert(decreases_to!(*fields => fields@));
                    assert(decreases_to!(fields@ => fields@[i as int]));
                    assert(decreases_to!(fields@[i as int] => fields@[i as int].1));
                }
                let ghost t = fields_view(fields@).take(i + 1);
                proof {
                    assert(t.drop_last() =~= fields_view(fields@).take(i as int));
                }
                if !is_blocked_key(fields[i].0.as_str()) {
                    let x = sanitize_ref(&fields[i].1);
                    let k = fields[i].0.clone();
                    insert_member(&mut out, k, x);
                }
                i = i + 1;
            }
            assert(fields_view(fields@).take(fields.len() as int) =~= fields_view(fields@));
            Json::Object(out)
        },
        Json::Null => Json::Null,
        Json::Bool(b) => Json::Bool(*b),
        Json::Number(t) => Json::Number(t.clone()),
        Json::Str(x) => Json::Str(x.clone()),
    }
}

/// Recursively sorts object keys and removes chat-like fields from a payload.
pub fn sanitize_payload(value: Json) -> (r: Json)
    ensures
        r@ == sanitized(value@),
{
    sanitize_ref(&value)
}

/// Canonical JSON text: compact, with every object's keys sorted.
pub open spec fn canonical_text(j: JsonV) -> Seq<char> {
    canon(norm_v(j))
}

/// JSON serialization with keys sorted, independent of input key order.
pub fn canonical_json(value: &Json) -> (r: String)
    ensures
        r@ == canonical_text(value@),
{
    let n = normalized(value);
    json_text(&n)
}

/// Canonical text does not depend on the order of an object's members: two
/// objects with the same members, each key once, in any order, have the same
/// canonical text and so the same payload hash.
pub proof fn canonical_text_ignores_member_order(
    f: Seq<(Seq<char>, JsonV)>,
    g: Seq<(Seq<char>, JsonV)>,
)
    requires
        keys_distinct(f),
        keys_distinct(g),
        forall|e: (Seq<char>, JsonV)| f.contains(e) <==> g.contains(e),
    ensures
        canonical_text(JsonV::Object(f)) == canonical_text(JsonV::Object(g)),
        payload_hash_spec(JsonV::Object(f)) == payload_hash_spec(JsonV::Object(g)),
{
    lemma_norm_fields_contents(f);
    lemma_norm_fields_contents(g);
    let nf = norm_fields(f);
    let ng = norm_fields(g);
    assert forall|e: (Seq<char>, JsonV)| nf.contains(e) <==> ng.contains(e) by {
        if nf.contains(e) {
            let i = choose|i: int| 0 <= i < f.len() && e == (#[trigger] f[i].0, norm_v(f[i].1));
            assert(f.contains(f[i]));
            let j = choose|j: int| 0 <= j < g.len() && g[j] == f[i];
            assert(e == (g[j].0, norm_v(g[j].1)));
        }
        if ng.contains(e) {
            let i = choose|i: int| 0 <= i < g.len() && e == (#[trigger] g[i].0, norm_v(g[i].1));
            assert(g.contains(g[i]));
            let j = choose|j: int| 0 <= j < f.len() && f[j] == g[i];
            assert(e == (f[j].0, norm_v(f[j].1)));
        }
    }
    lemma_ascending_unique(nf, ng);
}

/// 64-bit FNV-1a over a byte sequence.
pub open spec fn fnv1a(bytes: Seq<u8>) -> u64
    decreases bytes.len(),
{
    if bytes.len() == 0 {
        0xcbf29ce484222325u64
    } else {
        (fnv1a(bytes.drop_last()) ^ (bytes.last() as u64)).wrapping_mul(0x100000001b3u64)
    }
}

/// Continues an FNV-1a hash over more bytes.
pub open spec fn fnv1a_from(h: u64, bytes: Seq<u8>) -> u64
    decreases bytes.len(),
{
    if bytes.len() == 0 {
        h
    } else {
        (fnv1a_from(h, bytes.drop_last()) ^ (bytes.last() as u64)).wrapping_mul(0x100000001b3u64)
    }
}

pub proof fn lemma_fnv1a_from(bytes: Seq<u8>)
    ensures
        fnv1a_from(0xcbf29ce484222325u64, bytes) == fnv1a(bytes),
    decreases bytes.len(),
{
    if bytes.len() > 0 {
        lemma_fnv1a_from(bytes.drop_last());
    }
}

/// Feeds `bytes` into a running FNV-1a hash.
pub fn fnv1a_update(hash: u64, bytes: &[u8]) -> (r: u64)
    ensures
        r == fnv1a_from(hash, bytes@),
{
    let mut h = hash;
    let mut i: usize = 0;
    while i < bytes.len()
        invariant
            i <= bytes.len(),
            h == fnv1a_from(hash, bytes@.take(i as int)),
        decreases bytes.len() - i,
    {
        h = (h ^ (bytes[i] as u64)).wrapping_mul(0x100000001b3);
        i = i + 1;
        assert(bytes@.take(i as int).drop_last() =~= bytes@.take((i - 1) as int));
    }
    assert(bytes@.take(bytes.len() as int) =~= bytes@);
    h
}

/// The identity digest of a text: FNV-1a of its UTF-8 bytes, as sixteen
/// lowercase hex digits.
pub open spec fn digest_text(s: Seq<char>) -> Seq<char> {
    hex_u64(fnv1a(encode_utf8(s)))
}

/// A small, dependency-free stable digest.  It is used as an identity hash,
/// not as a security primitive.
pub fn event_key_digest(value: &str) -> (r: String)
    ensures
        r@ == digest_text(value@),
{
    let bytes = value.as_bytes();
    let h = fnv1a_update(0xcbf29ce484222325, bytes);
    proof {
        lemma_fnv1a_from(bytes@);
    }
    let hex = hex_of_u64(h);
    string_from_chars(&hex)
}

/// The identity hash of a payload: the digest of its canonical text.
pub open spec fn payload_hash_spec(j: JsonV) -> Seq<char> {
    digest_text(canonical_text(j))
}

pub fn payload_hash(value: &Json) -> (r: String)
    ensures
        r@ == payload_hash_spec(value@),
{
    let c = canonical_json(value);
    event_key_digest(c.as_str())
}

pub open spec fn opt_text(s: Option<Seq<char>>) -> Seq<char> {
    match s {
        Some(t) => t,
        None => Seq::empty(),
    }
}

/// `match|TYPE|time|hash`; without a source timestamp the match id stands
/// in for the time.
pub open spec fn event_key_text(
    match_id: Option<Seq<char>>,
    event_type: EventType,
    source_timestamp: Option<Seq<char>>,
    payload_hash: Seq<char>,
) -> Seq<char> {
    let match_key = opt_text(match_id);
    let time_key = match source_timestamp {
        Some(t) => if t.len() > 0 {
            t
        } else {
            match_key
        },
        None => match_key,
    };
    match_key + "|"@ + event_type_name(event_type) + "|"@ + time_key + "|"@ + payload_hash
}

pub open spec fn opt_str_view(s: Option<&str>) -> Option<Seq<char>> {
    match s {
        Some(t) => Some(t@),
        None => None,
    }
}

pub open spec fn opt_string_view(s: Option<String>) -> Option<Seq<char>> {
    match s {
        Some(t) => Some(t@),
        None => None,
    }
}

pub fn event_key_parts(
    match_id: Option<&str>,
    event_type: EventType,
    source_timestamp: Option<&str>,
    payload_hash: &str,
) -> (r: String)
    ensures
        r@ == event_key_text(
            opt_str_view(match_id),
            event_type,
            opt_str_view(source_timestamp),
            payload_hash@,
        ),
{
    let match_key: &str = match match_id {
        Some(m) => m,
        None => "",
    };
    proof {
        reveal_strlit("");
    }
    let time_key: &str = match source_timestamp {
        Some(t) => if !t.is_empty() {
            t
        } else {
            match_key
        },
        None => match_key,
    };
    let mut out: Vec<char> = Vec::new();
    extend_str(&mut out, match_key);
    extend_str(&mut out, "|");
    extend_str(&mut out, event_type.as_str());
    extend_str(&mut out, "|");
    extend_str(&mut out, time_key);
    extend_str(&mut out, "|");
    extend_str(&mut out, payload_hash);
    string_from_chars(&out)
}

/// A normalized event envelope.  `payload` is sanitized before it is hashed
/// and persisted, so incidental source metadata cannot create fake changes.
#[derive(Debug)]
pub struct NormalizedEvent {
    pub event_id: String,
    pub source_event_id: Option<String>,
    pub match_id: Option<String>,
    pub sport_id: Option<i32>,
    pub event_type: EventType,
    pub source_timestamp: Option<String>,
    pub received_at: String,
    pub payload_hash: String,
    pub payload: Json,
    pub feed_session_id: Option<String>,
    pub dataset_id: Option<String>,
}

/// A timestamp trimmed, or absent when blank.
pub open spec fn trimmed_timestamp(t: Option<Seq<char>>) -> Option<Seq<char>> {
    match t {
        Some(v) => if trim(v).len() > 0 {
            Some(trim(v))
        } else {
            None
        },
        None => None,
    }
}

pub fn trim_timestamp(t: Option<String>) -> (r: Option<String>)
    ensures
        opt_string_view(r) == trimmed_timestamp(opt_string_view(t)),
{
    match t {
        Some(v) => {
            let x = trim_str(v.as_str());
            if x.len() > 0 {
                Some(string_from_chars(&x))
            } else {
                None
            }
        },
        None => None,
    }
}

/// Ordering key of an event in a feed.
#[derive(Debug, Clone, PartialEq, Eq, PartialOrd, Ord)]
pub struct EventOrderingKey {
    pub source_timestamp: Option<String>,
    pub received_at: String,
    pub event_id: String,
}

impl NormalizedEvent {
    pub fn new(
        event_type: EventType,
        match_id: Option<String>,
        sport_id: Option<i32>,
        source_timestamp: Option<String>,
        received_at: String,
        payload: Json,
    ) -> (r: Self)
        ensures
            r.payload@ == sanitized(payload@),
            r.payload_hash@ == payload_hash_spec(sanitized(payload@)),
            opt_string_view(r.source_timestamp) == trimmed_timestamp(
                opt_string_view(source_timestamp),
            ),
            r.event_id@ == "evt-"@ + digest_text(
                event_key_text(
                    opt_string_view(match_id),
                    event_type,
                    trimmed_timestamp(opt_string_view(source_timestamp)),
                    payload_hash_spec(sanitized(payload@)),
                ),
            ),
            r.source_event_id is None,
            r.match_id == match_id,
            r.sport_id == sport_id,
            r.event_type == event_type,
            r.received_at == received_at,
            r.feed_session_id is None,
            r.dataset_id is None,
    {
        let payload = sanitize_payload(payload);
        let payload_hash = payload_hash(&payload);
        let source_timestamp = trim_timestamp(source_timestamp);
        let mid: Option<&str> = match &match_id {
            Some(m) => Some(m.as_str()),
            None => None,
        };
        let ts: Option<&str> = match &source_timestamp {
            Some(t) => Some(t.as_str()),
            None => None,
        };
        let key = event_key_parts(mid, event_type, ts, payload_hash.as_str());
        let digest = event_key_digest(key.as_str());
        let mut id: Vec<char> = Vec::new();
        extend_str(&mut id, "evt-");
        extend_str(&mut id, digest.as_str());
        let event_id = string_from_chars(&id);
        NormalizedEvent {
            event_id,
            source_event_id: None,
            match_id,
            sport_id,
            event_type,
            source_timestamp,
            received_at,
            payload_hash,
            payload,
            feed_session_id: None,
            dataset_id: None,
        }
    }

    /// Stable idempotency key.  For sources without timestamps, the match id
    /// is the explicit fallback required by the feed contract.
    pub fn event_key(&self) -> (r: String)
        ensures
            r@ == event_key_text(
                opt_string_view(self.match_id),
                self.event_type,
                opt_string_view(self.source_timestamp),
                self.payload_hash@,
            ),
    {
        let mid: Option<&str> = match &self.match_id {
            Some(m) => Some(m.as_str()),
            None => None,
        };
        let ts: Option<&str> = match &self.source_timestamp {
            Some(t) => Some(t.as_str()),
            None => None,
        };
        event_key_parts(mid, self.event_type, ts, self.payload_hash.as_str())
    }

    pub fn ordering_key(&self) -> (r: EventOrderingKey)
        ensures
            r.source_timestamp == self.source_timestamp,
            r.received_at == self.received_at,
            r.event_id == self.event_id,
    {
        EventOrderingKey {
            source_timestamp: self.source_timestamp.clone(),
            received_at: self.received_at.clone(),
            event_id: self.event_id.clone(),
        }
    }
}

}
