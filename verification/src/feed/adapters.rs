//! Source envelopes and the live-list contract shared by the sport adapters.
pub mod basketball;
pub mod football;

use vstd::prelude::*;
use crate::domain::events::opt_string_view;
use crate::json::{
    as_i64, as_str, get, get_member, int_text_of, int_to_text, items_view, json_clone,
    json_view, lemma_items_view, member, member_i64, member_str, Json, JsonV,
};
use crate::text::{chars_eq_str, chars_of, owned};

verus! {

/// Where a feed payload was captured.
#[derive(Debug, Clone, Copy, PartialEq, Eq, Structural)]
pub enum SourceLayer {
    Network,
    Store,
    Dom,
}

pub open spec fn layer_priority(l: SourceLayer) -> u8 {
    match l {
        SourceLayer::Network => 0,
        SourceLayer::Store => 1,
        SourceLayer::Dom => 2,
    }
}

impl SourceLayer {
    /// Lower is preferred: network, then store, then DOM.
    pub fn priority(self) -> (r: u8)
        ensures
            r == layer_priority(self),
    {
        match self {
            SourceLayer::Network => 0,
            SourceLayer::Store => 1,
            SourceLayer::Dom => 2,
        }
    }
}

/// A captured payload and the layer it came from.
#[derive(Debug)]
pub struct SourceEnvelope {
    pub layer: SourceLayer,
    pub payload: Json,
}

impl SourceEnvelope {
    pub fn new(layer: SourceLayer, payload: Json) -> (r: Self)
        ensures
            r.layer == layer,
            r.payload@ == payload@,
    {
        SourceEnvelope { layer, payload }
    }
}

#[derive(Debug, Clone, PartialEq, Eq, Structural)]
pub enum Readiness {
    Ready,
    WrongFilter,
    WrongSport,
    SourceChanged,
}

/// One match row of a live list, as the adapters read it.
#[derive(Debug)]
pub struct NormalizedMatch {
    pub match_id: String,
    pub status_id: i32,
    pub home_score: Json,
    pub away_score: Json,
    pub period: Option<String>,
    pub clock: Option<String>,
    pub odds: Json,
    pub is_live: bool,
    pub source_timestamp: Option<String>,
    pub payload: Json,
}

#[derive(Debug, Clone)]
pub enum FeedError {
    Browser(String),
    Disconnected,
    SourceChanged(String),
    WrongFilter,
    WrongSport,
    Invalid(String),
}

/// `FeedError` with its texts as character sequences.
pub enum FeedErrorV {
    Browser(Seq<char>),
    Disconnected,
    SourceChanged(Seq<char>),
    WrongFilter,
    WrongSport,
    Invalid(Seq<char>),
}

impl View for FeedError {
    type V = FeedErrorV;

    open spec fn view(&self) -> FeedErrorV {
        match self {
            FeedError::Browser(s) => FeedErrorV::Browser(s@),
            FeedError::Disconnected => FeedErrorV::Disconnected,
            FeedError::SourceChanged(s) => FeedErrorV::SourceChanged(s@),
            FeedError::WrongFilter => FeedErrorV::WrongFilter,
            FeedError::WrongSport => FeedErrorV::WrongSport,
            FeedError::Invalid(s) => FeedErrorV::Invalid(s@),
        }
    }
}

impl FeedError {
    /// The error's display text, the way `Debug` prints it; it stands in for
    /// `Display`, which the type cannot implement.
    pub fn message(&self) -> (r: String)
        ensures
            r@ == feed_error_text(self@),
    {
        let mut out: Vec<char> = Vec::new();
        match self {
            FeedError::Browser(s) => {
                crate::text::extend_str(&mut out, "Browser(");
                push_quoted(&mut out, s.as_str());
                out.push(')');
            },
            FeedError::Disconnected => crate::text::extend_str(&mut out, "Disconnected"),
            FeedError::SourceChanged(s) => {
                crate::text::extend_str(&mut out, "SourceChanged(");
                push_quoted(&mut out, s.as_str());
                out.push(')');
            },
            FeedError::WrongFilter => crate::text::extend_str(&mut out, "WrongFilter"),
            FeedError::WrongSport => crate::text::extend_str(&mut out, "WrongSport"),
            FeedError::Invalid(s) => {
                crate::text::extend_str(&mut out, "Invalid(");
                push_quoted(&mut out, s.as_str());
                out.push(')');
            },
        }
        crate::text::string_from_chars(&out)
    }
}

/// `Debug` of a string: the text in double quotes (texts here carry no
/// characters that `Debug` escapes).
pub open spec fn debug_quoted(s: Seq<char>) -> Seq<char> {
    seq!['"'] + s + seq!['"']
}

pub open spec fn feed_error_text(e: FeedErrorV) -> Seq<char> {
    match e {
        FeedErrorV::Browser(s) => "Browser("@ + debug_quoted(s) + seq![')'],
        FeedErrorV::Disconnected => "Disconnected"@,
        FeedErrorV::SourceChanged(s) => "SourceChanged("@ + debug_quoted(s) + seq![')'],
        FeedErrorV::WrongFilter => "WrongFilter"@,
        FeedErrorV::WrongSport => "WrongSport"@,
        FeedErrorV::Invalid(s) => "Invalid("@ + debug_quoted(s) + seq![')'],
    }
}

fn push_quoted(out: &mut Vec<char>, s: &str)
    ensures
        final(out)@ == old(out)@ + debug_quoted(s@),
{
    out.push('"');
    crate::text::extend_str(out, s);
    out.push('"');
}

/// Whether a status code of a sport is one of its in-play states.
pub open spec fn live_status_of(sport_id: int, status_id: int) -> bool {
    if sport_id == 1 {
        2 <= status_id <= 7
    } else if sport_id == 2 {
        (2 <= status_id <= 7) || status_id == 9
    } else {
        false
    }
}

pub fn live_status(sport_id: i32, status_id: i32) -> (r: bool)
    ensures
        r == live_status_of(sport_id as int, status_id as int),
{
    if sport_id == 1 {
        2 <= status_id && status_id <= 7
    } else if sport_id == 2 {
        (2 <= status_id && status_id <= 7) || status_id == 9
    } else {
        false
    }
}

/// The first member among `keys` that is present and not null.
pub open spec fn first_value_of(item: JsonV, keys: Seq<Seq<char>>) -> JsonV
    decreases keys.len(),
{
    if keys.len() == 0 {
        JsonV::Null
    } else {
        match get(item, keys[0]) {
            Some(v) => if !(v is Null) {
                v
            } else {
                first_value_of(item, keys.drop_first())
            },
            None => first_value_of(item, keys.drop_first()),
        }
    }
}

pub open spec fn key_views(keys: Seq<&str>) -> Seq<Seq<char>> {
    keys.map_values(|k: &str| k@)
}

pub fn first_value(item: &Json, keys: &[&str]) -> (r: Json)
    ensures
        r@ == first_value_of(item@, key_views(keys@)),
{
    let ghost all = key_views(keys@);
    let mut i: usize = 0;
    assert(all.subrange(0, all.len() as int) =~= all);
    while i < keys.len()
        invariant
            i <= keys.len(),
            all == key_views(keys@),
            all.len() == keys@.len(),
            first_value_of(item@, all) == first_value_of(
                item@,
                all.subrange(i as int, all.len() as int),
            ),
        decreases keys.len() - i,
    {
        let ghost rest = all.subrange(i as int, all.len() as int);
        assert(rest[0] == keys@[i as int]@);
        assert(rest.drop_first() =~= all.subrange(i + 1, all.len() as int));
        match get_member(item, keys[i]) {
            Some(v) => {
                match v {
                    Json::Null => {},
                    _ => {
                        return json_clone(v);
                    },
                }
            },
            None => {},
        }
        i = i + 1;
    }
    Json::Null
}

/// The first present, non-null member among `keys`, when it is a string.
pub open spec fn first_string_of(item: JsonV, keys: Seq<Seq<char>>) -> Option<Seq<char>> {
    as_str(first_value_of(item, keys))
}

pub fn first_string(item: &Json, keys: &[&str]) -> (r: Option<String>)
    ensures
        opt_string_view(r) == first_string_of(item@, key_views(keys@)),
{
    let v = first_value(item, keys);
    match v {
        Json::Str(s) => Some(s),
        _ => None,
    }
}

pub open spec fn home_score_keys() -> Seq<Seq<char>> {
    seq!["homeScore"@, "home_score"@, "homeScores"@]
}

pub open spec fn away_score_keys() -> Seq<Seq<char>> {
    seq!["awayScore"@, "away_score"@, "awayScores"@]
}

pub open spec fn period_keys() -> Seq<Seq<char>> {
    seq!["period"@, "periodName"@, "period_name"@]
}

pub open spec fn clock_keys() -> Seq<Seq<char>> {
    seq!["clock"@, "matchClock"@, "match_clock"@]
}

pub open spec fn odds_keys() -> Seq<Seq<char>> {
    seq!["odds"@, "markets"@, "oddsData"@]
}

/// `statusId`, else `status_id`, as an integer.
pub open spec fn item_status(item: JsonV) -> Option<int> {
    match as_i64(member(item, "statusId"@)) {
        Some(v) => Some(v),
        None => as_i64(member(item, "status_id"@)),
    }
}

/// Why a match row breaks the source contract, if it does.
pub open spec fn item_error(item: JsonV) -> Option<Seq<char>> {
    if !(as_str(member(item, "id"@)) matches Some(id) && id.len() > 0) {
        Some("match identity missing"@)
    } else if item_status(item) is None {
        Some("match status missing"@)
    } else if as_str(member(member(item, "competition"@), "id"@)) is None || as_str(
        member(member(item, "homeTeam"@), "id"@),
    ) is None || as_str(member(member(item, "awayTeam"@), "id"@)) is None {
        Some("match relation missing"@)
    } else {
        None
    }
}

/// The list timestamp as text.
pub open spec fn list_timestamp(payload: JsonV) -> Option<Seq<char>> {
    match as_i64(member(payload, "timestamp"@)) {
        Some(t) => Some(int_text_of(t)),
        None => None,
    }
}

/// `m` is the normalized form of the valid row `item` of list `payload`.
pub open spec fn normalized_from(m: NormalizedMatch, item: JsonV, payload: JsonV, sport_id: i32) -> bool {
    &&& as_str(member(item, "id"@)) == Some(m.match_id@)
    &&& item_status(item) matches Some(s) && m.status_id == s as i32
    &&& m.home_score@ == first_value_of(item, home_score_keys())
    &&& m.away_score@ == first_value_of(item, away_score_keys())
    &&& opt_string_view(m.period) == first_string_of(item, period_keys())
    &&& opt_string_view(m.clock) == first_string_of(item, clock_keys())
    &&& m.odds@ == first_value_of(item, odds_keys())
    &&& m.is_live == live_status_of(sport_id as int, m.status_id as int)
    &&& opt_string_view(m.source_timestamp) == list_timestamp(payload)
    &&& m.payload@ == item
}

/// Row `i` is the first that breaks the contract.
pub open spec fn first_error_at(items: Seq<JsonV>, i: int) -> bool {
    &&& 0 <= i < items.len()
    &&& item_error(items[i]) is Some
    &&& forall|k: int| 0 <= k < i ==> item_error(#[trigger] items[k]) is None
}

/// What `extract_matches` gives for a payload: the list filter and sport are
/// checked first, then each row in order, failing closed on the first bad
/// row.
pub open spec fn extract_outcome(
    payload: JsonV,
    sport_id: i32,
    r: Result<Vec<NormalizedMatch>, FeedError>,
) -> bool {
    if as_str(member(payload, "activeFilter"@)) != Some("live"@) {
        r matches Err(e) && e@ == FeedErrorV::WrongFilter
    } else if as_i64(member(payload, "sportId"@)) != Some(sport_id as int) {
        r matches Err(e) && e@ == FeedErrorV::WrongSport
    } else {
        match member(payload, "matches"@) {
            JsonV::Array(items) => {
                if exists|i: int| first_error_at(items, i) {
                    r matches Err(e) && exists|i: int|
                        first_error_at(items, i) && e@ == FeedErrorV::SourceChanged(
                            item_error(items[i])->0,
                        )
                } else {
                    r matches Ok(v) && v@.len() == items.len() && forall|i: int|
                        0 <= i < items.len() ==> normalized_from(
                            #[trigger] v@[i],
                            items[i],
                            payload,
                            sport_id,
                        )
                }
            },
            _ => r matches Err(e) && e@ == FeedErrorV::SourceChanged(
                "matches must be an array"@,
            ),
        }
    }
}

fn changed(t: &str) -> (r: FeedError)
    ensures
        r@ == FeedErrorV::SourceChanged(t@),
{
    FeedError::SourceChanged(owned(t))
}

fn id_present(item: &Json, key: &str) -> (r: bool)
    ensures
        r == (as_str(member(member(item@, key@), "id"@)) is Some),
{
    match get_member(item, key) {
        Some(v) => member_str(v, "id").is_some(),
        None => {
            assert(member(item@, key@) == JsonV::Null);
            false
        },
    }
}

/// Normalizes one row, or names the contract it breaks.
pub fn normalize_item(
    item: &Json,
    timestamp: &Option<String>,
    sport_id: i32,
    payload: Ghost<JsonV>,
) -> (r: Result<NormalizedMatch, FeedError>)
    requires
        opt_string_view(*timestamp) == list_timestamp(payload@),
    ensures
        match r {
            Ok(m) => item_error(item@) is None && normalized_from(m, item@, payload@, sport_id),
            Err(e) => item_error(item@) matches Some(t) && e@ == FeedErrorV::SourceChanged(t),
        },
{
    let id = match member_str(item, "id") {
        Some(s) => {
            if s.as_str().is_empty() {
                return Err(changed("match identity missing"));
            }
            s.clone()
        },
        None => {
            return Err(changed("match identity missing"));
        },
    };
    let status: i64 = match member_i64(item, "statusId") {
        Some(v) => v,
        None => match member_i64(item, "status_id") {
            Some(v) => v,
            None => {
                return Err(changed("match status missing"));
            },
        },
    };
    if !id_present(item, "competition") || !id_present(item, "homeTeam") || !id_present(
        item,
        "awayTeam",
    ) {
        return Err(changed("match relation missing"));
    }
    let status_id = status as i32;
    let hk: [&str; 3] = ["homeScore", "home_score", "homeScores"];
    let ak: [&str; 3] = ["awayScore", "away_score", "awayScores"];
    let pk: [&str; 3] = ["period", "periodName", "period_name"];
    let ck: [&str; 3] = ["clock", "matchClock", "match_clock"];
    let ok: [&str; 3] = ["odds", "markets", "oddsData"];
    assert(key_views(hk@) =~= home_score_keys());
    assert(key_views(ak@) =~= away_score_keys());
    assert(key_views(pk@) =~= period_keys());
    assert(key_views(ck@) =~= clock_keys());
    assert(key_views(ok@) =~= odds_keys());
    let home_score = first_value(item, &hk);
    let away_score = first_value(item, &ak);
    let period = first_string(item, &pk);
    let clock = first_string(item, &ck);
    let odds = first_value(item, &ok);
    let is_live = live_status(sport_id, status_id);
    let source_timestamp = timestamp.clone();
    let payload_copy = json_clone(item);
    Ok(
        NormalizedMatch {
            match_id: id,
            status_id,
            home_score,
            away_score,
            period,
            clock,
            odds,
            is_live,
            source_timestamp,
            payload: payload_copy,
        },
    )
}

/// Reads the live list of one sport from a captured payload.
pub fn extract_matches(envelope: &SourceEnvelope, sport_id: i32) -> (r: Result<
    Vec<NormalizedMatch>,
    FeedError,
>)
    ensures
        extract_outcome(envelope.payload@, sport_id, r),
{
    let value = &envelope.payload;
    let filter_live = match member_str(value, "activeFilter") {
        Some(s) => {
            let c = chars_of(s.as_str());
            chars_eq_str(&c, "live")
        },
        None => false,
    };
    if !filter_live {
        return Err(FeedError::WrongFilter);
    }
    match member_i64(value, "sportId") {
        Some(v) => {
            if v != sport_id as i64 {
                return Err(FeedError::WrongSport);
            }
        },
        None => {
            return Err(FeedError::WrongSport);
        },
    }
    let timestamp: Option<String> = match member_i64(value, "timestamp") {
        Some(t) => Some(int_to_text(t)),
        None => None,
    };
    let items = match get_member(value, "matches") {
        Some(Json::Array(items)) => items,
        _ => {
            return Err(changed("matches must be an array"));
        },
    };
    proof {
        lemma_items_view(items@);
    }
    let ghost iv = items_view(items@);
    let mut out: Vec<NormalizedMatch> = Vec::new();
    let mut i: usize = 0;
    while i < items.len()
        invariant
            i <= items.len(),
            iv == items_view(items@),
            iv.len() == items@.len(),
            forall|m: int| 0 <= m < items@.len() ==> #[trigger] iv[m] == json_view(items@[m]),
            member(envelope.payload@, "matches"@) == JsonV::Array(iv),
            as_str(member(envelope.payload@, "activeFilter"@)) == Some("live"@),
            as_i64(member(envelope.payload@, "sportId"@)) == Some(sport_id as int),
            opt_string_view(timestamp) == list_timestamp(envelope.payload@),
            out@.len() == i,
            forall|k: int| 0 <= k < i ==> item_error(#[trigger] iv[k]) is None,
            forall|k: int|
                0 <= k < i ==> normalized_from(
                    #[trigger] out@[k],
                    iv[k],
                    envelope.payload@,
                    sport_id,
                ),
        decreases items.len() - i,
    {
        match normalize_item(&items[i], &timestamp, sport_id, Ghost(envelope.payload@)) {
            Ok(m) => {
                out.push(m);
            },
            Err(e) => {
                assert(first_error_at(iv, i as int));
                return Err(e);
            },
        }
        i = i + 1;
    }
    proof {
        assert forall|j: int| !first_error_at(iv, j) by {
            if 0 <= j < iv.len() {
                assert(item_error(iv[j]) is None);
            }
        }
    }
    Ok(out)
}

/// A feed source: one sport's live list.
pub trait FeedAdapter: Sized {
    spec fn sport(&self) -> i32;

    fn sport_id(&self) -> (r: i32)
        ensures
            r == self.sport(),
    ;

    spec fn sport_name(&self) -> Seq<char>;

    fn name(&self) -> (r: &'static str)
        ensures
            r@ == self.sport_name(),
    ;

    fn target_url(&self) -> &'static str;

    fn extract(&self, envelope: &SourceEnvelope) -> (r: Result<Vec<NormalizedMatch>, FeedError>)
        ensures
            extract_outcome(envelope.payload@, self.sport(), r),
    {
        extract_matches(envelope, self.sport_id())
    }
}

} // verus!
