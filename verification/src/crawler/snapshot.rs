//! Validation of a list snapshot and of a match detail read from the page,
//! the terminal-status rules, and the readiness of the list page.
use vstd::prelude::*;
use crate::domain::events::{sanitize_payload, sanitized};
use crate::json::{
    as_i64, as_str, fields_view, get, get_member, items_view, json_clone, json_text, json_view,
    lemma_fields_view, lemma_items_view, member, member_i64, member_str, canon, int_text_of,
    int_to_text, Json, JsonV,
};
use crate::text::{
    add_name, chars_eq, chars_eq_str, chars_of, collapse_ws, collapse_ws_chars, contains_name,
    contains_seq, contains_str, extend_str, names, owned, status_norm, status_norm_exec, str_eq,
    string_from_chars,
};

verus! {

/// A validated live list: the rows and the page state they came with.
#[derive(Debug)]
pub struct SourceSnapshot {
    pub matches: Vec<Json>,
    pub teams: Vec<Json>,
    pub competitions: Vec<Json>,
    pub active_filter: String,
    pub sport_id: i32,
    pub timestamp: Option<i64>,
}

#[derive(Debug, Clone)]
pub enum ExtractionError {
    FilterNotLive,
    CrossSportMismatch { expected: i32, found: i32 },
    EmptyMatches,
    IncompleteRelations { missing_competitions: Vec<String>, missing_teams: Vec<String> },
    MissingRequiredField(String),
    JsonError(String),
}

pub enum ExtractionErrorV {
    FilterNotLive,
    CrossSportMismatch { expected: i32, found: i32 },
    EmptyMatches,
    IncompleteRelations {
        missing_competitions: Seq<Seq<char>>,
        missing_teams: Seq<Seq<char>>,
    },
    MissingRequiredField(Seq<char>),
    JsonError(Seq<char>),
}

pub open spec fn texts(v: Seq<String>) -> Seq<Seq<char>> {
    v.map_values(|s: String| s@)
}

impl View for ExtractionError {
    type V = ExtractionErrorV;

    open spec fn view(&self) -> ExtractionErrorV {
        match self {
            ExtractionError::FilterNotLive => ExtractionErrorV::FilterNotLive,
            ExtractionError::CrossSportMismatch { expected, found } => ExtractionErrorV::CrossSportMismatch {
                expected: *expected,
                found: *found,
            },
            ExtractionError::EmptyMatches => ExtractionErrorV::EmptyMatches,
            ExtractionError::IncompleteRelations { missing_competitions, missing_teams } =>
                ExtractionErrorV::IncompleteRelations {
                missing_competitions: texts(missing_competitions@),
                missing_teams: texts(missing_teams@),
            },
            ExtractionError::MissingRequiredField(s) => ExtractionErrorV::MissingRequiredField(s@),
            ExtractionError::JsonError(s) => ExtractionErrorV::JsonError(s@),
        }
    }
}

#[derive(Debug, Clone)]
pub enum DetailDecoderError {
    MatchIdMismatch { expected: String, found: String },
    SportIdMismatch { expected: i32, found: i32 },
    EmptyMatchId,
    JsonError(String),
}

pub enum DetailDecoderErrorV {
    MatchIdMismatch { expected: Seq<char>, found: Seq<char> },
    SportIdMismatch { expected: i32, found: i32 },
    EmptyMatchId,
    JsonError(Seq<char>),
}

impl View for DetailDecoderError {
    type V = DetailDecoderErrorV;

    open spec fn view(&self) -> DetailDecoderErrorV {
        match self {
            DetailDecoderError::MatchIdMismatch { expected, found } =>
                DetailDecoderErrorV::MatchIdMismatch { expected: expected@, found: found@ },
            DetailDecoderError::SportIdMismatch { expected, found } =>
                DetailDecoderErrorV::SportIdMismatch { expected: *expected, found: *found },
            DetailDecoderError::EmptyMatchId => DetailDecoderErrorV::EmptyMatchId,
            DetailDecoderError::JsonError(s) => DetailDecoderErrorV::JsonError(s@),
        }
    }
}

/// The rows of a list member: an array as it is, an object's values in key
/// order, nothing for null; anything else is rejected.
pub open spec fn list_or_dict(v: JsonV) -> Option<Seq<JsonV>> {
    match v {
        JsonV::Null => Some(Seq::empty()),
        JsonV::Array(items) => Some(items),
        JsonV::Object(f) => Some(f.map_values(|p: (Seq<char>, JsonV)| p.1)),
        _ => None,
    }
}

pub fn parse_list_or_dict(val: &Json) -> (r: Result<Vec<Json>, ExtractionError>)
    ensures
        match list_or_dict(val@) {
            Some(items) => r matches Ok(v) && items_view(v@) == items,
            None => r matches Err(e) && e@ == ExtractionErrorV::JsonError(
                "Expected array or dictionary"@,
            ),
        },
{
    match val {
        Json::Null => {
            let v: Vec<Json> = Vec::new();
            proof {
                lemma_items_view(v@);
                assert(items_view(v@) =~= Seq::<JsonV>::empty());
            }
            Ok(v)
        },
        Json::Array(items) => {
            let c = json_clone(val);
            match c {
                Json::Array(v) => Ok(v),
                _ => {
                    assert(false);
                    Ok(Vec::new())
                },
            }
        },
        Json::Object(fields) => {
            let mut out: Vec<Json> = Vec::new();
            let mut i: usize = 0;
            proof {
                lemma_fields_view(fields@);
            }
            let ghost fv = fields_view(fields@);
            while i < fields.len()
                invariant
                    i <= fields.len(),
                    fv == fields_view(fields@),
                    fv.len() == fields@.len(),
                    forall|m: int| 0 <= m < fields@.len() ==> #[trigger] fv[m] == (fields@[m].0@, json_view(fields@[m].1)),
                    out@.len() == i,
                    forall|k: int| 0 <= k < i ==> (#[trigger] out@[k])@ == fv[k].1,
                decreases fields.len() - i,
            {
                out.push(json_clone(&fields[i].1));
                i = i + 1;
            }
            proof {
                lemma_items_view(out@);
                assert(items_view(out@) =~= fv.map_values(|p: (Seq<char>, JsonV)| p.1));
            }
            Ok(out)
        },
        _ => Err(ExtractionError::JsonError(owned("Expected array or dictionary"))),
    }
}

/// In-play status codes of each sport.
pub open spec fn live_status_code(sport_id: int, status_id: int) -> bool {
    if sport_id == 1 {
        2 <= status_id <= 7
    } else if sport_id == 2 {
        (2 <= status_id <= 7) || status_id == 9
    } else {
        false
    }
}

pub fn is_live_status(sport_id: i32, status_id: i32) -> (r: bool)
    ensures
        r == live_status_code(sport_id as int, status_id as int),
{
    if sport_id == 1 {
        2 <= status_id && status_id <= 7
    } else if sport_id == 2 {
        (2 <= status_id && status_id <= 7) || status_id == 9
    } else {
        false
    }
}

/// A status label, normalized: trimmed, lowercased, `_`/`-` as spaces and
/// runs of whitespace as one space.
pub open spec fn status_words(text: Seq<char>) -> Seq<char> {
    collapse_ws(status_norm(text))
}

/// Whether a status label says the match is over.
pub open spec fn terminal_text(text: Seq<char>) -> bool {
    let n = status_words(text);
    ||| n == "ft"@
    ||| n == "aet"@
    ||| contains_seq(n, "full time"@)
    ||| contains_seq(n, "finished"@)
    ||| contains_seq(n, "ended"@)
    ||| contains_seq(n, "after penalties"@)
    ||| contains_seq(n, "cancelled"@)
    ||| contains_seq(n, "canceled"@)
    ||| contains_seq(n, "postponed"@)
    ||| contains_seq(n, "abandoned"@)
    ||| contains_seq(n, "awarded"@)
    ||| contains_seq(n, "walkover"@)
}

pub fn is_terminal_status_text(text: &str) -> (r: bool)
    ensures
        r == terminal_text(text@),
{
    let t = status_norm_exec(text);
    let n = collapse_ws_chars(&t);
    chars_eq_str(&n, "ft") || chars_eq_str(&n, "aet") || contains_str(&n, "full time")
        || contains_str(&n, "finished") || contains_str(&n, "ended") || contains_str(
        &n,
        "after penalties",
    ) || contains_str(&n, "cancelled") || contains_str(&n, "canceled") || contains_str(
        &n,
        "postponed",
    ) || contains_str(&n, "abandoned") || contains_str(&n, "awarded") || contains_str(
        &n,
        "walkover",
    )
}

pub open spec fn status_keys() -> Seq<Seq<char>> {
    seq![
        "statusText"@,
        "status_text"@,
        "statusLabel"@,
        "status_label"@,
        "statusName"@,
        "stateName"@,
        "matchStatus"@,
        "state"@,
        "status"@,
    ]
}

pub open spec fn nested_status_keys() -> Seq<Seq<char>> {
    seq!["name"@, "label"@, "text"@, "shortName"@, "statusName"@]
}

/// Whether a status member says the match is over: a terminal label, or an
/// object with a terminal label under one of the nested keys.
pub open spec fn terminal_member(v: Option<JsonV>) -> bool {
    match v {
        Some(JsonV::Str(t)) => terminal_text(t),
        Some(JsonV::Object(f)) => exists|j: int|
            0 <= j < nested_status_keys().len() && (as_str(
                member(JsonV::Object(f), #[trigger] nested_status_keys()[j]),
            ) matches Some(t) && terminal_text(t)),
        _ => false,
    }
}

pub open spec fn has_terminal_status(m: JsonV) -> bool {
    exists|i: int| 0 <= i < status_keys().len() && terminal_member(get(m, #[trigger] status_keys()[i]))
}

fn terminal_nested(status: &Json) -> (r: bool)
    requires
        status@ is Object,
    ensures
        r == terminal_member(Some(status@)),
{
    let keys: [&str; 5] = ["name", "label", "text", "shortName", "statusName"];
    assert(crate::feed::adapters::key_views(keys@) =~= nested_status_keys());
    let mut i: usize = 0;
    while i < 5
        invariant
            i <= 5,
            status@ is Object,
            crate::feed::adapters::key_views(keys@) == nested_status_keys(),
            forall|j: int|
                0 <= j < i ==> !(as_str(member(status@, #[trigger] nested_status_keys()[j])) matches Some(t)
                    && terminal_text(t)),
        decreases 5 - i,
    {
        assert(nested_status_keys()[i as int] == keys@[i as int]@);
        match get_member(status, keys[i]) {
            Some(Json::Str(t)) => {
                if is_terminal_status_text(t.as_str()) {
                    return true;
                }
            },
            _ => {},
        }
        i = i + 1;
    }
    false
}

pub fn match_has_terminal_status(match_value: &Json) -> (r: bool)
    ensures
        r == has_terminal_status(match_value@),
{
    let keys: [&str; 9] = [
        "statusText",
        "status_text",
        "statusLabel",
        "status_label",
        "statusName",
        "stateName",
        "matchStatus",
        "state",
        "status",
    ];
    assert(crate::feed::adapters::key_views(keys@) =~= status_keys());
    let mut i: usize = 0;
    while i < 9
        invariant
            i <= 9,
            crate::feed::adapters::key_views(keys@) == status_keys(),
            forall|j: int| 0 <= j < i ==> !terminal_member(get(match_value@, #[trigger] status_keys()[j])),
        decreases 9 - i,
    {
        assert(status_keys()[i as int] == keys@[i as int]@);
        let found = match get_member(match_value, keys[i]) {
            Some(v) => match v {
                Json::Str(t) => is_terminal_status_text(t.as_str()),
                Json::Object(_) => terminal_nested(v),
                _ => false,
            },
            None => false,
        };
        if found {
            return true;
        }
        i = i + 1;
    }
    false
}

/// The status code of a row: `statusId`, `status_id` or `status.id`, else 0.
pub open spec fn row_status(m: JsonV) -> i32 {
    match as_i64(member(m, "statusId"@)) {
        Some(v) => v as i32,
        None => match as_i64(member(m, "status_id"@)) {
            Some(v) => v as i32,
            None => match as_i64(member(member(m, "status"@), "id"@)) {
                Some(v) => v as i32,
                None => 0,
            },
        },
    }
}

/// A row is live when its code is in play and no label says it is over.
pub open spec fn currently_live(m: JsonV, sport_id: i32) -> bool {
    live_status_code(sport_id as int, row_status(m) as int) && !has_terminal_status(m)
}

/// A row whose status label says the match is over is never currently live,
/// whatever its status code: a label (under any of the status keys) that
/// is `ft` or `aet`, or mentions full time, finished, ended, after
/// penalties, cancelled, canceled, postponed, abandoned, awarded or
/// walkover, whatever its case, separators and spacing.
pub proof fn terminal_labels_are_never_live(m: JsonV, sport_id: i32, i: int, t: Seq<char>)
    requires
        0 <= i < status_keys().len(),
        get(m, status_keys()[i]) == Some(JsonV::Str(t)),
        ({
            let n = status_words(t);
            ||| n == "ft"@
            ||| n == "aet"@
            ||| contains_seq(n, "full time"@)
            ||| contains_seq(n, "finished"@)
            ||| contains_seq(n, "ended"@)
            ||| contains_seq(n, "after penalties"@)
            ||| contains_seq(n, "cancelled"@)
            ||| contains_seq(n, "canceled"@)
            ||| contains_seq(n, "postponed"@)
            ||| contains_seq(n, "abandoned"@)
            ||| contains_seq(n, "awarded"@)
            ||| contains_seq(n, "walkover"@)
        }),
    ensures
        !currently_live(m, sport_id),
{
    assert(terminal_member(get(m, status_keys()[i])));
    assert(has_terminal_status(m));
}

/// Which status codes are live: football codes 2 to 7, basketball codes 2
/// to 7 and 9, and none for another sport, whose rows are never live.
pub proof fn live_codes(m: JsonV, sport_id: i32)
    ensures
        sport_id == 1 ==> (live_status_code(1, row_status(m) as int) <==> 2 <= row_status(m) <= 7),
        sport_id == 2 ==> (live_status_code(2, row_status(m) as int) <==> (2 <= row_status(m) <= 7
            || row_status(m) == 9)),
        sport_id != 1 && sport_id != 2 ==> !currently_live(m, sport_id),
{
}

pub fn row_status_id(m: &Json) -> (r: i32)
    ensures
        r == row_status(m@),
{
    let v: i64 = match member_i64(m, "statusId") {
        Some(v) => v,
        None => match member_i64(m, "status_id") {
            Some(v) => v,
            None => match get_member(m, "status") {
                Some(s) => match member_i64(s, "id") {
                    Some(v) => v,
                    None => 0,
                },
                None => {
                    assert(member(m@, "status"@) == JsonV::Null);
                    0
                },
            },
        },
    };
    v as i32
}

pub fn match_is_currently_live(match_value: &Json, sport_id: i32) -> (r: bool)
    ensures
        r == currently_live(match_value@, sport_id),
{
    let status_id = row_status_id(match_value);
    is_live_status(sport_id, status_id) && !match_has_terminal_status(match_value)
}

/// A string member, or the empty text when absent or not a string.
pub open spec fn str_or_empty(v: Option<Seq<char>>) -> Seq<char> {
    match v {
        Some(s) => s,
        None => Seq::empty(),
    }
}

/// `row[outer]["id"]`, else `row[alt]`, as text (empty when neither is a
/// string).
pub open spec fn ref_id(m: JsonV, outer: Seq<char>, alt: Seq<char>) -> Seq<char> {
    match as_str(member(member(m, outer), "id"@)) {
        Some(s) => s,
        None => str_or_empty(as_str(member(m, alt))),
    }
}

pub open spec fn comp_ref(m: JsonV) -> Seq<char> {
    ref_id(m, "competition"@, "competitionId"@)
}

pub open spec fn home_ref(m: JsonV) -> Seq<char> {
    ref_id(m, "homeTeam"@, "homeTeamId"@)
}

pub open spec fn away_ref(m: JsonV) -> Seq<char> {
    ref_id(m, "awayTeam"@, "awayTeamId"@)
}

/// Whether a team or competition row lacks a non-empty `id`.
pub open spec fn lacks_id(v: JsonV) -> bool {
    !(as_str(member(v, "id"@)) matches Some(s) && s.len() > 0)
}

/// The first missing field of a match row, if any.
pub open spec fn match_field_error(m: JsonV) -> Option<Seq<char>> {
    if lacks_id(m) {
        Some("match.id"@)
    } else if comp_ref(m).len() == 0 {
        Some("match.competition.id"@)
    } else if home_ref(m).len() == 0 {
        Some("match.homeTeam.id"@)
    } else if away_ref(m).len() == 0 {
        Some("match.awayTeam.id"@)
    } else {
        None
    }
}

/// The ids of rows.
pub open spec fn id_set(rows: Seq<JsonV>) -> Set<Seq<char>> {
    Set::new(|k: Seq<char>| exists|i: int| 0 <= i < rows.len() && as_str(member(#[trigger] rows[i], "id"@)) == Some(k))
}

/// Competitions referenced by the matches but not listed, in row order.
pub open spec fn missing_competitions(ms: Seq<JsonV>, comps: Set<Seq<char>>) -> Seq<Seq<char>>
    decreases ms.len(),
{
    if ms.len() == 0 {
        Seq::empty()
    } else {
        let p = missing_competitions(ms.drop_last(), comps);
        if comps.contains(comp_ref(ms.last())) {
            p
        } else {
            p.push(comp_ref(ms.last()))
        }
    }
}

/// Teams referenced by the matches but not listed: per row the home team,
/// then the away team.
pub open spec fn missing_teams(ms: Seq<JsonV>, teams: Set<Seq<char>>) -> Seq<Seq<char>>
    decreases ms.len(),
{
    if ms.len() == 0 {
        Seq::empty()
    } else {
        let p = missing_teams(ms.drop_last(), teams);
        let h = if teams.contains(home_ref(ms.last())) {
            p
        } else {
            p.push(home_ref(ms.last()))
        };
        if teams.contains(away_ref(ms.last())) {
            h
        } else {
            h.push(away_ref(ms.last()))
        }
    }
}

/// Row `i` of `ms` is the first with a missing field.
pub open spec fn first_match_error_at(ms: Seq<JsonV>, i: int) -> bool {
    &&& 0 <= i < ms.len()
    &&& match_field_error(ms[i]) is Some
    &&& forall|k: int| 0 <= k < i ==> match_field_error(#[trigger] ms[k]) is None
}

/// The sport a list names: `sportId` as an integer, else 0.
pub open spec fn list_sport(val: JsonV) -> i32 {
    match as_i64(member(val, "sportId"@)) {
        Some(v) => v as i32,
        None => 0,
    }
}

/// What `decode_and_validate_snapshot` gives: the filter must be live and
/// the sport the expected one; the three lists must be lists or maps; every
/// team and competition must have an id; every match its id and its three
/// references; and every reference must be listed.
pub open spec fn snapshot_outcome(
    val: JsonV,
    expected: i32,
    r: Result<SourceSnapshot, ExtractionError>,
) -> bool {
    if as_str(member(val, "activeFilter"@)) != Some("live"@) {
        r matches Err(e) && e@ == ExtractionErrorV::FilterNotLive
    } else if list_sport(val) != expected {
        r matches Err(e) && e@ == ExtractionErrorV::CrossSportMismatch {
            expected,
            found: list_sport(val),
        }
    } else if list_or_dict(member(val, "matches"@)) is None || list_or_dict(member(val, "teams"@))
        is None || list_or_dict(member(val, "competitions"@)) is None {
        r matches Err(e) && e@ == ExtractionErrorV::JsonError("Expected array or dictionary"@)
    } else {
        let ms = list_or_dict(member(val, "matches"@))->0;
        let ts = list_or_dict(member(val, "teams"@))->0;
        let cs = list_or_dict(member(val, "competitions"@))->0;
        if exists|i: int| 0 <= i < ts.len() && lacks_id(#[trigger] ts[i]) {
            r matches Err(e) && e@ == ExtractionErrorV::MissingRequiredField("team.id"@)
        } else if exists|i: int| 0 <= i < cs.len() && lacks_id(#[trigger] cs[i]) {
            r matches Err(e) && e@ == ExtractionErrorV::MissingRequiredField("competition.id"@)
        } else if exists|i: int| first_match_error_at(ms, i) {
            r matches Err(e) && exists|i: int|
                first_match_error_at(ms, i) && e@ == ExtractionErrorV::MissingRequiredField(
                    match_field_error(ms[i])->0,
                )
        } else if missing_competitions(ms, id_set(cs)).len() > 0 || missing_teams(ms, id_set(ts)).len() > 0 {
            r matches Err(e) && e@ == ExtractionErrorV::IncompleteRelations {
                missing_competitions: missing_competitions(ms, id_set(cs)),
                missing_teams: missing_teams(ms, id_set(ts)),
            }
        } else {
            r matches Ok(s) && {
                &&& items_view(s.matches@) == ms
                &&& items_view(s.teams@) == ts
                &&& items_view(s.competitions@) == cs
                &&& s.active_filter@ == "live"@
                &&& s.sport_id == expected
                &&& match s.timestamp {
                    Some(t) => as_i64(member(val, "timestamp"@)) == Some(t as int),
                    None => as_i64(member(val, "timestamp"@)) is None,
                }
            }
        }
    }
}

/// Collects the ids of rows that all have a non-empty id, or reports that
/// one lacks it.
fn collect_ids(rows: &Vec<Json>) -> (r: Option<Vec<String>>)
    ensures
        match r {
            Some(ids) => (forall|i: int| 0 <= i < rows@.len() ==> !lacks_id(#[trigger] items_view(rows@)[i]))
                && names(ids@) == id_set(items_view(rows@)),
            None => exists|i: int| 0 <= i < rows@.len() && lacks_id(#[trigger] items_view(rows@)[i]),
        },
{
    proof {
        lemma_items_view(rows@);
    }
    let ghost rv = items_view(rows@);
    let mut ids: Vec<String> = Vec::new();
    let mut i: usize = 0;
    assert(names(ids@) =~= Set::<Seq<char>>::empty());
    assert(id_set(rv.take(0)) =~= Set::<Seq<char>>::empty());
    while i < rows.len()
        invariant
            i <= rows.len(),
            rv == items_view(rows@),
            rv.len() == rows@.len(),
            forall|m: int| 0 <= m < rows@.len() ==> #[trigger] rv[m] == json_view(rows@[m]),
            forall|k: int| 0 <= k < i ==> !lacks_id(#[trigger] rv[k]),
            names(ids@) == id_set(rv.take(i as int)),
        decreases rows.len() - i,
    {
        match member_str(&rows[i], "id") {
            Some(s) => {
                if s.as_str().is_empty() {
                    assert(lacks_id(rv[i as int]));
                    return None;
                }
                let ghost before = names(ids@);
                add_name(&mut ids, s.as_str());
                proof {
                    let nt = rv.take(i + 1);
                    assert forall|k: Seq<char>| id_set(nt).contains(k) == before.insert(s@).contains(k) by {
                        if id_set(nt).contains(k) {
                            let j = choose|j: int| 0 <= j < nt.len() && as_str(member(#[trigger] nt[j], "id"@)) == Some(k);
                            if j < i {
                                assert(rv.take(i as int)[j] == nt[j]);
                            }
                        }
                        if before.contains(k) {
                            let j = choose|j: int| 0 <= j < i && as_str(member(#[trigger] rv.take(i as int)[j], "id"@)) == Some(k);
                            assert(nt[j] == rv.take(i as int)[j]);
                        }
                        if k == s@ {
                            assert(nt[i as int] == rv[i as int]);
                        }
                    }
                    assert(id_set(nt) =~= before.insert(s@));
                }
            },
            None => {
                assert(lacks_id(rv[i as int]));
                return None;
            },
        }
        i = i + 1;
    }
    assert(rv.take(rows@.len() as int) =~= rv);
    Some(ids)
}

/// `row[outer]["id"]`, else `row[alt]`, else empty.
fn ref_id_exec(m: &Json, outer: &str, alt: &str) -> (r: String)
    ensures
        r@ == ref_id(m@, outer@, alt@),
{
    let nested = match get_member(m, outer) {
        Some(o) => member_str(o, "id"),
        None => {
            assert(member(m@, outer@) == JsonV::Null);
            None
        },
    };
    match nested {
        Some(s) => owned(s.as_str()),
        None => match member_str(m, alt) {
            Some(s) => owned(s.as_str()),
            None => String::new(),
        },
    }
}

/// The field error of one match row, with its references.
fn match_refs(m: &Json) -> (r: Result<(String, String, String), String>)
    ensures
        match r {
            Ok((c, h, a)) => match_field_error(m@) is None && c@ == comp_ref(m@) && h@ == home_ref(
                m@,
            ) && a@ == away_ref(m@),
            Err(f) => match_field_error(m@) == Some(f@),
        },
{
    match member_str(m, "id") {
        Some(s) => {
            if s.as_str().is_empty() {
                return Err(owned("match.id"));
            }
        },
        None => {
            return Err(owned("match.id"));
        },
    }
    let c = ref_id_exec(m, "competition", "competitionId");
    if c.as_str().is_empty() {
        return Err(owned("match.competition.id"));
    }
    let h = ref_id_exec(m, "homeTeam", "homeTeamId");
    if h.as_str().is_empty() {
        return Err(owned("match.homeTeam.id"));
    }
    let a = ref_id_exec(m, "awayTeam", "awayTeamId");
    if a.as_str().is_empty() {
        return Err(owned("match.awayTeam.id"));
    }
    Ok((c, h, a))
}

/// Reads and validates a list snapshot for a sport.
pub fn decode_and_validate_snapshot(val: &Json, expected_sport_id: i32) -> (r: Result<
    SourceSnapshot,
    ExtractionError,
>)
    ensures
        snapshot_outcome(val@, expected_sport_id, r),
{
    let live = match member_str(val, "activeFilter") {
        Some(s) => str_eq(s.as_str(), "live"),
        None => false,
    };
    if !live {
        return Err(ExtractionError::FilterNotLive);
    }
    let sport_id: i32 = match member_i64(val, "sportId") {
        Some(v) => v as i32,
        None => 0,
    };
    if sport_id != expected_sport_id {
        return Err(ExtractionError::CrossSportMismatch { expected: expected_sport_id, found: sport_id });
    }
    let matches = match get_member(val, "matches") {
        Some(v) => parse_list_or_dict(v),
        None => parse_list_or_dict(&Json::Null),
    };
    let matches = match matches {
        Ok(v) => v,
        Err(e) => {
            return Err(e);
        },
    };
    let teams = match get_member(val, "teams") {
        Some(v) => parse_list_or_dict(v),
        None => parse_list_or_dict(&Json::Null),
    };
    let teams = match teams {
        Ok(v) => v,
        Err(e) => {
            return Err(e);
        },
    };
    let competitions = match get_member(val, "competitions") {
        Some(v) => parse_list_or_dict(v),
        None => parse_list_or_dict(&Json::Null),
    };
    let competitions = match competitions {
        Ok(v) => v,
        Err(e) => {
            return Err(e);
        },
    };
    let ghost ms = items_view(matches@);
    let ghost ts = items_view(teams@);
    let ghost cs = items_view(competitions@);
    proof {
        lemma_items_view(teams@);
        lemma_items_view(competitions@);
    }
    let team_ids = match collect_ids(&teams) {
        Some(ids) => ids,
        None => {
            return Err(ExtractionError::MissingRequiredField(owned("team.id")));
        },
    };
    let comp_ids = match collect_ids(&competitions) {
        Some(ids) => ids,
        None => {
            return Err(ExtractionError::MissingRequiredField(owned("competition.id")));
        },
    };
    proof {
        lemma_items_view(matches@);
    }
    let mut missing_comps: Vec<String> = Vec::new();
    let mut missing_team_ids: Vec<String> = Vec::new();
    let mut i: usize = 0;
    assert(ms.take(0) =~= Seq::<JsonV>::empty());
    while i < matches.len()
        invariant
            i <= matches.len(),
            ms == items_view(matches@),
            ms.len() == matches@.len(),
            forall|m: int| 0 <= m < matches@.len() ==> #[trigger] ms[m] == json_view(matches@[m]),
            names(team_ids@) == id_set(ts),
            names(comp_ids@) == id_set(cs),
            as_str(member(val@, "activeFilter"@)) == Some("live"@),
            list_sport(val@) == expected_sport_id,
            sport_id == expected_sport_id,
            list_or_dict(member(val@, "matches"@)) == Some(ms),
            list_or_dict(member(val@, "teams"@)) == Some(ts),
            list_or_dict(member(val@, "competitions"@)) == Some(cs),
            forall|k: int| 0 <= k < ts.len() ==> !lacks_id(#[trigger] ts[k]),
            forall|k: int| 0 <= k < cs.len() ==> !lacks_id(#[trigger] cs[k]),
            forall|k: int| 0 <= k < i ==> match_field_error(#[trigger] ms[k]) is None,
            texts(missing_comps@) == missing_competitions(ms.take(i as int), id_set(cs)),
            texts(missing_team_ids@) == missing_teams(ms.take(i as int), id_set(ts)),
        decreases matches.len() - i,
    {
        let ghost t = ms.take(i + 1);
        assert(t.drop_last() =~= ms.take(i as int));
        assert(t.last() == ms[i as int]);
        let (c, h, a) = match match_refs(&matches[i]) {
            Ok(refs) => refs,
            Err(f) => {
                assert(first_match_error_at(ms, i as int));
                return Err(ExtractionError::MissingRequiredField(f));
            },
        };
        if !contains_name(&comp_ids, c.as_str()) {
            missing_comps.push(c);
        }
        if !contains_name(&team_ids, h.as_str()) {
            missing_team_ids.push(h);
        }
        if !contains_name(&team_ids, a.as_str()) {
            missing_team_ids.push(a);
        }
        assert(texts(missing_comps@) =~= missing_competitions(t, id_set(cs)));
        assert(texts(missing_team_ids@) =~= missing_teams(t, id_set(ts)));
        i = i + 1;
    }
    assert(ms.take(ms.len() as int) =~= ms);
    assert forall|j: int| !first_match_error_at(ms, j) by {
        if 0 <= j < ms.len() {
            assert(match_field_error(ms[j]) is None);
        }
    }
    if missing_comps.len() > 0 || missing_team_ids.len() > 0 {
        return Err(
            ExtractionError::IncompleteRelations {
                missing_competitions: missing_comps,
                missing_teams: missing_team_ids,
            },
        );
    }
    let timestamp = member_i64(val, "timestamp");
    Ok(
        SourceSnapshot {
            matches,
            teams,
            competitions,
            active_filter: owned("live"),
            sport_id,
            timestamp,
        },
    )
}

/// The match id a detail names: `matchId`, else `match_id`, else empty.
pub open spec fn detail_match_id(d: JsonV) -> Seq<char> {
    match as_str(member(d, "matchId"@)) {
        Some(s) => s,
        None => str_or_empty(as_str(member(d, "match_id"@))),
    }
}

/// The sport a detail names, if it names one.
pub open spec fn detail_sport(d: JsonV) -> Option<int> {
    match as_i64(member(d, "sportId"@)) {
        Some(v) => Some(v),
        None => as_i64(member(d, "sport_id"@)),
    }
}

/// Checks that a detail belongs to the requested match and sport, and
/// returns it with chat-like members removed.
pub fn decode_and_validate_detail(detail: &Json, requested_match_id: &str, expected_sport_id: i32) -> (r: Result<
    Json,
    DetailDecoderError,
>)
    ensures
        if detail_match_id(detail@).len() == 0 {
            r matches Err(e) && e@ == DetailDecoderErrorV::EmptyMatchId
        } else if detail_match_id(detail@) != requested_match_id@ {
            r matches Err(e) && e@ == DetailDecoderErrorV::MatchIdMismatch {
                expected: requested_match_id@,
                found: detail_match_id(detail@),
            }
        } else if detail_sport(detail@) matches Some(s) && s as i32 != expected_sport_id {
            r matches Err(e) && e@ == DetailDecoderErrorV::SportIdMismatch {
                expected: expected_sport_id,
                found: detail_sport(detail@)->0 as i32,
            }
        } else {
            r matches Ok(v) && v@ == sanitized(detail@)
        },
{
    let match_id: String = match member_str(detail, "matchId") {
        Some(s) => owned(s.as_str()),
        None => match member_str(detail, "match_id") {
            Some(s) => owned(s.as_str()),
            None => String::new(),
        },
    };
    if match_id.as_str().is_empty() {
        return Err(DetailDecoderError::EmptyMatchId);
    }
    if !str_eq(match_id.as_str(), requested_match_id) {
        return Err(
            DetailDecoderError::MatchIdMismatch { expected: owned(requested_match_id), found: match_id },
        );
    }
    let sport = match member_i64(detail, "sportId") {
        Some(v) => Some(v),
        None => member_i64(detail, "sport_id"),
    };
    match sport {
        Some(s) => {
            if s as i32 != expected_sport_id {
                return Err(DetailDecoderError::SportIdMismatch { expected: expected_sport_id, found: s as i32 });
            }
        },
        None => {},
    }
    Ok(sanitize_payload(json_clone(detail)))
}

/// Removes chat-like members at every depth.
pub fn sanitize_json(val: &mut Json)
    ensures
        final(val)@ == sanitized(old(val)@),
{
    let copy = json_clone(val);
    *val = sanitize_payload(copy);
}

/// `Debug` of one character of a string: quotes, backslashes and ASCII
/// control characters escaped as Rust escapes them; other characters as
/// they are.
pub open spec fn debug_char(c: char) -> Seq<char> {
    if c == '"' {
        seq!['\\', '"']
    } else if c == '\\' {
        seq!['\\', '\\']
    } else if c == '\n' {
        seq!['\\', 'n']
    } else if c == '\r' {
        seq!['\\', 'r']
    } else if c == '\t' {
        seq!['\\', 't']
    } else if c == '\0' {
        seq!['\\', '0']
    } else if (c as u32) < 0x10 {
        seq!['\\', 'u', '{', crate::text::hex_digit(c as u32 as int), '}']
    } else if (c as u32) < 0x20 || (c as u32) == 0x7f {
        seq![
            '\\',
            'u',
            '{',
            crate::text::hex_digit((c as u32 / 16) as int),
            crate::text::hex_digit((c as u32 % 16) as int),
            '}',
        ]
    } else {
        seq![c]
    }
}

pub open spec fn debug_chars(s: Seq<char>) -> Seq<char>
    decreases s.len(),
{
    if s.len() == 0 {
        Seq::empty()
    } else {
        debug_chars(s.drop_last()) + debug_char(s.last())
    }
}

/// `Debug` of a string.
pub open spec fn debug_string(s: Seq<char>) -> Seq<char> {
    seq!['"'] + debug_chars(s) + seq!['"']
}

/// `Debug` of a list of strings: `["a", "b"]`.
pub open spec fn debug_list(v: Seq<Seq<char>>) -> Seq<char>
    decreases v.len(),
{
    if v.len() == 0 {
        "[]"@
    } else {
        seq!['['] + debug_items(v) + seq![']']
    }
}

pub open spec fn debug_items(v: Seq<Seq<char>>) -> Seq<char>
    decreases v.len(),
{
    if v.len() == 0 {
        Seq::empty()
    } else if v.len() == 1 {
        debug_string(v[0])
    } else {
        debug_items(v.drop_last()) + ", "@ + debug_string(v.last())
    }
}

fn push_debug_char(out: &mut Vec<char>, c: char)
    ensures
        final(out)@ == old(out)@ + debug_char(c),
{
    let n = c as u32;
    if c == '"' {
        out.push('\\');
        out.push('"');
    } else if c == '\\' {
        out.push('\\');
        out.push('\\');
    } else if c == '\n' {
        out.push('\\');
        out.push('n');
    } else if c == '\r' {
        out.push('\\');
        out.push('r');
    } else if c == '\t' {
        out.push('\\');
        out.push('t');
    } else if c == '\0' {
        out.push('\\');
        out.push('0');
    } else if n < 0x10 {
        out.push('\\');
        out.push('u');
        out.push('{');
        out.push(crate::text::hex_digit_exec(n as u8));
        out.push('}');
    } else if n < 0x20 || n == 0x7f {
        out.push('\\');
        out.push('u');
        out.push('{');
        out.push(crate::text::hex_digit_exec((n / 16) as u8));
        out.push(crate::text::hex_digit_exec((n % 16) as u8));
        out.push('}');
    } else {
        out.push(c);
    }
    assert(final(out)@ =~= old(out)@ + debug_char(c));
}

fn push_debug_string(out: &mut Vec<char>, s: &str)
    ensures
        final(out)@ == old(out)@ + debug_string(s@),
{
    let cs = chars_of(s);
    out.push('"');
    let ghost start = out@;
    let mut i: usize = 0;
    while i < cs.len()
        invariant
            i <= cs.len(),
            cs@ == s@,
            out@ == start + debug_chars(cs@.take(i as int)),
        decreases cs.len() - i,
    {
        push_debug_char(out, cs[i]);
        proof {
            let t = cs@.take(i + 1);
            assert(t.drop_last() =~= cs@.take(i as int));
        }
        i = i + 1;
        assert(out@ =~= start + debug_chars(cs@.take(i as int)));
    }
    assert(cs@.take(cs@.len() as int) =~= s@);
    out.push('"');
    assert(out@ =~= old(out)@ + debug_string(s@));
}

fn push_debug_list(out: &mut Vec<char>, v: &Vec<String>)
    ensures
        final(out)@ == old(out)@ + debug_list(texts(v@)),
{
    if v.len() == 0 {
        extend_str(out, "[]");
        return ;
    }
    out.push('[');
    let ghost start = out@;
    let mut i: usize = 0;
    while i < v.len()
        invariant
            i <= v.len(),
            v@.len() > 0,
            out@ == start + debug_items(texts(v@.take(i as int))),
        decreases v.len() - i,
    {
        let ghost before = out@;
        if i > 0 {
            extend_str(out, ", ");
        }
        push_debug_string(out, v[i].as_str());
        proof {
            let t = texts(v@.take(i + 1));
            assert(t.drop_last() =~= texts(v@.take(i as int)));
            assert(t.last() == v@[i as int]@);
            if i == 0 {
                assert(t.len() == 1);
                assert(debug_items(texts(v@.take(0))) =~= Seq::<char>::empty());
            }
        }
        i = i + 1;
        assert(out@ =~= start + debug_items(texts(v@.take(i as int))));
    }
    assert(v@.take(v@.len() as int) =~= v@);
    out.push(']');
    assert(out@ =~= old(out)@ + debug_list(texts(v@)));
}

pub open spec fn extraction_error_text(e: ExtractionErrorV) -> Seq<char> {
    match e {
        ExtractionErrorV::FilterNotLive => "filter_not_live"@,
        ExtractionErrorV::CrossSportMismatch { expected, found } => "cross_sport_mismatch: expected "@
            + int_text_of(expected as int) + ", found "@ + int_text_of(found as int),
        ExtractionErrorV::EmptyMatches => "empty_matches"@,
        ExtractionErrorV::IncompleteRelations { missing_competitions, missing_teams } =>
            "incomplete_relations: missing_competitions="@ + debug_list(missing_competitions)
            + ", missing_teams="@ + debug_list(missing_teams),
        ExtractionErrorV::MissingRequiredField(f) => "missing_required_field: "@ + f,
        ExtractionErrorV::JsonError(m) => "json_error: "@ + m,
    }
}

pub open spec fn detail_error_text(e: DetailDecoderErrorV) -> Seq<char> {
    match e {
        DetailDecoderErrorV::MatchIdMismatch { expected, found } => "match_id_mismatch: expected "@
            + expected + ", found "@ + found,
        DetailDecoderErrorV::SportIdMismatch { expected, found } => "sport_id_mismatch: expected "@
            + int_text_of(expected as int) + ", found "@ + int_text_of(found as int),
        DetailDecoderErrorV::EmptyMatchId => "empty_match_id"@,
        DetailDecoderErrorV::JsonError(m) => "json_error: "@ + m,
    }
}

impl ExtractionError {
    /// The error's text (its `Display` in logs).
    pub fn message(&self) -> (r: String)
        ensures
            r@ == extraction_error_text(self@),
    {
        let mut out: Vec<char> = Vec::new();
        match self {
            ExtractionError::FilterNotLive => extend_str(&mut out, "filter_not_live"),
            ExtractionError::CrossSportMismatch { expected, found } => {
                extend_str(&mut out, "cross_sport_mismatch: expected ");
                let a = int_to_text(*expected as i64);
                extend_str(&mut out, a.as_str());
                extend_str(&mut out, ", found ");
                let b = int_to_text(*found as i64);
                extend_str(&mut out, b.as_str());
            },
            ExtractionError::EmptyMatches => extend_str(&mut out, "empty_matches"),
            ExtractionError::IncompleteRelations { missing_competitions, missing_teams } => {
                extend_str(&mut out, "incomplete_relations: missing_competitions=");
                push_debug_list(&mut out, missing_competitions);
                extend_str(&mut out, ", missing_teams=");
                push_debug_list(&mut out, missing_teams);
            },
            ExtractionError::MissingRequiredField(f) => {
                extend_str(&mut out, "missing_required_field: ");
                extend_str(&mut out, f.as_str());
            },
            ExtractionError::JsonError(m) => {
                extend_str(&mut out, "json_error: ");
                extend_str(&mut out, m.as_str());
            },
        }
        string_from_chars(&out)
    }
}

impl DetailDecoderError {
    /// The error's text (its `Display` in logs).
    pub fn message(&self) -> (r: String)
        ensures
            r@ == detail_error_text(self@),
    {
        let mut out: Vec<char> = Vec::new();
        match self {
            DetailDecoderError::MatchIdMismatch { expected, found } => {
                extend_str(&mut out, "match_id_mismatch: expected ");
                extend_str(&mut out, expected.as_str());
                extend_str(&mut out, ", found ");
                extend_str(&mut out, found.as_str());
            },
            DetailDecoderError::SportIdMismatch { expected, found } => {
                extend_str(&mut out, "sport_id_mismatch: expected ");
                let a = int_to_text(*expected as i64);
                extend_str(&mut out, a.as_str());
                extend_str(&mut out, ", found ");
                let b = int_to_text(*found as i64);
                extend_str(&mut out, b.as_str());
            },
            DetailDecoderError::EmptyMatchId => extend_str(&mut out, "empty_match_id"),
            DetailDecoderError::JsonError(m) => {
                extend_str(&mut out, "json_error: ");
                extend_str(&mut out, m.as_str());
            },
        }
        string_from_chars(&out)
    }
}

/// The compact JSON text of a list of values (what `serde_json::to_string`
/// prints for it).
pub fn list_text(items: &Vec<Json>) -> (r: Vec<char>)
    ensures
        r@ == canon(JsonV::Array(items_view(items@))),
{
    proof {
        lemma_items_view(items@);
    }
    let ghost iv = items_view(items@);
    proof {
        reveal_strlit(",");
        reveal_strlit("[");
        reveal_strlit("]");
    }
    let mut out: Vec<char> = Vec::new();
    out.push('[');
    let mut i: usize = 0;
    while i < items.len()
        invariant
            i <= items.len(),
            iv == items_view(items@),
            iv.len() == items@.len(),
            forall|m: int| 0 <= m < items@.len() ==> #[trigger] iv[m] == json_view(items@[m]),
            out@ == seq!['['] + crate::json::canon_list(iv.take(i as int)),
        decreases items.len() - i,
    {
        let ghost before = out@;
        if i > 0 {
            out.push(',');
        }
        let ghost mid = out@;
        crate::json::write_json(&items[i], &mut out);
        assert(out@ == mid + canon(iv[i as int]));
        proof {
            let t = iv.take(i + 1);
            assert(t.drop_last() =~= iv.take(i as int));
            assert(t.last() == iv[i as int]);
            if i == 0 {
                assert(t.len() == 1);
                assert(t[0] == iv[0]);
                assert(crate::json::canon_list(iv.take(0)) =~= Seq::<char>::empty());
                assert(before =~= seq!['[']);
                assert(crate::json::canon_list(t) == canon(iv[0]));
                assert(out@ =~= seq!['['] + crate::json::canon_list(t));
            } else {
                reveal_strlit(",");
                assert(crate::json::canon_list(t) == crate::json::canon_list(t.drop_last()) + ","@
                    + canon(t.last()));
                assert(out@ =~= seq!['['] + crate::json::canon_list(t));
            }
        }
        i = i + 1;
    }
    assert(iv.take(iv.len() as int) =~= iv);
    out.push(']');
    assert(out@ =~= canon(JsonV::Array(iv)));
    out
}

/// One readiness probe of the list page, judged against the previous live
/// snapshot.
#[derive(Debug)]
pub enum ReadinessStep {
    /// The probe command failed: keep the candidate and probe again.
    Unavailable,
    /// The page state is not there yet: activate the live filter again.
    NotReady,
    /// The filter is not live: activate it again and drop the candidate.
    NotLive,
    /// The snapshot was rejected: drop the candidate.
    Rejected(ExtractionError),
    /// A live snapshot that differs from the candidate: it becomes the
    /// candidate.
    LiveUnstable(SourceSnapshot),
    /// Two consecutive identical live snapshots: the page is ready.
    LiveStable(SourceSnapshot),
}

/// Whether two snapshots list the same matches, by their JSON text.
pub open spec fn same_matches(a: Seq<JsonV>, b: Seq<JsonV>) -> bool {
    canon(JsonV::Array(a)) == canon(JsonV::Array(b))
}

/// The readiness decision for one probe.  `value` is the page state the
/// probe returned, `None` when the command failed.
pub fn readiness_step(prev: &Option<SourceSnapshot>, value: Option<&Json>, sport_id: i32) -> (r: ReadinessStep)
    ensures
        match value {
            None => r is Unavailable,
            Some(v) => if v@ is Null {
                r is NotReady
            } else if as_str(member(v@, "activeFilter"@)) != Some("live"@) {
                r is NotLive
            } else {
                exists|d: Result<SourceSnapshot, ExtractionError>| {
                    &&& snapshot_outcome(v@, sport_id, d)
                    &&& match d {
                        Err(e) => r matches ReadinessStep::Rejected(f) && f@ == e@,
                        Ok(s) => match prev {
                            Some(p) => if same_matches(items_view(p.matches@), items_view(s.matches@)) {
                                r matches ReadinessStep::LiveStable(t) && t == s
                            } else {
                                r matches ReadinessStep::LiveUnstable(t) && t == s
                            },
                            None => r matches ReadinessStep::LiveUnstable(t) && t == s,
                        },
                    }
                }
            },
        },
{
    let v = match value {
        None => {
            return ReadinessStep::Unavailable;
        },
        Some(v) => v,
    };
    match v {
        Json::Null => {
            return ReadinessStep::NotReady;
        },
        _ => {},
    }
    let d = decode_and_validate_snapshot(v, sport_id);
    match d {
        Ok(snap) => {
            match prev {
                Some(p) => {
                    let a = list_text(&p.matches);
                    let b = list_text(&snap.matches);
                    if chars_eq(&a, &b) {
                        return ReadinessStep::LiveStable(snap);
                    }
                },
                None => {},
            }
            ReadinessStep::LiveUnstable(snap)
        },
        Err(ExtractionError::FilterNotLive) => ReadinessStep::NotLive,
        Err(e) => ReadinessStep::Rejected(e),
    }
}

} // verus!
