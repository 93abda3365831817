//! The rows a validated snapshot becomes, and what is written for each:
//! insert a new row, update a changed one, or leave it.
use vstd::prelude::*;
use crate::crawler::snapshot::{currently_live, match_is_currently_live, str_or_empty};
use crate::domain::events::{opt_string_view, sanitize_payload, sanitized};
use crate::json::{
    as_i64, as_str, canon, get, get_member, items_view, json_clone, json_text, json_view,
    lemma_items_view, member, member_i64, member_str, Json, JsonV,
};
use crate::text::{
    add_name, chars_of, contains_name, contains_seq, contains_str, extend_str, names, owned,
    str_eq, string_from_chars,
};

verus! {

/// What to do with one row.
#[derive(Debug, Clone, Copy, PartialEq, Eq, Structural)]
pub enum RowAction {
    Insert,
    Update,
    Keep,
}

pub open spec fn opt_text_eq(a: Option<String>, b: Option<String>) -> bool {
    opt_string_view(a) == opt_string_view(b)
}

fn same_opt(a: &Option<String>, b: &Option<String>) -> (r: bool)
    ensures
        r == opt_text_eq(*a, *b),
{
    match (a, b) {
        (Some(x), Some(y)) => str_eq(x.as_str(), y.as_str()),
        (None, None) => true,
        _ => false,
    }
}

fn opt_owned(s: Option<&String>) -> (r: Option<String>)
    ensures
        opt_string_view(r) == match s {
            Some(t) => Some(t@),
            None => None,
        },
{
    match s {
        Some(t) => Some(owned(t.as_str())),
        None => None,
    }
}

/// `v[k]` as a string, if it is one.
pub open spec fn str_at(v: JsonV, k: Seq<char>) -> Option<Seq<char>> {
    as_str(member(v, k))
}

/// A competition as stored.
#[derive(Debug, Clone)]
pub struct CompetitionRow {
    pub id: String,
    pub name: String,
    pub logo: Option<String>,
    pub slug: Option<String>,
    pub country_name: Option<String>,
    pub country_logo: Option<String>,
    pub raw_payload: String,
}

/// The stored form of a competition row, read from its sanitized value;
/// rows without an id are skipped.
pub open spec fn competition_row_of(r: CompetitionRow, c: JsonV) -> bool {
    let s = sanitized(c);
    &&& str_at(s, "id"@) == Some(r.id@)
    &&& r.name@ == str_or_empty(str_at(s, "name"@))
    &&& opt_string_view(r.logo) == str_at(s, "logo"@)
    &&& opt_string_view(r.slug) == str_at(s, "slug"@)
    &&& opt_string_view(r.country_name) == str_at(member(s, "country"@), "name"@)
    &&& opt_string_view(r.country_logo) == str_at(member(s, "country"@), "logo"@)
    &&& r.raw_payload@ == canon(s)
}

/// Whether a row value has no usable id once sanitized.
pub open spec fn skipped(c: JsonV) -> bool {
    !(str_at(sanitized(c), "id"@) matches Some(id) && id.len() > 0)
}

fn str_member(v: &Json, k: &str) -> (r: Option<String>)
    ensures
        opt_string_view(r) == str_at(v@, k@),
{
    opt_owned(member_str(v, k))
}

fn nested_str(v: &Json, outer: &str, k: &str) -> (r: Option<String>)
    ensures
        opt_string_view(r) == str_at(member(v@, outer@), k@),
{
    match get_member(v, outer) {
        Some(o) => str_member(o, k),
        None => {
            assert(member(v@, outer@) == JsonV::Null);
            None
        },
    }
}

fn text_or_empty(s: Option<String>) -> (r: String)
    ensures
        r@ == str_or_empty(opt_string_view(s)),
{
    match s {
        Some(t) => t,
        None => String::new(),
    }
}

/// The id of a sanitized row, when it is a non-empty string.
fn row_id(s: &Json) -> (r: Option<String>)
    ensures
        match r {
            Some(id) => str_at(s@, "id"@) == Some(id@) && id@.len() > 0,
            None => !(str_at(s@, "id"@) matches Some(id) && id.len() > 0),
        },
{
    match member_str(s, "id") {
        Some(id) => {
            if id.as_str().is_empty() {
                None
            } else {
                Some(owned(id.as_str()))
            }
        },
        None => None,
    }
}

pub fn competition_row(c: &Json) -> (r: Option<CompetitionRow>)
    ensures
        match r {
            Some(row) => !skipped(c@) && competition_row_of(row, c@),
            None => skipped(c@),
        },
{
    let s = sanitize_payload(json_clone(c));
    let id = match row_id(&s) {
        Some(id) => id,
        None => {
            return None;
        },
    };
    Some(
        CompetitionRow {
            id,
            name: text_or_empty(str_member(&s, "name")),
            logo: str_member(&s, "logo"),
            slug: str_member(&s, "slug"),
            country_name: nested_str(&s, "country", "name"),
            country_logo: nested_str(&s, "country", "logo"),
            raw_payload: json_text(&s),
        },
    )
}

pub open spec fn same_competition(a: CompetitionRow, b: CompetitionRow) -> bool {
    &&& a.name@ == b.name@
    &&& opt_text_eq(a.logo, b.logo)
    &&& opt_text_eq(a.slug, b.slug)
    &&& opt_text_eq(a.country_name, b.country_name)
    &&& opt_text_eq(a.country_logo, b.country_logo)
    &&& a.raw_payload@ == b.raw_payload@
}

/// A new row is inserted; a stored row is updated only when a field changed.
pub fn competition_action(row: &CompetitionRow, existing: Option<&CompetitionRow>) -> (r: RowAction)
    ensures
        r == match existing {
            None => RowAction::Insert,
            Some(e) => if same_competition(*e, *row) {
                RowAction::Keep
            } else {
                RowAction::Update
            },
        },
{
    match existing {
        None => RowAction::Insert,
        Some(e) => {
            let same = str_eq(e.name.as_str(), row.name.as_str()) && same_opt(&e.logo, &row.logo)
                && same_opt(&e.slug, &row.slug) && same_opt(&e.country_name, &row.country_name)
                && same_opt(&e.country_logo, &row.country_logo) && str_eq(
                e.raw_payload.as_str(),
                row.raw_payload.as_str(),
            );
            if same {
                RowAction::Keep
            } else {
                RowAction::Update
            }
        },
    }
}

/// A team as stored.
#[derive(Debug, Clone)]
pub struct TeamRow {
    pub id: String,
    pub name: String,
    pub logo: Option<String>,
    pub slug: Option<String>,
    pub raw_payload: String,
}

pub open spec fn team_row_of(r: TeamRow, t: JsonV) -> bool {
    let s = sanitized(t);
    &&& str_at(s, "id"@) == Some(r.id@)
    &&& r.name@ == str_or_empty(str_at(s, "name"@))
    &&& opt_string_view(r.logo) == str_at(s, "logo"@)
    &&& opt_string_view(r.slug) == str_at(s, "slug"@)
    &&& r.raw_payload@ == canon(s)
}

pub fn team_row(t: &Json) -> (r: Option<TeamRow>)
    ensures
        match r {
            Some(row) => !skipped(t@) && team_row_of(row, t@),
            None => skipped(t@),
        },
{
    let s = sanitize_payload(json_clone(t));
    let id = match row_id(&s) {
        Some(id) => id,
        None => {
            return None;
        },
    };
    Some(
        TeamRow {
            id,
            name: text_or_empty(str_member(&s, "name")),
            logo: str_member(&s, "logo"),
            slug: str_member(&s, "slug"),
            raw_payload: json_text(&s),
        },
    )
}

pub open spec fn same_team(a: TeamRow, b: TeamRow) -> bool {
    &&& a.name@ == b.name@
    &&& opt_text_eq(a.logo, b.logo)
    &&& opt_text_eq(a.slug, b.slug)
    &&& a.raw_payload@ == b.raw_payload@
}

pub fn team_action(row: &TeamRow, existing: Option<&TeamRow>) -> (r: RowAction)
    ensures
        r == match existing {
            None => RowAction::Insert,
            Some(e) => if same_team(*e, *row) {
                RowAction::Keep
            } else {
                RowAction::Update
            },
        },
{
    match existing {
        None => RowAction::Insert,
        Some(e) => {
            let same = str_eq(e.name.as_str(), row.name.as_str()) && same_opt(&e.logo, &row.logo)
                && same_opt(&e.slug, &row.slug) && str_eq(
                e.raw_payload.as_str(),
                row.raw_payload.as_str(),
            );
            if same {
                RowAction::Keep
            } else {
                RowAction::Update
            }
        },
    }
}

/// A match as stored.
#[derive(Debug, Clone)]
pub struct MatchRow {
    pub id: String,
    pub competition_id: String,
    pub home_team_id: String,
    pub away_team_id: String,
    pub match_time: i64,
    pub status_id: i32,
    pub home_scores: String,
    pub away_scores: String,
    pub is_live: bool,
    pub raw_payload: String,
}

/// `v[a]["id"]`, else `v[b]`, else `v[c]`, else empty.
pub open spec fn ref3(v: JsonV, a: Seq<char>, b: Seq<char>, c: Seq<char>) -> Seq<char> {
    match str_at(member(v, a), "id"@) {
        Some(s) => s,
        None => match str_at(v, b) {
            Some(s) => s,
            None => str_or_empty(str_at(v, c)),
        },
    }
}

/// The first of two integer members, else 0.
pub open spec fn int_or_zero(v: JsonV, a: Seq<char>, b: Seq<char>) -> int {
    match as_i64(member(v, a)) {
        Some(x) => x,
        None => match as_i64(member(v, b)) {
            Some(x) => x,
            None => 0,
        },
    }
}

/// The JSON text of the first present member of two, else `[]`.
pub open spec fn scores_text(v: JsonV, a: Seq<char>, b: Seq<char>) -> Seq<char> {
    match get(v, a) {
        Some(x) => canon(x),
        None => match get(v, b) {
            Some(x) => canon(x),
            None => "[]"@,
        },
    }
}

pub open spec fn match_row_of(r: MatchRow, m: JsonV, sport_id: i32) -> bool {
    let s = sanitized(m);
    &&& str_at(s, "id"@) == Some(r.id@)
    &&& r.competition_id@ == ref3(s, "competition"@, "competitionId"@, "competition_id"@)
    &&& r.home_team_id@ == ref3(s, "homeTeam"@, "homeTeamId"@, "home_team_id"@)
    &&& r.away_team_id@ == ref3(s, "awayTeam"@, "awayTeamId"@, "away_team_id"@)
    &&& r.match_time == int_or_zero(s, "matchTime"@, "match_time"@)
    &&& r.status_id == int_or_zero(s, "statusId"@, "status_id"@) as i32
    &&& r.is_live == currently_live(s, sport_id)
    &&& r.home_scores@ == scores_text(s, "homeScores"@, "home_scores"@)
    &&& r.away_scores@ == scores_text(s, "awayScores"@, "away_scores"@)
    &&& r.raw_payload@ == canon(s)
}

fn ref3_exec(v: &Json, a: &str, b: &str, c: &str) -> (r: String)
    ensures
        r@ == ref3(v@, a@, b@, c@),
{
    match nested_str(v, a, "id") {
        Some(s) => s,
        None => match str_member(v, b) {
            Some(s) => s,
            None => text_or_empty(str_member(v, c)),
        },
    }
}

fn int_or_zero_exec(v: &Json, a: &str, b: &str) -> (r: i64)
    ensures
        r as int == int_or_zero(v@, a@, b@),
{
    match member_i64(v, a) {
        Some(x) => x,
        None => match member_i64(v, b) {
            Some(x) => x,
            None => 0,
        },
    }
}

fn scores_text_exec(v: &Json, a: &str, b: &str) -> (r: String)
    ensures
        r@ == scores_text(v@, a@, b@),
{
    match get_member(v, a) {
        Some(x) => json_text(x),
        None => match get_member(v, b) {
            Some(x) => json_text(x),
            None => owned("[]"),
        },
    }
}

pub fn match_row(m: &Json, sport_id: i32) -> (r: Option<MatchRow>)
    ensures
        match r {
            Some(row) => !skipped(m@) && match_row_of(row, m@, sport_id),
            None => skipped(m@),
        },
{
    let s = sanitize_payload(json_clone(m));
    let id = match row_id(&s) {
        Some(id) => id,
        None => {
            return None;
        },
    };
    let status = int_or_zero_exec(&s, "statusId", "status_id");
    Some(
        MatchRow {
            id,
            competition_id: ref3_exec(&s, "competition", "competitionId", "competition_id"),
            home_team_id: ref3_exec(&s, "homeTeam", "homeTeamId", "home_team_id"),
            away_team_id: ref3_exec(&s, "awayTeam", "awayTeamId", "away_team_id"),
            match_time: int_or_zero_exec(&s, "matchTime", "match_time"),
            status_id: status as i32,
            home_scores: scores_text_exec(&s, "homeScores", "home_scores"),
            away_scores: scores_text_exec(&s, "awayScores", "away_scores"),
            is_live: match_is_currently_live(&s, sport_id),
            raw_payload: json_text(&s),
        },
    )
}

pub open spec fn same_match(a: MatchRow, b: MatchRow) -> bool {
    &&& a.competition_id@ == b.competition_id@
    &&& a.home_team_id@ == b.home_team_id@
    &&& a.away_team_id@ == b.away_team_id@
    &&& a.match_time == b.match_time
    &&& a.status_id == b.status_id
    &&& a.home_scores@ == b.home_scores@
    &&& a.away_scores@ == b.away_scores@
    &&& a.is_live == b.is_live
    &&& a.raw_payload@ == b.raw_payload@
}

/// The status code of a finished match.
pub open spec fn finished_status() -> i32 {
    8
}

/// What to write for a match row.  A stored finished match is never moved
/// back to another status: such an update is skipped.
pub open spec fn match_action_spec(row: MatchRow, existing: Option<MatchRow>) -> RowAction {
    match existing {
        None => RowAction::Insert,
        Some(e) => if e.status_id == finished_status() && row.status_id != finished_status() {
            RowAction::Keep
        } else if same_match(e, row) {
            RowAction::Keep
        } else {
            RowAction::Update
        },
    }
}

pub fn match_action(row: &MatchRow, existing: Option<&MatchRow>) -> (r: RowAction)
    ensures
        r == match_action_spec(*row, match existing {
            Some(e) => Some(*e),
            None => None,
        }),
        existing matches Some(e) && e.status_id == finished_status() && row.status_id
            != finished_status() ==> r == RowAction::Keep,
{
    match existing {
        None => RowAction::Insert,
        Some(e) => {
            if e.status_id == 8 && row.status_id != 8 {
                return RowAction::Keep;
            }
            let same = str_eq(e.competition_id.as_str(), row.competition_id.as_str()) && str_eq(
                e.home_team_id.as_str(),
                row.home_team_id.as_str(),
            ) && str_eq(e.away_team_id.as_str(), row.away_team_id.as_str()) && e.match_time
                == row.match_time && e.status_id == row.status_id && str_eq(
                e.home_scores.as_str(),
                row.home_scores.as_str(),
            ) && str_eq(e.away_scores.as_str(), row.away_scores.as_str()) && e.is_live
                == row.is_live && str_eq(e.raw_payload.as_str(), row.raw_payload.as_str());
            if same {
                RowAction::Keep
            } else {
                RowAction::Update
            }
        },
    }
}

/// The ids of the rows of a snapshot that are live now.
pub open spec fn live_ids(ms: Seq<JsonV>, sport_id: i32) -> Set<Seq<char>> {
    Set::new(
        |k: Seq<char>|
            exists|i: int|
                0 <= i < ms.len() && currently_live(#[trigger] ms[i], sport_id) && as_str(
                    member(ms[i], "id"@),
                ) == Some(k),
    )
}

/// The previously live ids that the snapshot no longer lists as live, in
/// their order.
pub open spec fn to_hide(previous: Seq<Seq<char>>, live: Set<Seq<char>>) -> Seq<Seq<char>>
    decreases previous.len(),
{
    if previous.len() == 0 {
        Seq::empty()
    } else if live.contains(previous.last()) {
        to_hide(previous.drop_last(), live)
    } else {
        to_hide(previous.drop_last(), live).push(previous.last())
    }
}

pub fn live_id_list(matches: &Vec<Json>, sport_id: i32) -> (r: Vec<String>)
    ensures
        names(r@) == live_ids(items_view(matches@), sport_id),
{
    proof {
        lemma_items_view(matches@);
    }
    let ghost ms = items_view(matches@);
    let mut out: Vec<String> = Vec::new();
    let mut i: usize = 0;
    assert(names(out@) =~= live_ids(ms.take(0), sport_id));
    while i < matches.len()
        invariant
            i <= matches.len(),
            ms == items_view(matches@),
            ms.len() == matches@.len(),
            forall|m: int| 0 <= m < matches@.len() ==> #[trigger] ms[m] == json_view(matches@[m]),
            names(out@) == live_ids(ms.take(i as int), sport_id),
        decreases matches.len() - i,
    {
        let ghost before = names(out@);
        let ghost t = ms.take(i + 1);
        if match_is_currently_live(&matches[i], sport_id) {
            match member_str(&matches[i], "id") {
                Some(id) => {
                    add_name(&mut out, id.as_str());
                    proof {
                        assert forall|k: Seq<char>| live_ids(t, sport_id).contains(k) == before.insert(id@).contains(k) by {
                            if live_ids(t, sport_id).contains(k) && k != id@ {
                                let j = choose|j: int| 0 <= j < t.len() && currently_live(#[trigger] t[j], sport_id) && as_str(member(t[j], "id"@)) == Some(k);
                                assert(ms.take(i as int)[j] == t[j]);
                            }
                            if before.contains(k) {
                                let j = choose|j: int| 0 <= j < i && currently_live(#[trigger] ms.take(i as int)[j], sport_id) && as_str(member(ms.take(i as int)[j], "id"@)) == Some(k);
                                assert(t[j] == ms.take(i as int)[j]);
                            }
                            if k == id@ {
                                assert(t[i as int] == ms[i as int]);
                            }
                        }
                        assert(live_ids(t, sport_id) =~= before.insert(id@));
                    }
                },
                None => {
                    assert forall|k: Seq<char>| live_ids(t, sport_id).contains(k) == before.contains(k) by {
                        if live_ids(t, sport_id).contains(k) {
                            let j = choose|j: int| 0 <= j < t.len() && currently_live(#[trigger] t[j], sport_id) && as_str(member(t[j], "id"@)) == Some(k);
                            assert(j != i);
                            assert(ms.take(i as int)[j] == t[j]);
                        }
                        if before.contains(k) {
                            let j = choose|j: int| 0 <= j < i && currently_live(#[trigger] ms.take(i as int)[j], sport_id) && as_str(member(ms.take(i as int)[j], "id"@)) == Some(k);
                            assert(t[j] == ms.take(i as int)[j]);
                        }
                    }
                    assert(live_ids(t, sport_id) =~= before);
                },
            }
        } else {
            assert forall|k: Seq<char>| live_ids(t, sport_id).contains(k) == before.contains(k) by {
                if live_ids(t, sport_id).contains(k) {
                    let j = choose|j: int| 0 <= j < t.len() && currently_live(#[trigger] t[j], sport_id) && as_str(member(t[j], "id"@)) == Some(k);
                    assert(j != i);
                    assert(ms.take(i as int)[j] == t[j]);
                }
                if before.contains(k) {
                    let j = choose|j: int| 0 <= j < i && currently_live(#[trigger] ms.take(i as int)[j], sport_id) && as_str(member(ms.take(i as int)[j], "id"@)) == Some(k);
                    assert(t[j] == ms.take(i as int)[j]);
                }
            }
            assert(live_ids(t, sport_id) =~= before);
        }
        i = i + 1;
    }
    assert(ms.take(ms.len() as int) =~= ms);
    out
}

/// The previously live matches to mark as no longer live: those the new
/// snapshot does not list as live.
pub fn matches_to_hide(matches: &Vec<Json>, sport_id: i32, previous_live: &Vec<String>) -> (r: Vec<String>)
    ensures
        crate::crawler::snapshot::texts(r@) == to_hide(
            crate::crawler::snapshot::texts(previous_live@),
            live_ids(items_view(matches@), sport_id),
        ),
{
    let live = live_id_list(matches, sport_id);
    let ghost lset = live_ids(items_view(matches@), sport_id);
    let ghost prev = crate::crawler::snapshot::texts(previous_live@);
    let mut out: Vec<String> = Vec::new();
    let mut i: usize = 0;
    while i < previous_live.len()
        invariant
            i <= previous_live.len(),
            names(live@) == lset,
            prev == crate::crawler::snapshot::texts(previous_live@),
            crate::crawler::snapshot::texts(out@) == to_hide(prev.take(i as int), lset),
        decreases previous_live.len() - i,
    {
        let ghost t = prev.take(i + 1);
        assert(t.drop_last() =~= prev.take(i as int));
        assert(t.last() == previous_live@[i as int]@);
        if !contains_name(&live, previous_live[i].as_str()) {
            out.push(owned(previous_live[i].as_str()));
        }
        i = i + 1;
        assert(crate::crawler::snapshot::texts(out@) =~= to_hide(prev.take(i as int), lset));
    }
    assert(prev.take(prev.len() as int) =~= prev);
    out
}

proof fn lemma_push_contains(s: Seq<Seq<char>>, x: Seq<char>, k: Seq<char>)
    ensures
        s.push(x).contains(k) <==> (s.contains(k) || k == x),
{
    if s.contains(k) {
        let j = choose|j: int| 0 <= j < s.len() && s[j] == k;
        assert(s.push(x)[j] == k);
    }
    if k == x {
        assert(s.push(x)[s.len() as int] == k);
    }
    if s.push(x).contains(k) && k != x {
        let j = choose|j: int| 0 <= j < s.len() + 1 && s.push(x)[j] == k;
        assert(j < s.len());
        assert(s[j] == k);
    }
}

/// Every previously live match that the snapshot does not list as live is
/// hidden, and no match that it lists as live is.
pub proof fn hidden_matches_are_exactly_the_absent_ones(previous: Seq<Seq<char>>, live: Set<Seq<char>>)
    ensures
        forall|k: Seq<char>| #[trigger] to_hide(previous, live).contains(k) <==> (previous.contains(k) && !live.contains(k)),
    decreases previous.len(),
{
    if previous.len() > 0 {
        let p = previous.drop_last();
        let x = previous.last();
        hidden_matches_are_exactly_the_absent_ones(p, live);
        assert(previous =~= p.push(x));
        assert forall|k: Seq<char>| #[trigger] to_hide(previous, live).contains(k) <==> (previous.contains(k) && !live.contains(k)) by {
            lemma_push_contains(p, x, k);
            lemma_push_contains(to_hide(p, live), x, k);
            assert(to_hide(p, live).contains(k) <==> (p.contains(k) && !live.contains(k)));
        }
    }
}

/// A detail as stored: its sections and source as JSON text.
#[derive(Debug, Clone)]
pub struct DetailRow {
    pub incidents: String,
    pub stats: String,
    pub lineups: String,
    pub odds: String,
    pub h2h: String,
    pub raw_payload: String,
}

pub open spec fn detail_row_of(r: DetailRow, d: JsonV) -> bool {
    let s = sanitized(d);
    &&& r.incidents@ == canon(member(s, "incidents"@))
    &&& r.stats@ == canon(member(s, "stats"@))
    &&& r.lineups@ == canon(member(s, "lineups"@))
    &&& r.odds@ == canon(member(s, "odds"@))
    &&& r.h2h@ == canon(member(s, "h2h"@))
    &&& r.raw_payload@ == canon(s)
}

fn member_text(v: &Json, k: &str) -> (r: String)
    ensures
        r@ == canon(member(v@, k@)),
{
    match get_member(v, k) {
        Some(x) => json_text(x),
        None => json_text(&Json::Null),
    }
}

pub fn detail_row(detail: &Json) -> (r: DetailRow)
    ensures
        detail_row_of(r, detail@),
{
    let s = sanitize_payload(json_clone(detail));
    DetailRow {
        incidents: member_text(&s, "incidents"),
        stats: member_text(&s, "stats"),
        lineups: member_text(&s, "lineups"),
        odds: member_text(&s, "odds"),
        h2h: member_text(&s, "h2h"),
        raw_payload: json_text(&s),
    }
}

pub open spec fn same_detail(a: DetailRow, b: DetailRow) -> bool {
    &&& a.incidents@ == b.incidents@
    &&& a.stats@ == b.stats@
    &&& a.lineups@ == b.lineups@
    &&& a.odds@ == b.odds@
    &&& a.h2h@ == b.h2h@
    &&& a.raw_payload@ == b.raw_payload@
}

pub fn detail_action(row: &DetailRow, existing: Option<&DetailRow>) -> (r: RowAction)
    ensures
        r == match existing {
            None => RowAction::Insert,
            Some(e) => if same_detail(*e, *row) {
                RowAction::Keep
            } else {
                RowAction::Update
            },
        },
{
    match existing {
        None => RowAction::Insert,
        Some(e) => {
            let same = str_eq(e.incidents.as_str(), row.incidents.as_str()) && str_eq(
                e.stats.as_str(),
                row.stats.as_str(),
            ) && str_eq(e.lineups.as_str(), row.lineups.as_str()) && str_eq(
                e.odds.as_str(),
                row.odds.as_str(),
            ) && str_eq(e.h2h.as_str(), row.h2h.as_str()) && str_eq(
                e.raw_payload.as_str(),
                row.raw_payload.as_str(),
            );
            if same {
                RowAction::Keep
            } else {
                RowAction::Update
            }
        },
    }
}

/// The detail page address of a match.
pub open spec fn detail_page(sport_id: i32, home_slug: Seq<char>, away_slug: Seq<char>, match_id: Seq<char>) -> Seq<char> {
    if sport_id == 1 {
        "https://m.aiscore.com/match-"@ + home_slug + "-"@ + away_slug + "/"@ + match_id
    } else {
        "https://m.aiscore.com/match-basketball-"@ + home_slug + "-"@ + away_slug + "/"@ + match_id
    }
}

/// Whether an address looks like a chat page.
pub open spec fn chat_like(url: Seq<char>) -> bool {
    contains_seq(url, "chat"@) || contains_seq(url, "message"@) || contains_seq(url, "comment"@)
}

/// The detail page to open for a match, or `None` when the address looks
/// like a chat page.
pub fn detail_url(sport_id: i32, home_slug: &str, away_slug: &str, match_id: &str) -> (r: Option<String>)
    ensures
        match r {
            Some(u) => u@ == detail_page(sport_id, home_slug@, away_slug@, match_id@) && !chat_like(u@),
            None => chat_like(detail_page(sport_id, home_slug@, away_slug@, match_id@)),
        },
{
    let mut out: Vec<char> = Vec::new();
    if sport_id == 1 {
        extend_str(&mut out, "https://m.aiscore.com/match-");
    } else {
        extend_str(&mut out, "https://m.aiscore.com/match-basketball-");
    }
    extend_str(&mut out, home_slug);
    extend_str(&mut out, "-");
    extend_str(&mut out, away_slug);
    extend_str(&mut out, "/");
    extend_str(&mut out, match_id);
    if contains_str(&out, "chat") || contains_str(&out, "message") || contains_str(&out, "comment") {
        return None;
    }
    Some(string_from_chars(&out))
}

} // verus!
