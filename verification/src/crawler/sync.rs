//! The sync worker's decisions: the uploader lease, when a batch is sent,
//! which replies are trusted, which rows a reply acknowledges, and how long
//! to wait; and the database identity guard.
use vstd::prelude::*;
use crate::crawler::cli::{parse_i64, parsed_i64};
use crate::domain::events::opt_string_view;
use crate::json::{fields_view, int_text_of, json_int, lemma_fields_view, Json, JsonV};
use crate::text::{contains_name, names, owned, str_eq};

verus! {

/// How long a claimed uploader lease lasts, in seconds.
pub const LEASE_SECONDS: i64 = 45;

/// The lease may be taken by `client` at `now`: nobody holds it, the client
/// itself holds it, or it has expired.
pub open spec fn lease_free(owner: Seq<char>, client: Seq<char>, now: int, expires: int) -> bool {
    owner.len() == 0 || owner == client || now > expires
}

/// The stored expiry: the setting as an integer, 0 when missing or not a
/// number.
pub open spec fn stored_expiry(text: Option<Seq<char>>) -> int {
    match text {
        Some(t) => match parsed_i64(t) {
            Some(v) => v,
            None => 0,
        },
        None => 0,
    }
}

/// Decides a lease claim from the stored owner and expiry: the new expiry
/// when the lease is granted, `None` when another client holds it.
pub fn claim_lease(owner: &str, client_id: &str, now: i64, expires_text: Option<&str>) -> (r: Option<i64>)
    requires
        now + LEASE_SECONDS <= i64::MAX,
    ensures
        match r {
            Some(e) => lease_free(
                owner@,
                client_id@,
                now as int,
                stored_expiry(match expires_text {
                    Some(t) => Some(t@),
                    None => None,
                }),
            ) && e == now + LEASE_SECONDS,
            None => !lease_free(
                owner@,
                client_id@,
                now as int,
                stored_expiry(match expires_text {
                    Some(t) => Some(t@),
                    None => None,
                }),
            ),
        },
{
    let expires: i64 = match expires_text {
        Some(t) => match parse_i64(t) {
            Some(v) => v,
            None => 0,
        },
        None => 0,
    };
    if owner.is_empty() || str_eq(owner, client_id) || now > expires {
        Some(now + LEASE_SECONDS)
    } else {
        None
    }
}

/// While one client holds an unexpired lease, no other client can take it;
/// once it has expired, any client can.
pub proof fn lease_is_exclusive_until_expiry(
    holder: Seq<char>,
    other: Seq<char>,
    now: int,
    expires: int,
)
    requires
        holder.len() > 0,
        holder != other,
    ensures
        now <= expires ==> !lease_free(holder, other, now, expires),
        now > expires ==> lease_free(holder, other, now, expires),
        lease_free(holder, holder, now, expires),
{
}

/// Sync runs only with a worker address, a token and an active dataset.
pub fn sync_configured(worker_url: &str, api_token: &str, dataset_id: &str) -> (r: bool)
    ensures
        r == (worker_url@.len() > 0 && api_token@.len() > 0 && dataset_id@.len() > 0),
{
    !worker_url.is_empty() && !api_token.is_empty() && !dataset_id.is_empty()
}

/// A batch is sent when a sport's readiness is pending or any rows are
/// dirty.
pub fn batch_has_work(
    readiness_pending: bool,
    competitions: usize,
    teams: usize,
    matches: usize,
    details: usize,
) -> (r: bool)
    ensures
        r == (readiness_pending || competitions > 0 || teams > 0 || matches > 0 || details > 0),
{
    readiness_pending || competitions > 0 || teams > 0 || matches > 0 || details > 0
}

/// The upload service's reply.
pub struct SyncReply {
    pub success: bool,
    pub dataset_id: Option<String>,
    pub sync_id: Option<String>,
    pub sync_interval_mins: Option<u64>,
    pub has_synced_ids: bool,
}

/// A reply is trusted only when it reports success for this dataset and
/// this request, and lists what it stored.
pub open spec fn reply_accepted(reply: SyncReply, dataset_id: Seq<char>, sync_id: Seq<char>) -> bool {
    &&& reply.success
    &&& opt_string_view(reply.dataset_id) == Some(dataset_id)
    &&& opt_string_view(reply.sync_id) == Some(sync_id)
    &&& reply.has_synced_ids
}

pub fn accept_reply(reply: &SyncReply, dataset_id: &str, sync_id: &str) -> (r: bool)
    ensures
        r == reply_accepted(*reply, dataset_id@, sync_id@),
{
    if !reply.success || !reply.has_synced_ids {
        return false;
    }
    let d = match &reply.dataset_id {
        Some(d) => str_eq(d.as_str(), dataset_id),
        None => false,
    };
    let s = match &reply.sync_id {
        Some(s) => str_eq(s.as_str(), sync_id),
        None => false,
    };
    d && s
}

/// The positions of the sent rows whose ids the reply lists as stored, in
/// order.
pub open spec fn acked_positions(row_ids: Seq<Seq<char>>, stored: Set<Seq<char>>) -> Seq<int>
    decreases row_ids.len(),
{
    if row_ids.len() == 0 {
        Seq::empty()
    } else if stored.contains(row_ids.last()) {
        acked_positions(row_ids.drop_last(), stored).push(row_ids.len() - 1)
    } else {
        acked_positions(row_ids.drop_last(), stored)
    }
}

/// Which sent rows to mark as synced.
pub fn rows_to_acknowledge(row_ids: &Vec<String>, stored: &Vec<String>) -> (r: Vec<usize>)
    ensures
        r@.len() == acked_positions(crate::crawler::snapshot::texts(row_ids@), names(stored@)).len(),
        forall|j: int|
            0 <= j < r@.len() ==> r@[j] as int == #[trigger] acked_positions(
                crate::crawler::snapshot::texts(row_ids@),
                names(stored@),
            )[j],
{
    let ghost ids = crate::crawler::snapshot::texts(row_ids@);
    let mut out: Vec<usize> = Vec::new();
    let mut i: usize = 0;
    while i < row_ids.len()
        invariant
            i <= row_ids.len(),
            ids == crate::crawler::snapshot::texts(row_ids@),
            out@.len() == acked_positions(ids.take(i as int), names(stored@)).len(),
            forall|j: int|
                0 <= j < out@.len() ==> out@[j] as int == #[trigger] acked_positions(
                    ids.take(i as int),
                    names(stored@),
                )[j],
        decreases row_ids.len() - i,
    {
        let ghost t = ids.take(i + 1);
        assert(t.drop_last() =~= ids.take(i as int));
        assert(t.last() == row_ids@[i as int]@);
        if contains_name(stored, row_ids[i].as_str()) {
            out.push(i);
        }
        i = i + 1;
    }
    assert(ids.take(ids.len() as int) =~= ids);
    out
}

/// Every acknowledged row is one the reply stored, and every stored row
/// that was sent is acknowledged.
pub proof fn acknowledged_rows_are_the_stored_ones(row_ids: Seq<Seq<char>>, stored: Set<Seq<char>>)
    ensures
        forall|j: int|
            0 <= j < acked_positions(row_ids, stored).len() ==> {
                let p = #[trigger] acked_positions(row_ids, stored)[j];
                0 <= p < row_ids.len() && stored.contains(row_ids[p])
            },
        forall|p: int|
            0 <= p < row_ids.len() && stored.contains(#[trigger] row_ids[p]) ==> acked_positions(
                row_ids,
                stored,
            ).contains(p),
    decreases row_ids.len(),
{
    if row_ids.len() > 0 {
        let prev = row_ids.drop_last();
        acknowledged_rows_are_the_stored_ones(prev, stored);
        let a = acked_positions(prev, stored);
        assert forall|j: int| 0 <= j < a.len() implies prev[a[j]] == row_ids[a[j]] by {}
        assert forall|p: int|
            0 <= p < row_ids.len() && stored.contains(#[trigger] row_ids[p]) implies acked_positions(
            row_ids,
            stored,
        ).contains(p) by {
            if p < prev.len() {
                assert(prev[p] == row_ids[p]);
                let j = choose|j: int| 0 <= j < a.len() && a[j] == p;
                if stored.contains(row_ids.last()) {
                    assert(a.push(row_ids.len() - 1)[j] == p);
                }
            } else {
                assert(a.push(row_ids.len() - 1)[a.len() as int] == p);
            }
        }
    }
}

/// The body of one upload, members in key order: the capture time, the
/// four row lists, the dataset's creation time, id and generation, protocol
/// version 2, the sport and the sync id.
pub open spec fn upload_payload_spec(
    sync_id: Seq<char>,
    dataset_id: Seq<char>,
    created_at: Seq<char>,
    generation_order: i64,
    sport_id: i32,
    captured_at: Seq<char>,
    competitions: JsonV,
    teams: JsonV,
    matches: JsonV,
    details: JsonV,
) -> JsonV {
    JsonV::Object(
        seq![
            ("captured_at"@, JsonV::Str(captured_at)),
            ("competitions"@, competitions),
            ("dataset_created_at"@, JsonV::Str(created_at)),
            ("dataset_id"@, JsonV::Str(dataset_id)),
            ("generation_order"@, JsonV::Number(int_text_of(generation_order as int))),
            ("match_details"@, details),
            ("matches"@, matches),
            ("protocol_version"@, JsonV::Number(int_text_of(2))),
            ("sport_id"@, JsonV::Number(int_text_of(sport_id as int))),
            ("sync_id"@, JsonV::Str(sync_id)),
            ("teams"@, teams),
        ],
    )
}

/// Builds the body of one upload from the batch's row lists.
pub fn upload_payload(
    sync_id: &str,
    dataset_id: &str,
    created_at: &str,
    generation_order: i64,
    sport_id: i32,
    captured_at: &str,
    competitions: Json,
    teams: Json,
    matches: Json,
    details: Json,
) -> (r: Json)
    ensures
        r@ == upload_payload_spec(
            sync_id@,
            dataset_id@,
            created_at@,
            generation_order,
            sport_id,
            captured_at@,
            competitions@,
            teams@,
            matches@,
            details@,
        ),
{
    let ghost (cv, tv, mv, dv) = (competitions@, teams@, matches@, details@);
    let mut f: Vec<(String, Json)> = Vec::new();
    f.push((owned("captured_at"), Json::Str(owned(captured_at))));
    f.push((owned("competitions"), competitions));
    f.push((owned("dataset_created_at"), Json::Str(owned(created_at))));
    f.push((owned("dataset_id"), Json::Str(owned(dataset_id))));
    f.push((owned("generation_order"), json_int(generation_order)));
    f.push((owned("match_details"), details));
    f.push((owned("matches"), matches));
    f.push((owned("protocol_version"), json_int(2)));
    f.push((owned("sport_id"), json_int(sport_id as i64)));
    f.push((owned("sync_id"), Json::Str(owned(sync_id))));
    f.push((owned("teams"), teams));
    proof {
        lemma_fields_view(f@);
        assert(fields_view(f@) =~= seq![
            ("captured_at"@, JsonV::Str(captured_at@)),
            ("competitions"@, cv),
            ("dataset_created_at"@, JsonV::Str(created_at@)),
            ("dataset_id"@, JsonV::Str(dataset_id@)),
            ("generation_order"@, JsonV::Number(int_text_of(generation_order as int))),
            ("match_details"@, dv),
            ("matches"@, mv),
            ("protocol_version"@, JsonV::Number(int_text_of(2))),
            ("sport_id"@, JsonV::Number(int_text_of(sport_id as int))),
            ("sync_id"@, JsonV::Str(sync_id@)),
            ("teams"@, tv),
        ]);
    }
    Json::Object(f)
}

/// How many times one batch is offered to the endpoint in a cycle.
pub const UPLOAD_ATTEMPTS: u32 = 5;

/// Whether the upload attempt numbered `attempt` (from zero) is made: the
/// first `UPLOAD_ATTEMPTS` are, later ones are not.
pub fn upload_attempt_allowed(attempt: u32) -> (r: bool)
    ensures
        r == (attempt < UPLOAD_ATTEMPTS),
{
    attempt < UPLOAD_ATTEMPTS
}

/// The delay before the next upload attempt after a failed one.
pub fn next_backoff_secs(backoff: u64) -> (r: u64)
    requires
        backoff <= u64::MAX / 2,
    ensures
        r == backoff * 2,
{
    backoff * 2
}

/// How long the worker waits before its next cycle, in milliseconds: a
/// quarter second right after an upload or a busy lease (to drain what is
/// left), else the sync interval.
pub fn sync_pause_ms(uploaded: bool, retry_soon: bool, interval_mins: u64) -> (r: u64)
    requires
        interval_mins <= 60,
    ensures
        r == if uploaded || retry_soon {
            250
        } else {
            interval_mins * 60000
        },
{
    if uploaded || retry_soon {
        250
    } else {
        interval_mins * 60000
    }
}

/// The database is still the one this process opened: the file exists, has
/// the identity recorded at start, and names the expected dataset.
pub open spec fn same_database(
    exists: bool,
    current: Option<(u64, u64)>,
    expected: Option<(u64, u64)>,
    stored_dataset_id: Option<Seq<char>>,
    expected_dataset_id: Seq<char>,
) -> bool {
    exists && current == expected && stored_dataset_id == Some(expected_dataset_id)
}

pub fn verify_db_identity(
    exists: bool,
    current: Option<(u64, u64)>,
    expected: Option<(u64, u64)>,
    stored_dataset_id: Option<&str>,
    expected_dataset_id: &str,
) -> (r: bool)
    ensures
        r == same_database(
            exists,
            current,
            expected,
            match stored_dataset_id {
                Some(s) => Some(s@),
                None => None,
            },
            expected_dataset_id@,
        ),
{
    if !exists {
        return false;
    }
    let same_identity = match (current, expected) {
        (Some((a, b)), Some((c, d))) => a == c && b == d,
        (None, None) => true,
        _ => false,
    };
    if !same_identity {
        return false;
    }
    match stored_dataset_id {
        Some(s) => str_eq(s, expected_dataset_id),
        None => false,
    }
}

/// The shape of RFC 3339 UTC text with milliseconds, whatever the year:
/// the year (at least four characters), then `-MM-DDTHH:MM:SS.mmmZ`.
pub open spec fn rfc3339_millis_shape(s: Seq<char>) -> bool {
    let n = s.len() as int;
    let d = |i: int| crate::text::is_ascii_digit(s[n - i]);
    &&& n >= 24
    &&& s[n - 20] == '-' && d(19) && d(18)
    &&& s[n - 17] == '-' && d(16) && d(15)
    &&& s[n - 14] == 'T' && d(13) && d(12)
    &&& s[n - 11] == ':' && d(10) && d(9)
    &&& s[n - 8] == ':' && d(7) && d(6)
    &&& s[n - 5] == '.' && d(4) && d(3) && d(2)
    &&& s[n - 1] == 'Z'
}

/// The RFC 3339 text (UTC, milliseconds, `Z`) of a Unix time in
/// milliseconds, when chrono can represent it.
pub uninterp spec fn rfc3339_millis(ms: int) -> Option<Seq<char>>;

/// Calls `chrono::DateTime::from_timestamp_millis` and formats the result
/// with `to_rfc3339_opts(SecondsFormat::Millis, true)`, which writes the
/// year, two digits for each of month, day, hour, minute and second, three
/// for the milliseconds and `Z` for the UTC offset.
#[verifier::external_body]
fn millis_to_rfc3339(ms: i64) -> (r: Option<String>)
    ensures
        opt_string_view(r) == rfc3339_millis(ms as int),
        r matches Some(t) ==> rfc3339_millis_shape(t@),
{
    chrono::DateTime::from_timestamp_millis(ms).map(
        |d| d.to_rfc3339_opts(chrono::SecondsFormat::Millis, true),
    )
}

/// Calls `chrono::Utc::now` and formats it like `millis_to_rfc3339`; the
/// time depends on the clock, so only the text's shape is stated.
#[verifier::external_body]
fn now_rfc3339_millis() -> (r: String)
    ensures
        rfc3339_millis_shape(r@),
{
    chrono::Utc::now().to_rfc3339_opts(chrono::SecondsFormat::Millis, true)
}

/// When a snapshot was captured: its own timestamp, or the current time
/// when it has none that chrono can represent.  Either way the text is
/// RFC 3339 UTC with milliseconds.
pub fn captured_at(timestamp: Option<i64>) -> (r: String)
    ensures
        timestamp matches Some(t) ==> (rfc3339_millis(t as int) is Some ==> Some(r@)
            == rfc3339_millis(t as int)),
        rfc3339_millis_shape(r@),
{
    match timestamp {
        Some(t) => match millis_to_rfc3339(t) {
            Some(s) => s,
            None => now_rfc3339_millis(),
        },
        None => now_rfc3339_millis(),
    }
}

} // verus!
