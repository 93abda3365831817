use vstd::prelude::*;
use crate::detail::types::{DetailSection, ImageCandidate};
use crate::digest::{md5_digest, md5_hex};
use crate::json::{
    canon, fields_view, get, items_view, json_clone, json_int, json_text, json_view,
    lemma_fields_view, lemma_items_view, as_str, int_text_of, get_member, member_str, Json, JsonV,
};
use crate::text::{
    chars_of, contains_seq, contains_str, ends_with, ends_with_str, extend_str, hex_bytes,
    starts_with, starts_with_str, string_from_chars,
};
use vstd::utf8::encode_utf8;

verus! {

/// A remote image address that is replaced by a local asset reference.
pub open spec fn image_url(s: Seq<char>) -> bool {
    &&& (starts_with(s, "http://"@) || starts_with(s, "https://"@))
    &&& (contains_seq(s, "/logo/"@) || contains_seq(s, "/team/"@) || contains_seq(s, "/player/"@)
        || contains_seq(s, "/image/"@) || ends_with(s, ".png"@) || ends_with(s, ".jpg"@)
        || ends_with(s, ".jpeg"@) || ends_with(s, ".webp"@) || ends_with(s, ".gif"@))
}

pub fn is_image_url(s: &str) -> (r: bool)
    ensures
        r == image_url(s@),
{
    let c = chars_of(s);
    (starts_with_str(&c, "http://") || starts_with_str(&c, "https://")) && (contains_str(
        &c,
        "/logo/",
    ) || contains_str(&c, "/team/") || contains_str(&c, "/player/") || contains_str(&c, "/image/")
        || ends_with_str(&c, ".png") || ends_with_str(&c, ".jpg") || ends_with_str(&c, ".jpeg")
        || ends_with_str(&c, ".webp") || ends_with_str(&c, ".gif"))
}

/// The placeholder that stands for an image URL until its asset is stored:
/// `asset-` and the MD5 of the URL.
pub open spec fn placeholder_of(url: Seq<char>) -> Seq<char> {
    "asset-"@ + hex_bytes(md5_digest(encode_utf8(url)))
}

pub fn placeholder_for(url: &str) -> (r: String)
    ensures
        r@ == placeholder_of(url@),
{
    let h = md5_hex(url.as_bytes());
    let mut v: Vec<char> = Vec::new();
    extend_str(&mut v, "asset-");
    extend_str(&mut v, h.as_str());
    string_from_chars(&v)
}

/// The payload with every image URL replaced by its placeholder.
pub open spec fn img_v(j: JsonV) -> JsonV
    decreases j, 0nat,
{
    match j {
        JsonV::Array(items) => JsonV::Array(img_list(items)),
        JsonV::Object(f) => JsonV::Object(img_fields(f)),
        _ => j,
    }
}

pub open spec fn img_list(s: Seq<JsonV>) -> Seq<JsonV>
    decreases s, 0nat,
{
    if s.len() == 0 {
        Seq::empty()
    } else {
        img_list(s.drop_last()).push(img_v(s.last()))
    }
}

pub open spec fn img_member(v: JsonV) -> JsonV
    decreases v, 1nat,
{
    match v {
        JsonV::Str(s) => if image_url(s) {
            JsonV::Str(placeholder_of(s))
        } else {
            v
        },
        _ => img_v(v),
    }
}

pub open spec fn img_fields(s: Seq<(Seq<char>, JsonV)>) -> Seq<(Seq<char>, JsonV)>
    decreases s, 0nat,
{
    if s.len() == 0 {
        Seq::empty()
    } else {
        img_fields(s.drop_last()).push((s.last().0, img_member(s.last().1)))
    }
}

/// The image URLs of a payload with the member names that hold them, in
/// document order.
pub open spec fn img_cands(j: JsonV) -> Seq<(Seq<char>, Seq<char>)>
    decreases j, 0nat,
{
    match j {
        JsonV::Array(items) => img_cands_list(items),
        JsonV::Object(f) => img_cands_fields(f),
        _ => Seq::empty(),
    }
}

pub open spec fn img_cands_list(s: Seq<JsonV>) -> Seq<(Seq<char>, Seq<char>)>
    decreases s, 0nat,
{
    if s.len() == 0 {
        Seq::empty()
    } else {
        img_cands_list(s.drop_last()) + img_cands(s.last())
    }
}

pub open spec fn img_cands_member(k: Seq<char>, v: JsonV) -> Seq<(Seq<char>, Seq<char>)>
    decreases v, 1nat,
{
    match v {
        JsonV::Str(s) => if image_url(s) {
            seq![(s, k)]
        } else {
            Seq::empty()
        },
        _ => img_cands(v),
    }
}

pub open spec fn img_cands_fields(s: Seq<(Seq<char>, JsonV)>) -> Seq<(Seq<char>, Seq<char>)>
    decreases s, 0nat,
{
    if s.len() == 0 {
        Seq::empty()
    } else {
        img_cands_fields(s.drop_last()) + img_cands_member(s.last().0, s.last().1)
    }
}

/// An image candidate as (url, entity type, entity id, role).
pub open spec fn cand_view(c: ImageCandidate) -> (Seq<char>, Seq<char>, Seq<char>, Seq<char>) {
    (c.url@, c.entity_type@, c.entity_id@, c.role@)
}

pub open spec fn cands_view(v: Seq<ImageCandidate>) -> Seq<
    (Seq<char>, Seq<char>, Seq<char>, Seq<char>),
> {
    v.map_values(|c: ImageCandidate| cand_view(c))
}

/// The candidates a section yields: the member name is both entity id and
/// role.
pub open spec fn as_candidates(s: Seq<(Seq<char>, Seq<char>)>, section: Seq<char>) -> Seq<
    (Seq<char>, Seq<char>, Seq<char>, Seq<char>),
> {
    s.map_values(|p: (Seq<char>, Seq<char>)| (p.0, section, p.1, p.1))
}

proof fn lemma_as_candidates_add(
    a: Seq<(Seq<char>, Seq<char>)>,
    b: Seq<(Seq<char>, Seq<char>)>,
    section: Seq<char>,
)
    ensures
        as_candidates(a + b, section) == as_candidates(a, section) + as_candidates(b, section),
{
    assert(as_candidates(a + b, section) =~= as_candidates(a, section) + as_candidates(
        b,
        section,
    ));
}

fn push_candidate(out: &mut Vec<ImageCandidate>, c: ImageCandidate)
    ensures
        cands_view(final(out)@) == cands_view(old(out)@).push(cand_view(c)),
{
    out.push(c);
    assert(cands_view(out@) =~= cands_view(old(out)@).push(cand_view(c)));
}

/// Replaces image URLs by placeholders and records each as a candidate.
fn extract_images(j: &Json, section: &str, out: &mut Vec<ImageCandidate>) -> (r: Json)
    ensures
        r@ == img_v(j@),
        cands_view(final(out)@) == cands_view(old(out)@) + as_candidates(img_cands(j@), section@),
    decreases j, 0nat,
{
    match j {
        Json::Array(items) => {
            let mut res: Vec<Json> = Vec::new();
            let mut i: usize = 0;
            proof {
                lemma_items_view(items@);
            }
            let ghost start = cands_view(out@);
            while i < items.len()
                invariant
                    *j == Json::Array(*items),
                    i <= items.len(),
                    items_view(items@).len() == items@.len(),
                    forall|k: int|
                        0 <= k < items@.len() ==> #[trigger] items_view(items@)[k] == json_view(
                            items@[k],
                        ),
                    items_view(res@) == img_list(items_view(items@).take(i as int)),
                    cands_view(out@) == start + as_candidates(
                        img_cands_list(items_view(items@).take(i as int)),
                        section@,
                    ),
                decreases items.len() - i,
            {
                proof {
                    assert(decreases_to!(*j => (*j)->Array_0));
                    assert(decreases_to!(*items => items@));
                    assert(decreases_to!(items@ => items@[i as int]));
                }
                let ghost mid = cands_view(out@);
                let x = extract_images(&items[i], section, out);
                let ghost before = res@;
                res.push(x);
                proof {
                    assert(res@.drop_last() =~= before);
                    let t = items_view(items@).take(i + 1);
                    assert(t.drop_last() =~= items_view(items@).take(i as int));
                    lemma_as_candidates_add(
                        img_cands_list(t.drop_last()),
                        img_cands(t.last()),
                        section@,
                    );
                }
                i = i + 1;
            }
            assert(items_view(items@).take(items.len() as int) =~= items_view(items@));
            Json::Array(res)
        },
        Json::Object(fields) => {
            let mut res: Vec<(String, Json)> = Vec::new();
            let mut i: usize = 0;
            proof {
                lemma_fields_view(fields@);
            }
            let ghost start = cands_view(out@);
            while i < fields.len()
                invariant
                    *j == Json::Object(*fields),
                    i <= fields.len(),
                    fields_view(fields@).len() == fields@.len(),
                    forall|k: int|
                        0 <= k < fields@.len() ==> #[trigger] fields_view(fields@)[k] == (
                            fields@[k].0@,
                            json_view(fields@[k].1),
                        ),
                    fields_view(res@) == img_fields(fields_view(fields@).take(i as int)),
                    cands_view(out@) == start + as_candidates(
                        img_cands_fields(fields_view(fields@).take(i as int)),
                        section@,
                    ),
                decreases fields.len() - i,
            {
                proof {
                    assert(decreases_to!(*j => (*j)->Object_0));
                    assert(decreases_to!(*fields => fields@));
                    assert(decreases_to!(fields@ => fields@[i as int]));
                    assert(decreases_to!(fields@[i as int] => fields@[i as int].1));
                }
                let key = fields[i].0.clone();
                let ghost t = fields_view(fields@).take(i + 1);
                proof {
                    assert(t.drop_last() =~= fields_view(fields@).take(i as int));
                }
                let value: Json = match &fields[i].1 {
                    Json::Str(s) => {
                        if is_image_url(s.as_str()) {
                            let p = placeholder_for(s.as_str());
                            let c = ImageCandidate {
                                url: s.clone(),
                                entity_type: crate::text::owned(section),
                                entity_id: key.clone(),
                                role: key.clone(),
                            };
                            push_candidate(out, c);
                            proof {
                                assert(as_candidates(seq![(s@, key@)], section@) =~= seq![
                                    (s@, section@, key@, key@),
                                ]);
                            }
                            assert(t.last().1 == JsonV::Str(s@));
                            Json::Str(p)
                        } else {
                            proof {
                                assert(as_candidates(Seq::empty(), section@) =~= Seq::empty());
                                assert(cands_view(out@) =~= cands_view(out@) + Seq::empty());
                            }
                            assert(t.last().1 == JsonV::Str(s@));
                            Json::Str(s.clone())
                        }
                    },
                    other => {
                        let r = extract_images(other, section, out);
                        assert(t.last().1 == json_view(*other));
                        assert(!(json_view(*other) is Str));
                        r
                    },
                };
                assert(value@ == img_member(t.last().1));
                let ghost before = res@;
                res.push((key, value));
                proof {
                    assert(res@.drop_last() =~= before);
                    lemma_as_candidates_add(
                        img_cands_fields(t.drop_last()),
                        img_cands_member(t.last().0, t.last().1),
                        section@,
                    );
                }
                i = i + 1;
            }
            assert(fields_view(fields@).take(fields.len() as int) =~= fields_view(fields@));
            Json::Object(res)
        },
        Json::Null => {
            assert(cands_view(out@) =~= cands_view(old(out)@) + as_candidates(Seq::empty(), section@));
            Json::Null
        },
        Json::Bool(b) => {
            assert(cands_view(out@) =~= cands_view(old(out)@) + as_candidates(Seq::empty(), section@));
            Json::Bool(*b)
        },
        Json::Number(t) => {
            assert(cands_view(out@) =~= cands_view(old(out)@) + as_candidates(Seq::empty(), section@));
            Json::Number(t.clone())
        },
        Json::Str(x) => {
            assert(cands_view(out@) =~= cands_view(old(out)@) + as_candidates(Seq::empty(), section@));
            Json::Str(x.clone())
        },
    }
}


/// `payload[a].as_str()`, else `payload[b].as_str()`, else empty.
pub open spec fn text_or_empty2(p: JsonV, a: Seq<char>, b: Seq<char>) -> Seq<char> {
    match as_str(crate::json::member(p, a)) {
        Some(s) => s,
        None => match as_str(crate::json::member(p, b)) {
            Some(s) => s,
            None => Seq::empty(),
        },
    }
}

pub open spec fn text_or_empty(p: JsonV, a: Seq<char>) -> Seq<char> {
    match as_str(crate::json::member(p, a)) {
        Some(s) => s,
        None => Seq::empty(),
    }
}

/// `payload.get(key)`, or the given default.
pub open spec fn get_or(p: JsonV, k: Seq<char>, d: JsonV) -> JsonV {
    match get(p, k) {
        Some(v) => v,
        None => d,
    }
}

/// The raw data of one section, before image extraction.
pub open spec fn section_raw(sport_id: i32, section: DetailSection, p: JsonV) -> JsonV {
    match section {
        DetailSection::Overview => JsonV::Object(
            seq![
                ("matchId"@, JsonV::Str(text_or_empty2(p, "matchId"@, "match_id"@))),
                ("name"@, JsonV::Str(text_or_empty(p, "name"@))),
                ("sportId"@, JsonV::Number(int_text_of(sport_id as int))),
            ],
        ),
        DetailSection::Odds => get_or(p, "odds"@, JsonV::Object(Seq::empty())),
        DetailSection::H2H => get_or(p, "h2h"@, JsonV::Object(Seq::empty())),
        DetailSection::Lineups => get_or(p, "lineups"@, JsonV::Object(Seq::empty())),
        DetailSection::Stats => get_or(p, "stats"@, JsonV::Object(Seq::empty())),
        DetailSection::Incidents => get_or(p, "incidents"@, JsonV::Array(Seq::empty())),
    }
}

fn str_or_empty2(p: &Json, a: &str, b: &str) -> (r: String)
    ensures
        r@ == text_or_empty2(p@, a@, b@),
{
    match member_str(p, a) {
        Some(s) => s.clone(),
        None => match member_str(p, b) {
            Some(s) => s.clone(),
            None => String::new(),
        },
    }
}

fn str_or_empty(p: &Json, a: &str) -> (r: String)
    ensures
        r@ == text_or_empty(p@, a@),
{
    match member_str(p, a) {
        Some(s) => s.clone(),
        None => String::new(),
    }
}

fn clone_or(p: &Json, k: &str, d: Json) -> (r: Json)
    ensures
        r@ == get_or(p@, k@, d@),
{
    match get_member(p, k) {
        Some(v) => json_clone(v),
        None => d,
    }
}

/// The data of one section with its image URLs replaced by placeholders,
/// and the image candidates found, in document order.
pub fn extract_section_data(sport_id: i32, section: DetailSection, full_payload: &Json) -> (r: (
    Json,
    Vec<ImageCandidate>,
))
    ensures
        r.0@ == img_v(section_raw(sport_id, section, full_payload@)),
        cands_view(r.1@) == as_candidates(
            img_cands(section_raw(sport_id, section, full_payload@)),
            crate::detail::types::section_name(section),
        ),
{
    let raw = match section {
        DetailSection::Overview => {
            let mid = str_or_empty2(full_payload, "matchId", "match_id");
            let name = str_or_empty(full_payload, "name");
            let mut f: Vec<(String, Json)> = Vec::new();
            f.push((crate::text::owned("matchId"), Json::Str(mid)));
            f.push((crate::text::owned("name"), Json::Str(name)));
            f.push((crate::text::owned("sportId"), json_int(sport_id as i64)));
            let ghost fv = f@;
            proof {
                lemma_fields_view(f@);
                assert(fields_view(f@) =~= seq![
                    ("matchId"@, JsonV::Str(text_or_empty2(full_payload@, "matchId"@, "match_id"@))),
                    ("name"@, JsonV::Str(text_or_empty(full_payload@, "name"@))),
                    ("sportId"@, JsonV::Number(int_text_of(sport_id as int))),
                ]);
            }
            Json::Object(f)
        },
        DetailSection::Odds => clone_or(full_payload, "odds", Json::Object(Vec::new())),
        DetailSection::H2H => clone_or(full_payload, "h2h", Json::Object(Vec::new())),
        DetailSection::Lineups => clone_or(full_payload, "lineups", Json::Object(Vec::new())),
        DetailSection::Stats => clone_or(full_payload, "stats", Json::Object(Vec::new())),
        DetailSection::Incidents => clone_or(full_payload, "incidents", Json::Array(Vec::new())),
    };
    proof {
        assert(fields_view(Seq::<(String, Json)>::empty()) =~= Seq::empty());
        assert(items_view(Seq::<Json>::empty()) =~= Seq::empty());
    }
    assert(raw@ == section_raw(sport_id, section, full_payload@));
    let mut candidates: Vec<ImageCandidate> = Vec::new();
    let data = extract_images(&raw, section.as_str(), &mut candidates);
    proof {
        assert(cands_view(Seq::<ImageCandidate>::empty()) =~= Seq::empty());
        assert(cands_view(candidates@) =~= as_candidates(
            img_cands(section_raw(sport_id, section, full_payload@)),
            crate::detail::types::section_name(section),
        ));
    }
    (data, candidates)
}

/// The content hash of a section: MD5 hex of its JSON text.
pub open spec fn section_hash(v: JsonV) -> Seq<char> {
    hex_bytes(md5_digest(encode_utf8(crate::domain::events::canonical_text(v))))
}

pub fn compute_hash(val: &Json) -> (r: String)
    ensures
        r@ == section_hash(val@),
{
    let t = crate::domain::events::canonical_json(val);
    md5_hex(t.as_str().as_bytes())
}

/// A member that is missing, not an array, or an empty array.
pub open spec fn empty_list_member(f: Seq<(Seq<char>, JsonV)>, k: Seq<char>) -> bool {
    match crate::json::lookup(f, k) {
        Some(JsonV::Array(a)) => a.len() == 0,
        _ => true,
    }
}

/// Whether a section carries no data.
pub open spec fn section_empty(section: DetailSection, v: JsonV) -> bool {
    match v {
        JsonV::Null => true,
        JsonV::Array(a) => a.len() == 0,
        JsonV::Object(f) => if f.len() == 0 {
            true
        } else {
            match section {
                DetailSection::Lineups => empty_list_member(f, "home"@) && empty_list_member(
                    f,
                    "away"@,
                ),
                DetailSection::H2H => empty_list_member(f, "history"@),
                _ => false,
            }
        },
        JsonV::Str(s) => s.len() == 0,
        _ => false,
    }
}

/// Whether `v` has a member `k` that is a non-empty list.
pub open spec fn has_items(v: JsonV, k: Seq<char>) -> bool {
    crate::json::get(v, k) matches Some(JsonV::Array(a)) && a.len() > 0
}

/// When a section counts as empty.  Null, an empty list, an empty object
/// and an empty string are empty, and a non-empty list is not.  A head to
/// head object has data exactly when its `history` list has items; a
/// lineups object exactly when its `home` or `away` list has items; any
/// other section's non-empty object has data.
pub proof fn section_emptiness(section: DetailSection, v: JsonV)
    ensures
        v == JsonV::Null ==> section_empty(section, v),
        v matches JsonV::Array(a) ==> (section_empty(section, v) <==> a.len() == 0),
        v matches JsonV::Object(f) && f.len() == 0 ==> section_empty(section, v),
        v matches JsonV::Str(t) ==> (section_empty(section, v) <==> t.len() == 0),
        v matches JsonV::Object(f) && f.len() > 0 && section == DetailSection::H2H ==> (section_empty(
            section,
            v,
        ) <==> !has_items(v, "history"@)),
        v matches JsonV::Object(f) && f.len() > 0 && section == DetailSection::Lineups ==> (
        section_empty(section, v) <==> !(has_items(v, "home"@) || has_items(v, "away"@))),
        v matches JsonV::Object(f) && f.len() > 0 && section != DetailSection::H2H && section
            != DetailSection::Lineups ==> !section_empty(section, v),
{
}

fn empty_list_member_exec(fields: &Vec<(String, Json)>, k: &str) -> (r: bool)
    ensures
        r == empty_list_member(fields_view(fields@), k@),
{
    match crate::json::find_field(fields, k) {
        Some(Json::Array(a)) => {
            proof {
                lemma_items_view(a@);
            }
            a.len() == 0
        },
        _ => true,
    }
}

pub fn is_section_empty(section: DetailSection, val: &Json) -> (r: bool)
    ensures
        r == section_empty(section, val@),
{
    match val {
        Json::Null => true,
        Json::Array(arr) => {
            proof {
                lemma_items_view(arr@);
            }
            arr.len() == 0
        },
        Json::Object(map) => {
            proof {
                lemma_fields_view(map@);
            }
            if map.len() == 0 {
                return true;
            }
            match section {
                DetailSection::Lineups => empty_list_member_exec(map, "home")
                    && empty_list_member_exec(map, "away"),
                DetailSection::H2H => empty_list_member_exec(map, "history"),
                _ => false,
            }
        },
        Json::Str(s) => s.as_str().is_empty(),
        _ => false,
    }
}

/// The data-bearing tabs of a detail page, clicked in this order.  Chat is
/// deliberately absent.
pub fn detail_data_tab_labels() -> (r: Vec<&'static str>)
    ensures
        r@.len() == 7,
        r@[0]@ == "Overview"@,
        r@[1]@ == "Odds"@,
        r@[2]@ == "Stats"@,
        r@[3]@ == "H2H"@,
        r@[4]@ == "Lineups"@,
        r@[5]@ == "Standings"@,
        r@[6]@ == "Prediction"@,
{
    let mut v = Vec::new();
    v.push("Overview");
    v.push("Odds");
    v.push("Stats");
    v.push("H2H");
    v.push("Lineups");
    v.push("Standings");
    v.push("Prediction");
    v
}

/// The store key of a sport's detail state.
pub open spec fn detail_store_key(sport_id: i32) -> Seq<char> {
    if sport_id == 2 {
        "basketball/detail"@
    } else {
        "football/detail"@
    }
}

fn store_key_for(sport_id: i32) -> (r: &'static str)
    ensures
        r@ == detail_store_key(sport_id),
{
    if sport_id == 2 {
        "basketball/detail"
    } else {
        "football/detail"
    }
}

/// The JSON array text of the tab labels.
pub open spec fn labels_json() -> Seq<char> {
    canon(
        JsonV::Array(
            seq![
                JsonV::Str("Overview"@),
                JsonV::Str("Odds"@),
                JsonV::Str("Stats"@),
                JsonV::Str("H2H"@),
                JsonV::Str("Lineups"@),
                JsonV::Str("Standings"@),
                JsonV::Str("Prediction"@),
            ],
        ),
    )
}

fn labels_json_text() -> (r: String)
    ensures
        r@ == labels_json(),
{
    let mut items: Vec<Json> = Vec::new();
    items.push(Json::Str(crate::text::owned("Overview")));
    items.push(Json::Str(crate::text::owned("Odds")));
    items.push(Json::Str(crate::text::owned("Stats")));
    items.push(Json::Str(crate::text::owned("H2H")));
    items.push(Json::Str(crate::text::owned("Lineups")));
    items.push(Json::Str(crate::text::owned("Standings")));
    items.push(Json::Str(crate::text::owned("Prediction")));
    let a = Json::Array(items);
    proof {
        lemma_items_view(items@);
        assert(items_view(items@) =~= seq![
            JsonV::Str("Overview"@),
            JsonV::Str("Odds"@),
            JsonV::Str("Stats"@),
            JsonV::Str("H2H"@),
            JsonV::Str("Lineups"@),
            JsonV::Str("Standings"@),
            JsonV::Str("Prediction"@),
        ]);
    }
    json_text(&a)
}

/// The text of the `detail_activate_tabs_js` script around its inserted values.
pub open spec fn tabs_script(labels: Seq<char>, requested: Seq<char>, store_key: Seq<char>) -> Seq<char> {
    r#"(async function() {
            const allowed = "#@
        + labels
        + r#";
            const requestedMatchId = "#@
        + requested
        + r#";
            const normalize = value => String(value || "")
                .replace(/\s+/g, " ").trim().toLowerCase();
            const clicked = [];
            const snapshots = {};
            const clone = value => {
                try { return JSON.parse(JSON.stringify(value)); } catch (_) { return {}; }
            };
            const capture = label => {
                const store = window.$nuxt && window.$nuxt.$store;
                const state = store && store.state && store.state['"#@
        + store_key
        + r#"'];
                if (state && typeof state === 'object') snapshots[label] = clone(state);
            };
            capture('Initial');
            for (const label of allowed) {
                const wanted = normalize(label);
                const candidates = Array.from(document.querySelectorAll(
                    '[role="tab"], button, a, [class*="tab"], [class*="menu"]'
                ));
                const element = candidates.find(node => {
                    const text = normalize(node.innerText || node.textContent);
                    const aria = normalize(node.getAttribute && node.getAttribute('aria-label'));
                    const visible = node.getClientRects && node.getClientRects().length > 0;
                    return visible && (text === wanted || aria === wanted);
                });
                if (!element) continue;
                element.click();
                clicked.push(label);
                await new Promise(resolve => setTimeout(resolve, 900));
                capture(label);
            }
            window.__crawlerActivatedDetailTabs = clicked;
            window.__crawlerDetailTabSnapshots = snapshots;
            return { matchId: requestedMatchId, clicked, captured: Object.keys(snapshots) };
        })()"#@
}

/// The text of the `detail_extract_js` script around its inserted values.
pub open spec fn extract_script(requested: Seq<char>, store_key: Seq<char>, sport: Seq<char>) -> Seq<char> {
    r#"(function() {
            if (!window.$nuxt || !window.$nuxt.$store) return null;
            const rootState = window.$nuxt.$store.state || {};
            const requestedMatchId = "#@
        + requested
        + r#";
            const readMatchId = value => {
                if (!value || typeof value !== 'object') return '';
                return String(value.matchId || value.match_id ||
                    (value.match && value.match.id) ||
                    (value.matchInfo && value.matchInfo.id) || '');
            };
            const preferred = rootState['"#@
        + store_key
        + r#"'];
            const candidates = [preferred, ...Object.entries(rootState)
                .filter(([key, value]) => value && typeof value === 'object' &&
                    (key.toLowerCase().includes('detail') || key.toLowerCase().includes('match')))
                .map(([, value]) => value)]
                .filter(Boolean);
            const detailState = candidates.find(value => readMatchId(value) === requestedMatchId) || preferred || {};
            const matchId = readMatchId(detailState);
            if (!matchId) return null;
            const tabSnapshots = window.__crawlerDetailTabSnapshots || {};
            const sources = [detailState, ...Object.values(tabSnapshots)].filter(value => value && typeof value === 'object');
            const meaningful = value => value !== undefined && value !== null && value !== '' &&
                (!Array.isArray(value) || value.length > 0) &&
                (typeof value !== 'object' || Array.isArray(value) || Object.keys(value).length > 0);
            const pick = keys => {
                for (const source of sources) {
                    for (const key of keys) {
                        if (meaningful(source[key])) return source[key];
                    }
                }
                return undefined;
            };
            const blocked = key => {
                const lower = String(key || '').toLowerCase();
                return lower.includes('ch' + 'at') || lower.includes('mes' + 'sage') || lower.includes('com' + 'ment');
            };
            const stripBlocked = (value, depth) => {
                if (depth > 12 || value === null || value === undefined) return value;
                if (Array.isArray(value)) return value.map(item => stripBlocked(item, depth + 1));
                if (typeof value !== 'object') return value;
                const cleaned = {};
                for (const [key, item] of Object.entries(value)) {
                    if (!blocked(key)) cleaned[key] = stripBlocked(item, depth + 1);
                }
                return cleaned;
            };
            return {
                matchId: matchId,
                sportId: "#@
        + sport
        + r#",
                name: detailState.name || "",
                incidents: stripBlocked(pick(['incidents', 'INCIDENTS_DETAIL_DATA', 'incidentList', 'events']) || [], 0),
                stats: stripBlocked(pick(['stats', 'STATS_DETAIL_DATA', 'statistics']) || {}, 0),
                lineups: stripBlocked(pick(['lineups', 'LINEUPS_DETAIL_DATA', 'lineup']) || {}, 0),
                odds: stripBlocked(pick(['ODDS_DETAIL_DATA', 'odds', 'oddsData']) || {}, 0),
                h2h: stripBlocked(pick(['HISTORY_DETAIL_DATA', 'h2h', 'history', 'headToHead']) || {}, 0),
                activatedTabs: window.__crawlerActivatedDetailTabs || [],
                tabData: stripBlocked(tabSnapshots, 0),
                sourceDetail: stripBlocked(detailState, 0)
            };
        })()"#@
}


/// The script that clicks the allowed data tabs of a detail page and
/// snapshots the detail store after each click.
pub fn detail_activate_tabs_js(sport_id: i32, match_id: &str) -> (r: String)
    ensures
        r@ == tabs_script(
            labels_json(),
            crate::json::json_quoted(match_id@),
            detail_store_key(sport_id),
        ),
{
    let labels = labels_json_text();
    let requested = crate::json::quote_json(match_id);
    let store_key = store_key_for(sport_id);
    let mut out: Vec<char> = Vec::new();
    extend_str(&mut out, r#"(async function() {
            const allowed = "#);
    extend_str(&mut out, labels.as_str());
    extend_str(&mut out, r#";
            const requestedMatchId = "#);
    extend_str(&mut out, requested.as_str());
    extend_str(&mut out, r#";
            const normalize = value => String(value || "")
                .replace(/\s+/g, " ").trim().toLowerCase();
            const clicked = [];
            const snapshots = {};
            const clone = value => {
                try { return JSON.parse(JSON.stringify(value)); } catch (_) { return {}; }
            };
            const capture = label => {
                const store = window.$nuxt && window.$nuxt.$store;
                const state = store && store.state && store.state['"#);
    extend_str(&mut out, store_key);
    extend_str(&mut out, r#"'];
                if (state && typeof state === 'object') snapshots[label] = clone(state);
            };
            capture('Initial');
            for (const label of allowed) {
                const wanted = normalize(label);
                const candidates = Array.from(document.querySelectorAll(
                    '[role="tab"], button, a, [class*="tab"], [class*="menu"]'
                ));
                const element = candidates.find(node => {
                    const text = normalize(node.innerText || node.textContent);
                    const aria = normalize(node.getAttribute && node.getAttribute('aria-label'));
                    const visible = node.getClientRects && node.getClientRects().length > 0;
                    return visible && (text === wanted || aria === wanted);
                });
                if (!element) continue;
                element.click();
                clicked.push(label);
                await new Promise(resolve => setTimeout(resolve, 900));
                capture(label);
            }
            window.__crawlerActivatedDetailTabs = clicked;
            window.__crawlerDetailTabSnapshots = snapshots;
            return { matchId: requestedMatchId, clicked, captured: Object.keys(snapshots) };
        })()"#);
    string_from_chars(&out)
}

/// The script that reads the requested match's detail state, with
/// chat-like members stripped.
pub fn detail_extract_js(sport_id: i32, requested_match_id: &str) -> (r: String)
    ensures
        r@ == extract_script(
            crate::json::json_quoted(requested_match_id@),
            detail_store_key(sport_id),
            int_text_of(sport_id as int),
        ),
{
    let store_key = store_key_for(sport_id);
    let requested = crate::json::quote_json(requested_match_id);
    let sport = crate::json::int_to_text(sport_id as i64);
    let mut out: Vec<char> = Vec::new();
    extend_str(&mut out, r#"(function() {
            if (!window.$nuxt || !window.$nuxt.$store) return null;
            const rootState = window.$nuxt.$store.state || {};
            const requestedMatchId = "#);
    extend_str(&mut out, requested.as_str());
    extend_str(&mut out, r#";
            const readMatchId = value => {
                if (!value || typeof value !== 'object') return '';
                return String(value.matchId || value.match_id ||
                    (value.match && value.match.id) ||
                    (value.matchInfo && value.matchInfo.id) || '');
            };
            const preferred = rootState['"#);
    extend_str(&mut out, store_key);
    extend_str(&mut out, r#"'];
            const candidates = [preferred, ...Object.entries(rootState)
                .filter(([key, value]) => value && typeof value === 'object' &&
                    (key.toLowerCase().includes('detail') || key.toLowerCase().includes('match')))
                .map(([, value]) => value)]
                .filter(Boolean);
            const detailState = candidates.find(value => readMatchId(value) === requestedMatchId) || preferred || {};
            const matchId = readMatchId(detailState);
            if (!matchId) return null;
            const tabSnapshots = window.__crawlerDetailTabSnapshots || {};
            const sources = [detailState, ...Object.values(tabSnapshots)].filter(value => value && typeof value === 'object');
            const meaningful = value => value !== undefined && value !== null && value !== '' &&
                (!Array.isArray(value) || value.length > 0) &&
                (typeof value !== 'object' || Array.isArray(value) || Object.keys(value).length > 0);
            const pick = keys => {
                for (const source of sources) {
                    for (const key of keys) {
                        if (meaningful(source[key])) return source[key];
                    }
                }
                return undefined;
            };
            const blocked = key => {
                const lower = String(key || '').toLowerCase();
                return lower.includes('ch' + 'at') || lower.includes('mes' + 'sage') || lower.includes('com' + 'ment');
            };
            const stripBlocked = (value, depth) => {
                if (depth > 12 || value === null || value === undefined) return value;
                if (Array.isArray(value)) return value.map(item => stripBlocked(item, depth + 1));
                if (typeof value !== 'object') return value;
                const cleaned = {};
                for (const [key, item] of Object.entries(value)) {
                    if (!blocked(key)) cleaned[key] = stripBlocked(item, depth + 1);
                }
                return cleaned;
            };
            return {
                matchId: matchId,
                sportId: "#);
    extend_str(&mut out, sport.as_str());
    extend_str(&mut out, r#",
                name: detailState.name || "",
                incidents: stripBlocked(pick(['incidents', 'INCIDENTS_DETAIL_DATA', 'incidentList', 'events']) || [], 0),
                stats: stripBlocked(pick(['stats', 'STATS_DETAIL_DATA', 'statistics']) || {}, 0),
                lineups: stripBlocked(pick(['lineups', 'LINEUPS_DETAIL_DATA', 'lineup']) || {}, 0),
                odds: stripBlocked(pick(['ODDS_DETAIL_DATA', 'odds', 'oddsData']) || {}, 0),
                h2h: stripBlocked(pick(['HISTORY_DETAIL_DATA', 'h2h', 'history', 'headToHead']) || {}, 0),
                activatedTabs: window.__crawlerActivatedDetailTabs || [],
                tabData: stripBlocked(tabSnapshots, 0),
                sourceDetail: stripBlocked(detailState, 0)
            };
        })()"#);
    string_from_chars(&out)
}

}
