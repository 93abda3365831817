use vstd::prelude::*;
use crate::text::{
    chars_eq, chars_of, extend_str, is_ascii_digit, lemma_seq_order, lemma_seq_order_transitive,
    order_chars, seq_order, string_from_chars,
};

verus! {

/// A JSON document.  Object members are kept in ascending key order with
/// every key at most once, which is how the feed's JSON maps iterate.
#[derive(Debug)]
pub enum Json {
    Null,
    Bool(bool),
    /// A number, held as its JSON text.
    Number(String),
    Str(String),
    Array(Vec<Json>),
    Object(Vec<(String, Json)>),
}

/// The mathematical value of a JSON document.
pub enum JsonV {
    Null,
    Bool(bool),
    Number(Seq<char>),
    Str(Seq<char>),
    Array(Seq<JsonV>),
    Object(Seq<(Seq<char>, JsonV)>),
}

pub open spec fn json_view(j: Json) -> JsonV
    decreases j,
{
    match j {
        Json::Null => JsonV::Null,
        Json::Bool(b) => JsonV::Bool(b),
        Json::Number(t) => JsonV::Number(t@),
        Json::Str(s) => JsonV::Str(s@),
        Json::Array(items) => JsonV::Array(items_view(items@)),
        Json::Object(fields) => JsonV::Object(fields_view(fields@)),
    }
}

pub open spec fn items_view(s: Seq<Json>) -> Seq<JsonV>
    decreases s,
{
    if s.len() == 0 {
        Seq::empty()
    } else {
        items_view(s.drop_last()).push(json_view(s.last()))
    }
}

pub open spec fn fields_view(s: Seq<(String, Json)>) -> Seq<(Seq<char>, JsonV)>
    decreases s,
{
    if s.len() == 0 {
        Seq::empty()
    } else {
        fields_view(s.drop_last()).push((s.last().0@, json_view(s.last().1)))
    }
}

impl View for Json {
    type V = JsonV;

    open spec fn view(&self) -> JsonV {
        json_view(*self)
    }
}

pub proof fn lemma_items_view(s: Seq<Json>)
    ensures
        items_view(s).len() == s.len(),
        forall|i: int| 0 <= i < s.len() ==> #[trigger] items_view(s)[i] == json_view(s[i]),
    decreases s.len(),
{
    if s.len() > 0 {
        lemma_items_view(s.drop_last());
    }
}

pub proof fn lemma_fields_view(s: Seq<(String, Json)>)
    ensures
        fields_view(s).len() == s.len(),
        forall|i: int|
            0 <= i < s.len() ==> #[trigger] fields_view(s)[i] == (s[i].0@, json_view(s[i].1)),
    decreases s.len(),
{
    if s.len() > 0 {
        lemma_fields_view(s.drop_last());
    }
}

/// How `serde_json` writes one character inside a string literal: quote and
/// backslash escaped, the five named control characters as `\b \t \n \f
/// \r`, the other controls below 0x20 as `\u00` and two lowercase hex
/// digits, everything else as itself.
pub open spec fn json_escaped_char(c: char) -> Seq<char> {
    let n = c as u32;
    if c == '"' {
        seq!['\\', '"']
    } else if c == '\\' {
        seq!['\\', '\\']
    } else if n == 0x08 {
        seq!['\\', 'b']
    } else if n == 0x09 {
        seq!['\\', 't']
    } else if n == 0x0a {
        seq!['\\', 'n']
    } else if n == 0x0c {
        seq!['\\', 'f']
    } else if n == 0x0d {
        seq!['\\', 'r']
    } else if n < 0x20 {
        seq!['\\', 'u', '0', '0', crate::text::hex_digit((n / 16) as int), crate::text::hex_digit(
            (n % 16) as int,
        )]
    } else {
        seq![c]
    }
}

/// Every character of `s` escaped, in order.
pub open spec fn json_escaped(s: Seq<char>) -> Seq<char>
    decreases s.len(),
{
    if s.len() == 0 {
        Seq::empty()
    } else {
        json_escaped(s.drop_last()) + json_escaped_char(s.last())
    }
}

/// `serde_json`'s quoting of a string as a JSON string literal.
pub open spec fn json_quoted(s: Seq<char>) -> Seq<char> {
    seq!['"'] + json_escaped(s) + seq!['"']
}

/// Calls `serde_json::to_string` on a string slice: the JSON string literal
/// of `s`, escaped as `json_escaped_char` says (its escape table works on
/// bytes, but only ASCII bytes are escaped, so it works per character).
/// Serializing a `str` into memory has no error path in serde_json, so the
/// default is never used.
#[verifier::external_body]
pub(crate) fn quote_json(s: &str) -> (r: String)
    ensures
        r@ == json_quoted(s@),
{
    serde_json::to_string(s).unwrap_or_default()
}

/// Declares `serde_json::Value`, the parser's output, opaque to proofs.
#[verifier::external_type_specification]
#[verifier::external_body]
pub struct ExJsonValue(serde_json::Value);

/// The outcome of parsing a JSON text: the document, or the parser's error
/// message.  It depends on the text alone.
pub uninterp spec fn json_parse(text: Seq<char>) -> Result<JsonV, Seq<char>>;

/// A parse result by its views.
pub open spec fn parse_view(p: Result<Json, String>) -> Result<JsonV, Seq<char>> {
    match p {
        Ok(j) => Ok(j@),
        Err(e) => Err(e@),
    }
}

/// Turns a parsed `serde_json::Value` into a document, one value for one:
/// numbers keep their text, members keep the map's order.
#[verifier::external_body]
fn value_to_json(v: &serde_json::Value) -> Json {
    match v {
        serde_json::Value::Null => Json::Null,
        serde_json::Value::Bool(b) => Json::Bool(*b),
        serde_json::Value::Number(n) => Json::Number(n.to_string()),
        serde_json::Value::String(t) => Json::Str(t.clone()),
        serde_json::Value::Array(a) => Json::Array(a.iter().map(value_to_json).collect()),
        serde_json::Value::Object(m) => Json::Object(
            m.iter().map(|(k, x)| (k.clone(), value_to_json(x))).collect(),
        ),
    }
}

/// Calls `serde_json::from_str::<Value>` on `text`: the parsed document, or
/// the error's message (`Display` of `serde_json::Error`).  Both depend on
/// the text alone, so the result is named `json_parse`.
#[verifier::external_body]
pub(crate) fn parse_json_text(text: &str) -> (r: Result<Json, String>)
    ensures
        parse_view(r) == json_parse(text@),
{
    match serde_json::from_str::<serde_json::Value>(text) {
        Ok(v) => Ok(value_to_json(&v)),
        Err(e) => Err(e.to_string()),
    }
}

/// Compact JSON text of a value, members in their stored order: what
/// `serde_json` prints for its ordered maps.
pub open spec fn canon(j: JsonV) -> Seq<char>
    decreases j, 0nat,
{
    match j {
        JsonV::Null => "null"@,
        JsonV::Bool(b) => if b {
            "true"@
        } else {
            "false"@
        },
        JsonV::Number(t) => t,
        JsonV::Str(s) => json_quoted(s),
        JsonV::Array(items) => "["@ + canon_list(items) + "]"@,
        JsonV::Object(fields) => "{"@ + canon_fields(fields) + "}"@,
    }
}

pub open spec fn canon_list(s: Seq<JsonV>) -> Seq<char>
    decreases s, 0nat,
{
    if s.len() == 0 {
        Seq::empty()
    } else if s.len() == 1 {
        canon(s[0])
    } else {
        canon_list(s.drop_last()) + ","@ + canon(s.last())
    }
}

pub open spec fn canon_field(k: Seq<char>, v: JsonV) -> Seq<char>
    decreases v, 1nat,
{
    json_quoted(k) + ":"@ + canon(v)
}

pub open spec fn canon_fields(s: Seq<(Seq<char>, JsonV)>) -> Seq<char>
    decreases s, 0nat,
{
    if s.len() == 0 {
        Seq::empty()
    } else if s.len() == 1 {
        canon_field(s[0].0, s[0].1)
    } else {
        canon_fields(s.drop_last()) + ","@ + canon_field(s.last().0, s.last().1)
    }
}

/// Appends the compact JSON text of `j` to `out`.
pub fn write_json(j: &Json, out: &mut Vec<char>)
    ensures
        final(out)@ == old(out)@ + canon(j@),
    decreases j,
{
    match j {
        Json::Null => extend_str(out, "null"),
        Json::Bool(b) => {
            if *b {
                extend_str(out, "true")
            } else {
                extend_str(out, "false")
            }
        },
        Json::Number(t) => extend_str(out, t.as_str()),
        Json::Str(s) => {
            let q = quote_json(s.as_str());
            extend_str(out, q.as_str());
        },
        Json::Array(items) => {
            extend_str(out, "[");
            let ghost start = out@;
            let mut i: usize = 0;
            proof {
                lemma_items_view(items@);
            }
            while i < items.len()
                invariant
                    *j == Json::Array(*items),
                    i <= items.len(),
                    items_view(items@).len() == items@.len(),
                    forall|k: int|
                        0 <= k < items@.len() ==> #[trigger] items_view(items@)[k] == json_view(
                            items@[k],
                        ),
                    out@ == start + canon_list(items_view(items@).take(i as int)),
                decreases items.len() - i,
            {
                let ghost before = out@;
                if i > 0 {
                    extend_str(out, ",");
                }
                proof {
                    assert(decreases_to!(*j => (*j)->Array_0));
                    assert(decreases_to!(*items => items@));
                    assert(decreases_to!(items@ => items@[i as int]));
                }
                write_json(&items[i], out);
                proof {
                    let t = items_view(items@).take(i + 1);
                    assert(t.drop_last() =~= items_view(items@).take(i as int));
                    assert(t.last() == json_view(items@[i as int]));
                    if i == 0 {
                        assert(canon_list(t) == canon(t[0]));
                        assert(out@ =~= start + canon_list(t));
                    } else {
                        assert(out@ =~= start + canon_list(t));
                    }
                }
                i = i + 1;
            }
            assert(items_view(items@).take(items.len() as int) =~= items_view(items@));
            extend_str(out, "]");
            assert(out@ =~= old(out)@ + canon(j@));
        },
        Json::Object(fields) => {
            extend_str(out, "{");
            let ghost start = out@;
            let mut i: usize = 0;
            proof {
                lemma_fields_view(fields@);
            }
            while i < fields.len()
                invariant
                    *j == Json::Object(*fields),
                    i <= fields.len(),
                    fields_view(fields@).len() == fields@.len(),
                    forall|k: int|
                        0 <= k < fields@.len() ==> #[trigger] fields_view(fields@)[k] == (
                            fields@[k].0@,
                            json_view(fields@[k].1),
                        ),
                    out@ == start + canon_fields(fields_view(fields@).take(i as int)),
                decreases fields.len() - i,
            {
                if i > 0 {
                    extend_str(out, ",");
                }
                let q = quote_json(fields[i].0.as_str());
                extend_str(out, q.as_str());
                extend_str(out, ":");
                proof {
                    assert(decreases_to!(*j => (*j)->Object_0));
                    assert(decreases_to!(*fields => fields@));
                    assert(decreases_to!(fields@ => fields@[i as int]));
                    assert(decreases_to!(fields@[i as int] => fields@[i as int].1));
                }
                write_json(&fields[i].1, out);
                proof {
                    let t = fields_view(fields@).take(i + 1);
                    assert(t.drop_last() =~= fields_view(fields@).take(i as int));
                    assert(t.last() == (fields@[i as int].0@, json_view(fields@[i as int].1)));
                    if i == 0 {
                        assert(canon_fields(t) == canon_field(t[0].0, t[0].1));
                        assert(out@ =~= start + canon_fields(t));
                    } else {
                        assert(canon_fields(t) == canon_fields(t.drop_last()) + ","@ + canon_field(
                            t.last().0,
                            t.last().1,
                        ));
                        assert(canon_field(t.last().0, t.last().1) == json_quoted(t.last().0)
                            + ":"@ + canon(t.last().1));
                        assert(out@ =~= start + canon_fields(t));
                    }
                }
                i = i + 1;
            }
            assert(fields_view(fields@).take(fields.len() as int) =~= fields_view(fields@));
            extend_str(out, "}");
            assert(out@ =~= old(out)@ + canon(j@));
        },
    }
}

/// Compact JSON text of a value (`Value::to_string`).
pub fn json_text(j: &Json) -> (r: String)
    ensures
        r@ == canon(j@),
{
    let mut out: Vec<char> = Vec::new();
    write_json(j, &mut out);
    assert(out@ =~= canon(j@));
    string_from_chars(&out)
}


/// Strict lexicographic order of keys by character code (the order of
/// Rust `String` keys).
pub open spec fn key_lt(a: Seq<char>, b: Seq<char>) -> bool {
    seq_order(a, b) < 0
}

/// First member named `k`.
pub open spec fn lookup(f: Seq<(Seq<char>, JsonV)>, k: Seq<char>) -> Option<JsonV>
    decreases f.len(),
{
    if f.len() == 0 {
        None
    } else if f[0].0 == k {
        Some(f[0].1)
    } else {
        lookup(f.drop_first(), k)
    }
}

/// `Value::get` with a string key: the member of an object.
pub open spec fn get(j: JsonV, k: Seq<char>) -> Option<JsonV> {
    match j {
        JsonV::Object(f) => lookup(f, k),
        _ => None,
    }
}

/// `value[key]`: the member, or null when absent or not an object.
pub open spec fn member(j: JsonV, k: Seq<char>) -> JsonV {
    match get(j, k) {
        Some(v) => v,
        None => JsonV::Null,
    }
}

pub open spec fn as_str(j: JsonV) -> Option<Seq<char>> {
    match j {
        JsonV::Str(s) => Some(s),
        _ => None,
    }
}

pub open spec fn is_null(j: JsonV) -> bool {
    j is Null
}

/// Decimal value of a digit string.
pub open spec fn digits_value(s: Seq<char>) -> int
    decreases s.len(),
{
    if s.len() == 0 {
        0
    } else {
        digits_value(s.drop_last()) * 10 + ((s.last() as u32) - 48)
    }
}

pub open spec fn all_digit_chars(s: Seq<char>) -> bool {
    forall|i: int| 0 <= i < s.len() ==> is_ascii_digit(#[trigger] s[i])
}

/// The integer written by a JSON integer text (`-`? digits).
pub open spec fn int_text(t: Seq<char>) -> Option<int> {
    if t.len() > 0 && t[0] == '-' {
        let d = t.drop_first();
        if d.len() > 0 && all_digit_chars(d) {
            Some(-digits_value(d))
        } else {
            None
        }
    } else if t.len() > 0 && all_digit_chars(t) {
        Some(digits_value(t))
    } else {
        None
    }
}

/// `Value::as_i64`: an integer number that fits in an `i64`.
pub open spec fn as_i64(j: JsonV) -> Option<int> {
    match j {
        JsonV::Number(t) => match int_text(t) {
            Some(v) => if i64::MIN <= v && v <= i64::MAX {
                Some(v)
            } else {
                None
            },
            None => None,
        },
        _ => None,
    }
}

pub open spec fn as_bool(j: JsonV) -> Option<bool> {
    match j {
        JsonV::Bool(b) => Some(b),
        _ => None,
    }
}

/// Finds the first member of `fields` named `key`.
pub fn find_field<'a>(fields: &'a Vec<(String, Json)>, key: &str) -> (r: Option<&'a Json>)
    ensures
        match r {
            Some(v) => lookup(fields_view(fields@), key@) == Some(v@),
            None => lookup(fields_view(fields@), key@) is None,
        },
{
    let k = chars_of(key);
    let mut i: usize = 0;
    proof {
        lemma_fields_view(fields@);
        assert(fields_view(fields@).subrange(0, fields@.len() as int) =~= fields_view(fields@));
    }
    while i < fields.len()
        invariant
            i <= fields.len(),
            k@ == key@,
            fields_view(fields@).len() == fields@.len(),
            forall|m: int|
                0 <= m < fields@.len() ==> #[trigger] fields_view(fields@)[m] == (
                    fields@[m].0@,
                    json_view(fields@[m].1),
                ),
            lookup(fields_view(fields@), key@) == lookup(
                fields_view(fields@).subrange(i as int, fields@.len() as int),
                key@,
            ),
        decreases fields.len() - i,
    {
        let name = chars_of(fields[i].0.as_str());
        let ghost rest = fields_view(fields@).subrange(i as int, fields@.len() as int);
        assert(rest[0] == fields_view(fields@)[i as int]);
        if chars_eq(&name, &k) {
            return Some(&fields[i].1);
        }
        assert(rest.drop_first() =~= fields_view(fields@).subrange(i + 1, fields@.len() as int));
        i = i + 1;
    }
    None
}

/// `Value::get(key)`.
pub fn get_member<'a>(j: &'a Json, key: &str) -> (r: Option<&'a Json>)
    ensures
        match r {
            Some(v) => get(j@, key@) == Some(v@),
            None => get(j@, key@) is None,
        },
{
    match j {
        Json::Object(fields) => find_field(fields, key),
        _ => None,
    }
}

/// `value[key].as_str()`.
pub fn member_str<'a>(j: &'a Json, key: &str) -> (r: Option<&'a String>)
    ensures
        match r {
            Some(s) => as_str(member(j@, key@)) == Some(s@),
            None => as_str(member(j@, key@)) is None,
        },
{
    match get_member(j, key) {
        Some(Json::Str(s)) => Some(s),
        _ => None,
    }
}

pub fn json_as_str(j: &Json) -> (r: Option<&String>)
    ensures
        match r {
            Some(s) => as_str(j@) == Some(s@),
            None => as_str(j@) is None,
        },
{
    match j {
        Json::Str(s) => Some(s),
        _ => None,
    }
}

/// Parses the text of an integer JSON number into an `i64`.
pub fn parse_i64_text(t: &str) -> (r: Option<i64>)
    ensures
        match r {
            Some(v) => int_text(t@) == Some(v as int),
            None => int_text(t@) is None || (int_text(t@) matches Some(v) && (v < i64::MIN || v
                > i64::MAX)),
        },
{
    let cs = chars_of(t);
    let negative = cs.len() > 0 && cs[0] == '-';
    let start: usize = if negative {
        1
    } else {
        0
    };
    if cs.len() <= start {
        proof {
            if negative {
                assert(cs@.drop_first().len() == 0);
            }
        }
        return None;
    }
    let ghost d = cs@.subrange(start as int, cs@.len() as int);
    proof {
        if negative {
            assert(d =~= cs@.drop_first());
        } else {
            assert(d =~= cs@);
        }
    }
    let mut acc: u64 = 0;
    let mut i: usize = start;
    let mut overflow = false;
    while i < cs.len()
        invariant
            start <= i <= cs.len(),
            start < cs.len(),
            cs@ == t@,
            negative == (cs@.len() > 0 && cs@[0] == '-'),
            start == (if negative {
                1usize
            } else {
                0usize
            }),
            d == cs@.subrange(start as int, cs@.len() as int),
            forall|m: int| start <= m < i ==> is_ascii_digit(#[trigger] cs@[m]),
            !overflow ==> acc as int == digits_value(cs@.subrange(start as int, i as int)),
            overflow ==> digits_value(cs@.subrange(start as int, i as int)) > u64::MAX,
        decreases cs.len() - i,
    {
        let c = cs[i];
        if !('0' <= c && c <= '9') {
            proof {
                assert(d[i - start] == c);
                assert(!all_digit_chars(d));
                if negative {
                    assert(d =~= t@.drop_first());
                } else {
                    assert(t@[0] != '-');
                    assert(d =~= t@);
                }
                assert(int_text(t@) is None);
            }
            return None;
        }
        let digit = ((c as u32) - 48) as u64;
        proof {
            let p = cs@.subrange(start as int, i + 1);
            assert(p.drop_last() =~= cs@.subrange(start as int, i as int));
            assert(digits_value(p) == digits_value(p.drop_last()) * 10 + digit);
            lemma_digits_nonneg(p.drop_last());
        }
        if !overflow {
            match acc.checked_mul(10) {
                Some(m) => match m.checked_add(digit) {
                    Some(v) => {
                        acc = v;
                    },
                    None => {
                        overflow = true;
                    },
                },
                None => {
                    overflow = true;
                },
            }
        }
        i = i + 1;
    }
    proof {
        assert(cs@.subrange(start as int, cs@.len() as int) == d);
        assert(all_digit_chars(d));
    }
    if overflow {
        return None;
    }
    if negative {
        if acc > 9223372036854775808 {
            return None;
        }
        if acc == 9223372036854775808 {
            return Some(i64::MIN);
        }
        let v = acc as i64;
        Some(-v)
    } else {
        if acc > 9223372036854775807 {
            return None;
        }
        Some(acc as i64)
    }
}

pub proof fn lemma_digits_nonneg(s: Seq<char>)
    requires
        all_digit_chars(s),
    ensures
        digits_value(s) >= 0,
    decreases s.len(),
{
    if s.len() > 0 {
        assert(all_digit_chars(s.drop_last()));
        lemma_digits_nonneg(s.drop_last());
    }
}

/// `Value::as_i64`.
pub fn json_as_i64(j: &Json) -> (r: Option<i64>)
    ensures
        match r {
            Some(v) => as_i64(j@) == Some(v as int),
            None => as_i64(j@) is None,
        },
{
    match j {
        Json::Number(t) => parse_i64_text(t.as_str()),
        _ => None,
    }
}

/// `value[key].as_i64()`.
pub fn member_i64(j: &Json, key: &str) -> (r: Option<i64>)
    ensures
        match r {
            Some(v) => as_i64(member(j@, key@)) == Some(v as int),
            None => as_i64(member(j@, key@)) is None,
        },
{
    match get_member(j, key) {
        Some(v) => json_as_i64(v),
        None => None,
    }
}


/// Inserts a member into key-ordered members, replacing a member with the
/// same key (`Map::insert`).
pub open spec fn insert_sorted(f: Seq<(Seq<char>, JsonV)>, k: Seq<char>, v: JsonV) -> Seq<
    (Seq<char>, JsonV),
>
    decreases f.len(),
{
    if f.len() == 0 {
        seq![(k, v)]
    } else if f[0].0 == k {
        seq![(k, v)] + f.drop_first()
    } else if key_lt(k, f[0].0) {
        seq![(k, v)] + f
    } else {
        seq![f[0]] + insert_sorted(f.drop_first(), k, v)
    }
}

/// Where `insert_sorted` puts `k`: after every smaller key.
pub proof fn lemma_insert_sorted_at(f: Seq<(Seq<char>, JsonV)>, k: Seq<char>, v: JsonV, i: int)
    requires
        0 <= i <= f.len(),
        forall|j: int| 0 <= j < i ==> key_lt(#[trigger] f[j].0, k),
        i < f.len() ==> !key_lt(f[i].0, k),
    ensures
        i < f.len() && f[i].0 == k ==> insert_sorted(f, k, v) == f.update(i, (k, v)),
        !(i < f.len() && f[i].0 == k) ==> insert_sorted(f, k, v) == f.insert(i, (k, v)),
    decreases f.len(),
{
    if f.len() == 0 {
        assert(f.insert(0, (k, v)) =~= seq![(k, v)]);
    } else if i == 0 {
        lemma_seq_order(f[0].0, k);
        if f[0].0 == k {
            assert(f.update(0, (k, v)) =~= seq![(k, v)] + f.drop_first());
        } else {
            assert(key_lt(k, f[0].0));
            assert(f.insert(0, (k, v)) =~= seq![(k, v)] + f);
        }
    } else {
        lemma_seq_order(f[0].0, k);
        assert(key_lt(f[0].0, k));
        assert(f[0].0 != k);
        assert(!key_lt(k, f[0].0));
        let g = f.drop_first();
        assert forall|j: int| 0 <= j < i - 1 implies key_lt(#[trigger] g[j].0, k) by {
            assert(g[j] == f[j + 1]);
        }
        lemma_insert_sorted_at(g, k, v, i - 1);
        if i < f.len() && f[i].0 == k {
            assert(f.update(i, (k, v)) =~= seq![f[0]] + g.update(i - 1, (k, v)));
        } else {
            assert(f.insert(i, (k, v)) =~= seq![f[0]] + g.insert(i - 1, (k, v)));
        }
    }
}

pub fn key_less(a: &str, b: &str) -> (r: bool)
    ensures
        r == key_lt(a@, b@),
{
    let x = chars_of(a);
    let y = chars_of(b);
    order_chars(&x, &y) < 0
}

/// Inserts a member into key-ordered members, replacing a member with the
/// same key.
pub fn insert_member(fields: &mut Vec<(String, Json)>, key: String, value: Json)
    ensures
        fields_view(final(fields)@) == insert_sorted(fields_view(old(fields)@), key@, value@),
{
    let ghost f = fields_view(fields@);
    proof {
        lemma_fields_view(fields@);
    }
    let mut i: usize = 0;
    while i < fields.len() && key_less(fields[i].0.as_str(), key.as_str())
        invariant
            i <= fields.len(),
            f == fields_view(fields@),
            f.len() == fields@.len(),
            forall|m: int|
                0 <= m < fields@.len() ==> #[trigger] f[m] == (fields@[m].0@, json_view(
                    fields@[m].1,
                )),
            forall|j: int| 0 <= j < i ==> key_lt(#[trigger] f[j].0, key@),
        decreases fields.len() - i,
    {
        i = i + 1;
    }
    proof {
        lemma_insert_sorted_at(f, key@, value@, i as int);
    }
    let ghost kv = key@;
    let ghost vv = value@;
    if i < fields.len() && crate::text::str_eq(fields[i].0.as_str(), key.as_str()) {
        fields.set(i, (key, value));
        proof {
            lemma_fields_view(fields@);
            assert(fields_view(fields@) =~= f.update(i as int, (kv, vv)));
        }
    } else {
        fields.insert(i, (key, value));
        proof {
            lemma_fields_view(fields@);
            assert(fields_view(fields@) =~= f.insert(i as int, (kv, vv)));
        }
    }
}


/// Every object rebuilt in key order (how a JSON map orders its members).
pub open spec fn norm_v(j: JsonV) -> JsonV
    decreases j, 0nat,
{
    match j {
        JsonV::Array(items) => JsonV::Array(norm_list(items)),
        JsonV::Object(f) => JsonV::Object(norm_fields(f)),
        _ => j,
    }
}

pub open spec fn norm_list(s: Seq<JsonV>) -> Seq<JsonV>
    decreases s, 0nat,
{
    if s.len() == 0 {
        Seq::empty()
    } else {
        norm_list(s.drop_last()).push(norm_v(s.last()))
    }
}

pub open spec fn norm_fields(s: Seq<(Seq<char>, JsonV)>) -> Seq<(Seq<char>, JsonV)>
    decreases s, 0nat,
{
    if s.len() == 0 {
        Seq::empty()
    } else {
        insert_sorted(norm_fields(s.drop_last()), s.last().0, norm_v(s.last().1))
    }
}

/// Members in strictly ascending key order.
pub open spec fn keys_ascending(f: Seq<(Seq<char>, JsonV)>) -> bool {
    forall|i: int, j: int| 0 <= i < j < f.len() ==> key_lt(#[trigger] f[i].0, #[trigger] f[j].0)
}

/// Every key at most once.
pub open spec fn keys_distinct(f: Seq<(Seq<char>, JsonV)>) -> bool {
    forall|i: int, j: int| 0 <= i < j < f.len() ==> #[trigger] f[i].0 != #[trigger] f[j].0
}

/// Inserting a new key into ascending members keeps them ascending and adds
/// exactly that member.
proof fn lemma_insert_sorted_fresh(f: Seq<(Seq<char>, JsonV)>, k: Seq<char>, v: JsonV)
    requires
        keys_ascending(f),
        forall|i: int| 0 <= i < f.len() ==> #[trigger] f[i].0 != k,
    ensures
        keys_ascending(insert_sorted(f, k, v)),
        forall|e: (Seq<char>, JsonV)|
            #[trigger] insert_sorted(f, k, v).contains(e) <==> (e == (k, v) || f.contains(e)),
    decreases f.len(),
{
    let r = insert_sorted(f, k, v);
    if f.len() == 0 {
        assert(r =~= seq![(k, v)]);
        assert forall|e: (Seq<char>, JsonV)| r.contains(e) <==> (e == (k, v) || f.contains(e)) by {
            if r.contains(e) {
                assert(r[0] == (k, v));
            }
            if e == (k, v) {
                assert(r[0] == e);
            }
        }
        return;
    }
    lemma_seq_order(k, f[0].0);
    assert(f[0].0 != k);
    if key_lt(k, f[0].0) {
        assert(r == seq![(k, v)] + f);
        assert forall|i: int, j: int| 0 <= i < j < r.len() implies key_lt(#[trigger] r[i].0, #[trigger] r[j].0) by {
            if i == 0 {
                if j > 1 {
                    assert(key_lt(f[0].0, f[j - 1].0));
                    lemma_seq_order_transitive(k, f[0].0, f[j - 1].0);
                }
            } else {
                assert(r[i] == f[i - 1] && r[j] == f[j - 1]);
            }
        }
        assert forall|e: (Seq<char>, JsonV)| r.contains(e) <==> (e == (k, v) || f.contains(e)) by {
            if r.contains(e) {
                let i = choose|i: int| 0 <= i < r.len() && r[i] == e;
                if i > 0 {
                    assert(f[i - 1] == e);
                }
            }
            if e == (k, v) {
                assert(r[0] == e);
            }
            if f.contains(e) {
                let i = choose|i: int| 0 <= i < f.len() && f[i] == e;
                assert(r[i + 1] == e);
            }
        }
    } else {
        assert(key_lt(f[0].0, k));
        let g = f.drop_first();
        assert forall|i: int| 0 <= i < g.len() implies #[trigger] g[i].0 != k by {
            assert(g[i] == f[i + 1]);
        }
        assert forall|i: int, j: int| 0 <= i < j < g.len() implies key_lt(#[trigger] g[i].0, #[trigger] g[j].0) by {
            assert(g[i] == f[i + 1] && g[j] == f[j + 1]);
        }
        lemma_insert_sorted_fresh(g, k, v);
        let rest = insert_sorted(g, k, v);
        assert(r == seq![f[0]] + rest);
        assert forall|i: int, j: int| 0 <= i < j < r.len() implies key_lt(#[trigger] r[i].0, #[trigger] r[j].0) by {
            if i == 0 {
                assert(r[j] == rest[j - 1]);
                assert(rest.contains(rest[j - 1]));
                if rest[j - 1] != (k, v) {
                    let m = choose|m: int| 0 <= m < g.len() && g[m] == rest[j - 1];
                    assert(g[m] == f[m + 1]);
                }
            } else {
                assert(r[i] == rest[i - 1] && r[j] == rest[j - 1]);
            }
        }
        assert forall|e: (Seq<char>, JsonV)| r.contains(e) <==> (e == (k, v) || f.contains(e)) by {
            if r.contains(e) {
                let i = choose|i: int| 0 <= i < r.len() && r[i] == e;
                if i == 0 {
                    assert(f[0] == e);
                } else {
                    assert(rest[i - 1] == e);
                    assert(rest.contains(e));
                    if g.contains(e) {
                        let m = choose|m: int| 0 <= m < g.len() && g[m] == e;
                        assert(f[m + 1] == e);
                    }
                }
            }
            if e == (k, v) {
                assert(rest.contains(e));
                let i = choose|i: int| 0 <= i < rest.len() && rest[i] == e;
                assert(r[i + 1] == e);
            }
            if f.contains(e) {
                let i = choose|i: int| 0 <= i < f.len() && f[i] == e;
                if i == 0 {
                    assert(r[0] == e);
                } else {
                    assert(g[i - 1] == e);
                    assert(g.contains(e));
                    assert(rest.contains(e));
                    let m = choose|m: int| 0 <= m < rest.len() && rest[m] == e;
                    assert(r[m + 1] == e);
                }
            }
        }
    }
}

/// Members with distinct keys, rebuilt in key order: ascending, and holding
/// exactly their members, each value normalized.
pub proof fn lemma_norm_fields_contents(s: Seq<(Seq<char>, JsonV)>)
    requires
        keys_distinct(s),
    ensures
        keys_ascending(norm_fields(s)),
        forall|e: (Seq<char>, JsonV)|
            #[trigger] norm_fields(s).contains(e) <==> exists|i: int|
                0 <= i < s.len() && e == (#[trigger] s[i].0, norm_v(s[i].1)),
    decreases s.len(),
{
    if s.len() == 0 {
        return;
    }
    let p = s.drop_last();
    assert forall|i: int, j: int| 0 <= i < j < p.len() implies #[trigger] p[i].0 != #[trigger] p[j].0 by {
        assert(p[i] == s[i] && p[j] == s[j]);
    }
    lemma_norm_fields_contents(p);
    let np = norm_fields(p);
    let k = s.last().0;
    let v = norm_v(s.last().1);
    assert forall|i: int| 0 <= i < np.len() implies #[trigger] np[i].0 != k by {
        assert(np.contains(np[i]));
        let m = choose|m: int| 0 <= m < p.len() && np[i] == (#[trigger] p[m].0, norm_v(p[m].1));
        assert(p[m] == s[m]);
        assert(s[m].0 != s[s.len() - 1].0);
    }
    lemma_insert_sorted_fresh(np, k, v);
    assert forall|e: (Seq<char>, JsonV)| #[trigger] norm_fields(s).contains(e) <==> exists|i: int|
        0 <= i < s.len() && e == (#[trigger] s[i].0, norm_v(s[i].1)) by {
        if norm_fields(s).contains(e) {
            if e == (k, v) {
                assert(e == (s[s.len() - 1].0, norm_v(s[s.len() - 1].1)));
            } else {
                assert(np.contains(e));
                let m = choose|m: int| 0 <= m < p.len() && e == (#[trigger] p[m].0, norm_v(p[m].1));
                assert(p[m] == s[m]);
                assert(e == (s[m].0, norm_v(s[m].1)));
            }
        }
        if exists|i: int| 0 <= i < s.len() && e == (#[trigger] s[i].0, norm_v(s[i].1)) {
            let i = choose|i: int| 0 <= i < s.len() && e == (#[trigger] s[i].0, norm_v(s[i].1));
            if i < s.len() - 1 {
                assert(p[i] == s[i]);
                assert(e == (p[i].0, norm_v(p[i].1)));
                assert(np.contains(e));
            }
        }
    }
}

/// Two ascending member lists with the same members are the same list.
pub proof fn lemma_ascending_unique(a: Seq<(Seq<char>, JsonV)>, b: Seq<(Seq<char>, JsonV)>)
    requires
        keys_ascending(a),
        keys_ascending(b),
        forall|e: (Seq<char>, JsonV)| a.contains(e) <==> b.contains(e),
    ensures
        a == b,
    decreases a.len(),
{
    if a.len() == 0 {
        if b.len() > 0 {
            assert(b.contains(b[0]));
        }
        assert(a =~= b);
        return;
    }
    assert(a.contains(a[0]));
    assert(b.len() > 0);
    assert(b.contains(b[0]));
    let j = choose|j: int| 0 <= j < b.len() && b[j] == a[0];
    let i = choose|i: int| 0 <= i < a.len() && a[i] == b[0];
    lemma_seq_order(a[0].0, a[0].0);
    if j > 0 {
        assert(key_lt(b[0].0, b[j].0));
        if i > 0 {
            assert(key_lt(a[0].0, a[i].0));
            lemma_seq_order(a[0].0, a[i].0);
        }
    }
    assert(a[0] == b[0]);
    let a1 = a.drop_first();
    let b1 = b.drop_first();
    assert forall|x: int, y: int| 0 <= x < y < a1.len() implies key_lt(#[trigger] a1[x].0, #[trigger] a1[y].0) by {
        assert(a1[x] == a[x + 1] && a1[y] == a[y + 1]);
    }
    assert forall|x: int, y: int| 0 <= x < y < b1.len() implies key_lt(#[trigger] b1[x].0, #[trigger] b1[y].0) by {
        assert(b1[x] == b[x + 1] && b1[y] == b[y + 1]);
    }
    assert forall|e: (Seq<char>, JsonV)| a1.contains(e) <==> b1.contains(e) by {
        if a1.contains(e) {
            let x = choose|x: int| 0 <= x < a1.len() && a1[x] == e;
            assert(a[x + 1] == e);
            assert(key_lt(a[0].0, a[x + 1].0));
            lemma_seq_order(a[0].0, e.0);
            assert(b.contains(e));
            let y = choose|y: int| 0 <= y < b.len() && b[y] == e;
            assert(y != 0);
            assert(b1[y - 1] == e);
        }
        if b1.contains(e) {
            let x = choose|x: int| 0 <= x < b1.len() && b1[x] == e;
            assert(b[x + 1] == e);
            assert(key_lt(b[0].0, b[x + 1].0));
            lemma_seq_order(b[0].0, e.0);
            assert(a.contains(e));
            let y = choose|y: int| 0 <= y < a.len() && a[y] == e;
            assert(y != 0);
            assert(a1[y - 1] == e);
        }
    }
    lemma_ascending_unique(a1, b1);
    assert(a =~= seq![a[0]] + a1);
    assert(b =~= seq![b[0]] + b1);
}

/// A copy of `j` with every object's members in key order.
pub fn normalized(j: &Json) -> (r: Json)
    ensures
        r@ == norm_v(j@),
    decreases j,
{
    match j {
        Json::Array(items) => {
            let mut out: Vec<Json> = Vec::new();
            let mut i: usize = 0;
            proof {
                lemma_items_view(items@);
            }
            while i < items.len()
                invariant
                    *j == Json::Array(*items),
                    i <= items.len(),
                    items_view(items@).len() == items@.len(),
                    forall|k: int|
                        0 <= k < items@.len() ==> #[trigger] items_view(items@)[k] == json_view(
                            items@[k],
                        ),
                    items_view(out@) == norm_list(items_view(items@).take(i as int)),
                decreases items.len() - i,
            {
                proof {
                    assert(decreases_to!(*j => (*j)->Array_0));
                    assert(decreases_to!(*items => items@));
                    assert(decreases_to!(items@ => items@[i as int]));
                }
                let x = normalized(&items[i]);
                let ghost before = out@;
                out.push(x);
                proof {
                    assert(out@.drop_last() =~= before);
                    let t = items_view(items@).take(i + 1);
                    assert(t.drop_last() =~= items_view(items@).take(i as int));
                }
                i = i + 1;
            }
            assert(items_view(items@).take(items.len() as int) =~= items_view(items@));
            Json::Array(out)
        },
        Json::Object(fields) => {
            let mut out: Vec<(String, Json)> = Vec::new();
            let mut i: usize = 0;
            proof {
                lemma_fields_view(fields@);
            }
            while i < fields.len()
                invariant
                    *j == Json::Object(*fields),
                    i <= fields.len(),
                    fields_view(fields@).len() == fields@.len(),
                    forall|k: int|
                        0 <= k < fields@.len() ==> #[trigger] fields_view(fields@)[k] == (
                            fields@[k].0@,
                            json_view(fields@[k].1),
                        ),
                    fields_view(out@) == norm_fields(fields_view(fields@).take(i as int)),
                decreases fields.len() - i,
            {
                proof {
                    assert(decreases_to!(*j => (*j)->Object_0));
                    assert(decreases_to!(*fields => fields@));
                    assert(decreases_to!(fields@ => fields@[i as int]));
                    assert(decreases_to!(fields@[i as int] => fields@[i as int].1));
                }
                let x = normalized(&fields[i].1);
                let k = fields[i].0.clone();
                insert_member(&mut out, k, x);
                proof {
                    let t = fields_view(fields@).take(i + 1);
                    assert(t.drop_last() =~= fields_view(fields@).take(i as int));
                }
                i = i + 1;
            }
            assert(fields_view(fields@).take(fields.len() as int) =~= fields_view(fields@));
            Json::Object(out)
        },
        Json::Null => Json::Null,
        Json::Bool(b) => Json::Bool(*b),
        Json::Number(t) => Json::Number(t.clone()),
        Json::Str(x) => Json::Str(x.clone()),
    }
}


/// A deep copy of a JSON value.
pub fn json_clone(j: &Json) -> (r: Json)
    ensures
        r@ == j@,
    decreases j,
{
    match j {
        Json::Array(items) => {
            let mut out: Vec<Json> = Vec::new();
            let mut i: usize = 0;
            proof {
                lemma_items_view(items@);
            }
            while i < items.len()
                invariant
                    *j == Json::Array(*items),
                    i <= items.len(),
                    items_view(items@).len() == items@.len(),
                    forall|k: int|
                        0 <= k < items@.len() ==> #[trigger] items_view(items@)[k] == json_view(
                            items@[k],
                        ),
                    items_view(out@) == items_view(items@).take(i as int),
                decreases items.len() - i,
            {
                proof {
                    assert(decreases_to!(*j => (*j)->Array_0));
                    assert(decreases_to!(*items => items@));
                    assert(decreases_to!(items@ => items@[i as int]));
                }
                let x = json_clone(&items[i]);
                let ghost before = out@;
                out.push(x);
                proof {
                    assert(out@.drop_last() =~= before);
                    assert(items_view(items@).take(i + 1) =~= items_view(items@).take(
                        i as int,
                    ).push(json_view(items@[i as int])));
                }
                i = i + 1;
            }
            assert(items_view(items@).take(items.len() as int) =~= items_view(items@));
            Json::Array(out)
        },
        Json::Object(fields) => {
            let mut out: Vec<(String, Json)> = Vec::new();
            let mut i: usize = 0;
            proof {
                lemma_fields_view(fields@);
            }
            while i < fields.len()
                invariant
                    *j == Json::Object(*fields),
                    i <= fields.len(),
                    fields_view(fields@).len() == fields@.len(),
                    forall|k: int|
                        0 <= k < fields@.len() ==> #[trigger] fields_view(fields@)[k] == (
                            fields@[k].0@,
                            json_view(fields@[k].1),
                        ),
                    fields_view(out@) == fields_view(fields@).take(i as int),
                decreases fields.len() - i,
            {
                proof {
                    assert(decreases_to!(*j => (*j)->Object_0));
                    assert(decreases_to!(*fields => fields@));
                    assert(decreases_to!(fields@ => fields@[i as int]));
                    assert(decreases_to!(fields@[i as int] => fields@[i as int].1));
                }
                let x = json_clone(&fields[i].1);
                let k = fields[i].0.clone();
                let ghost before = out@;
                out.push((k, x));
                proof {
                    assert(out@.drop_last() =~= before);
                    assert(fields_view(fields@).take(i + 1) =~= fields_view(fields@).take(
                        i as int,
                    ).push(fields_view(fields@)[i as int]));
                }
                i = i + 1;
            }
            assert(fields_view(fields@).take(fields.len() as int) =~= fields_view(fields@));
            Json::Object(out)
        },
        Json::Null => Json::Null,
        Json::Bool(b) => Json::Bool(*b),
        Json::Number(t) => Json::Number(t.clone()),
        Json::Str(x) => Json::Str(x.clone()),
    }
}

/// Decimal digits of a natural number.
pub open spec fn nat_text(n: nat) -> Seq<char>
    decreases n,
{
    if n < 10 {
        seq![((n + 48) as u32) as char]
    } else {
        nat_text(n / 10).push((((n % 10) + 48) as u32) as char)
    }
}

/// Decimal text of an integer (`to_string`).
pub open spec fn int_text_of(v: int) -> Seq<char> {
    if v < 0 {
        seq!['-'] + nat_text((-v) as nat)
    } else {
        nat_text(v as nat)
    }
}

fn digit_char(d: u64) -> (c: char)
    requires
        d < 10,
    ensures
        c == ((d + 48) as u32) as char,
{
    let b = (d + 48) as u8;
    b as char
}

/// Decimal digits of an unsigned integer.
pub fn nat_digits(n: u64) -> (r: Vec<char>)
    ensures
        r@ == nat_text(n as nat),
    decreases n,
{
    if n < 10 {
        let mut r: Vec<char> = Vec::new();
        r.push(digit_char(n));
        r
    } else {
        let mut r = nat_digits(n / 10);
        r.push(digit_char(n % 10));
        r
    }
}

/// `i64::to_string`.
pub fn int_to_text(v: i64) -> (r: String)
    ensures
        r@ == int_text_of(v as int),
{
    if v < 0 {
        let m: u64 = if v == i64::MIN {
            9223372036854775808u64
        } else {
            (-v) as u64
        };
        let d = nat_digits(m);
        let mut out: Vec<char> = Vec::new();
        out.push('-');
        let mut i: usize = 0;
        while i < d.len()
            invariant
                i <= d.len(),
                out@ == seq!['-'] + d@.take(i as int),
            decreases d.len() - i,
        {
            out.push(d[i]);
            i = i + 1;
            assert(d@.take(i as int) =~= d@.take((i - 1) as int).push(d@[i - 1]));
        }
        assert(d@.take(d.len() as int) =~= d@);
        crate::text::string_from_chars(&out)
    } else {
        let d = nat_digits(v as u64);
        crate::text::string_from_chars(&d)
    }
}

/// A JSON number holding an integer.
pub fn json_int(v: i64) -> (r: Json)
    ensures
        r@ == JsonV::Number(int_text_of(v as int)),
{
    Json::Number(int_to_text(v))
}

}
