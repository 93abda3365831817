//! The legacy conversion: how old detail columns become section rows, which
//! odds records are recoverable, what is reported, and the naming of the
//! archived tables.  The application runs the SQL.
use vstd::prelude::*;
use crate::domain::events::{digest_text, event_key_digest, fnv1a, opt_string_view};
use crate::json::{
    as_str, canon, fields_view, get, get_member, json_clone, json_text, json_view, key_less, key_lt,
    json_parse, lemma_fields_view, lemma_items_view, items_view, member, parse_json_text, parse_view,
    Json, JsonV,
};
use crate::text::{
    chars_of, extend_chars, extend_str, hex_u64, lower_seq, names, owned, seq_order, str_eq,
    string_from_chars, trim, trim_str, lemma_seq_order, lemma_seq_order_transitive,
};

verus! {

/// What the legacy conversion did.
#[derive(Debug, Clone, Default)]
pub struct LegacyConversionReport {
    pub matches_seen: usize,
    pub matches_preserved: usize,
    pub details_seen: usize,
    pub sections_converted: usize,
    pub empty_sections: usize,
    pub unparseable_sections: usize,
    pub state_history_rows: usize,
    pub odds_converted: usize,
    pub preserved_match_ids: Vec<String>,
    pub unmappable_fields: Vec<String>,
}

/// `"` doubled, for an SQL identifier.
pub open spec fn doubled_quotes(s: Seq<char>) -> Seq<char>
    decreases s.len(),
{
    if s.len() == 0 {
        s
    } else if s.last() == '"' {
        doubled_quotes(s.drop_last()) + seq!['"', '"']
    } else {
        doubled_quotes(s.drop_last()).push(s.last())
    }
}

/// An SQL identifier in double quotes, inner quotes doubled.
pub fn quote_identifier(value: &str) -> (r: String)
    ensures
        r@ == seq!['"'] + doubled_quotes(value@) + seq!['"'],
{
    let c = chars_of(value);
    let mut out: Vec<char> = Vec::new();
    out.push('"');
    let mut i: usize = 0;
    while i < c.len()
        invariant
            i <= c.len(),
            c@ == value@,
            out@ == seq!['"'] + doubled_quotes(c@.take(i as int)),
        decreases c.len() - i,
    {
        let ghost t = c@.take(i + 1);
        assert(t.drop_last() =~= c@.take(i as int));
        if c[i] == '"' {
            out.push('"');
            out.push('"');
        } else {
            out.push(c[i]);
        }
        i = i + 1;
        assert(out@ =~= seq!['"'] + doubled_quotes(c@.take(i as int)));
    }
    assert(c@.take(c@.len() as int) =~= value@);
    out.push('"');
    string_from_chars(&out)
}

/// FNV-1a of bytes as sixteen hex digits.
pub fn fnv1a_hex(bytes: &[u8]) -> (r: String)
    ensures
        r@ == hex_u64(fnv1a(bytes@)),
{
    let h = crate::domain::events::fnv1a_update(0xcbf29ce484222325, bytes);
    proof {
        crate::domain::events::lemma_fnv1a_from(bytes@);
    }
    let d = crate::text::hex_of_u64(h);
    string_from_chars(&d)
}

/// The identity hash of a JSON text.
pub fn json_hash(value: &str) -> (r: String)
    ensures
        r@ == digest_text(value@),
{
    event_key_digest(value)
}

/// A legacy section as it is written in the new tables.
#[derive(Debug, Clone)]
pub struct SectionValue {
    pub status: &'static str,
    pub is_empty: bool,
    pub is_unparseable: bool,
    pub data_json: Option<String>,
    pub content_hash: String,
    pub error: Option<String>,
}

/// A value that holds nothing: null, an empty list or an empty object.
pub open spec fn hollow(v: JsonV) -> bool {
    match v {
        JsonV::Null => true,
        JsonV::Array(items) => items.len() == 0,
        JsonV::Object(f) => f.len() == 0,
        _ => false,
    }
}

/// How a legacy section column is classified.  `parsed` is the JSON parse
/// of its trimmed text (the parser's message on failure).
pub open spec fn section_value_of(
    v: SectionValue,
    raw: Option<Seq<char>>,
    section: Seq<char>,
    parsed: Result<JsonV, Seq<char>>,
) -> bool {
    let text = trim(match raw {
        Some(t) => t,
        None => Seq::empty(),
    });
    &&& v.content_hash@ == digest_text(text)
    &&& if text.len() == 0 {
        &&& v.status@ == "EMPTY"@
        &&& v.is_empty && !v.is_unparseable
        &&& opt_string_view(v.data_json) == Some("null"@)
        &&& v.error is None
    } else {
        match parsed {
            Ok(j) => if hollow(j) {
                &&& v.status@ == "EMPTY"@
                &&& v.is_empty && !v.is_unparseable
                &&& opt_string_view(v.data_json) == Some(text)
                &&& v.error is None
            } else {
                &&& v.status@ == "COMPLETED"@
                &&& !v.is_empty && !v.is_unparseable
                &&& opt_string_view(v.data_json) == Some(text)
                &&& v.error is None
            },
            Err(e) => {
                &&& v.status@ == "UNPARSEABLE"@
                &&& !v.is_empty && v.is_unparseable
                &&& v.data_json is None
                &&& opt_string_view(v.error) == Some("legacy "@ + section + " JSON: "@ + e)
            },
        }
    }
}

/// The text of a raw column: trimmed, empty when the column is null.
pub open spec fn column_text(raw: Option<Seq<char>>) -> Seq<char> {
    trim(match raw {
        Some(t) => t,
        None => Seq::empty(),
    })
}

/// Classifies a legacy section column: it parses the trimmed text (when
/// there is any) and classifies it as `section_value_of` says.
pub fn classify_section(raw: Option<&str>, section: &str) -> (r: SectionValue)
    ensures
        section_value_of(
            r,
            match raw {
                Some(t) => Some(t@),
                None => None,
            },
            section@,
            json_parse(column_text(
                match raw {
                    Some(t) => Some(t@),
                    None => None,
                },
            )),
        ),
{
    let t = match raw {
        Some(s) => trim_str(s),
        None => {
            let e: Vec<char> = Vec::new();
            assert(trim(Seq::<char>::empty()) =~= Seq::<char>::empty());
            e
        },
    };
    let text = string_from_chars(&t);
    let parsed = parse_json_text(text.as_str());
    classify_parsed_section(raw, section, &parsed)
}

/// Classifies a legacy section column, given the JSON parse of its trimmed
/// text (the parser's message on failure).
pub fn classify_parsed_section(raw: Option<&str>, section: &str, parsed: &Result<Json, String>) -> (r: SectionValue)
    ensures
        section_value_of(
            r,
            match raw {
                Some(t) => Some(t@),
                None => None,
            },
            section@,
            parse_view(*parsed),
        ),
{
    let t = match raw {
        Some(s) => trim_str(s),
        None => {
            let e: Vec<char> = Vec::new();
            assert(trim(Seq::<char>::empty()) =~= Seq::<char>::empty());
            e
        },
    };
    let text = string_from_chars(&t);
    let content_hash = json_hash(text.as_str());
    if t.len() == 0 {
        return SectionValue {
            status: "EMPTY",
            is_empty: true,
            is_unparseable: false,
            data_json: Some(owned("null")),
            content_hash,
            error: None,
        };
    }
    match parsed {
        Ok(j) => {
            let hollow_value = match j {
                Json::Null => true,
                Json::Array(items) => items.len() == 0,
                Json::Object(f) => f.len() == 0,
                _ => false,
            };
            proof {
                match j {
                    Json::Array(items) => lemma_items_view(items@),
                    Json::Object(f) => lemma_fields_view(f@),
                    _ => {},
                }
            }
            if hollow_value {
                SectionValue {
                    status: "EMPTY",
                    is_empty: true,
                    is_unparseable: false,
                    data_json: Some(text),
                    content_hash,
                    error: None,
                }
            } else {
                SectionValue {
                    status: "COMPLETED",
                    is_empty: false,
                    is_unparseable: false,
                    data_json: Some(text),
                    content_hash,
                    error: None,
                }
            }
        },
        Err(e) => {
            let mut msg: Vec<char> = Vec::new();
            extend_str(&mut msg, "legacy ");
            extend_str(&mut msg, section);
            extend_str(&mut msg, " JSON: ");
            extend_str(&mut msg, e.as_str());
            SectionValue {
                status: "UNPARSEABLE",
                is_empty: false,
                is_unparseable: true,
                data_json: None,
                content_hash,
                error: Some(string_from_chars(&msg)),
            }
        },
    }
}

/// The index of the first member named `k`.
pub open spec fn key_index(f: Seq<(Seq<char>, JsonV)>, k: Seq<char>) -> Option<int>
    decreases f.len(),
{
    if f.len() == 0 {
        None
    } else if f[0].0 == k {
        Some(0)
    } else {
        match key_index(f.drop_first(), k) {
            Some(i) => Some(i + 1),
            None => None,
        }
    }
}

pub proof fn lemma_key_index(f: Seq<(Seq<char>, JsonV)>, k: Seq<char>)
    ensures
        match key_index(f, k) {
            Some(i) => 0 <= i < f.len() && f[i].0 == k && crate::json::lookup(f, k) == Some(f[i].1),
            None => crate::json::lookup(f, k) is None,
        },
    decreases f.len(),
{
    if f.len() > 0 && f[0].0 != k {
        lemma_key_index(f.drop_first(), k);
    }
}

/// The index of the member that names an object's scalar: `id`, else `key`.
pub open spec fn scalar_member(f: Seq<(Seq<char>, JsonV)>) -> Option<int> {
    match key_index(f, "id"@) {
        Some(i) => Some(i),
        None => key_index(f, "key"@),
    }
}

/// The text a legacy odds field contributes: a non-blank string (trimmed),
/// a number's text, or for an object the scalar of its `id` member, else of
/// its `key` member.
pub open spec fn scalar_of(v: JsonV) -> Option<Seq<char>>
    decreases v,
{
    match v {
        JsonV::Str(t) => if trim(t).len() > 0 {
            Some(trim(t))
        } else {
            None
        },
        JsonV::Number(n) => Some(n),
        JsonV::Object(f) => match scalar_member(f) {
            Some(i) => if 0 <= i < f.len() {
                proof {
                    assert(decreases_to!(v => f));
                    assert(decreases_to!(f => f[i]));
                    assert(decreases_to!(f[i] => f[i].1));
                }
                scalar_of(f[i].1)
            } else {
                None
            },
            None => None,
        },
        _ => None,
    }
}

pub open spec fn scalar_opt(v: Option<JsonV>) -> Option<Seq<char>> {
    match v {
        Some(x) => scalar_of(x),
        None => None,
    }
}

fn find_index(fields: &Vec<(String, Json)>, key: &str) -> (r: Option<usize>)
    ensures
        match r {
            Some(i) => key_index(fields_view(fields@), key@) == Some(i as int),
            None => key_index(fields_view(fields@), key@) is None,
        },
{
    proof {
        lemma_fields_view(fields@);
    }
    let ghost fv = fields_view(fields@);
    let mut i: usize = 0;
    while i < fields.len()
        invariant
            i <= fields.len(),
            fv == fields_view(fields@),
            fv.len() == fields@.len(),
            forall|m: int| 0 <= m < fields@.len() ==> #[trigger] fv[m] == (fields@[m].0@, json_view(fields@[m].1)),
            forall|m: int| 0 <= m < i ==> fv[m].0 != key@,
        decreases fields.len() - i,
    {
        if str_eq(fields[i].0.as_str(), key) {
            proof {
                lemma_key_index_first(fv, key@, i as int);
            }
            return Some(i);
        }
        i = i + 1;
    }
    proof {
        lemma_key_index_none(fv, key@);
    }
    None
}

proof fn lemma_key_index_first(f: Seq<(Seq<char>, JsonV)>, k: Seq<char>, i: int)
    requires
        0 <= i < f.len(),
        f[i].0 == k,
        forall|m: int| 0 <= m < i ==> f[m].0 != k,
    ensures
        key_index(f, k) == Some(i),
    decreases i,
{
    if i > 0 {
        let d = f.drop_first();
        assert forall|m: int| 0 <= m < i - 1 implies d[m].0 != k by {
            assert(d[m] == f[m + 1]);
        }
        lemma_key_index_first(d, k, i - 1);
    }
}

proof fn lemma_key_index_none(f: Seq<(Seq<char>, JsonV)>, k: Seq<char>)
    requires
        forall|m: int| 0 <= m < f.len() ==> f[m].0 != k,
    ensures
        key_index(f, k) is None,
    decreases f.len(),
{
    if f.len() > 0 {
        let d = f.drop_first();
        assert forall|m: int| 0 <= m < d.len() implies d[m].0 != k by {
            assert(d[m] == f[m + 1]);
        }
        lemma_key_index_none(d, k);
    }
}

fn scalar_text_ref(v: &Json) -> (r: Option<String>)
    ensures
        opt_string_view(r) == scalar_of(v@),
    decreases v,
{
    match v {
        Json::Str(t) => {
            let x = trim_str(t.as_str());
            if x.len() == 0 {
                None
            } else {
                Some(string_from_chars(&x))
            }
        },
        Json::Number(n) => Some(owned(n.as_str())),
        Json::Object(fields) => {
            proof {
                lemma_fields_view(fields@);
            }
            let idx = match find_index(fields, "id") {
                Some(i) => Some(i),
                None => find_index(fields, "key"),
            };
            match idx {
                Some(i) => {
                    proof {
                        lemma_key_index(fields_view(fields@), "id"@);
                        lemma_key_index(fields_view(fields@), "key"@);
                        assert(i < fields@.len());
                        assert(decreases_to!(*v => (*v)->Object_0));
                        assert(decreases_to!(*fields => fields@));
                        assert(decreases_to!(fields@ => fields@[i as int]));
                        assert(decreases_to!(fields@[i as int] => fields@[i as int].1));
                        assert(fields_view(fields@)[i as int].1 == json_view(fields@[i as int].1));
                    }
                    scalar_text_ref(&fields[i].1)
                },
                None => None,
            }
        },
        _ => None,
    }
}

/// `scalar_text` of an optional member.
pub fn scalar_text(value: Option<&Json>) -> (r: Option<String>)
    ensures
        opt_string_view(r) == scalar_opt(match value {
            Some(j) => Some(j@),
            None => None,
        }),
{
    match value {
        Some(j) => scalar_text_ref(j),
        None => None,
    }
}

/// The scalar of the first of `keys` that yields one.
pub open spec fn first_scalar_of(f: Seq<(Seq<char>, JsonV)>, keys: Seq<Seq<char>>) -> Option<Seq<char>>
    decreases keys.len(),
{
    if keys.len() == 0 {
        None
    } else {
        match scalar_opt(crate::json::lookup(f, keys[0])) {
            Some(s) => Some(s),
            None => first_scalar_of(f, keys.drop_first()),
        }
    }
}

pub fn first_scalar(object: &Vec<(String, Json)>, keys: &[&str]) -> (r: Option<String>)
    ensures
        opt_string_view(r) == first_scalar_of(fields_view(object@), crate::feed::adapters::key_views(keys@)),
{
    let ghost all = crate::feed::adapters::key_views(keys@);
    let mut i: usize = 0;
    assert(all.subrange(0, all.len() as int) =~= all);
    while i < keys.len()
        invariant
            i <= keys.len(),
            all == crate::feed::adapters::key_views(keys@),
            all.len() == keys@.len(),
            first_scalar_of(fields_view(object@), all) == first_scalar_of(
                fields_view(object@),
                all.subrange(i as int, all.len() as int),
            ),
        decreases keys.len() - i,
    {
        let ghost rest = all.subrange(i as int, all.len() as int);
        assert(rest[0] == keys@[i as int]@);
        assert(rest.drop_first() =~= all.subrange(i + 1, all.len() as int));
        let v = crate::json::find_field(object, keys[i]);
        match scalar_text(v) {
            Some(s) => {
                return Some(s);
            },
            None => {},
        }
        i = i + 1;
    }
    None
}

/// All characters are ASCII digits.
pub open spec fn all_digits_seq(s: Seq<char>) -> bool {
    forall|i: int| 0 <= i < s.len() ==> crate::text::is_ascii_digit(#[trigger] s[i])
}

/// A decimal mantissa: digits with at most one `.`, and at least one digit.
pub open spec fn mantissa_ok(m: Seq<char>) -> bool {
    ||| (m.len() > 0 && all_digits_seq(m))
    ||| (m.len() >= 2 && exists|d: int|
        0 <= d < m.len() && m[d] == '.' && all_digits_seq(m.take(d)) && all_digits_seq(
            m.skip(d + 1),
        ))
}

/// An exponent after `e`: an optional sign and one or more digits.
pub open spec fn exponent_ok(x: Seq<char>) -> bool {
    let d = if x.len() > 0 && (x[0] == '+' || x[0] == '-') {
        x.drop_first()
    } else {
        x
    };
    d.len() > 0 && all_digits_seq(d)
}

/// The index of the first `e` or `E`, if any.
pub open spec fn exp_index(s: Seq<char>) -> Option<int>
    decreases s.len(),
{
    if s.len() == 0 {
        None
    } else if s[0] == 'e' || s[0] == 'E' {
        Some(0)
    } else {
        match exp_index(s.drop_first()) {
            Some(i) => Some(i + 1),
            None => None,
        }
    }
}

/// A finite decimal number: an optional sign, then a decimal mantissa with
/// an optional exponent.  `inf`, `infinity` and `nan` are not numbers here.
pub open spec fn decimal_number_text(s: Seq<char>) -> bool {
    let b = if s.len() > 0 && (s[0] == '+' || s[0] == '-') {
        s.drop_first()
    } else {
        s
    };
    match exp_index(b) {
        Some(e) => mantissa_ok(b.take(e)) && exponent_ok(b.skip(e + 1)),
        None => mantissa_ok(b),
    }
}

proof fn lemma_exp_index(s: Seq<char>)
    ensures
        match exp_index(s) {
            Some(e) => 0 <= e < s.len() && (s[e] == 'e' || s[e] == 'E') && forall|k: int|
                0 <= k < e ==> !(s[k] == 'e' || s[k] == 'E'),
            None => forall|k: int| 0 <= k < s.len() ==> !(s[k] == 'e' || s[k] == 'E'),
        },
    decreases s.len(),
{
    if s.len() > 0 && !(s[0] == 'e' || s[0] == 'E') {
        lemma_exp_index(s.drop_first());
        match exp_index(s.drop_first()) {
            Some(e) => {
                assert forall|k: int| 0 <= k < e + 1 implies !(s[k] == 'e' || s[k] == 'E') by {
                    if k > 0 {
                        assert(s.drop_first()[k - 1] == s[k]);
                    }
                }
            },
            None => {
                assert forall|k: int| 0 <= k < s.len() implies !(s[k] == 'e' || s[k] == 'E') by {
                    if k > 0 {
                        assert(s.drop_first()[k - 1] == s[k]);
                    }
                }
            },
        }
    }
}

fn all_digits_range(c: &Vec<char>, from: usize, to: usize) -> (r: bool)
    requires
        from <= to <= c@.len(),
    ensures
        r == all_digits_seq(c@.subrange(from as int, to as int)),
{
    let mut i = from;
    while i < to
        invariant
            from <= i <= to,
            to <= c@.len(),
            forall|k: int| from <= k < i ==> crate::text::is_ascii_digit(#[trigger] c@[k]),
        decreases to - i,
    {
        if !('0' <= c[i] && c[i] <= '9') {
            assert(c@.subrange(from as int, to as int)[i - from] == c@[i as int]);
            return false;
        }
        i = i + 1;
    }
    assert forall|k: int| 0 <= k < to - from implies crate::text::is_ascii_digit(
        #[trigger] c@.subrange(from as int, to as int)[k],
    ) by {
        assert(c@.subrange(from as int, to as int)[k] == c@[from + k]);
    }
    true
}

fn mantissa_check(c: &Vec<char>, from: usize, to: usize) -> (r: bool)
    requires
        from <= to <= c@.len(),
    ensures
        r == mantissa_ok(c@.subrange(from as int, to as int)),
{
    let ghost m = c@.subrange(from as int, to as int);
    let mut dot: usize = from;
    while dot < to && c[dot] != '.'
        invariant
            from <= dot <= to,
            to <= c@.len(),
            forall|k: int| from <= k < dot ==> c@[k] != '.',
        decreases to - dot,
    {
        dot = dot + 1;
    }
    if dot == to {
        let ok = to > from && all_digits_range(c, from, to);
        proof {
            if !ok && m.len() >= 2 {
                assert forall|d: int| !(0 <= d < m.len() && m[d] == '.' && all_digits_seq(m.take(d)) && all_digits_seq(m.skip(d + 1))) by {
                    if 0 <= d < m.len() {
                        assert(m[d] == c@[from + d]);
                    }
                }
            }
        }
        return ok;
    }
    let a = all_digits_range(c, from, dot);
    let b = all_digits_range(c, dot + 1, to);
    let ok = (to - from) >= 2 && a && b;
    proof {
        let d = dot - from;
        assert(m[d] == '.');
        assert(m.take(d) =~= c@.subrange(from as int, dot as int));
        assert(m.skip(d + 1) =~= c@.subrange(dot + 1, to as int));
        if ok {
            assert(mantissa_ok(m));
        } else {
            assert(!all_digits_seq(m)) by {
                assert(!crate::text::is_ascii_digit(m[d]));
            }
            if m.len() >= 2 {
                assert forall|d2: int| !(0 <= d2 < m.len() && m[d2] == '.' && all_digits_seq(m.take(d2)) && all_digits_seq(m.skip(d2 + 1))) by {
                    if 0 <= d2 < m.len() && m[d2] == '.' && all_digits_seq(m.take(d2)) && all_digits_seq(m.skip(d2 + 1)) {
                        if d2 < d {
                            assert(m[d2] == c@[from + d2]);
                        } else if d2 > d {
                            assert(m.take(d2)[d] == '.');
                            assert(!crate::text::is_ascii_digit(m.take(d2)[d]));
                        } else {
                            assert(a && b);
                        }
                    }
                }
            }
        }
    }
    ok
}

/// Whether a text is a finite decimal number.
pub fn is_decimal_number(s: &str) -> (r: bool)
    ensures
        r == decimal_number_text(s@),
{
    let c = chars_of(s);
    let start: usize = if c.len() > 0 && (c[0] == '+' || c[0] == '-') {
        1
    } else {
        0
    };
    let ghost b = c@.subrange(start as int, c@.len() as int);
    proof {
        if start == 1 {
            assert(b =~= s@.drop_first());
        } else {
            assert(b =~= s@);
        }
    }
    let mut e: usize = start;
    while e < c.len() && c[e] != 'e' && c[e] != 'E'
        invariant
            start <= e <= c.len(),
            forall|m: int| start <= m < e ==> !(c@[m] == 'e' || c@[m] == 'E'),
        decreases c.len() - e,
    {
        e = e + 1;
    }
    proof {
        lemma_exp_index(b);
    }
    if e == c.len() {
        proof {
            match exp_index(b) {
                Some(x) => {
                    assert(b[x] == c@[start + x]);
                },
                None => {},
            }
        }
        let r = mantissa_check(&c, start, c.len());
        return r;
    }
    proof {
        let x = e - start;
        assert(b[x] == c@[e as int]);
        match exp_index(b) {
            Some(y) => {
                if y < x {
                    assert(b[y] == c@[start + y]);
                }
                if y > x {
                    assert(!(b[x] == 'e' || b[x] == 'E'));
                }
            },
            None => {},
        }
        assert(exp_index(b) == Some(x as int));
        assert(b.take(x as int) =~= c@.subrange(start as int, e as int));
    }
    let m = mantissa_check(&c, start, e);
    let mut x = e + 1;
    if x < c.len() && (c[x] == '+' || c[x] == '-') {
        x = x + 1;
    }
    let ex = x < c.len() && all_digits_range(&c, x, c.len());
    proof {
        let xs = b.skip((e - start) + 1);
        assert(xs =~= c@.subrange(e + 1, c@.len() as int));
        if xs.len() > 0 && (xs[0] == '+' || xs[0] == '-') {
            assert(xs.drop_first() =~= c@.subrange(x as int, c@.len() as int));
        } else {
            assert(xs =~= c@.subrange(x as int, c@.len() as int));
        }
    }
    m && ex
}

/// The member names that mark an object as an odds record.
pub open spec fn odd_keys() -> Seq<Seq<char>> {
    seq![
        "bookmaker_id"@,
        "bookmakerId"@,
        "bookmaker"@,
        "market_type"@,
        "marketType"@,
        "selection_key"@,
        "selectionKey"@,
        "odds_value"@,
        "oddsValue"@,
    ]
}

pub open spec fn has_odd_field(f: Seq<(Seq<char>, JsonV)>) -> bool {
    exists|j: int| 0 <= j < odd_keys().len() && key_index(f, #[trigger] odd_keys()[j]) is Some
}

/// The odds records of a legacy value, in document order: an object with an
/// odds field is a record (and is not searched further); other objects and
/// lists are searched member by member.
pub open spec fn odds_objects(j: JsonV) -> Seq<JsonV>
    decreases j, 0nat,
{
    match j {
        JsonV::Object(f) => if has_odd_field(f) {
            seq![j]
        } else {
            odds_objects_fields(f)
        },
        JsonV::Array(items) => odds_objects_list(items),
        _ => Seq::empty(),
    }
}

pub open spec fn odds_objects_list(s: Seq<JsonV>) -> Seq<JsonV>
    decreases s, 0nat,
{
    if s.len() == 0 {
        Seq::empty()
    } else {
        odds_objects_list(s.drop_last()) + odds_objects(s.last())
    }
}

pub open spec fn odds_objects_fields(f: Seq<(Seq<char>, JsonV)>) -> Seq<JsonV>
    decreases f, 0nat,
{
    if f.len() == 0 {
        Seq::empty()
    } else {
        odds_objects_fields(f.drop_last()) + odds_objects(f.last().1)
    }
}

fn has_odd_field_exec(fields: &Vec<(String, Json)>) -> (r: bool)
    ensures
        r == has_odd_field(fields_view(fields@)),
{
    let keys: [&str; 9] = [
        "bookmaker_id",
        "bookmakerId",
        "bookmaker",
        "market_type",
        "marketType",
        "selection_key",
        "selectionKey",
        "odds_value",
        "oddsValue",
    ];
    assert(crate::feed::adapters::key_views(keys@) =~= odd_keys());
    let mut i: usize = 0;
    while i < 9
        invariant
            i <= 9,
            crate::feed::adapters::key_views(keys@) == odd_keys(),
            forall|j: int| 0 <= j < i ==> key_index(fields_view(fields@), #[trigger] odd_keys()[j]) is None,
        decreases 9 - i,
    {
        assert(odd_keys()[i as int] == keys@[i as int]@);
        if find_index(fields, keys[i]).is_some() {
            return true;
        }
        i = i + 1;
    }
    false
}

fn push_all(out: &mut Vec<Json>, more: Vec<Json>)
    ensures
        items_view(final(out)@) == items_view(old(out)@) + items_view(more@),
{
    let mut m = more;
    let ghost a = out@;
    let ghost b = m@;
    out.append(&mut m);
    proof {
        lemma_items_view(a);
        lemma_items_view(b);
        lemma_items_view(out@);
        assert(out@ =~= a + b);
        assert(items_view(out@) =~= items_view(a) + items_view(b));
    }
}

/// Collects the odds records of a legacy value.
pub fn collect_odds_objects(value: &Json) -> (r: Vec<Json>)
    ensures
        items_view(r@) == odds_objects(value@),
    decreases value,
{
    let mut out: Vec<Json> = Vec::new();
    proof {
        lemma_items_view(out@);
        assert(items_view(out@) =~= Seq::<JsonV>::empty());
    }
    match value {
        Json::Object(fields) => {
            if has_odd_field_exec(fields) {
                out.push(json_clone(value));
                proof {
                    lemma_items_view(out@);
                    assert(items_view(out@) =~= seq![value@]);
                }
                return out;
            }
            proof {
                lemma_fields_view(fields@);
            }
            let mut i: usize = 0;
            while i < fields.len()
                invariant
                    *value == Json::Object(*fields),
                    i <= fields.len(),
                    fields_view(fields@).len() == fields@.len(),
                    forall|k: int|
                        0 <= k < fields@.len() ==> #[trigger] fields_view(fields@)[k] == (fields@[k].0@, json_view(fields@[k].1)),
                    items_view(out@) == odds_objects_fields(fields_view(fields@).take(i as int)),
                decreases fields.len() - i,
            {
                proof {
                    assert(decreases_to!(*value => (*value)->Object_0));
                    assert(decreases_to!(*fields => fields@));
                    assert(decreases_to!(fields@ => fields@[i as int]));
                    assert(decreases_to!(fields@[i as int] => fields@[i as int].1));
                    let t = fields_view(fields@).take(i + 1);
                    assert(t.drop_last() =~= fields_view(fields@).take(i as int));
                }
                let sub = collect_odds_objects(&fields[i].1);
                push_all(&mut out, sub);
                i = i + 1;
            }
            assert(fields_view(fields@).take(fields.len() as int) =~= fields_view(fields@));
        },
        Json::Array(items) => {
            proof {
                lemma_items_view(items@);
            }
            let mut i: usize = 0;
            while i < items.len()
                invariant
                    *value == Json::Array(*items),
                    i <= items.len(),
                    items_view(items@).len() == items@.len(),
                    forall|k: int| 0 <= k < items@.len() ==> #[trigger] items_view(items@)[k] == json_view(items@[k]),
                    items_view(out@) == odds_objects_list(items_view(items@).take(i as int)),
                decreases items.len() - i,
            {
                proof {
                    assert(decreases_to!(*value => (*value)->Array_0));
                    assert(decreases_to!(*items => items@));
                    assert(decreases_to!(items@ => items@[i as int]));
                    let t = items_view(items@).take(i + 1);
                    assert(t.drop_last() =~= items_view(items@).take(i as int));
                }
                let sub = collect_odds_objects(&items[i]);
                push_all(&mut out, sub);
                i = i + 1;
            }
            assert(items_view(items@).take(items.len() as int) =~= items_view(items@));
        },
        _ => {},
    }
    out
}

/// A legacy odds record recovered from the old odds column.
#[derive(Debug, Clone)]
pub struct LegacyOdd {
    pub bookmaker_id: String,
    pub market_type: String,
    pub period: String,
    pub selection_key: String,
    pub line_value: String,
    pub odds_value: String,
    pub payload_json: String,
    pub payload_hash: String,
}

pub open spec fn bookmaker_keys() -> Seq<Seq<char>> {
    seq!["bookmaker_id"@, "bookmakerId"@, "bookmaker"@, "company_id"@, "companyId"@]
}

pub open spec fn market_keys() -> Seq<Seq<char>> {
    seq!["market_type"@, "marketType"@, "market"@, "market_name"@, "marketName"@]
}

pub open spec fn selection_keys() -> Seq<Seq<char>> {
    seq!["selection_key"@, "selectionKey"@, "selection"@, "outcome"@, "outcome_key"@]
}

pub open spec fn price_keys() -> Seq<Seq<char>> {
    seq!["odds_value"@, "oddsValue"@, "odds"@, "value"@, "price"@]
}

pub open spec fn odds_period_keys() -> Seq<Seq<char>> {
    seq!["period"@, "period_name"@, "periodName"@]
}

pub open spec fn line_keys() -> Seq<Seq<char>> {
    seq!["line_value"@, "lineValue"@, "line"@]
}

pub open spec fn or_empty(v: Option<Seq<char>>) -> Seq<char> {
    match v {
        Some(s) => s,
        None => Seq::empty(),
    }
}

/// A record is recoverable when it names a bookmaker, a market, a selection
/// and a price that is a finite decimal number.
pub open spec fn recoverable(f: Seq<(Seq<char>, JsonV)>) -> bool {
    &&& first_scalar_of(f, bookmaker_keys()) is Some
    &&& first_scalar_of(f, market_keys()) is Some
    &&& first_scalar_of(f, selection_keys()) is Some
    &&& first_scalar_of(f, price_keys()) matches Some(p) && decimal_number_text(p)
}

pub open spec fn legacy_odd_of(o: LegacyOdd, f: Seq<(Seq<char>, JsonV)>) -> bool {
    &&& Some(o.bookmaker_id@) == first_scalar_of(f, bookmaker_keys())
    &&& Some(o.market_type@) == first_scalar_of(f, market_keys())
    &&& Some(o.selection_key@) == first_scalar_of(f, selection_keys())
    &&& Some(o.odds_value@) == first_scalar_of(f, price_keys())
    &&& o.period@ == or_empty(first_scalar_of(f, odds_period_keys()))
    &&& o.line_value@ == or_empty(first_scalar_of(f, line_keys()))
    &&& o.payload_json@ == canon(JsonV::Object(f))
    &&& o.payload_hash@ == digest_text(canon(JsonV::Object(f)))
}

/// The recoverable records among the collected ones, in order.
pub open spec fn recoverable_records(objs: Seq<JsonV>) -> Seq<Seq<(Seq<char>, JsonV)>>
    decreases objs.len(),
{
    if objs.len() == 0 {
        Seq::empty()
    } else {
        let prev = recoverable_records(objs.drop_last());
        match objs.last() {
            JsonV::Object(f) => if recoverable(f) {
                prev.push(f)
            } else {
                prev
            },
            _ => prev,
        }
    }
}

/// Legacy odds are converted only when they are complete: every record that
/// conversion keeps names a bookmaker, a market and a selection and carries a
/// price that is a finite decimal number, and an odd made from such a record keeps
/// that price.
pub proof fn converted_legacy_odds_are_complete(objs: Seq<JsonV>, j: int, o: LegacyOdd)
    requires
        0 <= j < recoverable_records(objs).len(),
        legacy_odd_of(o, recoverable_records(objs)[j]),
    ensures
        recoverable(recoverable_records(objs)[j]),
        decimal_number_text(o.odds_value@),
    decreases objs.len(),
{
    let prev = recoverable_records(objs.drop_last());
    if j < prev.len() {
        converted_legacy_odds_are_complete(objs.drop_last(), j, o);
        assert(recoverable_records(objs)[j] == prev[j]);
    }
}

/// Invalid detail JSON is never coerced into a structured value: a column
/// whose text does not parse is classified as unparseable and keeps no data.
pub proof fn unparseable_detail_is_never_data(
    v: SectionValue,
    raw: Seq<char>,
    section: Seq<char>,
    message: Seq<char>,
)
    requires
        trim(raw).len() > 0,
        section_value_of(v, Some(raw), section, Err(message)),
    ensures
        v.status@ == "UNPARSEABLE"@,
        v.is_unparseable,
        !v.is_empty,
        v.data_json is None,
{
}

fn keyed(object: &Vec<(String, Json)>, keys: &[&str], expected: Ghost<Seq<Seq<char>>>) -> (r: Option<String>)
    requires
        crate::feed::adapters::key_views(keys@) == expected@,
    ensures
        opt_string_view(r) == first_scalar_of(fields_view(object@), expected@),
{
    first_scalar(object, keys)
}

/// Recovers the odds records of a legacy odds column from its text (see
/// `legacy_odds_of_parse`).
pub fn parse_legacy_odds(raw: &str) -> (r: (Vec<LegacyOdd>, bool))
    ensures
        match json_parse(raw@) {
            Err(_) => r.0@.len() == 0 && !r.1,
            Ok(v) => {
                &&& r.1 == (odds_objects(v).len() > 0)
                &&& r.0@.len() == recoverable_records(odds_objects(v)).len()
                &&& forall|j: int|
                    0 <= j < r.0@.len() ==> legacy_odd_of(#[trigger] r.0@[j], recoverable_records(odds_objects(v))[j])
            },
        },
{
    let parsed = parse_json_text(raw);
    legacy_odds_of_parse(&parsed)
}

/// Recovers the odds records of a legacy odds column, given the column's
/// JSON parse.  Also tells whether any odds-like record was seen.
pub fn legacy_odds_of_parse(parsed: &Result<Json, String>) -> (r: (Vec<LegacyOdd>, bool))
    ensures
        match parsed {
            Err(_) => r.0@.len() == 0 && !r.1,
            Ok(v) => {
                &&& r.1 == (odds_objects(v@).len() > 0)
                &&& r.0@.len() == recoverable_records(odds_objects(v@)).len()
                &&& forall|j: int|
                    0 <= j < r.0@.len() ==> legacy_odd_of(#[trigger] r.0@[j], recoverable_records(odds_objects(v@))[j])
            },
        },
{
    let value = match parsed {
        Ok(v) => v,
        Err(_) => {
            return (Vec::new(), false);
        },
    };
    let objects = collect_odds_objects(value);
    proof {
        lemma_items_view(objects@);
    }
    let ghost ov = items_view(objects@);
    let had_objects = objects.len() > 0;
    let bk: [&str; 5] = ["bookmaker_id", "bookmakerId", "bookmaker", "company_id", "companyId"];
    let mk: [&str; 5] = ["market_type", "marketType", "market", "market_name", "marketName"];
    let sk: [&str; 5] = ["selection_key", "selectionKey", "selection", "outcome", "outcome_key"];
    let pk: [&str; 5] = ["odds_value", "oddsValue", "odds", "value", "price"];
    let per: [&str; 3] = ["period", "period_name", "periodName"];
    let lk: [&str; 3] = ["line_value", "lineValue", "line"];
    assert(crate::feed::adapters::key_views(bk@) =~= bookmaker_keys());
    assert(crate::feed::adapters::key_views(mk@) =~= market_keys());
    assert(crate::feed::adapters::key_views(sk@) =~= selection_keys());
    assert(crate::feed::adapters::key_views(pk@) =~= price_keys());
    assert(crate::feed::adapters::key_views(per@) =~= odds_period_keys());
    assert(crate::feed::adapters::key_views(lk@) =~= line_keys());
    let mut parsed_odds: Vec<LegacyOdd> = Vec::new();
    let mut i: usize = 0;
    while i < objects.len()
        invariant
            i <= objects.len(),
            ov == items_view(objects@),
            ov.len() == objects@.len(),
            forall|m: int| 0 <= m < objects@.len() ==> #[trigger] ov[m] == json_view(objects@[m]),
            crate::feed::adapters::key_views(bk@) == bookmaker_keys(),
            crate::feed::adapters::key_views(mk@) == market_keys(),
            crate::feed::adapters::key_views(sk@) == selection_keys(),
            crate::feed::adapters::key_views(pk@) == price_keys(),
            crate::feed::adapters::key_views(per@) == odds_period_keys(),
            crate::feed::adapters::key_views(lk@) == line_keys(),
            parsed_odds@.len() == recoverable_records(ov.take(i as int)).len(),
            forall|j: int|
                0 <= j < parsed_odds@.len() ==> legacy_odd_of(#[trigger] parsed_odds@[j], recoverable_records(ov.take(i as int))[j]),
        decreases objects.len() - i,
    {
        let ghost t = ov.take(i + 1);
        assert(t.drop_last() =~= ov.take(i as int));
        assert(t.last() == ov[i as int]);
        match &objects[i] {
            Json::Object(f) => {
                let b = keyed(f, &bk, Ghost(bookmaker_keys()));
                let m = keyed(f, &mk, Ghost(market_keys()));
                let s = keyed(f, &sk, Ghost(selection_keys()));
                let p = keyed(f, &pk, Ghost(price_keys()));
                match (b, m, s, p) {
                    (Some(b), Some(m), Some(s), Some(p)) => {
                        if is_decimal_number(p.as_str()) {
                            let period = match keyed(f, &per, Ghost(odds_period_keys())) {
                                Some(x) => x,
                                None => String::new(),
                            };
                            let line = match keyed(f, &lk, Ghost(line_keys())) {
                                Some(x) => x,
                                None => String::new(),
                            };
                            let payload_json = json_text(&objects[i]);
                            let payload_hash = json_hash(payload_json.as_str());
                            parsed_odds.push(
                                LegacyOdd {
                                    bookmaker_id: b,
                                    market_type: m,
                                    period,
                                    selection_key: s,
                                    line_value: line,
                                    odds_value: p,
                                    payload_json,
                                    payload_hash,
                                },
                            );
                        }
                    },
                    _ => {},
                }
            },
            _ => {},
        }
        i = i + 1;
    }
    assert(ov.take(ov.len() as int) =~= ov);
    (parsed_odds, had_objects)
}

/// Texts in strictly ascending order (the iteration order of a set of
/// strings).
pub open spec fn ascending(v: Seq<Seq<char>>) -> bool {
    forall|i: int, k: int| 0 <= i < k < v.len() ==> key_lt(#[trigger] v[i], #[trigger] v[k])
}

/// Adds a text to an ascending set of texts, keeping it ascending and
/// without repeats.
pub fn add_unmappable(set: &mut Vec<String>, value: String)
    requires
        ascending(crate::crawler::snapshot::texts(old(set)@)),
    ensures
        ascending(crate::crawler::snapshot::texts(final(set)@)),
        names(final(set)@) == names(old(set)@).insert(value@),
{
    let ghost before = crate::crawler::snapshot::texts(set@);
    let mut i: usize = 0;
    while i < set.len() && key_less(set[i].as_str(), value.as_str())
        invariant
            i <= set.len(),
            before == crate::crawler::snapshot::texts(set@),
            forall|k: int| 0 <= k < i ==> key_lt(#[trigger] before[k], value@),
        decreases set.len() - i,
    {
        i = i + 1;
    }
    if i < set.len() && str_eq(set[i].as_str(), value.as_str()) {
        proof {
            assert(names(set@).contains(value@)) by {
                assert(set@[i as int]@ == value@);
            }
            assert(names(set@) =~= names(set@).insert(value@));
        }
        return ;
    }
    let ghost old_set = set@;
    proof {
        if i < set.len() {
            assert(before[i as int] == set@[i as int]@);
            lemma_seq_order(before[i as int], value@);
            assert(key_lt(value@, before[i as int]));
        }
    }
    set.insert(i, value);
    let ghost after = crate::crawler::snapshot::texts(set@);
    proof {
        assert(after =~= before.insert(i as int, value@));
        assert forall|a: int, b: int| 0 <= a < b < after.len() implies key_lt(#[trigger] after[a], #[trigger] after[b]) by {
            if b < i {
                assert(after[a] == before[a] && after[b] == before[b]);
            } else if b == i {
                assert(after[b] == value@);
                assert(after[a] == before[a]);
            } else if a < i {
                assert(after[a] == before[a]);
                assert(after[b] == before[b - 1]);
                assert(key_lt(before[a], value@));
                assert(key_lt(value@, before[i as int]));
                if b - 1 > i {
                    assert(key_lt(before[i as int], before[b - 1]));
                    lemma_seq_order_transitive(value@, before[i as int], before[b - 1]);
                }
                lemma_seq_order_transitive(before[a], value@, before[b - 1]);
            } else if a == i {
                assert(after[a] == value@);
                assert(after[b] == before[b - 1]);
                if b - 1 > i {
                    assert(key_lt(before[i as int], before[b - 1]));
                    lemma_seq_order_transitive(value@, before[i as int], before[b - 1]);
                }
            } else {
                assert(after[a] == before[a - 1]);
                assert(after[b] == before[b - 1]);
            }
        }
        assert forall|x: Seq<char>| #[trigger] names(set@).contains(x) == names(old_set).insert(value@).contains(x) by {
            if names(old_set).contains(x) {
                let j = choose|j: int| 0 <= j < old_set.len() && (#[trigger] old_set[j])@ == x;
                if j < i {
                    assert(set@[j] == old_set[j]);
                } else {
                    assert(set@[j + 1] == old_set[j]);
                }
            }
            if x == value@ {
                assert(set@[i as int]@ == x);
            }
            if names(set@).contains(x) {
                let j = choose|j: int| 0 <= j < set@.len() && (#[trigger] set@[j])@ == x;
                if j < i {
                    assert(old_set[j] == set@[j]);
                } else if j > i {
                    assert(old_set[j - 1] == set@[j]);
                }
            }
        }
        assert(names(set@) =~= names(old_set).insert(value@));
    }
}

/// A legacy detail row read from the old table.
#[derive(Debug, Clone)]
pub struct LegacyDetailRow {
    pub match_id: String,
    pub incidents: Option<String>,
    pub stats: Option<String>,
    pub lineups: Option<String>,
    pub odds: Option<String>,
    pub h2h: Option<String>,
    pub last_updated: Option<i64>,
    pub dataset_id: String,
}

/// The provenance of a converted legacy section.
pub fn legacy_provenance(section_name: &str) -> (r: String)
    ensures
        r@ == "legacy:match_details."@ + section_name@,
{
    let mut v: Vec<char> = Vec::new();
    extend_str(&mut v, "legacy:match_details.");
    extend_str(&mut v, section_name);
    string_from_chars(&v)
}

/// The source timestamp of a legacy row: its update time as text.
pub fn legacy_source_timestamp(last_updated: Option<i64>) -> (r: Option<String>)
    ensures
        opt_string_view(r) == match last_updated {
            Some(t) => Some(crate::json::int_text_of(t as int)),
            None => None,
        },
{
    match last_updated {
        Some(t) => Some(crate::json::int_to_text(t)),
        None => None,
    }
}

/// Counts one converted section in the report, and records an unparseable
/// one as `{match}:{section}:unparseable`.
pub fn record_section(
    report: &mut LegacyConversionReport,
    unmappable: &mut Vec<String>,
    match_id: &str,
    section_name: &str,
    section: &SectionValue,
)
    requires
        ascending(crate::crawler::snapshot::texts(old(unmappable)@)),
        old(report).sections_converted < usize::MAX,
        old(report).empty_sections < usize::MAX,
        old(report).unparseable_sections < usize::MAX,
    ensures
        ascending(crate::crawler::snapshot::texts(final(unmappable)@)),
        final(report).sections_converted == old(report).sections_converted + 1,
        final(report).empty_sections == old(report).empty_sections + (if section.is_empty {
            1int
        } else {
            0int
        }),
        final(report).unparseable_sections == old(report).unparseable_sections + (if section.is_unparseable {
            1int
        } else {
            0int
        }),
        final(report).odds_converted == old(report).odds_converted,
        names(final(unmappable)@) == if section.is_unparseable {
            names(old(unmappable)@).insert(match_id@ + ":"@ + section_name@ + ":unparseable"@)
        } else {
            names(old(unmappable)@)
        },
{
    report.sections_converted = report.sections_converted + 1;
    if section.is_empty {
        report.empty_sections = report.empty_sections + 1;
    }
    if section.is_unparseable {
        report.unparseable_sections = report.unparseable_sections + 1;
        let mut m: Vec<char> = Vec::new();
        extend_str(&mut m, match_id);
        extend_str(&mut m, ":");
        extend_str(&mut m, section_name);
        extend_str(&mut m, ":unparseable");
        add_unmappable(unmappable, string_from_chars(&m));
    }
}

/// The marker recorded for an odds column none of whose records could be
/// recovered although the column is not empty: `unmappable` when odds-like
/// records were seen, `no-parseable-record` otherwise.
pub fn odds_marker(match_id: &str, recovered: usize, column_empty: bool, had_records: bool) -> (r: Option<String>)
    ensures
        match r {
            Some(m) => recovered == 0 && !column_empty && m@ == match_id@ + (if had_records {
                ":odds:unmappable"@
            } else {
                ":odds:no-parseable-record"@
            }),
            None => recovered > 0 || column_empty,
        },
{
    if recovered > 0 || column_empty {
        return None;
    }
    let mut m: Vec<char> = Vec::new();
    extend_str(&mut m, match_id);
    if had_records {
        extend_str(&mut m, ":odds:unmappable");
    } else {
        extend_str(&mut m, ":odds:no-parseable-record");
    }
    Some(string_from_chars(&m))
}

/// The event key of a converted legacy quote.
pub fn legacy_odds_event_key(row: &LegacyDetailRow, odd: &LegacyOdd) -> (r: String)
    ensures
        r@ == "legacy:"@ + row.match_id@ + ":"@ + row.dataset_id@ + ":"@ + odd.bookmaker_id@ + ":"@
            + odd.market_type@ + ":"@ + odd.period@ + ":"@ + odd.selection_key@ + ":"@
            + odd.line_value@ + ":"@ + odd.payload_hash@,
{
    let mut v: Vec<char> = Vec::new();
    extend_str(&mut v, "legacy:");
    extend_str(&mut v, row.match_id.as_str());
    extend_str(&mut v, ":");
    extend_str(&mut v, row.dataset_id.as_str());
    extend_str(&mut v, ":");
    extend_str(&mut v, odd.bookmaker_id.as_str());
    extend_str(&mut v, ":");
    extend_str(&mut v, odd.market_type.as_str());
    extend_str(&mut v, ":");
    extend_str(&mut v, odd.period.as_str());
    extend_str(&mut v, ":");
    extend_str(&mut v, odd.selection_key.as_str());
    extend_str(&mut v, ":");
    extend_str(&mut v, odd.line_value.as_str());
    extend_str(&mut v, ":");
    extend_str(&mut v, odd.payload_hash.as_str());
    string_from_chars(&v)
}

/// The state a legacy match starts its history with.
pub fn legacy_state_label(status_id: i32, is_live: bool) -> (r: &'static str)
    ensures
        r@ == if status_id == 8 {
            "FINISHED"@
        } else if is_live {
            "LIVE"@
        } else {
            "LEGACY_IMPORTED"@
        },
{
    if status_id == 8 {
        "FINISHED"
    } else if is_live {
        "LIVE"
    } else {
        "LEGACY_IMPORTED"
    }
}

/// The payload hash of a legacy state row: FNV-1a of
/// `{id}|{dataset}|{status}|{home}|{away}`.
pub fn legacy_state_hash(
    id: &str,
    dataset_id: &str,
    status_id: i32,
    home_scores: Option<&str>,
    away_scores: Option<&str>,
) -> (r: String)
    ensures
        r@ == hex_u64(fnv1a(vstd::utf8::encode_utf8(id@ + "|"@ + dataset_id@ + "|"@ + crate::json::int_text_of(status_id as int) + "|"@ + or_empty(
            match home_scores {
                Some(h) => Some(h@),
                None => None,
            },
        ) + "|"@ + or_empty(
            match away_scores {
                Some(a) => Some(a@),
                None => None,
            },
        )))),
{
    let mut v: Vec<char> = Vec::new();
    extend_str(&mut v, id);
    extend_str(&mut v, "|");
    extend_str(&mut v, dataset_id);
    extend_str(&mut v, "|");
    let n = crate::json::int_to_text(status_id as i64);
    extend_str(&mut v, n.as_str());
    extend_str(&mut v, "|");
    match home_scores {
        Some(h) => extend_str(&mut v, h),
        None => {},
    }
    extend_str(&mut v, "|");
    match away_scores {
        Some(a) => extend_str(&mut v, a),
        None => {},
    }
    let text = string_from_chars(&v);
    fnv1a_hex(text.as_str().as_bytes())
}

/// Whether a legacy match was live, by its status code.
pub fn archived_match_is_live(sport_id: i32, status_id: i32) -> (r: bool)
    ensures
        r == crate::crawler::snapshot::live_status_code(sport_id as int, status_id as int),
{
    crate::crawler::snapshot::is_live_status(sport_id, status_id)
}

/// The retained name of an archived table: `{table}_legacy_v1`, then
/// `{table}_legacy_v1_N` from 2.
pub open spec fn archive_candidate(table: Seq<char>, n: int) -> Seq<char> {
    if n <= 1 {
        table + "_legacy_v1"@
    } else {
        table + "_legacy_v1_"@ + crate::json::nat_text(n as nat)
    }
}

/// The first free archive name among the first 9999 candidates.
pub fn next_archive_name(table: &str, existing: &Vec<String>) -> (r: Option<String>)
    ensures
        match r {
            Some(name) => exists|n: int|
                1 <= n < 10000 && name@ == archive_candidate(table@, n) && !names(existing@).contains(
                    name@,
                ) && forall|m: int| 1 <= m < n ==> names(existing@).contains(#[trigger] archive_candidate(table@, m)),
            None => forall|m: int| 1 <= m < 10000 ==> names(existing@).contains(#[trigger] archive_candidate(table@, m)),
        },
{
    let mut n: u64 = 1;
    while n < 10000
        invariant
            1 <= n <= 10000,
            forall|m: int| 1 <= m < n ==> names(existing@).contains(#[trigger] archive_candidate(table@, m)),
        decreases 10000 - n,
    {
        let mut v: Vec<char> = Vec::new();
        extend_str(&mut v, table);
        if n == 1 {
            extend_str(&mut v, "_legacy_v1");
        } else {
            extend_str(&mut v, "_legacy_v1_");
            let d = crate::json::nat_digits(n);
            extend_chars(&mut v, &d);
        }
        let name = string_from_chars(&v);
        assert(name@ == archive_candidate(table@, n as int));
        if !crate::text::contains_name(existing, name.as_str()) {
            return Some(name);
        }
        n = n + 1;
    }
    None
}

/// `name.eq_ignore_ascii_case(column)`.
pub fn column_named(name: &str, column: &str) -> (r: bool)
    ensures
        r == (lower_seq(name@) == lower_seq(column@)),
{
    let a = crate::text::lower_chars(&chars_of(name));
    let b = crate::text::lower_chars(&chars_of(column));
    crate::text::chars_eq(&a, &b)
}

/// The columns an older database gains, in order: table, column
/// definition, column name.
pub open spec fn compatibility_plan() -> Seq<(Seq<char>, Seq<char>, Seq<char>)> {
    seq![
        ("datasets"@, "generation_order INTEGER NOT NULL DEFAULT 0"@, "generation_order"@),
        ("datasets"@, "schema_generation INTEGER NOT NULL DEFAULT 3"@, "schema_generation"@),
        ("dataset_sports"@, "synced INTEGER NOT NULL DEFAULT 0"@, "synced"@),
        ("dataset_sports"@, "synced_at TEXT NOT NULL DEFAULT ''"@, "synced_at"@),
        ("competitions"@, "raw_payload TEXT"@, "raw_payload"@),
        ("competitions"@, "synced INTEGER NOT NULL DEFAULT 0"@, "synced"@),
        ("competitions"@, "updated_at TEXT"@, "updated_at"@),
        ("competitions"@, "dataset_id TEXT NOT NULL DEFAULT 'legacy-dataset-id'"@, "dataset_id"@),
        ("teams"@, "raw_payload TEXT"@, "raw_payload"@),
        ("teams"@, "synced INTEGER NOT NULL DEFAULT 0"@, "synced"@),
        ("teams"@, "updated_at TEXT"@, "updated_at"@),
        ("teams"@, "dataset_id TEXT NOT NULL DEFAULT 'legacy-dataset-id'"@, "dataset_id"@),
        ("matches"@, "is_live INTEGER NOT NULL DEFAULT 0"@, "is_live"@),
        ("matches"@, "raw_payload TEXT"@, "raw_payload"@),
        ("matches"@, "synced INTEGER NOT NULL DEFAULT 0"@, "synced"@),
        ("matches"@, "updated_at TEXT"@, "updated_at"@),
        ("matches"@, "dataset_id TEXT NOT NULL DEFAULT 'legacy-dataset-id'"@, "dataset_id"@),
        ("match_details"@, "raw_payload TEXT"@, "raw_payload"@),
        ("match_details"@, "synced INTEGER NOT NULL DEFAULT 0"@, "synced"@),
        ("match_details"@, "updated_at TEXT"@, "updated_at"@),
        ("match_details"@, "dataset_id TEXT NOT NULL DEFAULT 'legacy-dataset-id'"@, "dataset_id"@),
    ]
}

pub open spec fn plan_view(v: Seq<(&str, &str, &str)>) -> Seq<(Seq<char>, Seq<char>, Seq<char>)> {
    v.map_values(|t: (&str, &str, &str)| (t.0@, t.1@, t.2@))
}

pub fn compatibility_columns() -> (r: Vec<(&'static str, &'static str, &'static str)>)
    ensures
        plan_view(r@) == compatibility_plan(),
{
    let mut v: Vec<(&'static str, &'static str, &'static str)> = Vec::new();
    v.push(("datasets", "generation_order INTEGER NOT NULL DEFAULT 0", "generation_order"));
    v.push(("datasets", "schema_generation INTEGER NOT NULL DEFAULT 3", "schema_generation"));
    v.push(("dataset_sports", "synced INTEGER NOT NULL DEFAULT 0", "synced"));
    v.push(("dataset_sports", "synced_at TEXT NOT NULL DEFAULT ''", "synced_at"));
    v.push(("competitions", "raw_payload TEXT", "raw_payload"));
    v.push(("competitions", "synced INTEGER NOT NULL DEFAULT 0", "synced"));
    v.push(("competitions", "updated_at TEXT", "updated_at"));
    v.push(("competitions", "dataset_id TEXT NOT NULL DEFAULT 'legacy-dataset-id'", "dataset_id"));
    v.push(("teams", "raw_payload TEXT", "raw_payload"));
    v.push(("teams", "synced INTEGER NOT NULL DEFAULT 0", "synced"));
    v.push(("teams", "updated_at TEXT", "updated_at"));
    v.push(("teams", "dataset_id TEXT NOT NULL DEFAULT 'legacy-dataset-id'", "dataset_id"));
    v.push(("matches", "is_live INTEGER NOT NULL DEFAULT 0", "is_live"));
    v.push(("matches", "raw_payload TEXT", "raw_payload"));
    v.push(("matches", "synced INTEGER NOT NULL DEFAULT 0", "synced"));
    v.push(("matches", "updated_at TEXT", "updated_at"));
    v.push(("matches", "dataset_id TEXT NOT NULL DEFAULT 'legacy-dataset-id'", "dataset_id"));
    v.push(("match_details", "raw_payload TEXT", "raw_payload"));
    v.push(("match_details", "synced INTEGER NOT NULL DEFAULT 0", "synced"));
    v.push(("match_details", "updated_at TEXT", "updated_at"));
    v.push(("match_details", "dataset_id TEXT NOT NULL DEFAULT 'legacy-dataset-id'", "dataset_id"));
    assert(plan_view(v@) =~= compatibility_plan());
    v
}

} // verus!
