use vstd::prelude::*;
use crate::domain::events::{opt_string_view, trim_timestamp, trimmed_timestamp};
use crate::json::Json;
use crate::text::{
    all_digits, is_ws, trim_end, trim_start, chars_eq_str, extend_chars, extend_str, is_ascii_digit, string_from_chars, trim,
    trim_str,
};

verus! {

/// Index of the first `.`, or -1.
pub open spec fn dot_index(s: Seq<char>) -> int
    decreases s.len(),
{
    if s.len() == 0 {
        -1
    } else if s[0] == '.' {
        0
    } else {
        let r = dot_index(s.drop_first());
        if r < 0 {
            -1
        } else {
            r + 1
        }
    }
}

pub proof fn lemma_dot_index(s: Seq<char>, j: int)
    requires
        0 <= j <= s.len(),
        forall|k: int| 0 <= k < j ==> s[k] != '.',
        j < s.len() ==> s[j] == '.',
    ensures
        dot_index(s) == if j < s.len() {
            j
        } else {
            -1
        },
    decreases s.len(),
{
    if s.len() > 0 && j > 0 {
        let t = s.drop_first();
        assert forall|k: int| 0 <= k < j - 1 implies t[k] != '.' by {
            assert(t[k] == s[k + 1]);
        }
        lemma_dot_index(t, j - 1);
    }
}

/// `trim_start_matches('0')`.
pub open spec fn strip_leading_zeros(s: Seq<char>) -> Seq<char>
    decreases s.len(),
{
    if s.len() > 0 && s[0] == '0' {
        strip_leading_zeros(s.drop_first())
    } else {
        s
    }
}

/// `trim_end_matches('0')`.
pub open spec fn strip_trailing_zeros(s: Seq<char>) -> Seq<char>
    decreases s.len(),
{
    if s.len() > 0 && s.last() == '0' {
        strip_trailing_zeros(s.drop_last())
    } else {
        s
    }
}

pub open spec fn digits_only(s: Seq<char>) -> bool {
    forall|i: int| 0 <= i < s.len() ==> is_ascii_digit(#[trigger] s[i])
}

/// Canonical decimal text: sign, integer part without leading zeros and
/// fraction without trailing zeros; empty for blank or malformed text, and
/// for text with no digit at all (`.`, `-.`), so a malformed quote never
/// reads as zero.
pub open spec fn decimal_norm(value: Seq<char>) -> Seq<char> {
    let v = trim(value);
    if v.len() == 0 {
        Seq::empty()
    } else {
        let neg = v[0] == '-';
        let body = if v[0] == '+' || v[0] == '-' {
            v.drop_first()
        } else {
            v
        };
        let i = dot_index(body);
        let integer = if i < 0 {
            body
        } else {
            body.take(i)
        };
        let has_fraction = i >= 0;
        let fraction = if i < 0 {
            Seq::empty()
        } else {
            body.skip(i + 1)
        };
        if has_fraction && dot_index(fraction) >= 0 {
            Seq::empty()
        } else if integer.len() == 0 && fraction.len() == 0 {
            Seq::empty()
        } else if !digits_only(integer) || (has_fraction && !digits_only(fraction)) {
            Seq::empty()
        } else {
            let z = strip_leading_zeros(integer);
            let int_part = if z.len() == 0 {
                "0"@
            } else {
                z
            };
            let frac = strip_trailing_zeros(fraction);
            if frac.len() == 0 {
                if neg && int_part != "0"@ {
                    "-"@ + int_part
                } else {
                    int_part
                }
            } else {
                (if neg {
                    "-"@
                } else {
                    Seq::empty()
                }) + int_part + "."@ + frac
            }
        }
    }
}

fn sub_chars(s: &[char], lo: usize, hi: usize) -> (r: Vec<char>)
    requires
        lo <= hi <= s.len(),
    ensures
        r@ == s@.subrange(lo as int, hi as int),
{
    let mut r: Vec<char> = Vec::new();
    let mut i = lo;
    while i < hi
        invariant
            lo <= i <= hi <= s.len(),
            r@ == s@.subrange(lo as int, i as int),
        decreases hi - i,
    {
        r.push(s[i]);
        i = i + 1;
        assert(s@.subrange(lo as int, i as int) =~= s@.subrange(lo as int, i - 1).push(s@[i - 1]));
    }
    r
}

fn first_dot(s: &[char]) -> (r: usize)
    ensures
        r <= s.len(),
        dot_index(s@) == if r < s.len() {
            r as int
        } else {
            -1
        },
{
    let mut j: usize = 0;
    while j < s.len() && s[j] != '.'
        invariant
            j <= s.len(),
            forall|k: int| 0 <= k < j ==> s@[k] != '.',
        decreases s.len() - j,
    {
        j = j + 1;
    }
    proof {
        lemma_dot_index(s@, j as int);
    }
    j
}

fn strip_leading_zeros_exec(s: &[char]) -> (r: Vec<char>)
    ensures
        r@ == strip_leading_zeros(s@),
{
    let mut lo: usize = 0;
    assert(s@.subrange(0, s@.len() as int) =~= s@);
    while lo < s.len() && s[lo] == '0'
        invariant
            lo <= s.len(),
            strip_leading_zeros(s@) == strip_leading_zeros(s@.subrange(lo as int, s@.len() as int)),
        decreases s.len() - lo,
    {
        assert(s@.subrange(lo as int, s@.len() as int).drop_first() =~= s@.subrange(
            lo + 1,
            s@.len() as int,
        ));
        lo = lo + 1;
    }
    sub_chars(s, lo, s.len())
}

fn strip_trailing_zeros_exec(s: &[char]) -> (r: Vec<char>)
    ensures
        r@ == strip_trailing_zeros(s@),
{
    let mut hi: usize = s.len();
    assert(s@.subrange(0, s@.len() as int) =~= s@);
    while hi > 0 && s[hi - 1] == '0'
        invariant
            hi <= s.len(),
            strip_trailing_zeros(s@) == strip_trailing_zeros(s@.subrange(0, hi as int)),
        decreases hi,
    {
        assert(s@.subrange(0, hi as int).drop_last() =~= s@.subrange(0, hi - 1));
        hi = hi - 1;
    }
    sub_chars(s, 0, hi)
}

fn empty_string() -> (r: String)
    ensures
        r@ == Seq::<char>::empty(),
{
    String::new()
}

/// Canonical decimal text without floating-point rounding. Empty and invalid
/// values remain empty so malformed source quotes cannot become zero odds.
pub fn normalize_decimal(value: &str) -> (r: String)
    ensures
        r@ == decimal_norm(value@),
{
    let v = trim_str(value);
    if v.len() == 0 {
        return empty_string();
    }
    let neg = v[0] == '-';
    let body = if v[0] == '+' || v[0] == '-' {
        let b = sub_chars(&v, 1, v.len());
        assert(b@ =~= v@.drop_first());
        b
    } else {
        v.clone()
    };
    let i = first_dot(&body);
    let has_fraction = i < body.len();
    let integer = sub_chars(&body, 0, i);
    let fraction = if has_fraction {
        sub_chars(&body, i + 1, body.len())
    } else {
        Vec::new()
    };
    proof {
        if has_fraction {
            assert(integer@ =~= body@.take(i as int));
            assert(fraction@ =~= body@.skip(i + 1));
        } else {
            assert(integer@ =~= body@);
        }
    }
    if has_fraction {
        let j = first_dot(&fraction);
        if j < fraction.len() {
            return empty_string();
        }
    }
    if integer.len() == 0 && fraction.len() == 0 {
        return empty_string();
    }
    if !all_digits(&integer) || (has_fraction && !all_digits(&fraction)) {
        return empty_string();
    }
    let z = strip_leading_zeros_exec(&integer);
    let mut int_part: Vec<char> = Vec::new();
    if z.len() == 0 {
        extend_str(&mut int_part, "0");
    } else {
        int_part = z;
    }
    let frac = strip_trailing_zeros_exec(&fraction);
    let mut out: Vec<char> = Vec::new();
    if frac.len() == 0 {
        if neg && !chars_eq_str(&int_part, "0") {
            extend_str(&mut out, "-");
        }
        extend_chars(&mut out, &int_part);
    } else {
        if neg {
            extend_str(&mut out, "-");
        }
        extend_chars(&mut out, &int_part);
        extend_str(&mut out, ".");
        extend_chars(&mut out, &frac);
    }
    proof {
        if frac.len() == 0 {
            if neg && int_part@ != "0"@ {
            } else {
                assert(out@ =~= int_part@);
            }
        } else {
            if !neg {
                assert(out@ =~= Seq::<char>::empty() + int_part@ + "."@ + frac@);
            }
        }
    }
    string_from_chars(&out)
}

/// The identity of one quoted price.
#[derive(Debug, Clone, PartialEq, Eq, Hash)]
pub struct OddsIdentity {
    pub match_id: String,
    pub bookmaker_id: String,
    pub market_type: String,
    pub period: String,
    pub selection_key: String,
    pub line_value: String,
}

/// One quoted price with its provenance.
pub struct OddsQuote {
    pub identity: OddsIdentity,
    pub odds_value: String,
    pub is_live: bool,
    pub source_timestamp: Option<String>,
    pub received_at: String,
    pub payload_hash: String,
    pub payload: Json,
}

fn trimmed(s: &str) -> (r: String)
    ensures
        r@ == trim(s@),
{
    let t = trim_str(s);
    string_from_chars(&t)
}

impl OddsQuote {
    pub fn new(
        match_id: &str,
        bookmaker_id: &str,
        market_type: &str,
        period: &str,
        selection_key: &str,
        line_value: Option<&str>,
        odds_value: &str,
        is_live: bool,
        source_timestamp: Option<String>,
        received_at: String,
        payload_hash: String,
        payload: Json,
    ) -> (r: Self)
        ensures
            r.identity.match_id@ == trim(match_id@),
            r.identity.bookmaker_id@ == trim(bookmaker_id@),
            r.identity.market_type@ == trim(market_type@),
            r.identity.period@ == trim(period@),
            r.identity.selection_key@ == trim(selection_key@),
            r.identity.line_value@ == decimal_norm(
                match line_value {
                    Some(l) => l@,
                    None => Seq::empty(),
                },
            ),
            r.odds_value@ == decimal_norm(odds_value@),
            r.is_live == is_live,
            opt_string_view(r.source_timestamp) == trimmed_timestamp(
                opt_string_view(source_timestamp),
            ),
            r.received_at == received_at,
            r.payload_hash == payload_hash,
            r.payload == payload,
    {
        let line: &str = match line_value {
            Some(l) => l,
            None => "",
        };
        proof {
            reveal_strlit("");
        }
        OddsQuote {
            identity: OddsIdentity {
                match_id: trimmed(match_id),
                bookmaker_id: trimmed(bookmaker_id),
                market_type: trimmed(market_type),
                period: trimmed(period),
                selection_key: trimmed(selection_key),
                line_value: normalize_decimal(line),
            },
            odds_value: normalize_decimal(odds_value),
            is_live,
            source_timestamp: trim_timestamp(source_timestamp),
            received_at,
            payload_hash,
            payload,
        }
    }

    /// Whether a previous price differs from this one after normalization
    /// (always, when there is no previous price).
    pub fn value_changed(&self, previous: Option<&str>) -> (r: bool)
        ensures
            r == match previous {
                Some(p) => decimal_norm(p@) != self.odds_value@,
                None => true,
            },
    {
        match previous {
            Some(p) => {
                let n = normalize_decimal(p);
                !crate::text::str_eq(n.as_str(), self.odds_value.as_str())
            },
            None => true,
        }
    }

    /// Idempotency key of the quote: identity, time (or match id), value and
    /// payload hash, joined by `|`.
    pub fn event_key(&self) -> (r: String)
        ensures
            r@ == self.identity.match_id@ + "|"@ + self.identity.bookmaker_id@ + "|"@
                + self.identity.market_type@ + "|"@ + self.identity.period@ + "|"@
                + self.identity.selection_key@ + "|"@ + self.identity.line_value@ + "|"@ + (
            match self.source_timestamp {
                Some(t) => if t@.len() > 0 {
                    t@
                } else {
                    self.identity.match_id@
                },
                None => self.identity.match_id@,
            }) + "|"@ + self.odds_value@ + "|"@ + self.payload_hash@,
    {
        let time_key: &str = match &self.source_timestamp {
            Some(t) => if !t.as_str().is_empty() {
                t.as_str()
            } else {
                self.identity.match_id.as_str()
            },
            None => self.identity.match_id.as_str(),
        };
        let mut out: Vec<char> = Vec::new();
        extend_str(&mut out, self.identity.match_id.as_str());
        extend_str(&mut out, "|");
        extend_str(&mut out, self.identity.bookmaker_id.as_str());
        extend_str(&mut out, "|");
        extend_str(&mut out, self.identity.market_type.as_str());
        extend_str(&mut out, "|");
        extend_str(&mut out, self.identity.period.as_str());
        extend_str(&mut out, "|");
        extend_str(&mut out, self.identity.selection_key.as_str());
        extend_str(&mut out, "|");
        extend_str(&mut out, self.identity.line_value.as_str());
        extend_str(&mut out, "|");
        extend_str(&mut out, time_key);
        extend_str(&mut out, "|");
        extend_str(&mut out, self.odds_value.as_str());
        extend_str(&mut out, "|");
        extend_str(&mut out, self.payload_hash.as_str());
        string_from_chars(&out)
    }
}


pub proof fn lemma_digits_no_dot(s: Seq<char>)
    requires
        digits_only(s),
    ensures
        dot_index(s) == -1,
{
    assert forall|k: int| 0 <= k < s.len() implies s[k] != '.' by {
        assert(is_ascii_digit(s[k]));
    }
    lemma_dot_index(s, s.len() as int);
}

pub proof fn lemma_strip_leading(s: Seq<char>)
    requires
        digits_only(s),
    ensures
        digits_only(strip_leading_zeros(s)),
        strip_leading_zeros(s).len() > 0 ==> strip_leading_zeros(s)[0] != '0',
        strip_leading_zeros(strip_leading_zeros(s)) == strip_leading_zeros(s),
    decreases s.len(),
{
    if s.len() > 0 && s[0] == '0' {
        let t = s.drop_first();
        assert(digits_only(t)) by {
            assert forall|i: int| 0 <= i < t.len() implies is_ascii_digit(#[trigger] t[i]) by {
                assert(t[i] == s[i + 1]);
            }
        }
        lemma_strip_leading(t);
    }
}

pub proof fn lemma_strip_trailing(s: Seq<char>)
    requires
        digits_only(s),
    ensures
        digits_only(strip_trailing_zeros(s)),
        strip_trailing_zeros(s).len() > 0 ==> strip_trailing_zeros(s).last() != '0',
        strip_trailing_zeros(strip_trailing_zeros(s)) == strip_trailing_zeros(s),
    decreases s.len(),
{
    if s.len() > 0 && s.last() == '0' {
        let t = s.drop_last();
        assert(digits_only(t)) by {
            assert forall|i: int| 0 <= i < t.len() implies is_ascii_digit(#[trigger] t[i]) by {
                assert(t[i] == s[i]);
            }
        }
        lemma_strip_trailing(t);
    }
}

proof fn lemma_trim_keeps(s: Seq<char>)
    requires
        s.len() > 0,
        !is_ws(s[0]),
        !is_ws(s.last()),
    ensures
        trim(s) == s,
{
    assert(trim_start(s) == s);
    assert(trim_end(s) == s);
}

/// Normalizing canonical decimal text changes nothing, so a stored price
/// compared with its own normal form never reads as a change.
pub proof fn decimal_norm_is_idempotent(x: Seq<char>)
    ensures
        decimal_norm(decimal_norm(x)) == decimal_norm(x),
{
    reveal_strlit("0");
    reveal_strlit("-");
    reveal_strlit(".");
    let out = decimal_norm(x);
    if out.len() == 0 {
        assert(out =~= Seq::<char>::empty());
        assert(trim_start(out) == out);
        assert(trim_end(out) == out);
        return;
    }
    let v = trim(x);
    let neg = v[0] == '-';
    let body = if v[0] == '+' || v[0] == '-' {
        v.drop_first()
    } else {
        v
    };
    let i = dot_index(body);
    let integer = if i < 0 {
        body
    } else {
        body.take(i)
    };
    let has_fraction = i >= 0;
    let fraction = if i < 0 {
        Seq::empty()
    } else {
        body.skip(i + 1)
    };
    assert(digits_only(integer));
    assert(has_fraction ==> digits_only(fraction));
    assert(digits_only(fraction)) by {
        if !has_fraction {
            assert(fraction.len() == 0);
        }
    }
    lemma_strip_leading(integer);
    lemma_strip_trailing(fraction);
    let z = strip_leading_zeros(integer);
    let int_part = if z.len() == 0 {
        "0"@
    } else {
        z
    };
    let frac = strip_trailing_zeros(fraction);
    assert(digits_only(int_part));
    assert(int_part.len() > 0);
    assert(int_part != "0"@ ==> int_part[0] != '0');
    assert(is_ascii_digit(int_part[0]));
    assert(is_ascii_digit(int_part.last()));
    lemma_digits_no_dot(int_part);
    // Re-normalize `out`.
    let sign: Seq<char> = if neg && (frac.len() > 0 || int_part != "0"@) {
        "-"@
    } else {
        Seq::empty()
    };
    if frac.len() == 0 {
        assert(out =~= sign + int_part);
        assert(out.last() == int_part.last());
        lemma_trim_keeps(out);
        let body2 = if out[0] == '-' {
            out.drop_first()
        } else {
            out
        };
        assert(body2 =~= int_part);
        lemma_strip_leading(int_part);
        lemma_strip_trailing(Seq::<char>::empty());
        if int_part == "0"@ {
            assert(strip_leading_zeros(int_part).len() == 0) by {
                assert(int_part.len() == 1 && int_part[0] == '0');
                assert(int_part.drop_first().len() == 0);
                assert(strip_leading_zeros(int_part.drop_first()).len() == 0);
            }
        } else {
            assert(strip_leading_zeros(int_part) == int_part);
        }
    } else {
        assert(out =~= sign + int_part + "."@ + frac);
        assert(frac.last() != '0');
        assert(is_ascii_digit(frac.last()));
        assert(out.last() == frac.last());
        lemma_trim_keeps(out);
        let body2 = if out[0] == '-' {
            out.drop_first()
        } else {
            out
        };
        assert(body2 =~= int_part + "."@ + frac);
        assert forall|k: int| 0 <= k < int_part.len() implies body2[k] != '.' by {
            assert(body2[k] == int_part[k]);
            assert(is_ascii_digit(int_part[k]));
        }
        lemma_dot_index(body2, int_part.len() as int);
        assert(body2.take(int_part.len() as int) =~= int_part);
        assert(body2.skip(int_part.len() as int + 1) =~= frac);
        lemma_digits_no_dot(frac);
        if int_part == "0"@ {
            assert(strip_leading_zeros(int_part).len() == 0) by {
                assert(int_part.len() == 1 && int_part[0] == '0');
                assert(int_part.drop_first().len() == 0);
                assert(strip_leading_zeros(int_part.drop_first()).len() == 0);
            }
        } else {
            assert(strip_leading_zeros(int_part) == int_part);
        }
    }
}


/// Index of the first occurrence of `c`, or -1.
pub open spec fn first_index_of(s: Seq<char>, c: char) -> int
    decreases s.len(),
{
    if s.len() == 0 {
        -1
    } else if s[0] == c {
        0
    } else {
        let r = first_index_of(s.drop_first(), c);
        if r < 0 {
            -1
        } else {
            r + 1
        }
    }
}

proof fn lemma_first_index_of(s: Seq<char>, c: char, j: int)
    requires
        0 <= j <= s.len(),
        forall|k: int| 0 <= k < j ==> s[k] != c,
        j < s.len() ==> s[j] == c,
    ensures
        first_index_of(s, c) == if j < s.len() {
            j
        } else {
            -1
        },
    decreases s.len(),
{
    if s.len() > 0 && j > 0 {
        let t = s.drop_first();
        assert forall|k: int| 0 <= k < j - 1 implies t[k] != c by {
            assert(t[k] == s[k + 1]);
        }
        lemma_first_index_of(t, c, j - 1);
    }
}

/// Position of the first `c`, or the length when there is none.
pub fn find_char(s: &[char], c: char) -> (r: usize)
    ensures
        r <= s.len(),
        first_index_of(s@, c) == if r < s.len() {
            r as int
        } else {
            -1
        },
{
    let mut j: usize = 0;
    while j < s.len() && s[j] != c
        invariant
            j <= s.len(),
            forall|k: int| 0 <= k < j ==> s@[k] != c,
        decreases s.len() - j,
    {
        j = j + 1;
    }
    proof {
        lemma_first_index_of(s@, c, j as int);
    }
    j
}

}
