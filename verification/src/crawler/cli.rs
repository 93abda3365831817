//! Numbers read from the command line and from the settings table.
use vstd::prelude::*;
use crate::json::{all_digit_chars, digits_value, lemma_digits_nonneg};
use crate::text::{chars_of, extend_str, is_ascii_digit, owned, string_from_chars};

verus! {

/// The sign and digits of an integer text as `str::parse` reads it: an
/// optional `+` (or `-` where negatives are allowed), then one or more ASCII
/// digits.
pub open spec fn sign_and_digits(s: Seq<char>, allow_minus: bool) -> Option<(bool, Seq<char>)> {
    let (neg, d) = if s.len() > 0 && s[0] == '+' {
        (false, s.drop_first())
    } else if allow_minus && s.len() > 0 && s[0] == '-' {
        (true, s.drop_first())
    } else {
        (false, s)
    };
    if d.len() > 0 && all_digit_chars(d) {
        Some((neg, d))
    } else {
        None
    }
}

/// `s.parse::<u64>()`.
pub open spec fn parsed_u64(s: Seq<char>) -> Option<int> {
    match sign_and_digits(s, false) {
        Some((_, d)) => if digits_value(d) <= u64::MAX {
            Some(digits_value(d))
        } else {
            None
        },
        None => None,
    }
}

/// `s.parse::<i64>()`.
pub open spec fn parsed_i64(s: Seq<char>) -> Option<int> {
    match sign_and_digits(s, true) {
        Some((neg, d)) => {
            let v = if neg {
                -digits_value(d)
            } else {
                digits_value(d)
            };
            if i64::MIN <= v <= i64::MAX {
                Some(v)
            } else {
                None
            }
        },
        None => None,
    }
}

/// The value of the digits `cs[start..]`: `None` when one is not a digit,
/// `Some(None)` when the value exceeds `u64::MAX`.
fn digits_from(cs: &Vec<char>, start: usize) -> (r: Option<Option<u64>>)
    requires
        start <= cs@.len(),
    ensures
        match r {
            None => !all_digit_chars(cs@.subrange(start as int, cs@.len() as int)),
            Some(None) => all_digit_chars(cs@.subrange(start as int, cs@.len() as int))
                && digits_value(cs@.subrange(start as int, cs@.len() as int)) > u64::MAX,
            Some(Some(v)) => all_digit_chars(cs@.subrange(start as int, cs@.len() as int))
                && digits_value(cs@.subrange(start as int, cs@.len() as int)) == v as int,
        },
{
    let ghost d = cs@.subrange(start as int, cs@.len() as int);
    let mut acc: u64 = 0;
    let mut overflow = false;
    let mut i: usize = start;
    assert(cs@.subrange(start as int, start as int) =~= Seq::<char>::empty());
    while i < cs.len()
        invariant
            start <= i <= cs.len(),
            d == cs@.subrange(start as int, cs@.len() as int),
            forall|m: int| start <= m < i ==> is_ascii_digit(#[trigger] cs@[m]),
            !overflow ==> acc as int == digits_value(cs@.subrange(start as int, i as int)),
            overflow ==> digits_value(cs@.subrange(start as int, i as int)) > u64::MAX,
        decreases cs.len() - i,
    {
        let c = cs[i];
        if !('0' <= c && c <= '9') {
            assert(d[i - start] == c);
            return None;
        }
        let digit = ((c as u32) - 48) as u64;
        proof {
            let p = cs@.subrange(start as int, i + 1);
            assert(p.drop_last() =~= cs@.subrange(start as int, i as int));
            assert(all_digit_chars(p.drop_last()));
            lemma_digits_nonneg(p.drop_last());
            assert(digits_value(p) == digits_value(p.drop_last()) * 10 + digit);
        }
        if !overflow {
            match acc.checked_mul(10) {
                Some(m) => match m.checked_add(digit) {
                    Some(v) => {
                        acc = v;
                    },
                    None => {
                        overflow = true;
                    },
                },
                None => {
                    overflow = true;
                },
            }
        }
        i = i + 1;
    }
    assert(cs@.subrange(start as int, i as int) == d);
    if overflow {
        Some(None)
    } else {
        Some(Some(acc))
    }
}

/// `str::parse::<u64>()`.
pub fn parse_u64(s: &str) -> (r: Option<u64>)
    ensures
        match r {
            Some(v) => parsed_u64(s@) == Some(v as int),
            None => parsed_u64(s@) is None,
        },
{
    let cs = chars_of(s);
    let start: usize = if cs.len() > 0 && cs[0] == '+' {
        1
    } else {
        0
    };
    proof {
        if start == 1 {
            assert(cs@.subrange(1, cs@.len() as int) =~= s@.drop_first());
        } else {
            assert(cs@.subrange(0, cs@.len() as int) =~= s@);
        }
    }
    if cs.len() == start {
        return None;
    }
    match digits_from(&cs, start) {
        Some(Some(v)) => Some(v),
        _ => None,
    }
}

/// `str::parse::<i64>()`.
pub fn parse_i64(s: &str) -> (r: Option<i64>)
    ensures
        match r {
            Some(v) => parsed_i64(s@) == Some(v as int),
            None => parsed_i64(s@) is None,
        },
{
    let cs = chars_of(s);
    let neg = cs.len() > 0 && cs[0] == '-';
    let start: usize = if cs.len() > 0 && (cs[0] == '+' || cs[0] == '-') {
        1
    } else {
        0
    };
    proof {
        if start == 1 {
            assert(cs@.subrange(1, cs@.len() as int) =~= s@.drop_first());
        } else {
            assert(cs@.subrange(0, cs@.len() as int) =~= s@);
        }
    }
    if cs.len() == start {
        return None;
    }
    match digits_from(&cs, start) {
        Some(Some(v)) => {
            if neg {
                if v > 9223372036854775808 {
                    None
                } else if v == 9223372036854775808 {
                    Some(i64::MIN)
                } else {
                    let w = v as i64;
                    Some(-w)
                }
            } else {
                if v > 9223372036854775807 {
                    None
                } else {
                    Some(v as i64)
                }
            }
        },
        _ => None,
    }
}

/// The message of a value that is not a number: `'<s>' is not a valid number`.
pub open spec fn not_a_number(s: Seq<char>) -> Seq<char> {
    "'"@ + s + "' is not a valid number"@
}

fn not_a_number_text(s: &str) -> (r: String)
    ensures
        r@ == not_a_number(s@),
{
    let mut out: Vec<char> = Vec::new();
    extend_str(&mut out, "'");
    extend_str(&mut out, s);
    extend_str(&mut out, "' is not a valid number");
    string_from_chars(&out)
}

/// The page-ready delay: a whole number of milliseconds in `1..=30000`.
pub fn parse_ready_delay_ms(s: &str) -> (r: Result<u64, String>)
    ensures
        match parsed_u64(s@) {
            None => r matches Err(e) && e@ == not_a_number(s@),
            Some(v) => if v == 0 {
                r matches Err(e) && e@ == "page-ready-delay-ms must be > 0 ms"@
            } else if v > 30000 {
                r matches Err(e) && e@ == "page-ready-delay-ms must be <= 30000 ms (30 s)"@
            } else {
                r matches Ok(w) && w == v
            },
        },
{
    let v = match parse_u64(s) {
        Some(v) => v,
        None => {
            return Err(not_a_number_text(s));
        },
    };
    if v == 0 {
        return Err(owned("page-ready-delay-ms must be > 0 ms"));
    }
    if v > 30000 {
        return Err(owned("page-ready-delay-ms must be <= 30000 ms (30 s)"));
    }
    Ok(v)
}

/// The number of detail tabs open at once: `1..=10`.
pub fn parse_detail_concurrency(s: &str) -> (r: Result<usize, String>)
    ensures
        match parsed_u64(s@) {
            None => r matches Err(e) && e@ == not_a_number(s@),
            Some(v) => if v == 0 {
                r matches Err(e) && e@ == "detail-concurrency must be >= 1"@
            } else if v > 10 {
                r matches Err(e) && e@ == "detail-concurrency must be <= 10 to avoid tab explosion"@
            } else {
                r matches Ok(w) && w == v
            },
        },
{
    let v = match parse_u64(s) {
        Some(v) => v,
        None => {
            return Err(not_a_number_text(s));
        },
    };
    if v == 0 {
        return Err(owned("detail-concurrency must be >= 1"));
    }
    if v > 10 {
        return Err(owned("detail-concurrency must be <= 10 to avoid tab explosion"));
    }
    Ok(v as usize)
}

pub open spec fn clamp_minutes(v: int) -> int {
    if v < 1 {
        1
    } else if v > 60 {
        60
    } else {
        v
    }
}

/// The sync interval in minutes: the stored setting, if it is a number,
/// clamped to `1..=60`; five minutes otherwise.
pub fn sync_interval_from_setting(setting: Option<&str>) -> (r: u64)
    ensures
        r == match setting {
            Some(s) => match parsed_u64(s@) {
                Some(v) => clamp_minutes(v),
                None => 5,
            },
            None => 5,
        },
{
    match setting {
        Some(s) => match parse_u64(s) {
            Some(v) => clamp_interval(v),
            None => 5,
        },
        None => 5,
    }
}

/// `v.clamp(1, 60)`.
pub fn clamp_interval(v: u64) -> (r: u64)
    ensures
        r == clamp_minutes(v as int),
{
    if v < 1 {
        1
    } else if v > 60 {
        60
    } else {
        v
    }
}

/// The detail refresh interval in seconds: the stored setting, if it is a
/// number; sixty seconds otherwise.
pub fn detail_interval_from_setting(setting: Option<&str>) -> (r: i64)
    ensures
        r == match setting {
            Some(s) => match parsed_i64(s@) {
                Some(v) => v,
                None => 60,
            },
            None => 60,
        },
{
    match setting {
        Some(s) => match parse_i64(s) {
            Some(v) => v,
            None => 60,
        },
        None => 60,
    }
}

} // verus!
