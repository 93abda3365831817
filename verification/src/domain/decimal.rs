//! What a normalized price means: the number a decimal text denotes, and
//! the law that normalization keeps exactly that number in one canonical
//! spelling.
use vstd::prelude::*;
use crate::json::digits_value;
use crate::text::{is_ascii_digit, trim};
use crate::domain::odds::{
    decimal_norm, digits_only, dot_index, lemma_strip_leading, lemma_strip_trailing,
    strip_leading_zeros, strip_trailing_zeros,
};

verus! {

/// Ten to the power `n`.
pub open spec fn pow10(n: nat) -> int
    decreases n,
{
    if n == 0 {
        1
    } else {
        10 * pow10((n - 1) as nat)
    }
}

proof fn lemma_pow10_pos(n: nat)
    ensures
        pow10(n) >= 1,
    decreases n,
{
    if n > 0 {
        lemma_pow10_pos((n - 1) as nat);
    }
}

proof fn lemma_pow10_add(a: nat, b: nat)
    ensures
        pow10(a + b) == pow10(a) * pow10(b),
    decreases b,
{
    if b > 0 {
        lemma_pow10_add(a, (b - 1) as nat);
        assert(pow10(a + b) == 10 * pow10((a + b - 1) as nat));
        assert((a + b - 1) as nat == a + (b - 1) as nat);
        assert(pow10(a) * pow10(b) == pow10(a) * (10 * pow10((b - 1) as nat)));
        assert(pow10(a) * (10 * pow10((b - 1) as nat)) == 10 * (pow10(a) * pow10((b - 1) as nat)))
            by (nonlinear_arith);
    }
}

proof fn lemma_pow10_mono(a: nat, b: nat)
    requires
        a < b,
    ensures
        pow10(a) * 10 <= pow10(b),
    decreases b,
{
    lemma_pow10_pos(a);
    if b - 1 > a {
        lemma_pow10_mono(a, (b - 1) as nat);
        lemma_pow10_pos((b - 1) as nat);
    }
}

proof fn lemma_digit_value(c: char)
    requires
        is_ascii_digit(c),
    ensures
        0 <= (c as u32) - 48 <= 9,
        ((c as u32) - 48 == 0) == (c == '0'),
{
}

/// The value of a digit string is below ten to its length.
proof fn lemma_digits_bounds(s: Seq<char>)
    requires
        digits_only(s),
    ensures
        0 <= digits_value(s) < pow10(s.len()),
        s.len() > 0 && s[0] != '0' ==> pow10((s.len() - 1) as nat) <= digits_value(s),
    decreases s.len(),
{
    if s.len() > 0 {
        let t = s.drop_last();
        assert(digits_only(t)) by {
            assert forall|i: int| 0 <= i < t.len() implies is_ascii_digit(#[trigger] t[i]) by {
                assert(t[i] == s[i]);
            }
        }
        lemma_digits_bounds(t);
        lemma_digit_value(s.last());
        let d = (s.last() as u32) - 48;
        let v = digits_value(t);
        assert(digits_value(s) == v * 10 + d);
        assert(pow10(s.len()) == 10 * pow10(t.len()));
        assert(v * 10 + d < 10 * pow10(t.len())) by (nonlinear_arith)
            requires
                0 <= v < pow10(t.len()),
                0 <= d <= 9,
        ;
        if s[0] != '0' {
            if t.len() == 0 {
                assert(s.last() == s[0]);
            } else {
                assert(t[0] == s[0]);
                assert(pow10((s.len() - 1) as nat) == 10 * pow10((t.len() - 1) as nat));
                assert(pow10((t.len() - 1) as nat) * 10 <= v * 10 + d) by (nonlinear_arith)
                    requires
                        pow10((t.len() - 1) as nat) <= v,
                        0 <= d,
                ;
            }
        }
    }
}

/// The last digit of a digit string is its value modulo ten.
proof fn lemma_digits_last(s: Seq<char>)
    requires
        digits_only(s),
        s.len() > 0,
    ensures
        digits_value(s) % 10 == (s.last() as u32) - 48,
{
    let t = s.drop_last();
    assert(digits_only(t)) by {
        assert forall|i: int| 0 <= i < t.len() implies is_ascii_digit(#[trigger] t[i]) by {
            assert(t[i] == s[i]);
        }
    }
    lemma_digits_bounds(t);
    lemma_digit_value(s.last());
    let d = (s.last() as u32) - 48;
    let v = digits_value(t);
    assert((v * 10 + d) % 10 == d) by (nonlinear_arith)
        requires
            0 <= d <= 9,
            v >= 0,
    ;
}

/// The value of two digit strings side by side.
proof fn lemma_digits_append(a: Seq<char>, b: Seq<char>)
    ensures
        digits_value(a + b) == digits_value(a) * pow10(b.len()) + digits_value(b),
    decreases b.len(),
{
    if b.len() == 0 {
        assert(a + b =~= a);
    } else {
        let b1 = b.drop_last();
        lemma_digits_append(a, b1);
        assert((a + b).drop_last() =~= a + b1);
        assert((a + b).last() == b.last());
        let d = (b.last() as u32) - 48;
        assert(digits_value(a) * pow10(b.len()) == digits_value(a) * (10 * pow10(b1.len())));
        assert((digits_value(a) * pow10(b1.len()) + digits_value(b1)) * 10 + d == digits_value(a)
            * (10 * pow10(b1.len())) + (digits_value(b1) * 10 + d)) by (nonlinear_arith);
    }
}

/// Digit strings of one length with one value are the same string.
proof fn lemma_digits_injective(a: Seq<char>, b: Seq<char>)
    requires
        digits_only(a),
        digits_only(b),
        a.len() == b.len(),
        digits_value(a) == digits_value(b),
    ensures
        a == b,
    decreases a.len(),
{
    if a.len() > 0 {
        let a1 = a.drop_last();
        let b1 = b.drop_last();
        assert(digits_only(a1)) by {
            assert forall|i: int| 0 <= i < a1.len() implies is_ascii_digit(#[trigger] a1[i]) by {
                assert(a1[i] == a[i]);
            }
        }
        assert(digits_only(b1)) by {
            assert forall|i: int| 0 <= i < b1.len() implies is_ascii_digit(#[trigger] b1[i]) by {
                assert(b1[i] == b[i]);
            }
        }
        lemma_digits_last(a);
        lemma_digits_last(b);
        lemma_digit_value(a.last());
        lemma_digit_value(b.last());
        assert((a.last() as u32) == (b.last() as u32));
        lemma_digits_bounds(a1);
        lemma_digits_bounds(b1);
        let da = (a.last() as u32) - 48;
        let db = (b.last() as u32) - 48;
        assert(digits_value(a1) == digits_value(b1)) by (nonlinear_arith)
            requires
                digits_value(a1) * 10 + da == digits_value(b1) * 10 + db,
                da == db,
        ;
        lemma_digits_injective(a1, b1);
        assert(a =~= a1.push(a.last()));
        assert(b =~= b1.push(b.last()));
    }
}

/// Leading zeros add nothing to a value.
#[verifier::spinoff_prover]
proof fn lemma_leading_zeros_value(s: Seq<char>)
    ensures
        digits_value(strip_leading_zeros(s)) == digits_value(s),
    decreases s.len(),
{
    if s.len() > 0 && s[0] == '0' {
        let t = s.drop_first();
        lemma_leading_zeros_value(t);
        lemma_digits_append(seq!['0'], t);
        assert(seq!['0'] + t =~= s);
        assert(seq!['0'].drop_last() =~= Seq::<char>::empty());
        assert(seq!['0'].last() == '0');
        assert(('0' as u32) == 48);
        assert(digits_value(Seq::<char>::empty()) == 0);
        assert(digits_value(seq!['0']) == digits_value(seq!['0'].drop_last()) * 10 + 0);
        assert(digits_value(seq!['0']) == 0);
        let z = digits_value(seq!['0']);
        let q = pow10(t.len());
        assert(z * q == 0) by (nonlinear_arith)
            requires
                z == 0,
        ;
        assert(digits_value(s) == digits_value(t));
        assert(strip_leading_zeros(s) == strip_leading_zeros(t));
    }
}

/// Trailing zeros multiply a value by a power of ten.
proof fn lemma_trailing_zeros_value(s: Seq<char>)
    ensures
        strip_trailing_zeros(s).len() <= s.len(),
        digits_value(s) == digits_value(strip_trailing_zeros(s)) * pow10(
            (s.len() - strip_trailing_zeros(s).len()) as nat,
        ),
        s.take(strip_trailing_zeros(s).len() as int) == strip_trailing_zeros(s),
    decreases s.len(),
{
    if s.len() > 0 && s.last() == '0' {
        let t = s.drop_last();
        lemma_trailing_zeros_value(t);
        let z = strip_trailing_zeros(t);
        let k = (t.len() - z.len()) as nat;
        assert(digits_value(s) == digits_value(t) * 10);
        assert(pow10((s.len() - z.len()) as nat) == 10 * pow10(k));
        assert(digits_value(z) * pow10(k) * 10 == digits_value(z) * (10 * pow10(k))) by (nonlinear_arith);
        assert(s.take(z.len() as int) =~= t.take(z.len() as int));
    } else {
        assert(s.take(s.len() as int) =~= s);
    }
}

/// The text of a decimal after trimming, without its sign.
pub open spec fn dec_body(s: Seq<char>) -> Seq<char> {
    let v = trim(s);
    if v.len() > 0 && (v[0] == '+' || v[0] == '-') {
        v.drop_first()
    } else {
        v
    }
}

/// Whether the decimal is written negative.
pub open spec fn dec_neg(s: Seq<char>) -> bool {
    trim(s).len() > 0 && trim(s)[0] == '-'
}

/// The digits before the point.
pub open spec fn dec_int(s: Seq<char>) -> Seq<char> {
    let b = dec_body(s);
    if dot_index(b) < 0 {
        b
    } else {
        b.take(dot_index(b))
    }
}

/// The digits after the point (none without a point).
pub open spec fn dec_frac(s: Seq<char>) -> Seq<char> {
    let b = dec_body(s);
    if dot_index(b) < 0 {
        Seq::empty()
    } else {
        b.skip(dot_index(b) + 1)
    }
}

/// A decimal text: after trimming, an optional `+` or `-`, then ASCII digits
/// with at most one `.`, and at least one digit.
pub open spec fn decimal_text(s: Seq<char>) -> bool {
    &&& trim(s).len() > 0
    &&& dot_index(dec_frac(s)) < 0
    &&& digits_only(dec_int(s))
    &&& digits_only(dec_frac(s))
    &&& dec_int(s).len() + dec_frac(s).len() > 0
}

/// The number a decimal text denotes is `dec_numerator / dec_denominator`.
pub open spec fn dec_numerator(s: Seq<char>) -> int {
    let m = digits_value(dec_int(s) + dec_frac(s));
    if dec_neg(s) {
        -m
    } else {
        m
    }
}

pub open spec fn dec_denominator(s: Seq<char>) -> int {
    pow10(dec_frac(s).len())
}

/// Two decimal texts denote the same number.
pub open spec fn same_number(a: Seq<char>, b: Seq<char>) -> bool {
    dec_numerator(a) * dec_denominator(b) == dec_numerator(b) * dec_denominator(a)
}

/// A canonical spelling: an integer part without leading zeros (or `0`), a
/// fraction without trailing zeros, and no sign on zero.
pub open spec fn canonical_parts(neg: bool, int_part: Seq<char>, frac: Seq<char>) -> bool {
    &&& int_part.len() > 0
    &&& digits_only(int_part)
    &&& (int_part == "0"@ || int_part[0] != '0')
    &&& digits_only(frac)
    &&& (frac.len() == 0 || frac.last() != '0')
    &&& (neg ==> !(int_part == "0"@ && frac.len() == 0))
}

/// The text of canonical parts: `-`?, the integer part, and `.fraction`
/// when there is a fraction.
pub open spec fn decimal_spelling(neg: bool, int_part: Seq<char>, frac: Seq<char>) -> Seq<char> {
    (if neg {
        "-"@
    } else {
        Seq::empty()
    }) + int_part + (if frac.len() == 0 {
        Seq::empty()
    } else {
        "."@ + frac
    })
}

/// The value of canonical parts over `pow10(frac.len())`.
pub open spec fn parts_numerator(neg: bool, int_part: Seq<char>, frac: Seq<char>) -> int {
    let m = digits_value(int_part + frac);
    if neg {
        -m
    } else {
        m
    }
}

pub open spec fn norm_int(s: Seq<char>) -> Seq<char> {
    let z = strip_leading_zeros(dec_int(s));
    if z.len() == 0 {
        "0"@
    } else {
        z
    }
}

pub open spec fn norm_frac(s: Seq<char>) -> Seq<char> {
    strip_trailing_zeros(dec_frac(s))
}

pub open spec fn norm_neg(s: Seq<char>) -> bool {
    dec_neg(s) && !(norm_int(s) == "0"@ && norm_frac(s).len() == 0)
}


/// How `decimal_norm` spells a decimal text: its canonical parts.
proof fn lemma_norm_parts(s: Seq<char>)
    requires
        decimal_text(s),
    ensures
        canonical_parts(norm_neg(s), norm_int(s), norm_frac(s)),
        decimal_norm(s) == decimal_spelling(norm_neg(s), norm_int(s), norm_frac(s)),
{
    reveal_strlit("0");
    reveal_strlit("-");
    reveal_strlit(".");
    let int_p = dec_int(s);
    let frac = dec_frac(s);
    lemma_strip_leading(int_p);
    lemma_strip_trailing(frac);
    let z = strip_leading_zeros(int_p);
    let ni = norm_int(s);
    let nf = norm_frac(s);
    assert(digits_only(ni)) by {
        if z.len() == 0 {
            assert(is_ascii_digit(ni[0]));
        }
    }
    let out = decimal_norm(s);
    if nf.len() == 0 {
        if norm_neg(s) {
            assert(out =~= decimal_spelling(true, ni, nf));
        } else {
            assert(out =~= decimal_spelling(false, ni, nf));
        }
    } else {
        if dec_neg(s) {
            assert(out =~= decimal_spelling(true, ni, nf));
        } else {
            assert(out =~= decimal_spelling(false, ni, nf));
        }
    }
}

/// Normalization keeps the number: the canonical parts denote the value of
/// the text.
proof fn lemma_norm_value(s: Seq<char>)
    requires
        decimal_text(s),
    ensures
        parts_numerator(norm_neg(s), norm_int(s), norm_frac(s)) * dec_denominator(s)
            == dec_numerator(s) * pow10(norm_frac(s).len()),
{
    reveal_strlit("0");
    let int_p = dec_int(s);
    let frac = dec_frac(s);
    let ni = norm_int(s);
    let nf = norm_frac(s);
    lemma_trailing_zeros_value(frac);
    lemma_leading_zeros_value(int_p);
    let k = (frac.len() - nf.len()) as nat;
    lemma_digits_append(int_p, frac);
    lemma_digits_append(ni, nf);
    assert(digits_value(ni) == digits_value(int_p)) by {
        if strip_leading_zeros(int_p).len() == 0 {
            assert(strip_leading_zeros(int_p) =~= Seq::<char>::empty());
            assert(ni.drop_last() =~= Seq::<char>::empty());
            assert(('0' as u32) == 48);
            assert(digits_value(Seq::<char>::empty()) == 0);
        }
    }
    lemma_pow10_add(nf.len(), k);
    assert(nf.len() + k == frac.len());
    let vi = digits_value(int_p);
    let vf = digits_value(nf);
    let p = pow10(nf.len());
    let q = pow10(k);
    // m == (vi * p + vf) * q, and the canonical magnitude is vi * p + vf.
    assert(digits_value(int_p + frac) == (vi * p + vf) * q) by (nonlinear_arith)
        requires
            digits_value(int_p + frac) == vi * pow10(frac.len()) + digits_value(frac),
            pow10(frac.len()) == p * q,
            digits_value(frac) == vf * q,
    ;
    let mc = digits_value(ni + nf);
    let m = digits_value(int_p + frac);
    assert(mc == vi * p + vf);
    assert(mc * (p * q) == m * p) by (nonlinear_arith)
        requires
            m == mc * q,
    ;
    if dec_neg(s) && !norm_neg(s) {
        assert(ni == "0"@ && nf.len() == 0);
        assert(ni.drop_last() =~= Seq::<char>::empty());
        assert(('0' as u32) == 48);
        assert(digits_value(Seq::<char>::empty()) == 0);
        assert(digits_value(ni) == 0);
        assert(mc == 0);
        assert(m == 0) by (nonlinear_arith)
            requires
                m == mc * q,
                mc == 0,
        ;
    }
    assert(dec_denominator(s) == p * q);
    if norm_neg(s) {
        assert((-mc) * (p * q) == (-m) * p) by (nonlinear_arith)
            requires
                mc * (p * q) == m * p,
        ;
    } else if dec_neg(s) {
        assert(mc * (p * q) == (-m) * p);
    }
}


proof fn lemma_digits_concat(a: Seq<char>, b: Seq<char>)
    requires
        digits_only(a),
        digits_only(b),
    ensures
        digits_only(a + b),
{
    assert forall|i: int| 0 <= i < (a + b).len() implies is_ascii_digit(#[trigger] (a + b)[i]) by {
        if i < a.len() {
            assert((a + b)[i] == a[i]);
        } else {
            assert((a + b)[i] == b[i - a.len()]);
        }
    }
}

/// The magnitude of canonical parts is zero exactly for `0`.
proof fn lemma_parts_zero(neg: bool, i: Seq<char>, f: Seq<char>)
    requires
        canonical_parts(neg, i, f),
    ensures
        digits_value(i + f) >= 0,
        (digits_value(i + f) == 0) == (i == "0"@ && f.len() == 0),
{
    reveal_strlit("0");
    lemma_digits_concat(i, f);
    lemma_digits_bounds(i + f);
    if f.len() > 0 {
        lemma_digits_last(i + f);
        assert((i + f).last() == f.last());
        lemma_digit_value(f.last());
    } else {
        assert(i + f =~= i);
        if i == "0"@ {
            assert(i.drop_last() =~= Seq::<char>::empty());
            assert(('0' as u32) == 48);
            assert(digits_value(Seq::<char>::empty()) == 0);
        } else {
            lemma_pow10_pos((i.len() - 1) as nat);
        }
    }
}

/// An integer part without leading zeros (or `0`) is fixed by its value.
proof fn lemma_int_part_unique(a: Seq<char>, b: Seq<char>)
    requires
        canonical_parts(false, a, Seq::empty()),
        canonical_parts(false, b, Seq::empty()),
        digits_value(a) == digits_value(b),
    ensures
        a == b,
{
    reveal_strlit("0");
    lemma_parts_zero(false, a, Seq::empty());
    lemma_parts_zero(false, b, Seq::empty());
    assert(a + Seq::<char>::empty() =~= a);
    assert(b + Seq::<char>::empty() =~= b);
    if a == "0"@ || b == "0"@ {
        return;
    }
    lemma_digits_bounds(a);
    lemma_digits_bounds(b);
    if a.len() < b.len() {
        if a.len() < b.len() - 1 {
            lemma_pow10_mono(a.len(), (b.len() - 1) as nat);
            lemma_pow10_pos(a.len());
        }
        assert(false);
    }
    if b.len() < a.len() {
        if b.len() < a.len() - 1 {
            lemma_pow10_mono(b.len(), (a.len() - 1) as nat);
            lemma_pow10_pos(b.len());
        }
        assert(false);
    }
    lemma_digits_injective(a, b);
}

/// Canonical parts with one value are the same parts.
proof fn lemma_parts_unique(
    n1: bool,
    i1: Seq<char>,
    f1: Seq<char>,
    n2: bool,
    i2: Seq<char>,
    f2: Seq<char>,
)
    requires
        canonical_parts(n1, i1, f1),
        canonical_parts(n2, i2, f2),
        parts_numerator(n1, i1, f1) * pow10(f2.len()) == parts_numerator(n2, i2, f2) * pow10(
            f1.len(),
        ),
    ensures
        n1 == n2,
        i1 == i2,
        f1 == f2,
{
    reveal_strlit("0");
    lemma_parts_zero(n1, i1, f1);
    lemma_parts_zero(n2, i2, f2);
    let m1 = digits_value(i1 + f1);
    let m2 = digits_value(i2 + f2);
    let p1 = pow10(f1.len());
    let p2 = pow10(f2.len());
    lemma_pow10_pos(f1.len());
    lemma_pow10_pos(f2.len());
    if m1 == 0 || m2 == 0 {
        assert(m1 == 0 && m2 == 0) by (nonlinear_arith)
            requires
                m1 == 0 || m2 == 0,
                m1 >= 0,
                m2 >= 0,
                p1 >= 1,
                p2 >= 1,
                (if n1 { -m1 } else { m1 }) * p2 == (if n2 { -m2 } else { m2 }) * p1,
        ;
        assert(f1 =~= f2);
        return;
    }
    assert(n1 == n2 && m1 * p2 == m2 * p1) by (nonlinear_arith)
        requires
            m1 > 0,
            m2 > 0,
            p1 >= 1,
            p2 >= 1,
            (if n1 { -m1 } else { m1 }) * p2 == (if n2 { -m2 } else { m2 }) * p1,
    ;
    lemma_digits_concat(i1, f1);
    lemma_digits_concat(i2, f2);
    if f1.len() < f2.len() {
        let d = (f2.len() - f1.len()) as nat;
        lemma_pow10_add(f1.len(), d);
        assert(f1.len() + d == f2.len());
        assert(pow10(d) == 10 * pow10((d - 1) as nat));
        let r = pow10((d - 1) as nat);
        assert(m2 == m1 * 10 * r) by (nonlinear_arith)
            requires
                m1 * p2 == m2 * p1,
                p2 == p1 * (10 * r),
                p1 >= 1,
        ;
        assert(m2 == (m1 * r) * 10) by (nonlinear_arith)
            requires
                m2 == m1 * 10 * r,
        ;
        vstd::arithmetic::div_mod::lemma_mod_multiples_basic(m1 * r, 10);
        lemma_digits_last(i2 + f2);
        assert((i2 + f2).last() == f2.last());
        lemma_digit_value(f2.last());
        assert(false);
    }
    if f2.len() < f1.len() {
        let d = (f1.len() - f2.len()) as nat;
        lemma_pow10_add(f2.len(), d);
        assert(f2.len() + d == f1.len());
        assert(pow10(d) == 10 * pow10((d - 1) as nat));
        let r = pow10((d - 1) as nat);
        assert(m1 == m2 * 10 * r) by (nonlinear_arith)
            requires
                m1 * p2 == m2 * p1,
                p1 == p2 * (10 * r),
                p2 >= 1,
        ;
        assert(m1 == (m2 * r) * 10) by (nonlinear_arith)
            requires
                m1 == m2 * 10 * r,
        ;
        vstd::arithmetic::div_mod::lemma_mod_multiples_basic(m2 * r, 10);
        lemma_digits_last(i1 + f1);
        assert((i1 + f1).last() == f1.last());
        lemma_digit_value(f1.last());
        assert(false);
    }
    assert(m1 == m2) by (nonlinear_arith)
        requires
            m1 * p2 == m2 * p1,
            p1 == p2,
            p1 >= 1,
    ;
    lemma_digits_append(i1, f1);
    lemma_digits_append(i2, f2);
    lemma_digits_bounds(f1);
    lemma_digits_bounds(f2);
    lemma_digits_bounds(i1);
    lemma_digits_bounds(i2);
    let a1 = digits_value(i1);
    let a2 = digits_value(i2);
    let b1 = digits_value(f1);
    let b2 = digits_value(f2);
    assert(a1 == a2 && b1 == b2) by (nonlinear_arith)
        requires
            a1 * p1 + b1 == a2 * p1 + b2,
            0 <= b1 < p1,
            0 <= b2 < p1,
            a1 >= 0,
            a2 >= 0,
    ;
    lemma_digits_injective(f1, f2);
    lemma_int_part_unique(i1, i2);
}


/// The unsigned rest of a canonical spelling.
spec fn unsigned_text(i: Seq<char>, f: Seq<char>) -> Seq<char> {
    i + (if f.len() == 0 {
        Seq::empty()
    } else {
        "."@ + f
    })
}

/// A canonical spelling spells one set of parts only.
proof fn lemma_spelling_injective(
    n1: bool,
    i1: Seq<char>,
    f1: Seq<char>,
    n2: bool,
    i2: Seq<char>,
    f2: Seq<char>,
)
    requires
        canonical_parts(n1, i1, f1),
        canonical_parts(n2, i2, f2),
        decimal_spelling(n1, i1, f1) == decimal_spelling(n2, i2, f2),
    ensures
        n1 == n2,
        i1 == i2,
        f1 == f2,
{
    reveal_strlit("-");
    reveal_strlit(".");
    let t = decimal_spelling(n1, i1, f1);
    let r1 = unsigned_text(i1, f1);
    let r2 = unsigned_text(i2, f2);
    assert(decimal_spelling(n1, i1, f1) =~= (if n1 { "-"@ } else { Seq::empty() }) + r1);
    assert(decimal_spelling(n2, i2, f2) =~= (if n2 { "-"@ } else { Seq::empty() }) + r2);
    assert(r1[0] == i1[0]);
    assert(r2[0] == i2[0]);
    assert(is_ascii_digit(i1[0]));
    assert(is_ascii_digit(i2[0]));
    if n1 {
        assert(t[0] == '-');
    } else {
        assert(t[0] == r1[0]);
    }
    if n2 {
        assert(t[0] == '-');
    } else {
        assert(t[0] == r2[0]);
    }
    assert(n1 == n2);
    if n1 {
        assert(r1 =~= t.drop_first());
        assert(r2 =~= t.drop_first());
    } else {
        assert(r1 =~= t);
        assert(r2 =~= t);
    }
    assert(r1 == r2);
    if f1.len() == 0 && f2.len() > 0 {
        assert(r2[i2.len() as int] == '.');
        assert(r1 =~= i1);
        assert(is_ascii_digit(i1[i2.len() as int]));
        assert(false);
    }
    if f2.len() == 0 && f1.len() > 0 {
        assert(r1[i1.len() as int] == '.');
        assert(r2 =~= i2);
        assert(is_ascii_digit(i2[i1.len() as int]));
        assert(false);
    }
    if f1.len() == 0 && f2.len() == 0 {
        assert(r1 =~= i1);
        assert(r2 =~= i2);
        assert(f1 =~= f2);
        return;
    }
    if i1.len() < i2.len() {
        assert(r1[i1.len() as int] == '.');
        assert(r2[i1.len() as int] == i2[i1.len() as int]);
        assert(is_ascii_digit(i2[i1.len() as int]));
        assert(false);
    }
    if i2.len() < i1.len() {
        assert(r2[i2.len() as int] == '.');
        assert(r1[i2.len() as int] == i1[i2.len() as int]);
        assert(is_ascii_digit(i1[i2.len() as int]));
        assert(false);
    }
    assert(i1 =~= r1.take(i1.len() as int));
    assert(i2 =~= r2.take(i2.len() as int));
    assert(f1 =~= r1.skip(i1.len() as int + 1));
    assert(f2 =~= r2.skip(i2.len() as int + 1));
}


/// Normalization spells each number once.  A decimal text (after trimming,
/// an optional sign, then digits with at most one point and at least one
/// digit) normalizes to a non-empty canonical spelling of the same number:
/// an integer part without leading zeros (or `0`), a fraction without
/// trailing zeros and no bare point, and no sign on zero.  Two decimal
/// texts normalize alike exactly when they denote the same number.
pub proof fn decimal_norm_is_canonical(a: Seq<char>, b: Seq<char>)
    requires
        decimal_text(a),
        decimal_text(b),
    ensures
        decimal_norm(a).len() > 0,
        canonical_parts(norm_neg(a), norm_int(a), norm_frac(a)),
        decimal_norm(a) == decimal_spelling(norm_neg(a), norm_int(a), norm_frac(a)),
        parts_numerator(norm_neg(a), norm_int(a), norm_frac(a)) * dec_denominator(a)
            == dec_numerator(a) * pow10(norm_frac(a).len()),
        (decimal_norm(a) == decimal_norm(b)) <==> same_number(a, b),
{
    lemma_norm_parts(a);
    lemma_norm_parts(b);
    lemma_norm_value(a);
    lemma_norm_value(b);
    let (na, ia, fa) = (norm_neg(a), norm_int(a), norm_frac(a));
    let (nb, ib, fb) = (norm_neg(b), norm_int(b), norm_frac(b));
    assert(decimal_norm(a).len() >= ia.len());
    let sa = parts_numerator(na, ia, fa);
    let sb = parts_numerator(nb, ib, fb);
    let pa = pow10(fa.len());
    let pb = pow10(fb.len());
    let da = dec_denominator(a);
    let db = dec_denominator(b);
    let xa = dec_numerator(a);
    let xb = dec_numerator(b);
    lemma_pow10_pos(fa.len());
    lemma_pow10_pos(fb.len());
    lemma_pow10_pos(dec_frac(a).len());
    lemma_pow10_pos(dec_frac(b).len());
    if decimal_norm(a) == decimal_norm(b) {
        lemma_spelling_injective(na, ia, fa, nb, ib, fb);
        assert(xa * db == xb * da) by (nonlinear_arith)
            requires
                sa * da == xa * pa,
                sa * db == xb * pa,
                pa >= 1,
        ;
    }
    if same_number(a, b) {
        assert(sa * pb == sb * pa) by (nonlinear_arith)
            requires
                sa * da == xa * pa,
                sb * db == xb * pb,
                xa * db == xb * da,
                da >= 1,
                db >= 1,
        ;
        lemma_parts_unique(na, ia, fa, nb, ib, fb);
    }
}


} // verus!
