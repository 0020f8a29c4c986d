//! Text read as `f64::from_str` reads it (an optional sign, then `inf`,
//! `infinity` or `nan` in any case, or a decimal number with an optional
//! exponent), and compared with a whole number by its exact value.

use vstd::prelude::*;

use crate::text::{
    decimal_split, digit_run, digit_run_in, digit_val, digits_value, find_char_in, is_digit, sign_body,
    slice,
};

verus! {

// ---------------------------------------------------------------------------
// Powers of ten and the value of digit strings
// ---------------------------------------------------------------------------

pub open spec fn pow10(n: nat) -> nat
    decreases n,
{
    if n == 0 {
        1
    } else {
        10 * pow10((n - 1) as nat)
    }
}

proof fn lemma_pow10_add(a: nat, b: nat)
    ensures
        pow10(a + b) == pow10(a) * pow10(b),
    decreases b,
{
    if b > 0 {
        let b1 = (b - 1) as nat;
        lemma_pow10_add(a, b1);
        let ab1 = (a + b1) as nat;
        assert(((a + b) - 1) as nat == ab1);
        assert(pow10(a + b) == 10 * pow10(ab1));
        assert(pow10(b) == 10 * pow10(b1));
        let x = pow10(a);
        let y = pow10(b1);
        assert(x * (10 * y) == 10 * (x * y)) by (nonlinear_arith);
        assert(pow10(a) * pow10(b) == x * (10 * y));
        assert(x * y == pow10(ab1));
        assert(pow10(a + b) == 10 * (x * y));
    } else {
        assert(pow10(0) == 1);
        assert(a + b == a);
        assert(pow10(a) * 1 == pow10(a));
    }
}

proof fn lemma_pow10_mono(a: nat, b: nat)
    requires
        a <= b,
    ensures
        1 <= pow10(a) <= pow10(b),
    decreases b,
{
    if b > a {
        lemma_pow10_mono(a, (b - 1) as nat);
    } else if a > 0 {
        lemma_pow10_mono((a - 1) as nat, (a - 1) as nat);
    }
}

proof fn lemma_digit_run_sub(s: Seq<char>, i: int, j: int)
    requires
        digit_run(s),
        0 <= i <= j <= s.len(),
    ensures
        digit_run(s.subrange(i, j)),
{
    assert forall|k: int| 0 <= k < s.subrange(i, j).len() implies is_digit(
        #[trigger] s.subrange(i, j)[k],
    ) by {
        assert(s.subrange(i, j)[k] == s[i + k]);
    }
}

/// The value of two digit strings written one after the other.
proof fn lemma_digits_concat(a: Seq<char>, b: Seq<char>)
    ensures
        digits_value(a + b) == digits_value(a) * pow10(b.len()) + digits_value(b),
    decreases b.len(),
{
    if b.len() == 0 {
        assert(a + b =~= a);
        assert(pow10(0) == 1);
        assert(digits_value(b) == 0);
        assert(digits_value(a) * 1 == digits_value(a));
    } else {
        let b0 = b.drop_last();
        lemma_digits_concat(a, b0);
        assert((a + b).drop_last() =~= a + b0);
        assert((a + b).last() == b.last());
        assert(digits_value(a + b) == digits_value(a + b0) * 10 + digit_val(b.last()));
        assert(b.drop_last() == b0);
        assert(digits_value(b) == digits_value(b0) * 10 + digit_val(b.last()));
        let p = pow10(b0.len());
        assert(pow10(b.len()) == 10 * pow10((b.len() - 1) as nat));
        assert(pow10(b.len()) == 10 * p);
        assert((digits_value(a) * p + digits_value(b0)) * 10 + digit_val(b.last())
            == digits_value(a) * (10 * p) + (digits_value(b0) * 10 + digit_val(b.last())))
            by (nonlinear_arith);
    }
}

/// A digit string's value lies below the power of ten of its length.
proof fn lemma_digits_bound(s: Seq<char>)
    requires
        digit_run(s),
    ensures
        0 <= digits_value(s) < pow10(s.len()),
    decreases s.len(),
{
    if s.len() > 0 {
        let t = s.drop_last();
        lemma_digit_run_sub(s, 0, s.len() - 1);
        assert(t =~= s.subrange(0, s.len() - 1));
        lemma_digits_bound(t);
        assert(is_digit(s[s.len() - 1]));
        let d = digits_value(t);
        let p = pow10(t.len());
        assert(d * 10 + digit_val(s.last()) < 10 * p) by (nonlinear_arith)
            requires
                0 <= d < p,
                0 <= digit_val(s.last()) <= 9,
        ;
    }
}

/// Zeros have the value zero.
proof fn lemma_zeros_value(s: Seq<char>)
    requires
        forall|i: int| 0 <= i < s.len() ==> digit_val(#[trigger] s[i]) == 0,
    ensures
        digits_value(s) == 0,
    decreases s.len(),
{
    if s.len() > 0 {
        let t = s.drop_last();
        assert forall|i: int| 0 <= i < t.len() implies digit_val(#[trigger] t[i]) == 0 by {
            assert(t[i] == s[i]);
        }
        lemma_zeros_value(t);
        assert(digit_val(s[s.len() - 1]) == 0);
    }
}

/// A digit string whose first digit is not `0` is at least the power of
/// ten below its length.
proof fn lemma_digits_lead(s: Seq<char>)
    requires
        digit_run(s),
        s.len() >= 1,
        digit_val(s[0]) != 0,
    ensures
        digits_value(s) >= pow10((s.len() - 1) as nat),
{
    let a = s.take(1);
    let b = s.skip(1);
    assert(s =~= a + b);
    lemma_digits_concat(a, b);
    assert(a.drop_last() =~= Seq::<char>::empty());
    assert(a.last() == s[0]);
    assert(digits_value(a) == digits_value(a.drop_last()) * 10 + digit_val(a.last()));
    assert(digits_value(a) == digit_val(s[0]));
    assert(is_digit(s[0]));
    lemma_digit_run_sub(s, 1, s.len() as int);
    assert(b =~= s.subrange(1, s.len() as int));
    lemma_digits_bound(b);
    let p = pow10(b.len());
    assert(digit_val(s[0]) * p >= p) by (nonlinear_arith)
        requires
            digit_val(s[0]) >= 1,
            p >= 0,
    ;
}

/// A digit string has a positive value exactly when some digit is not `0`.
proof fn lemma_digits_positive(s: Seq<char>)
    requires
        digit_run(s),
    ensures
        (digits_value(s) > 0) <==> (exists|i: int| 0 <= i < s.len() && digit_val(s[i]) != 0),
{
    if exists|i: int| 0 <= i < s.len() && digit_val(s[i]) != 0 {
        let i = choose|i: int| 0 <= i < s.len() && digit_val(s[i]) != 0;
        let a = s.take(i + 1);
        let b = s.skip(i + 1);
        assert(s =~= a + b);
        lemma_digits_concat(a, b);
        assert(a.drop_last() =~= s.take(i));
        lemma_digit_run_sub(s, 0, i);
        assert(s.take(i) =~= s.subrange(0, i));
        lemma_digits_bound(s.take(i));
        assert(is_digit(s[i]));
        assert(a.last() == s[i]);
        assert(digits_value(a) == digits_value(a.drop_last()) * 10 + digit_val(a.last()));
        lemma_digit_run_sub(s, i + 1, s.len() as int);
        assert(b =~= s.subrange(i + 1, s.len() as int));
        lemma_digits_bound(b);
        lemma_pow10_mono(0, b.len());
        let da = digits_value(a);
        let p = pow10(b.len());
        assert(da >= 1);
        assert(da * p >= 1) by (nonlinear_arith)
            requires
                da >= 1,
                p >= 1,
        ;
    } else {
        assert forall|i: int| 0 <= i < s.len() implies digit_val(#[trigger] s[i]) == 0 by {}
        lemma_zeros_value(s);
    }
}

// ---------------------------------------------------------------------------
// The value of a scaled digit string compared with a whole number
// ---------------------------------------------------------------------------

/// `d × 10^k` is greater than `limit`.
pub open spec fn scaled_exceeds(d: int, k: int, limit: int) -> bool {
    if k >= 0 {
        d * pow10(k as nat) > limit
    } else {
        d > limit * pow10((-k) as nat)
    }
}

proof fn lemma_mul_ge(d: int, p: int, q: int)
    requires
        d >= p,
        q >= 0,
    ensures
        d * q >= p * q,
{
    assert(d * q >= p * q) by (nonlinear_arith)
        requires
            d >= p,
            q >= 0,
    ;
}

/// How a digit string compares, scaled by `10^k`, with a two-digit limit:
/// decided by where its first non-zero digit (at `z`) stands.
proof fn lemma_scaled_decision(m: Seq<char>, z: int, k: int, limit: int)
    requires
        digit_run(m),
        0 <= z < m.len(),
        forall|j: int| 0 <= j < z ==> digit_val(#[trigger] m[j]) == 0,
        digit_val(m[z]) != 0,
        10 <= limit <= 99,
    ensures
        ({
            let n = m.len() - z;
            let t = n + k;
            let d = digits_value(m);
            let top = digits_value(m.subrange(z, z + 2));
            &&& t >= 3 ==> scaled_exceeds(d, k, limit)
            &&& t <= 1 ==> !scaled_exceeds(d, k, limit)
            &&& t == 2 && n == 1 ==> (scaled_exceeds(d, k, limit) <==> digit_val(m[z]) * 10 > limit)
            &&& t == 2 && n >= 2 ==> (scaled_exceeds(d, k, limit) <==> (top > limit || (top == limit
                && exists|j: int| z + 2 <= j < m.len() && digit_val(m[j]) != 0)))
        }),
{
    let n = m.len() - z;
    let t = n + k;
    let pre = m.take(z);
    let sig = m.skip(z);
    assert(m =~= pre + sig);
    lemma_digits_concat(pre, sig);
    lemma_zeros_value(pre);
    assert(digits_value(pre) * pow10(sig.len()) == 0) by (nonlinear_arith)
        requires
            digits_value(pre) == 0,
    ;
    let d = digits_value(m);
    assert(d == digits_value(sig));
    lemma_digit_run_sub(m, z, m.len() as int);
    assert(sig =~= m.subrange(z, m.len() as int));
    assert(sig[0] == m[z]);
    lemma_digits_lead(sig);
    lemma_digits_bound(sig);
    let nn = n as nat;
    let n1 = (n - 1) as nat;
    assert(pow10(2) == 100) by {
        assert(pow10(0) == 1);
        assert(pow10(1) == 10);
    }
    assert(pow10(1) == 10) by {
        assert(pow10(0) == 1);
    }
    if t >= 3 {
        if k >= 0 {
            let kk = k as nat;
            lemma_pow10_add(n1, kk);
            lemma_pow10_mono(2, (n1 + kk) as nat);
            lemma_pow10_mono(0, kk);
            lemma_mul_ge(d, pow10(n1) as int, pow10(kk) as int);
        } else {
            let q = (-k) as nat;
            let t1 = (t - 1) as nat;
            assert(n1 == t1 + q);
            lemma_pow10_add(t1, q);
            lemma_pow10_mono(2, t1);
            lemma_pow10_mono(0, q);
            lemma_mul_ge(pow10(t1) as int, 100, pow10(q) as int);
            assert(100 * pow10(q) > limit * pow10(q)) by (nonlinear_arith)
                requires
                    pow10(q) >= 1,
                    limit <= 99,
            ;
        }
    }
    if t <= 1 {
        if k >= 0 {
            assert(n == 1 && k == 0);
            assert(pow10(0) == 1);
            assert(d * 1 == d);
        } else {
            let q = (-k) as nat;
            lemma_pow10_mono(nn, 1 + q);
            lemma_pow10_add(1, q);
            assert(10 * pow10(q) <= limit * pow10(q)) by (nonlinear_arith)
                requires
                    pow10(q) >= 1,
                    limit >= 10,
            ;
        }
    }
    if t == 2 && n == 1 {
        assert(k == 1);
        assert(sig.drop_last() =~= Seq::<char>::empty());
        assert(digits_value(sig) == digits_value(sig.drop_last()) * 10 + digit_val(sig.last()));
        assert(d == digit_val(m[z]));
    }
    if t == 2 && n >= 2 {
        let top = sig.take(2);
        let rest = sig.skip(2);
        assert(top =~= m.subrange(z, z + 2));
        assert(sig =~= top + rest);
        lemma_digits_concat(top, rest);
        lemma_digit_run_sub(sig, 2, sig.len() as int);
        assert(rest =~= sig.subrange(2, sig.len() as int));
        lemma_digits_bound(rest);
        lemma_digits_positive(rest);
        let rl = rest.len();
        let p = pow10(rl);
        let tv = digits_value(top);
        let rv = digits_value(rest);
        lemma_pow10_mono(0, rl);
        assert((exists|j: int| z + 2 <= j < m.len() && digit_val(m[j]) != 0) <==> (exists|j: int|
            0 <= j < rest.len() && digit_val(rest[j]) != 0)) by {
            if exists|j: int| z + 2 <= j < m.len() && digit_val(m[j]) != 0 {
                let j = choose|j: int| z + 2 <= j < m.len() && digit_val(m[j]) != 0;
                assert(rest[j - z - 2] == m[j]);
            }
            if exists|j: int| 0 <= j < rest.len() && digit_val(rest[j]) != 0 {
                let j = choose|j: int| 0 <= j < rest.len() && digit_val(rest[j]) != 0;
                assert(rest[j] == m[z + 2 + j]);
            }
        }
        if rl == 0 {
            assert(k == 0);
            assert(p == 1);
            assert(rv == 0);
            assert(d == tv * 1 + 0);
            assert(d * pow10(0) == d);
        } else {
            let q = (-k) as nat;
            assert(q == rl);
            assert(d == tv * p + rv);
            assert((d > limit * p) <==> (tv > limit || (tv == limit && rv > 0))) by (nonlinear_arith)
                requires
                    d == tv * p + rv,
                    0 <= rv < p,
                    p >= 1,
            ;
        }
    }
}

// ---------------------------------------------------------------------------
// The text `f64::from_str` reads
// ---------------------------------------------------------------------------

/// `s` spells the lower-case word `w`, each letter in either case.
pub open spec fn spells(s: Seq<char>, w: Seq<char>) -> bool {
    s.len() == w.len() && forall|i: int|
        0 <= i < s.len() ==> (s[i] == w[i] || (s[i] as u32) + 32 == (w[i] as u32))
}

/// `i` is the first position of `s` holding `e` or `E`.
pub open spec fn is_first_exp(s: Seq<char>, i: int) -> bool {
    0 <= i < s.len() && (s[i] == 'e' || s[i] == 'E') && forall|j: int|
        0 <= j < i ==> !(s[j] == 'e' || s[j] == 'E')
}

/// The position of the exponent mark of `s`, if it has one.
pub open spec fn exp_mark(s: Seq<char>) -> Option<int> {
    if exists|i: int| is_first_exp(s, i) {
        Some(choose|i: int| is_first_exp(s, i))
    } else {
        None
    }
}

/// The value of an exponent: an optional sign, then at least one digit.
pub open spec fn exponent_of(e: Seq<char>) -> Option<int> {
    let sb = sign_body(e);
    if sb.1.len() > 0 && digit_run(sb.1) {
        Some(
            if sb.0 {
                -digits_value(sb.1)
            } else {
                digits_value(sb.1)
            },
        )
    } else {
        None
    }
}

/// What a text is as `f64::from_str` reads it.
pub ghost enum FloatText {
    /// Infinity, negative when the sign is `-`.
    Infinite(bool),
    NotANumber,
    /// `±` the digits, `frac` of them after the point, times `10^exp`.
    Finite { neg: bool, digits: Seq<char>, frac: nat, exp: int },
}

/// The reading of `s`: an optional sign, then `inf`, `infinity` or `nan`
/// in any case, or digits with at most one `.` and at least one digit (see
/// [`decimal_split`]), followed by an optional exponent (`e` or `E`, an
/// optional sign, digits); `None` when `f64::from_str` refuses it.
pub open spec fn float_text(s: Seq<char>) -> Option<FloatText> {
    let sb = sign_body(s);
    let b = sb.1;
    if spells(b, "inf"@) || spells(b, "infinity"@) {
        Some(FloatText::Infinite(sb.0))
    } else if spells(b, "nan"@) {
        Some(FloatText::NotANumber)
    } else {
        let m = match exp_mark(b) {
            Some(i) => b.take(i),
            None => b,
        };
        let e = match exp_mark(b) {
            Some(i) => exponent_of(b.skip(i + 1)),
            None => Some(0int),
        };
        match (decimal_split(m), e) {
            (Some(p), Some(x)) => Some(
                FloatText::Finite { neg: sb.0, digits: p.0 + p.1, frac: p.1.len(), exp: x },
            ),
            _ => None,
        }
    }
}

/// Whether the number that `s` reads as is greater than `limit`, decided
/// on its exact value: infinity is above any limit and minus infinity
/// below, NaN is above none; `None` when `s` is no number.
pub open spec fn float_exceeds(s: Seq<char>, limit: int) -> Option<bool> {
    match float_text(s) {
        None => None,
        Some(FloatText::Infinite(neg)) => Some(!neg),
        Some(FloatText::NotANumber) => Some(false),
        Some(FloatText::Finite { neg, digits, frac, exp }) => Some(
            !neg && scaled_exceeds(digits_value(digits), exp - frac, limit),
        ),
    }
}

/// Whether `v` spells the lower-case word `w`; see [`spells`].
fn spells_in(v: &Vec<char>, w: &str) -> (r: bool)
    ensures
        r == spells(v@, w@),
{
    let wv = crate::text::chars_of(w);
    if v.len() != wv.len() {
        return false;
    }
    let mut i: usize = 0;
    while i < v.len()
        invariant
            i <= v.len(),
            v.len() == wv.len(),
            wv@ == w@,
            forall|j: int|
                0 <= j < i ==> (v@[j] == wv@[j] || (v@[j] as u32) + 32 == (wv@[j] as u32)),
        decreases v.len() - i,
    {
        let a = v[i];
        let c = wv[i];
        if !(a == c || ((c as u32) >= 32 && (a as u32) == (c as u32) - 32)) {
            return false;
        }
        i = i + 1;
    }
    true
}

/// The position of the exponent mark of `v`; see [`exp_mark`].
fn exp_mark_in(v: &Vec<char>) -> (r: Option<usize>)
    ensures
        match r {
            Some(i) => exp_mark(v@) == Some(i as int) && i < v.len(),
            None => exp_mark(v@) is None,
        },
{
    let mut i: usize = 0;
    while i < v.len()
        invariant
            i <= v.len(),
            forall|j: int| 0 <= j < i ==> !(v@[j] == 'e' || v@[j] == 'E'),
        decreases v.len() - i,
    {
        if v[i] == 'e' || v[i] == 'E' {
            assert(is_first_exp(v@, i as int));
            assert forall|q: int| #[trigger] is_first_exp(v@, q) implies q == i by {
                if q < i {
                } else if q > i {
                    assert(!(v@[i as int] == 'e' || v@[i as int] == 'E'));
                }
            }
            return Some(i);
        }
        i = i + 1;
    }
    assert forall|q: int| !#[trigger] is_first_exp(v@, q) by {
        if 0 <= q < v.len() {
            assert(!(v@[q] == 'e' || v@[q] == 'E'));
        }
    }
    None
}

/// The largest exponent read exactly: `2^70`.
pub const EXP_CAP: u128 = 1180591620717411303424;

/// The value of a run of digits, or `EXP_CAP + 1` when it is larger.
fn capped_exponent(v: &Vec<char>) -> (r: u128)
    requires
        digit_run(v@),
    ensures
        r == (if digits_value(v@) > EXP_CAP {
            EXP_CAP + 1
        } else {
            digits_value(v@)
        }),
{
    let mut acc: u128 = 0;
    let mut i: usize = 0;
    assert(v@.take(0) =~= Seq::<char>::empty());
    while i < v.len()
        invariant
            i <= v.len(),
            digit_run(v@),
            acc == (if digits_value(v@.take(i as int)) > EXP_CAP {
                EXP_CAP + 1
            } else {
                digits_value(v@.take(i as int))
            }),
        decreases v.len() - i,
    {
        let ghost prev = v@.take(i as int);
        let ghost next = v@.take(i + 1);
        assert(next.drop_last() == prev);
        assert(is_digit(v@[i as int]));
        let d: u128 = ((v[i] as u32) - 48) as u128;
        assert(digits_value(next) == digits_value(prev) * 10 + d);
        proof {
            lemma_digit_run_sub(v@, 0, i as int);
            assert(prev =~= v@.subrange(0, i as int));
            lemma_digits_bound(prev);
        }
        if acc > EXP_CAP {
            assert(digits_value(next) > EXP_CAP);
        } else if acc <= (EXP_CAP - d) / 10 {
            assert(acc * 10 + d <= EXP_CAP) by (nonlinear_arith)
                requires
                    d <= 9,
                    acc <= (EXP_CAP - d) / 10,
            ;
            acc = acc * 10 + d;
        } else {
            assert(acc * 10 + d > EXP_CAP) by (nonlinear_arith)
                requires
                    !(acc <= (EXP_CAP - d) / 10),
                    d <= 9,
            ;
            acc = EXP_CAP + 1;
        }
        i = i + 1;
    }
    assert(v@.take(v.len() as int) == v@);
    acc
}

/// The integer and fraction digits of a plain decimal number; see
/// [`decimal_split`].
fn decimal_split_in(b: &Vec<char>) -> (r: Option<(Vec<char>, Vec<char>)>)
    ensures
        match r {
            Some((ip, fp)) => decimal_split(b@) == Some((ip@, fp@)),
            None => decimal_split(b@) is None,
        },
{
    match find_char_in(b, '.') {
        None => {
            if b.len() == 0 || !digit_run_in(b) {
                return None;
            }
            let ip = slice(b, 0, b.len());
            assert(ip@ =~= b@);
            Some((ip, Vec::new()))
        },
        Some(k) => {
            let ip = slice(b, 0, k);
            let fp = slice(b, k + 1, b.len());
            assert(ip@ == b@.take(k as int));
            assert(fp@ == b@.skip(k + 1));
            if b.len() <= 1 || !digit_run_in(&ip) || !digit_run_in(&fp) {
                return None;
            }
            Some((ip, fp))
        },
    }
}

/// The value of two digits.
fn two_digits(a: char, b: char) -> (r: u64)
    requires
        is_digit(a),
        is_digit(b),
    ensures
        r == digits_value(seq![a, b]),
{
    assert(seq![a, b].drop_last() =~= seq![a]);
    assert(seq![a].drop_last() =~= Seq::<char>::empty());
    assert(seq![a, b].last() == b);
    assert(seq![a].last() == a);
    assert(digits_value(seq![a]) == digits_value(seq![a].drop_last()) * 10 + digit_val(a));
    assert(digits_value(seq![a, b]) == digits_value(seq![a]) * 10 + digit_val(b));
    (((a as u32) - 48) * 10 + ((b as u32) - 48)) as u64
}

/// [`float_exceeds`] on a character vector, for a limit from 10 to 99.
pub fn float_exceeds_in(v: &Vec<char>, limit: u64) -> (r: Option<bool>)
    requires
        10 <= limit <= 99,
    ensures
        r == float_exceeds(v@, limit as int),
{
    let signed = v.len() > 0 && (v[0] == '+' || v[0] == '-');
    let neg = signed && v[0] == '-';
    let from: usize = if signed {
        1
    } else {
        0
    };
    let b = slice(v, from, v.len());
    assert(b@ == sign_body(v@).1);
    assert(neg == sign_body(v@).0);
    proof {
        reveal_strlit("inf");
        reveal_strlit("infinity");
        reveal_strlit("nan");
    }
    if spells_in(&b, "inf") || spells_in(&b, "infinity") {
        return Some(!neg);
    }
    if spells_in(&b, "nan") {
        return Some(false);
    }
    let mark = exp_mark_in(&b);
    let (m, exp_neg, exp_mag): (Vec<char>, bool, u128) = match mark {
        Some(i) => {
            let m = slice(&b, 0, i);
            assert(m@ == b@.take(i as int));
            let e = slice(&b, i + 1, b.len());
            assert(e@ == b@.skip(i + 1));
            let es = e.len() > 0 && (e[0] == '+' || e[0] == '-');
            let en = es && e[0] == '-';
            let ef: usize = if es {
                1
            } else {
                0
            };
            let body = slice(&e, ef, e.len());
            assert(body@ == sign_body(e@).1);
            if body.len() == 0 || !digit_run_in(&body) {
                assert(exponent_of(e@) is None);
                return None;
            }
            let mag = capped_exponent(&body);
            (m, en, mag)
        },
        None => {
            let m = slice(&b, 0, b.len());
            assert(m@ =~= b@);
            (m, false, 0)
        },
    };
    let ghost x: int = match exp_mark(b@) {
        Some(i) => exponent_of(b@.skip(i + 1))->0,
        None => 0,
    };
    assert(exp_mag <= EXP_CAP ==> x == (if exp_neg {
        -(exp_mag as int)
    } else {
        exp_mag as int
    }));
    assert(exp_mag > EXP_CAP ==> (if exp_neg {
        x < -(EXP_CAP as int)
    } else {
        x > EXP_CAP
    }));
    let (ip, fp) = match decimal_split_in(&m) {
        Some(p) => p,
        None => {
            return None;
        },
    };
    let mut digits = ip.clone();
    let mut j: usize = 0;
    let ghost d0 = digits@;
    assert(d0 == ip@);
    while j < fp.len()
        invariant
            j <= fp.len(),
            digits@ == ip@ + fp@.take(j as int),
        decreases fp.len() - j,
    {
        digits.push(fp[j]);
        j = j + 1;
        assert(digits@ =~= ip@ + fp@.take(j as int));
    }
    assert(fp@.take(fp.len() as int) =~= fp@);
    let ghost k: int = x - fp@.len();
    assert(float_text(v@) == Some(
        FloatText::Finite { neg, digits: digits@, frac: fp@.len(), exp: x },
    ));
    if neg {
        return Some(false);
    }
    assert(digit_run(digits@)) by {
        assert(digit_run(ip@) && digit_run(fp@));
        assert forall|q: int| 0 <= q < digits@.len() implies is_digit(#[trigger] digits@[q]) by {
            if q < ip@.len() {
                assert(digits@[q] == ip@[q]);
            } else {
                assert(digits@[q] == fp@[q - ip@.len()]);
            }
        }
    }
    Some(scaled_decide(&digits, fp.len(), exp_neg, exp_mag, Ghost(x), limit))
}

/// [`scaled_exceeds`] of a digit string scaled by `10^(x - f)`, where the
/// exponent `x` is given as a sign and a magnitude capped at [`EXP_CAP`].
fn scaled_decide(
    digits: &Vec<char>,
    f: usize,
    exp_neg: bool,
    exp_mag: u128,
    Ghost(x): Ghost<int>,
    limit: u64,
) -> (r: bool)
    requires
        digit_run(digits@),
        10 <= limit <= 99,
        exp_mag <= EXP_CAP ==> x == (if exp_neg {
            -(exp_mag as int)
        } else {
            exp_mag as int
        }),
        exp_mag > EXP_CAP ==> (if exp_neg {
            x < -(EXP_CAP as int)
        } else {
            x > EXP_CAP
        }),
    ensures
        r == scaled_exceeds(digits_value(digits@), x - f, limit as int),
{
    let ghost k: int = x - f;
    let mut z: usize = 0;
    while z < digits.len() && (digits[z] as u32) == 48
        invariant
            z <= digits.len(),
            forall|q: int| 0 <= q < z ==> digit_val(#[trigger] digits@[q]) == 0,
        decreases digits.len() - z,
    {
        z = z + 1;
    }
    if z == digits.len() {
        proof {
            lemma_zeros_value(digits@);
            if k >= 0 {
                assert(0 * pow10(k as nat) == 0);
            } else {
                lemma_pow10_mono(0, (-k) as nat);
                assert(limit * pow10((-k) as nat) >= 0) by (nonlinear_arith)
                    requires
                        limit >= 0,
                        pow10((-k) as nat) >= 1,
                ;
            }
        }
        return false;
    }
    proof {
        lemma_scaled_decision(digits@, z as int, k, limit as int);
    }
    let n: usize = digits.len() - z;
    let t_class: i8 = if exp_mag > EXP_CAP {
        if exp_neg {
            -1
        } else {
            1
        }
    } else {
        let t: i128 = (n as i128) + (if exp_neg {
            -(exp_mag as i128)
        } else {
            exp_mag as i128
        }) - (f as i128);
        if t >= 3 {
            1
        } else if t <= 1 {
            -1
        } else {
            0
        }
    };
    if t_class == 1 {
        return true;
    }
    if t_class == -1 {
        return false;
    }
    if n == 1 {
        assert(is_digit(digits@[z as int]));
        let dz: u64 = ((digits[z] as u32) - 48) as u64;
        return dz * 10 > limit;
    }
    assert(is_digit(digits@[z as int]) && is_digit(digits@[z + 1]));
    let top = two_digits(digits[z], digits[z + 1]);
    assert(digits@.subrange(z as int, z + 2) =~= seq![digits@[z as int], digits@[z + 1]]);
    let mut nonzero = false;
    let mut q: usize = z + 2;
    while q < digits.len()
        invariant
            z + 2 <= q <= digits.len(),
            nonzero == exists|j: int| z + 2 <= j < q && digit_val(digits@[j]) != 0,
        decreases digits.len() - q,
    {
        if (digits[q] as u32) != 48 {
            nonzero = true;
        }
        q = q + 1;
    }
    top > limit || (top == limit && nonzero)
}

} // verus!
