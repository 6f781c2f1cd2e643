//! Numbers as they are written in text, in the syntax read by
//! `str::parse::<f64>` (which includes JSON numbers): exact decimals, with
//! the words for infinity and not-a-number.

use vstd::prelude::*;

use crate::text::{eq_fold, eq_fold_exec, slice_range};

verus! {

/// `10^k`.
pub open spec fn pow10(k: nat) -> nat
    decreases k,
{
    if k == 0 {
        1
    } else {
        10 * pow10((k - 1) as nat)
    }
}

/// Powers of ten are positive and grow with the exponent.
pub proof fn lemma_pow10_mono(a: nat, b: nat)
    requires
        a <= b,
    ensures
        1 <= pow10(a) <= pow10(b),
    decreases b,
{
    if b > a {
        lemma_pow10_mono(a, (b - 1) as nat);
    } else if a > 0 {
        lemma_pow10_mono(0, (a - 1) as nat);
    }
}

/// `10^39` exceeds twice every `u128`.
pub proof fn lemma_pow10_39()
    ensures
        pow10(39) > 2 * (u128::MAX as int),
{
    reveal_with_fuel(pow10, 40);
}

/// `10^k` for `k <= 38`, which fits in a `u128`.
pub fn pow10_u128(k: u32) -> (res: u128)
    requires
        k <= 38,
    ensures
        res == pow10(k as nat),
{
    let mut p: u128 = 1;
    let mut i: u32 = 0;
    while i < k
        invariant
            i <= k <= 38,
            p == pow10(i as nat),
        decreases k - i,
    {
        proof {
            lemma_pow10_mono(i as nat + 1, 38);
            reveal_with_fuel(pow10, 39);
            assert(pow10(38) < u128::MAX);
        }
        p = p * 10;
        i = i + 1;
    }
    p
}

/// An ASCII decimal digit.
pub open spec fn is_digit(c: char) -> bool {
    '0' <= c && c <= '9'
}

/// Every character is a decimal digit.
pub open spec fn all_digits(s: Seq<char>) -> bool {
    forall|i: int| 0 <= i < s.len() ==> is_digit(#[trigger] s[i])
}

/// The value of a decimal digit.
pub open spec fn digit_value(c: char) -> nat {
    ((c as u32) - ('0' as u32)) as nat
}

/// The number written by a string of digits (zero for the empty string).
pub open spec fn digits_value(s: Seq<char>) -> nat
    decreases s.len(),
{
    if s.len() == 0 {
        0
    } else {
        digits_value(s.drop_last()) * 10 + digit_value(s.last())
    }
}

/// A prefix never writes a larger number.
pub proof fn lemma_digits_prefix(s: Seq<char>, i: int)
    requires
        0 <= i <= s.len(),
    ensures
        digits_value(s.take(i)) <= digits_value(s),
    decreases s.len() - i,
{
    if i < s.len() {
        lemma_digits_prefix(s, i + 1);
        assert(s.take(i + 1).drop_last() =~= s.take(i));
    } else {
        assert(s.take(i) =~= s);
    }
}

/// The value of a digit string, if it fits in a `u128`.
pub fn digits_to_u128(d: &[char]) -> (res: Option<u128>)
    requires
        all_digits(d@),
    ensures
        res is Some <==> digits_value(d@) <= u128::MAX,
        res matches Some(v) ==> v == digits_value(d@),
{
    let mut v: u128 = 0;
    let mut i: usize = 0;
    while i < d.len()
        invariant
            i <= d@.len(),
            all_digits(d@),
            v == digits_value(d@.take(i as int)),
        decreases d@.len() - i,
    {
        assert(d@.take(i + 1).drop_last() =~= d@.take(i as int));
        assert(is_digit(d@[i as int]));
        let dv: u32 = (d[i] as u32) - ('0' as u32);
        let step = v.checked_mul(10);
        match step {
            None => {
                proof {
                    lemma_digits_prefix(d@, i + 1);
                }
                return None;
            },
            Some(t) => {
                let next = t.checked_add(dv as u128);
                match next {
                    None => {
                        proof {
                            lemma_digits_prefix(d@, i + 1);
                        }
                        return None;
                    },
                    Some(n) => {
                        v = n;
                    },
                }
            },
        }
        i = i + 1;
    }
    assert(d@.take(i as int) =~= d@);
    Some(v)
}

/// Whether `s` is all digits.
pub fn check_digits(s: &[char]) -> (res: bool)
    ensures
        res == all_digits(s@),
{
    let mut i: usize = 0;
    while i < s.len()
        invariant
            i <= s@.len(),
            forall|k: int| 0 <= k < i ==> is_digit(#[trigger] s@[k]),
        decreases s@.len() - i,
    {
        if !(s[i] >= '0' && s[i] <= '9') {
            return false;
        }
        i = i + 1;
    }
    true
}

/// The position of the first `a` or `b` in `s`, or its length.
pub open spec fn find2(s: Seq<char>, a: char, b: char) -> nat
    decreases s.len(),
{
    if s.len() == 0 {
        0
    } else if s[0] == a || s[0] == b {
        0
    } else {
        1 + find2(s.drop_first(), a, b)
    }
}

/// `find2` is the first position holding `a` or `b`.
pub proof fn lemma_find2(s: Seq<char>, a: char, b: char)
    ensures
        find2(s, a, b) <= s.len(),
        forall|k: int| 0 <= k < find2(s, a, b) ==> s[k] != a && s[k] != b,
        find2(s, a, b) < s.len() ==> (s[find2(s, a, b) as int] == a || s[find2(s, a, b) as int] == b),
    decreases s.len(),
{
    if s.len() > 0 && s[0] != a && s[0] != b {
        lemma_find2(s.drop_first(), a, b);
        assert forall|k: int| 0 <= k < find2(s, a, b) implies s[k] != a && s[k] != b by {
            if k > 0 {
                assert(s[k] == s.drop_first()[k - 1]);
            }
        }
    }
}

/// The position of the first `a` or `b` in `s[from..]`, counted from the start of `s`.
pub fn find2_from(s: &[char], from: usize, a: char, b: char) -> (res: usize)
    requires
        from <= s@.len(),
    ensures
        res == from + find2(s@.skip(from as int), a, b),
{
    let mut j = from;
    while j < s.len() && s[j] != a && s[j] != b
        invariant
            from <= j <= s@.len(),
            forall|k: int| from <= k < j ==> s@[k] != a && s@[k] != b,
        decreases s@.len() - j,
    {
        j = j + 1;
    }
    proof {
        let t = s@.skip(from as int);
        lemma_find2(t, a, b);
        let r = find2(t, a, b);
        if r < j - from {
            assert(t[r as int] == s@[from + r]);
        }
        if r > j - from {
            assert(t[j - from] == s@[j as int]);
        }
    }
    j
}

/// A leading sign and the rest of the text.
pub open spec fn sign_split(s: Seq<char>) -> (bool, Seq<char>) {
    if s.len() > 0 && s[0] == '-' {
        (true, s.drop_first())
    } else if s.len() > 0 && s[0] == '+' {
        (false, s.drop_first())
    } else {
        (false, s)
    }
}

/// The value of an exponent: an optional sign, then at least one digit.
pub open spec fn exponent_text(t: Seq<char>) -> Option<int> {
    let (neg, d) = sign_split(t);
    if d.len() > 0 && all_digits(d) {
        Some(if neg { -(digits_value(d) as int) } else { digits_value(d) as int })
    } else {
        None
    }
}

/// The reading of a number text `[+-]? (digits [. digits?] | . digits) ([eE] [+-]? digits)?`
/// as `(negative, m, e)` for the value `±m * 10^e`, where `m` is the number
/// written by all the digits before the exponent.
pub open spec fn number_text(s: Seq<char>) -> Option<(bool, nat, int)> {
    let (neg, body) = sign_split(s);
    let e = find2(body, 'e', 'E') as int;
    let mant = body.take(e);
    let d = find2(mant, '.', '.') as int;
    let ip = mant.take(d);
    let fp = if d < mant.len() { mant.skip(d + 1) } else { Seq::<char>::empty() };
    let ev = if e < body.len() { exponent_text(body.skip(e + 1)) } else { Some(0int) };
    if all_digits(ip) && all_digits(fp) && ip.len() + fp.len() > 0 && ev is Some {
        Some((neg, digits_value(ip + fp), ev->Some_0 - fp.len()))
    } else {
        None
    }
}

/// The largest exponent magnitude a [`Decimal`] carries.
pub const EXPONENT_LIMIT: i128 = 1_000_000_000_000_000_000_000_000_000_000;

/// A finite decimal number `(-1)^negative * mantissa * 10^exponent`.
#[derive(Clone, Copy, Debug, PartialEq, Eq)]
pub struct Decimal {
    /// Sign.
    pub negative: bool,
    /// Digits as an integer.
    pub mantissa: u128,
    /// Power of ten.
    pub exponent: i128,
}

impl Decimal {
    /// The numerator of the value as a fraction with a power-of-ten denominator.
    pub open spec fn num(self) -> int {
        let m: int = if self.exponent >= 0 { self.mantissa * pow10(self.exponent as nat) } else { self.mantissa as int };
        if self.negative { -m } else { m }
    }

    /// The denominator of the value.
    pub open spec fn den(self) -> nat {
        if self.exponent >= 0 { 1 } else { pow10((-self.exponent) as nat) }
    }

    /// The value is at most one.
    pub open spec fn le_one(self) -> bool {
        self.num() <= self.den()
    }

    /// The value is greater than one half.
    pub open spec fn gt_half(self) -> bool {
        2 * self.num() > self.den()
    }

    /// The value is greater than zero.
    pub open spec fn positive(self) -> bool {
        self.num() > 0
    }

    /// Whether the value is at most one.
    pub fn is_le_one(&self) -> (res: bool)
        ensures
            res == self.le_one(),
    {
        proof {
            lemma_pow10_mono(0, (if self.exponent >= 0 { self.exponent as int } else { -self.exponent }) as nat);
        }
        if self.negative || self.mantissa == 0 {
            proof {
                if self.exponent >= 0 {
                    assert(self.mantissa * pow10(self.exponent as nat) >= 0) by (nonlinear_arith)
                        requires pow10(self.exponent as nat) >= 1;
                    assert(self.mantissa == 0 ==> self.mantissa * pow10(self.exponent as nat) == 0);
                }
            }
            return true;
        }
        if self.exponent >= 0 {
            proof {
                let p = pow10(self.exponent as nat);
                if self.exponent > 0 {
                    lemma_pow10_mono(1, self.exponent as nat);
                    assert(pow10(1) == 10) by {
                        reveal_with_fuel(pow10, 2);
                    }
                    assert(self.mantissa * p >= p) by (nonlinear_arith)
                        requires self.mantissa >= 1, p >= 1;
                    assert(!self.le_one());
                } else {
                    assert(p == 1);
                    assert(self.mantissa * p == self.mantissa) by (nonlinear_arith)
                        requires p == 1;
                }
            }
            return self.mantissa == 1 && self.exponent == 0;
        }
        if self.exponent < -38 {
            proof {
                lemma_pow10_mono(39, (-self.exponent) as nat);
                lemma_pow10_39();
            }
            return true;
        }
        let k = (0 - self.exponent) as u32;
        let p = pow10_u128(k);
        self.mantissa <= p
    }

    /// Whether the value is greater than one half.
    pub fn is_gt_half(&self) -> (res: bool)
        ensures
            res == self.gt_half(),
    {
        proof {
            lemma_pow10_mono(0, (if self.exponent >= 0 { self.exponent as int } else { -self.exponent }) as nat);
        }
        if self.negative || self.mantissa == 0 {
            proof {
                if self.exponent >= 0 {
                    assert(self.mantissa * pow10(self.exponent as nat) >= 0) by (nonlinear_arith)
                        requires pow10(self.exponent as nat) >= 1;
                    assert(self.mantissa == 0 ==> self.mantissa * pow10(self.exponent as nat) == 0);
                }
            }
            return false;
        }
        if self.exponent >= 0 {
            proof {
                let p = pow10(self.exponent as nat);
                assert(self.mantissa * p >= 1) by (nonlinear_arith)
                    requires self.mantissa >= 1, p >= 1;
            }
            return true;
        }
        if self.exponent < -38 {
            proof {
                lemma_pow10_mono(39, (-self.exponent) as nat);
                lemma_pow10_39();
            }
            return false;
        }
        let k = (0 - self.exponent) as u32;
        let p = pow10_u128(k);
        proof {
            reveal_with_fuel(pow10, 2);
            lemma_pow10_mono(0, (k - 1) as nat);
            assert(p == 10 * pow10((k - 1) as nat));
        }
        self.mantissa > p / 2
    }

    /// Whether the value is greater than zero.
    pub fn is_positive(&self) -> (res: bool)
        ensures
            res == self.positive(),
    {
        proof {
            if self.exponent >= 0 {
                lemma_pow10_mono(0, self.exponent as nat);
                assert(self.mantissa > 0 ==> self.mantissa * pow10(self.exponent as nat) > 0) by (nonlinear_arith)
                    requires pow10(self.exponent as nat) >= 1;
                assert(self.mantissa == 0 ==> self.mantissa * pow10(self.exponent as nat) == 0);
            }
        }
        !self.negative && self.mantissa > 0
    }
}

/// `10^(a + b) = 10^a * 10^b`.
pub proof fn lemma_pow10_add(a: nat, b: nat)
    ensures
        pow10(a + b) == pow10(a) * pow10(b),
    decreases b,
{
    if b == 0 {
        assert(pow10(0) == 1);
        assert(pow10(a) * 1 == pow10(a));
    } else {
        lemma_pow10_add(a, (b - 1) as nat);
        assert((a + b - 1) as nat == a + (b - 1) as nat);
        assert(pow10(a + b) == 10 * pow10((a + b - 1) as nat));
        assert(pow10(b) == 10 * pow10((b - 1) as nat));
        let x = pow10(a);
        let y = pow10((b - 1) as nat);
        assert(x * (10 * y) == 10 * (x * y)) by (nonlinear_arith);
    }
}

/// `a <= b` for decimals, by cross-multiplying the fractions.
pub open spec fn dec_le(a: Decimal, b: Decimal) -> bool {
    a.num() * b.den() <= b.num() * a.den()
}

/// For non-negative decimals, `a <= b` compares the mantissas after moving
/// the difference of the exponents to one side.
proof fn lemma_dec_le_mantissas(a: Decimal, b: Decimal)
    requires
        !a.negative,
        !b.negative,
    ensures
        a.exponent >= b.exponent ==> (dec_le(a, b) <==> a.mantissa * pow10((a.exponent - b.exponent) as nat) <= b.mantissa),
        a.exponent < b.exponent ==> (dec_le(a, b) <==> a.mantissa <= b.mantissa * pow10((b.exponent - a.exponent) as nat)),
{
    let p1: nat = if a.exponent >= 0 { a.exponent as nat } else { 0 };
    let q1: nat = if a.exponent >= 0 { 0 } else { (-a.exponent) as nat };
    let p2: nat = if b.exponent >= 0 { b.exponent as nat } else { 0 };
    let q2: nat = if b.exponent >= 0 { 0 } else { (-b.exponent) as nat };
    let m1 = a.mantissa as int;
    let m2 = b.mantissa as int;
    assert(pow10(0) == 1);
    assert(m1 * 1 == m1 && m2 * 1 == m2);
    assert(a.num() == m1 * pow10(p1));
    assert(b.num() == m2 * pow10(p2));
    assert(a.den() == pow10(q1));
    assert(b.den() == pow10(q2));
    lemma_pow10_add(p1, q2);
    lemma_pow10_add(p2, q1);
    let x = pow10(p1 + q2);
    let y = pow10(p2 + q1);
    assert(a.num() * b.den() == m1 * x) by (nonlinear_arith)
        requires a.num() == m1 * pow10(p1), b.den() == pow10(q2), x == pow10(p1) * pow10(q2);
    assert(b.num() * a.den() == m2 * y) by (nonlinear_arith)
        requires b.num() == m2 * pow10(p2), a.den() == pow10(q1), y == pow10(p2) * pow10(q1);
    if a.exponent >= b.exponent {
        let d = (a.exponent - b.exponent) as nat;
        assert(p1 + q2 == d + (p2 + q1));
        lemma_pow10_add(d, p2 + q1);
        lemma_pow10_mono(0, p2 + q1);
        let k = pow10(p2 + q1);
        let e = pow10(d);
        assert(m1 * x == (m1 * e) * k) by (nonlinear_arith)
            requires x == e * k;
        assert((m1 * e) * k <= m2 * k <==> m1 * e <= m2) by (nonlinear_arith)
            requires k >= 1;
    } else {
        let d = (b.exponent - a.exponent) as nat;
        assert(p2 + q1 == d + (p1 + q2));
        lemma_pow10_add(d, p1 + q2);
        lemma_pow10_mono(0, p1 + q2);
        let k = pow10(p1 + q2);
        let e = pow10(d);
        assert(m2 * y == (m2 * e) * k) by (nonlinear_arith)
            requires y == e * k;
        assert(m1 * k <= (m2 * e) * k <==> m1 <= m2 * e) by (nonlinear_arith)
            requires k >= 1;
    }
}

/// Whether `a <= b`, for decimals that carry no minus sign.
pub fn le_unsigned(a: &Decimal, b: &Decimal) -> (res: bool)
    requires
        !a.negative,
        !b.negative,
    ensures
        res == dec_le(*a, *b),
{
    proof {
        lemma_dec_le_mantissas(*a, *b);
        lemma_pow10_39();
    }
    if a.exponent >= b.exponent {
        if a.mantissa == 0 {
            proof {
                let e = pow10((a.exponent - b.exponent) as nat);
                assert(0 * e == 0);
            }
            return true;
        }
        if b.exponent <= i128::MAX - 39 && a.exponent >= b.exponent + 39 {
            proof {
                let e = pow10((a.exponent - b.exponent) as nat);
                lemma_pow10_mono(39, (a.exponent - b.exponent) as nat);
                assert(a.mantissa * e >= e) by (nonlinear_arith)
                    requires a.mantissa >= 1, e >= 1;
            }
            return false;
        }
        let d = (a.exponent - b.exponent) as u32;
        let p = pow10_u128(d);
        match a.mantissa.checked_mul(p) {
            Some(x) => x <= b.mantissa,
            None => false,
        }
    } else {
        if b.mantissa == 0 {
            proof {
                let e = pow10((b.exponent - a.exponent) as nat);
                assert(0 * e == 0) by (nonlinear_arith);
            }
            return a.mantissa == 0;
        }
        if a.exponent <= i128::MAX - 39 && b.exponent >= a.exponent + 39 {
            proof {
                let e = pow10((b.exponent - a.exponent) as nat);
                lemma_pow10_mono(39, (b.exponent - a.exponent) as nat);
                assert(b.mantissa * e >= e) by (nonlinear_arith)
                    requires b.mantissa >= 1, e >= 1;
            }
            return true;
        }
        let d = (b.exponent - a.exponent) as u32;
        let p = pow10_u128(d);
        match b.mantissa.checked_mul(p) {
            Some(x) => a.mantissa <= x,
            None => true,
        }
    }
}

/// Reads an exponent text: an optional sign and its digits, if the value is
/// at most `10^33`.
pub fn parse_exponent(t: &[char]) -> (res: Option<(bool, u128)>)
    ensures
        match exponent_text(t@) {
            None => res is None,
            Some(v) => if -1_000_000_000_000_000_000_000_000_000_000_000 <= v <= 1_000_000_000_000_000_000_000_000_000_000_000 {
                res matches Some((neg, m)) && (if neg { -(m as int) } else { m as int }) == v
            } else {
                res is None
            },
        },
{
    let (eneg, es): (bool, usize) = if t.len() > 0 && t[0] == '-' {
        (true, 1)
    } else if t.len() > 0 && t[0] == '+' {
        (false, 1)
    } else {
        (false, 0)
    };
    let d = slice_range(t, es, t.len());
    assert(d@ =~= sign_split(t@).1);
    if d.len() == 0 || !check_digits(d.as_slice()) {
        return None;
    }
    match digits_to_u128(d.as_slice()) {
        None => None,
        Some(v) => {
            if v > 1_000_000_000_000_000_000_000_000_000_000_000 {
                None
            } else {
                Some((eneg, v))
            }
        },
    }
}

/// The digits of a mantissa text `digits [. digits?] | . digits`, without the point.
pub fn mantissa_digits(mant: &[char]) -> (res: Option<(Vec<char>, usize)>)
    ensures
        ({
            let d = find2(mant@, '.', '.') as int;
            let ip = mant@.take(d);
            let fp = if d < mant@.len() { mant@.skip(d + 1) } else { Seq::<char>::empty() };
            &&& res is Some <==> (all_digits(ip) && all_digits(fp) && ip.len() + fp.len() > 0)
            &&& res matches Some((v, n)) ==> v@ == ip + fp && all_digits(v@) && n == fp.len()
        }),
{
    let dpos = find2_from(mant, 0, '.', '.');
    assert(mant@.skip(0) =~= mant@);
    proof { lemma_find2(mant@, '.', '.'); }
    let ip = slice_range(mant, 0, dpos);
    assert(ip@ =~= mant@.take(dpos as int));
    let fp: Vec<char> = if dpos < mant.len() {
        let f = slice_range(mant, dpos + 1, mant.len());
        assert(f@ =~= mant@.skip(dpos + 1));
        f
    } else {
        Vec::new()
    };
    if !check_digits(ip.as_slice()) || !check_digits(fp.as_slice()) || ip.len() + fp.len() == 0 {
        return None;
    }
    let mut digits = ip.clone();
    let mut k: usize = 0;
    while k < fp.len()
        invariant
            k <= fp@.len(),
            digits@ == ip@ + fp@.take(k as int),
        decreases fp@.len() - k,
    {
        digits.push(fp[k]);
        assert(fp@.take(k + 1) =~= fp@.take(k as int).push(fp@[k as int]));
        k = k + 1;
    }
    assert(fp@.take(k as int) =~= fp@);
    assert(all_digits(digits@)) by {
        assert forall|i: int| 0 <= i < digits@.len() implies is_digit(#[trigger] digits@[i]) by {
            if i < ip@.len() {
                assert(digits@[i] == ip@[i]);
            } else {
                assert(digits@[i] == fp@[i - ip@.len()]);
            }
        }
    }
    Some((digits, fp.len()))
}

/// A number as a text of the `f64` syntax writes it: finite, infinite with
/// a sign, or not a number.
#[derive(Clone, Copy, Debug, PartialEq, Eq)]
pub enum Number {
    Finite(Decimal),
    /// Infinity; `true` for minus infinity.
    Infinite(bool),
    NaN,
}

impl Number {
    /// The number is greater than one half (never for `NaN`).
    pub open spec fn gt_half(self) -> bool {
        match self {
            Number::Finite(d) => d.gt_half(),
            Number::Infinite(neg) => !neg,
            Number::NaN => false,
        }
    }

    /// Whether the number is greater than one half.
    pub fn is_gt_half(&self) -> (res: bool)
        ensures
            res == self.gt_half(),
    {
        match self {
            Number::Finite(d) => d.is_gt_half(),
            Number::Infinite(neg) => !*neg,
            Number::NaN => false,
        }
    }
}

/// The words for infinity and not-a-number, in any case, after an optional sign.
pub open spec fn special_text(s: Seq<char>) -> Option<Number> {
    let (neg, body) = sign_split(s);
    if eq_fold(body, seq!['i', 'n', 'f']) || eq_fold(body, seq!['i', 'n', 'f', 'i', 'n', 'i', 't', 'y']) {
        Some(Number::Infinite(neg))
    } else if eq_fold(body, seq!['n', 'a', 'n']) {
        Some(Number::NaN)
    } else {
        None
    }
}

/// `m * 10^e` with the last digits of `m` cut off until it fits in a `u128`,
/// the exponent raised by one for each digit cut.
pub open spec fn shrink(m: nat, e: int) -> (nat, int)
    decreases m,
{
    if m <= u128::MAX {
        (m, e)
    } else {
        shrink(m / 10, e + 1)
    }
}

/// Zero with a sign.
pub open spec fn signed_zero(neg: bool) -> Decimal {
    Decimal { negative: neg, mantissa: 0, exponent: 0 }
}

/// `±m * 10^e` for an `m` that fits in a `u128`: zero when `m` is zero or
/// the exponent lies below [`EXPONENT_LIMIT`], infinite when it lies above.
pub open spec fn scaled(neg: bool, m: nat, e: int) -> Number {
    if m == 0 || e < -EXPONENT_LIMIT {
        Number::Finite(signed_zero(neg))
    } else if e > EXPONENT_LIMIT {
        Number::Infinite(neg)
    } else {
        Number::Finite(Decimal { negative: neg, mantissa: m as u128, exponent: e as i128 })
    }
}

/// The number a text writes: the words for infinity and not-a-number, or a
/// number text (see [`number_text`]) whose digits are cut to fit a `u128`
/// (see [`shrink`]); beyond [`EXPONENT_LIMIT`] a number is infinite when the
/// exponent is positive and zero when it is negative. `None` when the text is
/// not a number.
pub open spec fn number_of(s: Seq<char>) -> Option<Number> {
    match special_text(s) {
        Some(n) => Some(n),
        None => match number_text(s) {
            None => None,
            Some((neg, m, e)) => Some(scaled(neg, shrink(m, e).0, shrink(m, e).1)),
        },
    }
}

/// The finite number a text writes (see [`number_of`]); `None` when it is
/// not a number or not finite.
pub open spec fn decimal_of(s: Seq<char>) -> Option<Decimal> {
    match number_of(s) {
        Some(Number::Finite(d)) => Some(d),
        _ => None,
    }
}

/// Cutting the digits after position `i` is what [`shrink`] does when the
/// first `i` digits fit in a `u128` and the first `i + 1` do not.
proof fn lemma_shrink_digits(d: Seq<char>, i: int, j: int, e: int)
    requires
        all_digits(d),
        0 <= i <= j <= d.len(),
        digits_value(d.take(i)) <= u128::MAX,
        i < j ==> digits_value(d.take(i + 1)) > u128::MAX,
    ensures
        shrink(digits_value(d.take(j)), e) == (digits_value(d.take(i)), e + (j - i)),
    decreases j - i,
{
    if j > i {
        let x = digits_value(d.take(j));
        lemma_digits_prefix(d.take(j), i + 1);
        assert(d.take(j).take(i + 1) =~= d.take(i + 1));
        assert(x > u128::MAX);
        assert(d.take(j).drop_last() =~= d.take(j - 1));
        assert(is_digit(d[j - 1]));
        assert(x / 10 == digits_value(d.take(j - 1)));
        if i < j - 1 {
        }
        lemma_shrink_digits(d, i, j - 1, e + 1);
    }
}

/// The leading digits that fit in a `u128` and the number of digits cut
/// after them (see [`shrink`]).
pub fn leading_u128(d: &[char]) -> (res: (u128, usize))
    requires
        all_digits(d@),
    ensures
        forall|e: int| #[trigger] shrink(digits_value(d@), e) == (res.0 as nat, e + res.1),
        res.1 <= d@.len(),
{
    let mut v: u128 = 0;
    let mut i: usize = 0;
    while i < d.len()
        invariant
            i <= d@.len(),
            all_digits(d@),
            v == digits_value(d@.take(i as int)),
        decreases d@.len() - i,
    {
        assert(d@.take(i + 1).drop_last() =~= d@.take(i as int));
        assert(is_digit(d@[i as int]));
        let dv: u32 = (d[i] as u32) - ('0' as u32);
        let next = match v.checked_mul(10) {
            None => None,
            Some(t) => t.checked_add(dv as u128),
        };
        match next {
            None => {
                proof {
                    assert(digits_value(d@.take(i + 1)) > u128::MAX);
                    assert(d@.take(d@.len() as int) =~= d@);
                    assert forall|e: int| #[trigger] shrink(digits_value(d@), e) == (v as nat, e + (d@.len() - i)) by {
                        lemma_shrink_digits(d@, i as int, d@.len() as int, e);
                    }
                }
                return (v, d.len() - i);
            },
            Some(n) => {
                v = n;
            },
        }
        i = i + 1;
    }
    assert(d@.take(i as int) =~= d@);
    (v, 0)
}

/// Reads an exponent text: `None` when it is not an optional sign followed
/// by digits; else its sign and its magnitude, which is `None` when it
/// exceeds `10^33`.
pub fn read_exponent(t: &[char]) -> (res: Option<(bool, Option<u128>)>)
    ensures
        match exponent_text(t@) {
            None => res is None,
            Some(v) => res matches Some((neg, mo)) && match mo {
                Some(m) => m <= 1_000_000_000_000_000_000_000_000_000_000_000 && (if neg { -(m as int) } else { m as int }) == v,
                None => (if neg { -v } else { v }) > 1_000_000_000_000_000_000_000_000_000_000_000,
            },
        },
{
    let (eneg, es): (bool, usize) = if t.len() > 0 && t[0] == '-' {
        (true, 1)
    } else if t.len() > 0 && t[0] == '+' {
        (false, 1)
    } else {
        (false, 0)
    };
    let d = slice_range(t, es, t.len());
    assert(d@ =~= sign_split(t@).1);
    if d.len() == 0 || !check_digits(d.as_slice()) {
        return None;
    }
    match digits_to_u128(d.as_slice()) {
        None => Some((eneg, None)),
        Some(v) => {
            if v > 1_000_000_000_000_000_000_000_000_000_000_000 {
                Some((eneg, None))
            } else {
                Some((eneg, Some(v)))
            }
        },
    }
}

/// `±m * 10^(ev - flen + cut)` (see [`scaled`]), where the exponent text
/// gave `ev`, or only its sign when it exceeds `10^33`.
fn assemble(negative: bool, m: u128, cut: usize, flen: usize, ev_neg: bool, ev: Option<u128>, Ghost(evv): Ghost<int>) -> (res: Number)
    requires
        match ev {
            Some(v) => v <= 1_000_000_000_000_000_000_000_000_000_000_000 && (if ev_neg { -(v as int) } else { v as int }) == evv,
            None => (if ev_neg { -evv } else { evv }) > 1_000_000_000_000_000_000_000_000_000_000_000,
        },
    ensures
        res == scaled(negative, m as nat, evv - flen + cut),
{
    if m == 0 {
        return Number::Finite(Decimal { negative, mantissa: 0, exponent: 0 });
    }
    let e: i128 = match ev {
        None => {
            if ev_neg {
                return Number::Finite(Decimal { negative, mantissa: 0, exponent: 0 });
            } else {
                return Number::Infinite(negative);
            }
        },
        Some(v) => {
            let signed_ev: i128 = if ev_neg { -(v as i128) } else { v as i128 };
            signed_ev - (flen as i128) + (cut as i128)
        },
    };
    if e < -EXPONENT_LIMIT {
        return Number::Finite(Decimal { negative, mantissa: 0, exponent: 0 });
    }
    if e > EXPONENT_LIMIT {
        return Number::Infinite(negative);
    }
    Number::Finite(Decimal { negative, mantissa: m, exponent: e })
}

/// Reads a number text that is not a word for infinity or not-a-number.
#[verifier::rlimit(40)]
fn parse_numeric(s: &[char]) -> (res: Option<Number>)
    requires
        special_text(s@) is None,
    ensures
        res == number_of(s@),
{
    let ghost (gneg, body) = sign_split(s@);
    let (negative, start): (bool, usize) = if s.len() > 0 && s[0] == '-' {
        (true, 1)
    } else if s.len() > 0 && s[0] == '+' {
        (false, 1)
    } else {
        (false, 0)
    };
    assert(body =~= s@.skip(start as int));
    let epos = find2_from(s, start, 'e', 'E');
    proof { lemma_find2(body, 'e', 'E'); }
    let mant = slice_range(s, start, epos);
    assert(mant@ =~= body.take(epos - start));
    let (digits, flen_u) = match mantissa_digits(mant.as_slice()) {
        None => {
            return None;
        },
        Some(d) => d,
    };
    let mut ev_neg = false;
    let mut ev: Option<u128> = Some(0);
    if epos < s.len() {
        let t = slice_range(s, epos + 1, s.len());
        assert(t@ =~= body.skip((epos - start) + 1));
        match read_exponent(t.as_slice()) {
            None => {
                return None;
            },
            Some((n, v)) => {
                ev_neg = n;
                ev = v;
            },
        }
    }
    let ghost (gn, gm, ge) = number_text(s@)->Some_0;
    let ghost evv = ge + flen_u;
    let (m, cut) = leading_u128(digits.as_slice());
    assert(shrink(gm, ge) == (m as nat, ge + cut));
    Some(assemble(negative, m, cut, flen_u, ev_neg, ev, Ghost(evv)))
}

/// Reads a number text (see [`number_of`]).
pub fn parse_number(s: &[char]) -> (res: Option<Number>)
    ensures
        res == number_of(s@),
{
    let (negative, start): (bool, usize) = if s.len() > 0 && s[0] == '-' {
        (true, 1)
    } else if s.len() > 0 && s[0] == '+' {
        (false, 1)
    } else {
        (false, 0)
    };
    let rest = slice_range(s, start, s.len());
    assert(rest@ =~= sign_split(s@).1);
    let inf: Vec<char> = vec!['i', 'n', 'f'];
    let infinity: Vec<char> = vec!['i', 'n', 'f', 'i', 'n', 'i', 't', 'y'];
    let nan: Vec<char> = vec!['n', 'a', 'n'];
    assert(inf@ =~= seq!['i', 'n', 'f']);
    assert(infinity@ =~= seq!['i', 'n', 'f', 'i', 'n', 'i', 't', 'y']);
    assert(nan@ =~= seq!['n', 'a', 'n']);
    if eq_fold_exec(rest.as_slice(), inf.as_slice()) || eq_fold_exec(rest.as_slice(), infinity.as_slice()) {
        return Some(Number::Infinite(negative));
    }
    if eq_fold_exec(rest.as_slice(), nan.as_slice()) {
        return Some(Number::NaN);
    }
    parse_numeric(s)
}

/// Reads a number text (see [`number_of`]).
pub fn parse_number_str(s: &str) -> (res: Option<Number>)
    ensures
        res == number_of(s@),
{
    let cs = crate::text::chars_of(s);
    parse_number(cs.as_slice())
}

/// Reads a finite number text (see [`decimal_of`]).
pub fn parse_decimal_str(s: &str) -> (res: Option<Decimal>)
    ensures
        res == decimal_of(s@),
{
    match parse_number_str(s) {
        Some(Number::Finite(d)) => Some(d),
        _ => None,
    }
}

} // verus!
