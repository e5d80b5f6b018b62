//! Parsing and normalization steps of the correct string-to-float
//! parsers: the mantissa read into a native integer, and exponents and
//! mantissas moved between each other without changing the value.

use vstd::prelude::*;
use crate::limbs::{powi, pow2n};
use crate::cached::ExtendedFloat;
use crate::digits::{digit_value, is_digit, digits_end, digits_value, char_to_digit};
use crate::exponent::{parse_exponent, parse_exponent_spec, saturate_i32};

verus! {

/// Safely convert the number of digits truncated to an exponent,
/// saturating at `i32::MAX`.
pub fn usize_to_i32(truncated: usize) -> (r: i32)
    ensures
        r == (if truncated < i32::MAX { truncated as int } else { i32::MAX as int }),
{
    if truncated < 0x7fff_ffff {
        truncated as i32
    } else {
        i32::MAX
    }
}

/// The exponent less the digits the mantissa holds past the dot; a
/// saturated exponent stays as it is.
pub open spec fn shifted_exponent(exponent: int, dot_shift: int) -> int {
    if exponent == i32::MAX || exponent == i32::MIN {
        exponent
    } else {
        exponent - dot_shift
    }
}

/// Calculate the exact exponent without overflow: the exponent less the
/// digits the mantissa holds past the dot, keeping a saturated exponent.
pub fn normalize_exponent(exponent: i32, dot_shift: i32) -> (r: i32)
    requires
        exponent == i32::MAX || exponent == i32::MIN || i32::MIN <= exponent - dot_shift
            <= i32::MAX,
    ensures
        r == shifted_exponent(exponent as int, dot_shift as int),
{
    if exponent == i32::MAX {
        i32::MAX
    } else if exponent == i32::MIN {
        i32::MIN
    } else {
        exponent - dot_shift
    }
}

/// Check if the base is a power of 2 and get the power (0 otherwise).
pub fn pow2_exponent(base: u32) -> (r: i32)
    ensures
        r == (if base == 2 {
            1int
        } else if base == 4 {
            2int
        } else if base == 8 {
            3int
        } else if base == 16 {
            4int
        } else if base == 32 {
            5int
        } else {
            0int
        }),
{
    match base {
        2 => 1,
        4 => 2,
        8 => 3,
        16 => 4,
        32 => 5,
        _ => 0,
    }
}

/// `base^4`, `base^2` and `base` divide in turn.
proof fn lemma_powi_small(b: nat)
    ensures
        powi(b, 1) == b,
        powi(b, 2) == b * b,
        powi(b, 4) == (b * b) * (b * b),
{
    reveal_with_fuel(powi, 5);
    assert(b * (b * (b * b)) == (b * b) * (b * b)) by (nonlinear_arith);
}

/// Moving `k` more factors of the base out of the mantissa.
proof fn lemma_strip_step(m: nat, q: nat, p: nat, b: nat, k: nat, j: nat)
    requires
        m == q * p,
        p == powi(b, j),
    ensures
        m * powi(b, k) == q * powi(b, k + j),
{
    crate::limbs::lemma_powi_add(b, k, j);
    assert(q * p * powi(b, k) == q * (powi(b, k) * p)) by (nonlinear_arith);
}

/// How many factors of `base` normalizing takes out of a mantissa: every
/// one of a non-zero mantissa, and one from zero.
pub open spec fn strip_count(m: nat, base: nat) -> nat
    decreases m,
{
    if m == 0 {
        1
    } else if base >= 2 && m % base == 0 {
        proof {
            vstd::arithmetic::div_mod::lemma_div_decreases(m as int, base as int);
        }
        1 + strip_count(m / base, base)
    } else {
        0
    }
}

/// A non-zero mantissa times `base^k` holds `k` more factors of the base.
proof fn lemma_strip_count_mul(m: nat, b: nat, k: nat)
    requires
        m >= 1,
        b >= 2,
    ensures
        strip_count(m * powi(b, k), b) == k + strip_count(m, b),
    decreases k,
{
    reveal_with_fuel(powi, 1);
    if k == 0 {
        assert(m * 1 == m);
    } else {
        lemma_strip_count_mul(m, b, (k - 1) as nat);
        let x = m * powi(b, (k - 1) as nat);
        crate::limbs::lemma_powi_pos(b, (k - 1) as nat);
        assert(x >= 1) by (nonlinear_arith)
            requires
                m >= 1,
                powi(b, (k - 1) as nat) >= 1,
                x == m * powi(b, (k - 1) as nat),
        ;
        assert(m * powi(b, k) == x * b) by (nonlinear_arith)
            requires
                powi(b, k) == b * powi(b, (k - 1) as nat),
                x == m * powi(b, (k - 1) as nat),
        ;
        vstd::arithmetic::div_mod::lemma_mod_multiples_basic(x as int, b as int);
        vstd::arithmetic::div_mod::lemma_div_multiples_vanish(x as int, b as int);
        assert(x * b >= 1) by (nonlinear_arith)
            requires
                x >= 1,
                b >= 2,
        ;
    }
}

/// Integer types that hold a mantissa read from a float string.
pub trait Mantissa: Sized {
    /// The number held.
    spec fn as_nat(self) -> nat;

    /// The largest number the type holds.
    spec fn max_nat() -> nat;

    /// Every value of the type is at most `max_nat()`.
    proof fn lemma_at_most_max(self)
        ensures
            self.as_nat() <= Self::max_nat(),
    ;

    /// Zero.
    fn zero() -> (r: Self)
        ensures
            r.as_nat() == 0,
    ;

    /// Whether the value is zero.
    fn is_zero(&self) -> (r: bool)
        ensures
            r == (self.as_nat() == 0),
    ;

    /// The value with the digit `digit` in `base` appended, unless that
    /// does not fit.
    fn checked_digit(&self, base: u32, digit: u32) -> (r: Option<Self>)
        ensures
            (match r {
                Some(v) => v.as_nat() == self.as_nat() * base + digit,
                None => self.as_nat() * base + digit > Self::max_nat(),
            }),
    ;

    /// Whether the value is at least `d`.
    fn at_least(&self, d: u64) -> (r: bool)
        ensures
            r == (self.as_nat() >= d),
    ;

    /// Whether `d` divides the value.
    fn divisible_by(&self, d: u64) -> (r: bool)
        requires
            d > 0,
        ensures
            r == (self.as_nat() % (d as nat) == 0),
    ;

    /// The value divided by `d`, rounded down.
    fn div_by(&self, d: u64) -> (r: Self)
        requires
            d > 0,
        ensures
            r.as_nat() == self.as_nat() / (d as nat),
    ;
}

impl Mantissa for u64 {
    open spec fn as_nat(self) -> nat {
        self as nat
    }

    open spec fn max_nat() -> nat {
        u64::MAX as nat
    }

    proof fn lemma_at_most_max(self) {
    }

    fn zero() -> (r: u64) {
        0
    }

    fn is_zero(&self) -> (r: bool) {
        *self == 0
    }

    fn checked_digit(&self, base: u32, digit: u32) -> (r: Option<u64>) {
        match self.checked_mul(base as u64) {
            Some(v) => v.checked_add(digit as u64),
            None => None,
        }
    }

    fn at_least(&self, d: u64) -> (r: bool) {
        *self >= d
    }

    fn divisible_by(&self, d: u64) -> (r: bool) {
        *self % d == 0
    }

    fn div_by(&self, d: u64) -> (r: u64) {
        *self / d
    }
}

impl Mantissa for u128 {
    open spec fn as_nat(self) -> nat {
        self as nat
    }

    open spec fn max_nat() -> nat {
        u128::MAX as nat
    }

    proof fn lemma_at_most_max(self) {
    }

    fn zero() -> (r: u128) {
        0
    }

    fn is_zero(&self) -> (r: bool) {
        *self == 0
    }

    fn checked_digit(&self, base: u32, digit: u32) -> (r: Option<u128>) {
        match self.checked_mul(base as u128) {
            Some(v) => v.checked_add(digit as u128),
            None => None,
        }
    }

    fn at_least(&self, d: u64) -> (r: bool) {
        *self >= d as u128
    }

    fn divisible_by(&self, d: u64) -> (r: bool) {
        *self % (d as u128) == 0
    }

    fn div_by(&self, d: u64) -> (r: u128) {
        *self / (d as u128)
    }
}

/// Normalize the mantissa to check if it can use the fast-path.
///
/// Move digits from the mantissa to the exponent when possible: every
/// factor of the base leaves a non-zero mantissa, and a zero one leaves it
/// with one added to the exponent.
pub fn normalize_mantissa<M: Mantissa>(mantissa: M, base: u32, exponent: i32) -> (r: (M, i32))
    requires
        2 <= base <= 36,
        exponent + strip_count(mantissa.as_nat(), base as nat) <= i32::MAX,
    ensures
        r.1 == exponent + strip_count(mantissa.as_nat(), base as nat),
        r.0.as_nat() * powi(base as nat, strip_count(mantissa.as_nat(), base as nat))
            == mantissa.as_nat(),
        mantissa.as_nat() == 0 ==> r.0.as_nat() == 0,
        mantissa.as_nat() != 0 ==> r.0.as_nat() % (base as nat) != 0,
{
    let b64: u64 = base as u64;
    assert(b64 * b64 <= 1296) by (nonlinear_arith)
        requires b64 <= 36;
    let base2 = b64 * b64;
    assert(base2 * base2 <= 1296 * 1296) by (nonlinear_arith)
        requires base2 <= 1296;
    let base4 = base2 * base2;
    let mut m = mantissa;
    let mut e = exponent;
    let ghost m0 = mantissa.as_nat();
    let ghost e0 = e as int;
    let ghost b = b64 as nat;
    let ghost total = strip_count(m0, b);
    proof {
        lemma_powi_small(b);
        assert(base2 >= 4) by (nonlinear_arith)
            requires base2 == b64 * b64, b64 >= 2;
        assert(base4 >= 16) by (nonlinear_arith)
            requires base4 == base2 * base2, base2 >= 4;
        reveal_with_fuel(powi, 1);
        assert(m0 * 1 == m0);
    }
    while m.at_least(base4) && m.divisible_by(base4)
        invariant
            2 <= b64 <= 36,
            b == b64,
            base2 == powi(b, 2),
            base4 == powi(b, 4),
            base4 >= 16,
            e >= e0,
            total == strip_count(m0, b),
            e0 + total <= i32::MAX,
            m0 == m.as_nat() * powi(b, (e - e0) as nat),
            m0 == 0 ==> m.as_nat() == 0 && e == e0,
            m0 != 0 ==> m.as_nat() != 0 && total == (e - e0) + strip_count(m.as_nat(), b),
        decreases m.as_nat(),
    {
        let ghost old_m = m.as_nat();
        m = m.div_by(base4);
        let ghost q = m.as_nat();
        proof {
            vstd::arithmetic::div_mod::lemma_fundamental_div_mod(old_m as int, base4 as int);
            assert(old_m == q * base4) by (nonlinear_arith)
                requires old_m == base4 * (old_m / (base4 as nat)) + old_m % (base4 as nat), old_m % (base4 as nat) == 0,
                    q == old_m / (base4 as nat);
            lemma_strip_step(old_m, q, base4 as nat, b, (e - e0) as nat, 4);
            assert(q >= 1) by (nonlinear_arith)
                requires old_m >= base4, old_m == q * base4, base4 >= 16;
            lemma_strip_count_mul(q, b, 4);
        }
        assert(q < old_m) by (nonlinear_arith)
            requires old_m == q * base4, base4 >= 16, q >= 1;
        e = e + 4;
    }
    while m.at_least(base2) && m.divisible_by(base2)
        invariant
            2 <= b64 <= 36,
            b == b64,
            base2 == powi(b, 2),
            base2 >= 4,
            e >= e0,
            total == strip_count(m0, b),
            e0 + total <= i32::MAX,
            m0 == m.as_nat() * powi(b, (e - e0) as nat),
            m0 == 0 ==> m.as_nat() == 0 && e == e0,
            m0 != 0 ==> m.as_nat() != 0 && total == (e - e0) + strip_count(m.as_nat(), b),
        decreases m.as_nat(),
    {
        let ghost old_m = m.as_nat();
        m = m.div_by(base2);
        let ghost q = m.as_nat();
        proof {
            vstd::arithmetic::div_mod::lemma_fundamental_div_mod(old_m as int, base2 as int);
            assert(old_m == q * base2) by (nonlinear_arith)
                requires old_m == base2 * (old_m / (base2 as nat)) + old_m % (base2 as nat), old_m % (base2 as nat) == 0,
                    q == old_m / (base2 as nat);
            lemma_strip_step(old_m, q, base2 as nat, b, (e - e0) as nat, 2);
            assert(q >= 1) by (nonlinear_arith)
                requires old_m >= base2, old_m == q * base2, base2 >= 4;
            lemma_strip_count_mul(q, b, 2);
        }
        assert(q < old_m) by (nonlinear_arith)
            requires old_m == q * base2, base2 >= 4, q >= 1;
        e = e + 2;
    }
    if m.divisible_by(b64) {
        let ghost old_m = m.as_nat();
        m = m.div_by(b64);
        let ghost q = m.as_nat();
        proof {
            vstd::arithmetic::div_mod::lemma_fundamental_div_mod(old_m as int, b64 as int);
            assert(old_m == q * b64) by (nonlinear_arith)
                requires old_m == b64 * (old_m / (b64 as nat)) + old_m % (b64 as nat), old_m % (b64 as nat) == 0,
                    q == old_m / (b64 as nat);
            lemma_strip_step(old_m, q, b64 as nat, b, (e - e0) as nat, 1);
            if m0 != 0 {
                assert(q >= 1) by (nonlinear_arith)
                    requires old_m >= 1, old_m == q * b64;
                lemma_strip_count_mul(q, b, 1);
                // No factor is left: the loops left it below `base^2` or
                // not divisible by it, and it was divisible by `base` once.
                assert(q % b != 0) by {
                    if q % b == 0 {
                        vstd::arithmetic::div_mod::lemma_fundamental_div_mod(q as int, b as int);
                        let c = q / b;
                        assert(old_m == c * (b * b)) by (nonlinear_arith)
                            requires old_m == q * b, q == b * c + 0;
                        assert(old_m % (b * b) == 0) by (nonlinear_arith)
                            requires old_m == c * (b * b), b >= 2;
                        assert(c >= 1) by (nonlinear_arith)
                            requires q >= 1, q == b * c;
                        assert(old_m >= b * b) by (nonlinear_arith)
                            requires old_m == c * (b * b), c >= 1;
                    }
                }
                assert(strip_count(q, b) == 0);
            } else {
                assert(q == 0);
            }
        }
        e = e + 1;
    } else {
        proof {
            assert(m0 != 0);
            assert(strip_count(m.as_nat(), b) == 0);
        }
    }
    proof {
        if m0 == 0 {
            assert(0 * powi(b, 1) == 0) by (nonlinear_arith);
        }
    }
    (m, e)
}

// PARSE

/// The number `a` followed by the digits `s[i..j]` in `base`.
pub open spec fn digits_from(a: nat, s: Seq<u8>, i: int, j: int, base: nat) -> nat
    decreases j - i,
{
    if j <= i {
        a
    } else {
        digits_from(a, s, i, j - 1, base) * base + digit_value(s[j - 1])
    }
}

/// The end `k <= j` of the longest run of digits `s[i..k]` after which the
/// number `a` followed by them stays at most `max`.
pub open spec fn fitting_end(a: nat, s: Seq<u8>, i: int, j: int, base: nat, max: nat) -> int
    decreases j - i,
{
    if j <= i || digits_from(a, s, i, j, base) <= max {
        j
    } else {
        fitting_end(a, s, i, j - 1, base, max)
    }
}

/// The digits read from `s` at `i` onto the number `a`, as long as it stays
/// at most `max`: the number, the end of the run of digits, and how many
/// of its digits were left out.
pub open spec fn checked_digits_spec(a: nat, s: Seq<u8>, i: nat, base: nat, max: nat) -> (
    nat,
    nat,
    nat,
) {
    let e = digits_end(s, i, base);
    let k = fitting_end(a, s, i as int, e as int, base, max);
    (digits_from(a, s, i as int, k, base), e, (e - k) as nat)
}

/// The index of the first byte at or after `i` that is no `0`.
pub open spec fn zeros_end(s: Seq<u8>, i: nat) -> nat
    decreases s.len() - i,
{
    if i >= s.len() || s[i as int] != 48u8 {
        i
    } else {
        zeros_end(s, i + 1)
    }
}

/// The mantissa read from `s` into an integer type that holds up to `max`,
/// leading zeros skipped: its value, how many digits it holds past the
/// dot (less the digits left out when it no longer fit, each count capped
/// at `i32::MAX`), the position after it, and whether digits were left out.
///
/// A dot counts only with a byte after it. While the value is zero, the
/// zeros after the dot are skipped too, but still count past the dot.
pub open spec fn parse_mantissa_spec(s: Seq<u8>, base: nat, max: nat) -> (nat, int, nat, bool) {
    let first = zeros_end(s, 0);
    let int_part = checked_digits_spec(0, s, first, base, max);
    let f = int_part.1;
    let has_fraction = f + 1 < s.len() && s[f as int] == 46u8;
    if has_fraction && int_part.2 == 0 {
        let f1 = f + 1;
        let start = if int_part.0 == 0 {
            zeros_end(s, f1)
        } else {
            f1
        };
        let frac = checked_digits_spec(int_part.0, s, start, base, max);
        (frac.0, saturate_i32((frac.1 - f1) as nat) - saturate_i32(frac.2), frac.1, frac.2 != 0)
    } else if has_fraction {
        let f1 = f + 1;
        let p = digits_end(s, f1, base);
        (int_part.0, saturate_i32((p - f1) as nat) - saturate_i32(int_part.2), p, true)
    } else {
        (int_part.0, -saturate_i32(int_part.2), f, int_part.2 != 0)
    }
}

/// Appending a digit never makes the number smaller.
proof fn lemma_digits_from_mono(a: nat, s: Seq<u8>, i: int, p: int, k: int, base: nat)
    requires
        i <= p <= k,
        base >= 1,
    ensures
        digits_from(a, s, i, p, base) <= digits_from(a, s, i, k, base),
    decreases k - p,
{
    if k > p {
        lemma_digits_from_mono(a, s, i, p, k - 1, base);
        let v = digits_from(a, s, i, k - 1, base);
        assert(v * base >= v) by (nonlinear_arith)
            requires
                base >= 1,
        ;
    }
}

/// Where the number first exceeds `max` after the digits up to `p`, the
/// fitting run ends at `p`.
proof fn lemma_fitting_end_at(a: nat, s: Seq<u8>, i: int, p: int, j: int, base: nat, max: nat)
    requires
        i <= p <= j,
        digits_from(a, s, i, p, base) <= max,
        forall|k: int| p < k <= j ==> #[trigger] digits_from(a, s, i, k, base) > max,
    ensures
        fitting_end(a, s, i, j, base, max) == p,
    decreases j - p,
{
    if j > p {
        lemma_fitting_end_at(a, s, i, p, j - 1, base, max);
    }
}

/// The position after the run of digits in `base` from `pos`.
fn skip_digits(bytes: &[u8], pos: usize, base: u32) -> (end: usize)
    requires
        pos <= bytes@.len(),
    ensures
        end == digits_end(bytes@, pos as nat, base as nat),
        pos <= end <= bytes@.len(),
{
    let mut p = pos;
    while p < bytes.len() && char_to_digit(bytes[p]) < base
        invariant
            pos <= p <= bytes@.len(),
            forall|k: int| pos <= k < p ==> is_digit(#[trigger] bytes@[k], base as nat),
        decreases bytes@.len() - p,
    {
        p += 1;
    }
    proof {
        crate::digits::lemma_digits_end(bytes@, pos as nat, p as nat, base as nat);
    }
    p
}

/// The position of the first byte from `pos` on that is no `0`.
fn ltrim_zeros(bytes: &[u8], pos: usize) -> (end: usize)
    requires
        pos <= bytes@.len(),
    ensures
        end == zeros_end(bytes@, pos as nat),
        pos <= end <= bytes@.len(),
{
    let mut p = pos;
    while p < bytes.len() && bytes[p] == 48
        invariant
            pos <= p <= bytes@.len(),
            zeros_end(bytes@, p as nat) == zeros_end(bytes@, pos as nat),
        decreases bytes@.len() - p,
    {
        p += 1;
    }
    p
}

/// Parse the digits in `base` at `pos` onto `value`, as long as it still
/// fits in the type; the digits after that are skipped.
///
/// Returns the position after the run of digits and how many of its
/// digits were left out.
pub fn parse_checked<M: Mantissa>(value: &mut M, base: u32, bytes: &[u8], pos: usize) -> (r: (
    usize,
    usize,
))
    requires
        2 <= base <= 36,
        pos <= bytes@.len(),
    ensures
        final(value).as_nat() == checked_digits_spec(
            old(value).as_nat(),
            bytes@,
            pos as nat,
            base as nat,
            M::max_nat(),
        ).0,
        r.0 == checked_digits_spec(old(value).as_nat(), bytes@, pos as nat, base as nat, M::max_nat()).1,
        r.1 == checked_digits_spec(old(value).as_nat(), bytes@, pos as nat, base as nat, M::max_nat()).2,
        pos <= r.0 <= bytes@.len(),
{
    let ghost s = bytes@;
    let ghost a = old(value).as_nat();
    let ghost b = base as nat;
    let ghost mx = M::max_nat();
    proof {
        old(value).lemma_at_most_max();
    }
    let mut p = pos;
    loop
        invariant
            s == bytes@,
            2 <= base <= 36,
            b == base,
            mx == M::max_nat(),
            a == old(value).as_nat(),
            pos <= p <= s.len(),
            forall|k: int| pos <= k < p ==> is_digit(#[trigger] s[k], b),
            value.as_nat() == digits_from(a, s, pos as int, p as int, b),
            value.as_nat() <= mx,
        decreases s.len() - p,
    {
        if p == bytes.len() || char_to_digit(bytes[p]) >= base {
            proof {
                crate::digits::lemma_digits_end(s, pos as nat, p as nat, b);
            }
            return (p, 0);
        }
        let d = char_to_digit(bytes[p]);
        match value.checked_digit(base, d) {
            Some(v) => {
                proof {
                    v.lemma_at_most_max();
                }
                *value = v;
                p += 1;
            },
            None => {
                let end = skip_digits(bytes, p + 1, base);
                proof {
                    assert(digits_from(a, s, pos as int, p + 1, b) > mx);
                    assert forall|k: int| pos <= k < end implies is_digit(#[trigger] s[k], b) by {
                        if k > p {
                            crate::digits::lemma_digits_end_bounds(s, (p + 1) as nat, b);
                        }
                    }
                    crate::digits::lemma_digits_end_bounds(s, (p + 1) as nat, b);
                    crate::digits::lemma_digits_end(s, pos as nat, end as nat, b);
                    assert forall|k: int| p < k <= end implies #[trigger] digits_from(
                        a,
                        s,
                        pos as int,
                        k,
                        b,
                    ) > mx by {
                        lemma_digits_from_mono(a, s, pos as int, p + 1, k, b);
                    }
                    lemma_fitting_end_at(a, s, pos as int, p as int, end as int, b, mx);
                }
                return (end, end - p);
            },
        }
    }
}

/// Parse the mantissa from a string: digits with an optional fraction,
/// leading zeros skipped.
///
/// Returns the mantissa, the shift in the mantissa relative to the dot,
/// the position after it, and whether the mantissa was truncated.
pub fn parse_mantissa<M: Mantissa>(base: u32, bytes: &[u8]) -> (r: (M, i32, usize, bool))
    requires
        2 <= base <= 36,
    ensures
        r.0.as_nat() == parse_mantissa_spec(bytes@, base as nat, M::max_nat()).0,
        r.1 == parse_mantissa_spec(bytes@, base as nat, M::max_nat()).1,
        r.2 == parse_mantissa_spec(bytes@, base as nat, M::max_nat()).2,
        r.3 == parse_mantissa_spec(bytes@, base as nat, M::max_nat()).3,
        r.2 <= bytes@.len(),
{
    // Trim the leading 0s, so a dot shift that saturates comes with a
    // truncated mantissa.
    let first = ltrim_zeros(bytes, 0);
    let mut mantissa = M::zero();
    let (f, truncated) = parse_checked(&mut mantissa, base, bytes, first);
    let has_fraction = bytes.len() - f > 1 && bytes[f] == 46;
    if has_fraction && truncated == 0 {
        // Has a decimal, read the rest of it.
        let f1 = f + 1;
        let start = if mantissa.is_zero() {
            // The zeros after the dot add nothing while the mantissa is 0.
            ltrim_zeros(bytes, f1)
        } else {
            f1
        };
        let (p, t) = parse_checked(&mut mantissa, base, bytes, start);
        // The truncated digits count in the distance, not in the mantissa.
        let dot_shift = usize_to_i32(p - f1) - usize_to_i32(t);
        (mantissa, dot_shift, p, t != 0)
    } else if has_fraction {
        // The integral part overflowed: the fraction only moves the dot.
        let f1 = f + 1;
        let p = skip_digits(bytes, f1, base);
        let dot_shift = usize_to_i32(p - f1) - usize_to_i32(truncated);
        (mantissa, dot_shift, p, true)
    } else {
        // No decimal: the truncated digits did not reach the mantissa.
        let dot_shift = -usize_to_i32(truncated);
        (mantissa, dot_shift, f, truncated != 0)
    }
}

/// The number `a` followed by digits is `a` shifted by their count plus
/// their value.
proof fn lemma_digits_from_value(a: nat, s: Seq<u8>, i: int, j: int, base: nat)
    requires
        i <= j,
    ensures
        digits_from(a, s, i, j, base) == a * powi(base, (j - i) as nat) + digits_value(
            s,
            i,
            j,
            base,
        ),
    decreases j - i,
{
    reveal_with_fuel(powi, 1);
    if j == i {
        assert(a * 1 == a);
    } else {
        lemma_digits_from_value(a, s, i, j - 1, base);
        let p = powi(base, (j - 1 - i) as nat);
        let v = digits_value(s, i, j - 1, base);
        assert(powi(base, (j - i) as nat) == base * p);
        assert((a * p + v) * base == a * (base * p) + v * base) by (nonlinear_arith);
    }
}

/// The fitting run ends between its start and the end of the digits.
proof fn lemma_fitting_end_bounds(a: nat, s: Seq<u8>, i: int, j: int, base: nat, max: nat)
    requires
        i <= j,
    ensures
        i <= fitting_end(a, s, i, j, base, max) <= j,
    decreases j - i,
{
    if j > i && digits_from(a, s, i, j, base) > max {
        lemma_fitting_end_bounds(a, s, i, j - 1, base, max);
    }
}

/// The bytes skipped by `zeros_end` are zeros, and it stops at the end or
/// at another byte.
proof fn lemma_zeros_end(s: Seq<u8>, i: nat)
    requires
        i <= s.len(),
    ensures
        i <= zeros_end(s, i) <= s.len(),
        forall|k: int| i <= k < zeros_end(s, i) ==> #[trigger] s[k] == 48u8,
        zeros_end(s, i) == s.len() || s[zeros_end(s, i) as int] != 48u8,
    decreases s.len() - i,
{
    if i < s.len() && s[i as int] == 48u8 {
        lemma_zeros_end(s, i + 1);
    }
}

/// Skipping leading zeros leaves the run of digits and its value as they
/// were.
proof fn lemma_skip_zero_digits(s: Seq<u8>, i: nat, base: nat)
    requires
        2 <= base,
        i <= s.len(),
    ensures
        digits_end(s, zeros_end(s, i), base) == digits_end(s, i, base),
        digits_value(s, i as int, digits_end(s, i, base) as int, base) == digits_value(
            s,
            zeros_end(s, i) as int,
            digits_end(s, i, base) as int,
            base,
        ),
{
    lemma_zeros_end(s, i);
    let z = zeros_end(s, i);
    crate::digits::lemma_digits_end_bounds(s, z, base);
    let e = digits_end(s, z, base);
    assert forall|k: int| i <= k < e implies is_digit(#[trigger] s[k], base) by {
        if k < z {
            assert(s[k] == 48u8);
        }
    }
    crate::digits::lemma_digits_end(s, i, e, base);
    crate::digits::lemma_digits_value_leading_zeros(s, i as int, z as int, e as int, base);
}

/// Digits read without leaving any out are the whole run, and their number
/// is `a` followed by them.
proof fn lemma_checked_exact(a: nat, s: Seq<u8>, i: nat, base: nat, max: nat)
    requires
        i <= s.len(),
        checked_digits_spec(a, s, i, base, max).2 == 0,
    ensures
        checked_digits_spec(a, s, i, base, max).0 == a * powi(
            base,
            (digits_end(s, i, base) - i) as nat,
        ) + digits_value(s, i as int, digits_end(s, i, base) as int, base),
{
    crate::digits::lemma_digits_end_bounds(s, i, base);
    let e = digits_end(s, i, base);
    lemma_fitting_end_bounds(a, s, i as int, e as int, base, max);
    lemma_digits_from_value(a, s, i as int, e as int, base);
}

/// Where nothing is left out, the mantissa read into a native integer, and
/// its shift relative to the dot, are the mantissa and the count of
/// fraction digits that the big-integer parse reads from the same string.
pub proof fn lemma_parse_mantissa_exact(s: Seq<u8>, base: nat, max: nat)
    requires
        2 <= base <= 36,
        s.len() <= i32::MAX,
        !parse_mantissa_spec(s, base, max).3,
    ensures
        parse_mantissa_spec(s, base, max).0 == crate::bigfloat::mantissa_parse_spec(s, 0, base).0,
        parse_mantissa_spec(s, base, max).1 == crate::bigfloat::mantissa_parse_spec(s, 0, base).1,
{
    lemma_zeros_end(s, 0);
    let first = zeros_end(s, 0);
    lemma_skip_zero_digits(s, 0, base);
    let int_part = checked_digits_spec(0, s, first, base, max);
    let e1 = int_part.1;
    crate::digits::lemma_digits_end_bounds(s, first, base);
    assert(int_part.2 == 0);
    lemma_checked_exact(0, s, first, base, max);
    let iv = digits_value(s, 0, e1 as int, base);
    assert(int_part.0 == iv) by {
        assert(0 * powi(base, (e1 - first) as nat) == 0) by (nonlinear_arith);
    }
    if e1 + 1 < s.len() && s[e1 as int] == 46u8 {
        let f1 = e1 + 1;
        let start = if int_part.0 == 0 {
            zeros_end(s, f1)
        } else {
            f1
        };
        let frac = checked_digits_spec(int_part.0, s, start, base, max);
        lemma_skip_zero_digits(s, f1, base);
        lemma_zeros_end(s, f1);
        assert(frac.2 == 0);
        lemma_checked_exact(int_part.0, s, start, base, max);
        let e2 = digits_end(s, f1, base);
        crate::digits::lemma_digits_end_bounds(s, f1, base);
        assert(digits_end(s, start, base) == e2);
        if int_part.0 == 0 {
            assert(0 * powi(base, (e2 - start) as nat) == 0) by (nonlinear_arith);
            assert(0 * powi(base, (e2 - f1) as nat) == 0) by (nonlinear_arith);
        }
    } else if e1 < s.len() && s[e1 as int] == 46u8 {
        // A dot at the very end: no fraction digits either way.
        assert(e1 + 1 == s.len());
        crate::digits::lemma_digits_end_bounds(s, e1 + 1, base);
        assert(digits_end(s, e1 + 1, base) == e1 + 1);
        assert(digits_value(s, (e1 + 1) as int, (e1 + 1) as int, base) == 0);
        reveal_with_fuel(powi, 1);
        assert(iv * 1 == iv);
    }
}

/// The mantissa, exponent, position after the float, and truncation read
/// from `s` into a type that holds up to `max`: the exponent shifted by
/// the digits past the dot, and every factor of the base moved from the
/// mantissa to the exponent.
pub open spec fn parse_float_spec(s: Seq<u8>, base: nat, max: nat) -> (nat, int, nat, bool) {
    let m = parse_mantissa_spec(s, base, max);
    let e = parse_exponent_spec(s, m.2, base);
    let c = strip_count(m.0, base);
    (m.0 / powi(base, c), shifted_exponent(e.0, m.1) + c, e.1, m.3)
}

/// Whether the exponent arithmetic of `parse_float` stays within `i32`.
pub open spec fn parse_float_fits(s: Seq<u8>, base: nat, max: nat) -> bool {
    let m = parse_mantissa_spec(s, base, max);
    let e = parse_exponent_spec(s, m.2, base);
    &&& (e.0 == i32::MAX || e.0 == i32::MIN || i32::MIN <= e.0 - m.1 <= i32::MAX)
    &&& shifted_exponent(e.0, m.1) + strip_count(m.0, base) <= i32::MAX
}

/// Parse the mantissa and exponent from a string.
///
/// Returns the mantissa, the exponent, the position after the float, and
/// whether the mantissa was truncated.
pub fn parse_float<M: Mantissa>(base: u32, bytes: &[u8]) -> (r: (M, i32, usize, bool))
    requires
        2 <= base <= 36,
        parse_float_fits(bytes@, base as nat, M::max_nat()),
    ensures
        r.0.as_nat() == parse_float_spec(bytes@, base as nat, M::max_nat()).0,
        r.1 == parse_float_spec(bytes@, base as nat, M::max_nat()).1,
        r.2 == parse_float_spec(bytes@, base as nat, M::max_nat()).2,
        r.3 == parse_float_spec(bytes@, base as nat, M::max_nat()).3,
{
    let (mantissa, dot_shift, p, truncated) = parse_mantissa::<M>(base, bytes);
    let (exponent, end) = parse_exponent(bytes, p, base);
    let exponent = normalize_exponent(exponent, dot_shift);
    let ghost m = mantissa.as_nat();
    let (mantissa, exponent) = normalize_mantissa::<M>(mantissa, base, exponent);
    proof {
        let c = strip_count(m, base as nat);
        let pc = powi(base as nat, c);
        crate::limbs::lemma_powi_pos(base as nat, c);
        vstd::arithmetic::div_mod::lemma_div_multiples_vanish(mantissa.as_nat() as int, pc as int);
        assert(mantissa.as_nat() * pc == pc * mantissa.as_nat()) by (nonlinear_arith);
    }
    (mantissa, exponent, end, truncated)
}

/// The number of bits an extended float with a 64-bit mantissa and binary
/// exponent `exp` keeps below the native mantissa of `mantissa_size`
/// explicit bits (more for a denormal result).
pub open spec fn extra_bits(exp: int, exponent_bias: int, mantissa_size: int) -> int {
    let denormal_exp = -(exponent_bias - mantissa_size) - 63;
    if exp < denormal_exp {
        63 - mantissa_size + 1 + denormal_exp - exp
    } else {
        63 - mantissa_size
    }
}

/// Whether an extended float whose last bits carry up to `count` units of
/// error still rounds correctly: the bits below the native mantissa are
/// not within `count` of the halfway point.
pub open spec fn error_is_accurate_spec(count: nat, mant: nat, extrabits: nat) -> bool {
    let halfway = pow2n((extrabits - 1) as nat) as int;
    let extra = (mant % pow2n(extrabits)) as int;
    !((halfway - count < extra) && (extra < halfway + count))
}

/// Error bounds of an extended float with a mantissa of type `Self`, and
/// whether a float computed with some units of error still rounds
/// correctly.
pub trait FloatErrors: Sized {
    /// The error scale, as a number.
    spec fn error_scale_spec() -> nat;

    /// Whether `error_is_accurate` can run on these arguments.
    spec fn accurate_requires(fp: ExtendedFloat<Self>, exponent_bias: int, mantissa_size: int) -> bool;

    /// What `error_is_accurate` answers.
    spec fn accurate_spec(
        count: nat,
        fp: ExtendedFloat<Self>,
        exponent_bias: int,
        mantissa_size: int,
    ) -> bool;

    /// Get the full error scale.
    fn error_scale() -> (r: u32)
        ensures
            r == Self::error_scale_spec(),
    ;

    /// Get the half error scale.
    fn error_halfscale() -> (r: u32)
        ensures
            r == Self::error_scale_spec() / 2,
    ;

    /// Determine if the number of errors is tolerable for float precision,
    /// for a native float with the given exponent bias and explicit
    /// mantissa bits.
    fn error_is_accurate(count: u32, fp: &ExtendedFloat<Self>, exponent_bias: i32, mantissa_size: i32)
        -> (r: bool)
        requires
            Self::accurate_requires(*fp, exponent_bias as int, mantissa_size as int),
        ensures
            r == Self::accurate_spec(count as nat, *fp, exponent_bias as int, mantissa_size as int),
    ;
}

impl FloatErrors for u64 {
    open spec fn error_scale_spec() -> nat {
        8
    }

    open spec fn accurate_requires(fp: ExtendedFloat<u64>, exponent_bias: int, mantissa_size: int) -> bool {
        &&& 0 < mantissa_size < 63
        &&& 0 <= exponent_bias <= 0x4000
        &&& 1 <= extra_bits(fp.exp as int, exponent_bias, mantissa_size) <= 63
    }

    open spec fn accurate_spec(
        count: nat,
        fp: ExtendedFloat<u64>,
        exponent_bias: int,
        mantissa_size: int,
    ) -> bool {
        error_is_accurate_spec(
            count,
            fp.mant as nat,
            extra_bits(fp.exp as int, exponent_bias, mantissa_size) as nat,
        )
    }

    fn error_scale() -> (r: u32) {
        8
    }

    fn error_halfscale() -> (r: u32) {
        u64::error_scale() / 2
    }

    fn error_is_accurate(count: u32, fp: &ExtendedFloat<u64>, exponent_bias: i32, mantissa_size: i32)
        -> (r: bool)
    {
        let bias: i32 = -(exponent_bias - mantissa_size);
        let denormal_exp: i32 = bias - 63;
        let extrabits: u64 = if fp.exp < denormal_exp {
            (63 - mantissa_size + 1 + denormal_exp - fp.exp) as u64
        } else {
            (63 - mantissa_size) as u64
        };
        proof {
            crate::limbs::lemma_u64_shl_one((extrabits - 1) as u64);
            crate::limbs::lemma_u64_shl_one(extrabits);
            crate::limbs::lemma_pow2n_is_pow2(extrabits as nat);
            crate::limbs::lemma_pow2n_is_pow2(62);
            crate::limbs::lemma_pow2n_is_pow2(63);
            vstd::arithmetic::power2::lemma2_to64();
            vstd::arithmetic::power2::lemma2_to64_rest();
            vstd::bits::lemma_u64_low_bits_mask_is_mod(fp.mant, extrabits as nat);
            crate::limbs::lemma_pow2n_mono((extrabits - 1) as nat, 62);
            crate::limbs::lemma_pow2n_mono(extrabits as nat, 63);
            crate::limbs::lemma_pow2n_pos(extrabits as nat);
            assert(pow2n(62) == 0x4000_0000_0000_0000);
            assert(pow2n((extrabits - 1) as nat) <= 0x4000_0000_0000_0000);
            assert((1u64 << ((extrabits - 1) as u64)) as nat == pow2n((extrabits - 1) as nat));
            assert((1u64 << (extrabits - 1)) as nat <= 0x4000_0000_0000_0000);
            assert((1u64 << extrabits) as nat >= 1);
        }
        let halfway: i64 = (1u64 << (extrabits - 1)) as i64;
        let mask: u64 = (1u64 << extrabits) - 1;
        proof {
            assert(mask == vstd::bits::low_bits_mask(extrabits as nat) as u64);
        }
        let extra_u = fp.mant & mask;
        proof {
            assert(extra_u < pow2n(extrabits as nat));
            assert(extra_u < 0x8000_0000_0000_0000u64);
        }
        let extra: i64 = extra_u as i64;
        let errors: i64 = count as i64;
        let above_low = (halfway - errors) < extra;
        let below_high = extra < (halfway + errors);
        !(above_low && below_high)
    }
}

// 128-bit representation is always accurate.
impl FloatErrors for u128 {
    open spec fn error_scale_spec() -> nat {
        0
    }

    open spec fn accurate_requires(fp: ExtendedFloat<u128>, exponent_bias: int, mantissa_size: int) -> bool {
        true
    }

    open spec fn accurate_spec(
        count: nat,
        fp: ExtendedFloat<u128>,
        exponent_bias: int,
        mantissa_size: int,
    ) -> bool {
        true
    }

    fn error_scale() -> (r: u32) {
        0
    }

    fn error_halfscale() -> (r: u32) {
        0
    }

    fn error_is_accurate(count: u32, fp: &ExtendedFloat<u128>, exponent_bias: i32, mantissa_size: i32)
        -> (r: bool)
    {
        true
    }
}

} // verus!
