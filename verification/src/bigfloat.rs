//! Arbitrary-precision float to parse a floating-point number.
//!
//! A `Bigfloat` stands for `value(limbs) * 2^exp`, where the limbs are
//! little-endian 32-bit digits held in a `smallvec::SmallVec`.

use vstd::prelude::*;
use crate::digits::{digit_value, is_digit, digits_end, digits_value, char_to_digit};
use crate::exponent::{
    parse_exponent, parse_exponent_spec, normalize_exponent, normalize_exponent_spec,
    binary_exponent_spec,
};
use crate::small_powers::{get_small_powers, is_small_powers_table, small_powers_len};
use crate::limbs::{
    limbs_of, zeros, value, is_normalized, limb_base, big_pow, pow2n, powi, lemma_pow2n_add, lemma_pow2n_pos,
    lemma_pow2n_32, lemma_big_pow_pow2n, lemma_big_pow_pos, lemma_leading_zeros_bounds,
    lemma_value_zero_all, lemma_value_split, lemma_value_bound, lemma_u64_shl, lemma_u64_shr,
    lemma_u32_shr, lemma_div_mod_unique, lemma_pow2n_mono, lemma_pow2n_is_pow2, lemma_value_two,
    lemma_value_three,
};

verus! {

/// Limb storage of a `Bigfloat`: a `smallvec::SmallVec<[u32; 32]>`, which
/// keeps up to 32 limbs inline and spills to the heap beyond.
#[verifier::external_body]
pub struct SmallLimbs {
    inner: smallvec::SmallVec<[u32; 32]>,
}

/// The items the small vector holds, in order.
pub uninterp spec fn smallvec_limbs(v: SmallLimbs) -> Seq<u32>;

/// `smallvec::SmallVec::from_vec`: the small vector holds the items of the
/// vector, in the same order (smallvec 0.6 moves them inline or keeps the
/// heap buffer; either way the items and their order are kept).
#[verifier::external_body]
fn limbs_from_vec(v: Vec<u32>) -> (r: SmallLimbs)
    ensures
        smallvec_limbs(r) == v@,
{
    SmallLimbs { inner: smallvec::SmallVec::from_vec(v) }
}

/// `<[u32]>::to_vec` on the slice that `SmallVec`'s `Deref` gives: a vector
/// with the same items in the same order.
#[verifier::external_body]
fn limbs_to_vec(v: &SmallLimbs) -> (r: Vec<u32>)
    ensures
        r@ == smallvec_limbs(*v),
{
    v.inner.to_vec()
}

/// The number of significant bits of a normalized limb sequence.
pub open spec fn limb_bits(s: Seq<u32>) -> nat {
    if s.len() == 0 {
        0
    } else {
        (32 * s.len() - s.last().leading_zeros()) as nat
    }
}

/// The most-significant 64 bits of a mantissa, with its leading bit at bit
/// 63, and whether any non-zero bits are truncated below them.
pub open spec fn mantissa_spec(s: Seq<u32>) -> (nat, bool) {
    let l = limb_bits(s);
    let v = value(s);
    if l <= 64 {
        (v * pow2n((64 - l) as nat), false)
    } else {
        (v / pow2n((l - 64) as nat), v % pow2n((l - 64) as nat) != 0)
    }
}

// MAX EXPONENT

/// Calculate the reasonable maximum exponent for a float for `i^n`.
///
/// This value is `x+8`, where `x` is the maximum binary exponent for the
/// float type: a finite value never needs more than `x+7`, since (for base
/// 36) `35 * 2^X > 2^-(x+1) + 2^-(x+2)`, and one more bit covers rounding.
pub trait FloatMaxExponent {
    /// The max exponent, as a number.
    spec fn max_binary_exponent_spec() -> int;

    /// Calculate the max exponent for base N.
    fn max_binary_exponent() -> (r: i32)
        ensures
            r == Self::max_binary_exponent_spec(),
            0 <= r <= 0x1_0000,
    ;
}

/// The IEEE-754 binary32 format (`f32`), whose `x` is 149.
pub struct Binary32;

/// The IEEE-754 binary64 format (`f64`), whose `x` is 1074.
pub struct Binary64;

impl FloatMaxExponent for Binary32 {
    open spec fn max_binary_exponent_spec() -> int {
        157
    }

    fn max_binary_exponent() -> (r: i32) {
        149 + 8
    }
}

impl FloatMaxExponent for Binary64 {
    open spec fn max_binary_exponent_spec() -> int {
        1082
    }

    fn max_binary_exponent() -> (r: i32) {
        1074 + 8
    }
}

/// The mantissa and binary exponent `from_bytes` gives for a parsed
/// mantissa `v` and exponent `e` in `base`, with the practical maximum
/// binary exponent `max`: an exact product for positive exponents, a
/// padded and rounded quotient for negative ones, and a saturated exponent
/// where the estimated binary exponent is out of range.
pub open spec fn scale_spec(v: nat, e: int, base: nat, max: int) -> (nat, int) {
    let m = limbs_of(v);
    let be = bigfloat_binary_exponent_spec(m, base, e);
    if e == 0 {
        (v, 0)
    } else if be > max {
        (v, i32::MAX as int)
    } else if be < -max {
        (v, i32::MIN as int)
    } else if e > 0 {
        (v * powi(odd_part(base), e as nat), pow2_part(base) * e)
    } else {
        let n = (-e) as nat;
        let c = if is_pow2_base(base) {
            0
        } else {
            pad_count(m, (padded_bits_spec(base, n) + 31) / 32)
        };
        (idiv_chain(v * big_pow(c), odd_factors(base), n, true), -32 * c - pow2_part(base) * n)
    }
}

/// Whether the base is a power of two.
pub open spec fn is_pow2_base(base: nat) -> bool {
    base == 2 || base == 4 || base == 8 || base == 16 || base == 32
}

/// Ten times the slope of the padding estimate for a base that is not a
/// power of two.
pub open spec fn padded_slope(base: nat) -> nat {
    if base == 3 || base == 6 || base == 12 || base == 24 {
        21
    } else if base == 5 || base == 10 || base == 20 {
        28
    } else if base == 7 || base == 14 || base == 28 {
        33
    } else if base == 9 || base == 18 || base == 36 {
        34
    } else if base == 11 || base == 22 {
        40
    } else if base == 13 || base == 26 {
        42
    } else if base == 15 || base == 30 {
        42
    } else if base == 17 || base == 34 {
        46
    } else if base == 19 {
        48
    } else if base == 21 {
        46
    } else if base == 23 {
        50
    } else if base == 25 {
        48
    } else if base == 27 {
        49
    } else if base == 29 {
        54
    } else if base == 31 {
        55
    } else if base == 33 {
        52
    } else {
        54
    }
}

/// The intercept of the padding estimate for a base that is not a power
/// of two.
pub open spec fn padded_intercept(base: nat) -> nat {
    if base == 3 || base == 6 || base == 12 || base == 24 {
        55
    } else if base == 5 || base == 10 || base == 20 {
        54
    } else if base == 7 || base == 14 || base == 28 {
        54
    } else if base == 9 || base == 18 || base == 36 {
        53
    } else if base == 11 || base == 22 {
        54
    } else if base == 13 || base == 26 {
        56
    } else if base == 15 || base == 30 {
        55
    } else if base == 17 || base == 34 {
        56
    } else if base == 19 {
        54
    } else if base == 21 {
        52
    } else if base == 23 {
        53
    } else if base == 25 {
        55
    } else if base == 27 {
        55
    } else if base == 29 {
        56
    } else if base == 31 {
        54
    } else if base == 33 {
        54
    } else {
        56
    }
}

/// `ceil(n * slope + intercept)`, capped at `u32::MAX`: the number of bits
/// to pad before dividing by `base^n`.
pub open spec fn padded_bits_spec(base: nat, n: nat) -> nat {
    let v = (n * padded_slope(base) + 10 * padded_intercept(base) + 9) / 10;
    if v > u32::MAX {
        u32::MAX as nat
    } else {
        v
    }
}

/// The number of zero limbs `pad_zeros(n)` inserts: `n` less the trailing
/// zero limbs, or none.
pub open spec fn pad_count(s: Seq<u32>, n: nat) -> nat {
    let t = crate::math::small::trailing_zeros_index(s);
    if n > t {
        (n - t) as nat
    } else {
        0
    }
}

/// The binary exponent of the leading bit of a Bigfloat, less 63, capped to
/// the `i32` range: the exponent of its 64-bit mantissa.
pub open spec fn exponent_spec(s: Seq<u32>, exp: int) -> int {
    let bits: int = if s.len() == 0 {
        0
    } else {
        32 * s.len() - s.last().leading_zeros()
    };
    let bits_capped: int = if bits > i32::MAX {
        i32::MAX as int
    } else {
        bits
    };
    crate::exponent::clamp_i32(exp + bits_capped - 64)
}

/// The exponent of the largest power of two that divides the base.
pub open spec fn pow2_part(base: nat) -> nat {
    if base == 2 || base == 6 || base == 10 || base == 14 || base == 18 || base == 22 || base
        == 26 || base == 30 || base == 34 {
        1
    } else if base == 4 || base == 12 || base == 20 || base == 28 || base == 36 {
        2
    } else if base == 8 || base == 24 {
        3
    } else if base == 16 {
        4
    } else if base == 32 {
        5
    } else {
        0
    }
}

/// The odd factors, in the order they are divided out, that a power of
/// the base is split into (the powers of two go into the exponent).
pub open spec fn odd_factors(base: nat) -> Seq<nat> {
    if base == 3 || base == 6 || base == 12 || base == 24 {
        seq![3nat]
    } else if base == 5 || base == 10 || base == 20 {
        seq![5nat]
    } else if base == 7 || base == 14 || base == 28 {
        seq![7nat]
    } else if base == 9 || base == 18 || base == 36 {
        seq![3nat, 3nat]
    } else if base == 11 || base == 22 {
        seq![11nat]
    } else if base == 13 || base == 26 {
        seq![13nat]
    } else if base == 15 || base == 30 {
        seq![3nat, 5nat]
    } else if base == 17 || base == 34 {
        seq![17nat]
    } else if base == 21 {
        seq![3nat, 7nat]
    } else if base == 25 {
        seq![5nat, 5nat]
    } else if base == 27 {
        seq![3nat, 3nat, 3nat]
    } else if base == 33 {
        seq![3nat, 11nat]
    } else if base == 35 {
        seq![5nat, 7nat]
    } else if base == 19 || base == 23 || base == 29 || base == 31 {
        seq![base]
    } else {
        seq![]
    }
}

/// The product of the odd factors of the base: the base without its
/// powers of two.
pub open spec fn odd_part(base: nat) -> nat {
    product(odd_factors(base))
}

/// The product of a sequence of factors.
pub open spec fn product(fs: Seq<nat>) -> nat
    decreases fs.len(),
{
    if fs.len() == 0 {
        1
    } else {
        fs[0] * product(fs.subrange(1, fs.len() as int))
    }
}

/// Division by `f^n` for each factor `f` in turn, each rounded as
/// `idiv_power_spec` says.
pub open spec fn idiv_chain(v: nat, fs: Seq<nat>, n: nat, roundup: bool) -> nat
    decreases fs.len(),
{
    if fs.len() == 0 {
        v
    } else {
        idiv_chain(
            crate::math::small::idiv_power_spec(v, fs[0], n, roundup),
            fs.subrange(1, fs.len() as int),
            n,
            roundup,
        )
    }
}

/// Multiplication by `f^n` for each factor `f` in turn.
pub open spec fn mul_chain(v: nat, fs: Seq<nat>, n: nat) -> nat
    decreases fs.len(),
{
    if fs.len() == 0 {
        v
    } else {
        mul_chain(v * powi(fs[0], n), fs.subrange(1, fs.len() as int), n)
    }
}

/// Multiplying by the powers of each factor is multiplying by the power of
/// their product.
pub proof fn lemma_mul_chain(v: nat, fs: Seq<nat>, n: nat)
    ensures
        mul_chain(v, fs, n) == v * powi(product(fs), n),
    decreases fs.len(),
{
    if fs.len() == 0 {
        crate::limbs::lemma_powi_one(n);
        assert(product(fs) == 1);
        assert(v * 1 == v);
    } else {
        let rest = fs.subrange(1, fs.len() as int);
        assert(product(fs) == fs[0] * product(rest));
        lemma_mul_chain(v * powi(fs[0], n), rest, n);
        crate::limbs::lemma_powi_of_product(fs[0], product(rest), n);
        let a = powi(fs[0], n);
        let b = powi(product(rest), n);
        assert((v * a) * b == v * (a * b)) by (nonlinear_arith);
    }
}

/// The product of a few factors.
proof fn lemma_product_small(a: nat, b: nat, c: nat)
    ensures
        product(Seq::<nat>::empty()) == 1,
        product(seq![a]) == a,
        product(seq![a, b]) == a * b,
        product(seq![a, b, c]) == a * (b * c),
{
    reveal_with_fuel(product, 4);
    assert(seq![a].subrange(1, 1) =~= Seq::<nat>::empty());
    assert(seq![a, b].subrange(1, 2) =~= seq![b]);
    assert(seq![b].subrange(1, 1) =~= Seq::<nat>::empty());
    assert(seq![a, b, c].subrange(1, 3) =~= seq![b, c]);
    assert(seq![b, c].subrange(1, 2) =~= seq![c]);
    assert(seq![c].subrange(1, 1) =~= Seq::<nat>::empty());
    assert(product(seq![b]) == b * 1);
    assert(product(seq![c]) == c * 1);
    assert(product(seq![a]) == a * 1);
}

/// A radix is its odd part times its power of two.
pub proof fn lemma_base_split(base: nat)
    requires
        2 <= base <= 36,
    ensures
        base == odd_part(base) * pow2n(pow2_part(base)),
{
    reveal_with_fuel(pow2n, 6);
    assert(pow2n(0) == 1 && pow2n(1) == 2 && pow2n(2) == 4 && pow2n(3) == 8 && pow2n(4) == 16
        && pow2n(5) == 32);
    if base == 2 {
        lemma_product_small(1, 1, 1);
        assert(odd_factors(base) =~= Seq::<nat>::empty());
        assert(odd_part(base) == 1);
        assert(pow2_part(base) == 1);
        assert(1 * pow2n(1) == 2);
    } else if base == 3 {
        lemma_product_small(3, 1, 1);
        assert(odd_factors(base) =~= seq![3nat]);
        assert(odd_part(base) == 3);
        assert(pow2_part(base) == 0);
        assert(3 * pow2n(0) == 3);
    } else if base == 4 {
        lemma_product_small(1, 1, 1);
        assert(odd_factors(base) =~= Seq::<nat>::empty());
        assert(odd_part(base) == 1);
        assert(pow2_part(base) == 2);
        assert(1 * pow2n(2) == 4);
    } else if base == 5 {
        lemma_product_small(5, 1, 1);
        assert(odd_factors(base) =~= seq![5nat]);
        assert(odd_part(base) == 5);
        assert(pow2_part(base) == 0);
        assert(5 * pow2n(0) == 5);
    } else if base == 6 {
        lemma_product_small(3, 1, 1);
        assert(odd_factors(base) =~= seq![3nat]);
        assert(odd_part(base) == 3);
        assert(pow2_part(base) == 1);
        assert(3 * pow2n(1) == 6);
    } else if base == 7 {
        lemma_product_small(7, 1, 1);
        assert(odd_factors(base) =~= seq![7nat]);
        assert(odd_part(base) == 7);
        assert(pow2_part(base) == 0);
        assert(7 * pow2n(0) == 7);
    } else if base == 8 {
        lemma_product_small(1, 1, 1);
        assert(odd_factors(base) =~= Seq::<nat>::empty());
        assert(odd_part(base) == 1);
        assert(pow2_part(base) == 3);
        assert(1 * pow2n(3) == 8);
    } else if base == 9 {
        lemma_product_small(3, 3, 1);
        assert(odd_factors(base) =~= seq![3nat, 3nat]);
        assert(odd_part(base) == 9);
        assert(pow2_part(base) == 0);
        assert(9 * pow2n(0) == 9);
    } else if base == 10 {
        lemma_product_small(5, 1, 1);
        assert(odd_factors(base) =~= seq![5nat]);
        assert(odd_part(base) == 5);
        assert(pow2_part(base) == 1);
        assert(5 * pow2n(1) == 10);
    } else if base == 11 {
        lemma_product_small(11, 1, 1);
        assert(odd_factors(base) =~= seq![11nat]);
        assert(odd_part(base) == 11);
        assert(pow2_part(base) == 0);
        assert(11 * pow2n(0) == 11);
    } else if base == 12 {
        lemma_product_small(3, 1, 1);
        assert(odd_factors(base) =~= seq![3nat]);
        assert(odd_part(base) == 3);
        assert(pow2_part(base) == 2);
        assert(3 * pow2n(2) == 12);
    } else if base == 13 {
        lemma_product_small(13, 1, 1);
        assert(odd_factors(base) =~= seq![13nat]);
        assert(odd_part(base) == 13);
        assert(pow2_part(base) == 0);
        assert(13 * pow2n(0) == 13);
    } else if base == 14 {
        lemma_product_small(7, 1, 1);
        assert(odd_factors(base) =~= seq![7nat]);
        assert(odd_part(base) == 7);
        assert(pow2_part(base) == 1);
        assert(7 * pow2n(1) == 14);
    } else if base == 15 {
        lemma_product_small(3, 5, 1);
        assert(odd_factors(base) =~= seq![3nat, 5nat]);
        assert(odd_part(base) == 15);
        assert(pow2_part(base) == 0);
        assert(15 * pow2n(0) == 15);
    } else if base == 16 {
        lemma_product_small(1, 1, 1);
        assert(odd_factors(base) =~= Seq::<nat>::empty());
        assert(odd_part(base) == 1);
        assert(pow2_part(base) == 4);
        assert(1 * pow2n(4) == 16);
    } else if base == 17 {
        lemma_product_small(17, 1, 1);
        assert(odd_factors(base) =~= seq![17nat]);
        assert(odd_part(base) == 17);
        assert(pow2_part(base) == 0);
        assert(17 * pow2n(0) == 17);
    } else if base == 18 {
        lemma_product_small(3, 3, 1);
        assert(odd_factors(base) =~= seq![3nat, 3nat]);
        assert(odd_part(base) == 9);
        assert(pow2_part(base) == 1);
        assert(9 * pow2n(1) == 18);
    } else if base == 19 {
        lemma_product_small(19, 1, 1);
        assert(odd_factors(base) =~= seq![19nat]);
        assert(odd_part(base) == 19);
        assert(pow2_part(base) == 0);
        assert(19 * pow2n(0) == 19);
    } else if base == 20 {
        lemma_product_small(5, 1, 1);
        assert(odd_factors(base) =~= seq![5nat]);
        assert(odd_part(base) == 5);
        assert(pow2_part(base) == 2);
        assert(5 * pow2n(2) == 20);
    } else if base == 21 {
        lemma_product_small(3, 7, 1);
        assert(odd_factors(base) =~= seq![3nat, 7nat]);
        assert(odd_part(base) == 21);
        assert(pow2_part(base) == 0);
        assert(21 * pow2n(0) == 21);
    } else if base == 22 {
        lemma_product_small(11, 1, 1);
        assert(odd_factors(base) =~= seq![11nat]);
        assert(odd_part(base) == 11);
        assert(pow2_part(base) == 1);
        assert(11 * pow2n(1) == 22);
    } else if base == 23 {
        lemma_product_small(23, 1, 1);
        assert(odd_factors(base) =~= seq![23nat]);
        assert(odd_part(base) == 23);
        assert(pow2_part(base) == 0);
        assert(23 * pow2n(0) == 23);
    } else if base == 24 {
        lemma_product_small(3, 1, 1);
        assert(odd_factors(base) =~= seq![3nat]);
        assert(odd_part(base) == 3);
        assert(pow2_part(base) == 3);
        assert(3 * pow2n(3) == 24);
    } else if base == 25 {
        lemma_product_small(5, 5, 1);
        assert(odd_factors(base) =~= seq![5nat, 5nat]);
        assert(odd_part(base) == 25);
        assert(pow2_part(base) == 0);
        assert(25 * pow2n(0) == 25);
    } else if base == 26 {
        lemma_product_small(13, 1, 1);
        assert(odd_factors(base) =~= seq![13nat]);
        assert(odd_part(base) == 13);
        assert(pow2_part(base) == 1);
        assert(13 * pow2n(1) == 26);
    } else if base == 27 {
        lemma_product_small(3, 3, 3);
        assert(odd_factors(base) =~= seq![3nat, 3nat, 3nat]);
        assert(odd_part(base) == 27);
        assert(pow2_part(base) == 0);
        assert(27 * pow2n(0) == 27);
    } else if base == 28 {
        lemma_product_small(7, 1, 1);
        assert(odd_factors(base) =~= seq![7nat]);
        assert(odd_part(base) == 7);
        assert(pow2_part(base) == 2);
        assert(7 * pow2n(2) == 28);
    } else if base == 29 {
        lemma_product_small(29, 1, 1);
        assert(odd_factors(base) =~= seq![29nat]);
        assert(odd_part(base) == 29);
        assert(pow2_part(base) == 0);
        assert(29 * pow2n(0) == 29);
    } else if base == 30 {
        lemma_product_small(3, 5, 1);
        assert(odd_factors(base) =~= seq![3nat, 5nat]);
        assert(odd_part(base) == 15);
        assert(pow2_part(base) == 1);
        assert(15 * pow2n(1) == 30);
    } else if base == 31 {
        lemma_product_small(31, 1, 1);
        assert(odd_factors(base) =~= seq![31nat]);
        assert(odd_part(base) == 31);
        assert(pow2_part(base) == 0);
        assert(31 * pow2n(0) == 31);
    } else if base == 32 {
        lemma_product_small(1, 1, 1);
        assert(odd_factors(base) =~= Seq::<nat>::empty());
        assert(odd_part(base) == 1);
        assert(pow2_part(base) == 5);
        assert(1 * pow2n(5) == 32);
    } else if base == 33 {
        lemma_product_small(3, 11, 1);
        assert(odd_factors(base) =~= seq![3nat, 11nat]);
        assert(odd_part(base) == 33);
        assert(pow2_part(base) == 0);
        assert(33 * pow2n(0) == 33);
    } else if base == 34 {
        lemma_product_small(17, 1, 1);
        assert(odd_factors(base) =~= seq![17nat]);
        assert(odd_part(base) == 17);
        assert(pow2_part(base) == 1);
        assert(17 * pow2n(1) == 34);
    } else if base == 35 {
        lemma_product_small(5, 7, 1);
        assert(odd_factors(base) =~= seq![5nat, 7nat]);
        assert(odd_part(base) == 35);
        assert(pow2_part(base) == 0);
        assert(35 * pow2n(0) == 35);
    } else if base == 36 {
        lemma_product_small(3, 3, 1);
        assert(odd_factors(base) =~= seq![3nat, 3nat]);
        assert(odd_part(base) == 9);
        assert(pow2_part(base) == 2);
        assert(9 * pow2n(2) == 36);
    }
}

/// Powers of a power of two are powers of two.
pub proof fn lemma_powi_pow2n(a: nat, k: nat)
    ensures
        powi(pow2n(a), k) == pow2n(a * k),
    decreases k,
{
    if k == 0 {
        assert(a * 0 == 0);
        reveal_with_fuel(pow2n, 1);
    } else {
        lemma_powi_pow2n(a, (k - 1) as nat);
        assert(a * k == a + a * (k - 1)) by (nonlinear_arith)
            requires k >= 1;
        crate::limbs::lemma_pow2n_add(a, (a * (k - 1)) as nat);
    }
}

/// A power of a radix is the power of its odd part, shifted.
pub proof fn lemma_powi_base_split(base: nat, k: nat)
    requires
        2 <= base <= 36,
    ensures
        powi(base, k) == powi(odd_part(base), k) * pow2n(pow2_part(base) * k),
{
    lemma_base_split(base);
    crate::limbs::lemma_powi_of_product(odd_part(base), pow2n(pow2_part(base)), k);
    lemma_powi_pow2n(pow2_part(base), k);
}

/// Where `from_bytes` scales a parsed mantissa `v` by a non-negative
/// exponent `e` without saturating, the result is exact:
/// `value * 2^exp == v * base^e`.
pub proof fn lemma_scale_exact(v: nat, e: int, base: nat, max: int)
    requires
        2 <= base <= 36,
        e >= 0,
        ({
            let be = bigfloat_binary_exponent_spec(limbs_of(v), base, e);
            e == 0 || (-max <= be <= max)
        }),
    ensures
        scale_spec(v, e, base, max).1 >= 0,
        scale_spec(v, e, base, max).0 * pow2n(scale_spec(v, e, base, max).1 as nat) == v * powi(
            base,
            e as nat,
        ),
{
    let k = e as nat;
    if e == 0 {
        reveal_with_fuel(powi, 1);
        reveal_with_fuel(pow2n, 1);
        assert(v * 1 == v);
    } else {
        lemma_powi_base_split(base, k);
        let o = powi(odd_part(base), k);
        let t = pow2n(pow2_part(base) * k);
        assert(v * o * t == v * (o * t)) by (nonlinear_arith);
    }
}

/// One row of the table of radix logarithms: `2^l <= b`, `2^c <= b^10`,
/// checked on the value `p` of `b^10`.
proof fn lemma_radix_log_row(b: nat, l: nat, c: nat, p: nat)
    requires
        l <= 64,
        c <= 64,
        powi(b, 10) == p,
        vstd::arithmetic::power2::pow2(l) <= b,
        vstd::arithmetic::power2::pow2(c) <= p,
    ensures
        pow2n(l) <= b,
        pow2n(c) <= powi(b, 10),
{
    crate::limbs::lemma_pow2n_is_pow2(l);
    crate::limbs::lemma_pow2n_is_pow2(c);
}

/// Bounds on `log2(b)` for a radix: `l` and `c` with `2^l <= b` and
/// `2^c <= b^10`, such that the fixed-point `log2(b)` of `binary_factor`
/// is at most `(c + 1) / 10` and `(c + 1) / 10 <= l + 1`.
proof fn lemma_radix_log_bounds(b: nat) -> (r: (nat, nat))
    requires
        2 <= b <= 36,
    ensures
        pow2n(r.0) <= b,
        pow2n(r.1) <= powi(b, 10),
        10 * crate::exponent::binary_factor_spec(b) <= (r.1 + 1) * 0x1_0000_0000,
        r.1 + 1 <= 10 * r.0 + 10,
        r.1 >= 10,
{
    vstd::arithmetic::power2::lemma2_to64();
    vstd::arithmetic::power2::lemma2_to64_rest();
    if b == 2 {
        assert(powi(2, 10) == 1024) by {
            reveal_with_fuel(powi, 11);
        }
        lemma_radix_log_row(2, 1, 10, 1024);
        (1, 10)
    } else if b == 3 {
        assert(powi(3, 10) == 59049) by {
            reveal_with_fuel(powi, 11);
        }
        lemma_radix_log_row(3, 1, 15, 59049);
        (1, 15)
    } else if b == 4 {
        assert(powi(4, 10) == 1048576) by {
            reveal_with_fuel(powi, 11);
        }
        lemma_radix_log_row(4, 2, 20, 1048576);
        (2, 20)
    } else if b == 5 {
        assert(powi(5, 10) == 9765625) by {
            reveal_with_fuel(powi, 11);
        }
        lemma_radix_log_row(5, 2, 23, 9765625);
        (2, 23)
    } else if b == 6 {
        assert(powi(6, 10) == 60466176) by {
            reveal_with_fuel(powi, 11);
        }
        lemma_radix_log_row(6, 2, 25, 60466176);
        (2, 25)
    } else if b == 7 {
        assert(powi(7, 10) == 282475249) by {
            reveal_with_fuel(powi, 11);
        }
        lemma_radix_log_row(7, 2, 28, 282475249);
        (2, 28)
    } else if b == 8 {
        assert(powi(8, 10) == 1073741824) by {
            reveal_with_fuel(powi, 11);
        }
        lemma_radix_log_row(8, 3, 30, 1073741824);
        (3, 30)
    } else if b == 9 {
        assert(powi(9, 10) == 3486784401) by {
            reveal_with_fuel(powi, 11);
        }
        lemma_radix_log_row(9, 3, 31, 3486784401);
        (3, 31)
    } else if b == 10 {
        assert(powi(10, 10) == 10000000000) by {
            reveal_with_fuel(powi, 11);
        }
        lemma_radix_log_row(10, 3, 33, 10000000000);
        (3, 33)
    } else if b == 11 {
        assert(powi(11, 10) == 25937424601) by {
            reveal_with_fuel(powi, 11);
        }
        lemma_radix_log_row(11, 3, 34, 25937424601);
        (3, 34)
    } else if b == 12 {
        assert(powi(12, 10) == 61917364224) by {
            reveal_with_fuel(powi, 11);
        }
        lemma_radix_log_row(12, 3, 35, 61917364224);
        (3, 35)
    } else if b == 13 {
        assert(powi(13, 10) == 137858491849) by {
            reveal_with_fuel(powi, 11);
        }
        lemma_radix_log_row(13, 3, 37, 137858491849);
        (3, 37)
    } else if b == 14 {
        assert(powi(14, 10) == 289254654976) by {
            reveal_with_fuel(powi, 11);
        }
        lemma_radix_log_row(14, 3, 38, 289254654976);
        (3, 38)
    } else if b == 15 {
        assert(powi(15, 10) == 576650390625) by {
            reveal_with_fuel(powi, 11);
        }
        lemma_radix_log_row(15, 3, 39, 576650390625);
        (3, 39)
    } else if b == 16 {
        assert(powi(16, 10) == 1099511627776) by {
            reveal_with_fuel(powi, 11);
        }
        lemma_radix_log_row(16, 4, 40, 1099511627776);
        (4, 40)
    } else if b == 17 {
        assert(powi(17, 10) == 2015993900449) by {
            reveal_with_fuel(powi, 11);
        }
        lemma_radix_log_row(17, 4, 40, 2015993900449);
        (4, 40)
    } else if b == 18 {
        assert(powi(18, 10) == 3570467226624) by {
            reveal_with_fuel(powi, 11);
        }
        lemma_radix_log_row(18, 4, 41, 3570467226624);
        (4, 41)
    } else if b == 19 {
        assert(powi(19, 10) == 6131066257801) by {
            reveal_with_fuel(powi, 11);
        }
        lemma_radix_log_row(19, 4, 42, 6131066257801);
        (4, 42)
    } else if b == 20 {
        assert(powi(20, 10) == 10240000000000) by {
            reveal_with_fuel(powi, 11);
        }
        lemma_radix_log_row(20, 4, 43, 10240000000000);
        (4, 43)
    } else if b == 21 {
        assert(powi(21, 10) == 16679880978201) by {
            reveal_with_fuel(powi, 11);
        }
        lemma_radix_log_row(21, 4, 43, 16679880978201);
        (4, 43)
    } else if b == 22 {
        assert(powi(22, 10) == 26559922791424) by {
            reveal_with_fuel(powi, 11);
        }
        lemma_radix_log_row(22, 4, 44, 26559922791424);
        (4, 44)
    } else if b == 23 {
        assert(powi(23, 10) == 41426511213649) by {
            reveal_with_fuel(powi, 11);
        }
        lemma_radix_log_row(23, 4, 45, 41426511213649);
        (4, 45)
    } else if b == 24 {
        assert(powi(24, 10) == 63403380965376) by {
            reveal_with_fuel(powi, 11);
        }
        lemma_radix_log_row(24, 4, 45, 63403380965376);
        (4, 45)
    } else if b == 25 {
        assert(powi(25, 10) == 95367431640625) by {
            reveal_with_fuel(powi, 11);
        }
        lemma_radix_log_row(25, 4, 46, 95367431640625);
        (4, 46)
    } else if b == 26 {
        assert(powi(26, 10) == 141167095653376) by {
            reveal_with_fuel(powi, 11);
        }
        lemma_radix_log_row(26, 4, 47, 141167095653376);
        (4, 47)
    } else if b == 27 {
        assert(powi(27, 10) == 205891132094649) by {
            reveal_with_fuel(powi, 11);
        }
        lemma_radix_log_row(27, 4, 47, 205891132094649);
        (4, 47)
    } else if b == 28 {
        assert(powi(28, 10) == 296196766695424) by {
            reveal_with_fuel(powi, 11);
        }
        lemma_radix_log_row(28, 4, 48, 296196766695424);
        (4, 48)
    } else if b == 29 {
        assert(powi(29, 10) == 420707233300201) by {
            reveal_with_fuel(powi, 11);
        }
        lemma_radix_log_row(29, 4, 48, 420707233300201);
        (4, 48)
    } else if b == 30 {
        assert(powi(30, 10) == 590490000000000) by {
            reveal_with_fuel(powi, 11);
        }
        lemma_radix_log_row(30, 4, 49, 590490000000000);
        (4, 49)
    } else if b == 31 {
        assert(powi(31, 10) == 819628286980801) by {
            reveal_with_fuel(powi, 11);
        }
        lemma_radix_log_row(31, 4, 49, 819628286980801);
        (4, 49)
    } else if b == 32 {
        assert(powi(32, 10) == 1125899906842624) by {
            reveal_with_fuel(powi, 11);
        }
        lemma_radix_log_row(32, 5, 50, 1125899906842624);
        (5, 50)
    } else if b == 33 {
        assert(powi(33, 10) == 1531578985264449) by {
            reveal_with_fuel(powi, 11);
        }
        lemma_radix_log_row(33, 5, 50, 1531578985264449);
        (5, 50)
    } else if b == 34 {
        assert(powi(34, 10) == 2064377754059776) by {
            reveal_with_fuel(powi, 11);
        }
        lemma_radix_log_row(34, 5, 50, 2064377754059776);
        (5, 50)
    } else if b == 35 {
        assert(powi(35, 10) == 2758547353515625) by {
            reveal_with_fuel(powi, 11);
        }
        lemma_radix_log_row(35, 5, 51, 2758547353515625);
        (5, 51)
    } else {
        assert(b == 36);
        assert(powi(36, 10) == 3656158440062976) by {
            reveal_with_fuel(powi, 11);
        }
        lemma_radix_log_row(36, 5, 51, 3656158440062976);
        (5, 51)
    }
}

/// `b^e >= 2^(c (e / 10) + l (e % 10))` where `2^l <= b` and `2^c <= b^10`.
proof fn lemma_powi_lower(b: nat, l: nat, c: nat, e: nat)
    requires
        pow2n(l) <= b,
        pow2n(c) <= powi(b, 10),
    ensures
        pow2n(c * (e / 10) + l * (e % 10)) <= powi(b, e),
{
    let q = e / 10;
    let r = e % 10;
    assert(e == 10 * q + r);
    crate::limbs::lemma_powi_add(b, 10 * q, r);
    crate::limbs::lemma_powi_mul(b, 10, q);
    crate::limbs::lemma_powi_mono_base(pow2n(c), powi(b, 10), q);
    lemma_powi_pow2n(c, q);
    crate::limbs::lemma_powi_mono_base(pow2n(l), b, r);
    lemma_powi_pow2n(l, r);
    crate::limbs::lemma_pow2n_add(c * q, l * r);
    let x1 = pow2n(c * q);
    let y1 = powi(b, 10 * q);
    let x2 = pow2n(l * r);
    let y2 = powi(b, r);
    assert(x1 * x2 <= y1 * y2) by (nonlinear_arith)
        requires
            x1 <= y1,
            x2 <= y2,
    ;
    assert(c * q == q * c && l * r == r * l) by (nonlinear_arith);
}

/// No number in the finite range of `f32` saturates on the way up: where a
/// parsed mantissa `v >= 1` times `base^e` (`e >= 0`) is below `2^128`,
/// the estimated binary exponent lies within the `f32` saturation bound,
/// and the scaled Bigfloat is `v * base^e` exactly, with an exponent below
/// `i32::MAX`.
pub proof fn lemma_f32_range_unsaturated(v: nat, e: nat, base: nat)
    requires
        2 <= base <= 36,
        1 <= v,
        v * powi(base, e) < pow2n(128),
    ensures
        0 <= bigfloat_binary_exponent_spec(limbs_of(v), base, e as int)
            <= Binary32::max_binary_exponent_spec(),
        scale_spec(v, e as int, base, Binary32::max_binary_exponent_spec()).1 < i32::MAX,
        scale_spec(v, e as int, base, Binary32::max_binary_exponent_spec()).0 * pow2n(
            scale_spec(v, e as int, base, Binary32::max_binary_exponent_spec()).1 as nat,
        ) == v * powi(base, e),
{
    let s = limbs_of(v);
    crate::limbs::lemma_limbs_of(v);
    if s.len() == 0 {
        assert(value(s) == 0);
    }
    assert(s.len() > 0);
    let bits = limb_bits(s);
    crate::bigcomp::lemma_top_limb_bounds(s);
    assert(pow2n((bits - 1) as nat) <= v);
    let (l, c) = lemma_radix_log_bounds(base);
    lemma_powi_lower(base, l, c, e);
    let q = e / 10;
    let r = e % 10;
    let k = c * q + l * r;
    crate::limbs::lemma_pow2n_add((bits - 1) as nat, k);
    let a = pow2n((bits - 1) as nat);
    let pk = pow2n(k);
    let pb = powi(base, e);
    assert(a * pk <= v * pb) by (nonlinear_arith)
        requires
            a <= v,
            pk <= pb,
    ;
    if bits - 1 + k >= 128 {
        crate::limbs::lemma_pow2n_mono(128, (bits - 1 + k) as nat);
    }
    assert(bits - 1 + k < 128);
    assert(c * q >= 10 * q) by (nonlinear_arith)
        requires
            c >= 10,
    ;
    assert(q <= 12);
    assert(l * r >= 0);
    assert(e <= 129);
    let f = crate::exponent::binary_factor_spec(base);
    let one: int = 0x1_0000_0000;
    let u = (e * f + one - 1) / one;
    if e > 0 {
        assert(u * one <= e * f + one - 1) by {
            vstd::arithmetic::div_mod::lemma_fundamental_div_mod(e * f + one - 1, one);
            vstd::arithmetic::div_mod::lemma_mod_bound(e * f + one - 1, one);
        }
        assert(10 * (e * f) <= e * ((c + 1) * one)) by (nonlinear_arith)
            requires
                10 * f <= (c + 1) * one,
                e >= 0,
        ;
        assert(e * (c + 1) <= 10 * (q * (c + 1)) + 10 * (r * (l + 1))) by (nonlinear_arith)
            requires
                e == 10 * q + r,
                c + 1 <= 10 * l + 10,
                r >= 0,
                q >= 0,
        ;
        assert(10 * u <= e * (c + 1) + 10) by (nonlinear_arith)
            requires
                u * one <= e * f + one - 1,
                10 * (e * f) <= e * ((c + 1) * one),
                one > 0,
        ;
        assert(q * (c + 1) + r * (l + 1) == k + q + r) by (nonlinear_arith)
            requires
                k == c * q + l * r,
        ;
        assert(u <= k + q + r + 1);
        assert(u >= 0) by (nonlinear_arith)
            requires
                e >= 0,
                f >= 0,
                one > 0,
                u == (e * f + one - 1) / one,
        ;
        assert(crate::exponent::binary_exponent_spec(base, e as int) == u);
    }
    assert(32 * s.len() <= i32::MAX);
    lemma_scale_exact(v, e as int, base, Binary32::max_binary_exponent_spec());
}

/// `a < b` gives `a^k < b^k` for `k >= 1`.
proof fn lemma_powi_strict_base(a: nat, b: nat, k: nat)
    requires
        a < b,
        k >= 1,
    ensures
        powi(a, k) < powi(b, k),
    decreases k,
{
    reveal_with_fuel(powi, 2);
    if k > 1 {
        lemma_powi_strict_base(a, b, (k - 1) as nat);
        let pa = powi(a, (k - 1) as nat);
        let pb = powi(b, (k - 1) as nat);
        assert(a * pa < b * pb) by (nonlinear_arith)
            requires
                a < b,
                pa < pb,
        ;
    } else {
        assert(powi(a, 0) == 1 && powi(b, 0) == 1);
        assert(a * 1 == a && b * 1 == b);
    }
}

/// Where `x^10 <= 2^s`, `x^n <= 2^ceil(s n / 10)`.
proof fn lemma_powi_by_tenth(x: nat, s: nat, n: nat)
    requires
        powi(x, 10) <= pow2n(s),
    ensures
        powi(x, n) <= pow2n((s * n + 9) / 10),
{
    let k = (s * n + 9) / 10;
    if powi(x, n) > pow2n(k) {
        crate::limbs::lemma_powi_mul(x, 10, n);
        crate::limbs::lemma_powi_mul(x, n, 10);
        assert(10 * n == n * 10) by (nonlinear_arith);
        crate::limbs::lemma_powi_mono_base(powi(x, 10), pow2n(s), n);
        lemma_powi_pow2n(s, n);
        lemma_powi_strict_base(pow2n(k), powi(x, n), 10);
        lemma_powi_pow2n(k, 10);
        assert(s * n <= k * 10);
        crate::limbs::lemma_pow2n_mono(s * n, k * 10);
        assert(false);
    }
}

/// `x^10 <= 2^s`, checked on the value `p` of `x^10`.
proof fn lemma_tenth_power_fits(x: nat, p: nat, s: nat)
    requires
        s <= 64,
        p <= vstd::arithmetic::power2::pow2(s),
        powi(x, 10) == p,
    ensures
        powi(x, 10) <= pow2n(s),
{
    crate::limbs::lemma_pow2n_is_pow2(s);
}

/// The slope of the padding covers `log2` of the odd part of the base,
/// and the intercept is at least 52 bits.
proof fn lemma_padding_constants(base: nat)
    requires
        2 <= base <= 36,
        !is_pow2_base(base),
    ensures
        powi(odd_part(base), 10) <= pow2n(padded_slope(base)),
        padded_intercept(base) >= 52,
{
    vstd::arithmetic::power2::lemma2_to64();
    vstd::arithmetic::power2::lemma2_to64_rest();
    if base == 3 || base == 6 || base == 12 || base == 24 {
        lemma_product_small(3, 1, 1);
        assert(odd_factors(base) =~= seq![3nat]);
        assert(odd_part(base) == 3);
        assert(powi(3, 10) == 59049) by {
            reveal_with_fuel(powi, 11);
        }
        lemma_tenth_power_fits(3, 59049, 21);
    } else if base == 5 || base == 10 || base == 20 {
        lemma_product_small(5, 1, 1);
        assert(odd_factors(base) =~= seq![5nat]);
        assert(odd_part(base) == 5);
        assert(powi(5, 10) == 9765625) by {
            reveal_with_fuel(powi, 11);
        }
        lemma_tenth_power_fits(5, 9765625, 28);
    } else if base == 7 || base == 14 || base == 28 {
        lemma_product_small(7, 1, 1);
        assert(odd_factors(base) =~= seq![7nat]);
        assert(odd_part(base) == 7);
        assert(powi(7, 10) == 282475249) by {
            reveal_with_fuel(powi, 11);
        }
        lemma_tenth_power_fits(7, 282475249, 33);
    } else if base == 9 || base == 18 || base == 36 {
        lemma_product_small(3, 3, 1);
        assert(odd_factors(base) =~= seq![3nat, 3nat]);
        assert(odd_part(base) == 9);
        assert(powi(9, 10) == 3486784401) by {
            reveal_with_fuel(powi, 11);
        }
        lemma_tenth_power_fits(9, 3486784401, 34);
    } else if base == 11 || base == 22 {
        lemma_product_small(11, 1, 1);
        assert(odd_factors(base) =~= seq![11nat]);
        assert(odd_part(base) == 11);
        assert(powi(11, 10) == 25937424601) by {
            reveal_with_fuel(powi, 11);
        }
        lemma_tenth_power_fits(11, 25937424601, 40);
    } else if base == 13 || base == 26 {
        lemma_product_small(13, 1, 1);
        assert(odd_factors(base) =~= seq![13nat]);
        assert(odd_part(base) == 13);
        assert(powi(13, 10) == 137858491849) by {
            reveal_with_fuel(powi, 11);
        }
        lemma_tenth_power_fits(13, 137858491849, 42);
    } else if base == 15 || base == 30 {
        lemma_product_small(3, 5, 1);
        assert(odd_factors(base) =~= seq![3nat, 5nat]);
        assert(odd_part(base) == 15);
        assert(powi(15, 10) == 576650390625) by {
            reveal_with_fuel(powi, 11);
        }
        lemma_tenth_power_fits(15, 576650390625, 42);
    } else if base == 17 || base == 34 {
        lemma_product_small(17, 1, 1);
        assert(odd_factors(base) =~= seq![17nat]);
        assert(odd_part(base) == 17);
        assert(powi(17, 10) == 2015993900449) by {
            reveal_with_fuel(powi, 11);
        }
        lemma_tenth_power_fits(17, 2015993900449, 46);
    } else if base == 19 {
        lemma_product_small(19, 1, 1);
        assert(odd_factors(base) =~= seq![19nat]);
        assert(odd_part(base) == 19);
        assert(powi(19, 10) == 6131066257801) by {
            reveal_with_fuel(powi, 11);
        }
        lemma_tenth_power_fits(19, 6131066257801, 48);
    } else if base == 21 {
        lemma_product_small(3, 7, 1);
        assert(odd_factors(base) =~= seq![3nat, 7nat]);
        assert(odd_part(base) == 21);
        assert(powi(21, 10) == 16679880978201) by {
            reveal_with_fuel(powi, 11);
        }
        lemma_tenth_power_fits(21, 16679880978201, 46);
    } else if base == 23 {
        lemma_product_small(23, 1, 1);
        assert(odd_factors(base) =~= seq![23nat]);
        assert(odd_part(base) == 23);
        assert(powi(23, 10) == 41426511213649) by {
            reveal_with_fuel(powi, 11);
        }
        lemma_tenth_power_fits(23, 41426511213649, 50);
    } else if base == 25 {
        lemma_product_small(5, 5, 1);
        assert(odd_factors(base) =~= seq![5nat, 5nat]);
        assert(odd_part(base) == 25);
        assert(powi(25, 10) == 95367431640625) by {
            reveal_with_fuel(powi, 11);
        }
        lemma_tenth_power_fits(25, 95367431640625, 48);
    } else if base == 27 {
        lemma_product_small(3, 3, 3);
        assert(odd_factors(base) =~= seq![3nat, 3nat, 3nat]);
        assert(odd_part(base) == 27);
        assert(powi(27, 10) == 205891132094649) by {
            reveal_with_fuel(powi, 11);
        }
        lemma_tenth_power_fits(27, 205891132094649, 49);
    } else if base == 29 {
        lemma_product_small(29, 1, 1);
        assert(odd_factors(base) =~= seq![29nat]);
        assert(odd_part(base) == 29);
        assert(powi(29, 10) == 420707233300201) by {
            reveal_with_fuel(powi, 11);
        }
        lemma_tenth_power_fits(29, 420707233300201, 54);
    } else if base == 31 {
        lemma_product_small(31, 1, 1);
        assert(odd_factors(base) =~= seq![31nat]);
        assert(odd_part(base) == 31);
        assert(powi(31, 10) == 819628286980801) by {
            reveal_with_fuel(powi, 11);
        }
        lemma_tenth_power_fits(31, 819628286980801, 55);
    } else if base == 33 {
        lemma_product_small(3, 11, 1);
        assert(odd_factors(base) =~= seq![3nat, 11nat]);
        assert(odd_part(base) == 33);
        assert(powi(33, 10) == 1531578985264449) by {
            reveal_with_fuel(powi, 11);
        }
        lemma_tenth_power_fits(33, 1531578985264449, 52);
    } else {
        assert(base == 35);
        lemma_product_small(5, 7, 1);
        assert(odd_factors(base) =~= seq![5nat, 7nat]);
        assert(odd_part(base) == 35);
        assert(powi(35, 10) == 2758547353515625) by {
            reveal_with_fuel(powi, 11);
        }
        lemma_tenth_power_fits(35, 2758547353515625, 54);
    }
}

/// The padding before a division by `base^n` leaves at least 52 bits of
/// the quotient: `2^padded_bits(base, n) >= 2^52 * odd(base)^n`, where
/// `odd(base)` is what is left of the base to divide by once its powers of
/// two go into the exponent.
pub proof fn lemma_padded_bits_precision(base: nat, n: nat)
    requires
        2 <= base <= 36,
        !is_pow2_base(base),
        n < 0x2000_0000,
    ensures
        pow2n(padded_bits_spec(base, n)) >= pow2n(52) * powi(odd_part(base), n),
{
    lemma_padding_constants(base);
    let sl = padded_slope(base);
    let ic = padded_intercept(base);
    lemma_powi_by_tenth(odd_part(base), sl, n);
    let k = (sl * n + 9) / 10;
    assert(sl <= 55);
    assert(n * sl <= 0x2000_0000 * 55) by (nonlinear_arith)
        requires
            n < 0x2000_0000,
            sl <= 55,
    ;
    assert(sl * n == n * sl) by (nonlinear_arith);
    assert((n * sl + 10 * ic + 9) / 10 == k + ic) by {
        vstd::arithmetic::div_mod::lemma_div_plus_one(0, 10);
        vstd::arithmetic::div_mod::lemma_fundamental_div_mod((n * sl + 9) as int, 10);
        vstd::arithmetic::div_mod::lemma_fundamental_div_mod((n * sl + 10 * ic + 9) as int, 10);
        vstd::arithmetic::div_mod::lemma_mod_bound((n * sl + 9) as int, 10);
        vstd::arithmetic::div_mod::lemma_mod_bound((n * sl + 10 * ic + 9) as int, 10);
    }
    let pb = padded_bits_spec(base, n);
    assert(pb == k + ic);
    crate::limbs::lemma_pow2n_add(52, (k + ic - 52) as nat);
    crate::limbs::lemma_pow2n_mono(k, (k + ic - 52) as nat);
    let p52 = pow2n(52);
    let a = pow2n((k + ic - 52) as nat);
    let o = powi(odd_part(base), n);
    assert(p52 * a >= p52 * o) by (nonlinear_arith)
        requires
            a >= o,
    ;
}

/// Rounding a quotient never takes it below the floor.
proof fn lemma_div_round_ge(v: nat, p: nat, roundup: bool)
    requires
        p > 0,
    ensures
        crate::math::small::div_round(v, p, roundup) >= v / p,
{
}

/// Dividing by `b^n` in steps, each rounded, gives at least the floor of
/// the whole quotient.
proof fn lemma_idiv_power_ge(v: nat, b: nat, n: nat, roundup: bool)
    requires
        b >= 1,
    ensures
        crate::math::small::idiv_power_spec(v, b, n, roundup) >= v / powi(b, n),
    decreases n,
{
    let step = (small_powers_len(b) - 1) as nat;
    crate::limbs::lemma_powi_pos(b, n);
    if step > 0 && n >= step {
        crate::limbs::lemma_powi_pos(b, step);
        crate::limbs::lemma_powi_pos(b, (n - step) as nat);
        let ps = powi(b, step);
        let pr = powi(b, (n - step) as nat);
        let w = crate::math::small::div_round(v, ps, roundup);
        lemma_div_round_ge(v, ps, roundup);
        lemma_idiv_power_ge(w, b, (n - step) as nat, roundup);
        vstd::arithmetic::div_mod::lemma_div_is_ordered((v / ps) as int, w as int, pr as int);
        vstd::arithmetic::div_mod::lemma_div_denominator(v as int, ps as int, pr as int);
        crate::limbs::lemma_powi_add(b, step, (n - step) as nat);
        assert(step + (n - step) == n);
    } else {
        lemma_div_round_ge(v, powi(b, n), roundup);
    }
}

/// A product of factors that are all at least one is at least one.
proof fn lemma_product_pos(fs: Seq<nat>)
    requires
        forall|i: int| 0 <= i < fs.len() ==> fs[i] >= 1,
    ensures
        product(fs) >= 1,
    decreases fs.len(),
{
    if fs.len() > 0 {
        let rest = fs.subrange(1, fs.len() as int);
        lemma_product_pos(rest);
        let a = fs[0];
        let p = product(rest);
        assert(a * p >= 1) by (nonlinear_arith)
            requires
                a >= 1,
                p >= 1,
        ;
    }
}

/// Dividing by the powers of each factor in turn, rounded, gives at least
/// the floor of the quotient by the power of their product.
proof fn lemma_idiv_chain_ge(v: nat, fs: Seq<nat>, n: nat)
    requires
        forall|i: int| 0 <= i < fs.len() ==> fs[i] >= 1,
    ensures
        idiv_chain(v, fs, n, true) >= v / powi(product(fs), n),
    decreases fs.len(),
{
    if fs.len() == 0 {
        crate::limbs::lemma_powi_one(n);
        assert(product(fs) == 1);
    } else {
        let rest = fs.subrange(1, fs.len() as int);
        let f0 = fs[0];
        let p = product(rest);
        lemma_product_pos(rest);
        let w = crate::math::small::idiv_power_spec(v, f0, n, true);
        lemma_idiv_power_ge(v, f0, n, true);
        lemma_idiv_chain_ge(w, rest, n);
        crate::limbs::lemma_powi_pos(f0, n);
        crate::limbs::lemma_powi_pos(p, n);
        let a = powi(f0, n);
        let b = powi(p, n);
        vstd::arithmetic::div_mod::lemma_div_is_ordered((v / a) as int, w as int, b as int);
        vstd::arithmetic::div_mod::lemma_div_denominator(v as int, a as int, b as int);
        crate::limbs::lemma_powi_of_product(f0, p, n);
        assert(product(fs) == f0 * p);
    }
}

/// The first `trailing_zeros_index(s)` limbs are zero, and the one after
/// them, if any, is not.
proof fn lemma_trailing_zeros_props(s: Seq<u32>)
    ensures
        crate::math::small::trailing_zeros_index(s) <= s.len(),
        forall|j: int|
            0 <= j < crate::math::small::trailing_zeros_index(s) ==> s[j] == 0,
        crate::math::small::trailing_zeros_index(s) < s.len() ==> s[
            crate::math::small::trailing_zeros_index(s) as int
        ] != 0,
    decreases s.len(),
{
    if s.len() > 0 && s[0] == 0 {
        let t = s.subrange(1, s.len() as int);
        lemma_trailing_zeros_props(t);
        let k = crate::math::small::trailing_zeros_index(t);
        assert forall|j: int| 0 <= j < k + 1 implies s[j] == 0 by {
            if j > 0 {
                assert(s[j] == t[j - 1]);
            }
        }
        if k + 1 < s.len() {
            assert(s[(k + 1) as int] == t[k as int]);
        }
    }
}

/// A positive number is at least `2^32` to the number of its zero low limbs.
proof fn lemma_value_ge_trailing(v: nat)
    requires
        v >= 1,
    ensures
        v >= big_pow(crate::math::small::trailing_zeros_index(limbs_of(v))),
{
    let s = limbs_of(v);
    crate::limbs::lemma_limbs_of(v);
    if s.len() == 0 {
        assert(value(s) == 0);
    }
    let t = crate::math::small::trailing_zeros_index(s);
    lemma_trailing_zeros_props(s);
    if t == s.len() {
        assert(s[s.len() - 1] == 0);
        assert(false);
    }
    lemma_value_split(s, t as int);
    let r = s.skip(t as int);
    assert(r.len() > 0 && r.last() == s.last());
    crate::limbs::lemma_value_lower_bound(r);
    lemma_big_pow_pos((r.len() - 1) as nat);
    let bp = big_pow(t);
    let vr = value(r);
    assert(bp * vr >= bp) by (nonlinear_arith)
        requires
            vr >= 1,
            bp >= 0,
    ;
}

/// `big_pow(a + b) == big_pow(a) * big_pow(b)`.
proof fn lemma_big_pow_add(a: nat, b: nat)
    ensures
        big_pow(a + b) == big_pow(a) * big_pow(b),
{
    lemma_big_pow_pow2n(a);
    lemma_big_pow_pow2n(b);
    lemma_big_pow_pow2n(a + b);
    lemma_pow2n_add(32 * a, 32 * b);
}

/// The quotient of a division by a negative power keeps the precision its
/// padding buys: where `from_bytes` divides a mantissa `v >= 1` by
/// `base^n` (a base that is not a power of two, an exponent that does not
/// saturate), the padded and rounded quotient is at least `2^52`, so it
/// has at least 53 significant bits.
pub proof fn lemma_quotient_precision(v: nat, n: nat, base: nat, max: int)
    requires
        2 <= base <= 36,
        !is_pow2_base(base),
        v >= 1,
        1 <= n < 0x2000_0000,
        -max <= bigfloat_binary_exponent_spec(limbs_of(v), base, -(n as int)) <= max,
    ensures
        scale_spec(v, -(n as int), base, max).0 >= pow2n(52),
{
    let m = limbs_of(v);
    let pb = padded_bits_spec(base, n);
    let k = (pb + 31) / 32;
    let c = pad_count(m, k);
    let t = crate::math::small::trailing_zeros_index(m);
    lemma_value_ge_trailing(v);
    lemma_big_pow_pos(c);
    lemma_big_pow_pos(k);
    let x = v * big_pow(c);
    if k > t {
        assert(c == k - t);
        lemma_big_pow_add(t, c);
        let bt = big_pow(t);
        let bc = big_pow(c);
        assert(v * bc >= bt * bc) by (nonlinear_arith)
            requires
                v >= bt,
                bc >= 0,
        ;
        assert(x >= big_pow(k));
    } else {
        assert(c == 0);
        lemma_big_pow_pow2n(t);
        lemma_big_pow_pow2n(k);
        lemma_pow2n_mono(32 * k, 32 * t);
        assert(big_pow(0) == 1) by {
            reveal_with_fuel(big_pow, 1);
        }
        assert(v * 1 == v);
        assert(x >= big_pow(k));
    }
    lemma_big_pow_pow2n(k);
    lemma_pow2n_mono(pb, 32 * k);
    lemma_padded_bits_precision(base, n);
    let o = powi(odd_part(base), n);
    let p52 = pow2n(52);
    assert(x >= p52 * o);
    let fs = odd_factors(base);
    assert forall|i: int| 0 <= i < fs.len() implies fs[i] >= 1 by {
    }
    lemma_idiv_chain_ge(x, fs, n);
    lemma_product_pos(fs);
    crate::limbs::lemma_powi_pos(odd_part(base), n);
    vstd::arithmetic::div_mod::lemma_div_is_ordered((p52 * o) as int, x as int, o as int);
    vstd::arithmetic::div_mod::lemma_div_multiples_vanish(p52 as int, o as int);
    assert(o * p52 == p52 * o) by (nonlinear_arith);
}

/// Calculate the number of bits to pad for `i**n`.
///
/// The slope and intercept are a safe overestimate, found by numerical
/// simulations on primes, of the bits a division by `i**n` needs to keep
/// the result exact: `ceil(n * m + b)`.
pub fn padded_bits(i: u32, n: u32) -> (r: u32)
    requires
        2 <= i <= 36,
        !is_pow2_base(i as nat),
    ensures
        r == padded_bits_spec(i as nat, n as nat),
        n < 0x2000_0000 ==> pow2n(r as nat) >= pow2n(52) * powi(odd_part(i as nat), n as nat),
{
    proof {
        if n < 0x2000_0000 {
            lemma_padded_bits_precision(i as nat, n as nat);
        }
    }
    let (m, b): (u64, u64) = match i {
        3 | 6 | 12 | 24 => (21, 55),
        5 | 10 | 20 => (28, 54),
        7 | 14 | 28 => (33, 54),
        9 | 18 | 36 => (34, 53),
        11 | 22 => (40, 54),
        13 | 26 => (42, 56),
        15 | 30 => (42, 55),
        17 | 34 => (46, 56),
        19 => (48, 54),
        21 => (46, 52),
        23 => (50, 53),
        25 => (48, 55),
        27 => (49, 55),
        29 => (54, 56),
        31 => (55, 54),
        33 => (52, 54),
        _ => (54, 56),
    };
    proof {
        assert((n as u64) * m <= 0xffff_ffffu64 * 55) by (nonlinear_arith)
            requires
                m <= 55,
        ;
    }
    let v = ((n as u64) * m + 10 * b + 9) / 10;
    if v > 0xffff_ffff {
        u32::MAX
    } else {
        v as u32
    }
}

/// Large, arbitrary-precision float.
///
/// This float aims to solve the half-way problem: it keeps every digit of
/// the mantissa, so that rounding to a native float is exact.
///
/// It assumes normalized values (the most-significant limb is non-zero, or
/// there are no limbs) and non-negative results.
pub struct Bigfloat {
    /// Little-endian limbs of the mantissa.
    data: SmallLimbs,
    /// Binary exponent.
    exp: i32,
}

impl Bigfloat {
    /// The limbs of the mantissa.
    pub closed spec fn limbs(&self) -> Seq<u32> {
        smallvec_limbs(self.data)
    }

    /// The binary exponent.
    pub closed spec fn exp_spec(&self) -> int {
        self.exp as int
    }

    /// A Bigfloat with the given limbs and binary exponent.
    pub fn from_raw_parts(data: Vec<u32>, exp: i32) -> (r: Bigfloat)
        ensures
            r.limbs() == data@,
            r.exp_spec() == exp,
    {
        Bigfloat { data: limbs_from_vec(data), exp }
    }

    /// A copy of the limbs of the mantissa.
    pub fn data(&self) -> (r: Vec<u32>)
        ensures
            r@ == self.limbs(),
    {
        limbs_to_vec(&self.data)
    }

    /// The binary exponent.
    pub fn exp(&self) -> (r: i32)
        ensures
            r == self.exp_spec(),
    {
        self.exp
    }

    // CREATION

    /// Create new Bigfloat.
    pub fn new() -> (r: Bigfloat)
        ensures
            r.limbs() == Seq::<u32>::empty(),
            r.exp_spec() == 0,
    {
        Self::min_value()
    }

    /// Create new Bigfloat from u32.
    pub fn from_u32(x: u32) -> (r: Bigfloat)
        ensures
            value(r.limbs()) == x,
            is_normalized(r.limbs()),
            r.exp_spec() == 0,
    {
        let mut v: Vec<u32> = Vec::new();
        v.push(x);
        proof {
            crate::limbs::lemma_value_push(Seq::<u32>::empty(), x);
            assert(value(Seq::<u32>::empty()) == 0);
            assert(big_pow(0) == 1);
            assert(Seq::<u32>::empty().push(x) =~= v@);
            assert(x * big_pow(0) == x) by (nonlinear_arith)
                requires
                    big_pow(0) == 1,
            ;
        }
        crate::math::small::normalize(&mut v);
        Bigfloat { data: limbs_from_vec(v), exp: 0 }
    }

    /// Split u64 into two consecutive u32s, in little-endian order.
    pub fn split_u64(x: u64) -> (r: (u32, u32))
        ensures
            crate::limbs::wide(r.1, r.0) == x,
    {
        let d0 = (x >> 32u64) as u32;
        let d1 = (x & 0xFFFF_FFFFu64) as u32;
        proof {
            assert(d1 + d0 * 0x1_0000_0000nat == x) by (bit_vector)
                requires
                    d0 == (x >> 32u64) as u32,
                    d1 == (x & 0xFFFF_FFFFu64) as u32,
            ;
        }
        (d1, d0)
    }

    /// Split u128 into four consecutive u32s, in little-endian order.
    pub fn split_u128(x: u128) -> (r: (u32, u32, u32, u32))
        ensures
            r.0 + r.1 * limb_base() + r.2 * (limb_base() * limb_base()) + r.3 * (limb_base()
                * limb_base() * limb_base()) == x,
    {
        let hi64 = (x >> 64u128) as u64;
        let lo64 = (x & 0xFFFF_FFFF_FFFF_FFFFu128) as u64;
        proof {
            assert(lo64 + hi64 * 0x1_0000_0000_0000_0000nat == x) by (bit_vector)
                requires
                    hi64 == (x >> 64u128) as u64,
                    lo64 == (x & 0xFFFF_FFFF_FFFF_FFFFu128) as u64,
            ;
        }
        let (d3, d2) = Self::split_u64(lo64);
        let (d1, d0) = Self::split_u64(hi64);
        proof {
            let b = limb_base();
            assert(d3 + d2 * b + d1 * (b * b) + d0 * (b * b * b) == (d3 + d2 * b) + (d1 + d0 * b)
                * (b * b)) by (nonlinear_arith);
        }
        (d3, d2, d1, d0)
    }

    /// Create new Bigfloat from u64.
    pub fn from_u64(x: u64) -> (r: Bigfloat)
        ensures
            value(r.limbs()) == x,
            is_normalized(r.limbs()),
            r.exp_spec() == 0,
    {
        let (d1, d0) = Self::split_u64(x);
        let mut v: Vec<u32> = Vec::new();
        v.push(d1);
        v.push(d0);
        proof {
            lemma_value_two(v@);
        }
        crate::math::small::normalize(&mut v);
        Bigfloat { data: limbs_from_vec(v), exp: 0 }
    }

    /// Create new Bigfloat from u128.
    pub fn from_u128(x: u128) -> (r: Bigfloat)
        ensures
            value(r.limbs()) == x,
            is_normalized(r.limbs()),
            r.exp_spec() == 0,
    {
        let (d3, d2, d1, d0) = Self::split_u128(x);
        let mut v: Vec<u32> = Vec::new();
        v.push(d3);
        v.push(d2);
        v.push(d1);
        v.push(d0);
        proof {
            lemma_value_four(v@);
        }
        crate::math::small::normalize(&mut v);
        Bigfloat { data: limbs_from_vec(v), exp: 0 }
    }

    /// Create new Bigfloat with the minimal value.
    pub fn min_value() -> (r: Bigfloat)
        ensures
            r.limbs() == Seq::<u32>::empty(),
            r.exp_spec() == 0,
    {
        Bigfloat { data: limbs_from_vec(Vec::new()), exp: 0 }
    }

    /// Create new Bigfloat with the maximal value on stack.
    pub fn max_value() -> (r: Bigfloat)
        ensures
            r.limbs().len() == 32,
            forall|i: int| 0 <= i < 32 ==> r.limbs()[i] == u32::MAX,
            r.exp_spec() == i32::MAX,
    {
        let mut v: Vec<u32> = Vec::new();
        let mut i: usize = 0;
        while i < 32
            invariant
                i <= 32,
                v@.len() == i,
                forall|j: int| 0 <= j < i ==> v@[j] == u32::MAX,
            decreases 32 - i,
        {
            v.push(u32::MAX);
            i += 1;
        }
        Bigfloat { data: limbs_from_vec(v), exp: i32::MAX }
    }

    // NORMALIZATION

    /// Get if the float is normalized.
    pub fn is_normalized(&self) -> (r: bool)
        ensures
            r == is_normalized(self.limbs()),
    {
        let v = limbs_to_vec(&self.data);
        v.len() == 0 || v[v.len() - 1] != 0
    }

    /// Set the most-significant int to be non-zero.
    pub fn normalize(&mut self)
        ensures
            final(self).limbs() == crate::limbs::trim(old(self).limbs()),
            value(final(self).limbs()) == value(old(self).limbs()),
            is_normalized(final(self).limbs()),
            final(self).exp_spec() == old(self).exp_spec(),
    {
        let mut v = limbs_to_vec(&self.data);
        crate::math::small::normalize(&mut v);
        self.data = limbs_from_vec(v);
    }

    // PROPERTIES

    /// Get the number of trailing zero values in the storage.
    pub fn trailing_zero_values(&self) -> (r: usize)
        ensures
            r == crate::math::small::trailing_zeros_index(self.limbs()),
    {
        let data = limbs_to_vec(&self.data);
        let r = crate::math::small::trailing_zero_values(data.as_slice());
        proof {
            crate::math::small::lemma_trailing_zeros_index(data@, r as int);
        }
        r
    }

    /// Get number of leading zero bits in the storage.
    pub fn leading_zeros(&self) -> (r: usize)
        ensures
            r == (if self.limbs().len() == 0 {
                0
            } else {
                self.limbs().last().leading_zeros() as usize
            }),
    {
        let data = limbs_to_vec(&self.data);
        crate::math::small::leading_zeros(data.as_slice())
    }

    /// Whether the mantissa has no limbs (is zero, when normalized).
    fn limbs_empty(&self) -> (r: bool)
        ensures
            r == (self.limbs().len() == 0),
    {
        let data = limbs_to_vec(&self.data);
        data.len() == 0
    }

    // SMALL OPERATIONS

    /// AddAssign small integer.
    pub fn iadd_small(&mut self, y: u32)
        ensures
            value(final(self).limbs()) == value(old(self).limbs()) + y,
            is_normalized(old(self).limbs()) && (y != 0 || old(self).limbs().len() > 0)
                ==> is_normalized(final(self).limbs()),
            final(self).exp_spec() == old(self).exp_spec(),
    {
        let mut data = limbs_to_vec(&self.data);
        crate::math::small::iadd(&mut data, y);
        self.data = limbs_from_vec(data);
    }

    /// MulAssign small integer.
    pub fn imul_small(&mut self, y: u32)
        ensures
            value(final(self).limbs()) == value(old(self).limbs()) * y,
            is_normalized(old(self).limbs()) && y != 0 ==> is_normalized(final(self).limbs()),
            final(self).exp_spec() == old(self).exp_spec(),
    {
        let mut data = limbs_to_vec(&self.data);
        crate::math::small::imul(&mut data, y);
        self.data = limbs_from_vec(data);
    }

    /// DivAssign small integer, and return the remainder.
    pub fn idiv_small(&mut self, y: u32) -> (rem: u32)
        requires
            y != 0,
        ensures
            value(final(self).limbs()) == value(old(self).limbs()) / (y as nat),
            rem == value(old(self).limbs()) % (y as nat),
            final(self).exp_spec() == old(self).exp_spec(),
    {
        let mut data = limbs_to_vec(&self.data);
        let rem = crate::math::small::idiv(&mut data, y);
        self.data = limbs_from_vec(data);
        rem
    }

    // DIVISION

    /// Insert zero limbs at the least-significant end, less the trailing
    /// zero limbs already there; returns the count asked for after that
    /// discount (the limbs are inserted only into a non-empty buffer).
    fn pad_zero_limbs(&mut self, n: usize) -> (r: usize)
        ensures
            r == pad_count(old(self).limbs(), n as nat),
            final(self).limbs() == (if r == 0 || old(self).limbs().len() == 0 {
                old(self).limbs()
            } else {
                zeros(r as nat) + old(self).limbs()
            }),
            final(self).exp_spec() == old(self).exp_spec(),
    {
        let tz = self.trailing_zero_values();
        let n = if n > tz {
            n - tz
        } else {
            0
        };
        let mut data = limbs_to_vec(&self.data);
        if n == 0 || data.len() == 0 {
            return n;
        }
        crate::math::small::ishl_digits(&mut data, n);
        self.data = limbs_from_vec(data);
        n
    }

    /// Pad the buffer with zeros to the least-significant digits, and lower
    /// the exponent to keep the value.
    pub fn pad_zeros(&mut self, n: usize)
        requires
            old(self).exp_spec() - 32 * pad_count(old(self).limbs(), n as nat) >= i32::MIN,
        ensures
            final(self).limbs() == (if pad_count(old(self).limbs(), n as nat) == 0 || old(
                self,
            ).limbs().len() == 0 {
                old(self).limbs()
            } else {
                zeros(pad_count(old(self).limbs(), n as nat)) + old(self).limbs()
            }),
            final(self).exp_spec() == old(self).exp_spec() - 32 * pad_count(
                old(self).limbs(),
                n as nat,
            ),
    {
        let n = self.pad_zero_limbs(n);
        let bits = (n as i64) * 32;
        self.exp = (self.exp as i64 - bits) as i32;
    }

    /// Pad ints for division, based off the base and exponent.
    pub fn pad_division(&mut self, n: u32, base: u32)
        requires
            2 <= base <= 36,
            !is_pow2_base(base as nat),
            old(self).exp_spec() - 32 * pad_count(
                old(self).limbs(),
                ((padded_bits_spec(base as nat, n as nat) + 31) / 32) as nat,
            ) >= i32::MIN,
        ensures
            ({
                let c = pad_count(
                    old(self).limbs(),
                    ((padded_bits_spec(base as nat, n as nat) + 31) / 32) as nat,
                );
                &&& final(self).limbs() == (if c == 0 || old(self).limbs().len() == 0 {
                    old(self).limbs()
                } else {
                    zeros(c) + old(self).limbs()
                })
                &&& final(self).exp_spec() == old(self).exp_spec() - 32 * c
            }),
    {
        let bits = padded_bits(base, n);
        let div = bits / 32;
        let rem = bits % 32;
        let n = if rem != 0 {
            div + 1
        } else {
            div
        };
        self.pad_zeros(n as usize);
    }

    /// Calculate the real exponent, binary for the float: the exponent of
    /// the 64-bit mantissa that `mantissa` returns.
    pub fn exponent(&self) -> (r: i32)
        ensures
            r == exponent_spec(self.limbs(), self.exp_spec()),
    {
        let data = limbs_to_vec(&self.data);
        let bitshift = crate::math::small::leading_zeros(data.as_slice());
        let bits: u128 = (data.len() as u128) * 32 - (bitshift as u128);
        let bits: i64 = if bits > 0x7fff_ffff {
            0x7fff_ffff
        } else {
            bits as i64
        };
        let v: i64 = self.exp as i64 + bits - 64;
        if v > 0x7fff_ffff {
            i32::MAX
        } else if v < -0x8000_0000 {
            i32::MIN
        } else {
            v as i32
        }
    }

    // POWERS

    /// Multiply by a power of 2: only the exponent changes.
    fn imul_pow2(&mut self, n: u32)
        requires
            n <= i32::MAX,
            old(self).exp_spec() + n <= i32::MAX,
        ensures
            final(self).limbs() == old(self).limbs(),
            final(self).exp_spec() == old(self).exp_spec() + n,
    {
        self.exp = self.exp + n as i32;
    }

    /// Multiply the mantissa by a power of an odd factor.
    fn imul_power_impl(&mut self, base: u32, n: u32)
        requires
            2 <= base <= 36,
        ensures
            value(final(self).limbs()) == value(old(self).limbs()) * powi(base as nat, n as nat),
            is_normalized(old(self).limbs()) ==> is_normalized(final(self).limbs()),
            final(self).exp_spec() == old(self).exp_spec(),
    {
        let mut data = limbs_to_vec(&self.data);
        crate::math::small::imul_power(&mut data, base, n);
        self.data = limbs_from_vec(data);
    }

    /// MulAssign by a power: the odd factors of the base multiply the
    /// mantissa, the powers of two go into the exponent.
    pub fn imul_power(&mut self, n: u32, base: u32)
        requires
            2 <= base <= 36,
            pow2_part(base as nat) * n <= i32::MAX,
            old(self).exp_spec() + pow2_part(base as nat) * n <= i32::MAX,
        ensures
            value(final(self).limbs()) == value(old(self).limbs()) * powi(
                odd_part(base as nat),
                n as nat,
            ),
            final(self).exp_spec() == old(self).exp_spec() + pow2_part(base as nat) * n,
            is_normalized(old(self).limbs()) ==> is_normalized(final(self).limbs()),
    {
        let ghost v = value(old(self).limbs());
        match base {
            2 => self.imul_pow2(n),
            3 => self.imul_power_impl(3, n),
            4 => self.imul_pow2(2 * n),
            5 => self.imul_power_impl(5, n),
            6 => {
                self.imul_power_impl(3, n);
                self.imul_pow2(n);
            },
            7 => self.imul_power_impl(7, n),
            8 => self.imul_pow2(3 * n),
            9 => {
                self.imul_power_impl(3, n);
                self.imul_power_impl(3, n);
            },
            10 => {
                self.imul_power_impl(5, n);
                self.imul_pow2(n);
            },
            11 => self.imul_power_impl(11, n),
            12 => {
                self.imul_power_impl(3, n);
                self.imul_pow2(2 * n);
            },
            13 => self.imul_power_impl(13, n),
            14 => {
                self.imul_power_impl(7, n);
                self.imul_pow2(n);
            },
            15 => {
                self.imul_power_impl(3, n);
                self.imul_power_impl(5, n);
            },
            16 => self.imul_pow2(4 * n),
            17 => self.imul_power_impl(17, n),
            18 => {
                self.imul_power_impl(3, n);
                self.imul_power_impl(3, n);
                self.imul_pow2(n);
            },
            19 => self.imul_power_impl(19, n),
            20 => {
                self.imul_power_impl(5, n);
                self.imul_pow2(2 * n);
            },
            21 => {
                self.imul_power_impl(3, n);
                self.imul_power_impl(7, n);
            },
            22 => {
                self.imul_power_impl(11, n);
                self.imul_pow2(n);
            },
            23 => self.imul_power_impl(23, n),
            24 => {
                self.imul_power_impl(3, n);
                self.imul_pow2(3 * n);
            },
            25 => {
                self.imul_power_impl(5, n);
                self.imul_power_impl(5, n);
            },
            26 => {
                self.imul_power_impl(13, n);
                self.imul_pow2(n);
            },
            27 => {
                self.imul_power_impl(3, n);
                self.imul_power_impl(3, n);
                self.imul_power_impl(3, n);
            },
            28 => {
                self.imul_power_impl(7, n);
                self.imul_pow2(2 * n);
            },
            29 => self.imul_power_impl(29, n),
            30 => {
                self.imul_power_impl(3, n);
                self.imul_power_impl(5, n);
                self.imul_pow2(n);
            },
            31 => self.imul_power_impl(31, n),
            32 => self.imul_pow2(5 * n),
            33 => {
                self.imul_power_impl(3, n);
                self.imul_power_impl(11, n);
            },
            34 => {
                self.imul_power_impl(17, n);
                self.imul_pow2(n);
            },
            35 => {
                self.imul_power_impl(5, n);
                self.imul_power_impl(7, n);
            },
            _ => {
                self.imul_power_impl(3, n);
                self.imul_power_impl(3, n);
                self.imul_pow2(2 * n);
            },
        }
        proof {
            reveal_with_fuel(mul_chain, 4);
            lemma_mul_chain(v, odd_factors(base as nat), n as nat);
            assert(value(self.limbs()) == mul_chain(v, odd_factors(base as nat), n as nat));
        }
    }

    /// Divide by a power of 2: only the exponent changes.
    fn idiv_pow2(&mut self, n: u32)
        requires
            n <= i32::MAX,
            old(self).exp_spec() - n >= i32::MIN,
        ensures
            final(self).limbs() == old(self).limbs(),
            final(self).exp_spec() == old(self).exp_spec() - n,
    {
        self.exp = self.exp - n as i32;
    }

    /// Divide the mantissa by a power of an odd factor.
    fn idiv_power_impl(&mut self, base: u32, n: u32, roundup: bool)
        requires
            2 <= base <= 36,
        ensures
            value(final(self).limbs()) == crate::math::small::idiv_power_spec(
                value(old(self).limbs()),
                base as nat,
                n as nat,
                roundup,
            ),
            is_normalized(final(self).limbs()),
            final(self).exp_spec() == old(self).exp_spec(),
    {
        let mut data = limbs_to_vec(&self.data);
        crate::math::small::idiv_power(&mut data, base, n, roundup);
        self.data = limbs_from_vec(data);
    }

    /// DivAssign by a power: the odd factors of the base divide the
    /// mantissa in turn (each rounded as asked), the powers of two go into
    /// the exponent.
    pub fn idiv_power(&mut self, n: u32, base: u32, roundup: bool)
        requires
            2 <= base <= 36,
            pow2_part(base as nat) * n <= i32::MAX,
            old(self).exp_spec() - pow2_part(base as nat) * n >= i32::MIN,
        ensures
            value(final(self).limbs()) == idiv_chain(
                value(old(self).limbs()),
                odd_factors(base as nat),
                n as nat,
                roundup,
            ),
            final(self).exp_spec() == old(self).exp_spec() - pow2_part(base as nat) * n,
            is_normalized(old(self).limbs()) ==> is_normalized(final(self).limbs()),
    {
        let ghost v = value(old(self).limbs());
        match base {
            2 => self.idiv_pow2(n),
            3 => self.idiv_power_impl(3, n, roundup),
            4 => self.idiv_pow2(2 * n),
            5 => self.idiv_power_impl(5, n, roundup),
            6 => {
                self.idiv_power_impl(3, n, roundup);
                self.idiv_pow2(n);
            },
            7 => self.idiv_power_impl(7, n, roundup),
            8 => self.idiv_pow2(3 * n),
            9 => {
                self.idiv_power_impl(3, n, roundup);
                self.idiv_power_impl(3, n, roundup);
            },
            10 => {
                self.idiv_power_impl(5, n, roundup);
                self.idiv_pow2(n);
            },
            11 => self.idiv_power_impl(11, n, roundup),
            12 => {
                self.idiv_power_impl(3, n, roundup);
                self.idiv_pow2(2 * n);
            },
            13 => self.idiv_power_impl(13, n, roundup),
            14 => {
                self.idiv_power_impl(7, n, roundup);
                self.idiv_pow2(n);
            },
            15 => {
                self.idiv_power_impl(3, n, roundup);
                self.idiv_power_impl(5, n, roundup);
            },
            16 => self.idiv_pow2(4 * n),
            17 => self.idiv_power_impl(17, n, roundup),
            18 => {
                self.idiv_power_impl(3, n, roundup);
                self.idiv_power_impl(3, n, roundup);
                self.idiv_pow2(n);
            },
            19 => self.idiv_power_impl(19, n, roundup),
            20 => {
                self.idiv_power_impl(5, n, roundup);
                self.idiv_pow2(2 * n);
            },
            21 => {
                self.idiv_power_impl(3, n, roundup);
                self.idiv_power_impl(7, n, roundup);
            },
            22 => {
                self.idiv_power_impl(11, n, roundup);
                self.idiv_pow2(n);
            },
            23 => self.idiv_power_impl(23, n, roundup),
            24 => {
                self.idiv_power_impl(3, n, roundup);
                self.idiv_pow2(3 * n);
            },
            25 => {
                self.idiv_power_impl(5, n, roundup);
                self.idiv_power_impl(5, n, roundup);
            },
            26 => {
                self.idiv_power_impl(13, n, roundup);
                self.idiv_pow2(n);
            },
            27 => {
                self.idiv_power_impl(3, n, roundup);
                self.idiv_power_impl(3, n, roundup);
                self.idiv_power_impl(3, n, roundup);
            },
            28 => {
                self.idiv_power_impl(7, n, roundup);
                self.idiv_pow2(2 * n);
            },
            29 => self.idiv_power_impl(29, n, roundup),
            30 => {
                self.idiv_power_impl(3, n, roundup);
                self.idiv_power_impl(5, n, roundup);
                self.idiv_pow2(n);
            },
            31 => self.idiv_power_impl(31, n, roundup),
            32 => self.idiv_pow2(5 * n),
            33 => {
                self.idiv_power_impl(3, n, roundup);
                self.idiv_power_impl(11, n, roundup);
            },
            34 => {
                self.idiv_power_impl(17, n, roundup);
                self.idiv_pow2(n);
            },
            35 => {
                self.idiv_power_impl(5, n, roundup);
                self.idiv_power_impl(7, n, roundup);
            },
            _ => {
                self.idiv_power_impl(3, n, roundup);
                self.idiv_power_impl(3, n, roundup);
                self.idiv_pow2(2 * n);
            },
        }
        proof {
            reveal_with_fuel(idiv_chain, 4);
        }
    }

    /// Estimate the binary exponent for the normalized value times
    /// `base^exponent`, converting the power as if by
    /// `ceil(log(base^exponent, 2))`.
    pub fn binary_exponent(&self, base: u32, exponent: i32) -> (r: i32)
        requires
            2 <= base <= 36,
            self.exp_spec() == 0,
        ensures
            r == bigfloat_binary_exponent_spec(self.limbs(), base as nat, exponent as int),
    {
        if exponent > 0x18c23246 {
            i32::MAX
        } else if exponent < -0x18c23246 {
            -i32::MAX
        } else {
            let binary_exp = crate::exponent::binary_exponent(base, exponent);
            let data = limbs_to_vec(&self.data);
            let lz = crate::math::small::leading_zeros(data.as_slice());
            let bits: u128 = (data.len() as u128) * 32;
            let storage_exp: i64 = if bits > 0x7fff_ffff {
                0x7fff_ffff
            } else {
                (bits - lz as u128) as i64
            };
            let v: i64 = binary_exp as i64 + storage_exp;
            if v > 0x7fff_ffff {
                i32::MAX
            } else {
                v as i32
            }
        }
    }

    // FROM BYTES

    /// Initialize Bigfloat from bytes with custom base.
    ///
    /// A positive exponent is applied exactly by multiplication; a negative
    /// one by division after padding the buffer, rounded to nearest; an
    /// estimated binary exponent beyond the float's practical range
    /// saturates the exponent. A power-of-two base has no odd factor to
    /// divide by, so it needs no padding: the division only lowers the
    /// exponent. The input must not be so long that the exponents overflow.
    pub fn from_bytes<F: FloatMaxExponent>(base: u32, bytes: &[u8]) -> (r: (Bigfloat, usize))
        requires
            2 <= base <= 36,
            bytes@.len() <= 0x200_0000,
        ensures
            ({
                let p = float_parse_spec(bytes@, 0, base as nat);
                let sc = scale_spec(p.0, p.1, base as nat, F::max_binary_exponent_spec());
                &&& r.1 == p.2
                &&& value(r.0.limbs()) == sc.0
                &&& r.0.exp_spec() == sc.1
                &&& is_normalized(r.0.limbs())
            }),
    {
        let (mut bigfloat, exponent, end) = parse_float(base, bytes, 0);
        let ghost v = value(bigfloat.limbs());
        let ghost b = base as nat;
        let ghost len = bytes@.len();
        proof {
            crate::limbs::lemma_normalized_is_limbs_of(bigfloat.limbs());
            lemma_mantissa_parse_bound(bytes@, b);
            lemma_limbs_len_bound(v, len);
            lemma_binary_factor_bounds(b);
        }
        let max_binary_exponent = F::max_binary_exponent();
        let binary_exponent = bigfloat.binary_exponent(base, exponent);
        let ghost m = bigfloat.limbs();
        let ghost storage: int = limb_bits(m) as int;
        proof {
            assert(storage <= 32 * m.len());
            assert(32 * m.len() <= i32::MAX);
        }
        if exponent == 0 {
        } else if binary_exponent > max_binary_exponent {
            bigfloat.exp = i32::MAX;
        } else if binary_exponent < -max_binary_exponent {
            bigfloat.exp = i32::MIN;
        } else if exponent > 0 {
            let ghost a = pow2_part(b);
            let ghost f = crate::exponent::binary_factor_spec(b);
            proof {
                let e = exponent as nat;
                let one: nat = 0x1_0000_0000;
                assert(exponent <= 0x18c23246);
                let q: int = (e * f + one - 1) / (one as int);
                assert(e * (a * one) <= e * f) by (nonlinear_arith)
                    requires
                        f >= one * a,
                ;
                assert((e * a) * one == e * (a * one)) by (nonlinear_arith);
                vstd::arithmetic::div_mod::lemma_div_is_ordered(
                    ((e * a) * one) as int,
                    (e * f + one - 1) as int,
                    one as int,
                );
                vstd::arithmetic::div_mod::lemma_div_multiples_vanish((e * a) as int, one as int);
                assert(q >= e * a);
                assert(binary_exponent_spec(b, exponent as int) == crate::exponent::clamp_i32(q));
                assert(a * e <= max_binary_exponent);
            }
            bigfloat.imul_power(exponent as u32, base);
        } else {
            let ghost a = pow2_part(b);
            let ghost f = crate::exponent::binary_factor_spec(b);
            let n = (-(exponent as i64)) as u32;
            proof {
                let one: nat = 0x1_0000_0000;
                assert(exponent >= -0x18c23246);
                let nn = n as nat;
                let q: int = (nn * f + one - 1) / (one as int);
                assert(nn * f <= 0x18c23246 * 22204658804) by (nonlinear_arith)
                    requires
                        nn <= 0x18c23246,
                        f <= 22204658804,
                ;
                vstd::arithmetic::div_mod::lemma_div_is_ordered(
                    (nn * f + one - 1) as int,
                    (0x18c23246nat * 22204658804 + one - 1) as int,
                    one as int,
                );
                assert(q <= 2147483644);
                assert(binary_exponent_spec(b, exponent as int) == -q);
                assert(nn * one <= nn * f) by (nonlinear_arith)
                    requires
                        f >= one,
                ;
                vstd::arithmetic::div_mod::lemma_div_is_ordered(
                    (nn * one) as int,
                    (nn * f + one - 1) as int,
                    one as int,
                );
                vstd::arithmetic::div_mod::lemma_div_multiples_vanish(nn as int, one as int);
                assert(nn <= q);
                assert(nn < 0x1000_0000);
                let pb = padded_bits_spec(b, nn);
                assert(pb <= (nn * 55 + 569) / 10) by (nonlinear_arith)
                    requires
                        pb == (if (nn * padded_slope(b) + 10 * padded_intercept(b) + 9) / 10
                            > u32::MAX {
                            u32::MAX as nat
                        } else {
                            (nn * padded_slope(b) + 10 * padded_intercept(b) + 9) / 10
                        }),
                        padded_slope(b) <= 55,
                        padded_intercept(b) <= 56,
                        nn < 0x1000_0000,
                ;
                assert(pb <= 1480000000) by (nonlinear_arith)
                    requires
                        pb <= (nn * 55 + 569) / 10,
                        nn < 0x1000_0000,
                ;
                assert(pad_count(m, (pb + 31) / 32) <= (pb + 31) / 32);
                assert(a <= 5);
                assert(a * nn <= 5 * 0x1000_0000) by (nonlinear_arith)
                    requires
                        a <= 5,
                        nn < 0x1000_0000,
                ;
            }
            let pow2 = base == 2 || base == 4 || base == 8 || base == 16 || base == 32;
            if !pow2 {
                bigfloat.pad_division(n, base);
            }
            proof {
                let c: nat = if is_pow2_base(b) {
                    0
                } else {
                    pad_count(m, ((padded_bits_spec(b, n as nat) + 31) / 32) as nat)
                };
                crate::limbs::lemma_value_prepend_zeros(m, c);
                crate::limbs::lemma_big_pow_pos(c);
                if c == 0 {
                    assert(big_pow(0) == 1);
                    assert(v * 1 == v);
                } else if m.len() == 0 {
                    assert(v == 0);
                    assert(0 * big_pow(c) == 0) by (nonlinear_arith);
                }
                assert(value(bigfloat.limbs()) == v * big_pow(c)) by (nonlinear_arith)
                    requires
                        value(bigfloat.limbs()) == v * big_pow(c) || value(bigfloat.limbs())
                            == big_pow(c) * v,
                ;
            }
            bigfloat.idiv_power(n, base, true);
        }
        (bigfloat, end)
    }

    // TO FLOAT

    /// Get the most 64-bits of the mantissa and if non-zero bits are truncated.
    ///
    /// The leading bit of the mantissa lands at bit 63 of the result.
    pub fn mantissa(&self) -> (r: (u64, bool))
        requires
            is_normalized(self.limbs()),
        ensures
            r.0 as nat == mantissa_spec(self.limbs()).0,
            r.1 == mantissa_spec(self.limbs()).1,
            self.limbs().len() > 0 ==> r.0 >= 0x8000_0000_0000_0000u64,
            self.limbs().len() == 0 ==> r.0 == 0,
    {
        let data = limbs_to_vec(&self.data);
        let ghost s = data@;
        let len = data.len();
        if len == 0 {
            proof {
                assert(value(s) == 0);
                assert(0 * pow2n(64) == 0);
            }
            return (0, false);
        }
        let top = data[len - 1];
        let lz = top.leading_zeros();
        let u32_shift = lz as u64;
        let r0 = top as u64;
        if len == 1 {
            let v = r0 << (u32_shift + 32);
            proof {
                lemma_mantissa_bits(top, 0, 0);
                assert(s =~= seq![top]);
                crate::limbs::lemma_value_single(top);
                assert((64 - limb_bits(s)) as nat == (lz + 32) as nat);
            }
            return (v, false);
        }
        let next = data[len - 2];
        let v0 = r0 << (u32_shift + 32);
        let v1 = (next as u64) << u32_shift;
        if len == 2 {
            proof {
                lemma_mantissa_bits(top, next, 0);
                lemma_value_two(s);
                lemma_pow2n_add(lz as nat, 32);
                lemma_pow2n_32();
                assert((64 - limb_bits(s)) as nat == lz as nat);
                let h = pow2n(lz as nat);
                assert(((next as nat) + (top as nat) * limb_base()) * h == (next as nat) * h
                    + (top as nat) * (h * limb_base())) by (nonlinear_arith);
            }
            return (v0 | v1, false);
        }
        let low = data[len - 3];
        let v2 = (low as u64) >> (32 - u32_shift);
        let v = v0 | v1 | v2;
        proof {
            lemma_mantissa_bits(top, next, low);
            lemma_mantissa_long(s);
            lemma_value_zero_all(s.take(len - 3));
        }
        if (low << lz) != 0 {
            return (v, true);
        }
        let mut i: usize = 0;
        while i < len - 3
            invariant
                s == data@,
                len == s.len(),
                len >= 3,
                i <= len - 3,
                forall|j: int| 0 <= j < i ==> s[j] == 0,
                s == self.limbs(),
                v >= 0x8000_0000_0000_0000u64,
                v as nat == mantissa_spec(s).0,
                mantissa_spec(s).1 == (value(s.take(len - 3)) != 0),
                (value(s.take(len - 3)) == 0) == (forall|j: int|
                    0 <= j < s.take(len - 3).len() ==> #[trigger] s.take(len - 3)[j] == 0),
            decreases len - 3 - i,
        {
            if data[i] != 0 {
                proof {
                    assert(s.take(len - 3)[i as int] != 0);
                }
                return (v, true);
            }
            i += 1;
        }
        proof {
            let low_limbs = s.take(len - 3);
            assert forall|j: int| 0 <= j < low_limbs.len() implies #[trigger] low_limbs[j] == 0 by {
                assert(low_limbs[j] == s[j]);
            }
        }
        (v, false)
    }
}

/// The mantissa's value, the exponent in `base` (less the digits past the
/// dot, saturating), and the position after the float read from `s` at
/// `pos`.
pub open spec fn float_parse_spec(s: Seq<u8>, pos: nat, base: nat) -> (nat, int, nat) {
    let m = mantissa_parse_spec(s, pos, base);
    let e = parse_exponent_spec(s, m.2, base);
    (m.0, normalize_exponent_spec(e.0, m.1, 0), e.1)
}

/// The estimated binary exponent of a mantissa times `base^exponent`: the
/// binary exponent of the power plus the bits of the mantissa, saturating
/// at `i32::MAX`; exponents beyond `+-0x18c23246` give `+-i32::MAX`.
pub open spec fn bigfloat_binary_exponent_spec(s: Seq<u32>, base: nat, exponent: int) -> int {
    if exponent > 0x18c23246 {
        i32::MAX as int
    } else if exponent < -0x18c23246 {
        -(i32::MAX as int)
    } else {
        let be = binary_exponent_spec(base, exponent);
        let storage: int = if 32 * s.len() > i32::MAX {
            i32::MAX as int
        } else {
            limb_bits(s) as int
        };
        if be + storage > i32::MAX {
            i32::MAX as int
        } else {
            be + storage
        }
    }
}

// PARSE MANTISSA

/// The mantissa `digits[.digits]` read from `s` at `pos`: its value with
/// the dot ignored, the number of digits after the dot, and the position
/// after it. A dot without digits after it is read too.
pub open spec fn mantissa_parse_spec(s: Seq<u8>, pos: nat, base: nat) -> (nat, nat, nat) {
    let int_end = digits_end(s, pos, base);
    let int_value = digits_value(s, pos as int, int_end as int, base);
    if int_end < s.len() && s[int_end as int] == 46u8 {
        let frac_start = int_end + 1;
        let frac_end = digits_end(s, frac_start, base);
        (
            int_value * powi(base, (frac_end - frac_start) as nat) + digits_value(
                s,
                frac_start as int,
                frac_end as int,
                base,
            ),
            (frac_end - frac_start) as nat,
            frac_end,
        )
    } else {
        (int_value, 0, int_end)
    }
}


/// Parse digits into a bigfloat, starting at `pos`; returns the position
/// after the run of digits.
///
/// Takes the digits in steps of the largest count whose value always fits
/// in a `u32`, to keep the big-integer operations few.
pub fn parse_digits(bigfloat: &mut Bigfloat, bytes: &[u8], pos: usize, base: u32) -> (end: usize)
    requires
        2 <= base <= 36,
        pos <= bytes@.len(),
    ensures
        pos <= end <= bytes@.len(),
        end == digits_end(bytes@, pos as nat, base as nat),
        value(final(bigfloat).limbs()) == value(old(bigfloat).limbs()) * powi(
            base as nat,
            (end - pos) as nat,
        ) + digits_value(bytes@, pos as int, end as int, base as nat),
        is_normalized(old(bigfloat).limbs()) ==> is_normalized(final(bigfloat).limbs()),
        final(bigfloat).exp_spec() == old(bigfloat).exp_spec(),
{
    let ghost s = bytes@;
    let ghost b = base as nat;
    let ghost v0 = value(old(bigfloat).limbs());
    let small_powers = get_small_powers(base);
    let step = small_powers.len() - 2;
    let len = bytes.len();
    let mut p = pos;
    let mut done = false;
    proof {
        assert(powi(b, 0) == 1);
        assert(v0 * 1 == v0);
        assert(digits_value(s, pos as int, pos as int, b) == 0);
    }
    while !done
        invariant
            s == bytes@,
            len == s.len(),
            2 <= base <= 36,
            b == base,
            is_small_powers_table(b, small_powers@),
            small_powers@.len() == small_powers_len(b),
            step == small_powers@.len() - 2,
            step >= 1,
            pos <= p <= len,
            forall|k: int| pos <= k < p ==> is_digit(#[trigger] s[k], b),
            done ==> (p == len || !is_digit(s[p as int], b)),
            value(bigfloat.limbs()) == v0 * powi(b, (p - pos) as nat) + digits_value(
                s,
                pos as int,
                p as int,
                b,
            ),
            is_normalized(old(bigfloat).limbs()) ==> is_normalized(bigfloat.limbs()),
            bigfloat.exp_spec() == old(bigfloat).exp_spec(),
        decreases len - p + (if done {
            0int
        } else {
            1int
        }),
    {
        let f = p;
        let l = if len - f < step {
            len
        } else {
            f + step
        };
        let mut value: u32 = 0;
        proof {
            assert(digits_value(s, f as int, f as int, b) == 0);
            assert(powi(b, 0) == 1);
        }
        while p < l && char_to_digit(bytes[p]) < base
            invariant
                s == bytes@,
                len == s.len(),
                2 <= base <= 36,
                b == base,
                is_small_powers_table(b, small_powers@),
                step == small_powers@.len() - 2,
                f <= p <= l <= len,
                l - f <= step,
                forall|k: int| f <= k < p ==> is_digit(#[trigger] s[k], b),
                value == digits_value(s, f as int, p as int, b),
                (value as nat) < powi(b, (p - f) as nat),
            decreases l - p,
        {
            let d = char_to_digit(bytes[p]);
            proof {
                assert(small_powers@[(p - f + 1) as int] == powi(b, (p - f + 1) as nat));
                let q = powi(b, (p - f) as nat);
                assert(powi(b, (p - f + 1) as nat) == b * q);
                assert((value as nat) * b + (d as nat) < b * q) by (nonlinear_arith)
                    requires
                        (value as nat) < q,
                        (d as nat) < b,
                ;
                assert(digits_value(s, f as int, p + 1, b) == digits_value(s, f as int, p as int, b)
                    * b + digit_value(s[p as int]));
            }
            value = value * base + d;
            p += 1;
        }
        let digits = p - f;
        proof {
            crate::digits::lemma_digits_value_concat(s, pos as int, f as int, p as int, b);
            assert(small_powers@[digits as int] == powi(b, digits as nat));
            crate::limbs::lemma_powi_add(b, (f - pos) as nat, digits as nat);
            assert((p - pos) as nat == (f - pos) as nat + digits as nat);
            let a = powi(b, (f - pos) as nat);
            let c = powi(b, digits as nat);
            let w = digits_value(s, pos as int, f as int, b);
            assert((v0 * a + w) * c == v0 * (a * c) + w * c) by (nonlinear_arith);
            crate::limbs::lemma_powi_pos(b, digits as nat);
        }
        bigfloat.imul_small(small_powers[digits]);
        if value != 0 {
            bigfloat.iadd_small(value);
        }
        if digits != step {
            done = true;
        }
    }
    proof {
        crate::digits::lemma_digits_end(s, pos as nat, p as nat, b);
    }
    p
}

/// Skip the `0` characters from `pos` on.
fn skip_zeros(bytes: &[u8], pos: usize) -> (end: usize)
    requires
        pos <= bytes@.len(),
    ensures
        pos <= end <= bytes@.len(),
        forall|k: int| pos <= k < end ==> #[trigger] bytes@[k] == 48u8,
        end == bytes@.len() || bytes@[end as int] != 48u8,
{
    let mut p = pos;
    while p < bytes.len() && bytes[p] == 48
        invariant
            pos <= p <= bytes@.len(),
            forall|k: int| pos <= k < p ==> #[trigger] bytes@[k] == 48u8,
        decreases bytes@.len() - p,
    {
        p += 1;
    }
    p
}

/// A run of digits read after some zero digits is the run read from before
/// them, with the same value.
proof fn lemma_digits_after_zeros(s: Seq<u8>, pos: nat, p: nat, base: nat)
    requires
        2 <= base <= 36,
        pos <= p <= s.len(),
        forall|k: int| pos <= k < p ==> #[trigger] s[k] == 48u8,
    ensures
        digits_end(s, pos, base) == digits_end(s, p, base),
        digits_value(s, pos as int, digits_end(s, p, base) as int, base) == digits_value(
            s,
            p as int,
            digits_end(s, p, base) as int,
            base,
        ),
{
    crate::digits::lemma_digits_end_bounds(s, p, base);
    let e = digits_end(s, p, base);
    assert forall|k: int| pos <= k < e implies is_digit(#[trigger] s[k], base) by {
        if k < p {
            assert(s[k] == 48u8);
        }
    }
    crate::digits::lemma_digits_end(s, pos, e, base);
    crate::digits::lemma_digits_value_leading_zeros(s, pos as int, p as int, e as int, base);
}

/// Parse the mantissa into a bigfloat, starting at `pos`.
///
/// Returns the number of digits parsed after the period, and the position
/// after the mantissa. Leading zeros are skipped before any big-integer
/// operation.
pub fn parse_mantissa(bigfloat: &mut Bigfloat, bytes: &[u8], pos: usize, base: u32) -> (r: (
    usize,
    usize,
))
    requires
        2 <= base <= 36,
        pos <= bytes@.len(),
        old(bigfloat).limbs().len() == 0,
    ensures
        value(final(bigfloat).limbs()) == mantissa_parse_spec(bytes@, pos as nat, base as nat).0,
        r.0 == mantissa_parse_spec(bytes@, pos as nat, base as nat).1,
        r.1 == mantissa_parse_spec(bytes@, pos as nat, base as nat).2,
        is_normalized(final(bigfloat).limbs()),
        final(bigfloat).exp_spec() == old(bigfloat).exp_spec(),
{
    let ghost s = bytes@;
    let ghost b = base as nat;
    proof {
        assert(value(old(bigfloat).limbs()) == 0);
    }
    let start = skip_zeros(bytes, pos);
    let p = parse_digits(bigfloat, bytes, start, base);
    proof {
        lemma_digits_after_zeros(s, pos as nat, start as nat, b);
        assert(0 * powi(b, (p - start) as nat) == 0) by (nonlinear_arith);
        crate::limbs::lemma_value_zero_iff_empty(bigfloat.limbs());
    }
    if p < bytes.len() && bytes[p] == 46 {
        let first = p + 1;
        let ghost int_value = value(bigfloat.limbs());
        let frac = if bigfloat.limbs_empty() {
            skip_zeros(bytes, first)
        } else {
            first
        };
        let end = parse_digits(bigfloat, bytes, frac, base);
        proof {
            lemma_digits_after_zeros(s, first as nat, frac as nat, b);
            crate::limbs::lemma_powi_pos(b, (end - frac) as nat);
            if frac != first {
                assert(int_value == 0);
                assert(0 * powi(b, (end - frac) as nat) == 0) by (nonlinear_arith);
                assert(0 * powi(b, (end - first) as nat) == 0) by (nonlinear_arith);
            }
        }
        (end - first, end)
    } else {
        (0, p)
    }
}

/// Parse the mantissa and exponent from a string, starting at `pos`.
///
/// Returns the mantissa, the exponent in `base` and the position after the
/// float.
pub fn parse_float(base: u32, bytes: &[u8], pos: usize) -> (r: (Bigfloat, i32, usize))
    requires
        2 <= base <= 36,
        pos <= bytes@.len(),
    ensures
        value(r.0.limbs()) == float_parse_spec(bytes@, pos as nat, base as nat).0,
        r.1 == float_parse_spec(bytes@, pos as nat, base as nat).1,
        r.2 == float_parse_spec(bytes@, pos as nat, base as nat).2,
        is_normalized(r.0.limbs()),
        r.0.exp_spec() == 0,
{
    let mut bigfloat = Bigfloat::new();
    let (fraction_digits, p) = parse_mantissa(&mut bigfloat, bytes, pos, base);
    proof {
        crate::digits::lemma_digits_end_bounds(bytes@, pos as nat, base as nat);
        let ie = digits_end(bytes@, pos as nat, base as nat);
        if ie < bytes@.len() && bytes@[ie as int] == 46u8 {
            crate::digits::lemma_digits_end_bounds(bytes@, ie + 1, base as nat);
        }
    }
    let (raw_exponent, end) = parse_exponent(bytes, p, base);
    let exponent = normalize_exponent(raw_exponent, fraction_digits, 0);
    (bigfloat, exponent, end)
}

/// The mantissa read from `s` is below `2^(6 len)`: each digit carries
/// less than 6 bits.
proof fn lemma_mantissa_parse_bound(s: Seq<u8>, base: nat)
    requires
        2 <= base <= 36,
    ensures
        mantissa_parse_spec(s, 0, base).0 < pow2n(6 * s.len()),
{
    crate::digits::lemma_digits_end_bounds(s, 0, base);
    let ie = digits_end(s, 0, base);
    crate::digits::lemma_digits_value_bound(s, 0, ie as int, base);
    let iv = digits_value(s, 0, ie as int, base);
    let mut k: nat = ie;
    if ie < s.len() && s[ie as int] == 46u8 {
        let fs = ie + 1;
        crate::digits::lemma_digits_end_bounds(s, fs, base);
        let fe = digits_end(s, fs, base);
        crate::digits::lemma_digits_value_bound(s, fs as int, fe as int, base);
        let fv = digits_value(s, fs as int, fe as int, base);
        let fl = (fe - fs) as nat;
        let pi = powi(base, ie);
        let pf = powi(base, fl);
        assert(iv * pf + fv < pi * pf) by (nonlinear_arith)
            requires
                iv < pi,
                fv < pf,
        ;
        crate::limbs::lemma_powi_add(base, ie, fl);
        k = ie + fl;
    }
    crate::limbs::lemma_powi_mono_exp(base, k, s.len());
    crate::limbs::lemma_powi_mono_base(base, 64, s.len());
    crate::limbs::lemma_powi_64(s.len());
}

/// A number below `2^(6 len)` has at most `6 len / 32 + 1` limbs.
proof fn lemma_limbs_len_bound(v: nat, len: nat)
    requires
        v < pow2n(6 * len),
    ensures
        32 * limbs_of(v).len() <= 6 * len + 32,
{
    crate::limbs::lemma_limbs_of(v);
    let m = limbs_of(v);
    if m.len() > 0 {
        crate::limbs::lemma_value_lower_bound(m);
        lemma_big_pow_pow2n((m.len() - 1) as nat);
        crate::limbs::lemma_pow2n_strict((32 * (m.len() - 1)) as nat, 6 * len);
    }
}

/// Bounds on the fixed-point `log2(base)`: at least the power of two in
/// the base, and at least one.
proof fn lemma_binary_factor_bounds(b: nat)
    requires
        2 <= b <= 36,
    ensures
        crate::exponent::binary_factor_spec(b) >= 0x1_0000_0000 * pow2_part(b),
        crate::exponent::binary_factor_spec(b) >= 0x1_0000_0000,
        crate::exponent::binary_factor_spec(b) <= 22204658804,
{
}

/// A float read from `pos` ends within the bytes, at or after `pos`.
pub proof fn lemma_float_parse_end(s: Seq<u8>, pos: nat, base: nat)
    requires
        pos <= s.len(),
    ensures
        pos <= float_parse_spec(s, pos, base).2 <= s.len(),
{
    crate::digits::lemma_digits_end_bounds(s, pos, base);
    let ie = digits_end(s, pos, base);
    if ie < s.len() && s[ie as int] == 46u8 {
        crate::digits::lemma_digits_end_bounds(s, ie + 1, base);
    }
    let m = mantissa_parse_spec(s, pos, base);
    let p = m.2;
    if p < s.len() && crate::exponent::to_lower(s[p as int]) == crate::exponent::exponent_char(
        base,
    ) {
        let q: nat = if p + 1 < s.len() && (s[(p + 1) as int] == 45u8 || s[(p + 1) as int] == 43u8) {
            p + 2
        } else {
            p + 1
        };
        crate::digits::lemma_digits_end_bounds(s, q, base);
    }
}

/// Bit facts on the three top limbs of a mantissa, shifted into 64 bits.
proof fn lemma_mantissa_bits(r0: u32, r1: u32, r2: u32)
    requires
        r0 != 0,
    ensures
        ({
            let lz = r0.leading_zeros();
            let v0 = (r0 as u64) << ((lz + 32) as u64);
            let v1 = (r1 as u64) << (lz as u64);
            let v2 = (r2 as u64) >> ((32 - lz) as u64);
            &&& lz < 32
            &&& v0 as nat == r0 * pow2n((lz + 32) as nat)
            &&& v1 as nat == r1 * pow2n(lz as nat)
            &&& v2 as nat == (r2 as nat) / pow2n((32 - lz) as nat)
            &&& (v0 | v1) as nat == v0 + v1
            &&& (v0 | v1 | v2) as nat == v0 + v1 + v2
            &&& v0 >= 0x8000_0000_0000_0000u64
            &&& ((r2 << lz) != 0) == (r2 as nat % pow2n((32 - lz) as nat) != 0)
        }),
{
    lemma_leading_zeros_bounds(r0);
    let lz = r0.leading_zeros();
    let l = lz as u64;
    let a = r0 as u64;
    let b = r1 as u64;
    let c = r2 as u64;
    lemma_pow2n_add((31 - lz) as nat, (lz + 32) as nat);
    lemma_pow2n_add((32 - lz) as nat, (lz + 32) as nat);
    assert((31 - lz) as nat + (lz + 32) as nat == 63);
    assert((32 - lz) as nat + (lz + 32) as nat == 64);
    lemma_pow2n_pos((lz + 32) as nat);
    let p = pow2n((lz + 32) as nat);
    assert(pow2n(64) == 0x1_0000_0000_0000_0000nat) by {
        lemma_pow2n_add(32, 32);
        lemma_pow2n_32();
    }
    assert(pow2n(63) == 0x8000_0000_0000_0000nat) by {
        assert(pow2n(64) == 2 * pow2n(63));
    }
    assert(a * p < pow2n(64)) by (nonlinear_arith)
        requires
            (a as nat) < pow2n((32 - lz) as nat),
            pow2n((32 - lz) as nat) * p == pow2n(64),
            p > 0,
    ;
    assert(a * p >= pow2n(63)) by (nonlinear_arith)
        requires
            (a as nat) >= pow2n((31 - lz) as nat),
            pow2n((31 - lz) as nat) * p == pow2n(63),
            p > 0,
    ;
    lemma_u64_shl(a, (l + 32) as u64);
    lemma_pow2n_add(lz as nat, 32);
    lemma_pow2n_32();
    lemma_pow2n_pos(lz as nat);
    lemma_pow2n_mono((lz + 32) as nat, 64);
    assert(b * pow2n(lz as nat) <= u64::MAX) by (nonlinear_arith)
        requires
            (b as nat) < limb_base(),
            pow2n(lz as nat) * limb_base() == pow2n((lz + 32) as nat),
            pow2n((lz + 32) as nat) <= pow2n(64),
            pow2n(64) == 0x1_0000_0000_0000_0000nat,
    ;
    lemma_pow2n_mono((lz + 32) as nat, 64);
    lemma_u64_shl(b, l);
    lemma_u64_shr(c, (32 - l) as u64);
    let s1 = (l + 32) as u64;
    let s2 = (32 - l) as u64;
    assert(((a << s1) | (b << l)) == (a << s1) + (b << l) && ((a << s1) | (b << l) | (c >> s2))
        == (a << s1) + (b << l) + (c >> s2)) by (bit_vector)
        requires
            b < 0x1_0000_0000u64,
            c < 0x1_0000_0000u64,
            l < 32,
            s1 == l + 32,
            s2 == 32 - l,
    ;
    if lz == 0 {
        assert(r2 << 0u32 == r2) by (bit_vector);
        lemma_pow2n_32();
        vstd::arithmetic::div_mod::lemma_small_mod(r2 as nat, limb_base());
    } else {
        let k = (32 - lz) as u32;
        assert(((r2 << lz) == 0u32) == (((r2 >> k) << k) == r2)) by (bit_vector)
            requires
                0 < lz < 32,
                k == 32 - lz,
        ;
        lemma_u32_shr(r2, k);
        lemma_pow2n_pos(k as nat);
        let q = (r2 >> k);
        assert((q as nat) * pow2n(k as nat) <= r2) by {
            vstd::arithmetic::div_mod::lemma_fundamental_div_mod(r2 as int, pow2n(k as nat) as int);
            assert(q as nat * pow2n(k as nat) == pow2n(k as nat) * (r2 as nat / pow2n(k as nat)))
                by (nonlinear_arith)
                requires
                    q as nat == r2 as nat / pow2n(k as nat),
            ;
        }
        lemma_pow2n_is_pow2(k as nat);
        vstd::bits::lemma_u32_shl_is_mul(q, k);
        let p = pow2n(k as nat);
        vstd::arithmetic::div_mod::lemma_fundamental_div_mod(r2 as int, p as int);
        assert((q << k) as nat == (q as nat) * p);
        assert(r2 as nat == p * (q as nat) + (r2 as nat) % p);
        assert(p * (q as nat) == (q as nat) * p) by (nonlinear_arith);
    }
    let v0 = (r0 as u64) << ((lz + 32) as u64);
    let v1 = (r1 as u64) << (lz as u64);
    let v2 = (r2 as u64) >> ((32 - lz) as u64);
    assert(v0 as nat == r0 * pow2n((lz + 32) as nat));
    assert(v1 as nat == r1 * pow2n(lz as nat));
    assert(v2 as nat == (r2 as nat) / pow2n((32 - lz) as nat));
    assert((v0 | v1) as nat == v0 + v1);
    assert((v0 | v1 | v2) as nat == v0 + v1 + v2);
    assert(v0 >= 0x8000_0000_0000_0000u64);
    assert(((r2 << lz) != 0) == (r2 as nat % pow2n((32 - lz) as nat) != 0));
}

/// The mantissa of a buffer of at least three limbs, from its three top
/// limbs and the limbs below them.
proof fn lemma_mantissa_long(s: Seq<u32>)
    requires
        s.len() >= 3,
        s.last() != 0,
    ensures
        ({
            let k = (s.len() - 3) as int;
            let r0 = s[k + 2];
            let r1 = s[k + 1];
            let r2 = s[k];
            let lz = r0.leading_zeros();
            &&& mantissa_spec(s).0 == r0 * pow2n((lz + 32) as nat) + r1 * pow2n(lz as nat) + (
            r2 as nat) / pow2n((32 - lz) as nat)
            &&& mantissa_spec(s).1 == ((r2 as nat) % pow2n((32 - lz) as nat) != 0 || value(
                s.take(k),
            ) != 0)
        }),
{
    let k = (s.len() - 3) as int;
    let r0 = s[k + 2];
    let r1 = s[k + 1];
    let r2 = s[k];
    lemma_leading_zeros_bounds(r0);
    let lz = r0.leading_zeros();
    let top = s.skip(k);
    let low = s.take(k);
    lemma_value_split(s, k);
    lemma_value_three(top);
    lemma_value_bound(low);
    let b = limb_base();
    let pk = big_pow(k as nat);
    let m = pow2n((32 - lz) as nat);
    let h = pow2n(lz as nat);
    let rr = value(low);
    let t = value(top);
    lemma_pow2n_add((32 - lz) as nat, lz as nat);
    lemma_pow2n_add(lz as nat, 32);
    lemma_pow2n_32();
    lemma_pow2n_pos((32 - lz) as nat);
    lemma_pow2n_pos(lz as nat);
    lemma_big_pow_pos(k as nat);
    // t = m * q + r2 % m
    let q = (r0 as nat) * (h * b) + (r1 as nat) * h + (r2 as nat) / m;
    vstd::arithmetic::div_mod::lemma_fundamental_div_mod(r2 as int, m as int);
    vstd::arithmetic::div_mod::lemma_mod_bound(r2 as int, m as int);
    assert(t == m * q + (r2 as nat) % m) by (nonlinear_arith)
        requires
            t == r2 + b * r1 + b * b * r0,
            b == m * h,
            r2 == m * ((r2 as nat) / m) + (r2 as nat) % m,
            q == (r0 as nat) * (h * b) + (r1 as nat) * h + (r2 as nat) / m,
    ;
    // value(s) = (pk * m) * q + (pk * (r2 % m) + rr)
    let c = (r2 as nat) % m;
    let rem = pk * c + rr;
    assert(pk * t == (pk * m) * q + pk * c) by (nonlinear_arith)
        requires
            t == m * q + c,
    ;
    assert(value(s) == (pk * m) * q + rem);
    assert(pk * c <= pk * (m - 1)) by (nonlinear_arith)
        requires
            c < m,
    ;
    assert(pk * (m - 1) == pk * m - pk) by (nonlinear_arith);
    assert(rem < pk * m);
    if c != 0 {
        assert(pk * c >= pk) by (nonlinear_arith)
            requires
                c >= 1,
        ;
    } else {
        assert(pk * c == 0) by (nonlinear_arith)
            requires
                c == 0,
        ;
    }
    // 2^(bits - 64) == pk * m
    let l = limb_bits(s);
    assert(l == 32 * (k + 3) - lz);
    assert((l - 64) as nat == 32 * (k as nat) + (32 - lz) as nat);
    lemma_pow2n_add(32 * (k as nat), (32 - lz) as nat);
    lemma_big_pow_pow2n(k as nat);
    assert(pow2n((l - 64) as nat) == pk * m);
    assert(pk * m > 0) by (nonlinear_arith)
        requires
            pk > 0,
            m > 0,
    ;
    lemma_div_mod_unique(value(s), pk * m, q, rem);
    assert(h * b == pow2n((lz + 32) as nat));
    assert((r0 as nat) * (h * b) == r0 * pow2n((lz + 32) as nat));
}



pub proof fn lemma_value_four(s: Seq<u32>)
    requires
        s.len() == 4,
    ensures
        value(s) == s[0] + s[1] * limb_base() + s[2] * (limb_base() * limb_base()) + s[3] * (
        limb_base() * limb_base() * limb_base()),
{
    let t = s.subrange(2, 4);
    lemma_value_two(t);
    crate::limbs::lemma_value_split(s, 2);
    assert(s.skip(2) =~= t);
    assert(s.take(2).len() == 2);
    lemma_value_two(s.take(2));
    crate::limbs::lemma_big_pow_add(1, 1);
    assert(big_pow(1) == limb_base()) by {
        assert(big_pow(0) == 1);
    }
    let b = limb_base();
    let a2 = s[2] as nat;
    let a3 = s[3] as nat;
    assert((b * b) * (a2 + a3 * b) == a2 * (b * b) + a3 * (b * b * b)) by (nonlinear_arith);
}

} // verus!
