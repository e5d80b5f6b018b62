//! Big-integer comparison of a halfway float against its digits.
//!
//! A string that stands for a float lies between `b` and `b+u`, where `u`
//! is one unit in the last place. Where the correct float is unclear, the
//! digits are compared with the exact digits of `b+h`, the halfway point,
//! generated on the fly.

use vstd::prelude::*;
use crate::cached::ExtendedFloat;
use crate::math::large::greater_spec;
use crate::digits::{
    digit_value, digits_value, is_digit, lemma_digits_value_bound, lemma_digits_value_concat,
    lemma_digits_value_leading_zeros,
};
use crate::bigfloat::{odd_part, pow2_part, odd_factors, mul_chain, lemma_mul_chain, Bigfloat};
use crate::limbs::{
    value, is_normalized, big_pow, pow2n, powi, zeros, lemma_normalized_len_bound,
    lemma_value_two, lemma_powi_one,
};

verus! {

// SHARED

/// Whether the mantissa can use the fast path: it has at most as many
/// digits as 128 bits hold exactly in `base`, less two for comfort.
pub open spec fn exact_digits(base: u32) -> nat {
    if base == 3 { 78 }
    else if base == 5 { 53 }
    else if base == 6 { 47 }
    else if base == 7 { 43 }
    else if base == 9 { 38 }
    else if base == 10 { 36 }
    else if base == 11 { 35 }
    else if base == 12 { 33 }
    else if base == 13 { 32 }
    else if base == 14 { 31 }
    else if base == 15 { 30 }
    else if base == 17 { 29 }
    else if base == 18 || base == 19 { 28 }
    else if base == 20 || base == 21 { 27 }
    else if base == 22 || base == 23 { 26 }
    else if base == 24 || base == 25 || base == 26 { 25 }
    else if base == 27 || base == 28 || base == 29 || base == 30 { 24 }
    else if base == 31 || base == 33 || base == 34 { 23 }
    else { 22 }
}

/// The radixes that reach the big-integer comparison: every radix from 3 to
/// 36 but the powers of two.
pub open spec fn is_bigcomp_base(base: u32) -> bool {
    3 <= base <= 36 && base != 4 && base != 8 && base != 16 && base != 32
}

/// Determine whether we can use the fast path.
///
/// We can use a faster path, with 128-bit precision integers, for most
/// borderline cases, where we have <= a certain number of digits that can
/// be represented with a 128-bit numerator and denominator.
pub fn use_fast(base: u32, mantissa_digits: usize) -> (r: bool)
    requires
        is_bigcomp_base(base),
    ensures
        r == (mantissa_digits <= exact_digits(base)),
{
    let exact_digits: usize = match base {
        3 => 78,
        5 => 53,
        6 => 47,
        7 => 43,
        9 => 38,
        10 => 36,
        11 => 35,
        12 => 33,
        13 => 32,
        14 => 31,
        15 => 30,
        17 => 29,
        18 => 28,
        19 => 28,
        20 => 27,
        21 => 27,
        22 => 26,
        23 => 26,
        24 => 25,
        25 => 25,
        26 => 25,
        27 => 24,
        28 => 24,
        29 => 24,
        30 => 24,
        31 => 23,
        33 => 23,
        34 => 23,
        35 => 22,
        _ => 22,
    };
    mantissa_digits <= exact_digits
}

/// The character that writes a digit: `0-9`, then `A-Z`.
pub open spec fn digit_char(digit: nat) -> u8 {
    if digit < 10 {
        (48 + digit) as u8
    } else {
        (55 + digit) as u8
    }
}

/// Convert a digit (below 36) to the character that writes it.
pub fn digit_to_char(digit: u32) -> (r: u8)
    requires
        digit < 36,
    ensures
        r == digit_char(digit as nat),
{
    if digit < 10 {
        (48 + digit) as u8
    } else {
        (55 + digit) as u8
    }
}

/// The number of bits a digit of `base` needs: the least `k` with
/// `2^k >= base`.
pub open spec fn integral_binary_factor_spec(base: nat) -> nat {
    if base <= 2 { 1 }
    else if base <= 4 { 2 }
    else if base <= 8 { 3 }
    else if base <= 16 { 4 }
    else if base <= 32 { 5 }
    else { 6 }
}

/// Calculate the integral binary factor of a base: the bits one digit needs.
pub fn integral_binary_factor(base: u32) -> (r: u32)
    requires
        2 <= base <= 36,
    ensures
        r == integral_binary_factor_spec(base as nat),
        pow2n((r - 1) as nat) < base <= pow2n(r as nat),
{
    proof {
        reveal_with_fuel(pow2n, 7);
    }
    if base <= 2 {
        1
    } else if base <= 4 {
        2
    } else if base <= 8 {
        3
    } else if base <= 16 {
        4
    } else if base <= 32 {
        5
    } else {
        6
    }
}

/// Calculate `b` from the bits of an `f64`: the explicit mantissa with the
/// hidden bit set for a normal float, and the binary exponent of its
/// lowest bit (a denormal has the exponent of the smallest normal).
pub fn b_from_bits(bits: u64) -> (r: ExtendedFloat<u64>)
    ensures
        ({
            let e = (bits / 0x10_0000_0000_0000) % 0x800;
            let f = bits % 0x10_0000_0000_0000;
            if e == 0 {
                r.mant == f && r.exp == -1074
            } else {
                r.mant == f + 0x10_0000_0000_0000 && r.exp == e - 1075
            }
        }),
{
    assert((bits >> 52u64) & 0x7FFu64 == (bits / 0x10_0000_0000_0000) % 0x800) by (bit_vector);
    assert(bits & 0xF_FFFF_FFFF_FFFFu64 == bits % 0x10_0000_0000_0000) by (bit_vector);
    let field = (bits >> 52u64) & 0x7FFu64;
    let frac = bits & 0xF_FFFF_FFFF_FFFFu64;
    if field == 0 {
        ExtendedFloat { mant: frac, exp: -1074 }
    } else {
        ExtendedFloat { mant: frac + 0x10_0000_0000_0000, exp: field as i32 - 1075 }
    }
}

/// Calculate `b` from the bits of an `f32`, as `b_from_bits` does for an
/// `f64`.
pub fn b_from_bits32(bits: u32) -> (r: ExtendedFloat<u64>)
    ensures
        ({
            let e = (bits / 0x80_0000) % 0x100;
            let f = bits % 0x80_0000;
            if e == 0 {
                r.mant == f && r.exp == -149
            } else {
                r.mant == f + 0x80_0000 && r.exp == e - 150
            }
        }),
{
    assert((bits >> 23u32) & 0xFFu32 == (bits / 0x80_0000) % 0x100) by (bit_vector);
    assert(bits & 0x7F_FFFFu32 == bits % 0x80_0000) by (bit_vector);
    let field = (bits >> 23u32) & 0xFFu32;
    let frac = bits & 0x7F_FFFFu32;
    if field == 0 {
        ExtendedFloat { mant: frac as u64, exp: -149 }
    } else {
        ExtendedFloat { mant: frac as u64 + 0x80_0000, exp: field as i32 - 150 }
    }
}

/// The bits of the float a halfway comparison picks, from the bits of `b`:
/// `b+u` where the digits are above `b+h`, `b` where they are below, and
/// the even one of the two on a tie.
pub fn halfway_pick(order: core::cmp::Ordering, bits: u64) -> (r: u64)
    requires
        bits < u64::MAX,
    ensures
        r == (match order {
            core::cmp::Ordering::Greater => bits + 1,
            core::cmp::Ordering::Less => bits + 0,
            core::cmp::Ordering::Equal => bits + bits % 2,
        }),
{
    match order {
        core::cmp::Ordering::Greater => bits + 1,
        core::cmp::Ordering::Less => bits,
        core::cmp::Ordering::Equal => if bits % 2 == 1 {
            bits + 1
        } else {
            bits
        },
    }
}

/// Calculate `b+h` from `b`: the point halfway to the next float.
pub fn bh(b: ExtendedFloat<u64>) -> (r: ExtendedFloat<u64>)
    requires
        b.mant < 0x8000_0000_0000_0000,
        b.exp > i32::MIN,
    ensures
        r.mant == 2 * b.mant + 1,
        r.exp == b.exp - 1,
{
    ExtendedFloat { mant: b.mant * 2 + 1, exp: b.exp - 1 }
}

// BIG INT

/// `stackvector::StackVec`: a vector that holds up to `N` items inline
/// and panics beyond. `Bigint` keeps its limbs in one of 36 slots (enough
/// for 10^345, more than the max for f64).
#[verifier::external_type_specification]
#[verifier::external_body]
#[verifier::reject_recursive_types(T)]
pub struct ExStackVec<T, const N: usize>(stackvector::StackVec<T, N>);

/// The items a stack vector of limbs holds, in order.
pub uninterp spec fn stackvec_limbs(v: stackvector::StackVec<u32, 36>) -> Seq<u32>;

/// `stackvector::StackVec::from_vec`: the stack vector holds the items of
/// the vector in the same order. It asserts that they fit in its 36 slots.
#[verifier::external_body]
fn stack_from_vec(v: Vec<u32>) -> (r: stackvector::StackVec<u32, 36>)
    requires
        v@.len() <= 36,
    ensures
        stackvec_limbs(r) == v@,
{
    stackvector::StackVec::from_vec(v)
}

/// `<[u32]>::to_vec` on the slice that `StackVec`'s `Deref` gives: a vector
/// with the same items in the same order, of which there are at most 36.
#[verifier::external_body]
fn stack_to_vec(v: &stackvector::StackVec<u32, 36>) -> (r: Vec<u32>)
    ensures
        r@ == stackvec_limbs(*v),
        r@.len() <= 36,
{
    v.to_vec()
}

/// `StackVec::clone`: a stack vector with the same items in the same
/// order.
#[verifier::external_body]
fn stack_clone(v: &stackvector::StackVec<u32, 36>) -> (r: stackvector::StackVec<u32, 36>)
    ensures
        stackvec_limbs(r) == stackvec_limbs(*v),
{
    v.clone()
}

/// Storage for a big integer type: `value(limbs) * 2^exp`.
///
/// The limbs are assumed normalized (no most-significant zero limb).
pub struct Bigint {
    /// Internal storage for the Bigint, in little-endian order.
    data: stackvector::StackVec<u32, 36>,
    /// The binary exponent, which simplifies normalizing and powers of 2.
    exp: i32,
}

impl Clone for Bigint {
    /// A copy of the integer: the same limbs and exponent.
    fn clone(&self) -> (r: Self)
        ensures
            r.limbs() == self.limbs(),
            r.exp_spec() == self.exp_spec(),
    {
        self.copy()
    }
}

/// The number of limbs a `Bigint` holds at most.
pub const BIGINT_LIMBS: usize = 36;

impl Bigint {
    /// The limbs of the integer.
    pub closed spec fn limbs(&self) -> Seq<u32> {
        stackvec_limbs(self.data)
    }

    /// The binary exponent.
    pub closed spec fn exp_spec(&self) -> int {
        self.exp as int
    }

    /// The limbs are normalized (and, as always, at most 36).
    pub open spec fn wf(&self) -> bool {
        is_normalized(self.limbs()) && self.limbs().len() <= 36
    }

    /// The integer value of the limbs.
    pub open spec fn value_spec(&self) -> nat {
        value(self.limbs())
    }

    /// A Bigint with the given limbs and binary exponent.
    pub fn from_raw_parts(data: Vec<u32>, exp: i32) -> (r: Bigint)
        requires
            data@.len() <= 36,
        ensures
            r.limbs() == data@,
            r.exp_spec() == exp,
    {
        Bigint { data: stack_from_vec(data), exp }
    }

    /// The limbs, least significant first.
    pub fn data(&self) -> (r: Vec<u32>)
        ensures
            r@ == self.limbs(),
            r@.len() <= 36,
    {
        stack_to_vec(&self.data)
    }

    /// The binary exponent.
    pub fn exp(&self) -> (r: i32)
        ensures
            r == self.exp_spec(),
    {
        self.exp
    }

    /// Create an empty (zero) Bigint.
    pub fn new() -> (r: Bigint)
        ensures
            r.limbs() == Seq::<u32>::empty(),
            r.exp_spec() == 0,
            r.wf(),
    {
        Bigint { data: stack_from_vec(Vec::new()), exp: 0 }
    }

    /// Create new big integer from u32.
    pub fn from_u32(x: u32) -> (r: Bigint)
        ensures
            r.value_spec() == x,
            r.wf(),
            r.exp_spec() == 0,
    {
        let mut v: Vec<u32> = Vec::new();
        v.push(x);
        proof {
            crate::limbs::lemma_value_single(x);
        }
        let ghost before = v@;
        crate::math::small::normalize(&mut v);
        proof {
            crate::limbs::lemma_trim(before);
        }
        Bigint { data: stack_from_vec(v), exp: 0 }
    }

    /// Create new big integer from u64.
    pub fn from_u64(x: u64) -> (r: Bigint)
        ensures
            r.value_spec() == x,
            r.wf(),
            r.exp_spec() == 0,
    {
        let (d1, d0) = crate::bigfloat::Bigfloat::split_u64(x);
        let mut v: Vec<u32> = Vec::new();
        v.push(d1);
        v.push(d0);
        proof {
            lemma_value_two(v@);
        }
        let ghost before = v@;
        crate::math::small::normalize(&mut v);
        proof {
            crate::limbs::lemma_trim(before);
        }
        Bigint { data: stack_from_vec(v), exp: 0 }
    }

    /// Create new big integer from u128.
    pub fn from_u128(x: u128) -> (r: Bigint)
        ensures
            r.value_spec() == x,
            r.wf(),
            r.exp_spec() == 0,
    {
        let (d3, d2, d1, d0) = crate::bigfloat::Bigfloat::split_u128(x);
        let mut v: Vec<u32> = Vec::new();
        v.push(d3);
        v.push(d2);
        v.push(d1);
        v.push(d0);
        proof {
            crate::bigfloat::lemma_value_four(v@);
        }
        let ghost before = v@;
        crate::math::small::normalize(&mut v);
        proof {
            crate::limbs::lemma_trim(before);
        }
        Bigint { data: stack_from_vec(v), exp: 0 }
    }

    /// Multiply by a power of 2: only the exponent changes.
    fn imul_pow2(&mut self, n: u32)
        requires
            n <= i32::MAX,
            old(self).exp_spec() + n <= i32::MAX,
        ensures
            final(self).limbs() == old(self).limbs(),
            final(self).exp_spec() == old(self).exp_spec() + n,
    {
        self.exp = self.exp + n as i32;
    }

    /// MulAssign by a power: the odd factors of the base multiply the
    /// limbs, the powers of two go into the exponent.
    pub fn imul_power(&mut self, n: u32, base: u32)
        requires
            old(self).wf(),
            2 <= base <= 36,
            pow2_part(base as nat) * n <= i32::MAX,
            old(self).exp_spec() + pow2_part(base as nat) * n <= i32::MAX,
            old(self).value_spec() * powi(odd_part(base as nat), n as nat) < big_pow(36),
        ensures
            final(self).wf(),
            final(self).value_spec() == old(self).value_spec() * powi(
                odd_part(base as nat),
                n as nat,
            ),
            final(self).exp_spec() == old(self).exp_spec() + pow2_part(base as nat) * n,
    {
        let ghost v = value(old(self).limbs());
        let mut data = stack_to_vec(&self.data);
        match base {
            2 => self.imul_pow2(n),
            3 => crate::math::small::imul_power(&mut data, 3, n),
            4 => self.imul_pow2(2 * n),
            5 => crate::math::small::imul_power(&mut data, 5, n),
            6 => {
                crate::math::small::imul_power(&mut data, 3, n);
                self.imul_pow2(n);
            },
            7 => crate::math::small::imul_power(&mut data, 7, n),
            8 => self.imul_pow2(3 * n),
            9 => {
                crate::math::small::imul_power(&mut data, 3, n);
                crate::math::small::imul_power(&mut data, 3, n);
            },
            10 => {
                crate::math::small::imul_power(&mut data, 5, n);
                self.imul_pow2(n);
            },
            11 => crate::math::small::imul_power(&mut data, 11, n),
            12 => {
                crate::math::small::imul_power(&mut data, 3, n);
                self.imul_pow2(2 * n);
            },
            13 => crate::math::small::imul_power(&mut data, 13, n),
            14 => {
                crate::math::small::imul_power(&mut data, 7, n);
                self.imul_pow2(n);
            },
            15 => {
                crate::math::small::imul_power(&mut data, 3, n);
                crate::math::small::imul_power(&mut data, 5, n);
            },
            16 => self.imul_pow2(4 * n),
            17 => crate::math::small::imul_power(&mut data, 17, n),
            18 => {
                crate::math::small::imul_power(&mut data, 3, n);
                crate::math::small::imul_power(&mut data, 3, n);
                self.imul_pow2(n);
            },
            19 => crate::math::small::imul_power(&mut data, 19, n),
            20 => {
                crate::math::small::imul_power(&mut data, 5, n);
                self.imul_pow2(2 * n);
            },
            21 => {
                crate::math::small::imul_power(&mut data, 3, n);
                crate::math::small::imul_power(&mut data, 7, n);
            },
            22 => {
                crate::math::small::imul_power(&mut data, 11, n);
                self.imul_pow2(n);
            },
            23 => crate::math::small::imul_power(&mut data, 23, n),
            24 => {
                crate::math::small::imul_power(&mut data, 3, n);
                self.imul_pow2(3 * n);
            },
            25 => {
                crate::math::small::imul_power(&mut data, 5, n);
                crate::math::small::imul_power(&mut data, 5, n);
            },
            26 => {
                crate::math::small::imul_power(&mut data, 13, n);
                self.imul_pow2(n);
            },
            27 => {
                crate::math::small::imul_power(&mut data, 3, n);
                crate::math::small::imul_power(&mut data, 3, n);
                crate::math::small::imul_power(&mut data, 3, n);
            },
            28 => {
                crate::math::small::imul_power(&mut data, 7, n);
                self.imul_pow2(2 * n);
            },
            29 => crate::math::small::imul_power(&mut data, 29, n),
            30 => {
                crate::math::small::imul_power(&mut data, 3, n);
                crate::math::small::imul_power(&mut data, 5, n);
                self.imul_pow2(n);
            },
            31 => crate::math::small::imul_power(&mut data, 31, n),
            32 => self.imul_pow2(5 * n),
            33 => {
                crate::math::small::imul_power(&mut data, 3, n);
                crate::math::small::imul_power(&mut data, 11, n);
            },
            34 => {
                crate::math::small::imul_power(&mut data, 17, n);
                self.imul_pow2(n);
            },
            35 => {
                crate::math::small::imul_power(&mut data, 5, n);
                crate::math::small::imul_power(&mut data, 7, n);
            },
            _ => {
                crate::math::small::imul_power(&mut data, 3, n);
                crate::math::small::imul_power(&mut data, 3, n);
                self.imul_pow2(2 * n);
            },
        }
        proof {
            reveal_with_fuel(mul_chain, 4);
            lemma_mul_chain(v, odd_factors(base as nat), n as nat);
            assert(value(data@) == mul_chain(v, odd_factors(base as nat), n as nat));
            lemma_normalized_len_bound(data@, 36);
        }
        self.data = stack_from_vec(data);
    }

    /// Get number of leading zero bits in the storage.
    pub fn leading_zeros(&self) -> (r: usize)
        ensures
            r == (if self.limbs().len() == 0 {
                0
            } else {
                self.limbs().last().leading_zeros() as usize
            }),
    {
        let data = stack_to_vec(&self.data);
        crate::math::small::leading_zeros(data.as_slice())
    }

    /// Pad the buffer with `n` zeros at the least-significant end (a zero
    /// value is kept empty); returns `n`.
    pub fn pad_zeros(&mut self, n: usize) -> (r: usize)
        requires
            old(self).limbs().len() == 0 || old(self).limbs().len() + n <= 36,
        ensures
            r == n,
            final(self).limbs() == (if n == 0 || old(self).limbs().len() == 0 {
                old(self).limbs()
            } else {
                zeros(n as nat) + old(self).limbs()
            }),
            final(self).exp_spec() == old(self).exp_spec(),
            old(self).wf() ==> final(self).wf(),
            final(self).value_spec() == old(self).value_spec() * big_pow(n as nat),
    {
        let mut data = stack_to_vec(&self.data);
        if n != 0 {
            crate::math::small::ishl_digits(&mut data, n);
            self.data = stack_from_vec(data);
        } else {
            proof {
                assert(big_pow(0) == 1);
                assert(value(data@) * 1 == value(data@));
            }
        }
        n
    }

    /// Shift-left the limbs by `n` bits (below 32), keeping the exponent.
    fn ishl_bits(&mut self, n: u32)
        requires
            0 < n < 32,
            old(self).wf(),
            old(self).value_spec() * pow2n(n as nat) < big_pow(36),
        ensures
            final(self).wf(),
            final(self).value_spec() == old(self).value_spec() * pow2n(n as nat),
            final(self).exp_spec() == old(self).exp_spec(),
    {
        let mut data = stack_to_vec(&self.data);
        crate::math::small::ishl_bits(&mut data, n);
        proof {
            lemma_normalized_len_bound(data@, 36);
        }
        self.data = stack_from_vec(data);
    }

    /// Shift-left the entire buffer n bits.
    pub fn ishl(&mut self, n: usize)
        requires
            old(self).wf(),
            old(self).value_spec() * pow2n(n as nat) < big_pow(36),
        ensures
            final(self).wf(),
            final(self).value_spec() == old(self).value_spec() * pow2n(n as nat),
            final(self).exp_spec() == old(self).exp_spec(),
    {
        let mut data = stack_to_vec(&self.data);
        crate::math::small::ishl(&mut data, n);
        proof {
            lemma_normalized_len_bound(data@, 36);
        }
        self.data = stack_from_vec(data);
    }

    /// Whether the integer has no limbs (is zero, when normalized).
    fn limbs_empty(&self) -> (r: bool)
        ensures
            r == (self.limbs().len() == 0),
    {
        let data = stack_to_vec(&self.data);
        data.len() == 0
    }

    /// MulAssign small integer.
    pub fn imul_small(&mut self, y: u32)
        requires
            old(self).wf(),
            old(self).value_spec() * y < big_pow(36),
        ensures
            final(self).value_spec() == old(self).value_spec() * y,
            y != 0 ==> final(self).wf(),
            final(self).exp_spec() == old(self).exp_spec(),
    {
        let mut data = stack_to_vec(&self.data);
        crate::math::small::imul(&mut data, y);
        proof {
            if data@.len() > old(self).limbs().len() {
                crate::limbs::lemma_value_lower_bound(data@);
                if data@.len() > 36 {
                    crate::limbs::lemma_big_pow_mono(36, (data@.len() - 1) as nat);
                }
            }
        }
        self.data = stack_from_vec(data);
    }

    /// Emit a single digit for the quotient and store the remainder in-place.
    ///
    /// The quotient must be small: at most one above the estimate from the
    /// top limbs, `x.top / (y.top + 1)`.
    pub fn quorem(&mut self, y: &Bigint) -> (q: u32)
        requires
            old(self).wf(),
            y.wf(),
            y.limbs().len() > 0,
            y.limbs().last() < u32::MAX,
            old(self).limbs().len() <= y.limbs().len(),
            old(self).limbs().len() == y.limbs().len() ==> old(self).value_spec() < (
            crate::math::large::quorem_estimate(old(self).limbs(), y.limbs()) + 2) * y.value_spec(),
        ensures
            q == old(self).value_spec() / y.value_spec(),
            final(self).value_spec() == old(self).value_spec() % y.value_spec(),
            final(self).wf(),
            final(self).exp_spec() == old(self).exp_spec(),
    {
        let mut data = stack_to_vec(&self.data);
        let ydata = stack_to_vec(&y.data);
        let q = crate::math::large::quorem(&mut data, ydata.as_slice());
        proof {
            crate::limbs::lemma_value_zero_iff_empty(y.limbs());
            crate::limbs::lemma_value_bound(old(self).limbs());
            let vx = old(self).value_spec();
            let vy = y.value_spec();
            assert(vx % vy <= vx) by (nonlinear_arith)
                requires vy > 0;
            crate::limbs::lemma_normalized_len_le(data@, old(self).limbs());
        }
        self.data = stack_from_vec(data);
        q
    }

    /// A copy of the integer: the same limbs and exponent.
    fn copy(&self) -> (r: Bigint)
        ensures
            r.limbs() == self.limbs(),
            r.exp_spec() == self.exp_spec(),
    {
        Bigint { data: stack_clone(&self.data), exp: self.exp }
    }

    // RELATIVE OPERATIONS

    /// Check if self is greater than y.
    pub fn greater(&self, y: &Bigint) -> (r: bool)
        ensures
            r == greater_spec(self.limbs(), y.limbs()),
    {
        let x = stack_to_vec(&self.data);
        let yv = stack_to_vec(&y.data);
        crate::math::large::greater(x.as_slice(), yv.as_slice())
    }

    /// Check if self is greater than or equal to y.
    pub fn greater_equal(&self, y: &Bigint) -> (r: bool)
        ensures
            r == !greater_spec(y.limbs(), self.limbs()),
    {
        let x = stack_to_vec(&self.data);
        let yv = stack_to_vec(&y.data);
        crate::math::large::greater_equal(x.as_slice(), yv.as_slice())
    }

    /// Check if self is less than y.
    pub fn less(&self, y: &Bigint) -> (r: bool)
        ensures
            r == greater_spec(y.limbs(), self.limbs()),
    {
        let x = stack_to_vec(&self.data);
        let yv = stack_to_vec(&y.data);
        crate::math::large::less(x.as_slice(), yv.as_slice())
    }

    /// Check if self is less than or equal to y.
    pub fn less_equal(&self, y: &Bigint) -> (r: bool)
        ensures
            r == !greater_spec(self.limbs(), y.limbs()),
    {
        let x = stack_to_vec(&self.data);
        let yv = stack_to_vec(&y.data);
        crate::math::large::less_equal(x.as_slice(), yv.as_slice())
    }

    /// Check if self is equal to y.
    pub fn equal(&self, y: &Bigint) -> (r: bool)
        ensures
            r == (self.limbs() == y.limbs()),
    {
        let x = stack_to_vec(&self.data);
        let yv = stack_to_vec(&y.data);
        crate::math::large::equal(x.as_slice(), yv.as_slice())
    }

    // PROPERTIES

    /// Get the number of leading zero values in the storage.
    pub fn leading_zero_values(&self) -> (r: usize)
        ensures
            r == 0,
    {
        let x = stack_to_vec(&self.data);
        crate::math::small::leading_zero_values(x.as_slice())
    }

    /// Get the number of trailing zero values in the storage.
    pub fn trailing_zero_values(&self) -> (r: usize)
        ensures
            r <= self.limbs().len(),
            forall|i: int| 0 <= i < r ==> self.limbs()[i] == 0,
            r < self.limbs().len() ==> self.limbs()[r as int] != 0,
    {
        let x = stack_to_vec(&self.data);
        crate::math::small::trailing_zero_values(x.as_slice())
    }

    /// Get number of trailing zero bits in the storage.
    pub fn trailing_zeros(&self) -> (r: usize)
        ensures
            ({
                let idx = crate::math::small::trailing_zeros_index(self.limbs());
                r == (if idx < self.limbs().len() {
                    32 * idx + self.limbs()[idx as int].trailing_zeros()
                } else {
                    (32 * idx) as int
                })
            }),
    {
        let x = stack_to_vec(&self.data);
        proof {
            lemma_trailing_zeros_index_bound(x@);
        }
        crate::math::small::trailing_zeros(x.as_slice())
    }

    /// Calculate the bit-length of the big-integer.
    pub fn bit_length(&self) -> (r: usize)
        ensures
            r == (if self.limbs().len() == 0 {
                0
            } else {
                32 * self.limbs().len() - self.limbs().last().leading_zeros()
            }),
    {
        let x = stack_to_vec(&self.data);
        crate::math::small::bit_length(x.as_slice())
    }

    /// Get if the big integer is normalized.
    pub fn is_normalized(&self) -> (r: bool)
        ensures
            r == is_normalized(self.limbs()),
    {
        let x = stack_to_vec(&self.data);
        x.len() == 0 || x[x.len() - 1] != 0
    }

    /// Normalize the integer, so any leading zero values are removed.
    pub fn normalize(&mut self)
        ensures
            final(self).limbs() == crate::limbs::trim(old(self).limbs()),
            final(self).value_spec() == old(self).value_spec(),
            final(self).wf(),
            final(self).exp_spec() == old(self).exp_spec(),
    {
        let mut data = stack_to_vec(&self.data);
        let ghost before = data@;
        crate::math::small::normalize(&mut data);
        proof {
            crate::limbs::lemma_trim(before);
        }
        self.data = stack_from_vec(data);
    }

    // SHIFTS

    /// Shift-left a copy of the buffer n bits.
    pub fn shl(&self, n: usize) -> (r: Bigint)
        requires
            self.wf(),
            self.value_spec() * pow2n(n as nat) < big_pow(36),
        ensures
            r.wf(),
            r.value_spec() == self.value_spec() * pow2n(n as nat),
            r.exp_spec() == self.exp_spec(),
    {
        let mut x = self.copy();
        x.ishl(n);
        x
    }

    /// Shift-right the entire buffer n bits, rounding the result to
    /// nearest (ties to even) when `roundup` is set.
    pub fn ishr(&mut self, n: usize, roundup: bool)
        requires
            roundup && crate::math::small::shr_roundup(old(self).limbs(), n as nat) ==> (
            old(self).value_spec() / pow2n(n as nat)) % crate::limbs::limb_base() != u32::MAX,
        ensures
            final(self).wf(),
            final(self).value_spec() == old(self).value_spec() / pow2n(n as nat) + (if roundup
                && crate::math::small::shr_roundup(old(self).limbs(), n as nat) {
                1nat
            } else {
                0nat
            }),
            final(self).exp_spec() == old(self).exp_spec(),
    {
        let mut data = stack_to_vec(&self.data);
        let ghost len0 = data@.len();
        let rounds = crate::math::small::ishr(&mut data, n);
        proof {
            crate::limbs::lemma_value_bound(old(self).limbs());
            crate::limbs::lemma_pow2n_pos(n as nat);
            let v = old(self).value_spec();
            let p = pow2n(n as nat);
            assert(v / p <= v) by (nonlinear_arith)
                requires p >= 1;
            crate::limbs::lemma_big_pow_mono(len0, 36);
            lemma_normalized_len_bound(data@, 36);
        }
        if roundup && rounds {
            if data.len() == 0 {
                data.push(1);
                proof {
                    crate::limbs::lemma_value_single(1);
                    assert(data@ =~= seq![1u32]);
                }
            } else {
                let ghost before = data@;
                proof {
                    crate::limbs::lemma_value_mod_base(before);
                }
                let low = data[0] + 1;
                data.set(0, low);
                proof {
                    crate::limbs::lemma_value_update(before, 0, low);
                    assert(big_pow(0) == 1);
                    assert(data@ == before.update(0, low));
                    assert(before[0] * big_pow(0) == before[0]);
                    assert(low * big_pow(0) == low);
                    assert(value(data@) == value(before) + 1);
                }
            }
        }
        self.data = stack_from_vec(data);
    }

    /// Shift-right a copy of the buffer n bits.
    pub fn shr(&self, n: usize, roundup: bool) -> (r: Bigint)
        requires
            roundup && crate::math::small::shr_roundup(self.limbs(), n as nat) ==> (
            self.value_spec() / pow2n(n as nat)) % crate::limbs::limb_base() != u32::MAX,
        ensures
            r.wf(),
            r.value_spec() == self.value_spec() / pow2n(n as nat) + (if roundup
                && crate::math::small::shr_roundup(self.limbs(), n as nat) {
                1nat
            } else {
                0nat
            }),
            r.exp_spec() == self.exp_spec(),
    {
        let mut x = self.copy();
        x.ishr(n, roundup);
        x
    }

    // SMALL OPERATIONS

    /// AddAssign small integer.
    pub fn iadd_small(&mut self, y: u32)
        requires
            old(self).wf(),
            old(self).value_spec() + y < big_pow(36),
        ensures
            final(self).value_spec() == old(self).value_spec() + y,
            y != 0 || old(self).limbs().len() > 0 ==> final(self).wf(),
            final(self).exp_spec() == old(self).exp_spec(),
    {
        let mut data = stack_to_vec(&self.data);
        crate::math::small::iadd(&mut data, y);
        proof {
            if is_normalized(data@) {
                lemma_normalized_len_bound(data@, 36);
            }
        }
        self.data = stack_from_vec(data);
    }

    /// Add small integer to a copy of self.
    pub fn add_small(&self, y: u32) -> (r: Bigint)
        requires
            self.wf(),
            self.value_spec() + y < big_pow(36),
        ensures
            r.value_spec() == self.value_spec() + y,
            y != 0 || self.limbs().len() > 0 ==> r.wf(),
            r.exp_spec() == self.exp_spec(),
    {
        let mut x = self.copy();
        x.iadd_small(y);
        x
    }

    /// SubAssign small integer: the integer must be at least `y`.
    pub fn isub_small(&mut self, y: u32)
        requires
            old(self).wf(),
            old(self).limbs().len() > 0,
            old(self).value_spec() >= y,
        ensures
            final(self).value_spec() == old(self).value_spec() - y,
            final(self).wf(),
            final(self).exp_spec() == old(self).exp_spec(),
    {
        let mut data = stack_to_vec(&self.data);
        proof {
            if data@.len() == 1 {
                crate::limbs::lemma_value_single(data@[0]);
                assert(data@ =~= seq![data@[0]]);
            }
        }
        crate::math::small::isub(&mut data, y);
        proof {
            crate::limbs::lemma_value_bound(old(self).limbs());
            crate::limbs::lemma_big_pow_mono(old(self).limbs().len(), 36);
            lemma_normalized_len_bound(data@, 36);
        }
        self.data = stack_from_vec(data);
    }

    /// Sub small integer to a copy of self: the integer must be at least `y`.
    pub fn sub_small(&self, y: u32) -> (r: Bigint)
        requires
            self.wf(),
            self.limbs().len() > 0,
            self.value_spec() >= y,
        ensures
            r.value_spec() == self.value_spec() - y,
            r.wf(),
            r.exp_spec() == self.exp_spec(),
    {
        let mut x = self.copy();
        x.isub_small(y);
        x
    }

    /// Mul small integer to a copy of self.
    pub fn mul_small(&self, y: u32) -> (r: Bigint)
        requires
            self.wf(),
            self.value_spec() * y < big_pow(36),
        ensures
            r.value_spec() == self.value_spec() * y,
            y != 0 ==> r.wf(),
            r.exp_spec() == self.exp_spec(),
    {
        let mut x = self.copy();
        x.imul_small(y);
        x
    }

    /// DivAssign small integer, and return the remainder.
    pub fn idiv_small(&mut self, y: u32) -> (rem: u32)
        requires
            old(self).wf(),
            y != 0,
        ensures
            final(self).value_spec() == old(self).value_spec() / (y as nat),
            rem == old(self).value_spec() % (y as nat),
            final(self).wf(),
            final(self).exp_spec() == old(self).exp_spec(),
    {
        let mut data = stack_to_vec(&self.data);
        let rem = crate::math::small::idiv(&mut data, y);
        proof {
            let v = old(self).value_spec();
            assert(v / (y as nat) <= v) by (nonlinear_arith)
                requires y >= 1;
            crate::limbs::lemma_normalized_len_le(data@, old(self).limbs());
        }
        self.data = stack_from_vec(data);
        rem
    }

    /// Div small integer to a copy of self, and return the remainder.
    pub fn div_small(&self, y: u32) -> (r: (Bigint, u32))
        requires
            self.wf(),
            y != 0,
        ensures
            r.0.value_spec() == self.value_spec() / (y as nat),
            r.1 == self.value_spec() % (y as nat),
            r.0.wf(),
            r.0.exp_spec() == self.exp_spec(),
    {
        let mut x = self.copy();
        let rem = x.idiv_small(y);
        (x, rem)
    }

    // LARGE OPERATIONS

    /// AddAssign large integer.
    pub fn iadd_large(&mut self, y: &Bigint)
        requires
            old(self).wf(),
            y.wf(),
            old(self).value_spec() + y.value_spec() < big_pow(36),
        ensures
            final(self).value_spec() == old(self).value_spec() + y.value_spec(),
            final(self).wf(),
            final(self).exp_spec() == old(self).exp_spec(),
    {
        let mut data = stack_to_vec(&self.data);
        let ydata = stack_to_vec(&y.data);
        crate::math::large::iadd(&mut data, ydata.as_slice());
        proof {
            lemma_normalized_len_bound(data@, 36);
        }
        self.data = stack_from_vec(data);
    }

    /// Add large integer to a copy of self.
    pub fn add_large(&self, y: &Bigint) -> (r: Bigint)
        requires
            self.wf(),
            y.wf(),
            self.value_spec() + y.value_spec() < big_pow(36),
        ensures
            r.value_spec() == self.value_spec() + y.value_spec(),
            r.wf(),
            r.exp_spec() == self.exp_spec(),
    {
        let mut x = self.copy();
        x.iadd_large(y);
        x
    }

    /// SubAssign large integer: the integer must be at least `y`.
    pub fn isub_large(&mut self, y: &Bigint)
        requires
            old(self).wf(),
            y.wf(),
            old(self).value_spec() >= y.value_spec(),
        ensures
            final(self).value_spec() == old(self).value_spec() - y.value_spec(),
            final(self).wf(),
            final(self).exp_spec() == old(self).exp_spec(),
    {
        let mut data = stack_to_vec(&self.data);
        let ydata = stack_to_vec(&y.data);
        proof {
            crate::limbs::lemma_normalized_len_le(y.limbs(), old(self).limbs());
        }
        crate::math::large::isub(&mut data, ydata.as_slice());
        proof {
            let v = old(self).value_spec();
            crate::limbs::lemma_normalized_len_le(data@, old(self).limbs());
        }
        self.data = stack_from_vec(data);
    }

    /// Sub large integer to a copy of self: the integer must be at least `y`.
    pub fn sub_large(&self, y: &Bigint) -> (r: Bigint)
        requires
            self.wf(),
            y.wf(),
            self.value_spec() >= y.value_spec(),
        ensures
            r.value_spec() == self.value_spec() - y.value_spec(),
            r.wf(),
            r.exp_spec() == self.exp_spec(),
    {
        let mut x = self.copy();
        x.isub_large(y);
        x
    }

    /// Mul large integer to a copy of self.
    pub fn mul_large(&self, y: &Bigint) -> (r: Bigint)
        requires
            self.wf(),
            y.wf(),
            y.limbs().len() == 1 ==> self.value_spec() * y.value_spec() < big_pow(36),
            y.limbs().len() != 1 ==> self.limbs().len() + y.limbs().len() <= 36,
        ensures
            r.value_spec() == self.value_spec() * y.value_spec(),
            r.wf(),
            r.exp_spec() == self.exp_spec(),
    {
        let mut x = self.copy();
        x.imul_large(y);
        x
    }

    /// DivAssign large integer and get the remainder (with a zero exponent;
    /// a one-limb divisor gives a one-limb remainder, zero or not).
    pub fn idiv_large(&mut self, y: &Bigint) -> (rem: Bigint)
        requires
            old(self).wf(),
            y.wf(),
            y.limbs().len() != 0,
        ensures
            final(self).value_spec() == old(self).value_spec() / y.value_spec(),
            rem.value_spec() == old(self).value_spec() % y.value_spec(),
            final(self).wf(),
            final(self).exp_spec() == old(self).exp_spec(),
            rem.exp_spec() == 0,
            rem.limbs().len() <= y.limbs().len(),
            old(self).limbs().len() < y.limbs().len() ==> rem.limbs() == old(self).limbs(),
            old(self).limbs().len() >= y.limbs().len() && y.limbs().len() == 1 ==> rem.limbs()
                == seq![(old(self).value_spec() % y.value_spec()) as u32],
            old(self).limbs().len() >= y.limbs().len() && y.limbs().len() >= 2 ==> rem.wf(),
    {
        let mut data = stack_to_vec(&self.data);
        let ydata = stack_to_vec(&y.data);
        let r = crate::math::large::idiv(&mut data, ydata.as_slice());
        proof {
            crate::limbs::lemma_value_zero_iff_empty(y.limbs());
            let v = old(self).value_spec();
            let d = y.value_spec();
            assert(v / d <= v) by (nonlinear_arith)
                requires d >= 1;
            crate::limbs::lemma_normalized_len_le(data@, old(self).limbs());
        }
        self.data = stack_from_vec(data);
        Bigint { data: stack_from_vec(r), exp: 0 }
    }

    /// Div large integer to a copy of self and get quotient and remainder.
    pub fn div_large(&self, y: &Bigint) -> (r: (Bigint, Bigint))
        requires
            self.wf(),
            y.wf(),
            y.limbs().len() != 0,
        ensures
            r.0.value_spec() == self.value_spec() / y.value_spec(),
            r.1.value_spec() == self.value_spec() % y.value_spec(),
            r.0.wf(),
            r.0.exp_spec() == self.exp_spec(),
            r.1.exp_spec() == 0,
            r.1.limbs().len() <= y.limbs().len(),
            self.limbs().len() < y.limbs().len() ==> r.1.limbs() == self.limbs(),
            self.limbs().len() >= y.limbs().len() && y.limbs().len() == 1 ==> r.1.limbs() == seq![
                (self.value_spec() % y.value_spec()) as u32,
            ],
            self.limbs().len() >= y.limbs().len() && y.limbs().len() >= 2 ==> r.1.wf(),
    {
        let mut x = self.copy();
        let rem = x.idiv_large(y);
        (x, rem)
    }

    /// MulAssign large integer.
    pub fn imul_large(&mut self, y: &Bigint)
        requires
            old(self).wf(),
            y.wf(),
            y.limbs().len() == 1 ==> old(self).value_spec() * y.value_spec() < big_pow(36),
            y.limbs().len() != 1 ==> old(self).limbs().len() + y.limbs().len() <= 36,
        ensures
            final(self).wf(),
            final(self).value_spec() == old(self).value_spec() * y.value_spec(),
            final(self).exp_spec() == old(self).exp_spec(),
    {
        let mut data = stack_to_vec(&self.data);
        let ydata = stack_to_vec(&y.data);
        crate::math::large::imul(&mut data, ydata.as_slice());
        proof {
            if ydata@.len() == 1 {
                lemma_normalized_len_bound(data@, 36);
            }
        }
        self.data = stack_from_vec(data);
    }
}

impl ExtendedFloat<u32> {
    /// The big integer of the same value: the mantissa's limbs, the exponent.
    pub fn to_bigint(&self) -> (r: Bigint)
        ensures
            r.wf(),
            r.value_spec() == self.mant,
            r.exp_spec() == self.exp,
    {
        let mut bigint = Bigint::from_u32(self.mant);
        bigint.exp = self.exp;
        bigint
    }
}

impl ExtendedFloat<u64> {
    /// The big integer of the same value: the mantissa's limbs, the exponent.
    pub fn to_bigint(&self) -> (r: Bigint)
        ensures
            r.wf(),
            r.value_spec() == self.mant,
            r.exp_spec() == self.exp,
    {
        let mut bigint = Bigint::from_u64(self.mant);
        bigint.exp = self.exp;
        bigint
    }
}

impl ExtendedFloat<u128> {
    /// The big integer of the same value: the mantissa's limbs, the exponent.
    pub fn to_bigint(&self) -> (r: Bigint)
        ensures
            r.wf(),
            r.value_spec() == self.mant,
            r.exp_spec() == self.exp,
    {
        let mut bigint = Bigint::from_u128(self.mant);
        bigint.exp = self.exp;
        bigint
    }
}

// SLOW PATH

/// Get the appropriate scaling factor from the digit count: `base^n`, with
/// the powers of two in the exponent.
pub fn slow_scaling_factor(base: u32, sci_exponent: u32) -> (r: Bigint)
    requires
        2 <= base <= 36,
        pow2_part(base as nat) * sci_exponent <= i32::MAX,
        powi(odd_part(base as nat), sci_exponent as nat) < big_pow(36),
    ensures
        r.wf(),
        r.value_spec() == powi(odd_part(base as nat), sci_exponent as nat),
        r.exp_spec() == pow2_part(base as nat) * sci_exponent,
{
    let mut factor = Bigint::from_u32(1);
    factor.imul_power(sci_exponent, base);
    factor
}


/// The index of the lowest non-zero limb is at most the length.
proof fn lemma_trailing_zeros_index_bound(s: Seq<u32>)
    ensures
        crate::math::small::trailing_zeros_index(s) <= s.len(),
    decreases s.len(),
{
    if s.len() > 0 && s[0] == 0 {
        lemma_trailing_zeros_index_bound(s.subrange(1, s.len() as int));
    }
}

/// The odd part of a radix is at least 1.
proof fn lemma_odd_part_pos(base: nat)
    requires
        2 <= base <= 36,
    ensures
        odd_part(base) >= 1,
{
    reveal_with_fuel(crate::bigfloat::product, 4);
    let fs = odd_factors(base);
    assert(fs.len() <= 3);
    if fs.len() >= 1 {
        let r1 = fs.subrange(1, fs.len() as int);
        if r1.len() >= 1 {
            let r2 = r1.subrange(1, r1.len() as int);
            if r2.len() >= 1 {
                let r3 = r2.subrange(1, r2.len() as int);
                assert(r3.len() == 0);
                assert(crate::bigfloat::product(r2) == r2[0] * 1);
            }
            assert(crate::bigfloat::product(r1) == r1[0] * crate::bigfloat::product(r2));
            assert(r1[0] * crate::bigfloat::product(r2) >= 1) by (nonlinear_arith)
                requires r1[0] >= 1, crate::bigfloat::product(r2) >= 1;
        }
        assert(fs[0] * crate::bigfloat::product(r1) >= 1) by (nonlinear_arith)
            requires fs[0] >= 1, crate::bigfloat::product(r1) >= 1;
    }
}

/// The absolute value of an integer.
pub open spec fn abs_int(s: int) -> nat {
    if s < 0 { (-s) as nat } else { s as nat }
}

/// The numerator and denominator of `b+h` (mantissa `m`, exponent `e`)
/// against `base^s`, each as a value and binary exponent, before scaling:
/// `(num, num_exp, den, den_exp)`.
pub open spec fn slow_parts(base: nat, s: int, m: nat, e: int) -> (nat, int, nat, int) {
    let f = powi(odd_part(base), abs_int(s));
    let p = pow2_part(base) * abs_int(s);
    if s < 0 {
        (f * m, p as int, 1, -e)
    } else {
        (m, e, f, p as int)
    }
}

/// The shift that leaves `integral_binary_factor(base)` leading zeros in
/// the top limb of the denominator `d`.
pub open spec fn den_shift(base: nat, d: nat) -> nat {
    ((crate::limbs::limbs_of(d).last().leading_zeros() + 32 - integral_binary_factor_spec(base))
        % 32) as nat
}

/// The ratio `slow_ratio` builds: the values of the numerator and
/// denominator, and their common binary exponent.
pub open spec fn slow_ratio_spec(base: nat, s: int, m: nat, e: int) -> (nat, nat, int) {
    let (n0, en0, d0, ed0) = slow_parts(base, s, m, e);
    let k = den_shift(base, d0);
    let d1 = d0 * pow2n(k);
    let ed1 = ed0 - k;
    let diff = ed1 - en0;
    if diff < 0 {
        (n0 * pow2n((-diff) as nat), d1, ed1)
    } else if diff > 0 {
        let q = (diff + 31) / 32;
        (n0 * pow2n((32 * q - diff) as nat), d1 * big_pow(q as nat), ed1 - 32 * q)
    } else {
        (n0, d1, ed1)
    }
}

/// Whether `slow_ratio` stays within the limits of its storage: 36 limbs
/// for each integer, the intermediate product included, and `i32`
/// exponents.
pub open spec fn slow_ratio_fits(base: nat, s: int, m: nat, e: int) -> bool {
    let (n0, en0, d0, ed0) = slow_parts(base, s, m, e);
    let f = powi(odd_part(base), abs_int(s));
    let k = den_shift(base, d0);
    let (nv, dv, ex) = slow_ratio_spec(base, s, m, e);
    &&& pow2_part(base) * abs_int(s) <= i32::MAX
    &&& f < big_pow(36)
    &&& (s < 0 && m >= 0x1_0000_0000 ==> crate::limbs::limbs_of(f).len() + 2 <= 36)
    &&& (s < 0 ==> f * m < big_pow(36))
    &&& i32::MIN <= ed0 - k - en0 <= i32::MAX
    &&& nv < big_pow(36)
    &&& dv < big_pow(36)
    &&& ex >= i32::MIN
}

/// `a * 2^x == b * 2^y`, for exponents of any sign.
pub open spec fn eq_pow2(a: nat, x: int, b: nat, y: int) -> bool {
    let d = x - y;
    if d >= 0 {
        a * pow2n(d as nat) == b
    } else {
        a == b * pow2n((-d) as nat)
    }
}

/// Cancelling a common power of two.
proof fn lemma_eq_pow2_intro(a: nat, b: nat, ea: nat, eb: nat, x: int, y: int)
    requires
        a * pow2n(ea) == b * pow2n(eb),
        ea - eb == x - y,
    ensures
        eq_pow2(a, x, b, y),
{
    if ea >= eb {
        let d = (ea - eb) as nat;
        crate::limbs::lemma_pow2n_add(eb, d);
        crate::limbs::lemma_pow2n_pos(eb);
        let p = pow2n(eb);
        let q = pow2n(d);
        assert(a * q * p == b * p) by (nonlinear_arith)
            requires a * (p * q) == b * p;
        assert(a * q == b) by (nonlinear_arith)
            requires a * q * p == b * p, p > 0;
    } else {
        let d = (eb - ea) as nat;
        crate::limbs::lemma_pow2n_add(ea, d);
        crate::limbs::lemma_pow2n_pos(ea);
        let p = pow2n(ea);
        let q = pow2n(d);
        assert(a * p == b * q * p) by (nonlinear_arith)
            requires a * p == b * (p * q);
        assert(a == b * q) by (nonlinear_arith)
            requires a * p == b * q * p, p > 0;
    }
}

/// `eq_pow2` as a product with a common power of two.
proof fn lemma_eq_pow2_elim(a: nat, x: int, b: nat, y: int, k: nat)
    requires
        eq_pow2(a, x, b, y),
    ensures
        x >= y ==> a * pow2n(((x - y) + k) as nat) == b * pow2n(k),
        x < y ==> a * pow2n(k) == b * pow2n(((y - x) + k) as nat),
{
    if x >= y {
        let d = (x - y) as nat;
        crate::limbs::lemma_pow2n_add(d, k);
        let p = pow2n(d);
        let q = pow2n(k);
        assert(a * (p * q) == (a * p) * q) by (nonlinear_arith);
    } else {
        let d = (y - x) as nat;
        crate::limbs::lemma_pow2n_add(d, k);
        let p = pow2n(d);
        let q = pow2n(k);
        assert(b * (p * q) == (b * p) * q) by (nonlinear_arith);
    }
}

/// A factor `2^k` moves between the value and the exponent.
proof fn lemma_eq_pow2_absorb(a: nat, k: nat, x: int, b: nat, y: int)
    ensures
        eq_pow2(a * pow2n(k), x, b, y) == eq_pow2(a, x + k, b, y),
{
    let bigk = k + (if x >= y { 0 } else { (y - x) as nat });
    if eq_pow2(a * pow2n(k), x, b, y) {
        lemma_eq_pow2_elim(a * pow2n(k), x, b, y, bigk);
        if x >= y {
            crate::limbs::lemma_pow2n_add(k, (x - y + bigk) as nat);
            let p = pow2n(k);
            let q = pow2n((x - y + bigk) as nat);
            assert(a * p * q == a * (p * q)) by (nonlinear_arith);
            lemma_eq_pow2_intro(a, b, (x - y + bigk + k) as nat, bigk, x + k, y);
        } else {
            crate::limbs::lemma_pow2n_add(k, bigk);
            let p = pow2n(k);
            let q = pow2n(bigk);
            assert(a * p * q == a * (p * q)) by (nonlinear_arith);
            lemma_eq_pow2_intro(a, b, (k + bigk) as nat, (y - x + bigk) as nat, x + k, y);
        }
    }
    if eq_pow2(a, x + k, b, y) {
        lemma_eq_pow2_elim(a, x + k, b, y, bigk);
        if x + k >= y {
            crate::limbs::lemma_pow2n_add(k, (x - y + bigk) as nat);
            let p = pow2n(k);
            let q = pow2n((x - y + bigk) as nat);
            assert(a * p * q == a * (p * q)) by (nonlinear_arith);
            assert((x + k - y) + bigk == k + (x - y + bigk));
            if x >= y {
                lemma_eq_pow2_intro(a * p, b, (x - y + bigk) as nat, bigk, x, y);
            } else {
                lemma_eq_pow2_intro(a * p, b, (x - y + bigk) as nat, bigk, x, y);
            }
        } else {
            let ea = (bigk - k) as nat;
            crate::limbs::lemma_pow2n_add(k, ea);
            let p = pow2n(k);
            let q = pow2n(ea);
            assert(a * p * q == a * (p * q)) by (nonlinear_arith);
            lemma_eq_pow2_intro(a * p, b, ea, (y - x - k + bigk) as nat, x, y);
        }
    }
}

/// `eq_pow2` is symmetric.
proof fn lemma_eq_pow2_symm(a: nat, x: int, b: nat, y: int)
    ensures
        eq_pow2(a, x, b, y) == eq_pow2(b, y, a, x),
{
    reveal_with_fuel(pow2n, 1);
    if x == y {
        assert(a * 1 == a);
        assert(b * 1 == b);
    }
}

/// The numerator over the denominator that `slow_ratio` builds is `b+h`
/// (mantissa `m`, exponent `e`) over `base^s`:
/// `num * base^s == den * m * 2^e`, with the powers of the base moved to
/// the other side where `s` is negative.
pub proof fn lemma_slow_ratio_value(base: nat, s: int, m: nat, e: int)
    requires
        2 <= base <= 36,
    ensures
        ({
            let (nv, dv, ex) = slow_ratio_spec(base, s, m, e);
            eq_pow2(
                nv * powi(base, if s >= 0 { s as nat } else { 0 }),
                0,
                dv * m * powi(base, if s < 0 { (-s) as nat } else { 0 }),
                e,
            )
        }),
{
    let (n0, en0, d0, ed0) = slow_parts(base, s, m, e);
    let k = den_shift(base, d0);
    let d1 = d0 * pow2n(k);
    let ed1 = ed0 - k;
    let diff = ed1 - en0;
    let (nv, dv, ex) = slow_ratio_spec(base, s, m, e);
    // num * d1 * 2^ed1 == den * n0 * 2^en0
    if diff < 0 {
        let t = (-diff) as nat;
        assert(nv == n0 * pow2n(t) && dv == d1);
        assert(nv * d1 * pow2n(0) == dv * n0 * pow2n(t)) by (nonlinear_arith)
            requires nv == n0 * pow2n(t), dv == d1, pow2n(0) == 1;
        lemma_eq_pow2_intro(nv * d1, dv * n0, 0, t, ed1, en0);
    } else if diff > 0 {
        let q = (diff + 31) / 32;
        let r = (32 * q - diff) as nat;
        crate::limbs::lemma_big_pow_pow2n(q as nat);
        crate::limbs::lemma_pow2n_add(r, diff as nat);
        assert(nv == n0 * pow2n(r) && dv == d1 * big_pow(q as nat));
        let pr = pow2n(r);
        let pd = pow2n(diff as nat);
        assert(nv * d1 * pd == dv * n0 * pow2n(0)) by (nonlinear_arith)
            requires nv == n0 * pr, dv == d1 * (pr * pd), pow2n(0) == 1;
        lemma_eq_pow2_intro(nv * d1, dv * n0, diff as nat, 0, ed1, en0);
    } else {
        assert(nv * d1 * pow2n(0) == dv * n0 * pow2n(0)) by (nonlinear_arith)
            requires nv == n0, dv == d1, pow2n(0) == 1;
        lemma_eq_pow2_intro(nv * d1, dv * n0, 0, 0, ed1, en0);
    }
    // Take the shift of the denominator out.
    assert(nv * d1 == (nv * d0) * pow2n(k)) by (nonlinear_arith)
        requires d1 == d0 * pow2n(k);
    lemma_eq_pow2_absorb(nv * d0, k, ed1, dv * n0, en0);
    assert(eq_pow2(nv * d0, ed0, dv * n0, en0));
    let a = abs_int(s);
    let f = powi(odd_part(base), a);
    let p = pow2_part(base) * a;
    crate::bigfloat::lemma_powi_base_split(base, a);
    if s >= 0 {
        // nv * f * 2^p == dv * m * 2^e
        lemma_eq_pow2_absorb(nv * f, p, 0, dv * m, e);
        assert(nv * f * pow2n(p) == nv * powi(base, s as nat)) by (nonlinear_arith)
            requires powi(base, s as nat) == f * pow2n(p);
        assert(powi(base, 0) == 1) by {
            reveal_with_fuel(powi, 1);
        }
        assert(dv * m * powi(base, 0) == dv * m);
    } else {
        // nv * 2^-e == dv * (f * m) * 2^p
        assert(nv * d0 == nv * 1);
        lemma_eq_pow2_symm(nv, -e, dv * n0, p as int);
        lemma_eq_pow2_absorb(dv * n0, p, e, nv, 0);
        assert(eq_pow2(dv * n0 * pow2n(p), e, nv, 0));
        lemma_eq_pow2_symm(dv * n0 * pow2n(p), e, nv, 0);
        assert(dv * n0 * pow2n(p) == dv * m * powi(base, (-s) as nat)) by (nonlinear_arith)
            requires n0 == f * m, powi(base, (-s) as nat) == f * pow2n(p);
        assert(powi(base, 0) == 1) by {
            reveal_with_fuel(powi, 1);
        }
        assert(nv * powi(base, 0) == nv);
    }
}

/// The top limb of a normalized number places it between two powers of
/// two: `2^(32(n-1) + 31 - lz) <= v < 2^(32(n-1) + 32 - lz)`.
pub(crate) proof fn lemma_top_limb_bounds(s: Seq<u32>)
    requires
        s.len() > 0,
        s.last() != 0,
    ensures
        pow2n((32 * (s.len() - 1) + 31 - s.last().leading_zeros()) as nat) <= value(s),
        value(s) < pow2n((32 * (s.len() - 1) + 32 - s.last().leading_zeros()) as nat),
{
    let n = (s.len() - 1) as int;
    let t = s.last();
    let lz = t.leading_zeros();
    crate::limbs::lemma_leading_zeros_bounds(t);
    crate::limbs::lemma_value_split(s, n);
    assert(s.skip(n) =~= seq![t]);
    crate::limbs::lemma_value_single(t);
    crate::limbs::lemma_value_bound(s.take(n));
    crate::limbs::lemma_big_pow_pow2n(n as nat);
    let bp = big_pow(n as nat);
    let lo = pow2n((31 - lz) as nat);
    let hi = pow2n((32 - lz) as nat);
    crate::limbs::lemma_pow2n_add((32 * n) as nat, (31 - lz) as nat);
    crate::limbs::lemma_pow2n_add((32 * n) as nat, (32 - lz) as nat);
    let low = value(s.take(n));
    assert(low < bp);
    assert(bp * t >= bp * lo) by (nonlinear_arith)
        requires t >= lo, bp >= 0;
    assert(bp * t + bp <= bp * hi) by (nonlinear_arith)
        requires t + 1 <= hi, bp >= 0;
}

/// A number in `[2^(32n - 1 - w), 2^(32n - w))` has `n` limbs and `w`
/// leading zeros in its top limb.
proof fn lemma_bits_to_limbs(v: nat, n: nat, w: nat)
    requires
        n >= 1,
        w <= 31,
        pow2n((32 * n - 1 - w) as nat) <= v,
        v < pow2n((32 * n - w) as nat),
    ensures
        crate::limbs::limbs_of(v).len() == n,
        crate::limbs::limbs_of(v).last().leading_zeros() == w,
{
    let l = crate::limbs::limbs_of(v);
    crate::limbs::lemma_limbs_of(v);
    crate::limbs::lemma_big_pow_pow2n(n);
    crate::limbs::lemma_big_pow_pow2n((n - 1) as nat);
    crate::limbs::lemma_pow2n_mono((32 * n - w) as nat, 32 * n);
    crate::limbs::lemma_pow2n_mono((32 * (n - 1)) as nat, (32 * n - 1 - w) as nat);
    crate::limbs::lemma_normalized_len_bound(l, n);
    crate::limbs::lemma_pow2n_pos((32 * (n - 1)) as nat);
    if l.len() < n {
        crate::limbs::lemma_value_bound(l);
        crate::limbs::lemma_big_pow_mono(l.len(), (n - 1) as nat);
    }
    assert(l.len() == n);
    crate::limbs::lemma_value_zero_iff_empty(l);
    lemma_top_limb_bounds(l);
    let lz = l.last().leading_zeros();
    crate::limbs::lemma_leading_zeros_bounds(l.last());
    let a = (32 * (n - 1) + 31 - lz) as nat;
    let b = (32 * n - 1 - w) as nat;
    if a < b {
        crate::limbs::lemma_pow2n_mono(a + 1, b);
    } else if a > b {
        crate::limbs::lemma_pow2n_mono(b + 1, a);
    }
}

/// The denominator `slow_ratio` builds keeps as many leading zeros in its
/// top limb as bits a digit of the base needs.
#[verifier::spinoff_prover]
pub proof fn lemma_slow_ratio_den(base: nat, s: int, m: nat, e: int)
    requires
        2 <= base <= 36,
    ensures
        ({
            let (nv, dv, ex) = slow_ratio_spec(base, s, m, e);
            let l = crate::limbs::limbs_of(dv);
            &&& l.len() >= 1
            &&& l.last().leading_zeros() == integral_binary_factor_spec(base)
        }),
{
    let (n0, en0, d0, ed0) = slow_parts(base, s, m, e);
    let wlz = integral_binary_factor_spec(base);
    let k = den_shift(base, d0);
    let d1 = d0 * pow2n(k);
    let ed1 = ed0 - k;
    let diff = ed1 - en0;
    let (nv, dv, ex) = slow_ratio_spec(base, s, m, e);
    assert(d0 >= 1) by {
        lemma_odd_part_pos(base);
        crate::limbs::lemma_powi_pos(odd_part(base), abs_int(s));
    }
    let l0 = crate::limbs::limbs_of(d0);
    crate::limbs::lemma_limbs_of(d0);
    crate::limbs::lemma_value_zero_iff_empty(l0);
    lemma_top_limb_bounds(l0);
    let lz0 = l0.last().leading_zeros();
    crate::limbs::lemma_leading_zeros_bounds(l0.last());
    let big_e = (32 * (l0.len() - 1) + 31 - lz0) as nat;
    // The shifted denominator has its top bit at `big_e + k`.
    crate::limbs::lemma_pow2n_add(big_e, k);
    crate::limbs::lemma_pow2n_add(big_e + 1, k);
    let pe = pow2n(big_e);
    let pe1 = pow2n(big_e + 1);
    let pk = pow2n(k);
    crate::limbs::lemma_pow2n_pos(k);
    assert(pe * pk <= d1 && d1 < pe1 * pk) by (nonlinear_arith)
        requires pe <= d0, d0 < pe1, d1 == d0 * pk, pk > 0;
    let top = if diff > 0 {
        let q = (diff + 31) / 32;
        crate::limbs::lemma_big_pow_pow2n(q as nat);
        crate::limbs::lemma_pow2n_add(big_e + k, (32 * q) as nat);
        crate::limbs::lemma_pow2n_add(big_e + k + 1, (32 * q) as nat);
        let pq = pow2n((32 * q) as nat);
        let a = pow2n(big_e + k);
        let b = pow2n(big_e + k + 1);
        crate::limbs::lemma_pow2n_pos((32 * q) as nat);
        assert(a * pq <= d1 * pq && d1 * pq < b * pq) by (nonlinear_arith)
            requires a <= d1, d1 < b, pq > 0;
        crate::limbs::lemma_pow2n_pos((32 * q) as nat);
        (big_e + k + 32 * q) as nat
    } else {
        (big_e + k) as nat
    };
    assert(pow2n(top) <= dv && dv < pow2n(top + 1));
    // The top bit sits at `31 - wlz` within its limb.
    assert((top + 1 + wlz) % 32 == 0 && top + 1 + wlz >= 32);
    let n = (top + 1 + wlz) / 32;
    assert(top == 32 * n - 1 - wlz);
    lemma_bits_to_limbs(dv, n, wlz);
}

/// A digit of `base` fits in `integral_binary_factor(base)` bits.
proof fn lemma_integral_binary_factor(base: nat)
    requires
        2 <= base <= 36,
    ensures
        base <= pow2n(integral_binary_factor_spec(base)),
        base >= 3 ==> integral_binary_factor_spec(base) >= 2,
        integral_binary_factor_spec(base) <= 6,
{
    reveal_with_fuel(pow2n, 7);
}

/// The denominator `slow_ratio` builds is what `slow_compare_digits` needs
/// of one: a top limb above the base (and below `u32::MAX`), and room for
/// one more digit within its limbs.
pub proof fn lemma_slow_ratio_den_fits_compare(base: nat, s: int, m: nat, e: int)
    requires
        3 <= base <= 36,
    ensures
        ({
            let (nv, dv, ex) = slow_ratio_spec(base, s, m, e);
            let l = crate::limbs::limbs_of(dv);
            &&& l.len() > 0
            &&& l.last() >= base + 1
            &&& l.last() < u32::MAX
            &&& dv * base < big_pow(l.len())
        }),
{
    let (nv, dv, ex) = slow_ratio_spec(base, s, m, e);
    let l = crate::limbs::limbs_of(dv);
    lemma_slow_ratio_den(base, s, m, e);
    lemma_integral_binary_factor(base);
    let w = integral_binary_factor_spec(base);
    crate::limbs::lemma_limbs_of(dv);
    crate::limbs::lemma_leading_zeros_bounds(l.last());
    assert(l.last() != 0);
    lemma_top_limb_bounds(l);
    let n = l.len();
    // The top limb sits in [2^(31-w), 2^(32-w)).
    crate::limbs::lemma_pow2n_mono(25, (31 - w) as nat);
    crate::limbs::lemma_pow2n_mono((32 - w) as nat, 30);
    assert(pow2n(25) == 0x200_0000 && pow2n(30) == 0x4000_0000) by {
        crate::limbs::lemma_pow2n_is_pow2(25);
        crate::limbs::lemma_pow2n_is_pow2(30);
        vstd::arithmetic::power2::lemma2_to64();
    }
    // One more digit stays within the limbs.
    let hi = pow2n((32 * (n - 1) + 32 - w) as nat);
    let pw = pow2n(w);
    crate::limbs::lemma_pow2n_add((32 * (n - 1) + 32 - w) as nat, w);
    crate::limbs::lemma_big_pow_pow2n(n);
    assert(dv * base < hi * pw) by (nonlinear_arith)
        requires dv < hi, base <= pw, base >= 2;
    assert((32 * (n - 1) + 32 - w) + w == 32 * n);
}

/// Make a ratio for the numerator and denominator.
///
/// The numerator over the denominator is `b+h` over `base^sci_exponent`;
/// both share one binary exponent, and the denominator is scaled so that
/// its top limb keeps as many leading zeros as bits a digit needs.
pub fn slow_ratio(base: u32, sci_exponent: i32, b: ExtendedFloat<u64>) -> (r: (Bigint, Bigint))
    requires
        is_bigcomp_base(base),
        sci_exponent > i32::MIN,
        b.mant < 0x8000_0000_0000_0000,
        b.exp > i32::MIN + 1,
        slow_ratio_fits(base as nat, sci_exponent as int, (2 * b.mant + 1) as nat, b.exp - 1),
    ensures
        ({
            let (nv, dv, ex) = slow_ratio_spec(
                base as nat,
                sci_exponent as int,
                (2 * b.mant + 1) as nat,
                b.exp - 1,
            );
            &&& r.0.wf()
            &&& r.1.wf()
            &&& r.0.value_spec() == nv
            &&& r.1.value_spec() == dv
            &&& r.0.exp_spec() == ex
            &&& r.1.exp_spec() == ex
        }),
{
    let bh = bh(b).to_bigint();
    let ghost m = (2 * b.mant + 1) as nat;
    let ghost e = b.exp - 1;
    let ghost parts = slow_parts(base as nat, sci_exponent as int, m, e);
    let abs: u32 = if sci_exponent < 0 {
        (-sci_exponent) as u32
    } else {
        sci_exponent as u32
    };
    proof {
        assert(abs == abs_int(sci_exponent as int));
        assert(1 * powi(odd_part(base as nat), abs as nat) == powi(odd_part(base as nat), abs as nat));
    }
    let factor = slow_scaling_factor(base, abs);
    let mut num: Bigint;
    let mut den: Bigint;
    if sci_exponent < 0 {
        num = factor;
        proof {
            if bh.limbs().len() != 1 {
                crate::limbs::lemma_normalized_is_limbs_of(num.limbs());
                assert(big_pow(2) == 0x1_0000_0000_0000_0000) by {
                    reveal_with_fuel(big_pow, 3);
                }
                crate::limbs::lemma_normalized_len_bound(bh.limbs(), 2);
                if bh.limbs().len() == 0 {
                    assert(value(bh.limbs()) == 0);
                } else {
                    crate::limbs::lemma_value_lower_bound(bh.limbs());
                    assert(big_pow(1) == 0x1_0000_0000) by {
                        reveal_with_fuel(big_pow, 2);
                    }
                }
            }
        }
        num.imul_large(&bh);
        den = Bigint::from_u32(1);
        den.exp = -bh.exp;
    } else {
        num = bh;
        den = factor;
    }
    assert(num.value_spec() == parts.0 && num.exp_spec() == parts.1);
    assert(den.value_spec() == parts.2 && den.exp_spec() == parts.3);
    assert(den.value_spec() >= 1 && num.value_spec() >= 1) by {
        lemma_odd_part_pos(base as nat);
        crate::limbs::lemma_powi_pos(odd_part(base as nat), abs as nat);
        let f = powi(odd_part(base as nat), abs as nat);
        assert(f * m >= 1) by (nonlinear_arith)
            requires f >= 1, m >= 1;
    }

    // Scale the denominator so it has the number of bits in the base as
    // the number of leading zeros.
    let wlz = integral_binary_factor(base) as usize;
    let lz = den.leading_zeros();
    proof {
        crate::limbs::lemma_normalized_is_limbs_of(den.limbs());
        crate::limbs::lemma_value_zero_iff_empty(den.limbs());
    }
    let nlz = (lz + 32 - wlz) % 32;
    assert(nlz == den_shift(base as nat, parts.2));
    proof {
        let d1 = parts.2 * pow2n(nlz as nat);
        let diff = parts.3 - nlz - parts.1;
        let q = (diff + 31) / 32;
        if diff > 0 {
            crate::limbs::lemma_big_pow_pos(q as nat);
            assert(d1 * big_pow(q as nat) >= d1) by (nonlinear_arith)
                requires big_pow(q as nat) >= 1;
        }
    }
    if nlz != 0 {
        den.ishl_bits(nlz as u32);
        den.exp = den.exp - nlz as i32;
    } else {
        proof {
            assert(pow2n(0) == 1);
            assert(den.value_spec() * 1 == den.value_spec());
        }
    }

    assert(den.value_spec() >= 1) by {
        crate::limbs::lemma_pow2n_pos(nlz as nat);
        let p = pow2n(nlz as nat);
        assert(parts.2 * p >= 1) by (nonlinear_arith)
            requires parts.2 >= 1, p >= 1;
    }
    assert(den.exp_spec() == parts.3 - nlz);

    // Scale the numerator or the denominator to the same exponent, without
    // shifting the denominator by bits.
    let diff: i32 = den.exp - num.exp;
    if diff < 0 {
        let shift = (-(diff as i64)) as usize;
        proof {
            if shift >= 1152 {
                crate::limbs::lemma_pow2n_mono(1152, shift as nat);
                crate::limbs::lemma_big_pow_pow2n(36);
                let p = pow2n(shift as nat);
                assert(num.value_spec() * p >= p) by (nonlinear_arith)
                    requires num.value_spec() >= 1;
            }
        }
        num.ishl(shift);
        num.exp = num.exp - shift as i32;
    } else if diff > 0 {
        let shift = diff as usize;
        let q = (shift + 31) / 32;
        let r = q * 32 - shift;
        if r != 0 {
            num.ishl_bits(r as u32);
            num.exp = num.exp - r as i32;
        } else {
            proof {
                assert(pow2n(0) == 1);
                assert(num.value_spec() * 1 == num.value_spec());
            }
        }
        if q != 0 {
            proof {
                let l = den.limbs().len();
                crate::limbs::lemma_value_zero_iff_empty(den.limbs());
                crate::limbs::lemma_value_lower_bound(den.limbs());
                crate::limbs::lemma_big_pow_add((l - 1) as nat, q as nat);
                let a = big_pow((l - 1) as nat);
                let bq = big_pow(q as nat);
                assert(den.value_spec() * bq >= a * bq) by (nonlinear_arith)
                    requires den.value_spec() >= a;
                if l + q > 36 {
                    crate::limbs::lemma_big_pow_mono(36, (l - 1 + q) as nat);
                }
            }
            den.pad_zeros(q);
            den.exp = den.exp - (32 * q) as i32;
        }
    }
    (num, den)
}


/// The quotient estimate from the top limbs is off by at most one when the
/// numerator is below `base` times a denominator whose top limb exceeds
/// `base`.
proof fn lemma_quorem_estimate(x: Seq<u32>, y: Seq<u32>, base: nat)
    requires
        x.len() == y.len(),
        y.len() > 0,
        y.last() >= base + 1,
        value(x) < base * value(y),
    ensures
        value(x) < (crate::math::large::quorem_estimate(x, y) + 2) * value(y),
{
    let n = (y.len() - 1) as int;
    crate::limbs::lemma_value_split(x, n);
    crate::limbs::lemma_value_split(y, n);
    assert(x.skip(n) =~= seq![x.last()]);
    assert(y.skip(n) =~= seq![y.last()]);
    crate::limbs::lemma_value_single(x.last());
    crate::limbs::lemma_value_single(y.last());
    crate::limbs::lemma_value_bound(x.take(n));
    crate::limbs::lemma_value_bound(y.take(n));
    assert(x.take(n).len() == n && y.take(n).len() == n);
    let p = big_pow(n as nat);
    let xt = x.last() as nat;
    let yt = y.last() as nat;
    let vx = value(x);
    let vy = value(y);
    let est = xt / (yt + 1);
    // The top limbs bound the values.
    assert(vx < (xt + 1) * p) by (nonlinear_arith)
        requires vx == value(x.take(n)) + p * xt, value(x.take(n)) < p;
    assert(vx >= xt * p) by (nonlinear_arith)
        requires vx == value(x.take(n)) + p * xt;
    assert(vy < (yt + 1) * p) by (nonlinear_arith)
        requires vy == value(y.take(n)) + p * yt, value(y.take(n)) < p;
    assert(vy >= yt * p) by (nonlinear_arith)
        requires vy == value(y.take(n)) + p * yt;
    // The estimate is below `base`.
    assert(xt < base * (yt + 1)) by (nonlinear_arith)
        requires xt * p <= vx, vx < base * vy, vy < (yt + 1) * p, p > 0;
    assert(est < base) by (nonlinear_arith)
        requires est == xt / (yt + 1), xt < base * (yt + 1), yt + 1 > 0;
    // One above the estimate covers the top limb.
    assert((est + 1) * (yt + 1) >= xt + 1) by (nonlinear_arith)
        requires est == xt / (yt + 1), yt + 1 > 0;
    assert((est + 2) * yt >= (est + 1) * (yt + 1)) by (nonlinear_arith)
        requires yt >= est + 1;
    crate::limbs::lemma_big_pow_pos(n as nat);
    assert((est + 2) * vy >= (est + 2) * yt * p) by (nonlinear_arith)
        requires vy >= yt * p;
    assert((est + 2) * yt * p >= (xt + 1) * p) by (nonlinear_arith)
        requires (est + 2) * yt >= (est + 1) * (yt + 1), (est + 1) * (yt + 1) >= xt + 1, p > 0;
}

/// Compare `digits` with the digits that `num / den` writes in `base`:
/// -1, 0 or 1 as the digits are below, equal to or above the ratio. Where
/// the ratio's digits end, remaining zero digits are equal and any other
/// is above; where the given digits end first, they are below.
pub open spec fn digits_order(digits: Seq<u8>, base: nat, num: nat, den: nat) -> int
    decreases digits.len(),
{
    if num == 0 {
        if forall|i: int| 0 <= i < digits.len() ==> digits[i] == 48 {
            0
        } else {
            1
        }
    } else if digits.len() == 0 {
        -1
    } else {
        let c = digit_char(num / den);
        if digits[0] < c {
            -1
        } else if digits[0] > c {
            1
        } else {
            digits_order(digits.drop_first(), base, base * (num % den), den)
        }
    }
}

/// The sign of an integer: -1, 0 or 1.
pub open spec fn sign(x: int) -> int {
    if x < 0 {
        -1
    } else if x == 0 {
        0
    } else {
        1
    }
}

/// Whether every byte writes a digit of `base` as `digit_to_char` does
/// (`0-9`, then `A-Z`).
pub open spec fn is_digit_string(s: Seq<u8>, base: nat) -> bool {
    forall|i: int|
        0 <= i < s.len() ==> digit_value(#[trigger] s[i]) < base && s[i] == digit_char(
            digit_value(s[i]),
        )
}

/// The characters of digits order as the digits do.
proof fn lemma_digit_char_order(a: nat, b: nat)
    requires
        a < 36,
        b < 36,
    ensures
        (digit_char(a) < digit_char(b)) == (a < b),
        (digit_char(a) == digit_char(b)) == (a == b),
{
}

/// Dropping the first byte shifts the digit indexes by one.
proof fn lemma_digits_value_shift(s: Seq<u8>, i: int, j: int, base: nat)
    requires
        0 <= i <= j,
        j + 1 <= s.len(),
    ensures
        digits_value(s, i + 1, j + 1, base) == digits_value(s.drop_first(), i, j, base),
    decreases j - i,
{
    if j > i {
        lemma_digits_value_shift(s, i, j - 1, base);
        assert(s.drop_first()[j - 1] == s[j]);
    }
}

/// A digit string with a non-zero digit has a positive value.
proof fn lemma_digits_value_pos(s: Seq<u8>, base: nat, i: int)
    requires
        base >= 2,
        is_digit_string(s, base),
        0 <= i < s.len(),
        s[i] != 48,
    ensures
        digits_value(s, 0, s.len() as int, base) >= 1,
{
    let k = s.len() as int;
    lemma_digits_value_concat(s, 0, i, k, base);
    lemma_digits_value_concat(s, i, i + 1, k, base);
    assert(digits_value(s, i, i, base) == 0);
    let d = digit_value(s[i]);
    assert(d != 0);
    assert(digits_value(s, i, i + 1, base) == 0 * base + d);
    crate::limbs::lemma_powi_pos(base, (k - i - 1) as nat);
    crate::limbs::lemma_powi_pos(base, (k - i) as nat);
    let p = powi(base, (k - i - 1) as nat);
    let a = digits_value(s, 0, i, base);
    let q = powi(base, (k - i) as nat);
    assert(d * p >= 1) by (nonlinear_arith)
        requires d >= 1, p >= 1;
    assert(a * q >= 0) by (nonlinear_arith)
        requires a >= 0, q >= 0;
}

/// Comparing a digit string with the digits that `num / den` writes in
/// `base` compares their values: `0.d1 d2 d3...` times `base` against
/// `num / den` (both scaled to integers by `den * base^len`).
pub proof fn lemma_digits_order_value(s: Seq<u8>, base: nat, num: nat, den: nat)
    requires
        2 <= base <= 36,
        den > 0,
        num < base * den,
        is_digit_string(s, base),
    ensures
        digits_order(s, base, num, den) == sign(
            digits_value(s, 0, s.len() as int, base) * base * den - num * powi(base, s.len()),
        ),
    decreases s.len(),
{
    let k = s.len() as int;
    let dv = digits_value(s, 0, k, base);
    let pk = powi(base, k as nat);
    crate::limbs::lemma_powi_pos(base, k as nat);
    if num == 0 {
        if forall|i: int| 0 <= i < k ==> s[i] == 48 {
            lemma_digits_value_leading_zeros(s, 0, k, k, base);
            assert(dv == 0);
            assert(dv * base * den == 0) by (nonlinear_arith)
                requires dv == 0;
        } else {
            let i = choose|i: int| 0 <= i < k && s[i] != 48;
            lemma_digits_value_pos(s, base, i);
            assert(dv * base * den >= 1) by (nonlinear_arith)
                requires dv >= 1, base >= 2, den >= 1;
        }
        assert(num * pk == 0) by (nonlinear_arith)
            requires num == 0;
    } else if k == 0 {
        assert(dv == 0);
        assert(pk == 1);
        assert(dv * base * den - num * pk == -(num as int)) by (nonlinear_arith)
            requires dv == 0, pk == 1;
    } else {
        let t = s.drop_first();
        let d1 = digit_value(s[0]);
        let q = num / den;
        let r = num % den;
        let p = powi(base, (k - 1) as nat);
        let dt = digits_value(t, 0, k - 1, base);
        // The value splits at the first digit.
        lemma_digits_value_concat(s, 0, 1, k, base);
        assert(digits_value(s, 0, 0, base) == 0);
        assert(digits_value(s, 0, 1, base) == 0 * base + d1);
        lemma_digits_value_shift(s, 0, k - 1, base);
        assert(dv == d1 * p + dt);
        assert(is_digit_string(t, base)) by {
            assert forall|i: int| 0 <= i < t.len() implies digit_value(#[trigger] t[i]) < base
                && t[i] == digit_char(digit_value(t[i])) by {
                assert(t[i] == s[i + 1]);
            }
        }
        assert forall|i: int| 0 <= i < k - 1 implies is_digit(#[trigger] t[i], base) by {
            assert(t[i] == s[i + 1]);
        }
        lemma_digits_value_bound(t, 0, k - 1, base);
        assert(dt < p);
        assert(pk == base * p);
        vstd::arithmetic::div_mod::lemma_fundamental_div_mod(num as int, den as int);
        assert(num == q * den + r) by (nonlinear_arith)
            requires num == den * q + r;
        assert(q < base) by (nonlinear_arith)
            requires num < base * den, num == q * den + r, r >= 0, den > 0;
        assert(s[0] == digit_char(d1) && d1 < base);
        lemma_digit_char_order(d1, q);
        // The difference, over `base`.
        let diff = dv * base * den - num * pk;
        let inner = (d1 - q) * p * den + dt * den - r * p;
        assert(dv * base * den == base * (d1 * p * den + dt * den)) by (nonlinear_arith)
            requires dv == d1 * p + dt;
        assert(num * pk == base * (q * p * den + r * p)) by (nonlinear_arith)
            requires num == q * den + r, pk == base * p;
        assert((d1 - q) * p * den == d1 * p * den - q * p * den) by (nonlinear_arith);
        assert(base * (d1 * p * den + dt * den) - base * (q * p * den + r * p) == base * ((d1
            * p * den + dt * den) - (q * p * den + r * p))) by (nonlinear_arith);
        assert(diff == base * inner);
        crate::limbs::lemma_powi_pos(base, (k - 1) as nat);
        assert(dt * den < p * den) by (nonlinear_arith)
            requires dt < p, den > 0;
        assert(r * p < den * p) by (nonlinear_arith)
            requires r < den, p > 0;
        if d1 < q {
            assert((d1 - q) * p * den <= -(p * den)) by (nonlinear_arith)
                requires d1 < q, p > 0, den > 0;
            assert(inner < 0);
            assert(base * inner < 0) by (nonlinear_arith)
                requires inner < 0, base >= 2;
        } else if d1 > q {
            assert((d1 - q) * p * den >= p * den) by (nonlinear_arith)
                requires d1 > q, p > 0, den > 0;
            assert(dt * den >= 0) by (nonlinear_arith)
                requires dt >= 0, den > 0;
            assert(inner > 0);
            assert(base * inner > 0) by (nonlinear_arith)
                requires inner > 0, base >= 2;
        } else {
            let n2 = base * r;
            assert(n2 < base * den) by (nonlinear_arith)
                requires n2 == base * r, r < den, base >= 2;
            lemma_digits_order_value(t, base, n2, den);
            assert((d1 - q) * p * den == 0) by (nonlinear_arith)
                requires d1 == q;
            assert(dt * base * den - n2 * p == base * inner) by (nonlinear_arith)
                requires n2 == base * r, inner == (d1 - q) * p * den + dt * den - r * p,
                    (d1 - q) * p * den == 0;
            if inner < 0 {
                assert(base * inner < 0) by (nonlinear_arith)
                    requires inner < 0, base >= 2;
            } else if inner > 0 {
                assert(base * inner > 0) by (nonlinear_arith)
                    requires inner > 0, base >= 2;
            } else {
                assert(base * inner == 0) by (nonlinear_arith)
                    requires inner == 0;
            }
        }
    }
}

/// The ordering that -1, 0 or 1 stands for.
pub open spec fn ordering_of(c: int) -> core::cmp::Ordering {
    if c < 0 {
        core::cmp::Ordering::Less
    } else if c == 0 {
        core::cmp::Ordering::Equal
    } else {
        core::cmp::Ordering::Greater
    }
}

/// Whether every byte from `i` on is the digit zero; the index of the first
/// that is not, or the length.
fn zeros_from(digits: &[u8], i: usize) -> (r: bool)
    requires
        i <= digits@.len(),
    ensures
        r == (forall|k: int| 0 <= k < digits@.subrange(i as int, digits@.len() as int).len()
            ==> digits@.subrange(i as int, digits@.len() as int)[k] == 48),
{
    let mut j = i;
    while j < digits.len()
        invariant
            i <= j <= digits@.len(),
            forall|k: int| i <= k < j ==> digits@[k] == 48,
        decreases digits@.len() - j,
    {
        if digits[j] != 48 {
            assert(digits@.subrange(i as int, digits@.len() as int)[j - i] != 48);
            return false;
        }
        j += 1;
    }
    true
}

/// The comparison of `slow_compare_digits`, as -1, 0 or 1.
fn slow_compare_loop(digits: &[u8], base: u32, num: Bigint, den: &Bigint) -> (r: i8)
    requires
        2 <= base <= 36,
        num.wf(),
        den.wf(),
        den.limbs().len() > 0,
        den.limbs().last() >= base + 1,
        den.limbs().last() < u32::MAX,
        num.value_spec() < base * den.value_spec(),
        den.value_spec() * base < big_pow(den.limbs().len()),
    ensures
        r == digits_order(digits@, base as nat, num.value_spec(), den.value_spec()),
{
    let mut cur = num;
    let ghost v0 = cur.value_spec();
    let ghost vd = den.value_spec();
    let ghost n = den.limbs().len();
    let mut i: usize = 0;
    proof {
        crate::limbs::lemma_value_bound(den.limbs());
        crate::limbs::lemma_big_pow_mono(n, 36);
        assert(digits@.subrange(0, digits@.len() as int) =~= digits@);
    }
    loop
        invariant
            v0 == num.value_spec(),
            2 <= base <= 36,
            cur.wf(),
            den.wf(),
            vd == den.value_spec(),
            n == den.limbs().len(),
            n > 0,
            den.limbs().last() >= base + 1,
            den.limbs().last() < u32::MAX,
            cur.value_spec() < base * vd,
            vd * base < big_pow(n),
            big_pow(n) <= big_pow(36),
            i <= digits@.len(),
            digits_order(digits@, base as nat, v0, vd) == digits_order(
                digits@.subrange(i as int, digits@.len() as int),
                base as nat,
                cur.value_spec(),
                vd,
            ),
        ensures
            i <= digits@.len(),
            cur.value_spec() == 0,
            digits_order(digits@, base as nat, v0, vd) == digits_order(
                digits@.subrange(i as int, digits@.len() as int),
                base as nat,
                cur.value_spec(),
                vd,
            ),
        decreases digits@.len() - i,
    {
        if cur.limbs_empty() {
            proof {
                crate::limbs::lemma_value_zero_iff_empty(cur.limbs());
            }
            break;
        }
        proof {
            crate::limbs::lemma_value_zero_iff_empty(cur.limbs());
        }
        if i == digits.len() {
            proof {
                let rest = digits@.subrange(i as int, digits@.len() as int);
                assert(rest.len() == 0);
                assert(cur.value_spec() != 0);
                assert(digits_order(rest, base as nat, cur.value_spec(), vd) == -1);
                assert(digits_order(digits@, base as nat, v0, vd) == -1);
            }
            let r: i8 = -1;
            return r;
        }
        let actual = digits[i];
        let ghost rest = digits@.subrange(i as int, digits@.len() as int);
        i += 1;
        let ghost x = cur.value_spec();
        proof {
            assert(rest.drop_first() =~= digits@.subrange(i as int, digits@.len() as int));
            assert(rest[0] == actual);
        }
        proof {
            crate::limbs::lemma_normalized_len_bound(cur.limbs(), n);
            if cur.limbs().len() == n {
                lemma_quorem_estimate(cur.limbs(), den.limbs(), base as nat);
            }
        }
        let q = cur.quorem(den);
        proof {
            assert(q < base) by (nonlinear_arith)
                requires q == x / vd, x < base * vd, vd > 0;
            assert(cur.value_spec() * base < vd * base) by (nonlinear_arith)
                requires cur.value_spec() < vd, base > 0;
        }
        let expected = digit_to_char(q);
        cur.imul_small(base);
        if actual < expected {
            proof {
                assert(x != 0);
                assert(rest.len() > 0);
                assert(expected == digit_char(x / vd));
                assert(digits_order(rest, base as nat, x, vd) == -1);
            }
            let r: i8 = -1;
            return r;
        } else if actual > expected {
            proof {
                assert(x != 0);
                assert(rest.len() > 0);
                assert(expected == digit_char(x / vd));
                assert(digits_order(rest, base as nat, x, vd) == 1);
            }
            return 1;
        }
        proof {
            assert(actual == expected);
            let m = x % vd;
            assert(cur.value_spec() == base * m) by (nonlinear_arith)
                requires cur.value_spec() == m * base;
            assert(digits_order(rest, base as nat, x, vd) == digits_order(
                rest.drop_first(),
                base as nat,
                (base * m) as nat,
                vd,
            ));
        }
    }
    if zeros_from(digits, i) {
        0
    } else {
        1
    }
}


/// The exponent of the largest power of two that divides the base.
fn pow2_part_of(base: u32) -> (r: u32)
    ensures
        r == crate::bigfloat::pow2_part(base as nat),
        r <= 5,
{
    match base {
        2 | 6 | 10 | 14 | 18 | 22 | 26 | 30 | 34 => 1,
        4 | 12 | 20 | 28 | 36 => 2,
        8 | 24 => 3,
        16 => 4,
        32 => 5,
        _ => 0,
    }
}

/// Powers of a number of at least 2 are at least the powers of two.
proof fn lemma_powi_at_least_pow2n(b: nat, k: nat)
    requires
        b >= 2,
    ensures
        powi(b, k) >= pow2n(k),
    decreases k,
{
    reveal_with_fuel(pow2n, 1);
    if k > 0 {
        lemma_powi_at_least_pow2n(b, (k - 1) as nat);
        let p = powi(b, (k - 1) as nat);
        let q = pow2n((k - 1) as nat);
        assert(b * p >= 2 * q) by (nonlinear_arith)
            requires
                b >= 2,
                p >= q,
                q >= 0,
        ;
    }
}

/// The odd part of a base that is no power of two is at least 3.
proof fn lemma_odd_part_big(base: u32)
    requires
        is_bigcomp_base(base),
    ensures
        odd_part(base as nat) >= 3,
{
    let b = base as nat;
    crate::bigfloat::lemma_base_split(b);
    lemma_odd_part_pos(b);
    reveal_with_fuel(pow2n, 7);
    let o = odd_part(b);
    let p = pow2_part(b);
    assert(p <= 5);
    if o == 1 {
        assert(b == pow2n(p));
    } else if o == 2 {
        assert(b == 2 * pow2n(p));
    }
}

/// A normalized sequence has at most 36 limbs exactly when its value is
/// below `B^36`.
proof fn lemma_fits_36(s: Seq<u32>)
    requires
        is_normalized(s),
    ensures
        (s.len() <= 36) == (value(s) < big_pow(36)),
{
    crate::limbs::lemma_value_bound(s);
    if s.len() <= 36 {
        crate::limbs::lemma_big_pow_mono(s.len(), 36);
    }
    if value(s) < big_pow(36) {
        lemma_normalized_len_bound(s, 36);
    }
}

/// A number of at least 1 shifted by `2^j`, `j >= 1152`, is at least `B^36`.
proof fn lemma_shift_over_36(v: nat, j: nat)
    requires
        v >= 1,
        j >= 1152,
    ensures
        v * pow2n(j) >= big_pow(36),
{
    crate::limbs::lemma_pow2n_mono(1152, j);
    crate::limbs::lemma_big_pow_pow2n(36);
    let p = pow2n(j);
    assert(v * p >= p) by (nonlinear_arith)
        requires
            v >= 1,
    ;
}

/// Whether `slow_ratio` can build the ratio for these arguments within its
/// storage: `slow_ratio_fits` for `b+h`, worked out on growable buffers.
#[verifier::rlimit(60)]
pub fn slow_ratio_fits_for(base: u32, sci_exponent: i32, b: ExtendedFloat<u64>) -> (r: bool)
    requires
        is_bigcomp_base(base),
        sci_exponent > i32::MIN,
        b.mant < 0x8000_0000_0000_0000,
        b.exp > i32::MIN + 1,
    ensures
        r == slow_ratio_fits(base as nat, sci_exponent as int, (2 * b.mant + 1) as nat, b.exp - 1),
{
    let ghost bn = base as nat;
    let ghost s = sci_exponent as int;
    let ghost m = (2 * b.mant + 1) as nat;
    let ghost e = b.exp - 1;
    let ghost parts = slow_parts(bn, s, m, e);
    let ghost f = powi(odd_part(bn), abs_int(s));
    let ghost rs = slow_ratio_spec(bn, s, m, e);
    let abs: u32 = if sci_exponent < 0 {
        (-sci_exponent) as u32
    } else {
        sci_exponent as u32
    };
    proof {
        assert(abs == abs_int(s));
        lemma_odd_part_big(base);
        crate::limbs::lemma_powi_pos(odd_part(bn), abs as nat);
    }
    let p2 = pow2_part_of(base);
    assert((p2 as u64) * (abs as u64) <= 5 * 0x8000_0000) by (nonlinear_arith)
        requires
            p2 <= 5,
            abs <= 0x8000_0000,
    ;
    if (p2 as u64) * (abs as u64) > 0x7fff_ffff {
        return false;
    }
    if abs >= 1152 {
        proof {
            lemma_powi_at_least_pow2n(odd_part(bn), abs as nat);
            lemma_shift_over_36(1, abs as nat);
            assert(1 * pow2n(abs as nat) == pow2n(abs as nat));
        }
        return false;
    }
    let mut fb = Bigfloat::from_u32(1);
    fb.imul_power(abs, base);
    let fl = fb.data();
    proof {
        assert(value(fl@) == f);
        lemma_fits_36(fl@);
        crate::limbs::lemma_normalized_is_limbs_of(fl@);
    }
    if fl.len() > 36 {
        return false;
    }
    // The limbs of `m`, normalized.
    let m64: u64 = 2 * b.mant + 1;
    assert(m64 & 0xFFFF_FFFF <= 0xFFFF_FFFF) by (bit_vector);
    assert(m64 >> 32 <= 0xFFFF_FFFF) by (bit_vector);
    let lo = (m64 & 0xFFFF_FFFF) as u32;
    let hi = (m64 >> 32) as u32;
    proof {
        assert(lo + hi * 0x1_0000_0000nat == m64) by (bit_vector)
            requires
                lo == (m64 & 0xFFFF_FFFF) as u32,
                hi == (m64 >> 32) as u32,
        ;
        assert(m64 % 2 == 1);
        assert(hi == 0 ==> lo == m64);
        assert(m64 >= 0x1_0000_0000 <==> hi != 0);
    }
    let mut mv: Vec<u32> = Vec::new();
    mv.push(lo);
    if hi != 0 {
        mv.push(hi);
        proof {
            crate::limbs::lemma_value_two(mv@);
        }
    } else {
        proof {
            assert(mv@ =~= seq![lo]);
            crate::limbs::lemma_value_single(lo);
        }
    }
    assert(value(mv@) == m && is_normalized(mv@));
    let n0v: Vec<u32>;
    let d0v: Vec<u32>;
    let en0: i64;
    let ed0: i64;
    if sci_exponent < 0 {
        if m64 >= 0x1_0000_0000 && fl.len() + 2 > 36 {
            return false;
        }
        let fm = crate::math::large::mul(fl.as_slice(), mv.as_slice());
        proof {
            lemma_fits_36(fm@);
        }
        if fm.len() > 36 {
            return false;
        }
        n0v = fm;
        let mut one: Vec<u32> = Vec::new();
        one.push(1);
        proof {
            assert(one@ =~= seq![1u32]);
            crate::limbs::lemma_value_single(1);
        }
        d0v = one;
        en0 = (p2 as i64) * (abs as i64);
        ed0 = -((b.exp as i64) - 1);
    } else {
        n0v = mv;
        d0v = fl;
        en0 = (b.exp as i64) - 1;
        ed0 = (p2 as i64) * (abs as i64);
    }
    proof {
        assert(value(n0v@) == parts.0 && en0 == parts.1);
        assert(value(d0v@) == parts.2 && ed0 == parts.3);
        assert(is_normalized(n0v@) && is_normalized(d0v@));
        crate::limbs::lemma_normalized_is_limbs_of(d0v@);
        assert(parts.0 >= 1 && parts.2 >= 1) by {
            assert(f * m >= 1) by (nonlinear_arith)
                requires f >= 1, m >= 1;
        }
        crate::limbs::lemma_value_zero_iff_empty(d0v@);
    }
    // The shift that gives the denominator its leading zeros.
    let lz = crate::math::small::leading_zeros(d0v.as_slice());
    let wlz = integral_binary_factor(base) as usize;
    let k = (lz + 32 - wlz) % 32;
    let ghost kk = den_shift(bn, parts.2);
    assert(k == kk);
    let diff: i64 = ed0 - (k as i64) - en0;
    if diff < -0x8000_0000 || diff > 0x7fff_ffff {
        return false;
    }
    let ed1: i64 = ed0 - (k as i64);
    let d1v = crate::math::small::shl(d0v.as_slice(), k);
    let ghost d1 = parts.2 * pow2n(k as nat);
    proof {
        crate::limbs::lemma_pow2n_pos(k as nat);
        assert(d1 >= 1) by (nonlinear_arith)
            requires parts.2 >= 1, pow2n(k as nat) >= 1, d1 == parts.2 * pow2n(k as nat);
        lemma_fits_36(d1v@);
        lemma_fits_36(n0v@);
    }
    if diff < 0 {
        let shift = (-diff) as usize;
        if shift >= 1152 {
            proof {
                lemma_shift_over_36(parts.0, shift as nat);
            }
            return false;
        }
        let nv = crate::math::small::shl(n0v.as_slice(), shift);
        proof {
            lemma_fits_36(nv@);
        }
        nv.len() <= 36 && d1v.len() <= 36 && ed1 >= -0x8000_0000
    } else if diff > 0 {
        let q = (diff + 31) / 32;
        let rsh = (32 * q - diff) as usize;
        let nv = crate::math::small::shl(n0v.as_slice(), rsh);
        proof {
            lemma_fits_36(nv@);
        }
        if q >= 36 {
            proof {
                crate::limbs::lemma_big_pow_mono(36, q as nat);
                let bq = big_pow(q as nat);
                assert(d1 * bq >= bq) by (nonlinear_arith)
                    requires d1 >= 1;
            }
            return false;
        }
        let dv = crate::math::small::shl(d1v.as_slice(), (32 * q) as usize);
        proof {
            crate::limbs::lemma_big_pow_pow2n(q as nat);
            lemma_fits_36(dv@);
        }
        nv.len() <= 36 && dv.len() <= 36 && ed1 - 32 * q >= -0x8000_0000
    } else {
        n0v.len() <= 36 && d1v.len() <= 36 && ed1 >= -0x8000_0000
    }
}

/// The order of `digits` against the digits of `b+h` over
/// `base^sci_exponent`, as -1, 0 or 1, where `slow_ratio` and
/// `slow_compare_digits` can work it out: `None` where the ratio does not
/// fit in its storage, or where the numerator is not below `base` times the
/// denominator.
pub open spec fn slow_halfway_spec(digits: Seq<u8>, base: u32, sci_exponent: i32, b: ExtendedFloat<
    u64,
>) -> Option<int> {
    let m = (2 * b.mant + 1) as nat;
    let e = b.exp - 1;
    let (nv, dv, ex) = slow_ratio_spec(base as nat, sci_exponent as int, m, e);
    if slow_ratio_fits(base as nat, sci_exponent as int, m, e) && nv < base * dv {
        Some(digits_order(digits, base as nat, nv, dv))
    } else {
        None
    }
}

/// What `slow_compare_digits` needs of the ratio `slow_ratio` builds.
proof fn lemma_halfway_ratio(base: u32, sci_exponent: i32, b: ExtendedFloat<u64>, num: Bigint, den: Bigint)
    requires
        is_bigcomp_base(base),
        den.wf(),
        den.value_spec() == slow_ratio_spec(
            base as nat,
            sci_exponent as int,
            (2 * b.mant + 1) as nat,
            b.exp - 1,
        ).1,
    ensures
        den.limbs().len() > 0,
        den.limbs().last() >= base + 1,
        den.limbs().last() < u32::MAX,
        den.value_spec() * base < big_pow(den.limbs().len()),
        den.value_spec() * base < big_pow(36),
{
    lemma_slow_ratio_den_fits_compare(base as nat, sci_exponent as int, (2 * b.mant + 1) as nat, b.exp - 1);
    crate::limbs::lemma_normalized_is_limbs_of(den.limbs());
    crate::limbs::lemma_big_pow_mono(den.limbs().len(), 36);
}

/// The comparison of `digits` with the digits of `b+h` over
/// `base^sci_exponent`, where `slow_ratio` and `slow_compare_digits` can
/// make it: `None` where the ratio does not fit in its storage, or where
/// the numerator is not below `base` times the denominator.
pub fn slow_halfway_order(
    digits: &[u8],
    base: u32,
    sci_exponent: i32,
    b: ExtendedFloat<u64>,
) -> (r: Option<core::cmp::Ordering>)
    requires
        is_bigcomp_base(base),
        sci_exponent > i32::MIN,
        b.mant < 0x8000_0000_0000_0000,
        b.exp > i32::MIN + 1,
    ensures
        r == (match slow_halfway_spec(digits@, base, sci_exponent, b) {
            Some(c) => Some(ordering_of(c)),
            None => None,
        }),
{
    if !slow_ratio_fits_for(base, sci_exponent, b) {
        return None;
    }
    let (num, den) = slow_ratio(base, sci_exponent, b);
    proof {
        lemma_halfway_ratio(base, sci_exponent, b, num, den);
    }
    let scaled = den.mul_small(base);
    proof {
        crate::math::large::lemma_greater_spec_normalized(scaled.limbs(), num.limbs());
    }
    if !num.less(&scaled) {
        return None;
    }
    Some(slow_compare_digits(digits, base, num, den))
}

/// The comparison `slow_compare_digits` makes, as -1, 0 or 1.
pub open spec fn slow_digits_order(digits: Seq<u8>, base: u32, num: Bigint, den: Bigint) -> int {
    digits_order(digits, base as nat, num.value_spec(), den.value_spec())
}

/// Compare digits between the generated values the ratio and the actual view.
///
/// * `digits`      - Actual digits from the mantissa.
/// * `base`        - Radix for the number parsing.
/// * `num`         - Numerator for the fraction.
/// * `den`         - Denominator for the fraction.
pub fn slow_compare_digits(digits: &[u8], base: u32, num: Bigint, den: Bigint) -> (r:
    core::cmp::Ordering)
    requires
        2 <= base <= 36,
        num.wf(),
        den.wf(),
        den.limbs().len() > 0,
        den.limbs().last() >= base + 1,
        den.limbs().last() < u32::MAX,
        num.value_spec() < base * den.value_spec(),
        den.value_spec() * base < big_pow(den.limbs().len()),
    ensures
        r == ordering_of(slow_digits_order(digits@, base, num, den)),
{
    let c = slow_compare_loop(digits, base, num, &den);
    if c < 0 {
        core::cmp::Ordering::Less
    } else if c == 0 {
        core::cmp::Ordering::Equal
    } else {
        core::cmp::Ordering::Greater
    }
}

// FAST PATH

/// The comparison of `fast_compare_digits`, as -1, 0 or 1.
fn fast_compare_loop(digits: &[u8], base: u32, num: u128, den: u128) -> (r: i8)
    requires
        2 <= base <= 36,
        num != 0 ==> den > 0 && num / den < 36,
        den > 0 ==> (den - 1) * base <= u128::MAX,
    ensures
        r == digits_order(digits@, base as nat, num as nat, den as nat),
{
    let wide: u128 = base as u128;
    let mut cur = num;
    let mut i: usize = 0;
    proof {
        assert(digits@.subrange(0, digits@.len() as int) =~= digits@);
    }
    while cur != 0
        invariant
            2 <= base <= 36,
            wide == base,
            cur != 0 ==> den > 0 && cur / den < 36,
            den > 0 ==> (den - 1) * wide <= u128::MAX,
            i <= digits@.len(),
            digits_order(digits@, base as nat, num as nat, den as nat) == digits_order(
                digits@.subrange(i as int, digits@.len() as int),
                base as nat,
                cur as nat,
                den as nat,
            ),
        decreases digits@.len() - i,
    {
        if i == digits.len() {
            return -1;
        }
        let actual = digits[i];
        let ghost rest = digits@.subrange(i as int, digits@.len() as int);
        i += 1;
        proof {
            assert(rest.drop_first() =~= digits@.subrange(i as int, digits@.len() as int));
            assert(rest[0] == actual);
        }
        let q = cur / den;
        let expected = digit_to_char(q as u32);
        let r = cur % den;
        proof {
            assert(r * base <= (den - 1) * base) by (nonlinear_arith)
                requires r <= den - 1, base >= 0;
            assert(wide * r == r * wide) by (nonlinear_arith);
        }
        let ghost x = cur;
        cur = wide * r;
        proof {
            if cur != 0 {
                assert(cur < wide * den) by (nonlinear_arith)
                    requires cur == wide * r, r < den, wide > 0;
                assert(cur / den < wide) by (nonlinear_arith)
                    requires cur < wide * den, den > 0;
            }
        }
        if actual < expected {
            return -1;
        } else if actual > expected {
            return 1;
        }
    }
    if zeros_from(digits, i) {
        0
    } else {
        1
    }
}

/// The comparison `fast_compare_digits` makes, as -1, 0 or 1.
pub open spec fn fast_digits_order(digits: Seq<u8>, base: u32, num: u128, den: u128) -> int {
    digits_order(digits, base as nat, num as nat, den as nat)
}

/// Compare digits between the generated values the ratio and the actual view.
///
/// * `digits`      - Actual digits from the mantissa.
/// * `base`        - Radix for the number parsing.
/// * `num`         - Numerator for the fraction.
/// * `den`         - Denominator for the fraction.
pub fn fast_compare_digits(digits: &[u8], base: u32, num: u128, den: u128) -> (r:
    core::cmp::Ordering)
    requires
        2 <= base <= 36,
        num != 0 ==> den > 0 && num / den < 36,
        den > 0 ==> (den - 1) * base <= u128::MAX,
    ensures
        r == ordering_of(fast_digits_order(digits@, base, num, den)),
{
    let c = fast_compare_loop(digits, base, num, den);
    if c < 0 {
        core::cmp::Ordering::Less
    } else if c == 0 {
        core::cmp::Ordering::Equal
    } else {
        core::cmp::Ordering::Greater
    }
}

} // verus!
