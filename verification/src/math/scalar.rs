//! Scalar-to-scalar operations, the building blocks of the limb algorithms.

use vstd::prelude::*;
use crate::limbs::{limb_base, wide};

verus! {

/// Determine if `2*rem > den`, or `2*rem == den`.
pub fn cmp_remainder(den: u32, rem: u32) -> (r: (bool, bool))
    ensures
        r.0 == (2 * rem > den),
        r.1 == (2 * rem == den),
{
    match rem.checked_mul(2) {
        None => (true, false),
        Some(v) => (v > den, v == den),
    }
}

/// Add two small integers and return the resulting value and if overflow happens.
pub fn add(x: u32, y: u32) -> (r: (u32, bool))
    ensures
        r.1 == (x + y >= limb_base()),
        r.0 + (if r.1 { limb_base() } else { 0 }) == x + y,
{
    match x.checked_add(y) {
        Some(z) => (z, false),
        None => (x.wrapping_add(y), true),
    }
}

/// AddAssign two small integers and return if overflow happens.
pub fn iadd(x: &mut u32, y: u32) -> (overflow: bool)
    ensures
        overflow == (*old(x) + y >= limb_base()),
        *final(x) + (if overflow { limb_base() } else { 0 }) == *old(x) + y,
{
    let t = crate::math::scalar::add(*x, y);
    *x = t.0;
    t.1
}

/// Subtract two small integers and return the resulting value and if overflow happens.
pub fn sub(x: u32, y: u32) -> (r: (u32, bool))
    ensures
        r.1 == (x < y),
        r.0 == x - y + (if r.1 { limb_base() } else { 0 }),
{
    match x.checked_sub(y) {
        Some(z) => (z, false),
        None => (x.wrapping_sub(y), true),
    }
}

/// SubAssign two small integers and return if overflow happens.
pub fn isub(x: &mut u32, y: u32) -> (overflow: bool)
    ensures
        overflow == (*old(x) < y),
        *final(x) == *old(x) - y + (if overflow { limb_base() } else { 0 }),
{
    let t = crate::math::scalar::sub(*x, y);
    *x = t.0;
    t.1
}

/// Multiply two small integers (with carry) (and return the overflow contribution).
///
/// Returns the (low, high) components.
pub fn mul(x: u32, y: u32, carry: u32) -> (r: (u32, u32))
    ensures
        r.0 + r.1 * limb_base() == x * y + carry,
{
    proof {
        assert(x * y <= 0xFFFF_FFFFnat * 0xFFFF_FFFFnat) by (nonlinear_arith)
            requires
                x <= 0xFFFF_FFFFnat,
                y <= 0xFFFF_FFFFnat,
        ;
    }
    let z: u64 = (x as u64) * (y as u64) + (carry as u64);
    let lo = (z & 0xFFFF_FFFF) as u32;
    let hi = (z >> 32u64) as u32;
    proof {
        assert(lo + hi * 0x1_0000_0000nat == z) by (bit_vector)
            requires
                lo == (z & 0xFFFF_FFFF) as u32,
                hi == (z >> 32u64) as u32,
        ;
    }
    (lo, hi)
}

/// Multiply two small integers (with carry) (and return if overflow happens).
pub fn imul(x: &mut u32, y: u32, carry: u32) -> (hi: u32)
    ensures
        *final(x) + hi * limb_base() == *old(x) * y + carry,
{
    let t = crate::math::scalar::mul(*x, y, carry);
    *x = t.0;
    t.1
}

/// Divide two small integers (with remainder) (and return the remainder contribution).
///
/// Returns the (value, remainder) components. The quotient is kept to its
/// low 32 bits, which loses nothing when `rem < y`.
pub fn div(x: u32, y: u32, rem: u32) -> (r: (u32, u32))
    requires
        y != 0,
    ensures
        r.0 == (wide(rem, x) / (y as nat)) % limb_base(),
        r.1 == wide(rem, x) % (y as nat),
        rem < y ==> r.0 == wide(rem, x) / (y as nat),
{
    let num: u64 = (x as u64) | ((rem as u64) << 32u64);
    proof {
        assert(num == rem * 0x1_0000_0000nat + x) by (bit_vector)
            requires
                num == (x as u64) | ((rem as u64) << 32u64),
        ;
    }
    let yy = y as u64;
    let q = num / yy;
    let r = num % yy;
    let q32 = (q & 0xFFFF_FFFF) as u32;
    proof {
        assert(q32 == q % 0x1_0000_0000) by (bit_vector)
            requires
                q32 == (q & 0xFFFF_FFFF) as u32,
        ;
        if rem < y {
            let n = num as nat;
            let d = y as nat;
            assert(n < d * 0x1_0000_0000nat) by (nonlinear_arith)
                requires
                    n == rem * 0x1_0000_0000nat + x,
                    rem < d,
                    x < 0x1_0000_0000nat,
            ;
            assert(n / d < 0x1_0000_0000nat) by (nonlinear_arith)
                requires
                    n < d * 0x1_0000_0000nat,
                    d > 0,
            ;
            vstd::arithmetic::div_mod::lemma_small_mod(q as nat, 0x1_0000_0000nat);
        }
    }
    (q32, r as u32)
}

/// DivAssign two small integers and return the remainder.
pub fn idiv(x: &mut u32, y: u32, rem: u32) -> (r: u32)
    requires
        y != 0,
    ensures
        *final(x) == (wide(rem, *old(x)) / (y as nat)) % limb_base(),
        r == wide(rem, *old(x)) % (y as nat),
        rem < y ==> *final(x) == wide(rem, *old(x)) / (y as nat),
{
    let t = crate::math::scalar::div(*x, y, rem);
    *x = t.0;
    t.1
}

} // verus!
