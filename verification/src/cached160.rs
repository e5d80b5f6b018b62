//! Cached powers of each non-power-of-two radix as 160-bit extended floats.
//!
//! For every radix, `small` holds `base^0 .. base^(step-1)` exactly (as
//! `get_powers` states for the integer powers), and `large` holds 128-bit
//! approximations of `base^(step*j - bias)`, given as constants: how close
//! they are is not stated. Every mantissa is normalized: its most
//! significant bit is set.

pub mod base3;
pub mod base5;
pub mod base6;
pub mod base7;
pub mod base9;
pub mod base10;
pub mod base11;
pub mod base12;
pub mod base13;
pub mod base14;
pub mod base15;
pub mod base17;
pub mod base18;
pub mod base19;
pub mod base20;
pub mod base21;
pub mod base22;
pub mod base23;
pub mod base24;
pub mod base25;
pub mod base26;
pub mod base27;
pub mod base28;
pub mod base29;
pub mod base30;
pub mod base31;
pub mod base33;
pub mod base34;
pub mod base35;
pub mod base36;

use vstd::prelude::*;
use crate::cached::ModeratePathPowers;
use crate::limbs::powi;

verus! {

/// Every mantissa of the table has its most significant bit set.
pub open spec fn is_normalized_table(t: Seq<u128>) -> bool {
    forall|i: int| 0 <= i < t.len() ==> #[trigger] t[i] >= 0x8000_0000_0000_0000_0000_0000_0000_0000
}

/// The table holds `base^i` at each index `i`.
pub open spec fn is_int_powers_table(base: nat, t: Seq<u128>) -> bool {
    forall|i: int| 0 <= i < t.len() ==> #[trigger] t[i] == powi(base, i as nat)
}

/// Whether `base` has cached powers: every radix from 3 to 36 but the powers of two.
pub open spec fn has_cached_powers(base: u32) -> bool {
    base == 3 || base == 5 || base == 6 || base == 7 || base == 9 || base == 10 || base == 11 || base == 12 || base == 13 || base == 14 || base == 15 || base == 17 || base == 18 || base == 19 || base == 20 || base == 21 || base == 22 || base == 23 || base == 24 || base == 25 || base == 26 || base == 27 || base == 28 || base == 29 || base == 30 || base == 31 || base == 33 || base == 34 || base == 35 || base == 36
}

/// The cached powers of `base`.
pub open spec fn cached_powers(base: u32) -> ModeratePathPowers<u128> {
    if base == 3 {
        base3::powers_spec()
    } else if base == 5 {
        base5::powers_spec()
    } else if base == 6 {
        base6::powers_spec()
    } else if base == 7 {
        base7::powers_spec()
    } else if base == 9 {
        base9::powers_spec()
    } else if base == 10 {
        base10::powers_spec()
    } else if base == 11 {
        base11::powers_spec()
    } else if base == 12 {
        base12::powers_spec()
    } else if base == 13 {
        base13::powers_spec()
    } else if base == 14 {
        base14::powers_spec()
    } else if base == 15 {
        base15::powers_spec()
    } else if base == 17 {
        base17::powers_spec()
    } else if base == 18 {
        base18::powers_spec()
    } else if base == 19 {
        base19::powers_spec()
    } else if base == 20 {
        base20::powers_spec()
    } else if base == 21 {
        base21::powers_spec()
    } else if base == 22 {
        base22::powers_spec()
    } else if base == 23 {
        base23::powers_spec()
    } else if base == 24 {
        base24::powers_spec()
    } else if base == 25 {
        base25::powers_spec()
    } else if base == 26 {
        base26::powers_spec()
    } else if base == 27 {
        base27::powers_spec()
    } else if base == 28 {
        base28::powers_spec()
    } else if base == 29 {
        base29::powers_spec()
    } else if base == 30 {
        base30::powers_spec()
    } else if base == 31 {
        base31::powers_spec()
    } else if base == 33 {
        base33::powers_spec()
    } else if base == 34 {
        base34::powers_spec()
    } else if base == 35 {
        base35::powers_spec()
    } else {
        base36::powers_spec()
    }
}

/// Get powers from base.
pub fn get_powers(base: u32) -> (r: ModeratePathPowers<u128>)
    requires
        has_cached_powers(base),
    ensures
        r == cached_powers(base),
        r.small.mant@.len() == r.small.exp@.len(),
        r.large.mant@.len() == r.large.exp@.len(),
        r.small.mant@.len() == r.step,
        r.small_int@.len() == r.step,
        is_normalized_table(r.small.mant@),
        is_normalized_table(r.large.mant@),
        is_int_powers_table(base as nat, r.small_int@),
{
    match base {
        3 => base3::powers(),
        5 => base5::powers(),
        6 => base6::powers(),
        7 => base7::powers(),
        9 => base9::powers(),
        10 => base10::powers(),
        11 => base11::powers(),
        12 => base12::powers(),
        13 => base13::powers(),
        14 => base14::powers(),
        15 => base15::powers(),
        17 => base17::powers(),
        18 => base18::powers(),
        19 => base19::powers(),
        20 => base20::powers(),
        21 => base21::powers(),
        22 => base22::powers(),
        23 => base23::powers(),
        24 => base24::powers(),
        25 => base25::powers(),
        26 => base26::powers(),
        27 => base27::powers(),
        28 => base28::powers(),
        29 => base29::powers(),
        30 => base30::powers(),
        31 => base31::powers(),
        33 => base33::powers(),
        34 => base34::powers(),
        35 => base35::powers(),
        _ => base36::powers(),
    }
}

} // verus!
