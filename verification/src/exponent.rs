//! Algorithm to parse an exponent from a float string, and to relate
//! radix-N exponents to binary ones.

use vstd::prelude::*;
use crate::digits::{
    digit_value, is_digit, digits_end, digits_value, char_to_digit, lemma_digits_end,
};

verus! {

/// The character that starts an exponent in `base`: `e` below base 15,
/// where `e` is no digit, and `^` from base 15 on.
pub open spec fn exponent_char(base: nat) -> u8 {
    if base < 15 {
        101u8
    } else {
        94u8
    }
}

/// ASCII lowercase of a byte.
pub open spec fn to_lower(c: u8) -> u8 {
    if 65 <= c <= 90 {
        (c + 32) as u8
    } else {
        c
    }
}

/// A magnitude capped at `i32::MAX`.
pub open spec fn saturate_i32(v: nat) -> nat {
    if v > i32::MAX {
        i32::MAX as nat
    } else {
        v
    }
}

/// The exponent and the position after it, read from `s` at `pos`:
/// `(e|^)[+-]?digits`, the digits' value capped at `i32::MAX` before the
/// sign applies. Without the exponent character, nothing is read.
pub open spec fn parse_exponent_spec(s: Seq<u8>, pos: nat, base: nat) -> (int, nat) {
    if pos < s.len() && to_lower(s[pos as int]) == exponent_char(base) {
        let p = pos + 1;
        let neg = p < s.len() && s[p as int] == 45u8;
        let q: nat = if p < s.len() && (s[p as int] == 45u8 || s[p as int] == 43u8) {
            p + 1
        } else {
            p
        };
        let end = digits_end(s, q, base);
        let mag: int = saturate_i32(digits_value(s, q as int, end as int, base)) as int;
        (if neg {
            -mag
        } else {
            mag
        }, end)
    } else {
        (0, pos)
    }
}

/// Get the exponent notation character for a base.
pub fn exponent_notation_char(base: u32) -> (r: u8)
    ensures
        r == exponent_char(base as nat),
{
    if base < 15 {
        101u8
    } else {
        94u8
    }
}

/// ASCII lowercase of a byte.
pub fn to_ascii_lower(c: u8) -> (r: u8)
    ensures
        r == to_lower(c),
{
    if 65 <= c && c <= 90 {
        c + 32
    } else {
        c
    }
}

/// Capping at `i32::MAX` commutes with appending a digit.
proof fn lemma_saturate_step(v: nat, b: nat, d: nat)
    requires
        b >= 1,
    ensures
        saturate_i32(v * b + d) == saturate_i32(saturate_i32(v) * b + d),
{
    if v > i32::MAX {
        assert(v * b >= v) by (nonlinear_arith)
            requires
                b >= 1,
        ;
        assert((i32::MAX as nat) * b >= i32::MAX) by (nonlinear_arith)
            requires
                b >= 1,
        ;
    }
}

/// Parse the exponential portion from a float-string, if we have an
/// `(e|^)[+-]?\d+`, starting at `pos`.
///
/// On overflow, the magnitude is `i32::MAX`, since it leads to infinity
/// or zero regardless. Returns the exponent and the position after it.
pub fn parse_exponent(bytes: &[u8], pos: usize, base: u32) -> (r: (i32, usize))
    requires
        2 <= base <= 36,
        pos <= bytes@.len(),
    ensures
        r.0 == parse_exponent_spec(bytes@, pos as nat, base as nat).0,
        r.1 == parse_exponent_spec(bytes@, pos as nat, base as nat).1,
{
    let ghost s = bytes@;
    if pos < bytes.len() && to_ascii_lower(bytes[pos]) == exponent_notation_char(base) {
        let mut p = pos + 1;
        let mut neg = false;
        if p < bytes.len() && bytes[p] == 45u8 {
            neg = true;
            p += 1;
        } else if p < bytes.len() && bytes[p] == 43u8 {
            p += 1;
        }
        let start = p;
        let mut value: u32 = 0;
        proof {
            assert(digits_value(s, start as int, start as int, base as nat) == 0);
        }
        while p < bytes.len() && char_to_digit(bytes[p]) < base
            invariant
                s == bytes@,
                2 <= base <= 36,
                start <= p <= s.len(),
                forall|k: int| start <= k < p ==> is_digit(#[trigger] s[k], base as nat),
                value == saturate_i32(digits_value(s, start as int, p as int, base as nat)),
            decreases s.len() - p,
        {
            let d = char_to_digit(bytes[p]);
            proof {
                assert((value as u64) * (base as u64) <= 0x7fff_ffffu64 * 36) by (nonlinear_arith)
                    requires
                        value <= 0x7fff_ffff,
                        base <= 36,
                ;
            }
            let next: u64 = (value as u64) * (base as u64) + (d as u64);
            proof {
                lemma_saturate_step(
                    digits_value(s, start as int, p as int, base as nat),
                    base as nat,
                    digit_value(s[p as int]),
                );
                assert(digits_value(s, start as int, p + 1, base as nat) == digits_value(
                    s,
                    start as int,
                    p as int,
                    base as nat,
                ) * base + digit_value(s[p as int]));
            }
            if next > 0x7fff_ffff {
                value = 0x7fff_ffff;
            } else {
                value = next as u32;
            }
            p += 1;
        }
        proof {
            lemma_digits_end(s, start as nat, p as nat, base as nat);
        }
        let mag = value as i32;
        if neg {
            (-mag, p)
        } else {
            (mag, p)
        }
    } else {
        (0, pos)
    }
}

/// The exponent with the digits past the dot taken away and the truncated
/// digits added: each shift is first capped at `i32::MAX`, and the result
/// saturates at the `i32` bounds.
pub open spec fn normalize_exponent_spec(exponent: int, dot_shift: nat, truncated: nat) -> int {
    if dot_shift > truncated {
        let d = if dot_shift - truncated > i32::MAX {
            i32::MAX as int
        } else {
            dot_shift - truncated
        };
        if exponent - d < i32::MIN {
            i32::MIN as int
        } else {
            exponent - d
        }
    } else {
        let d = if truncated - dot_shift > i32::MAX {
            i32::MAX as int
        } else {
            truncated - dot_shift
        };
        if exponent + d > i32::MAX {
            i32::MAX as int
        } else {
            exponent + d
        }
    }
}

/// Calculate the exact exponent without overflow.
///
/// Remove the number of digits that contributed to the mantissa past
/// the dot, and add the number of truncated digits from the mantissa.
pub fn normalize_exponent(exponent: i32, dot_shift: usize, truncated: usize) -> (r: i32)
    ensures
        r == normalize_exponent_spec(exponent as int, dot_shift as nat, truncated as nat),
{
    if dot_shift > truncated {
        let diff = dot_shift - truncated;
        let d: i64 = if diff > 0x7fff_ffff {
            0x7fff_ffff
        } else {
            diff as i64
        };
        let v: i64 = exponent as i64 - d;
        if v < -0x8000_0000i64 {
            i32::MIN
        } else {
            v as i32
        }
    } else {
        let diff = truncated - dot_shift;
        let d: i64 = if diff > 0x7fff_ffff {
            0x7fff_ffff
        } else {
            diff as i64
        };
        let v: i64 = exponent as i64 + d;
        if v > 0x7fff_ffffi64 {
            i32::MAX
        } else {
            v as i32
        }
    }
}

/// `log2(base)` in 32.32 fixed point, rounded to nearest.
pub open spec fn binary_factor_spec(base: nat) -> nat {
    if base == 2 {
        4294967296
    } else if base == 3 {
        6807362106
    } else if base == 4 {
        8589934592
    } else if base == 5 {
        9972605231
    } else if base == 6 {
        11102329402
    } else if base == 7 {
        12057497579
    } else if base == 8 {
        12884901888
    } else if base == 9 {
        13614724212
    } else if base == 10 {
        14267572527
    } else if base == 11 {
        14858145665
    } else if base == 12 {
        15397296698
    } else if base == 13 {
        15893267570
    } else if base == 14 {
        16352464875
    } else if base == 15 {
        16779967337
    } else if base == 16 {
        17179869184
    } else if base == 17 {
        17555519227
    } else if base == 18 {
        17909691508
    } else if base == 19 {
        18244709746
    } else if base == 20 {
        18562539823
    } else if base == 21 {
        18864859684
    } else if base == 22 {
        19153112961
    } else if base == 23 {
        19428550663
    } else if base == 24 {
        19692263994
    } else if base == 25 {
        19945210462
    } else if base == 26 {
        20188234866
    } else if base == 27 {
        20422086318
    } else if base == 28 {
        20647432171
    } else if base == 29 {
        20864869499
    } else if base == 30 {
        21074934633
    } else if base == 31 {
        21278111131
    } else if base == 32 {
        21474836480
    } else if base == 33 {
        21665507771
    } else if base == 34 {
        21850486523
    } else if base == 35 {
        22030102810
    } else {
        22204658804
    }
}

/// Calculate the binary factor from a basen number: `log2(base)` in
/// 32.32 fixed point.
pub fn binary_factor(base: u32) -> (r: u64)
    requires
        2 <= base <= 36,
    ensures
        r == binary_factor_spec(base as nat),
{
    match base {
        2 => 4294967296,
        3 => 6807362106,
        4 => 8589934592,
        5 => 9972605231,
        6 => 11102329402,
        7 => 12057497579,
        8 => 12884901888,
        9 => 13614724212,
        10 => 14267572527,
        11 => 14858145665,
        12 => 15397296698,
        13 => 15893267570,
        14 => 16352464875,
        15 => 16779967337,
        16 => 17179869184,
        17 => 17555519227,
        18 => 17909691508,
        19 => 18244709746,
        20 => 18562539823,
        21 => 18864859684,
        22 => 19153112961,
        23 => 19428550663,
        24 => 19692263994,
        25 => 19945210462,
        26 => 20188234866,
        27 => 20422086318,
        28 => 20647432171,
        29 => 20864869499,
        30 => 21074934633,
        31 => 21278111131,
        32 => 21474836480,
        33 => 21665507771,
        34 => 21850486523,
        35 => 22030102810,
        _ => 22204658804,
    }
}

/// A value capped to the `i32` range.
pub open spec fn clamp_i32(v: int) -> int {
    if v > i32::MAX {
        i32::MAX as int
    } else if v < i32::MIN {
        i32::MIN as int
    } else {
        v
    }
}

/// The binary exponent of `base^exponent`, away from zero:
/// `ceil(exponent * log2(base))` for positive exponents and
/// `floor(exponent * log2(base))` for negative ones, with the logarithm in
/// 32.32 fixed point.
pub open spec fn binary_exponent_spec(base: nat, exponent: int) -> int {
    let f = binary_factor_spec(base);
    let one: nat = 0x1_0000_0000;
    if exponent == 0 {
        0
    } else if exponent > 0 {
        clamp_i32((exponent * f + one - 1) / (one as int))
    } else {
        clamp_i32(-(((-exponent) * f + one - 1) / (one as int)))
    }
}

/// Calculate the binary exponent from a basen exponent.
///
/// This method doesn't have to be very accurate, since a padding bit is
/// kept for the Bigfloat.
pub fn binary_exponent(base: u32, exponent: i32) -> (r: i32)
    requires
        2 <= base <= 36,
    ensures
        r == binary_exponent_spec(base as nat, exponent as int),
{
    let f = binary_factor(base);
    if exponent == 0 {
        0
    } else if exponent > 0 {
        let e = exponent as u128;
        proof {
            assert(e * (f as u128) <= 0x8000_0000u128 * 0x10_0000_0000) by (nonlinear_arith)
                requires
                    e <= 0x8000_0000,
                    f <= 0x10_0000_0000,
            ;
        }
        let v: u128 = (e * (f as u128) + 0xffff_ffff) / 0x1_0000_0000;
        if v > 0x7fff_ffff {
            i32::MAX
        } else {
            v as i32
        }
    } else {
        let e = (-(exponent as i64)) as u128;
        proof {
            assert(e * (f as u128) <= 0x8000_0000u128 * 0x10_0000_0000) by (nonlinear_arith)
                requires
                    e <= 0x8000_0000,
                    f <= 0x10_0000_0000,
            ;
        }
        let v: u128 = (e * (f as u128) + 0xffff_ffff) / 0x1_0000_0000;
        if v > 0x8000_0000 {
            i32::MIN
        } else {
            (-(v as i64)) as i32
        }
    }
}

} // verus!
