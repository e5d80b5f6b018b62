//! Digits of a radix-N number written in ASCII.
//!
//! `0-9` stand for 0 to 9, and `a-z` (or `A-Z`) for 10 to 35. Every other
//! byte stands for no digit at all in any base from 2 to 36.

use vstd::prelude::*;
use crate::limbs::powi;

verus! {

/// The digit a byte stands for, or 36 for a byte that is no digit.
pub open spec fn digit_value(c: u8) -> nat {
    if 48 <= c <= 57 {
        (c - 48) as nat
    } else if 97 <= c <= 122 {
        (c - 87) as nat
    } else if 65 <= c <= 90 {
        (c - 55) as nat
    } else {
        36
    }
}

/// Whether a byte is a digit in the given base.
pub open spec fn is_digit(c: u8, base: nat) -> bool {
    digit_value(c) < base
}

/// The index of the first byte at or after `i` that is no digit in `base`
/// (or the length, where all bytes from `i` on are digits).
pub open spec fn digits_end(s: Seq<u8>, i: nat, base: nat) -> nat
    decreases s.len() - i,
{
    if i >= s.len() || !is_digit(s[i as int], base) {
        i
    } else {
        digits_end(s, i + 1, base)
    }
}

/// The number the digits `s[i..j]` write in `base`, most significant first.
pub open spec fn digits_value(s: Seq<u8>, i: int, j: int, base: nat) -> nat
    decreases j - i,
{
    if j <= i {
        0
    } else {
        digits_value(s, i, j - 1, base) * base + digit_value(s[j - 1])
    }
}

/// Convert a character to the digit it stands for (36 for no digit).
pub fn char_to_digit(c: u8) -> (r: u32)
    ensures
        r == digit_value(c),
{
    if 48 <= c && c <= 57 {
        (c - 48) as u32
    } else if 97 <= c && c <= 122 {
        (c - 87) as u32
    } else if 65 <= c && c <= 90 {
        (c - 55) as u32
    } else {
        36
    }
}

/// A run of digits that stops at the end or at a non-digit is the run
/// `digits_end` finds.
pub proof fn lemma_digits_end(s: Seq<u8>, i: nat, j: nat, base: nat)
    requires
        i <= j <= s.len(),
        forall|k: int| i <= k < j ==> is_digit(#[trigger] s[k], base),
        j == s.len() || !is_digit(s[j as int], base),
    ensures
        digits_end(s, i, base) == j,
    decreases j - i,
{
    if i < j {
        lemma_digits_end(s, i + 1, j, base);
    }
}

/// The bytes from `i` up to `digits_end` are digits, and it stays within
/// the bytes.
pub proof fn lemma_digits_end_bounds(s: Seq<u8>, i: nat, base: nat)
    requires
        i <= s.len(),
    ensures
        i <= digits_end(s, i, base) <= s.len(),
        forall|k: int| i <= k < digits_end(s, i, base) ==> is_digit(#[trigger] s[k], base),
        digits_end(s, i, base) == s.len() || !is_digit(s[digits_end(s, i, base) as int], base),
    decreases s.len() - i,
{
    if i < s.len() && is_digit(s[i as int], base) {
        lemma_digits_end_bounds(s, i + 1, base);
    }
}

/// Digits `s[i..j]` write a number below `base^(j-i)`.
pub proof fn lemma_digits_value_bound(s: Seq<u8>, i: int, j: int, base: nat)
    requires
        0 <= i <= j <= s.len(),
        forall|k: int| i <= k < j ==> is_digit(#[trigger] s[k], base),
    ensures
        digits_value(s, i, j, base) < powi(base, (j - i) as nat),
    decreases j - i,
{
    if j > i {
        lemma_digits_value_bound(s, i, j - 1, base);
        let v = digits_value(s, i, j - 1, base);
        let p = powi(base, (j - 1 - i) as nat);
        let d = digit_value(s[j - 1]);
        assert(is_digit(s[j - 1], base));
        assert(v * base + d < p * base) by (nonlinear_arith)
            requires
                v < p,
                d < base,
        ;
        assert(powi(base, (j - i) as nat) == base * p);
    } else {
        assert(powi(base, 0) == 1);
    }
}

/// Splitting the digits `s[i..k]` at `j`.
pub proof fn lemma_digits_value_concat(s: Seq<u8>, i: int, j: int, k: int, base: nat)
    requires
        i <= j <= k,
    ensures
        digits_value(s, i, k, base) == digits_value(s, i, j, base) * powi(base, (k - j) as nat)
            + digits_value(s, j, k, base),
    decreases k - j,
{
    if k > j {
        lemma_digits_value_concat(s, i, j, k - 1, base);
        let a = digits_value(s, i, j, base);
        let p = powi(base, (k - 1 - j) as nat);
        let c = digits_value(s, j, k - 1, base);
        let d = digit_value(s[k - 1]);
        assert(digits_value(s, i, k, base) == digits_value(s, i, k - 1, base) * base + d);
        assert(digits_value(s, j, k, base) == c * base + d);
        assert(powi(base, (k - j) as nat) == base * p);
        assert((a * p + c) * base + d == a * (base * p) + (c * base + d)) by (nonlinear_arith);
    } else {
        assert(powi(base, 0) == 1);
        assert(digits_value(s, j, k, base) == 0);
        let a = digits_value(s, i, j, base);
        assert(a * 1 == a);
    }
}

/// Leading zero digits do not change the value.
pub proof fn lemma_digits_value_leading_zeros(s: Seq<u8>, i: int, j: int, k: int, base: nat)
    requires
        i <= j <= k,
        forall|t: int| i <= t < j ==> #[trigger] s[t] == 48u8,
    ensures
        digits_value(s, i, k, base) == digits_value(s, j, k, base),
    decreases j - i,
{
    if j > i {
        lemma_digits_value_leading_zeros(s, i + 1, j, k, base);
        lemma_digits_value_concat(s, i, i + 1, k, base);
        let z = digits_value(s, i, i, base);
        assert(z == 0);
        assert(z * base == 0) by (nonlinear_arith)
            requires
                z == 0,
        ;
        assert(s[i] == 48u8);
        assert(digit_value(s[i]) == 0);
        assert(digits_value(s, i, i + 1, base) == z * base + digit_value(s[i]));
        assert(digits_value(s, i, i + 1, base) == 0);
        let p = powi(base, (k - (i + 1)) as nat);
        assert(0 * p == 0) by (nonlinear_arith);
    }
}

} // verus!
