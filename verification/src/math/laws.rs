//! Laws that relate the big-integer operations on little-endian limbs,
//! stated over the values (`crate::limbs::value`) their contracts give.

use vstd::prelude::*;
use crate::limbs::{value, is_normalized, trim, pow2n, powi};
use crate::math::large::greater_spec;

verus! {

/// `small::sub` after `small::add` gives back the limbs: the sum `z` that
/// `small::add(x, y)` returns meets `sub`'s requirements, the subtraction
/// does not wrap, and the normalized difference `w` it returns is `x`.
pub proof fn lemma_small_add_then_sub(x: Seq<u32>, y: u32, z: Seq<u32>, w: Seq<u32>)
    requires
        is_normalized(x),
        value(z) == value(x) + y,
        x.len() == 0 ==> z == seq![y],
        x.len() > 0 ==> is_normalized(z),
        is_normalized(w),
        value(w) + y == value(z) + (if value(z) < y {
            crate::limbs::big_pow(z.len())
        } else {
            0
        }),
    ensures
        z.len() > 0,
        z[0] >= y || z.len() > 1,
        value(z) >= y,
        w == x,
{
    if x.len() > 0 && z.len() == 0 {
        assert(value(z) == 0);
        crate::limbs::lemma_value_zero_iff_empty(x);
    }
    if z.len() == 1 {
        assert(z.subrange(1, 1) =~= Seq::<u32>::empty());
        assert(value(Seq::<u32>::empty()) == 0);
        assert(value(z) == z[0]);
    }
    crate::limbs::lemma_normalized_unique(w, x);
}

/// The value of limbs padded with zeros is the number they pad.
proof fn lemma_value_padded(v: nat, n: nat)
    ensures
        value(crate::math::large::padded(v, n)) == v,
{
    crate::limbs::lemma_limbs_of(v);
    let l = crate::limbs::limbs_of(v);
    crate::limbs::lemma_value_append_zeros(l, (n - l.len()) as nat);
}

/// `large::sub` after `large::add` gives back the limbs: the sum that
/// `large::add(x, y)` returns (`sum_limbs(x, y)`) meets `sub`'s
/// requirements, and the normalized difference `w` it returns is `x`.
pub proof fn lemma_large_add_then_sub(x: Seq<u32>, y: Seq<u32>, w: Seq<u32>)
    requires
        is_normalized(x),
        is_normalized(y),
        is_normalized(w),
        value(w) == value(crate::math::large::sum_limbs(x, y)) - value(y),
    ensures
        crate::math::large::sum_limbs(x, y).len() >= y.len(),
        value(crate::math::large::sum_limbs(x, y)) >= value(y),
        w == x,
{
    let v = value(x) + value(y);
    let l = crate::math::large::max_len(x, y);
    lemma_value_padded(v, if v < crate::limbs::big_pow(l) { l } else { l + 1 });
    crate::math::large::lemma_sum_limbs_len(x, y);
    crate::limbs::lemma_normalized_unique(w, x);
}

/// `large::div` after `large::mul` gives back the limbs with no remainder:
/// for the product `p` that `large::mul(x, y)` returns, the normalized
/// quotient `q` that `large::div(p, y)` returns is `x`, and the remainder
/// `r` is worth zero.
pub proof fn lemma_large_mul_then_div(x: Seq<u32>, y: Seq<u32>, p: Seq<u32>, q: Seq<u32>, r: Seq<u32>)
    requires
        is_normalized(x),
        is_normalized(y),
        y.len() > 0,
        value(p) == value(x) * value(y),
        is_normalized(q),
        value(q) == value(p) / value(y),
        value(r) == value(p) % value(y),
    ensures
        q == x,
        value(r) == 0,
{
    crate::limbs::lemma_value_zero_iff_empty(y);
    let vy = value(y);
    vstd::arithmetic::div_mod::lemma_div_multiples_vanish(value(x) as int, vy as int);
    vstd::arithmetic::div_mod::lemma_mod_multiples_basic(value(x) as int, vy as int);
    assert(vy * value(x) == value(x) * vy) by (nonlinear_arith);
    crate::limbs::lemma_normalized_unique(q, x);
}

/// `small::shr` after `small::shl` by the same `n` bits gives back the
/// limbs and does not round up: for the shifted `z` that `small::shl(x, n)`
/// returns, the normalized `w` that `small::shr(z, n)` returns is `x`.
pub proof fn lemma_shl_then_shr(x: Seq<u32>, n: nat, z: Seq<u32>, w: Seq<u32>)
    requires
        is_normalized(x),
        value(z) == value(x) * pow2n(n),
        is_normalized(w),
        value(w) == value(z) / pow2n(n),
    ensures
        w == x,
        !crate::math::small::shr_roundup(z, n),
{
    crate::limbs::lemma_pow2n_pos(n);
    let p = pow2n(n);
    vstd::arithmetic::div_mod::lemma_div_multiples_vanish(value(x) as int, p as int);
    vstd::arithmetic::div_mod::lemma_mod_multiples_basic(value(x) as int, p as int);
    assert(p * value(x) == value(x) * p) by (nonlinear_arith);
    crate::limbs::lemma_normalized_unique(w, x);
}

/// Division is undone by multiplication and addition: for the quotient
/// `q` and remainder `r` that `large::div(x, y)` returns, the normalized
/// limbs `w` worth `q * y + r` (as `large::mul` then `large::add` give
/// them) are `x`, and the remainder is below the divisor.
pub proof fn lemma_div_then_mul_add(x: Seq<u32>, y: Seq<u32>, q: Seq<u32>, r: Seq<u32>, w: Seq<u32>)
    requires
        is_normalized(x),
        is_normalized(y),
        y.len() > 0,
        value(q) == value(x) / value(y),
        value(r) == value(x) % value(y),
        is_normalized(w),
        value(w) == value(q) * value(y) + value(r),
    ensures
        w == x,
        value(r) < value(y),
{
    crate::limbs::lemma_value_zero_iff_empty(y);
    vstd::arithmetic::div_mod::lemma_fundamental_div_mod(value(x) as int, value(y) as int);
    assert(value(y) * value(q) == value(q) * value(y)) by (nonlinear_arith);
    crate::limbs::lemma_normalized_unique(w, x);
}

/// Normalizing twice is normalizing once (`small::normalize`).
pub proof fn lemma_normalize_idempotent(s: Seq<u32>)
    ensures
        trim(trim(s)) == trim(s),
        value(trim(s)) == value(s),
{
    crate::limbs::lemma_trim(s);
    crate::limbs::lemma_trim(trim(s));
}

/// On normalized buffers the comparisons order by value, and exactly one
/// of `x > y`, `y > x` and `x == y` holds (`large::greater`, `less`,
/// `equal` and the rest).
pub proof fn lemma_compare_by_value(x: Seq<u32>, y: Seq<u32>)
    requires
        is_normalized(x),
        is_normalized(y),
    ensures
        greater_spec(x, y) == (value(x) > value(y)),
        greater_spec(y, x) == (value(y) > value(x)),
        (x == y) == (value(x) == value(y)),
{
    crate::math::large::lemma_greater_spec_normalized(x, y);
    crate::math::large::lemma_greater_spec_normalized(y, x);
    if value(x) == value(y) {
        crate::limbs::lemma_normalized_unique(x, y);
    }
}

/// Powers add their exponents: the normalized product `w` (as
/// `large::mul` gives it) of `small::pow(x, a)` and `small::pow(x, b)` is
/// `small::pow(x, a + b)`.
pub proof fn lemma_pow_add(x: Seq<u32>, a: nat, b: nat, pa: Seq<u32>, pb: Seq<u32>, w: Seq<u32>, pab: Seq<u32>)
    requires
        value(pa) == powi(value(x), a),
        value(pb) == powi(value(x), b),
        is_normalized(w),
        value(w) == value(pa) * value(pb),
        is_normalized(pab),
        value(pab) == powi(value(x), a + b),
    ensures
        w == pab,
{
    crate::limbs::lemma_powi_add(value(x), a, b);
    crate::limbs::lemma_normalized_unique(w, pab);
}

} // verus!
