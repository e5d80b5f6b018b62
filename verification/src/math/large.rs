//! Large-to-large operations, to modify a big integer from another big integer.

use vstd::prelude::*;
use crate::limbs::{
    lemma_div_mod_unique, pow2n, value, is_normalized, limb_base, big_pow, zeros, lemma_value_order_at, lemma_value_split,
    lemma_value_take_step, lemma_value_bound, lemma_value_update, lemma_big_pow_pos,
    lemma_big_pow_add, lemma_value_append_zeros, lemma_normalized_by_value,
    lemma_normalized_by_lower_bound, lemma_value_lower_bound, lemma_big_pow_mono,
};

verus! {

/// Whether `x` stands before `y` in the ordering the comparisons use:
/// a longer buffer is larger, and equal lengths compare by value.
pub open spec fn greater_spec(x: Seq<u32>, y: Seq<u32>) -> bool {
    x.len() > y.len() || (x.len() == y.len() && value(x) > value(y))
}

/// Compare two equal-length buffers from the most-significant limb down.
fn compare_same_len(x: &[u32], y: &[u32]) -> (r: (bool, bool))
    requires
        x@.len() == y@.len(),
    ensures
        r.0 == (value(x@) > value(y@)),
        r.1 == (value(x@) < value(y@)),
{
    let mut i = x.len();
    while i > 0
        invariant
            x@.len() == y@.len(),
            i <= x@.len(),
            forall|j: int| i <= j < x@.len() ==> x@[j] == y@[j],
        decreases i,
    {
        let k = i - 1;
        if x[k] > y[k] {
            proof {
                lemma_value_order_at(x@, y@, k as int);
            }
            return (true, false);
        } else if x[k] < y[k] {
            proof {
                lemma_value_order_at(y@, x@, k as int);
            }
            return (false, true);
        }
        i = k;
    }
    proof {
        assert(x@ =~= y@);
    }
    (false, false)
}

/// Check if x is greater than y.
pub fn greater(x: &[u32], y: &[u32]) -> (r: bool)
    ensures
        r == greater_spec(x@, y@),
{
    if x.len() > y.len() {
        true
    } else if x.len() < y.len() {
        false
    } else {
        compare_same_len(x, y).0
    }
}

/// Check if x is greater than or equal to y.
pub fn greater_equal(x: &[u32], y: &[u32]) -> (r: bool)
    ensures
        r == !greater_spec(y@, x@),
{
    !less(x, y)
}

/// Check if x is less than y.
pub fn less(x: &[u32], y: &[u32]) -> (r: bool)
    ensures
        r == greater_spec(y@, x@),
{
    if x.len() > y.len() {
        false
    } else if x.len() < y.len() {
        true
    } else {
        compare_same_len(x, y).1
    }
}

/// Check if x is less than or equal to y.
pub fn less_equal(x: &[u32], y: &[u32]) -> (r: bool)
    ensures
        r == !greater_spec(x@, y@),
{
    !greater(x, y)
}

/// Check if x is equal to y.
pub fn equal(x: &[u32], y: &[u32]) -> (r: bool)
    ensures
        r == (x@ == y@),
{
    if x.len() != y.len() {
        return false;
    }
    let mut i = x.len();
    while i > 0
        invariant
            x@.len() == y@.len(),
            i <= x@.len(),
            forall|j: int| i <= j < x@.len() ==> x@[j] == y@[j],
        decreases i,
    {
        let k = i - 1;
        if x[k] != y[k] {
            return false;
        }
        i = k;
    }
    proof {
        assert(x@ =~= y@);
    }
    true
}

/// The limbs of `v` padded with zero limbs up to `n` limbs.
pub open spec fn padded(v: nat, n: nat) -> Seq<u32> {
    let l = crate::limbs::limbs_of(v);
    l + zeros((n - l.len()) as nat)
}

/// The longer of two lengths.
pub open spec fn max_len(x: Seq<u32>, y: Seq<u32>) -> nat {
    if x.len() >= y.len() {
        x.len()
    } else {
        y.len()
    }
}

/// The limbs of a sum: as many as the longer operand, one more on a carry
/// out of the top.
pub open spec fn sum_limbs(x: Seq<u32>, y: Seq<u32>) -> Seq<u32> {
    let v = value(x) + value(y);
    let l = max_len(x, y);
    padded(v, if v < big_pow(l) { l } else { l + 1 })
}

/// The limbs of a sum are at most one longer than the longer operand.
pub proof fn lemma_sum_limbs_len(x: Seq<u32>, y: Seq<u32>)
    ensures
        sum_limbs(x, y).len() <= max_len(x, y) + 1,
        sum_limbs(x, y).len() >= max_len(x, y),
{
    let v = value(x) + value(y);
    let l = max_len(x, y);
    let n = if v < big_pow(l) { l } else { l + 1 };
    lemma_value_bound(x);
    lemma_value_bound(y);
    crate::limbs::lemma_big_pow_mono(x.len(), l);
    crate::limbs::lemma_big_pow_mono(y.len(), l);
    assert(big_pow(l + 1) == limb_base() * big_pow(l));
    crate::limbs::lemma_limbs_of(v);
    crate::limbs::lemma_normalized_len_bound(crate::limbs::limbs_of(v), n);
}

/// A sequence is its value's limbs, padded to its length.
proof fn lemma_padded_unique(s: Seq<u32>)
    ensures
        s == padded(value(s), s.len()),
{
    let t = crate::limbs::trim(s);
    crate::limbs::lemma_trim(s);
    crate::limbs::lemma_normalized_is_limbs_of(t);
    let p = padded(value(s), s.len());
    assert(p.len() == s.len());
    assert forall|i: int| 0 <= i < s.len() implies p[i] == s[i] by {
        if i < t.len() {
            assert(t[i] == s[i]);
        }
    }
    assert(p =~= s);
}

/// Implied AddAssign implementation for bigints.
///
/// Allows us to choose a start-index in x to store, so we can avoid
/// padding the buffer with zeros when not needed.
pub fn iadd_impl(x: &mut Vec<u32>, y: &[u32], xstart: usize)
    requires
        xstart <= old(x)@.len(),
        y@.len() + xstart <= usize::MAX,
    ensures
        value(final(x)@) == value(old(x)@) + value(y@) * big_pow(xstart as nat),
        final(x)@.len() >= old(x)@.len(),
        final(x)@.len() >= y@.len() + xstart,
        final(x)@.len() <= (if old(x)@.len() > y@.len() + xstart { old(x)@.len() } else {
            (y@.len() + xstart) as nat
        }) + 1,
        final(x)@.len() == (if old(x)@.len() > y@.len() + xstart { old(x)@.len() } else {
            (y@.len() + xstart) as nat
        }) + 1 ==> final(x)@.last() != 0,
        is_normalized(old(x)@) && is_normalized(y@) ==> is_normalized(final(x)@),
{
    let ghost xs = old(x)@;
    let ghost ys = y@;
    let ghost bs = big_pow(xstart as nat);
    if y.len() > x.len() - xstart {
        x.resize(y.len() + xstart, 0);
        proof {
            assert(x@ =~= xs + zeros((y@.len() + xstart - xs.len()) as nat));
            lemma_value_append_zeros(xs, (y@.len() + xstart - xs.len()) as nat);
        }
    }
    let ghost x1 = x@;
    let mut carry = false;
    let mut i: usize = 0;
    proof {
        lemma_big_pow_pos(xstart as nat);
        assert(ys.take(0) =~= Seq::<u32>::empty());
        assert(value(Seq::<u32>::empty()) == 0);
        assert(value(ys.take(0)) * bs == 0) by (nonlinear_arith)
            requires
                value(ys.take(0)) == 0,
        ;
        assert(big_pow(0) == 1);
    }
    while i < y.len()
        invariant
            x@.len() == x1.len(),
            x1.len() >= ys.len() + xstart,
            y@ == ys,
            i <= ys.len(),
            ys.len() + xstart <= usize::MAX,
            bs == big_pow(xstart as nat),
            forall|j: int| xstart + i <= j < x1.len() ==> x@[j] == x1[j],
            value(x@) + (if carry { 1nat } else { 0nat }) * big_pow((xstart + i) as nat) == value(
                x1,
            ) + value(ys.take(i as int)) * bs,
        decreases ys.len() - i,
    {
        let k = xstart + i;
        let mut t = x[k];
        let ghost old_t = t;
        let ghost old_carry: nat = if carry { 1 } else { 0 };
        let mut tmp = crate::math::scalar::iadd(&mut t, y[i]);
        if carry {
            let c2 = crate::math::scalar::iadd(&mut t, 1);
            tmp = tmp || c2;
        }
        let ghost before = x@;
        x.set(k, t);
        proof {
            let c: nat = if tmp { 1 } else { 0 };
            // one limb of the sum, with carry in and carry out
            assert(t + c * limb_base() == old_t + ys[i as int] + old_carry) by {
                if carry {
                    assert(old_t + ys[i as int] < 2 * limb_base());
                }
            }
            assert(old_t == x1[k as int]);
            lemma_value_update(before, k as int, t);
            lemma_value_take_step(ys, i as int);
            let bk = big_pow(k as nat);
            let bi = big_pow(i as nat);
            lemma_big_pow_add(xstart as nat, i as nat);
            assert(big_pow((k + 1) as nat) == limb_base() * bk);
            let yi = ys[i as int] as nat;
            assert(c * (limb_base() * bk) + t * bk == old_t * bk + yi * (bs * bi) + old_carry * bk)
                by (nonlinear_arith)
                requires
                    t + c * limb_base() == old_t + yi + old_carry,
                    bk == bs * bi,
            ;
            let vy = value(ys.take(i as int));
            assert((vy + yi * bi) * bs == vy * bs + yi * (bs * bi)) by (nonlinear_arith);
        }
        carry = tmp;
        i += 1;
    }
    proof {
        assert(ys.take(ys.len() as int) =~= ys);
    }
    if carry {
        let ghost before = x@;
        crate::math::small::iadd_impl(x, 1, y.len() + xstart);
        proof {
            if before.len() <= ys.len() + xstart {
                crate::limbs::lemma_value_push(before, 1);
            }
        }
    }
    proof {
        let vy = value(ys);
        assert(vy * bs >= 0) by (nonlinear_arith);
        if is_normalized(xs) && is_normalized(ys) {
            if x@.len() == xs.len() {
                lemma_normalized_by_value(xs, x@);
            } else if ys.len() > 0 && x@.len() == ys.len() + xstart {
                lemma_value_lower_bound(ys);
                let lo = big_pow((ys.len() - 1) as nat);
                assert(vy * bs >= lo * bs) by (nonlinear_arith)
                    requires
                        vy >= lo,
                ;
                lemma_big_pow_add((ys.len() - 1) as nat, xstart as nat);
                assert(((ys.len() - 1) as nat + xstart as nat) as nat == (x@.len() - 1) as nat);
                assert(lo * bs == bs * lo) by (nonlinear_arith);
                lemma_normalized_by_lower_bound(x@);
            }
        }
    }
}

/// AddAssign bigint to bigint.
pub fn iadd(x: &mut Vec<u32>, y: &[u32])
    ensures
        value(final(x)@) == value(old(x)@) + value(y@),
        is_normalized(old(x)@) && is_normalized(y@) ==> is_normalized(final(x)@),
        final(x)@ == sum_limbs(old(x)@, y@),
{
    proof {
        assert(big_pow(0) == 1);
    }
    let _n = y.len();
    crate::math::large::iadd_impl(x, y, 0);
    proof {
        let l = max_len(old(x)@, y@);
        assert(value(final(x)@) == value(old(x)@) + value(y@) * 1);
        if final(x)@.len() == l + 1 {
            crate::limbs::lemma_value_lower_bound(final(x)@);
        } else {
            lemma_value_bound(final(x)@);
        }
        lemma_padded_unique(final(x)@);
    }
}

/// Add bigint to bigint.
pub fn add(x: &[u32], y: &[u32]) -> (z: Vec<u32>)
    ensures
        value(z@) == value(x@) + value(y@),
        is_normalized(x@) && is_normalized(y@) ==> is_normalized(z@),
        z@ == sum_limbs(x@, y@),
{
    let mut z = crate::math::small::copy_limbs(x);
    crate::math::large::iadd(&mut z, y);
    z
}

/// SubAssign bigint to bigint.
/// Does no overflow checking: x must be >= y.
pub fn isub(x: &mut Vec<u32>, y: &[u32])
    requires
        old(x)@.len() >= y@.len(),
        value(old(x)@) >= value(y@),
    ensures
        value(final(x)@) == value(old(x)@) - value(y@),
        is_normalized(final(x)@),
        final(x)@.len() <= old(x)@.len(),
{
    let ghost xs = old(x)@;
    let ghost ys = y@;
    let mut carry = false;
    let mut i: usize = 0;
    proof {
        assert(ys.take(0) =~= Seq::<u32>::empty());
        assert(xs.take(0) =~= Seq::<u32>::empty());
        assert(x@.take(0) =~= Seq::<u32>::empty());
        assert(value(Seq::<u32>::empty()) == 0);
        assert(big_pow(0) == 1);
    }
    while i < y.len()
        invariant
            x@.len() == xs.len(),
            xs.len() >= ys.len(),
            y@ == ys,
            i <= ys.len(),
            forall|j: int| i <= j < xs.len() ==> x@[j] == xs[j],
            value(x@.take(i as int)) + value(ys.take(i as int)) == value(xs.take(i as int)) + (if carry {
                1nat
            } else {
                0nat
            }) * big_pow(i as nat),
        decreases ys.len() - i,
    {
        let mut t = x[i];
        let ghost old_t = t;
        let ghost old_carry: nat = if carry { 1 } else { 0 };
        let mut tmp = crate::math::scalar::isub(&mut t, y[i]);
        if carry {
            let c2 = crate::math::scalar::isub(&mut t, 1);
            tmp = tmp || c2;
        }
        let ghost before = x@;
        x.set(i, t);
        proof {
            let c: nat = if tmp { 1 } else { 0 };
            assert(t + ys[i as int] + old_carry == old_t + c * limb_base()) by {
                if carry {
                    assert(old_t >= 0);
                }
            }
            assert(old_t == xs[i as int]);
            lemma_value_take_step(x@, i as int);
            lemma_value_take_step(xs, i as int);
            lemma_value_take_step(ys, i as int);
            assert(x@.take(i as int) =~= before.take(i as int));
            let bi = big_pow(i as nat);
            assert(big_pow((i + 1) as nat) == limb_base() * bi);
            let yi = ys[i as int] as nat;
            assert(t * bi + yi * bi + old_carry * bi == old_t * bi + c * (limb_base() * bi))
                by (nonlinear_arith)
                requires
                    t + yi + old_carry == old_t + c * limb_base(),
            ;
        }
        carry = tmp;
        i += 1;
    }
    let n = y.len();
    proof {
        assert(ys.take(n as int) =~= ys);
        lemma_value_split(xs, n as int);
        lemma_value_split(x@, n as int);
        assert(x@.skip(n as int) =~= xs.skip(n as int));
        lemma_value_bound(x@.take(n as int));
        lemma_big_pow_pos(n as nat);
    }
    if carry {
        proof {
            let h = value(xs.skip(n as int));
            let bn = big_pow(n as nat);
            if h == 0 {
                assert(bn * h == 0) by (nonlinear_arith)
                    requires
                        h == 0,
                ;
                assert(false);
            }
            if xs.len() == n {
                assert(xs.skip(n as int).len() == 0);
                assert(false);
            }
            if xs[n as int] == 0 && xs.len() == n + 1 {
                let sk = xs.skip(n as int);
                assert(sk.subrange(1, sk.len() as int) =~= Seq::<u32>::empty());
                assert(value(Seq::<u32>::empty()) == 0);
                assert(sk[0] == 0);
                assert(value(sk) == 0);
                assert(false);
            }
            assert(bn * h >= bn) by (nonlinear_arith)
                requires
                    h >= 1,
            ;
        }
        let ghost before = x@;
        crate::math::small::isub_impl(x, 1, n);
        proof {
            assert(big_pow(n as nat) * 1 == big_pow(n as nat));
        }
    } else {
        crate::math::small::normalize(x);
    }
    proof {
        lemma_value_bound(xs);
        crate::limbs::lemma_normalized_len_bound(x@, xs.len());
    }
}

/// Sub bigint to bigint.
pub fn sub(x: &[u32], y: &[u32]) -> (z: Vec<u32>)
    requires
        x@.len() >= y@.len(),
        value(x@) >= value(y@),
    ensures
        value(z@) == value(x@) - value(y@),
        is_normalized(z@),
{
    let mut z = crate::math::small::copy_limbs(x);
    crate::math::large::isub(&mut z, y);
    z
}

/// Grade-school multiplication algorithm.
///
/// Multiplies `x` by every limb of `y` and accumulates the shifted products.
fn long_mul(x: &[u32], y: &[u32]) -> (z: Vec<u32>)
    requires
        x@.len() + y@.len() <= usize::MAX,
    ensures
        value(z@) == value(x@) * value(y@),
        is_normalized(z@),
        z@.len() <= x@.len() + y@.len(),
{
    let ghost xs = x@;
    let ghost ys = y@;
    let mut z: Vec<u32> = Vec::new();
    z.resize(x.len() + y.len(), 0);
    proof {
        assert(z@ =~= Seq::<u32>::empty() + zeros((xs.len() + ys.len()) as nat));
        lemma_value_append_zeros(Seq::<u32>::empty(), (xs.len() + ys.len()) as nat);
        assert(value(Seq::<u32>::empty()) == 0);
        assert(ys.take(0) =~= Seq::<u32>::empty());
        assert(value(xs) * 0 == 0);
    }
    let mut i: usize = 0;
    while i < y.len()
        invariant
            x@ == xs,
            y@ == ys,
            xs.len() + ys.len() <= usize::MAX,
            i <= ys.len(),
            z@.len() >= xs.len() + ys.len(),
            value(z@) == value(xs) * value(ys.take(i as int)),
        decreases ys.len() - i,
    {
        let mut xi = crate::math::small::copy_limbs(x);
        crate::math::small::imul(&mut xi, y[i]);
        proof {
            assert(xi@.len() <= xs.len() + 1);
        }
        crate::math::large::iadd_impl(&mut z, xi.as_slice(), i);
        proof {
            lemma_value_take_step(ys, i as int);
            let vx = value(xs);
            let vy = value(ys.take(i as int));
            let yi = ys[i as int] as nat;
            let bi = big_pow(i as nat);
            assert(vx * vy + (vx * yi) * bi == vx * (vy + yi * bi)) by (nonlinear_arith);
        }
        i += 1;
    }
    proof {
        assert(ys.take(ys.len() as int) =~= ys);
    }
    crate::math::small::normalize(&mut z);
    proof {
        lemma_value_bound(xs);
        lemma_value_bound(ys);
        lemma_big_pow_add(xs.len(), ys.len());
        let a = value(xs);
        let b = value(ys);
        let pa = big_pow(xs.len());
        let pb = big_pow(ys.len());
        assert(a * b < pa * pb) by (nonlinear_arith)
            requires
                a < pa,
                b < pb,
        ;
        crate::limbs::lemma_normalized_len_bound(z@, (xs.len() + ys.len()) as nat);
    }
    z
}

/// Split a buffer at `m` into its low and high limbs: `(z[..m], z[m..])`.
pub fn karatsuba_split<'a>(z: &'a [u32], m: usize) -> (r: (&'a [u32], &'a [u32]))
    requires
        m <= z@.len(),
    ensures
        r.0@ == z@.subrange(0, m as int),
        r.1@ == z@.subrange(m as int, z@.len() as int),
        value(z@) == value(r.0@) + big_pow(m as nat) * value(r.1@),
{
    proof {
        lemma_value_split(z@, m as int);
        assert(z@.take(m as int) =~= z@.subrange(0, m as int));
        assert(z@.skip(m as int) =~= z@.subrange(m as int, z@.len() as int));
    }
    z.split_at(m)
}

/// Number of limbs at which to bottom out to long multiplication.
pub const DIGITS_CUTOFF: usize = 30;

/// The measure that orders the calls between `karatsuba_mul` and
/// `karatsuba_uneven_mul`.
pub open spec fn uneven_rank(x: Seq<u32>, y: Seq<u32>) -> nat {
    if x.len() >= y.len() {
        2
    } else {
        0
    }
}

/// A normalized number of at least `B^(n-1)` has at least `n` limbs.
proof fn lemma_product_len(x: Seq<u32>, y: Seq<u32>, z: Seq<u32>)
    requires
        is_normalized(z),
        value(z) == value(x) * value(y),
    ensures
        z.len() <= x.len() + y.len(),
{
    lemma_value_bound(x);
    lemma_value_bound(y);
    crate::limbs::lemma_big_pow_add(x.len(), y.len());
    let vx = value(x);
    let vy = value(y);
    let px = big_pow(x.len());
    let py = big_pow(y.len());
    assert(vx * vy < px * py) by (nonlinear_arith)
        requires
            vx < px,
            vy < py,
            vx >= 0,
            vy >= 0,
    ;
    crate::limbs::lemma_normalized_len_bound(z, x.len() + y.len());
}

/// Karatsuba multiplication algorithm with roughly equal input sizes.
///
/// Splits both at half of `y`'s length and does three multiplications; the
/// low product is padded with zero limbs to where the others are added.
pub fn karatsuba_mul(x: &[u32], y: &[u32]) -> (z: Vec<u32>)
    requires
        x@.len() + y@.len() + 4 <= usize::MAX,
    ensures
        value(z@) == value(x@) * value(y@),
        is_normalized(z@),
        z@.len() <= x@.len() + y@.len(),
    decreases y@.len(), 1nat,
{
    if y.len() <= DIGITS_CUTOFF {
        // Bottom-out to long multiplication for small cases.
        long_mul(x, y)
    } else if x.len() < y.len() / 2 {
        karatsuba_uneven_mul(x, y)
    } else {
        // Do our 3 multiplications.
        let m = y.len() / 2;
        let (xl, xh) = karatsuba_split(x, m);
        let (yl, yh) = karatsuba_split(y, m);
        let sumx = crate::math::large::add(xl, xh);
        let sumy = crate::math::large::add(yl, yh);
        let ghost a = value(xl@);
        let ghost b = value(xh@);
        let ghost c = value(yl@);
        let ghost d = value(yh@);
        proof {
            lemma_sum_limbs_len(xl@, xh@);
            lemma_sum_limbs_len(yl@, yh@);
        }
        let z0 = karatsuba_mul(xl, yl);
        let mut z1 = karatsuba_mul(sumx.as_slice(), sumy.as_slice());
        let z2 = karatsuba_mul(xh, yh);
        // Properly scale z1, which is `z1 - z2 - z0`.
        proof {
            assert((a + b) * (c + d) == a * c + (a * d + b * c) + b * d) by (nonlinear_arith);
            assert(a * c >= 0 && a * d + b * c >= 0) by (nonlinear_arith);
            crate::limbs::lemma_normalized_len_le(z2@, z1@);
        }
        isub(&mut z1, z2.as_slice());
        proof {
            crate::limbs::lemma_normalized_len_le(z0@, z1@);
        }
        isub(&mut z1, z0.as_slice());
        // Create our result, which is equal to, in little-endian order:
        // [z0, z1 - z2 - z0, z2], with z0 padded to the shifts.
        let mut result = crate::math::small::copy_limbs(z0.as_slice());
        if result.len() < 2 * m {
            let ghost before = result@;
            result.resize(2 * m, 0);
            proof {
                assert(result@ =~= before + zeros((2 * m - before.len()) as nat));
                crate::limbs::lemma_value_append_zeros(before, (2 * m - before.len()) as nat);
            }
        }
        proof {
            lemma_value_bound(z1@);
        }
        iadd_impl(&mut result, z1.as_slice(), m);
        iadd_impl(&mut result, z2.as_slice(), 2 * m);
        crate::math::small::normalize(&mut result);
        proof {
            let bm = big_pow(m as nat);
            crate::limbs::lemma_big_pow_add(m as nat, m as nat);
            assert(value(x@) == a + bm * b && value(y@) == c + bm * d);
            assert((a + bm * b) * (c + bm * d) == a * c + (a * d + b * c) * bm + b * d * (bm
                * bm)) by (nonlinear_arith);
            lemma_product_len(x@, y@, result@);
        }
        result
    }
}

/// Karatsuba multiplication algorithm where y is substantially larger than x.
///
/// Multiplies `x` by each chunk of `y` as long as `x` and adds the shifted
/// products. With `x` empty the product is zero at once.
pub fn karatsuba_uneven_mul(x: &[u32], y: &[u32]) -> (z: Vec<u32>)
    requires
        x@.len() + y@.len() + 4 <= usize::MAX,
    ensures
        value(z@) == value(x@) * value(y@),
        is_normalized(z@),
        z@.len() <= x@.len() + y@.len(),
    decreases y@.len(), uneven_rank(x@, y@),
{
    let mut result: Vec<u32> = Vec::new();
    result.resize(x.len() + y.len(), 0);
    proof {
        assert(result@ =~= zeros((x@.len() + y@.len()) as nat));
        crate::limbs::lemma_value_zeros((x@.len() + y@.len()) as nat);
        assert(y@.subrange(0, 0) =~= Seq::<u32>::empty());
        assert(value(Seq::<u32>::empty()) == 0);
        assert(y@.subrange(0, y@.len() as int) =~= y@);
        assert(value(x@) * 0 == 0) by (nonlinear_arith);
    }
    let mut start: usize = 0;
    let mut rest: &[u32] = y;
    while rest.len() != 0 && x.len() != 0
        invariant
            start + rest@.len() == y@.len(),
            rest@ == y@.subrange(start as int, y@.len() as int),
            result@.len() >= x@.len() + y@.len(),
            value(result@) == value(x@) * value(y@.subrange(0, start as int)),
            x@.len() + y@.len() + 4 <= usize::MAX,
        decreases rest@.len(),
    {
        let m = if x.len() < rest.len() {
            x.len()
        } else {
            rest.len()
        };
        let (yl, yh) = karatsuba_split(rest, m);
        proof {
            assert(rest@.len() <= y@.len());
            assert(rest@.len() == y@.len() ==> start == 0);
        }
        let prod = karatsuba_mul(x, yl);
        let ghost before = value(result@);
        iadd_impl(&mut result, prod.as_slice(), start);
        proof {
            let t = y@.subrange(0, (start + m) as int);
            assert(t.subrange(0, start as int) =~= y@.subrange(0, start as int));
            assert(t.subrange(start as int, (start + m) as int) =~= yl@);
            lemma_value_split(t, start as int);
            assert(t.take(start as int) =~= y@.subrange(0, start as int));
            assert(t.skip(start as int) =~= yl@);
            let vx = value(x@);
            let lo = value(y@.subrange(0, start as int));
            let bs = big_pow(start as nat);
            let vl = value(yl@);
            assert(vx * lo + vx * vl * bs == vx * (lo + bs * vl)) by (nonlinear_arith);
            assert(yh@ =~= y@.subrange((start + m) as int, y@.len() as int));
        }
        rest = yh;
        start = start + m;
    }
    proof {
        if x@.len() == 0 {
            assert(value(x@) == 0) by {
                assert(x@ =~= Seq::<u32>::empty());
            }
            assert(value(x@) * value(y@) == 0) by (nonlinear_arith)
                requires
                    value(x@) == 0,
            ;
            assert(value(x@) * value(y@.subrange(0, start as int)) == 0) by (nonlinear_arith)
                requires
                    value(x@) == 0,
            ;
        } else {
            assert(y@.subrange(0, start as int) =~= y@);
        }
    }
    crate::math::small::normalize(&mut result);
    proof {
        lemma_product_len(x@, y@, result@);
    }
    result
}

/// Forwarder to the proper Karatsuba algorithm: the shorter operand goes
/// first.
pub fn karatsuba_mul_fwd(x: &[u32], y: &[u32]) -> (z: Vec<u32>)
    requires
        x@.len() + y@.len() + 4 <= usize::MAX,
    ensures
        value(z@) == value(x@) * value(y@),
        is_normalized(z@),
        z@.len() <= x@.len() + y@.len(),
{
    if x.len() < y.len() {
        karatsuba_mul(x, y)
    } else {
        let z = karatsuba_mul(y, x);
        proof {
            assert(value(y@) * value(x@) == value(x@) * value(y@)) by (nonlinear_arith);
        }
        z
    }
}

/// MulAssign bigint to bigint.
pub fn imul(x: &mut Vec<u32>, y: &[u32])
    requires
        old(x)@.len() + y@.len() <= usize::MAX,
    ensures
        value(final(x)@) == value(old(x)@) * value(y@),
        y@.len() != 1 ==> is_normalized(final(x)@),
        y@.len() == 1 && is_normalized(old(x)@) && y@[0] != 0 ==> is_normalized(final(x)@),
        final(x)@.len() <= old(x)@.len() + y@.len(),
{
    if y.len() == 1 {
        proof {
            assert(y@.subrange(1, 1) =~= Seq::<u32>::empty());
            assert(value(Seq::<u32>::empty()) == 0);
            assert(value(y@) == y@[0]);
        }
        crate::math::small::imul(x, y[0]);
    } else {
        let z = long_mul(x.as_slice(), y);
        *x = z;
    }
}

/// Mul bigint to bigint.
pub fn mul(x: &[u32], y: &[u32]) -> (z: Vec<u32>)
    requires
        x@.len() + y@.len() <= usize::MAX,
    ensures
        value(z@) == value(x@) * value(y@),
        y@.len() != 1 ==> is_normalized(z@),
        y@.len() == 1 && is_normalized(x@) && y@[0] != 0 ==> is_normalized(z@),
        z@.len() <= x@.len() + y@.len(),
{
    let mut z = crate::math::small::copy_limbs(x);
    crate::math::large::imul(&mut z, y);
    z
}

/// For normalized buffers, the ordering of the comparisons is that of the
/// values.
pub proof fn lemma_greater_spec_normalized(x: Seq<u32>, y: Seq<u32>)
    requires
        is_normalized(x),
        is_normalized(y),
    ensures
        greater_spec(x, y) == (value(x) > value(y)),
{
    if value(x) <= value(y) {
        crate::limbs::lemma_normalized_len_le(x, y);
    } else {
        crate::limbs::lemma_normalized_len_le(y, x);
    }
}

/// One limb of `x - q*y` with a running carry (of the product) and borrow
/// (of the difference).
proof fn lemma_submul_step(xj: nat, yj: nat, q: nat, carry: nat, borrow: nat, stored: nat, c2: nat,
    b2: nat)
    requires
        stored + (yj * q + carry) % limb_base() + borrow == xj + b2 * limb_base(),
        c2 == (yj * q + carry) / limb_base(),
    ensures
        stored + yj * q == xj + (b2 + c2) * limb_base() - (borrow + carry),
{
    let p = yj * q + carry;
    vstd::arithmetic::div_mod::lemma_fundamental_div_mod(p as int, limb_base() as int);
}

/// Subtract `q * y` from the limbs of `x`, `y` as long as `x`: the running
/// relation of the limbs written so far.
proof fn lemma_submul_invariant(
    xs: Seq<u32>,
    ys: Seq<u32>,
    xn: Seq<u32>,
    j: int,
    q: nat,
    carry: nat,
    borrow: nat,
    c2: nat,
    b2: nat,
)
    requires
        0 <= j < xs.len(),
        j < ys.len(),
        xn.len() == xs.len(),
        value(xn.take(j)) + q * value(ys.take(j)) == value(xs.take(j)) + (borrow + carry)
            * big_pow(j as nat),
        xn[j] + ys[j] * q == xs[j] + (b2 + c2) * limb_base() - (borrow + carry),
    ensures
        value(xn.take(j + 1)) + q * value(ys.take(j + 1)) == value(xs.take(j + 1)) + (b2 + c2)
            * big_pow((j + 1) as nat),
{
    lemma_value_take_step(xn, j);
    lemma_value_take_step(ys, j);
    lemma_value_take_step(xs, j);
    let bp = big_pow(j as nat);
    assert(big_pow((j + 1) as nat) == limb_base() * bp);
    let vx = value(xn.take(j));
    let vy = value(ys.take(j));
    let vs = value(xs.take(j));
    assert(vx + xn[j] * bp + q * (vy + ys[j] * bp) == vs + xs[j] * bp + (b2 + c2) * (limb_base()
        * bp)) by (nonlinear_arith)
        requires
            vx + q * vy == vs + (borrow + carry) * bp,
            xn[j] + ys[j] * q == xs[j] + (b2 + c2) * limb_base() - (borrow + carry),
    ;
}

/// The estimate of the quotient from the top limbs: `x.top / (y.top + 1)`.
pub open spec fn quorem_estimate(x: Seq<u32>, y: Seq<u32>) -> nat {
    (x.last() as nat) / ((y.last() + 1) as nat)
}

/// Emit a single digit for the quotient and store the remainder in-place.
///
/// An efficient division for small quotients: the estimate
/// `x.top / (y.top + 1)` never exceeds the quotient, and the caller knows
/// (from the leading zeros it gave the divisor) that it is off by at most
/// one, so one correction makes it exact.
pub fn quorem(x: &mut Vec<u32>, y: &[u32]) -> (q: u32)
    requires
        y@.len() > 0,
        is_normalized(y@),
        y@.last() < u32::MAX,
        is_normalized(old(x)@),
        old(x)@.len() <= y@.len(),
        old(x)@.len() == y@.len() ==> value(old(x)@) < (quorem_estimate(old(x)@, y@) + 2) * value(
            y@,
        ),
    ensures
        q == value(old(x)@) / value(y@),
        value(final(x)@) == value(old(x)@) % value(y@),
        is_normalized(final(x)@),
{
    let ghost xs = old(x)@;
    let ghost ys = y@;
    let ghost vy = value(ys);
    proof {
        crate::limbs::lemma_value_zero_iff_empty(ys);
    }
    let m = x.len();
    let n = y.len();
    if m < n {
        proof {
            lemma_greater_spec_normalized(ys, xs);
            vstd::arithmetic::div_mod::lemma_basic_div(value(xs) as int, vy as int);
            vstd::arithmetic::div_mod::lemma_small_mod(value(xs), vy);
        }
        return 0;
    }
    let xi = x[m - 1];
    let yi = y[n - 1];
    let mut q = xi / (yi + 1);
    proof {
        // The estimate never exceeds the quotient.
        crate::limbs::lemma_value_split(xs, (m - 1) as int);
        crate::limbs::lemma_value_split(ys, (n - 1) as int);
        assert(xs.skip(m - 1) =~= seq![xi]);
        assert(ys.skip(n - 1) =~= seq![yi]);
        crate::limbs::lemma_value_single(xi);
        crate::limbs::lemma_value_single(yi);
        lemma_value_bound(ys.take(n - 1));
        let bp = big_pow((n - 1) as nat);
        let rx = value(xs.take(m - 1));
        let ry = value(ys.take(n - 1));
        let qq = q as nat;
        assert(qq * (yi + 1) <= xi) by (nonlinear_arith)
            requires
                qq == (xi as nat) / ((yi + 1) as nat),
                yi + 1 > 0,
        ;
        assert(qq * vy <= value(xs)) by (nonlinear_arith)
            requires
                vy == ry + bp * yi,
                ry < bp,
                qq * (yi + 1) <= xi,
                value(xs) == rx + bp * xi,
        ;
        vstd::arithmetic::div_mod::lemma_div_is_ordered((qq * vy) as int, value(xs) as int,
            vy as int);
        vstd::arithmetic::div_mod::lemma_div_multiples_vanish(qq as int, vy as int);
    }
    if q != 0 {
        let mut borrow: u64 = 0;
        let mut carry: u64 = 0;
        let mut j: usize = 0;
        proof {
            assert(xs.take(0) =~= Seq::<u32>::empty());
            assert(ys.take(0) =~= Seq::<u32>::empty());
            assert(x@.take(0) =~= Seq::<u32>::empty());
            assert(value(Seq::<u32>::empty()) == 0);
            assert(big_pow(0) == 1);
            assert((q as nat) * 0 == 0) by (nonlinear_arith);
        }
        while j < m
            invariant
                m == xs.len(),
                n == ys.len(),
                m == n,
                ys == y@,
                x@.len() == m,
                j <= m,
                borrow <= 1,
                carry < limb_base(),
                q < limb_base(),
                x@.skip(j as int) == xs.skip(j as int),
                value(x@.take(j as int)) + q * value(ys.take(j as int)) == value(xs.take(j as int))
                    + (borrow + carry) * big_pow(j as nat),
            decreases m - j,
        {
            let ghost xn0 = x@;
            let yj = y[j] as u64;
            proof {
                assert(yj * (q as u64) <= 0xffff_ffffu64 * 0xffff_ffffu64) by (nonlinear_arith)
                    requires
                        yj < 0x1_0000_0000u64,
                        q < 0x1_0000_0000u64,
                ;
                assert(x@[j as int] == xs[j as int]) by {
                    assert(x@.skip(j as int)[0] == xs.skip(j as int)[0]);
                }
            }
            let p = yj * (q as u64) + carry;
            let c2 = p / 0x1_0000_0000;
            let low = p % 0x1_0000_0000;
            let sub = low + borrow;
            let xj = x[j] as u64;
            let b2: u64;
            if xj >= sub {
                x.set(j, (xj - sub) as u32);
                b2 = 0;
            } else {
                x.set(j, (xj + 0x1_0000_0000 - sub) as u32);
                b2 = 1;
            }
            proof {
                lemma_submul_step(xj as nat, yj as nat, q as nat, carry as nat, borrow as nat,
                    x@[j as int] as nat, c2 as nat, b2 as nat);
                assert(x@.take(j as int) =~= xn0.take(j as int));
                lemma_submul_invariant(xs, ys, x@, j as int, q as nat, carry as nat,
                    borrow as nat, c2 as nat, b2 as nat);
                assert(x@.skip(j + 1) =~= xs.skip(j + 1)) by {
                    assert forall|i: int| 0 <= i < x@.skip(j + 1).len() implies #[trigger] x@.skip(
                        j + 1,
                    )[i] == xs.skip(j + 1)[i] by {
                        assert(xn0.skip(j as int)[i + 1] == xs.skip(j as int)[i + 1]);
                    }
                }
                assert(c2 < limb_base()) by (nonlinear_arith)
                    requires
                        c2 == p / 0x1_0000_0000u64,
                        p <= 0xffff_ffffu64 * 0xffff_ffffu64 + 0xffff_ffffu64,
                ;
            }
            carry = c2;
            borrow = b2;
            j += 1;
        }
        proof {
            assert(x@.take(m as int) =~= x@);
            assert(xs.take(m as int) =~= xs);
            assert(ys.take(m as int) =~= ys);
            lemma_value_bound(x@);
            // The difference is non-negative and below B^m: no carry is left.
            if borrow + carry > 0 {
                assert((borrow + carry) * big_pow(m as nat) >= big_pow(m as nat)) by (nonlinear_arith)
                    requires
                        borrow + carry >= 1,
                ;
            }
            assert((borrow + carry) * big_pow(m as nat) == 0) by (nonlinear_arith)
                requires
                    borrow + carry == 0,
            ;
        }
        let ghost xb = x@;
        crate::math::small::normalize(x);
        proof {
            crate::limbs::lemma_trim(xb);
        }
    } else {
        proof {
            assert(0 * vy == 0);
        }
    }
    proof {
        assert(x@.len() <= m);
        assert(yi >= 1);
        assert(q <= 0x7fff_ffff) by (nonlinear_arith)
            requires
                q as nat == (xi as nat) / ((yi + 1) as nat),
                yi >= 1,
        ;
        assert(value(x@) + q * vy == value(xs));
        lemma_greater_spec_normalized(ys, x@);
        lemma_greater_spec_normalized(x@, ys);
    }
    // Check if we under-estimated x.
    if greater_equal(x, y) {
        let ghost x1 = x@;
        q += 1;
        let mut borrow: u64 = 0;
        let mut carry: u64 = 0;
        let mut j: usize = 0;
        proof {
            crate::limbs::lemma_normalized_len_le(ys, x1);
            assert(x1.take(0) =~= Seq::<u32>::empty());
            assert(ys.take(0) =~= Seq::<u32>::empty());
            assert(x@.take(0) =~= Seq::<u32>::empty());
            assert(value(Seq::<u32>::empty()) == 0);
            assert(big_pow(0) == 1);
        }
        while j < m
            invariant
                m == xs.len(),
                n == ys.len(),
                m == n,
                ys == y@,
                x1.len() == m,
                x@.len() == m,
                j <= m,
                borrow <= 1,
                carry < limb_base(),
                x@.skip(j as int) == x1.skip(j as int),
                value(x@.take(j as int)) + 1 * value(ys.take(j as int)) == value(x1.take(j as int))
                    + (borrow + carry) * big_pow(j as nat),
            decreases m - j,
        {
            let ghost xn0 = x@;
            let yj = y[j] as u64;
            proof {
                assert(x@[j as int] == x1[j as int]) by {
                    assert(x@.skip(j as int)[0] == x1.skip(j as int)[0]);
                }
            }
            let p = yj + carry;
            let c2 = p / 0x1_0000_0000;
            let low = p % 0x1_0000_0000;
            let sub = low + borrow;
            let xj = x[j] as u64;
            let b2: u64;
            if xj >= sub {
                x.set(j, (xj - sub) as u32);
                b2 = 0;
            } else {
                x.set(j, (xj + 0x1_0000_0000 - sub) as u32);
                b2 = 1;
            }
            proof {
                assert(yj * 1 == yj);
                lemma_submul_step(xj as nat, yj as nat, 1, carry as nat, borrow as nat,
                    x@[j as int] as nat, c2 as nat, b2 as nat);
                assert(x@.take(j as int) =~= xn0.take(j as int));
                lemma_submul_invariant(x1, ys, x@, j as int, 1, carry as nat, borrow as nat,
                    c2 as nat, b2 as nat);
                assert(x@.skip(j + 1) =~= x1.skip(j + 1)) by {
                    assert forall|i: int| 0 <= i < x@.skip(j + 1).len() implies #[trigger] x@.skip(
                        j + 1,
                    )[i] == x1.skip(j + 1)[i] by {
                        assert(xn0.skip(j as int)[i + 1] == x1.skip(j as int)[i + 1]);
                    }
                }
            }
            carry = c2;
            borrow = b2;
            j += 1;
        }
        proof {
            assert(x@.take(m as int) =~= x@);
            assert(x1.take(m as int) =~= x1);
            assert(ys.take(m as int) =~= ys);
            lemma_value_bound(x@);
            if borrow + carry > 0 {
                assert((borrow + carry) * big_pow(m as nat) >= big_pow(m as nat)) by (nonlinear_arith)
                    requires
                        borrow + carry >= 1,
                ;
            }
            assert((borrow + carry) * big_pow(m as nat) == 0) by (nonlinear_arith)
                requires
                    borrow + carry == 0,
            ;
        }
        crate::math::small::normalize(x);
        proof {
            let qq = (q - 1) as nat;
            assert(value(x@) + 1 * vy == value(x1));
            assert(value(x1) + qq * vy == value(xs));
            assert(value(x@) + (qq + 1) * vy == value(xs)) by (nonlinear_arith)
                requires
                    value(x@) + 1 * vy == value(x1),
                    value(x1) + qq * vy == value(xs),
            ;
            assert(value(xs) < (qq + 2) * vy);
            assert(value(x@) < vy) by (nonlinear_arith)
                requires
                    value(x@) + (qq + 1) * vy == value(xs),
                    value(xs) < (qq + 2) * vy,
            ;
        }
    }
    proof {
        let vx = value(xs);
        let qq = q as nat;
        assert(value(x@) + qq * vy == vx);
        assert(value(x@) < vy);
        assert(qq * vy == vy * qq) by (nonlinear_arith);
        lemma_div_mod_unique(vx, vy, qq, value(x@));
    }
    q
}

// DIVISION

/// The `n + 1` limbs of `x` from `j` on, as a number: the part of the
/// dividend that one step of Algorithm D divides.
pub open spec fn window(x: Seq<u32>, j: int, n: int) -> nat {
    value(x.subrange(j, j + n + 1))
}

/// The two top limbs of the divisor, as a number.
pub open spec fn top2(y: Seq<u32>) -> nat {
    (y[y.len() - 1] as nat) * limb_base() + (y[y.len() - 2] as nat)
}

/// The three top limbs of the window, as a number.
pub open spec fn top3(x: Seq<u32>, j: int, n: int) -> nat {
    ((x[j + n] as nat) * limb_base() + (x[j + n - 1] as nat)) * limb_base() + (x[j + n - 2] as nat)
}

/// A number against its top limbs: `top * B^k <= v < (top + 1) * B^k`.
proof fn lemma_value_top(s: Seq<u32>, k: int)
    requires
        0 <= k <= s.len(),
    ensures
        value(s) == value(s.take(k)) + big_pow(k as nat) * value(s.skip(k)),
        value(s.take(k)) < big_pow(k as nat),
{
    lemma_value_split(s, k);
    lemma_value_bound(s.take(k));
}

/// The window and divisor against their top limbs.
proof fn lemma_qhat_tops(x: Seq<u32>, y: Seq<u32>, j: int)
    requires
        y.len() >= 2,
        0 <= j,
        j + y.len() < x.len(),
    ensures
        ({
            let n = y.len() as int;
            let p = big_pow((n - 2) as nat);
            let b = limb_base();
            &&& top3(x, j, n) * p <= window(x, j, n)
            &&& window(x, j, n) < (top3(x, j, n) + 1) * p
            &&& top2(y) * p <= value(y)
            &&& value(y) < (top2(y) + 1) * p
            &&& x[j + n] * (b * b * p) <= window(x, j, n)
            &&& window(x, j, n) < (x[j + n] + 1) * (b * b * p)
            &&& y[n - 1] * (b * p) <= value(y)
            &&& value(y) < (y[n - 1] + 1) * (b * p)
            &&& p > 0
        }),
{
    let n = y.len() as int;
    let w = x.subrange(j, j + n + 1);
    let p = big_pow((n - 2) as nat);
    let b = limb_base();
    lemma_big_pow_pos((n - 2) as nat);
    lemma_value_top(w, n - 2);
    lemma_value_top(y, n - 2);
    let wt = w.skip(n - 2);
    let yt = y.skip(n - 2);
    crate::limbs::lemma_value_three(wt);
    crate::limbs::lemma_value_two(yt);
    assert(wt[0] == x[j + n - 2] && wt[1] == x[j + n - 1] && wt[2] == x[j + n]);
    assert(yt[0] == y[n - 2] && yt[1] == y[n - 1]);
    let lw = value(w.take(n - 2));
    let ly = value(y.take(n - 2));
    let t3 = top3(x, j, n);
    let t2 = top2(y);
    let x0 = x[j + n - 2] as nat;
    let x1 = x[j + n - 1] as nat;
    let x2 = x[j + n] as nat;
    let y0 = y[n - 2] as nat;
    let y1 = y[n - 1] as nat;
    assert(value(wt) == t3) by (nonlinear_arith)
        requires
            value(wt) == x0 + b * x1 + b * b * x2,
            t3 == (x2 * b + x1) * b + x0,
    ;
    assert(value(yt) == t2) by (nonlinear_arith)
        requires
            value(yt) == y0 + y1 * b,
            t2 == y1 * b + y0,
    ;
    let wv = window(x, j, n);
    let yv = value(y);
    assert(wv == lw + p * t3);
    assert(yv == ly + p * t2);
    assert(t3 * p <= wv < (t3 + 1) * p) by (nonlinear_arith)
        requires
            lw < p,
            wv == lw + p * t3,
    ;
    assert(t2 * p <= yv < (t2 + 1) * p) by (nonlinear_arith)
        requires
            ly < p,
            yv == ly + p * t2,
    ;
    assert(x2 * (b * b * p) <= wv < (x2 + 1) * (b * b * p)) by (nonlinear_arith)
        requires
            t3 * p <= wv < (t3 + 1) * p,
            t3 == (x2 * b + x1) * b + x0,
            x1 < b,
            x0 < b,
            p > 0,
    ;
    assert(y1 * (b * p) <= yv < (y1 + 1) * (b * p)) by (nonlinear_arith)
        requires
            t2 * p <= yv < (t2 + 1) * p,
            t2 == y1 * b + y0,
            y0 < b,
            p > 0,
    ;
}

/// The radix of a limb, for algorithm D.
const ALGORITHM_D_B: u64 = 0x1_0000_0000;

/// Calculate qhat (an estimate for the quotient).
///
/// This is step D3 in Algorithm D in "The Art of Computer Programming":
/// an estimate from the two top limbs of the window and the top limb of
/// the normalized divisor, corrected with their next limbs. It is the
/// quotient digit of the window, or one more.
fn calculate_qhat(x: &[u32], y: &[u32], j: usize) -> (qhat: u64)
    requires
        y@.len() >= 2,
        j + y@.len() < x@.len(),
        y@.last() >= 0x8000_0000,
        window(x@, j as int, y@.len() as int) < limb_base() * value(y@),
    ensures
        window(x@, j as int, y@.len() as int) / value(y@) <= qhat,
        qhat <= window(x@, j as int, y@.len() as int) / value(y@) + 1,
        qhat < limb_base(),
{
    let ghost xs = x@;
    let ghost ys = y@;
    let n = y.len();
    let ghost ni = n as int;
    let ghost w = window(xs, j as int, ni);
    let ghost yv = value(ys);
    let ghost q = w / yv;
    let ghost b = limb_base();
    let ghost p = big_pow((ni - 2) as nat);
    proof {
        lemma_qhat_tops(xs, ys, j as int);
        assert(yv > 0) by (nonlinear_arith)
            requires
                ys[ni - 1] * (b * p) <= yv,
                ys[ni - 1] >= 0x8000_0000,
                p > 0,
                b > 0,
        ;
        vstd::arithmetic::div_mod::lemma_fundamental_div_mod(w as int, yv as int);
    }
    let xl = x.len();
    proof {
        assert(j + n < xl);
    }
    let x_jn = x[j + n] as u64;
    let x_jn1 = x[j + n - 1] as u64;
    let num = x_jn * ALGORITHM_D_B + x_jn1;
    let den = y[n - 1] as u64;
    let mut qhat = num / den;
    proof {
        vstd::arithmetic::div_mod::lemma_fundamental_div_mod(num as int, den as int);
        vstd::arithmetic::div_mod::lemma_mod_bound(num as int, den as int);
        assert(qhat * den <= num) by (nonlinear_arith)
            requires
                num == den * qhat + num % den,
                num % den >= 0,
        ;
    }
    let mut rhat = num - qhat * den;
    proof {
        assert(qhat * den == den * qhat) by (nonlinear_arith);
        assert(rhat == num % den);
        assert(den < b);
        assert(rhat < b);
    }
    let x_jn2 = x[j + n - 2] as u64;
    let y_n2 = y[n - 2] as u64;
    let y_n1 = y[n - 1] as u64;
    proof {
        let t3 = top3(xs, j as int, ni);
        let t2 = top2(ys);
        // The top limb of the window is at most that of the divisor.
        assert(x_jn <= y_n1) by (nonlinear_arith)
            requires
                x_jn * (b * b * p) <= w,
                w < b * yv,
                yv < (y_n1 + 1) * (b * p),
                p > 0,
                b > 0,
        ;
        assert(num * b + x_jn2 == t3);
        // The first estimate is at least the quotient digit.
        assert(q * y_n1 <= num) by (nonlinear_arith)
            requires
                q * yv <= w,
                y_n1 * (b * p) <= yv,
                w < (t3 + 1) * p,
                t3 == num * b + x_jn2,
                x_jn2 < b,
                p > 0,
        ;
        vstd::arithmetic::div_mod::lemma_div_is_ordered((q * y_n1) as int, num as int, den as int);
        vstd::arithmetic::div_mod::lemma_div_multiples_vanish(q as int, den as int);
        assert(qhat <= b + 1) by (nonlinear_arith)
            requires
                qhat * y_n1 <= num,
                num <= y_n1 * b + b - 1,
                y_n1 >= 0x8000_0000,
                b == 0x1_0000_0000,
        ;
        assert(qhat >= b ==> rhat + (qhat - b) * y_n1 < b) by (nonlinear_arith)
            requires
                rhat + qhat * y_n1 == num,
                num <= y_n1 * b + b - 1,
        ;
        assert(q < b) by (nonlinear_arith)
            requires
                q * yv <= w,
                w < b * yv,
                yv > 0,
        ;
        // The quotient digit against the top limbs.
        assert(q * t2 <= t3) by (nonlinear_arith)
            requires
                q * yv <= w,
                t2 * p <= yv,
                w < (t3 + 1) * p,
                p > 0,
        ;
        assert(qhat * y_n2 <= 0xffff_ffff_ffff_ffffnat) by (nonlinear_arith)
            requires
                qhat <= 0x1_0000_0001nat,
                y_n2 <= 0xffff_ffffnat,
        ;
    }
    while qhat >= ALGORITHM_D_B || qhat * y_n2 > rhat * ALGORITHM_D_B + x_jn2
        invariant_except_break
            rhat < b,
        invariant
            b == limb_base(),
            rhat + qhat * y_n1 == num,
            qhat >= q,
            qhat <= b + 1,
            qhat * y_n2 <= 0xffff_ffff_ffff_ffffnat,
            qhat >= b ==> rhat + (qhat - b) * y_n1 < b,
            q < b,
            q * top2(ys) <= top3(xs, j as int, ni),
            num * b + x_jn2 == top3(xs, j as int, ni),
            top2(ys) == y_n1 * b + y_n2,
            y_n1 >= 0x8000_0000,
            y_n1 < b,
            y_n2 < b,
            x_jn2 < b,
        ensures
            rhat + qhat * y_n1 == num,
            qhat >= q,
            qhat < b,
            qhat * y_n2 <= rhat * b + x_jn2,
        decreases qhat,
    {
        proof {
            if qhat < b {
                assert(qhat * top2(ys) > top3(xs, j as int, ni)) by (nonlinear_arith)
                    requires
                        qhat * y_n2 > rhat * b + x_jn2,
                        rhat + qhat * y_n1 == num,
                        num * b + x_jn2 == top3(xs, j as int, ni),
                        top2(ys) == y_n1 * b + y_n2,
                ;
                assert(qhat > q) by (nonlinear_arith)
                    requires
                        qhat * top2(ys) > top3(xs, j as int, ni),
                        q * top2(ys) <= top3(xs, j as int, ni),
                ;
            }
        }
        let ghost q0 = qhat;
        let ghost r0 = rhat;
        qhat -= 1;
        rhat += y_n1;
        proof {
            assert(rhat + qhat * y_n1 == num) by (nonlinear_arith)
                requires
                    r0 + q0 * y_n1 == num,
                    qhat == q0 - 1,
                    rhat == r0 + y_n1,
            ;
            assert(qhat * y_n2 <= 0xffff_ffff_ffff_ffffnat) by (nonlinear_arith)
                requires
                    q0 * y_n2 <= 0xffff_ffff_ffff_ffffnat,
                    qhat == q0 - 1,
            ;
            assert(qhat >= b ==> rhat + (qhat - b) * y_n1 < b) by (nonlinear_arith)
                requires
                    q0 >= b ==> r0 + (q0 - b) * y_n1 < b,
                    qhat == q0 - 1,
                    rhat == r0 + y_n1,
            ;
        }
        if rhat >= ALGORITHM_D_B {
            proof {
                assert(qhat < b);
                assert(qhat * y_n2 <= rhat * b + x_jn2) by (nonlinear_arith)
                    requires
                        qhat < b,
                        y_n2 < b,
                        rhat >= b,
                ;
            }
            break;
        }
    }
    proof {
        let t3 = top3(xs, j as int, ni);
        let t2 = top2(ys);
        assert(qhat * t2 <= t3) by (nonlinear_arith)
            requires
                qhat * y_n2 <= rhat * b + x_jn2,
                rhat + qhat * y_n1 == num,
                num * b + x_jn2 == t3,
                t2 == y_n1 * b + y_n2,
        ;
        // qhat * Y < W + Y, so qhat is at most one more than the digit.
        assert(qhat * yv < w + yv) by (nonlinear_arith)
            requires
                qhat * t2 <= t3,
                t3 * p <= w,
                yv < (t2 + 1) * p,
                qhat < b,
                y_n1 * (b * p) <= yv,
                y_n1 >= 1,
                p > 0,
        ;
        assert(qhat <= q + 1) by (nonlinear_arith)
            requires
                qhat * yv < w + yv,
                w == yv * q + w % yv,
                w % yv < yv,
                yv > 0,
        ;
    }
    qhat
}

/// A signed difference of limbs splits into its low limb and a borrow.
proof fn lemma_i64_limb(t: i64)
    requires
        -0x2_0000_0000 <= t < 0x1_0000_0000,
    ensures
        (t as u32) as int + (t >> 32u64) as int * 0x1_0000_0000 == t as int,
        -2 <= (t >> 32u64) <= 0,
        t >= 0 ==> (t >> 32u64) == 0,
        -0x1_0000_0000 <= t < 0 ==> (t >> 32u64) == -1,
{
    assert(((t >> 32u64) * 0x1_0000_0000i64 + ((t as u32) as i64)) == t && -2 <= (t >> 32u64)
        <= 0 && (t >= 0 ==> (t >> 32u64) == 0) && (-0x1_0000_0000 <= t < 0 ==> (t >> 32u64)
        == -1)) by (bit_vector)
        requires
            -0x2_0000_0000i64 <= t < 0x1_0000_0000i64,
    ;
}

/// A product of limbs splits into its high and low limbs.
proof fn lemma_u64_limbs(p: u64)
    ensures
        (p >> 32u64) as nat * limb_base() + (p & 0xFFFF_FFFFu64) as nat == p as nat,
        (p & 0xFFFF_FFFFu64) < limb_base(),
{
    assert((p >> 32u64) * 0x1_0000_0000u64 + (p & 0xFFFF_FFFFu64) == p && (p & 0xFFFF_FFFFu64)
        < 0x1_0000_0000u64) by (bit_vector);
    crate::limbs::lemma_u64_shr(p, 32);
    crate::limbs::lemma_pow2n_32();
}

/// The limbs of `x` from `j` on, `i` of them.
pub open spec fn limbs_at(x: Seq<u32>, j: int, i: int) -> Seq<u32> {
    x.subrange(j, j + i)
}

/// Multiply and subtract.
///
/// This is step D4 in Algorithm D in "The Art of Computer Programming":
/// the window of `x` at `j` less `qhat * y`, in place, wrapped around
/// `B^(n+1)` when negative; returns the signed top limb, negative exactly
/// when the difference is.
fn multiply_and_subtract(x: &mut Vec<u32>, y: &[u32], qhat: u64, j: usize) -> (t: i64)
    requires
        y@.len() >= 1,
        j + y@.len() < old(x)@.len(),
        qhat < limb_base(),
    ensures
        ({
            let n = y@.len() as int;
            let d = window(old(x)@, j as int, n) - qhat * value(y@);
            &&& final(x)@.len() == old(x)@.len()
            &&& forall|i: int|
                0 <= i < old(x)@.len() && !(j <= i <= j + n) ==> final(x)@[i] == old(x)@[i]
            &&& (t < 0) == (d < 0)
            &&& window(final(x)@, j as int, n) == (if d >= 0 {
                d
            } else {
                d + big_pow((n + 1) as nat)
            })
        }),
{
    let ghost xs = old(x)@;
    let ghost ys = y@;
    let n = y.len();
    let xl = x.len();
    let mut k: i64 = 0;
    let mut i: usize = 0;
    proof {
        assert(limbs_at(x@, j as int, 0) =~= Seq::<u32>::empty());
        assert(limbs_at(xs, j as int, 0) =~= Seq::<u32>::empty());
        assert(ys.take(0) =~= Seq::<u32>::empty());
        assert(value(Seq::<u32>::empty()) == 0);
        assert(big_pow(0) == 1);
        assert(qhat * 0 == 0) by (nonlinear_arith);
    }
    while i < n
        invariant
            ys == y@,
            n == ys.len(),
            j + n < xl,
            xl == xs.len(),
            qhat < limb_base(),
            x@.len() == xs.len(),
            i <= n,
            0 <= k <= limb_base(),
            forall|l: int| 0 <= l < xs.len() && !(j <= l < j + i) ==> x@[l] == xs[l],
            value(limbs_at(x@, j as int, i as int)) - k * big_pow(i as nat) == value(
                limbs_at(xs, j as int, i as int),
            ) - qhat * value(ys.take(i as int)),
        decreases n - i,
    {
        let ghost before = x@;
        let ghost k0 = k;
        let x_ij = x[i + j] as i64;
        let y_i = y[i] as u64;
        proof {
            assert(qhat * y_i <= 0xffff_ffffu64 * 0xffff_ffffu64) by (nonlinear_arith)
                requires
                    qhat <= 0xffff_ffffu64,
                    y_i <= 0xffff_ffffu64,
            ;
        }
        let p = qhat * y_i;
        let lo = p & 0xFFFF_FFFF;
        let hi = p >> 32;
        proof {
            lemma_u64_limbs(p);
            assert(hi <= 0xffff_fffe) by (nonlinear_arith)
                requires
                    hi * 0x1_0000_0000nat + lo == p,
                    p <= 0xffff_ffffu64 * 0xffff_ffffu64,
                    lo >= 0,
            ;
        }
        let t = x_ij - k - (lo as i64);
        proof {
            lemma_i64_limb(t);
        }
        x.set(i + j, t as u32);
        k = (hi as i64) - (t >> 32);
        proof {
            let bp = big_pow(i as nat);
            let f = (t >> 32u64) as int;
            let w = (t as u32) as int;
            assert(x@[(i + j) as int] == t as u32);
            assert(limbs_at(x@, j as int, i + 1) =~= limbs_at(before, j as int, i as int).push(
                t as u32,
            ));
            assert(limbs_at(xs, j as int, i + 1) =~= limbs_at(xs, j as int, i as int).push(
                xs[(i + j) as int],
            ));
            assert(ys.take(i + 1) =~= ys.take(i as int).push(ys[i as int]));
            assert(limbs_at(before, j as int, i as int) =~= limbs_at(x@, j as int, i as int));
            crate::limbs::lemma_value_push(limbs_at(before, j as int, i as int), t as u32);
            crate::limbs::lemma_value_push(limbs_at(xs, j as int, i as int), xs[(i + j) as int]);
            crate::limbs::lemma_value_push(ys.take(i as int), ys[i as int]);
            assert(big_pow((i + 1) as nat) == limb_base() * bp);
            let va = value(limbs_at(before, j as int, i as int));
            let vs = value(limbs_at(xs, j as int, i as int));
            let vy = value(ys.take(i as int));
            assert(xs[(i + j) as int] == x_ij);
            assert(va + w * bp - (hi - f) * (limb_base() * bp) == vs + x_ij * bp - qhat * (vy + y_i
                * bp)) by (nonlinear_arith)
                requires
                    va - k0 * bp == vs - qhat * vy,
                    w + f * 0x1_0000_0000 == t,
                    t == x_ij - k0 - lo,
                    hi * 0x1_0000_0000 + lo == qhat * y_i,
                    limb_base() == 0x1_0000_0000,
            ;
        }
        i += 1;
    }
    let x_jn = x[j + n] as i64;
    let t = x_jn - k;
    proof {
        lemma_i64_limb(t);
    }
    let ghost before = x@;
    x.set(j + n, t as u32);
    proof {
        let bn = big_pow(n as nat);
        let w = window(xs, j as int, n as int);
        let d = w - qhat * value(ys);
        assert(ys.take(n as int) =~= ys);
        assert(limbs_at(x@, j as int, n as int + 1) =~= limbs_at(before, j as int, n as int).push(
            t as u32,
        ));
        assert(limbs_at(xs, j as int, n as int + 1) =~= limbs_at(xs, j as int, n as int).push(
            xs[(j + n) as int],
        ));
        crate::limbs::lemma_value_push(limbs_at(before, j as int, n as int), t as u32);
        crate::limbs::lemma_value_push(limbs_at(xs, j as int, n as int), xs[(j + n) as int]);
        assert(big_pow((n + 1) as nat) == limb_base() * bn);
        let va = value(limbs_at(before, j as int, n as int));
        let vs = value(limbs_at(xs, j as int, n as int));
        let f = (t >> 32u64) as int;
        let nw = window(x@, j as int, n as int);
        assert(nw == va + (t as u32) * bn);
        assert(w == vs + x_jn * bn);
        assert(nw == d - f * (limb_base() * bn)) by (nonlinear_arith)
            requires
                va - k * bn == vs - qhat * value(ys),
                (t as u32) as int + f * 0x1_0000_0000 == t,
                t == x_jn - k,
                nw == va + (t as u32) * bn,
                w == vs + x_jn * bn,
                d == w - qhat * value(ys),
                limb_base() == 0x1_0000_0000,
        ;
        crate::limbs::lemma_value_bound(limbs_at(x@, j as int, n as int + 1));
        assert(limbs_at(x@, j as int, n as int + 1).len() == n + 1);
        assert forall|l: int| 0 <= l < xs.len() && !(j <= l <= j + n) implies x@[l] == xs[l] by {}
        let bn1 = big_pow((n + 1) as nat);
        assert(nw < bn1);
        if t >= 0 {
            assert(f == 0);
            assert(f * (limb_base() * bn) == 0) by (nonlinear_arith)
                requires
                    f == 0,
            ;
            assert(nw == d);
        } else {
            assert(t >= -0x1_0000_0000);
            assert(f == -1);
            assert(f * (limb_base() * bn) == -(limb_base() * bn)) by (nonlinear_arith)
                requires
                    f == -1,
            ;
            assert(nw == d + bn1);
            assert(d < 0);
        }
    }
    t
}

/// A non-negative sum of limbs splits into its low limb and a carry.
proof fn lemma_i64_carry(t: i64)
    requires
        0 <= t < 0x2_0000_0000,
    ensures
        (t as u32) as int + (t >> 32u64) as int * 0x1_0000_0000 == t as int,
        0 <= (t >> 32u64) <= 1,
{
    assert(((t >> 32u64) * 0x1_0000_0000i64 + ((t as u32) as i64)) == t && 0 <= (t >> 32u64) <= 1)
        by (bit_vector)
        requires
            0i64 <= t < 0x2_0000_0000i64,
    ;
}

/// Test the quotient digit against the sign of the difference.
///
/// This is a mix of step D5 and D6 in Algorithm D: one less than the
/// estimate when the subtraction went negative.
fn test_quotient(qhat: u64, t: i64) -> (r: u64)
    requires
        t < 0 ==> qhat > 0,
    ensures
        r == (if t < 0 {
            qhat - 1
        } else {
            qhat as int
        }),
{
    if t < 0 {
        qhat - 1
    } else {
        qhat
    }
}

/// Store the quotient digit at `j`.
fn store_quotient(q: &mut Vec<u32>, qhat: u64, j: usize)
    requires
        j < old(q)@.len(),
        qhat < limb_base(),
    ensures
        final(q)@ == old(q)@.update(j as int, qhat as u32),
{
    q.set(j, qhat as u32);
}

/// Add back.
///
/// This is step D6 in Algorithm D in "The Art of Computer Programming":
/// when the subtraction went negative (`t < 0`), add the divisor back to
/// the window, dropping the carry out of its top limb.
fn add_back(x: &mut Vec<u32>, y: &[u32], t: i64, j: usize)
    requires
        y@.len() >= 1,
        j + y@.len() < old(x)@.len(),
    ensures
        ({
            let n = y@.len() as int;
            &&& final(x)@.len() == old(x)@.len()
            &&& forall|i: int|
                0 <= i < old(x)@.len() && !(j <= i <= j + n) ==> final(x)@[i] == old(x)@[i]
            &&& t >= 0 ==> final(x)@ == old(x)@
            &&& t < 0 ==> window(final(x)@, j as int, n) == (window(old(x)@, j as int, n) + value(
                y@,
            )) % big_pow((n + 1) as nat)
        }),
{
    if t < 0 {
        let ghost xs = old(x)@;
        let ghost ys = y@;
        let n = y.len();
        let xl = x.len();
        let mut k: i64 = 0;
        let mut i: usize = 0;
        proof {
            assert(limbs_at(x@, j as int, 0) =~= Seq::<u32>::empty());
            assert(limbs_at(xs, j as int, 0) =~= Seq::<u32>::empty());
            assert(ys.take(0) =~= Seq::<u32>::empty());
            assert(value(Seq::<u32>::empty()) == 0);
            assert(big_pow(0) == 1);
        }
        while i < n
            invariant
                ys == y@,
                n == ys.len(),
                j + n < xl,
                xl == xs.len(),
                x@.len() == xs.len(),
                i <= n,
                0 <= k <= 1,
                forall|l: int| 0 <= l < xs.len() && !(j <= l < j + i) ==> x@[l] == xs[l],
                value(limbs_at(x@, j as int, i as int)) + k * big_pow(i as nat) == value(
                    limbs_at(xs, j as int, i as int),
                ) + value(ys.take(i as int)),
            decreases n - i,
        {
            let ghost before = x@;
            let ghost k0 = k;
            let xi = x[i + j] as u64;
            let yi = y[i] as u64;
            let t2 = (xi + yi) as i64 + k;
            proof {
                lemma_i64_carry(t2);
            }
            x.set(i + j, t2 as u32);
            k = t2 >> 32;
            proof {
                let bp = big_pow(i as nat);
                let f = k as int;
                let w = (t2 as u32) as int;
                assert(limbs_at(x@, j as int, i + 1) =~= limbs_at(before, j as int, i as int).push(
                    t2 as u32,
                ));
                assert(limbs_at(xs, j as int, i + 1) =~= limbs_at(xs, j as int, i as int).push(
                    xs[(i + j) as int],
                ));
                assert(ys.take(i + 1) =~= ys.take(i as int).push(ys[i as int]));
                assert(limbs_at(before, j as int, i as int) =~= limbs_at(x@, j as int, i as int));
                crate::limbs::lemma_value_push(limbs_at(before, j as int, i as int), t2 as u32);
                crate::limbs::lemma_value_push(limbs_at(xs, j as int, i as int), xs[(i + j) as int]);
                crate::limbs::lemma_value_push(ys.take(i as int), ys[i as int]);
                assert(big_pow((i + 1) as nat) == limb_base() * bp);
                let va = value(limbs_at(before, j as int, i as int));
                let vs = value(limbs_at(xs, j as int, i as int));
                let vy = value(ys.take(i as int));
                assert(xs[(i + j) as int] == xi);
                assert(va + w * bp + f * (limb_base() * bp) == vs + xi * bp + (vy + yi * bp))
                    by (nonlinear_arith)
                    requires
                        va + k0 * bp == vs + vy,
                        w + f * 0x1_0000_0000 == t2,
                        t2 == xi + yi + k0,
                        limb_base() == 0x1_0000_0000,
                ;
            }
            i += 1;
        }
        let x_jn = x[j + n] as i64 + k;
        proof {
            lemma_i64_carry(x_jn);
        }
        let ghost before = x@;
        x.set(j + n, x_jn as u32);
        proof {
            let bn = big_pow(n as nat);
            let bn1 = big_pow((n + 1) as nat);
            assert(ys.take(n as int) =~= ys);
            assert(limbs_at(x@, j as int, n as int + 1) =~= limbs_at(before, j as int, n as int).push(
                x_jn as u32,
            ));
            assert(limbs_at(xs, j as int, n as int + 1) =~= limbs_at(xs, j as int, n as int).push(
                xs[(j + n) as int],
            ));
            crate::limbs::lemma_value_push(limbs_at(before, j as int, n as int), x_jn as u32);
            crate::limbs::lemma_value_push(limbs_at(xs, j as int, n as int), xs[(j + n) as int]);
            assert(bn1 == limb_base() * bn);
            let va = value(limbs_at(before, j as int, n as int));
            let vs = value(limbs_at(xs, j as int, n as int));
            let c = (x_jn >> 32u64) as int;
            let nw = window(x@, j as int, n as int);
            let w = window(xs, j as int, n as int);
            assert(nw == va + (x_jn as u32) * bn);
            assert(w == vs + xs[(j + n) as int] * bn);
            assert(nw + c * bn1 == w + value(ys)) by (nonlinear_arith)
                requires
                    va + k * bn == vs + value(ys),
                    (x_jn as u32) as int + c * 0x1_0000_0000 == x_jn,
                    x_jn == xs[(j + n) as int] + k,
                    nw == va + (x_jn as u32) * bn,
                    w == vs + xs[(j + n) as int] * bn,
                    bn1 == limb_base() * bn,
                    limb_base() == 0x1_0000_0000,
            ;
            crate::limbs::lemma_value_bound(limbs_at(x@, j as int, n as int + 1));
            assert(limbs_at(x@, j as int, n as int + 1).len() == n + 1);
            crate::limbs::lemma_big_pow_pos((n + 1) as nat);
            assert(c * bn1 == bn1 * c) by (nonlinear_arith);
            lemma_div_mod_unique((w + value(ys)) as nat, bn1, c as nat, nw);
            assert forall|l: int| 0 <= l < xs.len() && !(j <= l <= j + n) implies x@[l] == xs[l] by {}
        }
    }
}

/// Calculate the remainder from the normalized remainder.
///
/// This is step D8 in Algorithm D in "The Art of Computer Programming",
/// and "unnormalizes" the `n` low limbs by shifting them right `s` bits.
fn calculate_remainder(x: &[u32], y: &[u32], s: u32) -> (r: Vec<u32>)
    requires
        0 < s < 32,
        1 <= y@.len() <= x@.len(),
    ensures
        r@.len() == y@.len(),
        value(r@) == value(x@.take(y@.len() as int)) / pow2n(s as nat),
{
    let ghost xs = x@;
    let n = y.len();
    let ghost p = pow2n(s as nat);
    let ghost q = pow2n((32 - s) as nat);
    proof {
        crate::limbs::lemma_pow2n_add(s as nat, (32 - s) as nat);
        crate::limbs::lemma_pow2n_32();
        crate::limbs::lemma_pow2n_pos(s as nat);
        crate::limbs::lemma_pow2n_pos((32 - s) as nat);
        assert(xs.subrange(0, n as int) =~= xs.take(n as int));
        assert(value(Seq::<u32>::empty()) == 0);
        assert(big_pow(0) == 1);
    }
    let mut r: Vec<u32> = Vec::new();
    let rs = 32 - s;
    let mut i: usize = 0;
    while i < n - 1
        invariant
            xs == x@,
            1 <= n <= xs.len(),
            0 < s < 32,
            rs == 32 - s,
            p == pow2n(s as nat),
            q == pow2n((32 - s) as nat),
            p * q == limb_base(),
            p > 0,
            q > 0,
            i <= n - 1,
            r@.len() == i,
            value(r@) + big_pow(i as nat) * (value(xs.subrange(i as int, n as int)) / p) == value(
                xs.take(n as int),
            ) / p,
        decreases n - 1 - i,
    {
        let xi = x[i];
        let xi1 = x[i + 1];
        let ri = (xi >> s) | (xi1 << rs);
        proof {
            let tail = xs.subrange(i + 1, n as int);
            let v = value(tail);
            assert(xs.subrange(i as int, n as int).subrange(1, n - i) =~= tail);
            assert(value(xs.subrange(i as int, n as int)) == xi + limb_base() * v);
            crate::limbs::lemma_value_mod_base(tail);
            vstd::arithmetic::div_mod::lemma_mod_mod(v as int, p as int, q as int);
            crate::limbs::lemma_shr_combine(xi, xi1, s);
            crate::limbs::lemma_shr_limb_step(xi as nat, v, p, q);
            crate::limbs::lemma_value_push(r@, ri);
            assert(big_pow((i + 1) as nat) == limb_base() * big_pow(i as nat));
            let bi = big_pow(i as nat);
            let a1 = (xi as nat) / p;
            let vm = v % p;
            let vq = v / p;
            let x1m = (xi1 as nat) % p;
            assert(bi * (a1 + q * vm + limb_base() * vq) == ri * bi + limb_base() * bi * vq)
                by (nonlinear_arith)
                requires
                    ri as nat == a1 + x1m * q,
                    vm == x1m,
            ;
        }
        r.push(ri);
        i += 1;
    }
    let x_n1 = x[n - 1] >> s;
    proof {
        crate::limbs::lemma_u32_shr(x[n - 1], s);
        assert(xs.subrange(n - 1, n as int) =~= seq![xs[n - 1]]);
        crate::limbs::lemma_value_single(xs[n - 1]);
        crate::limbs::lemma_value_push(r@, x_n1);
        let bi = big_pow((n - 1) as nat);
        assert(bi * (x_n1 as nat) == (x_n1 as nat) * bi) by (nonlinear_arith);
    }
    r.push(x_n1);
    r
}

/// A number split around the window at `j`.
proof fn lemma_value_window(s: Seq<u32>, j: int, n: int)
    requires
        0 <= j,
        0 <= n,
        j + n + 1 <= s.len(),
    ensures
        value(s) == value(s.take(j)) + big_pow(j as nat) * window(s, j, n) + big_pow(
            (j + n + 1) as nat,
        ) * value(s.skip(j + n + 1)),
{
    lemma_value_split(s, j);
    let w = s.subrange(j, j + n + 1);
    let rest = s.skip(j + n + 1);
    assert(s.skip(j) =~= w + rest);
    crate::limbs::lemma_value_append(w, rest);
    lemma_big_pow_add(j as nat, (n + 1) as nat);
    let a = big_pow(j as nat);
    let b = big_pow((n + 1) as nat);
    assert(a * (value(w) + b * value(rest)) == a * value(w) + (a * b) * value(rest))
        by (nonlinear_arith);
}

/// Zero limbs from `k` on do not count.
proof fn lemma_value_upper_zeros(s: Seq<u32>, k: int)
    requires
        0 <= k <= s.len(),
        forall|i: int| k <= i < s.len() ==> s[i] == 0,
    ensures
        value(s) == value(s.take(k)),
{
    lemma_value_split(s, k);
    crate::limbs::lemma_value_zero_all(s.skip(k));
    assert(value(s.skip(k)) == 0);
    assert(big_pow(k as nat) * 0 == 0) by (nonlinear_arith);
}

/// The window at `j` is its lowest limb and the `n` limbs above it.
proof fn lemma_window_split(s: Seq<u32>, j: int, n: int)
    requires
        0 <= j,
        1 <= n,
        j + n + 1 <= s.len(),
    ensures
        window(s, j, n) == s[j] + limb_base() * value(s.subrange(j + 1, j + n + 1)),
{
    let w = s.subrange(j, j + n + 1);
    assert(w.subrange(1, w.len() as int) =~= s.subrange(j + 1, j + n + 1));
}

/// A buffer whose value is below `B^(len-1)` has a zero top limb.
proof fn lemma_top_zero(s: Seq<u32>)
    requires
        s.len() >= 1,
        value(s) < big_pow((s.len() - 1) as nat),
    ensures
        s.last() == 0,
{
    if s.last() != 0 {
        crate::limbs::lemma_value_lower_bound(s);
    }
}

/// The invariant of the main loop of algorithm D, before the digit at
/// `j - 1`: the dividend is the buffer plus the quotient digits from `j` on
/// times the divisor; the buffer is zero from `j + n` on, and below the
/// divisor from `j` on.
pub open spec fn algorithm_d_inv(xn: Seq<u32>, q: Seq<u32>, j: int, n: int, yv: nat, xv: nat) -> bool {
    &&& value(xn) + big_pow(j as nat) * yv * value(q.skip(j)) == xv
    &&& forall|i: int| j + n <= i < xn.len() ==> xn[i] == 0
    &&& value(xn.subrange(j, j + n)) < yv
    &&& forall|i: int| 0 <= i < j ==> q[i] == 0
}

/// One step of the main loop keeps its invariant.
proof fn lemma_algorithm_d_step(
    xn: Seq<u32>,
    xn2: Seq<u32>,
    q: Seq<u32>,
    q2: Seq<u32>,
    jj: int,
    n: int,
    yv: nat,
    xv: nat,
    d: nat,
)
    requires
        0 <= jj,
        1 <= n,
        jj + n + 1 <= xn.len(),
        xn2.len() == xn.len(),
        jj < q.len(),
        yv > 0,
        yv < big_pow(n as nat),
        algorithm_d_inv(xn, q, jj + 1, n, yv, xv),
        forall|i: int| 0 <= i < xn.len() && !(jj <= i <= jj + n) ==> xn2[i] == xn[i],
        d == window(xn, jj, n) / yv,
        d < limb_base(),
        window(xn2, jj, n) == window(xn, jj, n) - d * yv,
        q2 == q.update(jj, d as u32),
    ensures
        algorithm_d_inv(xn2, q2, jj, n, yv, xv),
{
    let w = window(xn, jj, n);
    let w2 = window(xn2, jj, n);
    lemma_value_window(xn, jj, n);
    lemma_value_window(xn2, jj, n);
    assert(xn.take(jj) =~= xn2.take(jj));
    assert(xn.skip(jj + n + 1) =~= xn2.skip(jj + n + 1));
    vstd::arithmetic::div_mod::lemma_fundamental_div_mod(w as int, yv as int);
    vstd::arithmetic::div_mod::lemma_mod_bound(w as int, yv as int);
    assert(d * yv == yv * d) by (nonlinear_arith);
    assert(w2 == w % yv);
    assert(w2 < yv);
    // The quotient digits.
    let j = jj + 1;
    assert(q2.skip(jj).subrange(1, q2.skip(jj).len() as int) =~= q.skip(j));
    assert(q2.skip(jj)[0] == d as u32);
    assert(value(q2.skip(jj)) == d + limb_base() * value(q.skip(j)));
    let bjj = big_pow(jj as nat);
    assert(big_pow(j as nat) == limb_base() * bjj);
    let vq = value(q.skip(j));
    let lo = value(xn.take(jj));
    let hi = big_pow((jj + n + 1) as nat) * value(xn.skip(jj + n + 1));
    assert(value(xn2) + bjj * yv * (d + limb_base() * vq) == value(xn) + (limb_base() * bjj) * yv
        * vq) by (nonlinear_arith)
        requires
            value(xn) == lo + bjj * w + hi,
            value(xn2) == lo + bjj * w2 + hi,
            w2 == w - d * yv,
    ;
    // The window's top limb is now zero.
    let ws2 = xn2.subrange(jj, jj + n + 1);
    lemma_value_bound(xn2.subrange(jj, jj + n));
    crate::limbs::lemma_big_pow_pos(n as nat);
    lemma_top_zero(ws2);
    assert(xn2[jj + n] == 0) by {
        assert(ws2.last() == xn2[jj + n]);
    }
    assert(ws2.drop_last() =~= xn2.subrange(jj, jj + n));
    crate::limbs::lemma_value_drop_last_zero(ws2);
    assert forall|i: int| jj + n <= i < xn2.len() implies xn2[i] == 0 by {
        if i > jj + n {
            assert(xn2[i] == xn[i]);
        }
    }
}

/// The normalized divisor of algorithm D: `n` limbs with the top bit set.
proof fn lemma_normalized_divisor(ys: Seq<u32>, yn: Seq<u32>, s: u32, p: nat)
    requires
        ys.len() >= 2,
        0 < ys.last(),
        s == ys.last().leading_zeros(),
        p == pow2n(s as nat),
        value(yn) == value(ys) * p,
        is_normalized(yn),
        yn.len() == ys.len() || yn.len() == ys.len() + 1,
    ensures
        s < 32,
        yn.len() == ys.len(),
        yn.last() >= 0x8000_0000,
        value(yn) < big_pow(ys.len()),
        0x8000_0000 * big_pow((ys.len() - 1) as nat) <= value(yn),
        p * 0x8000_0000 <= limb_base() * pow2n(s as nat),
{
    let n = ys.len() as int;
    let yt = ys[n - 1];
    crate::limbs::lemma_leading_zeros_bounds(yt);
    assert(s < 32);
    if s == 0 {
        assert(pow2n(31) <= yt);
        assert(pow2n(31) == 0x8000_0000) by {
            crate::limbs::lemma_pow2n_32();
            assert(pow2n(32) == 2 * pow2n(31));
        }
    }
    let yv = value(yn);
    let bn1 = big_pow((n - 1) as nat);
    lemma_value_split(ys, n - 1);
    lemma_value_bound(ys.take(n - 1));
    assert(ys.skip(n - 1) =~= seq![yt]);
    crate::limbs::lemma_value_single(yt);
    let low = value(ys.take(n - 1));
    crate::limbs::lemma_pow2n_add((31 - s) as nat, s as nat);
    crate::limbs::lemma_pow2n_add((32 - s) as nat, s as nat);
    crate::limbs::lemma_pow2n_32();
    crate::limbs::lemma_pow2n_pos(s as nat);
    assert(pow2n(31) == 0x8000_0000) by {
        assert(pow2n(32) == 2 * pow2n(31));
    }
    assert((31 - s) as nat + s as nat == 31);
    assert((32 - s) as nat + s as nat == 32);
    lemma_big_pow_add((n - 1) as nat, 1);
    assert(big_pow(1) == limb_base()) by {
        assert(big_pow(0) == 1);
    }
    let bn = big_pow(n as nat);
    assert(bn == bn1 * limb_base());
    assert(0x8000_0000 * bn1 <= yv < bn) by (nonlinear_arith)
        requires
            yv == (low + bn1 * yt) * p,
            low < bn1,
            pow2n((31 - s) as nat) <= yt,
            (yt as nat) < pow2n((32 - s) as nat),
            pow2n((31 - s) as nat) * p == 0x8000_0000,
            pow2n((32 - s) as nat) * p == limb_base(),
            bn == bn1 * limb_base(),
            p > 0,
    ;
    if yn.len() > n {
        crate::limbs::lemma_value_lower_bound(yn);
        crate::limbs::lemma_big_pow_mono(n as nat, (yn.len() - 1) as nat);
    }
    assert(yn.len() == n);
    lemma_value_split(yn, n - 1);
    lemma_value_bound(yn.take(n - 1));
    assert(yn.skip(n - 1) =~= seq![yn[n - 1]]);
    crate::limbs::lemma_value_single(yn[n - 1]);
    let top = yn[n - 1];
    assert(top >= 0x8000_0000) by (nonlinear_arith)
        requires
            yv == value(yn.take(n - 1)) + bn1 * top,
            value(yn.take(n - 1)) < bn1,
            0x8000_0000 * bn1 <= yv,
            bn1 > 0,
    ;
    assert(p * 0x8000_0000 <= limb_base() * p) by (nonlinear_arith);
}

/// The first chunk of the normalized dividend is below the divisor.
proof fn lemma_first_chunk(xn: Seq<u32>, m: int, n: int, xv: nat, yv: nat, p: nat, xs: Seq<u32>)
    requires
        1 <= n <= m,
        m == xs.len(),
        xn.len() >= m + 1,
        value(xn) == xv,
        xv == value(xs) * p,
        forall|i: int| m + 1 <= i < xn.len() ==> xn[i] == 0,
        p <= 0x8000_0000,
        0x8000_0000 * big_pow((n - 1) as nat) <= yv,
    ensures
        value(xn.subrange(m - n + 1, m + 1)) < yv,
{
    let j = m - n + 1;
    lemma_value_upper_zeros(xn, m + 1);
    let t = xn.take(m + 1);
    lemma_value_split(t, j);
    assert(t.skip(j) =~= xn.subrange(j, m + 1));
    let c = value(xn.subrange(j, m + 1));
    let bj = big_pow(j as nat);
    lemma_value_bound(xs);
    lemma_big_pow_add(j as nat, (n - 1) as nat);
    assert(j + (n - 1) == m);
    let bn1 = big_pow((n - 1) as nat);
    crate::limbs::lemma_big_pow_pos(j as nat);
    assert(c < yv) by (nonlinear_arith)
        requires
            value(t) == value(t.take(j)) + bj * c,
            value(t) == value(xs) * p,
            value(xs) < big_pow(m as nat),
            big_pow(m as nat) == bj * bn1,
            p <= 0x8000_0000,
            0x8000_0000 * bn1 <= yv,
            bj > 0,
    ;
}

/// Knuth's Algorithm D: the quotient and remainder of `x` by `y`.
///
/// `x` is the dividend, and `y` the divisor, normalized, with at least two
/// limbs and a top limb whose top bit is clear (the divisor is shifted
/// left until that bit is set).
///
/// Based on the Hacker's Delight implementation of Knuth's Algorithm D in
/// "The Art of Computer Programming".
fn algorithm_d_div(x: &[u32], y: &[u32]) -> (r: (Vec<u32>, Vec<u32>))
    requires
        y@.len() >= 2,
        x@.len() >= y@.len(),
        x@.len() + 2 <= usize::MAX,
        0 < y@.last(),
    ensures
        value(r.0@) == value(x@) / value(y@),
        value(r.1@) == value(x@) % value(y@),
        is_normalized(r.0@),
        is_normalized(r.1@),
{
    let ghost xs = x@;
    let ghost ys = y@;
    // Normalize the divisor so the leading-bit is set to 1.
    let s = y[y.len() - 1].leading_zeros();
    let m = x.len();
    let n = y.len();
    proof {
        crate::limbs::lemma_leading_zeros_bounds(y[y.len() - 1]);
        crate::limbs::lemma_pow2n_32();
        assert(pow2n(32) == 2 * pow2n(31));
        if s == 0 {
            assert(pow2n(31) <= y[y.len() - 1]);
        }
    }
    // A divisor whose top bit is set already is left as it is.
    let mut xn = if s == 0 {
        crate::math::small::copy_limbs(x)
    } else {
        crate::math::small::shl_bits(x, s)
    };
    let ghost sh = xn@;
    xn.push(0);
    let yn = if s == 0 {
        crate::math::small::copy_limbs(y)
    } else {
        crate::math::small::shl_bits(y, s)
    };
    let ghost p = pow2n(s as nat);
    proof {
        if s == 0 {
            assert(p == 1) by {
                reveal_with_fuel(pow2n, 1);
            }
            assert(value(xs) * 1 == value(xs));
            assert(value(ys) * 1 == value(ys));
        }
    }
    let ghost xv = value(xs) * p;
    let ghost yv = value(yn@);
    let ghost l = xn@.len();
    proof {
        assert(sh.push(0u32) =~= xn@);
        crate::limbs::lemma_value_push(sh, 0u32);
        assert(0u32 * big_pow(sh.len()) == 0) by (nonlinear_arith);
        lemma_normalized_divisor(ys, yn@, s, p);
        crate::limbs::lemma_pow2n_pos(s as nat);
        assert(p <= 0x8000_0000) by {
            crate::limbs::lemma_pow2n_mono(s as nat, 31);
            crate::limbs::lemma_pow2n_32();
            assert(pow2n(32) == 2 * pow2n(31));
        }
        assert forall|i: int| m + 1 <= i < xn@.len() implies xn@[i] == 0 by {
            assert(i == xn@.len() - 1);
        }
        lemma_first_chunk(xn@, m as int, n as int, xv, yv, p, xs);
    }
    // The quotient digits, all zero to begin with.
    let mut q: Vec<u32> = Vec::new();
    let mut i: usize = 0;
    while i < m - n + 1
        invariant
            m >= n,
            m + 2 <= usize::MAX,
            i <= m - n + 1,
            q@.len() == i,
            forall|k: int| 0 <= k < i ==> q@[k] == 0,
        decreases m - n + 1 - i,
    {
        q.push(0);
        i += 1;
    }
    proof {
        let mm = (m - n + 1) as int;
        assert(q@.skip(mm) =~= Seq::<u32>::empty());
        assert(value(Seq::<u32>::empty()) == 0);
        assert(big_pow(mm as nat) * yv * 0 == 0) by (nonlinear_arith);
        assert(mm + n == m + 1);
    }
    let mut j = m - n + 1;
    while j > 0
        invariant
            2 <= n,
            n == yn@.len(),
            n == ys.len(),
            m == xs.len(),
            m >= n,
            j <= m - n + 1,
            xn@.len() == l,
            l >= m + 1,
            q@.len() == m - n + 1,
            yn@.last() >= 0x8000_0000,
            yv == value(yn@),
            yv > 0,
            yv < big_pow(n as nat),
            algorithm_d_inv(xn@, q@, j as int, n as int, yv, xv),
        decreases j,
    {
        let jj = j - 1;
        let ghost xn0 = xn@;
        let ghost q0 = q@;
        let ghost w = window(xn0, jj as int, n as int);
        let ghost d = w / yv;
        proof {
            lemma_window_split(xn0, jj as int, n as int);
            let c = value(xn0.subrange(j as int, j + n));
            assert(w < limb_base() * yv) by (nonlinear_arith)
                requires
                    w == xn0[jj as int] + limb_base() * c,
                    c < yv,
                    xn0[jj as int] < limb_base(),
            ;
            vstd::arithmetic::div_mod::lemma_fundamental_div_mod(w as int, yv as int);
            vstd::arithmetic::div_mod::lemma_mod_bound(w as int, yv as int);
            assert(d < limb_base()) by (nonlinear_arith)
                requires
                    w == yv * d + w % yv,
                    w % yv >= 0,
                    w < limb_base() * yv,
                    yv > 0,
            ;
        }
        let qhat = calculate_qhat(xn.as_slice(), yn.as_slice(), jj);
        let t = multiply_and_subtract(&mut xn, yn.as_slice(), qhat, jj);
        let ghost xn1 = xn@;
        proof {
            if t < 0 {
                assert(qhat > 0) by (nonlinear_arith)
                    requires
                        w - qhat * yv < 0,
                ;
            }
        }
        let qhat = test_quotient(qhat, t);
        store_quotient(&mut q, qhat, jj);
        add_back(&mut xn, yn.as_slice(), t, jj);
        proof {
            let bn1 = big_pow((n + 1) as nat);
            let dd = w - (if t < 0 { qhat + 1 } else { qhat as int }) * yv;
            if t >= 0 {
                assert(qhat * yv <= w);
                assert(qhat <= d) by (nonlinear_arith)
                    requires
                        qhat * yv <= w,
                        w == yv * d + w % yv,
                        w % yv < yv,
                        yv > 0,
                ;
                assert(qhat == d);
                assert(window(xn@, jj as int, n as int) == w - d * yv);
            } else {
                assert(qhat + 1 > d) by (nonlinear_arith)
                    requires
                        w - (qhat + 1) * yv < 0,
                        w == yv * d + w % yv,
                        w % yv >= 0,
                ;
                assert(qhat == d);
                let e = w - d * yv;
                assert(d * yv == yv * d) by (nonlinear_arith);
                assert(e == w % yv);
                assert(window(xn1, jj as int, n as int) == e - yv + bn1) by (nonlinear_arith)
                    requires
                        window(xn1, jj as int, n as int) == w - (d + 1) * yv + bn1,
                        e == w - d * yv,
                ;
                crate::limbs::lemma_big_pow_mono(n as nat, (n + 1) as nat);
                lemma_div_mod_unique((e + bn1) as nat, bn1, 1, e as nat);
                assert(window(xn@, jj as int, n as int) == e);
            }
            assert forall|i: int|
                0 <= i < xn0.len() && !(jj <= i <= jj + n) implies xn@[i] == xn0[i] by {}
            lemma_algorithm_d_step(xn0, xn@, q0, q@, jj as int, n as int, yv, xv, d);
        }
        j = jj;
    }
    let mut r = if s == 0 {
        let (lo, _hi) = karatsuba_split(xn.as_slice(), n);
        let r0 = crate::math::small::copy_limbs(lo);
        proof {
            assert(r0@ =~= xn@.take(n as int));
            assert(value(r0@) / 1 == value(r0@));
        }
        r0
    } else {
        calculate_remainder(xn.as_slice(), yn.as_slice(), s)
    };
    proof {
        assert(q@.skip(0) =~= q@);
        assert(big_pow(0) == 1);
        assert(xn@.subrange(0, n as int) =~= xn@.take(n as int));
        lemma_value_upper_zeros(xn@, n as int);
        let rn = value(xn@.take(n as int));
        let qv = value(q@);
        let yy = value(ys);
        assert(yv == yy * p);
        crate::limbs::lemma_value_zero_iff_empty(ys);
        vstd::arithmetic::div_mod::lemma_fundamental_div_mod(value(xs) as int, yy as int);
        vstd::arithmetic::div_mod::lemma_mod_bound(value(xs) as int, yy as int);
        let qq = value(xs) / yy;
        let rr = value(xs) % yy;
        assert(xv == yv * qq + rr * p) by (nonlinear_arith)
            requires
                xv == value(xs) * p,
                value(xs) == yy * qq + rr,
                yv == yy * p,
        ;
        assert(rr * p < yv) by (nonlinear_arith)
            requires
                rr < yy,
                yv == yy * p,
                p > 0,
        ;
        assert(xv == yv * qv + rn) by (nonlinear_arith)
            requires
                value(xn@) + 1 * yv * qv == xv,
                value(xn@) == rn,
        ;
        lemma_div_mod_unique(xv, yv, qv, rn);
        lemma_div_mod_unique(xv, yv, qq, rr * p);
        assert(rn / p == rr) by {
            vstd::arithmetic::div_mod::lemma_div_multiples_vanish(rr as int, p as int);
            assert(rr * p == p * rr) by (nonlinear_arith);
        }
    }
    crate::math::small::normalize(&mut q);
    crate::math::small::normalize(&mut r);
    (q, r)
}

/// DivAssign bigint to bigint, and return the remainder.
///
/// A dividend shorter than the divisor is the remainder; a one-limb
/// divisor divides limb by limb; any other goes through algorithm D.
pub fn idiv(x: &mut Vec<u32>, y: &[u32]) -> (rem: Vec<u32>)
    requires
        y@.len() != 0,
        is_normalized(y@),
        old(x)@.len() + 2 <= usize::MAX,
    ensures
        value(final(x)@) == value(old(x)@) / value(y@),
        value(rem@) == value(old(x)@) % value(y@),
        is_normalized(final(x)@),
        rem@.len() <= y@.len(),
        old(x)@.len() < y@.len() ==> rem@ == old(x)@,
        old(x)@.len() >= y@.len() && y@.len() == 1 ==> rem@ == seq![
            (value(old(x)@) % value(y@)) as u32,
        ],
        old(x)@.len() >= y@.len() && y@.len() >= 2 ==> is_normalized(rem@),
{
    let ghost xs = old(x)@;
    let ghost ys = y@;
    proof {
        crate::limbs::lemma_value_zero_iff_empty(ys);
    }
    if x.len() < y.len() {
        // The quotient is 0, and the remainder is x.
        proof {
            lemma_value_bound(xs);
            crate::limbs::lemma_value_lower_bound(ys);
            crate::limbs::lemma_big_pow_mono(xs.len(), (ys.len() - 1) as nat);
            vstd::arithmetic::div_mod::lemma_basic_div(value(xs) as int, value(ys) as int);
            vstd::arithmetic::div_mod::lemma_small_mod(value(xs), value(ys));
            assert(value(Seq::<u32>::empty()) == 0);
        }
        let mut r: Vec<u32> = Vec::new();
        std::mem::swap(x, &mut r);
        r
    } else if y.len() == 1 {
        // Divide by a small value.
        proof {
            assert(ys.subrange(1, 1) =~= Seq::<u32>::empty());
            assert(value(Seq::<u32>::empty()) == 0);
            assert(value(ys) == ys[0]);
        }
        let mut r: Vec<u32> = Vec::new();
        let rem = crate::math::small::idiv(x, y[0]);
        r.push(rem);
        proof {
            crate::limbs::lemma_value_push(Seq::<u32>::empty(), rem);
            assert(Seq::<u32>::empty().push(rem) =~= r@);
            assert(r@ =~= seq![rem]);
            assert(big_pow(0) == 1);
            assert(rem * big_pow(0) == rem) by (nonlinear_arith)
                requires
                    big_pow(0) == 1,
            ;
        }
        r
    } else {
        let (q, r) = algorithm_d_div(x.as_slice(), y);
        proof {
            let vx = value(xs);
            let vy = value(ys);
            assert(vx % vy < vy) by (nonlinear_arith)
                requires vy > 0;
            crate::limbs::lemma_normalized_len_le(r@, ys);
        }
        *x = q;
        r
    }
}

/// Div bigint to bigint: the quotient and the remainder.
pub fn div(x: &[u32], y: &[u32]) -> (r: (Vec<u32>, Vec<u32>))
    requires
        y@.len() != 0,
        is_normalized(y@),
        x@.len() + 2 <= usize::MAX,
    ensures
        value(r.0@) == value(x@) / value(y@),
        value(r.1@) == value(x@) % value(y@),
        is_normalized(r.0@),
        r.1@.len() <= y@.len(),
        x@.len() < y@.len() ==> r.1@ == x@,
        x@.len() >= y@.len() && y@.len() == 1 ==> r.1@ == seq![(value(x@) % value(y@)) as u32],
        x@.len() >= y@.len() && y@.len() >= 2 ==> is_normalized(r.1@),
{
    let mut z = crate::math::small::copy_limbs(x);
    let rem = crate::math::large::idiv(&mut z, y);
    (z, rem)
}

} // verus!
