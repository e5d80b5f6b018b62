//! Large-to-small operations, to modify a big integer from a native scalar.

use vstd::prelude::*;
use crate::limbs::{
    value, trim, is_normalized, lemma_trim, limb_base, pow2n, lemma_pow2n_add, lemma_pow2n_32,
    lemma_pow2n_pos, lemma_shr_combine, lemma_shr_limb_step, lemma_value_mod_base, big_pow,
    lemma_shl_split, lemma_or_disjoint, lemma_u32_shr, lemma_value_take_step, lemma_value_push,
    lemma_value_bound, lemma_big_pow_pos, zeros, lemma_value_prepend_zeros, lemma_value_split,
    lemma_big_pow_pow2n, lemma_value_zero_iff_empty, lemma_value_update, lemma_normalized_by_value,
    lemma_div_mod_unique, powi, lemma_powi_add, lemma_powi_pos,
};
use crate::small_powers::{get_small_powers, small_powers_len, is_small_powers_table};

verus! {

/// Normalize the container by popping any leading zeros.
pub fn normalize(x: &mut Vec<u32>)
    ensures
        final(x)@ == trim(old(x)@),
        value(final(x)@) == value(old(x)@),
        is_normalized(final(x)@),
{
    proof {
        lemma_trim(old(x)@);
    }
    while x.len() > 0 && x[x.len() - 1] == 0
        invariant
            trim(x@) == trim(old(x)@),
        decreases x.len(),
    {
        x.pop();
    }
    proof {
        lemma_trim(x@);
    }
}

/// Get the number of leading zero values in the storage.
/// Assumes the value is normalized.
pub fn leading_zero_values(x: &[u32]) -> (r: usize)
    ensures
        r == 0,
{
    0
}

/// Get the number of trailing zero values in the storage:
/// the index of the least-significant non-zero limb.
pub fn trailing_zero_values(x: &[u32]) -> (r: usize)
    ensures
        r <= x@.len(),
        forall|i: int| 0 <= i < r ==> x@[i] == 0,
        r < x@.len() ==> x@[r as int] != 0,
{
    let mut i: usize = 0;
    while i < x.len()
        invariant
            i <= x@.len(),
            forall|j: int| 0 <= j < i ==> x@[j] == 0,
        decreases x@.len() - i,
    {
        if x[i] != 0 {
            return i;
        }
        i += 1;
    }
    i
}

/// Get number of leading zero bits in the storage (of its most-significant limb).
pub fn leading_zeros(x: &[u32]) -> (r: usize)
    ensures
        r == (if x@.len() == 0 { 0 } else { x@.last().leading_zeros() as usize }),
        r <= 32,
{
    if x.len() == 0 {
        0
    } else {
        let index = x.len() - 1;
        let lz = x[index].leading_zeros();
        proof {
            vstd::std_specs::bits::axiom_u32_leading_zeros(x@[index as int]);
        }
        lz as usize
    }
}

/// Get number of trailing zero bits in the storage.
/// Assumes the value is normalized.
pub fn trailing_zeros(x: &[u32]) -> (r: usize)
    ensures
        ({
            let idx = trailing_zeros_index(x@);
            let count: int = if idx < x@.len() {
                32 * idx + x@[idx as int].trailing_zeros()
            } else {
                (32 * idx) as int
            };
            r == (if count <= usize::MAX { count } else { usize::MAX as int })
        }),
{
    let index = trailing_zero_values(x);
    proof {
        lemma_trailing_zeros_index(x@, index as int);
    }
    let mut count = index.checked_mul(32);
    if index < x.len() {
        let tz = x[index].trailing_zeros();
        count = match count {
            Some(v) => v.checked_add(tz as usize),
            None => None,
        };
    }
    match count {
        Some(v) => v,
        None => usize::MAX,
    }
}

/// The index of the least-significant non-zero limb, or the length.
pub open spec fn trailing_zeros_index(s: Seq<u32>) -> nat
    decreases s.len(),
{
    if s.len() == 0 {
        0
    } else if s[0] != 0 {
        0
    } else {
        1 + trailing_zeros_index(s.subrange(1, s.len() as int))
    }
}

pub proof fn lemma_trailing_zeros_index(s: Seq<u32>, i: int)
    requires
        0 <= i <= s.len(),
        forall|j: int| 0 <= j < i ==> s[j] == 0,
        i < s.len() ==> s[i] != 0,
    ensures
        trailing_zeros_index(s) == i,
    decreases s.len(),
{
    if s.len() > 0 && s[0] == 0 {
        let t = s.subrange(1, s.len() as int);
        lemma_trailing_zeros_index(t, i - 1);
    }
}

/// Calculate the bit-length of the big-integer.
pub fn bit_length(x: &[u32]) -> (r: usize)
    ensures
        ({
            let nlz = if x@.len() == 0 { 0 } else { x@.last().leading_zeros() as int };
            r == (if 32 * x@.len() <= usize::MAX { 32 * x@.len() - nlz } else { usize::MAX as int })
        }),
{
    let nlz = crate::math::small::leading_zeros(x);
    match 32usize.checked_mul(x.len()) {
        Some(v) => v - nlz,
        None => usize::MAX,
    }
}

/// Shift-right bits inside a buffer and returns the truncated bits.
///
/// Assumes `0 < n < 32`, IE, internally shifting bits.
pub fn ishr_bits(x: &mut Vec<u32>, n: u32) -> (truncated: u32)
    requires
        0 < n < 32,
    ensures
        final(x)@.len() == old(x)@.len(),
        value(final(x)@) == value(old(x)@) / pow2n(n as nat),
        truncated == value(old(x)@) % pow2n(n as nat),
{
    let ghost xs = old(x)@;
    let ghost p = pow2n(n as nat);
    let ghost q = pow2n((32 - n) as nat);
    proof {
        lemma_pow2n_add(n as nat, (32 - n) as nat);
        lemma_pow2n_32();
        lemma_pow2n_pos(n as nat);
        lemma_pow2n_pos((32 - n) as nat);
    }
    let lshift: u32 = 32 - n;
    let rshift: u32 = n;
    let mut prev: u32 = 0;
    let mut i: usize = x.len();
    while i > 0
        invariant
            x@.len() == xs.len(),
            0 <= i <= xs.len(),
            p == pow2n(n as nat),
            q == pow2n((32 - n) as nat),
            p * q == limb_base(),
            p > 0,
            q > 0,
            0 < n < 32,
            lshift == 32 - n,
            rshift == n,
            x@.take(i as int) == xs.take(i as int),
            value(x@.skip(i as int)) == value(xs.skip(i as int)) / p,
            prev == (if i < xs.len() { xs[i as int] } else { 0u32 }),
        decreases i,
    {
        let k = i - 1;
        let tmp = x[k];
        proof {
            assert(tmp == xs[k as int]) by {
                assert(x@.take(i as int)[k as int] == x@[k as int]);
            }
            let v = value(xs.skip(i as int));
            if i < xs.len() {
                lemma_value_mod_base(xs.skip(i as int));
                vstd::arithmetic::div_mod::lemma_mod_mod(v as int, p as int, q as int);
            } else {
                assert(xs.skip(i as int).len() == 0);
            }
            assert(v % p == (prev as nat) % p);
            lemma_shr_combine(tmp, prev, n);
            lemma_shr_limb_step(tmp as nat, v, p, q);
            assert(xs.skip(k as int).subrange(1, xs.skip(k as int).len() as int) =~= xs.skip(
                i as int,
            ));
        }
        let c = (tmp >> rshift) | (prev << lshift);
        let ghost before = x@;
        let ghost v = value(xs.skip(i as int));
        x.set(k, c);
        proof {
            assert(x@.take(k as int) =~= xs.take(k as int)) by {
                assert forall|j: int| 0 <= j < k implies x@[j] == xs[j] by {
                    assert(before.take(i as int)[j] == before[j]);
                }
            }
            let xk = x@.skip(k as int);
            assert(xk.subrange(1, xk.len() as int) =~= before.skip(i as int));
            assert(xk[0] == c);
            let pm = (prev as nat) % p;
            assert(pm * q == q * (v % p)) by (nonlinear_arith)
                requires
                    pm == v % p,
            ;
            assert(value(xs.skip(k as int)) == tmp + limb_base() * v);
        }
        prev = tmp;
        i = k;
    }
    proof {
        assert(xs.skip(0) =~= xs);
        assert(x@.skip(0) =~= x@);
        lemma_shr_combine(0, prev, n);
        crate::limbs::lemma_u32_shl_one(n);
        if xs.len() > 0 {
            lemma_value_mod_base(xs);
            vstd::arithmetic::div_mod::lemma_mod_mod(value(xs) as int, p as int, q as int);
        }
    }
    prev & (((1u32 << rshift) - 1) as u32)
}

/// Shift-left bits inside a buffer.
///
/// Assumes `0 < n < 32`, IE, internally shifting bits. The carry is pushed
/// only when it is non-zero.
pub fn ishl_bits(x: &mut Vec<u32>, n: u32)
    requires
        0 < n < 32,
    ensures
        value(final(x)@) == value(old(x)@) * pow2n(n as nat),
        final(x)@.len() == old(x)@.len() + (if old(x)@.len() > 0 && (old(x)@.last() >> (32
            - n) as u32) != 0 {
            1int
        } else {
            0int
        }),
        is_normalized(old(x)@) ==> is_normalized(final(x)@),
{
    let ghost xs = old(x)@;
    let ghost p = pow2n(n as nat);
    let ghost q = pow2n((32 - n) as nat);
    proof {
        lemma_pow2n_add(n as nat, (32 - n) as nat);
        lemma_pow2n_32();
        lemma_pow2n_pos(n as nat);
        lemma_pow2n_pos((32 - n) as nat);
    }
    let rshift: u32 = 32 - n;
    let lshift: u32 = n;
    let mut prev: u32 = 0;
    let mut i: usize = 0;
    proof {
        assert(x@.take(0) =~= Seq::<u32>::empty());
        assert(xs.take(0) =~= Seq::<u32>::empty());
        assert(value(Seq::<u32>::empty()) == 0);
        assert(x@.skip(0) =~= xs.skip(0));
        assert((0nat) / q == 0) by (nonlinear_arith)
            requires
                q > 0,
        ;
        assert(big_pow(0) == 1);
        assert(value(xs.take(0)) * p == 0);
    }
    while i < x.len()
        invariant
            x@.len() == xs.len(),
            0 <= i <= xs.len(),
            p == pow2n(n as nat),
            q == pow2n((32 - n) as nat),
            p * q == limb_base(),
            p > 0,
            q > 0,
            0 < n < 32,
            lshift == n,
            rshift == 32 - n,
            x@.skip(i as int) == xs.skip(i as int),
            value(x@.take(i as int)) + ((prev as nat) / q) * big_pow(i as nat) == value(
                xs.take(i as int),
            ) * p,
            prev == (if i > 0 { xs[i - 1] } else { 0u32 }),
        decreases xs.len() - i,
    {
        let tmp = x[i];
        proof {
            assert(tmp == xs[i as int]) by {
                assert(x@.skip(i as int)[0] == x@[i as int]);
            }
            lemma_u32_shr(prev, rshift);
            let hi = (prev as nat) / q;
            assert(hi < p) by (nonlinear_arith)
                requires
                    hi == (prev as nat) / q,
                    prev < p * q,
                    q > 0,
            ;
            lemma_or_disjoint(tmp, prev >> rshift, n);
            lemma_shl_split(tmp, n);
        }
        let c = (tmp << lshift) | (prev >> rshift);
        let ghost before = x@;
        x.set(i, c);
        proof {
            lemma_value_take_step(x@, i as int);
            lemma_value_take_step(xs, i as int);
            assert(x@.take(i as int) =~= before.take(i as int));
            let bp = big_pow(i as nat);
            let vx = value(before.take(i as int));
            let vs = value(xs.take(i as int));
            let lo = (tmp << lshift) as nat;
            let hin = (tmp as nat) / q;
            let hio = (prev as nat) / q;
            assert(vx + (lo + hio) * bp + hin * (limb_base() * bp) == (vs + tmp * bp) * p)
                by (nonlinear_arith)
                requires
                    vx + hio * bp == vs * p,
                    lo + hin * limb_base() == tmp * p,
            ;
            assert(big_pow((i + 1) as nat) == limb_base() * bp);
            assert(x@.skip(i + 1) =~= xs.skip(i + 1)) by {
                assert forall|j: int| 0 <= j < x@.skip(i + 1).len() implies #[trigger] x@.skip(i + 1)[j]
                    == xs.skip(i + 1)[j] by {
                    assert(before.skip(i as int)[j + 1] == xs.skip(i as int)[j + 1]);
                }
            }
        }
        prev = tmp;
        i += 1;
    }
    let carry = prev >> rshift;
    proof {
        lemma_u32_shr(prev, rshift);
        if xs.len() > 0 {
            assert(prev == xs.last());
        } else {
            assert(prev == 0);
            assert((0u32 >> rshift) == 0) by (bit_vector);
        }
        assert(x@.take(i as int) =~= x@);
        assert(xs.take(i as int) =~= xs);
        assert(value(x@) + (carry as nat) * big_pow(xs.len()) == value(xs) * p);
    }
    let ghost before = x@;
    if carry != 0 {
        x.push(carry);
        proof {
            assert(x@.drop_last() =~= before);
            lemma_value_push(before, carry);
            assert(x@ =~= before.push(carry));
        }
    } else {
        proof {
            let bp = big_pow(xs.len());
            assert((carry as nat) * bp == 0) by (nonlinear_arith)
                requires
                    carry == 0,
            ;
            if is_normalized(xs) && xs.len() > 0 && x@.last() == 0 {
                let k = (xs.len() - 1) as nat;
                crate::limbs::lemma_value_drop_last_zero(x@);
                lemma_value_bound(x@.drop_last());
                crate::limbs::lemma_value_lower_bound(xs);
                let v = value(xs);
                assert(v * p >= v) by (nonlinear_arith)
                    requires
                        p > 0,
                ;
                assert(false);
            }
        }
    }
}

/// A copy of a limb slice in a fresh buffer.
pub fn copy_limbs(x: &[u32]) -> (z: Vec<u32>)
    ensures
        z@ == x@,
{
    let mut z: Vec<u32> = Vec::new();
    z.extend_from_slice(x);
    proof {
        assert(z@ =~= x@);
    }
    z
}

/// Shift-left bits inside a buffer.
///
/// Assumes `0 < n < 32`, IE, internally shifting bits.
pub fn shl_bits(x: &[u32], n: u32) -> (z: Vec<u32>)
    requires
        0 < n < 32,
    ensures
        value(z@) == value(x@) * pow2n(n as nat),
        z@.len() == x@.len() + (if x@.len() > 0 && (x@.last() >> (32 - n) as u32) != 0 {
            1int
        } else {
            0int
        }),
        is_normalized(x@) ==> is_normalized(z@),
{
    let mut z = copy_limbs(x);
    ishl_bits(&mut z, n);
    z
}

/// Shift-left `n` digits inside a buffer: insert `n` zero limbs at the
/// least-significant end of a non-empty buffer.
///
/// Assumes `n` is not 0.
pub fn ishl_digits(x: &mut Vec<u32>, n: usize)
    requires
        n != 0,
    ensures
        final(x)@ == (if old(x)@.len() == 0 { old(x)@ } else { zeros(n as nat) + old(x)@ }),
        value(final(x)@) == value(old(x)@) * big_pow(n as nat),
        is_normalized(old(x)@) ==> is_normalized(final(x)@),
{
    proof {
        lemma_value_prepend_zeros(old(x)@, n as nat);
        let b = big_pow(n as nat);
        let v = value(old(x)@);
        assert(b * v == v * b) by (nonlinear_arith);
    }
    if x.len() != 0 {
        let mut z: Vec<u32> = Vec::new();
        let mut i: usize = 0;
        while i < n
            invariant
                i <= n,
                z@ == zeros(i as nat),
            decreases n - i,
        {
            z.push(0);
            i += 1;
            proof {
                assert(z@ =~= zeros(i as nat));
            }
        }
        z.extend_from_slice(x.as_slice());
        proof {
            assert(z@ =~= zeros(n as nat) + old(x)@);
        }
        *x = z;
    } else {
        proof {
            assert(value(old(x)@) == 0);
            let b = big_pow(n as nat);
            let v = value(old(x)@);
            assert(v * b == 0) by (nonlinear_arith)
                requires
                    v == 0,
            ;
        }
    }
}

/// Shift-left buffer by n bits.
pub fn ishl(x: &mut Vec<u32>, n: usize)
    ensures
        value(final(x)@) == value(old(x)@) * pow2n(n as nat),
        is_normalized(old(x)@) ==> is_normalized(final(x)@),
{
    let rem = (n % 32) as u32;
    let div = n / 32;
    let ghost v = value(old(x)@);
    if rem != 0 {
        ishl_bits(x, rem);
    } else {
        proof {
            assert(pow2n(0) == 1);
            assert(v * pow2n(rem as nat) == v);
        }
    }
    let ghost v1 = value(x@);
    if div != 0 {
        ishl_digits(x, div);
        proof {
            lemma_big_pow_pow2n(div as nat);
        }
    } else {
        proof {
            assert(pow2n(0) == 1);
            assert((32 * div) as nat == 0);
            assert(v1 * pow2n((32 * div) as nat) == v1);
        }
    }
    proof {
        lemma_big_pow_pow2n(div as nat);
        lemma_pow2n_add((32 * div) as nat, rem as nat);
        assert(n == 32 * div + rem);
        assert(v1 == v * pow2n(rem as nat));
        assert(value(x@) == v1 * pow2n((32 * div) as nat));
        let a = pow2n(rem as nat);
        let b = pow2n((32 * div) as nat);
        assert((v * a) * b == v * (b * a)) by (nonlinear_arith);
    }
}

/// Shift-left buffer by n bits.
pub fn shl(x: &[u32], n: usize) -> (z: Vec<u32>)
    ensures
        value(z@) == value(x@) * pow2n(n as nat),
        is_normalized(x@) ==> is_normalized(z@),
{
    let mut z = copy_limbs(x);
    ishl(&mut z, n);
    z
}

/// Shift-right `n` digits inside a buffer and returns if all the truncated digits are zero.
///
/// When every limb is shifted out the buffer is emptied and `false` is returned.
/// Assumes `n` is not 0.
pub fn ishr_digits(x: &mut Vec<u32>, n: usize) -> (is_zero: bool)
    requires
        n != 0,
    ensures
        final(x)@ == (if n >= old(x)@.len() { Seq::<u32>::empty() } else { old(x)@.skip(
            n as int,
        ) }),
        is_zero == shr_is_zero(old(x)@, n as nat),
        value(final(x)@) == value(old(x)@) / big_pow(n as nat),
{
    proof {
        lemma_value_div_big_pow(old(x)@, n as nat);
    }
    if n >= x.len() {
        x.clear();
        false
    } else {
        let mut i: usize = 0;
        let mut is_zero = true;
        while i < n
            invariant
                i <= n,
                n < x@.len(),
                x@ == old(x)@,
                is_zero == (forall|j: int| 0 <= j < i ==> x@[j] == 0),
            decreases n - i,
        {
            if x[i] != 0 {
                is_zero = false;
            }
            i += 1;
        }
        let hi = x.split_off(n);
        *x = hi;
        is_zero
    }
}

/// Whether the limbs that a digit shift by `d` drops are all zero, as
/// `ishr_digits` reports it.
pub open spec fn shr_is_zero(s: Seq<u32>, d: nat) -> bool {
    if d == 0 {
        true
    } else if d >= s.len() {
        false
    } else {
        forall|i: int| 0 <= i < d ==> s[i] == 0
    }
}

/// Whether `ishr` rounds up after shifting `s` right by `n` bits: the
/// bits shifted out are above half of `2^n`, or exactly half with an odd
/// result (round to nearest, ties to even).
pub open spec fn shr_roundup(s: Seq<u32>, n: nat) -> bool {
    rounds_up(value(s) / pow2n(n), value(s) % pow2n(n), pow2n(n))
}

/// Rounding a remainder `r == t * pp + low` (with `low < pp`) against
/// `p == 2 h pp`: `t` against `h` decides, and on a tie, `low`.
proof fn lemma_rounds_up_split(q: nat, r: nat, p: nat, t: nat, h: nat, pp: nat, low: nat)
    requires
        pp > 0,
        h >= 1,
        low < pp,
        r == t * pp + low,
        p == 2 * h * pp,
    ensures
        rounds_up(q, r, p) == (t > h || (t == h && (low > 0 || q % 2 == 1))),
{
    if t > h {
        assert(2 * r > p) by (nonlinear_arith)
            requires
                t >= h + 1,
                r == t * pp + low,
                p == 2 * h * pp,
                pp > 0,
        ;
    } else if t == h {
        assert(2 * r == p + 2 * low) by (nonlinear_arith)
            requires
                t == h,
                r == t * pp + low,
                p == 2 * h * pp,
        ;
    } else {
        assert(2 * r < p) by (nonlinear_arith)
            requires
                t + 1 <= h,
                r == t * pp + low,
                low < pp,
                p == 2 * h * pp,
        ;
    }
}

/// The first `k` limbs are worth zero exactly when each of them is zero.
proof fn lemma_take_zero(s: Seq<u32>, k: int)
    requires
        0 <= k <= s.len(),
    ensures
        (value(s.take(k)) == 0) == (forall|j: int| 0 <= j < k ==> s[j] == 0),
{
    let t = s.take(k);
    crate::limbs::lemma_value_zero_all(t);
    if forall|j: int| 0 <= j < k ==> s[j] == 0 {
        assert forall|j: int| 0 <= j < t.len() implies t[j] == 0 by {
            assert(t[j] == s[j]);
        }
    }
    if forall|j: int| 0 <= j < t.len() ==> t[j] == 0 {
        assert forall|j: int| 0 <= j < k implies s[j] == 0 by {
            assert(t[j] == s[j]);
        }
    }
}

/// Whether the first `k` limbs are all zero.
fn all_zero_below(x: &[u32], k: usize) -> (r: bool)
    requires
        k <= x@.len(),
    ensures
        r == (forall|j: int| 0 <= j < k ==> x@[j] == 0),
{
    let mut i: usize = 0;
    while i < k
        invariant
            i <= k <= x@.len(),
            forall|j: int| 0 <= j < i ==> x@[j] == 0,
        decreases k - i,
    {
        if x[i] != 0 {
            return false;
        }
        i += 1;
    }
    true
}

proof fn lemma_value_div_big_pow(s: Seq<u32>, n: nat)
    ensures
        n >= s.len() ==> value(s) / big_pow(n) == 0,
        n < s.len() ==> value(s) / big_pow(n) == value(s.skip(n as int)),
{
    lemma_big_pow_pos(n);
    lemma_value_bound(s);
    if n >= s.len() {
        crate::limbs::lemma_big_pow_mono(s.len(), n);
        vstd::arithmetic::div_mod::lemma_basic_div(value(s) as int, big_pow(n) as int);
    } else {
        lemma_value_split(s, n as int);
        lemma_value_bound(s.take(n as int));
        crate::limbs::lemma_div_mod_unique(
            value(s),
            big_pow(n),
            value(s.skip(n as int)),
            value(s.take(n as int)),
        );
    }
    assert(value(Seq::<u32>::empty()) == 0);
}

/// Shift-right buffer by n bits and return if we should round-up: the
/// bits shifted out are above halfway, or exactly halfway with an odd
/// result.
pub fn ishr(x: &mut Vec<u32>, n: usize) -> (roundup: bool)
    ensures
        value(final(x)@) == value(old(x)@) / pow2n(n as nat),
        is_normalized(final(x)@),
        roundup == shr_roundup(old(x)@, n as nat),
{
    let ghost xs = old(x)@;
    let ghost v = value(xs);
    let rem = (n % 32) as u32;
    let div = n / 32;
    // With whole limbs shifted out, the top one of them decides the
    // rounding, and the ones below it break a tie; read them first.
    let (top, lower_zero) = if rem == 0 && div != 0 && div <= x.len() {
        (x[div - 1], all_zero_below(x.as_slice(), div - 1))
    } else {
        (0u32, true)
    };
    let is_zero = if div == 0 {
        true
    } else {
        ishr_digits(x, div)
    };
    proof {
        lemma_big_pow_pos(div as nat);
        if div == 0 {
            assert(big_pow(0) == 1);
            crate::limbs::lemma_div_mod_unique(v, 1, v, 0);
        }
        assert(value(x@) == v / big_pow(div as nat));
        assert(is_zero == shr_is_zero(xs, div as nat));
    }
    let ghost v1 = value(x@);
    let truncated = if rem == 0 {
        0
    } else {
        ishr_bits(x, rem)
    };
    proof {
        lemma_pow2n_pos(rem as nat);
        lemma_big_pow_pow2n(div as nat);
        lemma_pow2n_add((32 * div) as nat, rem as nat);
        assert(n == 32 * div + rem);
        vstd::arithmetic::div_mod::lemma_div_denominator(
            v as int,
            big_pow(div as nat) as int,
            pow2n(rem as nat) as int,
        );
        if rem == 0 {
            assert(pow2n(0) == 1);
        }
        assert(value(x@) == v / pow2n(n as nat));
    }
    let ghost q = value(x@);
    let odd = x.len() > 0 && x[0] % 2 == 1;
    proof {
        if x@.len() > 0 {
            lemma_value_mod_base(x@);
            vstd::arithmetic::div_mod::lemma_mod_mod(value(x@) as int, 2, 0x8000_0000);
        } else {
            assert(q == 0);
        }
        assert(odd == (q % 2 == 1));
    }
    let roundup = if rem == 0 {
        if div == 0 {
            false
        } else {
            top > 0x8000_0000 || (top == 0x8000_0000 && (!lower_zero || odd))
        }
    } else {
        proof {
            crate::limbs::lemma_u32_shl_one((rem - 1) as u32);
        }
        let halfway: u32 = 1u32 << (rem - 1);
        if truncated > halfway {
            true
        } else if truncated == halfway {
            !is_zero || odd
        } else {
            false
        }
    };
    proof {
        let p = pow2n(n as nat);
        let d = div as nat;
        lemma_pow2n_pos(n as nat);
        if rem == 0 && div == 0 {
            assert(p == 1);
            assert(v % 1 == 0);
            assert(!rounds_up(q, 0, 1));
        } else if rem == 0 {
            let pp = big_pow((d - 1) as nat);
            lemma_big_pow_pos((d - 1) as nat);
            assert(big_pow(d) == limb_base() * pp);
            assert(p == big_pow(d));
            assert(p == 2 * 0x8000_0000nat * pp);
            if div <= xs.len() {
                let lo = xs.take((d - 1) as int);
                lemma_value_split(xs, d as int);
                lemma_value_bound(xs.take(d as int));
                crate::limbs::lemma_div_mod_unique(
                    v,
                    big_pow(d),
                    value(xs.skip(d as int)),
                    value(xs.take(d as int)),
                );
                crate::limbs::lemma_value_take_step(xs, (d - 1) as int);
                lemma_value_bound(lo);
                lemma_take_zero(xs, (d - 1) as int);
                assert(lower_zero == (value(lo) == 0));
                assert(v % p == top * pp + value(lo)) by (nonlinear_arith)
                    requires
                        v % p == value(lo) + top * pp,
                ;
                lemma_rounds_up_split(q, v % p, p, top as nat, 0x8000_0000, pp, value(lo));
            } else {
                lemma_value_bound(xs);
                crate::limbs::lemma_big_pow_mono(xs.len(), (d - 1) as nat);
                assert(v < p) by (nonlinear_arith)
                    requires
                        v < pp,
                        p == 2 * 0x8000_0000nat * pp,
                ;
                vstd::arithmetic::div_mod::lemma_small_mod(v, p);
                assert(v % p == 0 * pp + v);
                lemma_rounds_up_split(q, v % p, p, 0, 0x8000_0000, pp, v);
            }
        } else {
            let pp = big_pow(d);
            let h = pow2n((rem - 1) as nat);
            lemma_pow2n_add(1, (rem - 1) as nat);
            assert(pow2n(1) == 2) by {
                reveal_with_fuel(pow2n, 2);
            }
            assert(pow2n(rem as nat) == 2 * h);
            assert(p == pp * pow2n(rem as nat));
            vstd::arithmetic::div_mod::lemma_mod_breakdown(v as int, pp as int, pow2n(rem as nat) as int);
            let low = v % pp;
            assert(truncated == v1 % pow2n(rem as nat));
            assert(v % p == truncated * pp + low) by (nonlinear_arith)
                requires
                    v % p == pp * (v1 % pow2n(rem as nat)) + low,
                    truncated == v1 % pow2n(rem as nat),
            ;
            assert(p == 2 * h * pp) by (nonlinear_arith)
                requires
                    p == pp * pow2n(rem as nat),
                    pow2n(rem as nat) == 2 * h,
            ;
            lemma_pow2n_pos((rem - 1) as nat);
            lemma_rounds_up_split(q, v % p, p, truncated as nat, h, pp, low);
            if truncated == h {
                // the dropped limbs are all zero exactly when `low` is
                if div == 0 {
                    assert(pp == 1);
                    assert(low == 0);
                } else {
                    if v1 == 0 {
                        vstd::arithmetic::div_mod::lemma_small_mod(0, pow2n(rem as nat));
                    }
                    assert(v1 != 0);
                    lemma_value_div_big_pow(xs, d);
                    assert(d < xs.len());
                    lemma_value_split(xs, d as int);
                    lemma_value_bound(xs.take(d as int));
                    crate::limbs::lemma_div_mod_unique(
                        v,
                        pp,
                        value(xs.skip(d as int)),
                        value(xs.take(d as int)),
                    );
                    lemma_take_zero(xs, d as int);
                    assert(is_zero == (low == 0));
                }
            }
        }
    }
    normalize(x);
    roundup
}

/// Shift-right buffer by n bits.
pub fn shr(x: &[u32], n: usize) -> (r: (Vec<u32>, bool))
    ensures
        value(r.0@) == value(x@) / pow2n(n as nat),
        is_normalized(r.0@),
        r.1 == shr_roundup(x@, n as nat),
{
    let mut z = copy_limbs(x);
    let roundup = ishr(&mut z, n);
    (z, roundup)
}

/// Implied AddAssign implementation for adding a small integer to bigint.
///
/// Allows us to choose a start-index in x to store, to allow incrementing
/// from a non-zero start. When the buffer is no longer than `xstart`, `y`
/// is pushed as its new most-significant limb.
pub fn iadd_impl(x: &mut Vec<u32>, y: u32, xstart: usize)
    ensures
        old(x)@.len() <= xstart ==> final(x)@ == old(x)@.push(y),
        old(x)@.len() > xstart ==> value(final(x)@) == value(old(x)@) + y * big_pow(
            xstart as nat,
        ),
        old(x)@.len() > xstart ==> (final(x)@.len() == old(x)@.len() || final(x)@.len()
            == old(x)@.len() + 1),
        old(x)@.len() > xstart && final(x)@.len() == old(x)@.len() + 1 ==> final(x)@.last()
            != 0,
        is_normalized(old(x)@) && (old(x)@.len() > xstart || y != 0) ==> is_normalized(
            final(x)@,
        ),
{
    let ghost xs = old(x)@;
    if x.len() <= xstart {
        x.push(y);
    } else {
        let mut t = x[xstart];
        let mut carry = crate::math::scalar::iadd(&mut t, y);
        let ghost before = x@;
        x.set(xstart, t);
        proof {
            lemma_value_update(before, xstart as int, t);
            lemma_big_pow_pos(xstart as nat);
            let bp = big_pow(xstart as nat);
            let c: nat = if carry { 1 } else { 0 };
            assert(c * big_pow((xstart + 1) as nat) == (if carry { limb_base() } else { 0 }) * bp)
                by (nonlinear_arith)
                requires
                    big_pow((xstart + 1) as nat) == limb_base() * bp,
                    c == (if carry { 1nat } else { 0nat }),
            ;
            assert((t + (if carry { limb_base() } else { 0 })) * bp == t * bp + (if carry {
                limb_base()
            } else {
                0
            }) * bp) by (nonlinear_arith);
            assert((xs[xstart as int] + y) * bp == xs[xstart as int] * bp + y * bp)
                by (nonlinear_arith);
        }
        let mut size = xstart + 1;
        while carry && size < x.len()
            invariant
                x@.len() == xs.len(),
                xstart < size <= xs.len(),
                value(x@) + (if carry { 1nat } else { 0nat }) * big_pow(size as nat) == value(xs)
                    + y * big_pow(xstart as nat),
            decreases xs.len() - size,
        {
            let mut t = x[size];
            carry = crate::math::scalar::iadd(&mut t, 1);
            let ghost before = x@;
            let ghost old_t = x@[size as int];
            x.set(size, t);
            proof {
                lemma_value_update(before, size as int, t);
                let bp = big_pow(size as nat);
                let c: nat = if carry { 1 } else { 0 };
                assert(c * big_pow((size + 1) as nat) + t * bp == (old_t + 1) * bp)
                    by (nonlinear_arith)
                    requires
                        big_pow((size + 1) as nat) == limb_base() * bp,
                        c == (if carry { 1nat } else { 0nat }),
                        t + (if carry { limb_base() } else { 0 }) == old_t + 1,
                ;
                assert((old_t + 1) * bp == old_t * bp + bp) by (nonlinear_arith);
            }
            size += 1;
        }
        if carry {
            let ghost before = x@;
            x.push(1);
            proof {
                lemma_value_push(before, 1);
                assert(size == xs.len());
            }
        }
        proof {
            if is_normalized(xs) && x@.len() == xs.len() {
                let bp = big_pow(xstart as nat);
                assert(y * bp >= 0) by (nonlinear_arith);
                lemma_normalized_by_value(xs, x@);
            }
        }
    }
}

/// AddAssign small integer to bigint.
pub fn iadd(x: &mut Vec<u32>, y: u32)
    ensures
        value(final(x)@) == value(old(x)@) + y,
        is_normalized(old(x)@) ==> is_normalized(final(x)@) || (old(x)@.len() == 0 && y == 0),
        old(x)@.len() == 0 ==> final(x)@ == old(x)@.push(y),
{
    proof {
        assert(big_pow(0) == 1);
        if old(x)@.len() == 0 {
            lemma_value_push(old(x)@, y);
        }
    }
    crate::math::small::iadd_impl(x, y, 0);
}

/// Add small integer to bigint.
pub fn add(x: &[u32], y: u32) -> (z: Vec<u32>)
    ensures
        value(z@) == value(x@) + y,
        is_normalized(x@) ==> is_normalized(z@) || (x@.len() == 0 && y == 0),
        x@.len() == 0 ==> z@ == seq![y],
{
    let mut z = copy_limbs(x);
    crate::math::small::iadd(&mut z, y);
    proof {
        if x@.len() == 0 {
            assert(z@ =~= seq![y]);
        }
    }
    z
}

/// SubAssign small integer to bigint, starting at limb `xstart`.
/// Does not do overflowing subtraction: when `x < y*B^xstart` the result
/// wraps around `B^len`.
pub fn isub_impl(x: &mut Vec<u32>, y: u32, xstart: usize)
    requires
        old(x)@.len() > xstart,
        old(x)@[xstart as int] >= y || old(x)@.len() > xstart + 1,
    ensures
        value(final(x)@) + y * big_pow(xstart as nat) == value(old(x)@) + (if value(old(x)@) < y
            * big_pow(xstart as nat) {
            big_pow(old(x)@.len())
        } else {
            0
        }),
        is_normalized(final(x)@),
{
    let ghost xs = old(x)@;
    let mut t = x[xstart];
    let mut carry = crate::math::scalar::isub(&mut t, y);
    let ghost before = x@;
    x.set(xstart, t);
    proof {
        lemma_value_update(before, xstart as int, t);
        lemma_big_pow_pos(xstart as nat);
        let bp = big_pow(xstart as nat);
        let c: nat = if carry { 1 } else { 0 };
        let o = xs[xstart as int] as nat;
        assert(t * bp + y * bp == o * bp + c * big_pow((xstart + 1) as nat)) by (nonlinear_arith)
            requires
                big_pow((xstart + 1) as nat) == limb_base() * bp,
                c == (if carry { 1nat } else { 0nat }),
                t == o - y + (if carry { limb_base() } else { 0 }),
        ;
    }
    assert(xstart < x.len());
    let mut size = xstart + 1;
    while carry && size < x.len()
        invariant
            x@.len() == xs.len(),
            xstart < size <= xs.len(),
            value(x@) + y * big_pow(xstart as nat) == value(xs) + (if carry { 1nat } else { 0nat })
                * big_pow(size as nat),
        decreases xs.len() - size,
    {
        let mut t = x[size];
        carry = crate::math::scalar::isub(&mut t, 1);
        let ghost before = x@;
        let ghost old_t = x@[size as int];
        x.set(size, t);
        proof {
            lemma_value_update(before, size as int, t);
            let bp = big_pow(size as nat);
            let c: nat = if carry { 1 } else { 0 };
            assert(t * bp + bp == old_t * bp + c * big_pow((size + 1) as nat)) by (nonlinear_arith)
                requires
                    big_pow((size + 1) as nat) == limb_base() * bp,
                    c == (if carry { 1nat } else { 0nat }),
                    t == old_t - 1 + (if carry { limb_base() } else { 0 }),
            ;
        }
        size += 1;
    }
    proof {
        let bp = big_pow(xstart as nat);
        lemma_value_bound(x@);
        if carry {
            assert(size == xs.len());
            assert(value(xs) < y * bp);
        } else {
            assert(value(xs) >= y * bp);
        }
    }
    normalize(x);
}

/// SubAssign small integer to bigint.
/// Does not do overflowing subtraction.
pub fn isub(x: &mut Vec<u32>, y: u32)
    requires
        old(x)@.len() > 0,
        old(x)@[0] >= y || old(x)@.len() > 1,
    ensures
        value(final(x)@) + y == value(old(x)@) + (if value(old(x)@) < y {
            big_pow(old(x)@.len())
        } else {
            0
        }),
        is_normalized(final(x)@),
{
    proof {
        assert(big_pow(0) == 1);
    }
    crate::math::small::isub_impl(x, y, 0);
}

/// Sub small integer to bigint.
pub fn sub(x: &[u32], y: u32) -> (z: Vec<u32>)
    requires
        x@.len() > 0,
        x@[0] >= y || x@.len() > 1,
    ensures
        value(z@) + y == value(x@) + (if value(x@) < y {
            big_pow(x@.len())
        } else {
            0
        }),
        is_normalized(z@),
{
    let mut z = copy_limbs(x);
    crate::math::small::isub(&mut z, y);
    z
}

/// MulAssign small integer to bigint.
pub fn imul(x: &mut Vec<u32>, y: u32)
    ensures
        value(final(x)@) == value(old(x)@) * y,
        final(x)@.len() == old(x)@.len() || final(x)@.len() == old(x)@.len() + 1,
        final(x)@.len() == old(x)@.len() + 1 ==> final(x)@.last() != 0,
        is_normalized(old(x)@) && y != 0 ==> is_normalized(final(x)@),
{
    let ghost xs = old(x)@;
    let mut carry: u32 = 0;
    let mut i: usize = 0;
    proof {
        assert(x@.take(0) =~= Seq::<u32>::empty());
        assert(xs.take(0) =~= Seq::<u32>::empty());
        assert(value(Seq::<u32>::empty()) == 0);
        assert(x@.skip(0) =~= xs.skip(0));
    }
    while i < x.len()
        invariant
            x@.len() == xs.len(),
            0 <= i <= xs.len(),
            x@.skip(i as int) == xs.skip(i as int),
            value(x@.take(i as int)) + carry * big_pow(i as nat) == value(xs.take(i as int)) * y,
        decreases xs.len() - i,
    {
        let mut t = x[i];
        proof {
            assert(t == xs[i as int]) by {
                assert(x@.skip(i as int)[0] == x@[i as int]);
            }
        }
        let ghost old_t = t;
        let ghost old_carry = carry;
        carry = crate::math::scalar::imul(&mut t, y, carry);
        let ghost before = x@;
        x.set(i, t);
        proof {
            lemma_value_take_step(x@, i as int);
            lemma_value_take_step(xs, i as int);
            assert(x@.take(i as int) =~= before.take(i as int));
            let bp = big_pow(i as nat);
            let vx = value(before.take(i as int));
            let vs = value(xs.take(i as int));
            assert(vx + t * bp + carry * (limb_base() * bp) == (vs + old_t * bp) * y)
                by (nonlinear_arith)
                requires
                    vx + old_carry * bp == vs * y,
                    t + carry * limb_base() == old_t * y + old_carry,
            ;
            assert(big_pow((i + 1) as nat) == limb_base() * bp);
            assert(x@.skip(i + 1) =~= xs.skip(i + 1)) by {
                assert forall|j: int| 0 <= j < x@.skip(i + 1).len() implies #[trigger] x@.skip(
                    i + 1,
                )[j] == xs.skip(i + 1)[j] by {
                    assert(before.skip(i as int)[j + 1] == xs.skip(i as int)[j + 1]);
                }
            }
        }
        i += 1;
    }
    proof {
        assert(x@.take(i as int) =~= x@);
        assert(xs.take(i as int) =~= xs);
    }
    let ghost before = x@;
    if carry != 0 {
        x.push(carry);
        proof {
            lemma_value_push(before, carry);
        }
    } else {
        proof {
            let bp = big_pow(xs.len());
            assert(carry * bp == 0) by (nonlinear_arith)
                requires
                    carry == 0,
            ;
        }
    }
    proof {
        if is_normalized(xs) && y != 0 && x@.len() == xs.len() {
            let v = value(xs);
            assert(v * y >= v) by (nonlinear_arith)
                requires
                    y >= 1,
            ;
            lemma_normalized_by_value(xs, x@);
        }
    }
}

/// Mul small integer to bigint.
pub fn mul(x: &[u32], y: u32) -> (z: Vec<u32>)
    ensures
        value(z@) == value(x@) * y,
        is_normalized(x@) && y != 0 ==> is_normalized(z@),
{
    let mut z = copy_limbs(x);
    crate::math::small::imul(&mut z, y);
    z
}

/// DivAssign small integer to bigint and get the remainder.
pub fn idiv(x: &mut Vec<u32>, y: u32) -> (rem: u32)
    requires
        y != 0,
    ensures
        value(final(x)@) == value(old(x)@) / (y as nat),
        rem == value(old(x)@) % (y as nat),
        is_normalized(final(x)@),
{
    let ghost xs = old(x)@;
    let mut rem: u32 = 0;
    let mut i: usize = x.len();
    proof {
        assert(xs.skip(xs.len() as int) =~= Seq::<u32>::empty());
        assert(x@.skip(xs.len() as int) =~= Seq::<u32>::empty());
        assert(value(Seq::<u32>::empty()) == 0);
        assert(x@.take(xs.len() as int) =~= xs.take(xs.len() as int));
    }
    while i > 0
        invariant
            x@.len() == xs.len(),
            0 <= i <= xs.len(),
            y != 0,
            rem < y,
            x@.take(i as int) == xs.take(i as int),
            value(x@.skip(i as int)) * y + rem == value(xs.skip(i as int)),
        decreases i,
    {
        let k = i - 1;
        let mut t = x[k];
        proof {
            assert(t == xs[k as int]) by {
                assert(x@.take(i as int)[k as int] == x@[k as int]);
            }
        }
        let ghost old_t = t;
        let ghost old_rem = rem;
        rem = crate::math::scalar::idiv(&mut t, y, rem);
        let ghost before = x@;
        x.set(k, t);
        proof {
            let w = crate::limbs::wide(old_rem, old_t);
            vstd::arithmetic::div_mod::lemma_fundamental_div_mod(w as int, y as int);
            let vi = value(before.skip(i as int));
            assert(xs.skip(k as int).subrange(1, xs.skip(k as int).len() as int) =~= xs.skip(
                i as int,
            ));
            let xk = x@.skip(k as int);
            assert(xk.subrange(1, xk.len() as int) =~= before.skip(i as int));
            assert(xk[0] == t);
            assert((t + limb_base() * vi) * y + rem == old_t + limb_base() * (vi * y + old_rem))
                by (nonlinear_arith)
                requires
                    w == y * t + rem,
                    w == old_rem * limb_base() + old_t,
            ;
            assert(x@.take(k as int) =~= xs.take(k as int)) by {
                assert forall|j: int| 0 <= j < k implies x@[j] == xs[j] by {
                    assert(before.take(i as int)[j] == before[j]);
                }
            }
            vstd::arithmetic::div_mod::lemma_mod_bound(w as int, y as int);
        }
        i = k;
    }
    proof {
        assert(xs.skip(0) =~= xs);
        assert(x@.skip(0) =~= x@);
        let q = value(x@);
        assert(q * y == (y as nat) * q) by (nonlinear_arith);
        lemma_div_mod_unique(value(xs), y as nat, value(x@), rem as nat);
    }
    normalize(x);
    rem
}

/// Div small integer to bigint and get the remainder.
pub fn div(x: &[u32], y: u32) -> (r: (Vec<u32>, u32))
    requires
        y != 0,
    ensures
        value(r.0@) == value(x@) / (y as nat),
        r.1 == value(x@) % (y as nat),
        is_normalized(r.0@),
{
    let mut z = copy_limbs(x);
    let rem = crate::math::small::idiv(&mut z, y);
    (z, rem)
}

/// Round-nearest, tie-even: whether a quotient `q` with remainder `r`
/// against divisor `p` is rounded up.
pub open spec fn rounds_up(q: nat, r: nat, p: nat) -> bool {
    2 * r > p || (2 * r == p && q % 2 == 1)
}

/// `v / p`, rounded to nearest (tie-even) when `roundup` is set.
pub open spec fn div_round(v: nat, p: nat, roundup: bool) -> nat {
    if roundup && rounds_up(v / p, v % p, p) {
        v / p + 1
    } else {
        v / p
    }
}

/// Whether a quotient held in `x`, with remainder `rem` against divisor
/// `y`, is rounded up (round-nearest, tie-even).
pub open spec fn quotient_rounds_up(x: Seq<u32>, rem: u32, y: u32) -> bool {
    rounds_up(value(x), rem as nat, y as nat)
}

/// The parity of a buffer's value is that of its lowest limb.
proof fn lemma_low_parity(s: Seq<u32>)
    ensures
        s.len() > 0 ==> s[0] % 2 == value(s) % 2,
        s.len() == 0 ==> value(s) == 0,
{
    if s.len() == 0 {
        assert(value(s) == 0);
    } else {
        lemma_value_mod_base(s);
        vstd::arithmetic::div_mod::lemma_mod_mod(value(s) as int, 2, 0x8000_0000);
    }
}

/// Round to the nearest value if there's truncation during division.
///
/// If `2*rem > y`, or `2*rem == y` and the quotient is odd, round-up
/// (round-nearest, tie-even): the quotient in `x` grows by one, with the
/// carry running into higher limbs as needed.
pub fn check_do_roundup(x: &mut Vec<u32>, y: u32, rem: u32)
    ensures
        value(final(x)@) == value(old(x)@) + (if quotient_rounds_up(old(x)@, rem, y) {
            1nat
        } else {
            0nat
        }),
        is_normalized(old(x)@) ==> is_normalized(final(x)@),
{
    proof {
        lemma_low_parity(x@);
    }
    let (is_above, is_halfway) = crate::math::scalar::cmp_remainder(y, rem);
    let is_odd = x.len() > 0 && x[0] % 2 == 1;
    if is_above || (is_halfway && is_odd) {
        crate::math::small::iadd(x, 1);
    }
}

/// MulAssign by a power.
///
/// Multiplies by the largest small power until the exponent is below its
/// step, then by the small power of the remainder.
pub fn imul_power(x: &mut Vec<u32>, base: u32, n: u32)
    requires
        2 <= base <= 36,
    ensures
        value(final(x)@) == value(old(x)@) * powi(base as nat, n as nat),
        is_normalized(old(x)@) ==> is_normalized(final(x)@),
{
    let ghost v0 = value(old(x)@);
    let ghost b = base as nat;
    let small_powers = get_small_powers(base);
    let step = small_powers.len() - 1;
    let power = small_powers[step];
    let step = step as u32;
    let mut k = n;
    proof {
        lemma_powi_pos(b, step as nat);
        assert(power == powi(b, step as nat));
    }
    while k >= step
        invariant
            is_small_powers_table(b, small_powers@),
            step as nat == small_powers@.len() - 1,
            step >= 1,
            power == powi(b, step as nat),
            power > 0,
            b >= 2,
            value(x@) * powi(b, k as nat) == v0 * powi(b, n as nat),
            is_normalized(old(x)@) ==> is_normalized(x@),
        decreases k,
    {
        let ghost vx = value(x@);
        imul(x, power);
        proof {
            lemma_powi_add(b, step as nat, (k - step) as nat);
            assert(step as nat + (k - step) as nat == k as nat);
            let ps = powi(b, step as nat);
            let pr = powi(b, (k - step) as nat);
            assert((vx * ps) * pr == vx * (ps * pr)) by (nonlinear_arith);
        }
        k -= step;
    }
    proof {
        assert(small_powers@[k as int] == powi(b, k as nat));
        lemma_powi_pos(b, k as nat);
    }
    let ghost vx = value(x@);
    imul(x, small_powers[k as usize]);
}

/// Mul by a power.
pub fn mul_power(x: &[u32], base: u32, n: u32) -> (z: Vec<u32>)
    requires
        2 <= base <= 36,
    ensures
        value(z@) == value(x@) * powi(base as nat, n as nat),
        is_normalized(x@) ==> is_normalized(z@),
{
    let mut z = copy_limbs(x);
    imul_power(&mut z, base, n);
    z
}

/// Division by `base^n` in steps of the largest small power of `base`,
/// each step rounded as `div_round` says.
pub open spec fn idiv_power_spec(v: nat, base: nat, n: nat, roundup: bool) -> nat
    decreases n,
{
    let step = (small_powers_len(base) - 1) as nat;
    if step > 0 && n >= step {
        idiv_power_spec(div_round(v, powi(base, step), roundup), base, (n - step) as nat, roundup)
    } else {
        div_round(v, powi(base, n), roundup)
    }
}

/// One division step of `idiv_power`: divide, then round if asked.
fn idiv_round(x: &mut Vec<u32>, power: u32, roundup: bool)
    requires
        power > 0,
    ensures
        value(final(x)@) == div_round(value(old(x)@), power as nat, roundup),
        is_normalized(final(x)@),
{
    let ghost v = value(old(x)@);
    let rem = idiv(x, power);
    if roundup {
        check_do_roundup(x, power, rem);
    }
}

/// DivAssign by a power.
///
/// Divides by the largest small power until the exponent is below its
/// step, then by the small power of the remainder, rounding each step to
/// nearest (tie-even) when `roundup` is set.
pub fn idiv_power(x: &mut Vec<u32>, base: u32, n: u32, roundup: bool)
    requires
        2 <= base <= 36,
    ensures
        value(final(x)@) == idiv_power_spec(value(old(x)@), base as nat, n as nat, roundup),
        is_normalized(final(x)@),
{
    let ghost b = base as nat;
    let small_powers = get_small_powers(base);
    let step = small_powers.len() - 1;
    let power = small_powers[step];
    let step = step as u32;
    let mut k = n;
    proof {
        lemma_powi_pos(b, step as nat);
        assert(power == powi(b, step as nat));
    }
    while k >= step
        invariant
            is_small_powers_table(b, small_powers@),
            small_powers@.len() == small_powers_len(b),
            step as nat == small_powers@.len() - 1,
            step >= 1,
            power == powi(b, step as nat),
            power > 0,
            b >= 2,
            k < n ==> is_normalized(x@),
            idiv_power_spec(value(x@), b, k as nat, roundup) == idiv_power_spec(
                value(old(x)@),
                b,
                n as nat,
                roundup,
            ),
        decreases k,
    {
        idiv_round(x, power, roundup);
        k -= step;
    }
    proof {
        assert(small_powers@[k as int] == powi(b, k as nat));
        lemma_powi_pos(b, k as nat);
    }
    idiv_round(x, small_powers[k as usize], roundup);
}

/// Div by a power.
pub fn div_power(x: &[u32], base: u32, n: u32, roundup: bool) -> (z: Vec<u32>)
    requires
        2 <= base <= 36,
    ensures
        value(z@) == idiv_power_spec(value(x@), base as nat, n as nat, roundup),
        is_normalized(z@),
{
    let mut z = copy_limbs(x);
    idiv_power(&mut z, base, n, roundup);
    z
}

/// Calculate x^n, using exponentiation by squaring.
pub fn ipow(x: &mut Vec<u32>, n: u32)
    requires
        1 + 2 * old(x)@.len() * n <= usize::MAX,
    ensures
        value(final(x)@) == powi(value(old(x)@), n as nat),
        is_normalized(old(x)@) ==> is_normalized(final(x)@),
        n == 0 ==> final(x)@ == seq![1u32],
{
    let ghost v0 = value(old(x)@);
    let ghost norm = is_normalized(old(x)@);
    let ghost l = old(x)@.len();
    let mut base: Vec<u32> = Vec::new();
    base.push(1);
    std::mem::swap(x, &mut base);
    let mut k = n;
    let ghost mut pw: nat = 1;
    proof {
        lemma_value_push(Seq::<u32>::empty(), 1);
        assert(Seq::<u32>::empty().push(1u32) =~= x@);
        assert(value(Seq::<u32>::empty()) == 0);
        assert(big_pow(0) == 1);
        assert(value(x@) == 1);
        assert(x@ =~= seq![1u32]);
        assert(l * pw == l);
        assert(k * pw == k);
    }
    loop
        invariant_except_break
            value(x@) * powi(value(base@), k as nat) == powi(v0, n as nat),
            pw >= 1,
            k * pw <= n,
            base@.len() <= l * pw,
            x@.len() <= 1 + l * (n - k * pw),
            1 + 2 * l * n <= usize::MAX,
            norm ==> is_normalized(x@) && is_normalized(base@),
            n == 0 ==> k == 0 && x@ == seq![1u32],
        ensures
            value(x@) == powi(v0, n as nat),
            norm ==> is_normalized(x@),
            n == 0 ==> x@ == seq![1u32],
        decreases k,
    {
        let ghost vb = value(base@);
        let ghost vx = value(x@);
        if k % 2 == 1 {
            proof {
                assert(pw <= k * pw) by (nonlinear_arith)
                    requires
                        k >= 1,
                ;
                assert(l * (n - k * pw) + l * pw <= l * n) by (nonlinear_arith)
                    requires
                        pw <= k * pw,
                        k * pw <= n,
                ;
                assert(l * n <= 2 * l * n) by (nonlinear_arith);
            }
            crate::math::large::imul(x, base.as_slice());
        }
        proof {
            crate::limbs::lemma_powi_square(vb, k as nat);
            let odd: nat = (k % 2) as nat;
            if k % 2 == 1 {
                assert(powi(vb, 1) == vb) by {
                    reveal_with_fuel(powi, 2);
                    assert(powi(vb, 0) == 1);
                    assert(vb * 1 == vb);
                }
            } else {
                assert(powi(vb, 0) == 1);
            }
            let pb = powi(vb * vb, (k / 2) as nat);
            assert(vx * powi(vb, k as nat) == value(x@) * pb) by (nonlinear_arith)
                requires
                    powi(vb, k as nat) == powi(vb, odd) * pb,
                    value(x@) == vx * powi(vb, odd),
            ;
            assert(l * (n - k * pw) + (k % 2) * l * pw == l * (n - (k / 2) * (2 * pw)))
                by (nonlinear_arith)
                requires
                    k * pw <= n,
            ;
            assert((k / 2) * (2 * pw) <= k * pw) by (nonlinear_arith);
            if k % 2 == 1 {
                assert(x@.len() <= 1 + l * (n - k * pw) + l * pw);
                assert((k % 2) * l * pw == l * pw) by (nonlinear_arith)
                    requires
                        k % 2 == 1,
                ;
            } else {
                assert((k % 2) * l * pw == 0) by (nonlinear_arith)
                    requires
                        k % 2 == 0,
                ;
            }
        }
        k = k / 2;
        if k == 0 {
            proof {
                assert(powi(value(base@), 0) == 1);
            }
            break;
        } else {
            proof {
                assert(2 * pw <= k * (2 * pw)) by (nonlinear_arith)
                    requires
                        k >= 1,
                ;
                assert(base@.len() + base@.len() <= 2 * l * n) by (nonlinear_arith)
                    requires
                        base@.len() <= l * pw,
                        2 * pw <= n,
                ;
                assert(2 * (l * pw) == l * (2 * pw)) by (nonlinear_arith);
            }
            base = crate::math::large::mul(base.as_slice(), base.as_slice());
            proof {
                pw = 2 * pw;
            }
        }
    }
}

/// Calculate x^n, using exponentiation by squaring.
pub fn pow(x: &[u32], n: u32) -> (z: Vec<u32>)
    requires
        1 + 2 * x@.len() * n <= usize::MAX,
    ensures
        value(z@) == powi(value(x@), n as nat),
        is_normalized(x@) ==> is_normalized(z@),
        n == 0 ==> z@ == seq![1u32],
{
    let mut z = copy_limbs(x);
    ipow(&mut z, n);
    z
}

} // verus!
