//! Mathematical model of little-endian big integers stored as `u32` limbs.
//!
//! A buffer `[x0, x1, ..., xn]` stands for `x0 + x1*B + ... + xn*B^n`, with
//! `B = 2^32`. The lemmas here are the arithmetic facts the limb algorithms
//! rest on.

use vstd::prelude::*;

verus! {

/// The radix of one limb, `2^32`.
pub open spec fn limb_base() -> nat {
    0x1_0000_0000nat
}

/// The two-limb number `hi*B + lo`.
pub open spec fn wide(hi: u32, lo: u32) -> nat {
    hi as nat * limb_base() + lo as nat
}

/// `B^n`, the weight of limb `n`.
pub open spec fn big_pow(n: nat) -> nat
    decreases n,
{
    if n == 0 {
        1
    } else {
        limb_base() * big_pow((n - 1) as nat)
    }
}

/// `2^n`.
pub open spec fn pow2n(n: nat) -> nat
    decreases n,
{
    if n == 0 {
        1
    } else {
        2 * pow2n((n - 1) as nat)
    }
}

/// `b^n` for any base.
pub open spec fn powi(b: nat, n: nat) -> nat
    decreases n,
{
    if n == 0 {
        1
    } else {
        b * powi(b, (n - 1) as nat)
    }
}

/// The number that a little-endian limb sequence stands for.
pub open spec fn value(s: Seq<u32>) -> nat
    decreases s.len(),
{
    if s.len() == 0 {
        0
    } else {
        s[0] as nat + limb_base() * value(s.subrange(1, s.len() as int))
    }
}

/// No most-significant zero limb.
pub open spec fn is_normalized(s: Seq<u32>) -> bool {
    s.len() == 0 || s.last() != 0
}

/// The sequence without its most-significant zero limbs.
pub open spec fn trim(s: Seq<u32>) -> Seq<u32>
    decreases s.len(),
{
    if s.len() > 0 && s.last() == 0 {
        trim(s.drop_last())
    } else {
        s
    }
}

/// A sequence of `n` zero limbs.
pub open spec fn zeros(n: nat) -> Seq<u32> {
    Seq::new(n, |i: int| 0u32)
}

pub proof fn lemma_big_pow_pos(n: nat)
    ensures
        big_pow(n) > 0,
    decreases n,
{
    if n > 0 {
        lemma_big_pow_pos((n - 1) as nat);
        let p = big_pow((n - 1) as nat);
        assert(limb_base() * p > 0) by (nonlinear_arith)
            requires
                p > 0,
        ;
    }
}

pub proof fn lemma_big_pow_add(a: nat, b: nat)
    ensures
        big_pow(a + b) == big_pow(a) * big_pow(b),
    decreases a,
{
    if a > 0 {
        lemma_big_pow_add((a - 1) as nat, b);
        let pa = big_pow((a - 1) as nat);
        let pb = big_pow(b);
        assert((a + b - 1) as nat == ((a - 1) as nat + b) as nat);
        assert(big_pow(a + b) == limb_base() * big_pow(((a - 1) as nat + b) as nat));
        assert(big_pow(a) == limb_base() * pa);
        assert(limb_base() * (pa * pb) == (limb_base() * pa) * pb) by (nonlinear_arith);
        assert(big_pow(a + b) == big_pow(a) * big_pow(b));
    } else {
        assert(big_pow(a) == 1);
        assert(a + b == b);
    }
}

pub proof fn lemma_big_pow_mono(a: nat, b: nat)
    requires
        a <= b,
    ensures
        big_pow(a) <= big_pow(b),
    decreases b,
{
    if a < b {
        lemma_big_pow_mono(a, (b - 1) as nat);
        lemma_big_pow_pos((b - 1) as nat);
    }
}

pub proof fn lemma_pow2n_pos(n: nat)
    ensures
        pow2n(n) > 0,
    decreases n,
{
    if n > 0 {
        lemma_pow2n_pos((n - 1) as nat);
    }
}

pub proof fn lemma_pow2n_add(a: nat, b: nat)
    ensures
        pow2n(a + b) == pow2n(a) * pow2n(b),
    decreases a,
{
    if a > 0 {
        lemma_pow2n_add((a - 1) as nat, b);
        let pa = pow2n((a - 1) as nat);
        let pb = pow2n(b);
        assert((a + b - 1) as nat == ((a - 1) as nat + b) as nat);
        assert(pow2n(a + b) == 2 * pow2n(((a - 1) as nat + b) as nat));
        assert(pow2n(a) == 2 * pa);
        assert(2 * (pa * pb) == (2 * pa) * pb) by (nonlinear_arith);
        assert(pow2n(a + b) == pow2n(a) * pow2n(b));
    } else {
        assert(pow2n(a) == 1);
        assert(a + b == b);
    }
}

pub proof fn lemma_pow2n_mono(a: nat, b: nat)
    requires
        a <= b,
    ensures
        pow2n(a) <= pow2n(b),
    decreases b,
{
    if a < b {
        lemma_pow2n_mono(a, (b - 1) as nat);
        lemma_pow2n_pos((b - 1) as nat);
    }
}

/// `2^32 == B`.
pub proof fn lemma_pow2n_32()
    ensures
        pow2n(32) == limb_base(),
{
    reveal_with_fuel(pow2n, 33);
}

/// `B^n == 2^(32 n)`.
pub proof fn lemma_big_pow_pow2n(n: nat)
    ensures
        big_pow(n) == pow2n(32 * n),
    decreases n,
{
    if n > 0 {
        lemma_big_pow_pow2n((n - 1) as nat);
        lemma_pow2n_add(32, (32 * (n - 1)) as nat);
        lemma_pow2n_32();
        assert(32 * n == 32 + 32 * (n - 1));
    }
}

pub proof fn lemma_powi_pos(b: nat, n: nat)
    requires
        b > 0,
    ensures
        powi(b, n) > 0,
    decreases n,
{
    if n > 0 {
        lemma_powi_pos(b, (n - 1) as nat);
        let p = powi(b, (n - 1) as nat);
        assert(b * p > 0) by (nonlinear_arith)
            requires
                b > 0,
                p > 0,
        ;
    }
}

pub proof fn lemma_powi_add(b: nat, m: nat, n: nat)
    ensures
        powi(b, m + n) == powi(b, m) * powi(b, n),
    decreases m,
{
    if m > 0 {
        lemma_powi_add(b, (m - 1) as nat, n);
        let pm = powi(b, (m - 1) as nat);
        let pn = powi(b, n);
        assert((m + n - 1) as nat == ((m - 1) as nat + n) as nat);
        assert(powi(b, m + n) == b * powi(b, ((m - 1) as nat + n) as nat));
        assert(powi(b, m) == b * pm);
        assert(b * (pm * pn) == (b * pm) * pn) by (nonlinear_arith);
        assert(powi(b, m + n) == powi(b, m) * powi(b, n));
    } else {
        assert(powi(b, m) == 1);
        assert(m + n == n);
    }
}

pub proof fn lemma_powi_mul(b: nat, m: nat, n: nat)
    ensures
        powi(b, m * n) == powi(powi(b, m), n),
    decreases n,
{
    if n > 0 {
        lemma_powi_mul(b, m, (n - 1) as nat);
        assert(m * n == m + m * (n - 1)) by (nonlinear_arith)
            requires
                n > 0,
        ;
        lemma_powi_add(b, m, (m * (n - 1)) as nat);
    } else {
        assert(m * n == 0) by (nonlinear_arith)
            requires
                n == 0,
        ;
    }
}

pub proof fn lemma_powi_two(n: nat)
    ensures
        powi(2, n) == pow2n(n),
    decreases n,
{
    if n > 0 {
        lemma_powi_two((n - 1) as nat);
    }
}

pub proof fn lemma_powi_of_product(a: nat, b: nat, n: nat)
    ensures
        powi(a * b, n) == powi(a, n) * powi(b, n),
    decreases n,
{
    if n > 0 {
        lemma_powi_of_product(a, b, (n - 1) as nat);
        let pa = powi(a, (n - 1) as nat);
        let pb = powi(b, (n - 1) as nat);
        assert(powi(a * b, n) == (a * b) * powi(a * b, (n - 1) as nat));
        assert(powi(a, n) == a * pa);
        assert(powi(b, n) == b * pb);
        assert((a * b) * (pa * pb) == (a * pa) * (b * pb)) by (nonlinear_arith);
    } else {
        assert(powi(a, n) == 1);
        assert(powi(b, n) == 1);
        assert(powi(a * b, n) == 1);
    }
}

/// The value of a sequence is below `B^len`.
pub proof fn lemma_value_bound(s: Seq<u32>)
    ensures
        value(s) < big_pow(s.len()),
    decreases s.len(),
{
    if s.len() > 0 {
        let t = s.subrange(1, s.len() as int);
        lemma_value_bound(t);
        let vt = value(t);
        let p = big_pow(t.len());
        let x = s[0] as nat;
        assert(x + limb_base() * vt < limb_base() * p) by (nonlinear_arith)
            requires
                vt < p,
                x < limb_base(),
        ;
        assert(t.len() == (s.len() - 1) as nat);
    }
}

/// The value of a concatenation.
pub proof fn lemma_value_append(a: Seq<u32>, b: Seq<u32>)
    ensures
        value(a + b) == value(a) + big_pow(a.len()) * value(b),
    decreases a.len(),
{
    if a.len() == 0 {
        assert(a + b =~= b);
        assert(value(a) == 0);
        assert(big_pow(a.len()) == 1);
    } else {
        let t = a.subrange(1, a.len() as int);
        lemma_value_append(t, b);
        assert((a + b).subrange(1, (a + b).len() as int) =~= t + b);
        assert((a + b)[0] == a[0]);
        let vt = value(t);
        let vb = value(b);
        let p = big_pow(t.len());
        assert(t.len() == (a.len() - 1) as nat);
        assert(limb_base() * (vt + p * vb) == limb_base() * vt + (limb_base() * p) * vb)
            by (nonlinear_arith);
        assert(value(a) == a[0] + limb_base() * vt);
        assert(value(a + b) == a[0] + limb_base() * value(t + b));
        assert(big_pow(a.len()) == limb_base() * p);
    }
}

/// Appending one limb.
pub proof fn lemma_value_push(s: Seq<u32>, x: u32)
    ensures
        value(s.push(x)) == value(s) + x * big_pow(s.len()),
{
    lemma_value_append(s, seq![x]);
    assert(s + seq![x] =~= s.push(x));
    lemma_value_single(x);
    let p = big_pow(s.len());
    assert(p * (x as nat) == (x as nat) * p) by (nonlinear_arith);
}

pub proof fn lemma_value_single(x: u32)
    ensures
        value(seq![x]) == x,
{
    assert(seq![x].subrange(1, 1) =~= Seq::<u32>::empty());
    assert(value(Seq::<u32>::empty()) == 0);
}

/// The value of a prefix grows limb by limb.
pub proof fn lemma_value_take_step(s: Seq<u32>, i: int)
    requires
        0 <= i < s.len(),
    ensures
        value(s.take(i + 1)) == value(s.take(i)) + s[i] * big_pow(i as nat),
{
    assert(s.take(i + 1) =~= s.take(i).push(s[i]));
    lemma_value_push(s.take(i), s[i]);
}

/// Splitting at `i`: low part plus shifted high part.
pub proof fn lemma_value_split(s: Seq<u32>, i: int)
    requires
        0 <= i <= s.len(),
    ensures
        value(s) == value(s.take(i)) + big_pow(i as nat) * value(s.skip(i)),
{
    assert(s =~= s.take(i) + s.skip(i));
    lemma_value_append(s.take(i), s.skip(i));
}

/// Trailing zero limbs do not change the value.
pub proof fn lemma_value_zeros(n: nat)
    ensures
        value(zeros(n)) == 0,
    decreases n,
{
    if n > 0 {
        let z = zeros(n);
        assert(z.len() == n);
        assert(z.subrange(1, n as int) =~= zeros((n - 1) as nat));
        lemma_value_zeros((n - 1) as nat);
        assert(z[0] == 0);
        assert(value(z) == z[0] + limb_base() * value(z.subrange(1, z.len() as int)));
    } else {
        assert(zeros(n).len() == 0);
    }
}

pub proof fn lemma_value_append_zeros(s: Seq<u32>, n: nat)
    ensures
        value(s + zeros(n)) == value(s),
{
    lemma_value_append(s, zeros(n));
    lemma_value_zeros(n);
}

/// Prepending zero limbs multiplies by `B^n`.
pub proof fn lemma_value_prepend_zeros(s: Seq<u32>, n: nat)
    ensures
        value(zeros(n) + s) == big_pow(n) * value(s),
{
    lemma_value_append(zeros(n), s);
    lemma_value_zeros(n);
}

/// Dropping a most-significant zero limb keeps the value.
pub proof fn lemma_value_drop_last_zero(s: Seq<u32>)
    requires
        s.len() > 0,
        s.last() == 0,
    ensures
        value(s.drop_last()) == value(s),
{
    assert(s =~= s.drop_last().push(0));
    lemma_value_push(s.drop_last(), 0);
}

/// Updating one limb.
pub proof fn lemma_value_update(s: Seq<u32>, i: int, x: u32)
    requires
        0 <= i < s.len(),
    ensures
        value(s.update(i, x)) + s[i] * big_pow(i as nat) == value(s) + x * big_pow(i as nat),
{
    let t = s.update(i, x);
    lemma_value_split(s, i);
    lemma_value_split(t, i);
    assert(t.take(i) =~= s.take(i));
    let hs = s.skip(i);
    let ht = t.skip(i);
    assert(ht[0] == x);
    assert(hs.subrange(1, hs.len() as int) =~= ht.subrange(1, ht.len() as int));
    let r = value(hs.subrange(1, hs.len() as int));
    let p = big_pow(i as nat);
    assert(p * (x + limb_base() * r) + s[i] * p == p * (s[i] + limb_base() * r) + x * p)
        by (nonlinear_arith);
}

/// A normalized non-empty sequence is at least `B^(len-1)`.
pub proof fn lemma_value_lower_bound(s: Seq<u32>)
    requires
        s.len() > 0,
        s.last() != 0,
    ensures
        value(s) >= big_pow((s.len() - 1) as nat),
{
    let n = (s.len() - 1) as int;
    lemma_value_split(s, n);
    assert(s.skip(n) =~= seq![s.last()]);
    lemma_value_single(s.last());
    let p = big_pow(n as nat);
    let l = s.last() as nat;
    assert(p * l >= p) by (nonlinear_arith)
        requires
            l >= 1,
    ;
}

/// A normalized sequence of value `v` has the minimal length for `v`.
pub proof fn lemma_normalized_len_le(a: Seq<u32>, b: Seq<u32>)
    requires
        is_normalized(a),
        value(a) <= value(b),
    ensures
        a.len() <= b.len(),
{
    if a.len() > b.len() {
        lemma_value_lower_bound(a);
        lemma_value_bound(b);
        lemma_big_pow_mono(b.len(), (a.len() - 1) as nat);
    }
}

/// Two normalized sequences with one value are equal.
pub proof fn lemma_normalized_unique(a: Seq<u32>, b: Seq<u32>)
    requires
        is_normalized(a),
        is_normalized(b),
        value(a) == value(b),
    ensures
        a =~= b,
    decreases a.len(),
{
    lemma_normalized_len_le(a, b);
    lemma_normalized_len_le(b, a);
    if a.len() > 0 {
        let ta = a.subrange(1, a.len() as int);
        let tb = b.subrange(1, b.len() as int);
        let va = value(ta);
        let vb = value(tb);
        let xa = a[0] as nat;
        let xb = b[0] as nat;
        assert(xa + limb_base() * va == xb + limb_base() * vb);
        vstd::arithmetic::div_mod::lemma_fundamental_div_mod_converse(
            (xa + limb_base() * va) as int,
            limb_base() as int,
            va as int,
            xa as int,
        );
        vstd::arithmetic::div_mod::lemma_fundamental_div_mod_converse(
            (xb + limb_base() * vb) as int,
            limb_base() as int,
            vb as int,
            xb as int,
        );
        if ta.len() > 0 {
            assert(ta.last() == a.last());
            assert(tb.last() == b.last());
        }
        lemma_normalized_unique(ta, tb);
        assert(a =~= seq![a[0]] + ta);
        assert(b =~= seq![b[0]] + tb);
    }
}

/// `value` of a normalized sequence is zero exactly when it is empty.
pub proof fn lemma_value_zero_iff_empty(s: Seq<u32>)
    requires
        is_normalized(s),
    ensures
        (value(s) == 0) == (s.len() == 0),
{
    if s.len() > 0 {
        lemma_value_lower_bound(s);
        lemma_big_pow_pos((s.len() - 1) as nat);
    }
}

/// The lowest limb of the value.
pub proof fn lemma_value_mod_base(s: Seq<u32>)
    requires
        s.len() > 0,
    ensures
        value(s) % limb_base() == s[0],
        value(s) / limb_base() == value(s.subrange(1, s.len() as int)),
{
    vstd::arithmetic::div_mod::lemma_fundamental_div_mod_converse(
        value(s) as int,
        limb_base() as int,
        value(s.subrange(1, s.len() as int)) as int,
        s[0] as int,
    );
}

/// `1 << n` is `2^n` for a `u32`.
pub proof fn lemma_u32_shl_one(n: u32)
    requires
        n < 32,
    ensures
        (1u32 << n) as nat == pow2n(n as nat),
    decreases n,
{
    if n == 0 {
        assert(1u32 << 0u32 == 1u32) by (bit_vector);
    } else {
        lemma_u32_shl_one((n - 1) as u32);
        assert((1u32 << n) == 2 * (1u32 << ((n - 1) as u32))) by (bit_vector)
            requires
                0 < n < 32,
        ;
    }
}

/// `1 << n` is `2^n` for a `u64`.
pub proof fn lemma_u64_shl_one(n: u64)
    requires
        n < 64,
    ensures
        (1u64 << n) as nat == pow2n(n as nat),
    decreases n,
{
    if n == 0 {
        assert(1u64 << 0u64 == 1u64) by (bit_vector);
    } else {
        lemma_u64_shl_one((n - 1) as u64);
        assert((1u64 << n) == 2 * (1u64 << ((n - 1) as u64))) by (bit_vector)
            requires
                0 < n < 64,
        ;
    }
}

/// `pow2n` agrees with vstd's `pow2`.
pub proof fn lemma_pow2n_is_pow2(n: nat)
    ensures
        pow2n(n) == vstd::arithmetic::power2::pow2(n),
    decreases n,
{
    if n == 0 {
        vstd::arithmetic::power2::lemma2_to64();
    } else {
        lemma_pow2n_is_pow2((n - 1) as nat);
        vstd::arithmetic::power2::lemma_pow2_unfold(n);
    }
}

/// Shifting right by `n` divides by `2^n`.
pub proof fn lemma_u32_shr(a: u32, n: u32)
    requires
        n < 32,
    ensures
        (a >> n) as nat == (a as nat) / pow2n(n as nat),
{
    vstd::bits::lemma_u32_shr_is_div(a, n);
    lemma_pow2n_is_pow2(n as nat);
}

/// Shifting right by `n` divides by `2^n`.
pub proof fn lemma_u64_shr(a: u64, n: u64)
    requires
        n < 64,
    ensures
        (a >> n) as nat == (a as nat) / pow2n(n as nat),
{
    vstd::bits::lemma_u64_shr_is_div(a, n);
    lemma_pow2n_is_pow2(n as nat);
}

/// Shifting left by `n` (without overflow) multiplies by `2^n`.
pub proof fn lemma_u64_shl(a: u64, n: u64)
    requires
        n < 64,
        a * pow2n(n as nat) <= u64::MAX,
    ensures
        (a << n) as nat == (a as nat) * pow2n(n as nat),
{
    lemma_pow2n_is_pow2(n as nat);
    vstd::bits::lemma_u64_shl_is_mul(a, n);
}

/// A left shift of a limb splits into the part that stays and the part
/// that moves to the next limb.
pub proof fn lemma_shl_split(a: u32, n: u32)
    requires
        0 < n < 32,
    ensures
        (a << n) as nat + ((a as nat) / pow2n((32 - n) as nat)) * limb_base() == (a as nat)
            * pow2n(n as nat),
{
    let m = (32 - n) as u32;
    assert((a << n) as u64 + ((a >> m) as u64) * 0x1_0000_0000u64 == (a as u64) * ((1u32 << n)
        as u64)) by (bit_vector)
        requires
            0 < n < 32,
            m == 32 - n,
    ;
    lemma_u32_shl_one(n);
    lemma_u32_shr(a, m);
}

/// `|` is `+` when the low operand fits below the shift.
pub proof fn lemma_or_disjoint(a: u32, b: u32, n: u32)
    requires
        n < 32,
        (b as nat) < pow2n(n as nat),
    ensures
        ((a << n) | b) as nat == (a << n) as nat + b as nat,
{
    lemma_u32_shl_one(n);
    assert(((a << n) | b) == (a << n) + b) by (bit_vector)
        requires
            n < 32,
            b < (1u32 << n),
    ;
}

/// The bit pattern of one limb of a right shift: the low bits of `a` drop,
/// and the low `n` bits of the next limb come in at the top.
pub proof fn lemma_shr_combine(a: u32, p: u32, n: u32)
    requires
        0 < n < 32,
    ensures
        ((a >> n) | (p << ((32 - n) as u32))) as nat == (a as nat) / pow2n(n as nat) + ((p as nat)
            % pow2n(n as nat)) * pow2n((32 - n) as nat),
        (p & (((1u32 << n) - 1) as u32)) as nat == (p as nat) % pow2n(n as nat),
{
    let m = (32 - n) as u32;
    assert(((a >> n) | (p << m)) == (a >> n) + ((p & (((1u32 << n) - 1) as u32)) << m))
        by (bit_vector)
        requires
            0 < n < 32,
            m == 32 - n,
    ;
    assert(a >> n == a / (1u32 << n)) by (bit_vector)
        requires
            n < 32,
    ;
    let mask = (((1u32 << n) - 1) as u32);
    assert(p == ((p >> n) << n) + (p & mask)) by (bit_vector)
        requires
            n < 32,
            mask == (((1u32 << n) - 1) as u32),
    ;
    assert(((p >> n) << n) == (p >> n) * (1u32 << n)) by (bit_vector)
        requires
            n < 32,
    ;
    assert((p & mask) < (1u32 << n)) by (bit_vector)
        requires
            n < 32,
            mask == (((1u32 << n) - 1) as u32),
    ;
    assert(p >> n == p / (1u32 << n)) by (bit_vector)
        requires
            n < 32,
    ;
    vstd::arithmetic::div_mod::lemma_fundamental_div_mod_converse(
        p as int,
        (1u32 << n) as int,
        (p >> n) as int,
        (p & mask) as int,
    );
    assert(((p & (((1u32 << n) - 1) as u32)) << m) == (p & (((1u32 << n) - 1) as u32)) * (1u32
        << m)) by (bit_vector)
        requires
            0 < n < 32,
            m == 32 - n,
    ;
    lemma_u32_shl_one(n);
    lemma_u32_shl_one(m);
}

/// Dividing a number whose low limb is `a` by a divisor `P` of `B`.
pub proof fn lemma_shr_limb_step(a: nat, v: nat, p: nat, q: nat)
    requires
        p > 0,
        q > 0,
        p * q == limb_base(),
    ensures
        (a + limb_base() * v) / p == a / p + q * (v % p) + limb_base() * (v / p),
        (a + limb_base() * v) % p == a % p,
{
    let w = a / p + q * (v % p) + limb_base() * (v / p);
    vstd::arithmetic::div_mod::lemma_fundamental_div_mod(a as int, p as int);
    vstd::arithmetic::div_mod::lemma_fundamental_div_mod(v as int, p as int);
    let aq = a / p;
    let ar = a % p;
    let vq = v / p;
    let vr = v % p;
    assert(a + limb_base() * v == p * w + ar) by (nonlinear_arith)
        requires
            a == p * aq + ar,
            v == p * vq + vr,
            p * q == limb_base(),
            w == aq + q * vr + limb_base() * vq,
    ;
    vstd::arithmetic::div_mod::lemma_fundamental_div_mod_converse(
        (a + limb_base() * v) as int,
        p as int,
        w as int,
        ar as int,
    );
}

/// Quotient and remainder are determined by `x == d*q + r` with `r < d`.
pub proof fn lemma_div_mod_unique(x: nat, d: nat, q: nat, r: nat)
    requires
        d > 0,
        r < d,
        x == d * q + r,
    ensures
        x / d == q,
        x % d == r,
{
    assert(d * q == q * d) by (nonlinear_arith);
    vstd::arithmetic::div_mod::lemma_fundamental_div_mod_converse(
        x as int,
        d as int,
        q as int,
        r as int,
    );
}

/// A sequence of the same length whose value is at least that of a
/// normalized sequence is normalized.
pub proof fn lemma_normalized_by_value(s: Seq<u32>, t: Seq<u32>)
    requires
        is_normalized(s),
        t.len() == s.len(),
        value(t) >= value(s),
    ensures
        is_normalized(t),
{
    if t.len() > 0 && t.last() == 0 {
        lemma_value_drop_last_zero(t);
        lemma_value_bound(t.drop_last());
        lemma_value_lower_bound(s);
    }
}

/// A sequence whose value reaches `B^(len-1)` has a non-zero top limb.
pub proof fn lemma_normalized_by_lower_bound(t: Seq<u32>)
    requires
        t.len() > 0,
        value(t) >= big_pow((t.len() - 1) as nat),
    ensures
        is_normalized(t),
{
    if t.last() == 0 {
        lemma_value_drop_last_zero(t);
        lemma_value_bound(t.drop_last());
    }
}

/// Equal-length sequences that agree above `k` compare like their limbs at `k`.
pub proof fn lemma_value_order_at(x: Seq<u32>, y: Seq<u32>, k: int)
    requires
        x.len() == y.len(),
        0 <= k < x.len(),
        forall|j: int| k < j < x.len() ==> x[j] == y[j],
        x[k] > y[k],
    ensures
        value(x) > value(y),
{
    lemma_value_split(x, k + 1);
    lemma_value_split(y, k + 1);
    assert(x.skip(k + 1) =~= y.skip(k + 1));
    lemma_value_take_step(x, k);
    lemma_value_take_step(y, k);
    assert(x.take(k + 1).take(k) =~= x.take(k));
    lemma_value_bound(y.take(k));
    let bp = big_pow(k as nat);
    let xk = x[k] as nat;
    let yk = y[k] as nat;
    assert(xk * bp >= yk * bp + bp) by (nonlinear_arith)
        requires
            xk >= yk + 1,
    ;
}

/// A normalized sequence below `B^k` has at most `k` limbs.
pub proof fn lemma_normalized_len_bound(s: Seq<u32>, k: nat)
    requires
        is_normalized(s),
        value(s) < big_pow(k),
    ensures
        s.len() <= k,
{
    if s.len() > k {
        lemma_value_lower_bound(s);
        lemma_big_pow_mono(k, (s.len() - 1) as nat);
    }
}

/// Exponentiation by squaring: `b^k == b^(k%2) * (b*b)^(k/2)`.
pub proof fn lemma_powi_square(b: nat, k: nat)
    ensures
        powi(b, k) == powi(b, k % 2) * powi(b * b, k / 2),
{
    lemma_powi_add(b, (2 * (k / 2)) as nat, k % 2);
    lemma_powi_mul(b, 2, k / 2);
    assert(powi(b, 0) == 1);
    assert(powi(b, 1) == b * powi(b, 0));
    assert(powi(b, 2) == b * powi(b, 1));
    assert(powi(b, 2) == b * b);
    let p = powi(b, (2 * (k / 2)) as nat);
    let q = powi(b, k % 2);
    assert(p * q == q * p) by (nonlinear_arith);
    assert(k == 2 * (k / 2) + k % 2);
}

/// Trimming keeps the value, gives a normalized prefix, and drops only zeros.
pub proof fn lemma_trim(s: Seq<u32>)
    ensures
        value(trim(s)) == value(s),
        is_normalized(trim(s)),
        trim(s).len() <= s.len(),
        trim(s) =~= s.take(trim(s).len() as int),
        forall|i: int| trim(s).len() <= i < s.len() ==> s[i] == 0,
        is_normalized(s) ==> trim(s) == s,
    decreases s.len(),
{
    if s.len() > 0 && s.last() == 0 {
        lemma_trim(s.drop_last());
        lemma_value_drop_last_zero(s);
        let t = trim(s.drop_last());
        assert(t =~= s.take(t.len() as int));
        assert forall|i: int| t.len() <= i < s.len() implies s[i] == 0 by {
            if i < s.len() - 1 {
                assert(s.drop_last()[i] == s[i]);
            }
        }
    } else {
        assert(s =~= s.take(s.len() as int));
    }
}

/// The leading zeros of a non-zero limb place it between two powers of two.
pub proof fn lemma_leading_zeros_bounds(i: u32)
    ensures
        i.leading_zeros() <= 32,
        (i == 0) == (i.leading_zeros() == 32),
        i != 0 ==> pow2n((31 - i.leading_zeros()) as nat) <= i,
        i != 0 ==> (i as nat) < pow2n((32 - i.leading_zeros()) as nat),
{
    vstd::std_specs::bits::axiom_u32_leading_zeros(i);
    let lz = i.leading_zeros();
    if i != 0 {
        let k = (31 - lz) as u32;
        assert((i >> k) & 1u32 != 0u32 ==> (i >> k) != 0u32) by (bit_vector);
        lemma_u32_shr(i, k);
        lemma_pow2n_pos(k as nat);
        if (i as nat) < pow2n(k as nat) {
            vstd::arithmetic::div_mod::lemma_basic_div(i as int, pow2n(k as nat) as int);
        }
        if lz > 0 {
            let m = (32 - lz) as u32;
            lemma_u32_shr(i, m);
            lemma_pow2n_pos(m as nat);
            if (i as nat) >= pow2n(m as nat) {
                vstd::arithmetic::div_mod::lemma_div_is_ordered(
                    pow2n(m as nat) as int,
                    i as int,
                    pow2n(m as nat) as int,
                );
                vstd::arithmetic::div_mod::lemma_div_by_self(pow2n(m as nat) as int);
            }
        } else {
            lemma_pow2n_32();
        }
    }
}

/// The value is zero exactly when every limb is zero.
pub proof fn lemma_value_zero_all(s: Seq<u32>)
    ensures
        (value(s) == 0) == (forall|i: int| 0 <= i < s.len() ==> s[i] == 0),
    decreases s.len(),
{
    if s.len() > 0 {
        let t = s.subrange(1, s.len() as int);
        lemma_value_zero_all(t);
        if value(s) == 0 {
            assert(value(t) == 0) by (nonlinear_arith)
                requires
                    s[0] + limb_base() * value(t) == 0,
            ;
            assert forall|i: int| 0 <= i < s.len() implies s[i] == 0 by {
                if i > 0 {
                    assert(t[i - 1] == s[i]);
                }
            }
        } else {
            if forall|i: int| 0 <= i < s.len() ==> s[i] == 0 {
                assert forall|i: int| 0 <= i < t.len() implies t[i] == 0 by {
                    assert(t[i] == s[i + 1]);
                }
                assert(s[0] == 0);
            }
        }
    }
}

/// `1^n == 1`.
pub proof fn lemma_powi_one(n: nat)
    ensures
        powi(1, n) == 1,
    decreases n,
{
    if n > 0 {
        lemma_powi_one((n - 1) as nat);
    }
}

/// The normalized limbs of a number, least significant first.
pub open spec fn limbs_of(v: nat) -> Seq<u32>
    decreases v,
{
    if v == 0 {
        Seq::<u32>::empty()
    } else {
        proof {
            vstd::arithmetic::div_mod::lemma_div_decreases(v as int, limb_base() as int);
        }
        seq![(v % limb_base()) as u32] + limbs_of(v / limb_base())
    }
}

/// `limbs_of` writes the number, normalized; any normalized sequence is the
/// `limbs_of` its value.
pub proof fn lemma_limbs_of(v: nat)
    ensures
        value(limbs_of(v)) == v,
        is_normalized(limbs_of(v)),
    decreases v,
{
    if v > 0 {
        vstd::arithmetic::div_mod::lemma_div_decreases(v as int, limb_base() as int);
        let q = v / limb_base();
        let r = (v % limb_base()) as u32;
        lemma_limbs_of(q);
        let rest = limbs_of(q);
        let s = seq![r] + rest;
        assert(s.subrange(1, s.len() as int) =~= rest);
        assert(s[0] == r);
        vstd::arithmetic::div_mod::lemma_fundamental_div_mod(v as int, limb_base() as int);
        if rest.len() == 0 {
            assert(value(rest) == 0);
            assert(q == 0);
            assert(s.last() == r);
        } else {
            assert(s.last() == rest.last());
        }
    }
}

/// A normalized sequence is the `limbs_of` its value.
pub proof fn lemma_normalized_is_limbs_of(s: Seq<u32>)
    requires
        is_normalized(s),
    ensures
        s == limbs_of(value(s)),
{
    lemma_limbs_of(value(s));
    lemma_normalized_unique(s, limbs_of(value(s)));
}

/// Powers grow with the exponent.
pub proof fn lemma_powi_mono_exp(b: nat, i: nat, j: nat)
    requires
        b >= 1,
        i <= j,
    ensures
        powi(b, i) <= powi(b, j),
    decreases j,
{
    if i < j {
        lemma_powi_mono_exp(b, i, (j - 1) as nat);
        lemma_powi_pos(b, (j - 1) as nat);
        let p = powi(b, (j - 1) as nat);
        assert(b * p >= p) by (nonlinear_arith)
            requires
                b >= 1,
        ;
    }
}

/// Powers grow with the base.
pub proof fn lemma_powi_mono_base(a: nat, b: nat, n: nat)
    requires
        a <= b,
    ensures
        powi(a, n) <= powi(b, n),
    decreases n,
{
    if n > 0 {
        lemma_powi_mono_base(a, b, (n - 1) as nat);
        let p = powi(a, (n - 1) as nat);
        let q = powi(b, (n - 1) as nat);
        assert(a * p <= b * q) by (nonlinear_arith)
            requires
                a <= b,
                p <= q,
        ;
    }
}

/// `64^n == 2^(6 n)`.
pub proof fn lemma_powi_64(n: nat)
    ensures
        powi(64, n) == pow2n(6 * n),
{
    lemma_powi_mul(2, 6, n);
    lemma_powi_two(6 * n);
    reveal_with_fuel(powi, 7);
    assert(powi(2, 6) == 64);
}

/// Powers of two are strictly ordered by their exponents.
pub proof fn lemma_pow2n_strict(a: nat, b: nat)
    requires
        pow2n(a) < pow2n(b),
    ensures
        a < b,
{
    if a >= b {
        lemma_pow2n_mono(b, a);
    }
}

/// The value of two limbs.
pub proof fn lemma_value_two(s: Seq<u32>)
    requires
        s.len() == 2,
    ensures
        value(s) == s[0] + s[1] * limb_base(),
{
    assert(s.subrange(1, 2).subrange(1, 1) =~= Seq::<u32>::empty());
    assert(value(Seq::<u32>::empty()) == 0);
    assert(s.subrange(1, 2)[0] == s[1]);
    assert(value(s.subrange(1, 2)) == s[1]);
    let a = s[1] as nat;
    assert(limb_base() * a == a * limb_base()) by (nonlinear_arith);
}

/// The value of three limbs.
pub proof fn lemma_value_three(s: Seq<u32>)
    requires
        s.len() == 3,
    ensures
        value(s) == s[0] + limb_base() * s[1] + limb_base() * limb_base() * s[2],
{
    let t = s.subrange(1, 3);
    lemma_value_two(t);
    assert(t[0] == s[1] && t[1] == s[2]);
    assert(value(s) == s[0] + limb_base() * value(t));
    let b = limb_base();
    assert(b * ((s[1] as nat) + (s[2] as nat) * b) == b * s[1] + b * b * s[2])
        by (nonlinear_arith);
}

} // verus!
