use lexical_core::bigcomp::{fast_compare_digits, slow_ratio, Bigint};
use lexical_core::cached::ExtendedFloat;
use lexical_core::math::large;
use lexical_core::math::small;
use std::cmp::Ordering;

fn bigint(data: Vec<u32>) -> Bigint {
    Bigint::from_raw_parts(data, 0)
}

#[test]
fn add_sub_roundtrip_test() {
    let mut x = vec![0xFFFFFFFF, 0xFFFFFFFF, 7];
    small::iadd(&mut x, 9);
    small::isub(&mut x, 9);
    assert_eq!(x, vec![0xFFFFFFFF, 0xFFFFFFFF, 7]);

    let y = vec![1, 0xFFFFFFFF];
    let mut z = large::add(&x, &y);
    large::isub(&mut z, &y);
    assert_eq!(z, x);
}

#[test]
fn mul_div_roundtrip_test() {
    let mut x = bigint(vec![0x12345678, 0x9ABCDEF0, 3]);
    x.imul_small(1000000007);
    assert_eq!(x.idiv_small(1000000007), 0);
    assert_eq!(x.data(), vec![0x12345678, 0x9ABCDEF0, 3]);

    let x = vec![0x12345678, 0x9ABCDEF0, 3];
    let y = vec![0xDEADBEEF, 0x1234];
    let z = large::mul(&x, &y);
    let (q, r) = large::div(&z, &y);
    assert_eq!(q, x);
    assert_eq!(r, Vec::<u32>::new());
}

#[test]
fn shl_shr_roundtrip_test() {
    for n in [1usize, 5, 31, 32, 33, 64, 100] {
        let x = bigint(vec![0xD2210408, 0x8040100, 0x20020010]);
        let y = x.shl(n);
        let z = y.shr(n, false);
        assert_eq!(z.data(), vec![0xD2210408, 0x8040100, 0x20020010]);
    }
}

#[test]
fn div_rem_test() {
    let x = vec![0xCCCCCCCF, 0x5CCCCCCC, 0x9997FFFF, 0x33319999, 0x999A7333, 0xD999];
    let y = vec![0x99999999, 0x99999999, 0xCCCD9999, 0xCCCC];
    let (q, r) = large::div(&x, &y);
    let mut back = large::mul(&q, &y);
    large::iadd(&mut back, &r);
    assert_eq!(back, x);
    assert!(large::less(&r, &y));
}

#[test]
fn normalize_idempotent_test() {
    let mut x = vec![1, 2, 0, 0];
    small::normalize(&mut x);
    assert_eq!(x, vec![1, 2]);
    small::normalize(&mut x);
    assert_eq!(x, vec![1, 2]);
}

#[test]
fn compare_by_value_test() {
    let x = bigint(vec![5, 1, 9]);
    let y = bigint(vec![6, 2, 8]);
    assert!(x.greater(&y) && y.less(&x));
    assert!(!y.greater(&x) && !x.less(&y));
    assert!(!x.equal(&y));
    assert!(x.equal(&bigint(vec![5, 1, 9])));
}

#[test]
fn pow_add_test() {
    let x = vec![7u32];
    let a = small::pow(&x, 20);
    let b = small::pow(&x, 13);
    assert_eq!(large::mul(&a, &b), small::pow(&x, 33));
}

#[test]
fn karatsuba_split_test() {
    let z = [1u32, 2, 3, 4, 5];
    let (lo, hi) = large::karatsuba_split(&z, 2);
    assert_eq!(lo, &[1, 2]);
    assert_eq!(hi, &[3, 4, 5]);
    let (lo, hi) = large::karatsuba_split(&z, 0);
    assert_eq!(lo, &[] as &[u32]);
    assert_eq!(hi, &[1, 2, 3, 4, 5]);
}

#[test]
fn slow_ratio_value_test() {
    // b+h of 1.0 is (2^53 + 1) * 2^-53; against 10^0 the ratio is that value:
    // num * 2^53 == den * (2^53 + 1).
    let b = ExtendedFloat { mant: 1u64 << 52, exp: -52 };
    let (num, den) = slow_ratio(10, 0, b);
    assert_eq!(num.exp(), den.exp());
    let lhs = small::shl(&num.data(), 53);
    let rhs = large::mul(&den.data(), &[1, 1 << 21]);
    assert_eq!(lhs, rhs);
}

#[test]
fn digits_order_value_test() {
    // 1/8 = 0.125: "0125" against num 1, den 8 compares equal, and a larger
    // or smaller digit string compares the same way as the values.
    assert_eq!(fast_compare_digits(b"0125", 10, 1, 8), Ordering::Equal);
    assert_eq!(fast_compare_digits(b"0126", 10, 1, 8), Ordering::Greater);
    assert_eq!(fast_compare_digits(b"01249", 10, 1, 8), Ordering::Less);
    assert_eq!(fast_compare_digits(b"1", 10, 1, 8), Ordering::Greater);
    // Base 16 with letter digits: 171/16 = 10.6875 = "A.B".
    assert_eq!(fast_compare_digits(b"AB", 16, 171, 16), Ordering::Equal);
    assert_eq!(fast_compare_digits(b"AA", 16, 171, 16), Ordering::Less);
}

#[test]
fn karatsuba_mul_test() {
    // Both operands long enough to split into three products.
    let x: Vec<u32> = (1..=40).collect();
    let y: Vec<u32> = (4..=43).collect();
    let z = large::karatsuba_mul(&x, &y);
    assert_eq!(z, large::mul(&x, &y));
    assert_eq!(z[0], 4);
    assert_eq!(z[1], 13);

    // Full limbs carry across the halves.
    let x: Vec<u32> = vec![0xFFFF_FFFF; 36];
    let y: Vec<u32> = vec![0xFFFF_FFFF; 36];
    let z = large::karatsuba_mul(&x, &y);
    assert_eq!(z, large::mul(&x, &y));
    assert_eq!(z.len(), 72);
    assert_eq!(z[0], 1);
    assert_eq!(z[71], 0xFFFF_FFFF);
}

#[test]
fn karatsuba_uneven_mul_test() {
    let x: Vec<u32> = (1..=16).collect();
    let y: Vec<u32> = (4..=37).collect();
    let z = large::karatsuba_uneven_mul(&x, &y);
    assert_eq!(z, vec![4, 13, 28, 50, 80, 119, 168, 228, 300, 385, 484, 598, 728, 875, 1040, 1224, 1360, 1496, 1632, 1768, 1904, 2040, 2176, 2312, 2448, 2584, 2720, 2856, 2992, 3128, 3264, 3400, 3536, 3672, 3770, 3829, 3848, 3826, 3762, 3655, 3504, 3308, 3066, 2777, 2440, 2054, 1618, 1131, 592]);
    // Nothing to multiply by.
    let z = large::karatsuba_uneven_mul(&[], &[]);
    assert_eq!(z, Vec::<u32>::new());
}

#[test]
fn karatsuba_mul_fwd_test() {
    let x: Vec<u32> = (1..=16).collect();
    let y: Vec<u32> = (4..=19).collect();
    let expected = vec![4, 13, 28, 50, 80, 119, 168, 228, 300, 385, 484, 598, 728, 875, 1040, 1224, 1340, 1435, 1508, 1558, 1584, 1585, 1560, 1508, 1428, 1319, 1180, 1010, 808, 573, 304];
    assert_eq!(large::karatsuba_mul_fwd(&x, &y), expected);
    assert_eq!(large::karatsuba_mul_fwd(&y, &x), expected);
    let x: Vec<u32> = (1..=50).collect();
    let y: Vec<u32> = (7..=40).collect();
    assert_eq!(large::karatsuba_mul_fwd(&x, &y), large::mul(&x, &y));
    assert_eq!(large::karatsuba_mul_fwd(&y, &x), large::mul(&x, &y));
}

#[test]
fn parse_mantissa_exact_test() {
    // Where nothing is truncated, the native mantissa and its dot shift are
    // the big-integer mantissa and its count of fraction digits.
    for s in ["12345.6789", "0.000123", "1.", "00042", "7.0e3", "123456789.123456789"] {
        let (m, shift, _, truncated) =
            lexical_core::correct::parse_mantissa::<u64>(10, s.as_bytes());
        assert!(!truncated);
        let mut big = lexical_core::bigfloat::Bigfloat::new();
        let (digits, _) =
            lexical_core::bigfloat::parse_mantissa(&mut big, s.as_bytes(), 0, 10);
        let expected = lexical_core::bigfloat::Bigfloat::from_u64(m);
        assert_eq!(big.data(), expected.data());
        assert_eq!(shift as usize, digits);
    }
}

#[test]
fn scale_exact_test() {
    // A positive exponent scales exactly: value * 2^exp == mantissa * base^e.
    let (b, _) = lexical_core::bigfloat::Bigfloat::from_bytes::<lexical_core::bigfloat::Binary64>(10, b"12e3");
    assert_eq!(b.data(), vec![1500]);
    assert_eq!(b.exp(), 3);
    assert_eq!(1500u64 << 3, 12000);
    let (b, _) = lexical_core::bigfloat::Bigfloat::from_bytes::<lexical_core::bigfloat::Binary64>(6, b"5e2");
    // 5 * 6^2 = 180 = 45 * 2^2
    assert_eq!(b.data(), vec![45]);
    assert_eq!(b.exp(), 2);
}

#[test]
fn karatsuba_short_low_half_test() {
    // Low halves that are zero: the low product is empty and is padded.
    let mut x: Vec<u32> = vec![0; 20];
    x.extend((1..=20).collect::<Vec<u32>>());
    let mut y: Vec<u32> = vec![0; 20];
    y.extend((5..=25).collect::<Vec<u32>>());
    assert_eq!(large::karatsuba_mul(&x, &y), large::mul(&x, &y));
    assert_eq!(large::karatsuba_mul_fwd(&y, &x), large::mul(&x, &y));
    // An empty operand gives zero on every path.
    let y: Vec<u32> = (1..=40).collect();
    assert_eq!(large::karatsuba_mul(&[], &y), Vec::<u32>::new());
    assert_eq!(large::karatsuba_uneven_mul(&[], &y), Vec::<u32>::new());
}
