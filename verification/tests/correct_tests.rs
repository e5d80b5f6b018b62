use lexical_core::cached::ExtendedFloat;
use lexical_core::correct::{
    FloatErrors, Mantissa,
    normalize_exponent, normalize_mantissa, parse_checked, parse_float, parse_mantissa,
    pow2_exponent, usize_to_i32,
};

fn check_parse_mantissa<M: Mantissa + PartialEq + std::fmt::Debug>(
    base: u32,
    s: &str,
    tup: (M, i32, usize, bool),
) {
    let (v, d, p, t) = parse_mantissa::<M>(base, s.as_bytes());
    assert_eq!(v, tup.0);
    assert_eq!(d, tup.1);
    assert_eq!(p, tup.2);
    assert_eq!(t, tup.3);
}

fn check_parse_float<M: Mantissa + PartialEq + std::fmt::Debug>(
    base: u32,
    s: &str,
    tup: (M, i32, usize, bool),
) {
    let (v, e, p, t) = parse_float::<M>(base, s.as_bytes());
    assert_eq!(v, tup.0);
    assert_eq!(e, tup.1);
    assert_eq!(p, tup.2);
    assert_eq!(t, tup.3);
}

#[test]
fn correct_parse_mantissa_test() {
    // 64-bit
    check_parse_mantissa::<u64>(10, "1.2345", (12345, 4, 6, false));
    check_parse_mantissa::<u64>(10, "12.345", (12345, 3, 6, false));
    check_parse_mantissa::<u64>(10, "12345.6789", (123456789, 4, 10, false));
    check_parse_mantissa::<u64>(10, "1.2345e10", (12345, 4, 6, false));
    check_parse_mantissa::<u64>(10, "0.0000000000000000001", (1, 19, 21, false));
    check_parse_mantissa::<u64>(10, "0.00000000000000000000000000001", (1, 29, 31, false));
    check_parse_mantissa::<u64>(10, "100000000000000000000", (10000000000000000000, -1, 21, true));

    // 128-bit
    check_parse_mantissa::<u128>(10, "1.2345", (12345, 4, 6, false));
    check_parse_mantissa::<u128>(10, "12.345", (12345, 3, 6, false));
    check_parse_mantissa::<u128>(10, "12345.6789", (123456789, 4, 10, false));
    check_parse_mantissa::<u128>(10, "1.2345e10", (12345, 4, 6, false));
    check_parse_mantissa::<u128>(10, "0.0000000000000000001", (1, 19, 21, false));
    check_parse_mantissa::<u128>(10, "0.00000000000000000000000000001", (1, 29, 31, false));
    check_parse_mantissa::<u128>(10, "100000000000000000000", (100000000000000000000, 0, 21, false));
}

#[test]
fn correct_parse_float_test() {
    // 64-bit
    check_parse_float::<u64>(10, "1.2345", (12345, -4, 6, false));
    check_parse_float::<u64>(10, "12.345", (12345, -3, 6, false));
    check_parse_float::<u64>(10, "12345.6789", (123456789, -4, 10, false));
    check_parse_float::<u64>(10, "1.2345e10", (12345, 6, 9, false));
    check_parse_float::<u64>(10, "100000000000000000000", (1, 20, 21, true));
    check_parse_float::<u64>(10, "100000000000000000001", (1, 20, 21, true));

    // 128-bit
    check_parse_float::<u128>(10, "1.2345", (12345, -4, 6, false));
    check_parse_float::<u128>(10, "12.345", (12345, -3, 6, false));
    check_parse_float::<u128>(10, "12345.6789", (123456789, -4, 10, false));
    check_parse_float::<u128>(10, "1.2345e10", (12345, 6, 9, false));
    check_parse_float::<u128>(10, "100000000000000000000", (1, 20, 21, false));
    check_parse_float::<u128>(10, "100000000000000000001", (100000000000000000001, 0, 21, false));
}

#[test]
fn parse_mantissa_edge_test() {
    // A dot needs a byte after it to count.
    check_parse_mantissa::<u64>(10, "12.", (12, 0, 2, false));
    check_parse_mantissa::<u64>(10, "12.e5", (12, 0, 3, false));
    // Digits of the fraction past an overflowing integer only move the dot.
    check_parse_mantissa::<u64>(10, "100000000000000000000.123", (10000000000000000000, 2, 25, true));
    // The fraction overflows in turn.
    check_parse_mantissa::<u64>(10, "1.0000000000000000000123", (10000000000000000000, 19, 24, true));
    // Nothing but zeros.
    check_parse_mantissa::<u64>(10, "000", (0, 0, 3, false));
    check_parse_mantissa::<u64>(10, "0.000", (0, 3, 5, false));
    // Other bases.
    check_parse_mantissa::<u64>(16, "ff.8", (0xff8, 1, 4, false));
    check_parse_mantissa::<u64>(2, "101.1", (0b1011, 1, 5, false));
}

#[test]
fn parse_checked_test() {
    let mut v: u64 = 0;
    assert_eq!(parse_checked(&mut v, 10, b"123x", 0), (3, 0));
    assert_eq!(v, 123);
    let mut v: u64 = 7;
    assert_eq!(parse_checked(&mut v, 10, b"..12", 2), (4, 0));
    assert_eq!(v, 712);
    let mut v: u64 = 0;
    assert_eq!(parse_checked(&mut v, 10, b"18446744073709551615", 0), (20, 0));
    assert_eq!(v, u64::MAX);
    let mut v: u64 = 0;
    assert_eq!(parse_checked(&mut v, 10, b"18446744073709551616", 0), (20, 1));
    assert_eq!(v, 1844674407370955161);
    let mut v: u128 = 0;
    assert_eq!(parse_checked(&mut v, 10, b"18446744073709551616", 0), (20, 0));
    assert_eq!(v, 18446744073709551616);
}

#[test]
fn parse_float_edge_test() {
    // Exponent and shift together; zeros move to the exponent.
    check_parse_float::<u64>(10, "1200e-3", (12, -1, 7, false));
    check_parse_float::<u64>(10, "0.0", (0, 0, 3, false));
    check_parse_float::<u64>(16, "1.8^2", (0x18, 1, 5, false));
}

#[test]
fn correct_normalize_exponent_test() {
    assert_eq!(normalize_exponent(10, 5), 5);
    assert_eq!(normalize_exponent(0, 5), -5);
    assert_eq!(normalize_exponent(i32::max_value(), 5), i32::max_value());
    assert_eq!(normalize_exponent(i32::min_value(), 5), i32::min_value());
}

#[test]
fn normalize_mantissa_test() {
    assert_eq!(normalize_mantissa::<u64>(100, 10, 0), (1, 2));
    assert_eq!(normalize_mantissa::<u64>(101, 10, 0), (101, 0));
    assert_eq!(normalize_mantissa::<u64>(110, 10, 0), (11, 1));
}

#[test]
fn normalize_mantissa_more_test() {
    // Every factor of the base moves to the exponent.
    assert_eq!(normalize_mantissa::<u64>(10000000000000000000, 10, 0), (1, 19));
    assert_eq!(normalize_mantissa::<u64>(1000, 10, -3), (1, 0));
    assert_eq!(normalize_mantissa::<u64>(81 * 7, 3, 5), (7, 9));
    // A zero mantissa only gains one.
    assert_eq!(normalize_mantissa::<u64>(0, 10, 4), (0, 5));
    // Wider mantissas hold more factors.
    assert_eq!(normalize_mantissa::<u128>(1000000000000000000000000000000, 10, 0), (1, 30));
    assert_eq!(normalize_mantissa::<u128>(3 << 100, 2, -100), (3, 0));
}

#[test]
fn usize_to_i32_test() {
    assert_eq!(usize_to_i32(0), 0);
    assert_eq!(usize_to_i32(12345), 12345);
    assert_eq!(usize_to_i32(0x7FFF_FFFF), i32::max_value());
    assert_eq!(usize_to_i32(usize::max_value()), i32::max_value());
}

#[test]
fn pow2_exponent_test() {
    assert_eq!(pow2_exponent(2), 1);
    assert_eq!(pow2_exponent(8), 3);
    assert_eq!(pow2_exponent(32), 5);
    assert_eq!(pow2_exponent(10), 0);
}

#[test]
fn error_is_accurate_test() {
    // f64: 11 bits below the 53-bit mantissa, halfway at 1024.
    let fp = |mant: u64, exp: i32| ExtendedFloat { mant, exp };
    assert!(u64::error_is_accurate(4, &fp(0x8000_0000_0000_0000, 0), 1023, 52));
    assert!(!u64::error_is_accurate(4, &fp(0x8000_0000_0000_0400, 0), 1023, 52));
    assert!(!u64::error_is_accurate(4, &fp(0x8000_0000_0000_0403, 0), 1023, 52));
    assert!(u64::error_is_accurate(4, &fp(0x8000_0000_0000_0404, 0), 1023, 52));
    assert!(u64::error_is_accurate(0, &fp(0x8000_0000_0000_0400, 0), 1023, 52));
    // Denormal results keep more bits: at exp -1040, 6 more.
    assert!(!u64::error_is_accurate(4, &fp(0x8000_0000_0002_0000, -1040), 1023, 52));
    assert!(u64::error_is_accurate(4, &fp(0x8000_0000_0000_0400, -1040), 1023, 52));
}

#[test]
fn error_scale_test() {
    assert_eq!(<u64 as FloatErrors>::error_scale(), 8);
    assert_eq!(<u64 as FloatErrors>::error_halfscale(), 4);
    assert_eq!(<u128 as FloatErrors>::error_scale(), 0);
    assert_eq!(<u128 as FloatErrors>::error_halfscale(), 0);
    assert!(u128::error_is_accurate(100, &ExtendedFloat { mant: 1u128 << 127, exp: 0 }, 1023, 52));
}
